//! The token codec: claims are framed into a byte payload, signed with a
//! server-held secret, and read back only after the signature has been
//! checked. A token is payload bytes, a separator, and the signature.

use vstd::prelude::*;

verus! {

/// Version tag that opens every payload.
pub const PAYLOAD_VERSION: u8 = 1;

/// Separator between the payload and the signature.
pub const TOKEN_SEPARATOR: u8 = 46;

/// Big-endian bytes of a 64-bit integer, most significant byte first.
pub open spec fn u64_be(n: u64) -> Seq<u8> {
    seq![
        ((n >> 56) & 0xff) as u8,
        ((n >> 48) & 0xff) as u8,
        ((n >> 40) & 0xff) as u8,
        ((n >> 32) & 0xff) as u8,
        ((n >> 24) & 0xff) as u8,
        ((n >> 16) & 0xff) as u8,
        ((n >> 8) & 0xff) as u8,
        (n & 0xff) as u8,
    ]
}

/// The integer read back from eight big-endian bytes.
pub open spec fn u64_from_be(s: Seq<u8>) -> u64
    recommends
        s.len() == 8,
{
    ((s[0] as u64) << 56) | ((s[1] as u64) << 48) | ((s[2] as u64) << 40)
        | ((s[3] as u64) << 32) | ((s[4] as u64) << 24) | ((s[5] as u64) << 16)
        | ((s[6] as u64) << 8) | (s[7] as u64)
}

/// Reading back the big-endian bytes of `n` yields `n` again.
pub proof fn lemma_u64_be_inverse(n: u64)
    ensures
        u64_from_be(u64_be(n)) == n,
{
    assert(u64_from_be(u64_be(n)) == n) by (bit_vector);
}

/// Eight bytes that are read as an integer are the bytes of that integer.
pub proof fn lemma_u64_from_be_inverse(s: Seq<u8>)
    requires
        s.len() == 8,
    ensures
        u64_be(u64_from_be(s)) =~= s,
{
    let b0 = s[0];
    let b1 = s[1];
    let b2 = s[2];
    let b3 = s[3];
    let b4 = s[4];
    let b5 = s[5];
    let b6 = s[6];
    let b7 = s[7];
    let n = u64_from_be(s);
    assert(n == ((b0 as u64) << 56) | ((b1 as u64) << 48) | ((b2 as u64) << 40)
        | ((b3 as u64) << 32) | ((b4 as u64) << 24) | ((b5 as u64) << 16)
        | ((b6 as u64) << 8) | (b7 as u64));
    assert({
        let m = ((b0 as u64) << 56) | ((b1 as u64) << 48) | ((b2 as u64) << 40)
            | ((b3 as u64) << 32) | ((b4 as u64) << 24) | ((b5 as u64) << 16)
            | ((b6 as u64) << 8) | (b7 as u64);
        &&& ((m >> 56) & 0xff) as u8 == b0
        &&& ((m >> 48) & 0xff) as u8 == b1
        &&& ((m >> 40) & 0xff) as u8 == b2
        &&& ((m >> 32) & 0xff) as u8 == b3
        &&& ((m >> 24) & 0xff) as u8 == b4
        &&& ((m >> 16) & 0xff) as u8 == b5
        &&& ((m >> 8) & 0xff) as u8 == b6
        &&& (m & 0xff) as u8 == b7
    }) by (bit_vector);
}

/// The identity payload carried inside a token: a minimal projection of a
/// user record plus the two timestamps. No password material ever enters it.
#[derive(Debug, PartialEq, Eq)]
pub struct Claims {
    pub subject_id: u64,
    pub username: Vec<u8>,
    pub role: Vec<u8>,
    pub issued_at: u64,
    pub expires_at: u64,
}

/// The mathematical value of a `Claims`.
#[verifier::ext_equal]
pub ghost struct ClaimsV {
    pub subject_id: u64,
    pub username: Seq<u8>,
    pub role: Seq<u8>,
    pub issued_at: u64,
    pub expires_at: u64,
}

impl View for Claims {
    type V = ClaimsV;

    open spec fn view(&self) -> ClaimsV {
        ClaimsV {
            subject_id: self.subject_id,
            username: self.username@,
            role: self.role@,
            issued_at: self.issued_at,
            expires_at: self.expires_at,
        }
    }
}

/// Claims whose variable-length fields can be framed with 64-bit lengths.
pub open spec fn claims_wf(c: ClaimsV) -> bool {
    &&& c.username.len() <= u64::MAX
    &&& c.role.len() <= u64::MAX
}

/// The framed payload: a version byte, three fixed-width integers, then the
/// username and the role, each preceded by its length.
pub open spec fn payload_of(c: ClaimsV) -> Seq<u8> {
    seq![PAYLOAD_VERSION] + u64_be(c.subject_id) + u64_be(c.issued_at) + u64_be(c.expires_at)
        + u64_be(c.username.len() as u64) + c.username + u64_be(c.role.len() as u64) + c.role
}

/// Whether a byte sequence is a well-formed payload: the version matches and
/// the two length fields account exactly for the remaining bytes.
pub open spec fn payload_ok(p: Seq<u8>) -> bool {
    &&& p.len() >= 41
    &&& p[0] == PAYLOAD_VERSION
    &&& {
        let ulen = u64_from_be(p.subrange(25, 33)) as int;
        &&& 41 + ulen <= p.len()
        &&& {
            let rlen = u64_from_be(p.subrange(33 + ulen, 41 + ulen)) as int;
            p.len() == 41 + ulen + rlen
        }
    }
}

/// The claims read back from a well-formed payload.
pub open spec fn payload_claims(p: Seq<u8>) -> ClaimsV
    recommends
        payload_ok(p),
{
    let ulen = u64_from_be(p.subrange(25, 33)) as int;
    ClaimsV {
        subject_id: u64_from_be(p.subrange(1, 9)),
        issued_at: u64_from_be(p.subrange(9, 17)),
        expires_at: u64_from_be(p.subrange(17, 25)),
        username: p.subrange(33, 33 + ulen),
        role: p.subrange(41 + ulen, p.len() as int),
    }
}

/// Framing then reading back yields the claims unchanged.
pub proof fn lemma_payload_round_trip(c: ClaimsV)
    requires
        claims_wf(c),
    ensures
        payload_ok(payload_of(c)),
        payload_claims(payload_of(c)) == c,
{
    let p = payload_of(c);
    let ulen = c.username.len() as int;
    let rlen = c.role.len() as int;
    assert(p.len() == 41 + ulen + rlen);
    assert(p[0] == PAYLOAD_VERSION);
    assert(p.subrange(1, 9) =~= u64_be(c.subject_id));
    assert(p.subrange(9, 17) =~= u64_be(c.issued_at));
    assert(p.subrange(17, 25) =~= u64_be(c.expires_at));
    assert(p.subrange(25, 33) =~= u64_be(c.username.len() as u64));
    lemma_u64_be_inverse(c.subject_id);
    lemma_u64_be_inverse(c.issued_at);
    lemma_u64_be_inverse(c.expires_at);
    lemma_u64_be_inverse(c.username.len() as u64);
    lemma_u64_be_inverse(c.role.len() as u64);
    assert(u64_from_be(p.subrange(25, 33)) as int == ulen);
    assert(p.subrange(33 + ulen, 41 + ulen) =~= u64_be(c.role.len() as u64));
    assert(p.subrange(33, 33 + ulen) =~= c.username);
    assert(p.subrange(41 + ulen, p.len() as int) =~= c.role);
    assert(payload_claims(p) =~= c);
}

/// A well-formed payload is exactly the framing of the claims it carries:
/// framing is canonical, so equal payloads carry equal claims.
pub proof fn lemma_payload_canonical(p: Seq<u8>)
    requires
        payload_ok(p),
    ensures
        claims_wf(payload_claims(p)),
        payload_of(payload_claims(p)) =~= p,
{
    let ulen = u64_from_be(p.subrange(25, 33)) as int;
    let rlen = u64_from_be(p.subrange(33 + ulen, 41 + ulen)) as int;
    let c = payload_claims(p);
    assert(c.username.len() == ulen);
    assert(c.role.len() == rlen);
    lemma_u64_from_be_inverse(p.subrange(1, 9));
    lemma_u64_from_be_inverse(p.subrange(9, 17));
    lemma_u64_from_be_inverse(p.subrange(17, 25));
    lemma_u64_from_be_inverse(p.subrange(25, 33));
    lemma_u64_from_be_inverse(p.subrange(33 + ulen, 41 + ulen));
    assert(u64_be(c.username.len() as u64) =~= p.subrange(25, 33));
    assert(u64_be(c.role.len() as u64) =~= p.subrange(33 + ulen, 41 + ulen));
    assert(payload_of(c) =~= p);
}

/// The signature that the signing routine produces for a message under a
/// secret. HMAC output has no short statement, so only its name is used.
pub uninterp spec fn mac_of(msg: Seq<u8>, secret: Seq<u8>) -> Seq<u8>;

/// Relies on `jsonwebtoken::crypto::sign` with `Algorithm::HS256` and a key
/// built by `EncodingKey::from_secret`: the signature is a deterministic
/// function of the message and the secret alone, and HMAC signing with a
/// plain secret key accepts every key length, so it always succeeds.
#[verifier::external_body]
fn sign_message(msg: &Vec<u8>, secret: &Vec<u8>) -> (r: Option<Vec<u8>>)
    ensures
        r is Some,
        r matches Some(s) ==> s@ == mac_of(msg@, secret@),
{
    let key = jsonwebtoken::EncodingKey::from_secret(secret.as_slice());
    jsonwebtoken::crypto::sign(msg.as_slice(), &key, jsonwebtoken::Algorithm::HS256)
        .ok()
        .map(|s| s.into_bytes())
}

/// The full token: framed payload, separator, signature over the payload.
pub open spec fn token_of(c: ClaimsV, secret: Seq<u8>) -> Seq<u8> {
    payload_of(c) + seq![TOKEN_SEPARATOR] + mac_of(payload_of(c), secret)
}

/// Why a token was rejected. The distinction is for the server's own use and
/// is never exposed to clients.
#[derive(Clone, Copy, Debug, PartialEq, Eq, Structural)]
pub enum TokenError {
    Malformed,
    BadSignature,
    Expired,
}

/// Whether the token has a well-formed frame: a well-formed payload prefix
/// followed by the separator; whatever comes after is taken as the signature.
pub open spec fn token_struct_ok(t: Seq<u8>) -> bool {
    &&& t.len() >= 42
    &&& t[0] == PAYLOAD_VERSION
    &&& {
        let ulen = u64_from_be(t.subrange(25, 33)) as int;
        &&& 42 + ulen <= t.len()
        &&& {
            let rlen = u64_from_be(t.subrange(33 + ulen, 41 + ulen)) as int;
            &&& 42 + ulen + rlen <= t.len()
            &&& t[41 + ulen + rlen] == TOKEN_SEPARATOR
        }
    }
}

/// Length of the payload prefix of a structurally well-formed token.
pub open spec fn spec_payload_len(t: Seq<u8>) -> int {
    let ulen = u64_from_be(t.subrange(25, 33)) as int;
    let rlen = u64_from_be(t.subrange(33 + ulen, 41 + ulen)) as int;
    41 + ulen + rlen
}

/// What decoding a token returns: `Malformed` when the frame cannot be
/// parsed, `BadSignature` when the signature does not match the payload
/// (checked before any claim value is interpreted), `Expired` when `now` is
/// past the expiry claim, and otherwise the embedded claims, untouched.
pub open spec fn spec_decode(t: Seq<u8>, secret: Seq<u8>, now: u64) -> Result<ClaimsV, TokenError> {
    if !token_struct_ok(t) {
        Err(TokenError::Malformed)
    } else {
        let plen = spec_payload_len(t);
        let payload = t.subrange(0, plen);
        let sig = t.subrange(plen + 1, t.len() as int);
        if sig != mac_of(payload, secret) {
            Err(TokenError::BadSignature)
        } else {
            let c = payload_claims(payload);
            if now > c.expires_at {
                Err(TokenError::Expired)
            } else {
                Ok(c)
            }
        }
    }
}

/// Bytes of `v` from `from` (inclusive) to `to` (exclusive).
pub(crate) fn sub_vec(v: &Vec<u8>, from: usize, to: usize) -> (r: Vec<u8>)
    requires
        from <= to <= v@.len(),
    ensures
        r@ == v@.subrange(from as int, to as int),
{
    let mut r: Vec<u8> = Vec::new();
    let mut i: usize = from;
    while i < to
        invariant
            from <= i <= to <= v@.len(),
            r@ == v@.subrange(from as int, i as int),
        decreases to - i,
    {
        r.push(v[i]);
        proof {
            assert(v@.subrange(from as int, i + 1 as int)
                =~= v@.subrange(from as int, i as int).push(v@[i as int]));
        }
        i = i + 1;
    }
    r
}

/// Whether two byte vectors hold the same bytes.
pub(crate) fn bytes_eq(a: &Vec<u8>, b: &Vec<u8>) -> (r: bool)
    ensures
        r == (a@ == b@),
{
    if a.len() != b.len() {
        return false;
    }
    let mut i: usize = 0;
    while i < a.len()
        invariant
            0 <= i <= a@.len(),
            a@.len() == b@.len(),
            forall|j: int| 0 <= j < i ==> a@[j] == b@[j],
        decreases a@.len() - i,
    {
        if a[i] != b[i] {
            return false;
        }
        i = i + 1;
    }
    proof {
        assert(a@ =~= b@);
    }
    true
}

/// Appends the big-endian bytes of `n`.
fn push_u64_be(v: &mut Vec<u8>, n: u64)
    ensures
        final(v)@ == old(v)@ + u64_be(n),
{
    v.push(((n >> 56) & 0xff) as u8);
    v.push(((n >> 48) & 0xff) as u8);
    v.push(((n >> 40) & 0xff) as u8);
    v.push(((n >> 32) & 0xff) as u8);
    v.push(((n >> 24) & 0xff) as u8);
    v.push(((n >> 16) & 0xff) as u8);
    v.push(((n >> 8) & 0xff) as u8);
    v.push((n & 0xff) as u8);
    proof {
        assert(v@ =~= old(v)@ + u64_be(n));
    }
}

/// Reads eight big-endian bytes starting at `off`.
fn read_u64_be(v: &Vec<u8>, off: usize) -> (r: u64)
    requires
        off + 8 <= v@.len(),
        v@.len() <= usize::MAX,
    ensures
        r == u64_from_be(v@.subrange(off as int, off as int + 8)),
{
    let r = ((v[off] as u64) << 56) | ((v[off + 1] as u64) << 48) | ((v[off + 2] as u64) << 40)
        | ((v[off + 3] as u64) << 32) | ((v[off + 4] as u64) << 24) | ((v[off + 5] as u64) << 16)
        | ((v[off + 6] as u64) << 8) | (v[off + 7] as u64);
    proof {
        let s = v@.subrange(off as int, off as int + 8);
        assert(s[0] == v@[off as int]);
        assert(s[1] == v@[off as int + 1]);
        assert(s[2] == v@[off as int + 2]);
        assert(s[3] == v@[off as int + 3]);
        assert(s[4] == v@[off as int + 4]);
        assert(s[5] == v@[off as int + 5]);
        assert(s[6] == v@[off as int + 6]);
        assert(s[7] == v@[off as int + 7]);
    }
    r
}

/// Appends every byte of `src`.
fn push_all(v: &mut Vec<u8>, src: &Vec<u8>)
    ensures
        final(v)@ == old(v)@ + src@,
{
    let mut i: usize = 0;
    while i < src.len()
        invariant
            0 <= i <= src@.len(),
            v@ == old(v)@ + src@.subrange(0, i as int),
        decreases src@.len() - i,
    {
        v.push(src[i]);
        proof {
            assert(old(v)@ + src@.subrange(0, i + 1 as int)
                =~= (old(v)@ + src@.subrange(0, i as int)).push(src@[i as int]));
        }
        i = i + 1;
    }
    proof {
        assert(src@.subrange(0, src@.len() as int) =~= src@);
    }
}

/// Frames the claims into payload bytes.
fn build_payload(c: &Claims) -> (r: Vec<u8>)
    ensures
        r@ == payload_of(c@),
{
    let mut p: Vec<u8> = Vec::new();
    p.push(PAYLOAD_VERSION);
    push_u64_be(&mut p, c.subject_id);
    push_u64_be(&mut p, c.issued_at);
    push_u64_be(&mut p, c.expires_at);
    push_u64_be(&mut p, c.username.len() as u64);
    push_all(&mut p, &c.username);
    push_u64_be(&mut p, c.role.len() as u64);
    push_all(&mut p, &c.role);
    proof {
        assert(p@ =~= payload_of(c@));
    }
    p
}

/// Encodes the claims into a signed token under the secret. Same claims and
/// same secret always give the same token.
pub fn encode(c: &Claims, secret: &Vec<u8>) -> (r: Vec<u8>)
    ensures
        r@ == token_of(c@, secret@),
{
    let payload = build_payload(c);
    let sig = match sign_message(&payload, secret) {
        Some(s) => s,
        None => vstd::pervasive::unreached(),
    };
    let mut token = payload;
    token.push(TOKEN_SEPARATOR);
    push_all(&mut token, &sig);
    proof {
        assert(token@ =~= token_of(c@, secret@));
    }
    token
}

/// Decodes and validates a token: parses the frame, recomputes the signature
/// over the payload and compares it before reading any claim, then checks
/// expiry against `now`. Returns exactly what `spec_decode` says.
pub fn decode(t: &Vec<u8>, secret: &Vec<u8>, now: u64) -> (r: Result<Claims, TokenError>)
    ensures
        match r {
            Ok(c) => spec_decode(t@, secret@, now) == Ok::<ClaimsV, TokenError>(c@),
            Err(e) => spec_decode(t@, secret@, now) == Err::<ClaimsV, TokenError>(e),
        },
{
    let len = t.len();
    if len < 42 {
        return Err(TokenError::Malformed);
    }
    if t[0] != PAYLOAD_VERSION {
        return Err(TokenError::Malformed);
    }
    let ulen = read_u64_be(t, 25);
    if ulen > (len as u64) - 42 {
        return Err(TokenError::Malformed);
    }
    let ulen_us = ulen as usize;
    let rlen = read_u64_be(t, 33 + ulen_us);
    if rlen > (len as u64) - 42 - ulen {
        return Err(TokenError::Malformed);
    }
    let rlen_us = rlen as usize;
    let plen = 41 + ulen_us + rlen_us;
    if t[plen] != TOKEN_SEPARATOR {
        return Err(TokenError::Malformed);
    }
    proof {
        assert(t@.subrange(33 + ulen as int, 41 + ulen as int)
            =~= t@.subrange(33 + ulen as int, 33 + ulen as int + 8));
        assert(token_struct_ok(t@));
        assert(spec_payload_len(t@) == plen as int);
    }
    let payload = sub_vec(t, 0, plen);
    let sig = sub_vec(t, plen + 1, len);
    let mac = match sign_message(&payload, secret) {
        Some(s) => s,
        None => vstd::pervasive::unreached(),
    };
    if !bytes_eq(&sig, &mac) {
        return Err(TokenError::BadSignature);
    }
    proof {
        let p = t@.subrange(0, plen as int);
        assert(p.subrange(25, 33) =~= t@.subrange(25, 33));
        assert(p.subrange(1, 9) =~= t@.subrange(1, 9));
        assert(p.subrange(9, 17) =~= t@.subrange(9, 17));
        assert(p.subrange(17, 25) =~= t@.subrange(17, 25));
        assert(p.subrange(33 + ulen as int, 41 + ulen as int)
            =~= t@.subrange(33 + ulen as int, 41 + ulen as int));
        assert(p.subrange(33, 33 + ulen as int) =~= t@.subrange(33, 33 + ulen as int));
        assert(p.subrange(41 + ulen as int, p.len() as int)
            =~= t@.subrange(41 + ulen as int, plen as int));
        assert(payload_ok(p));
    }
    let subject_id = read_u64_be(t, 1);
    let issued_at = read_u64_be(t, 9);
    let expires_at = read_u64_be(t, 17);
    if now > expires_at {
        return Err(TokenError::Expired);
    }
    let username = sub_vec(t, 33, 33 + ulen_us);
    let role = sub_vec(t, 41 + ulen_us, plen);
    let c = Claims { subject_id, username, role, issued_at, expires_at };
    proof {
        assert(c@ =~= payload_claims(t@.subrange(0, plen as int)));
    }
    Ok(c)
}

/// The frame of a freshly made token splits back into its payload and its
/// signature.
#[verifier::rlimit(60)]
proof fn lemma_token_of_parts(c: ClaimsV, secret: Seq<u8>)
    requires
        claims_wf(c),
    ensures
        token_struct_ok(token_of(c, secret)),
        spec_payload_len(token_of(c, secret)) == payload_of(c).len(),
        token_of(c, secret).subrange(0, payload_of(c).len() as int) == payload_of(c),
        token_of(c, secret).subrange(
            payload_of(c).len() as int + 1,
            token_of(c, secret).len() as int,
        ) == mac_of(payload_of(c), secret),
{
    let p = payload_of(c);
    let t = token_of(c, secret);
    lemma_payload_round_trip(c);
    let ulen = c.username.len() as int;
    let rlen = c.role.len() as int;
    assert(p.len() == 41 + ulen + rlen);
    assert(t.subrange(25, 33) =~= p.subrange(25, 33));
    assert(t.subrange(33 + ulen, 41 + ulen) =~= p.subrange(33 + ulen, 41 + ulen));
    assert(t[41 + ulen + rlen] == TOKEN_SEPARATOR);
    assert(token_struct_ok(t));
    assert(spec_payload_len(t) == p.len());
    assert(t.subrange(0, p.len() as int) =~= p);
    assert(t.subrange(p.len() as int + 1, t.len() as int) =~= mac_of(p, secret));
}

/// Round trip: a token decoded with the secret it was signed with, before
/// its expiry, yields exactly the claims that were encoded.
pub proof fn lemma_token_round_trip(c: ClaimsV, secret: Seq<u8>, now: u64)
    requires
        claims_wf(c),
        now <= c.expires_at,
    ensures
        spec_decode(token_of(c, secret), secret, now) == Ok::<ClaimsV, TokenError>(c),
{
    lemma_token_of_parts(c, secret);
    lemma_payload_round_trip(c);
}

/// Tamper evidence: decoding succeeds only on the exact token produced for
/// those claims under that secret, so no altered token ever decodes to
/// altered claims.
#[verifier::rlimit(60)]
pub proof fn lemma_token_canonical(t: Seq<u8>, secret: Seq<u8>, now: u64, c: ClaimsV)
    requires
        spec_decode(t, secret, now) == Ok::<ClaimsV, TokenError>(c),
    ensures
        claims_wf(c),
        t == token_of(c, secret),
{
    assert(token_struct_ok(t));
    let plen = spec_payload_len(t);
    let p = t.subrange(0, plen);
    let ulen = u64_from_be(t.subrange(25, 33)) as int;
    assert(p.subrange(25, 33) =~= t.subrange(25, 33));
    assert(p.subrange(33 + ulen, 41 + ulen) =~= t.subrange(33 + ulen, 41 + ulen));
    assert(p.subrange(1, 9) =~= t.subrange(1, 9));
    assert(p.subrange(9, 17) =~= t.subrange(9, 17));
    assert(p.subrange(17, 25) =~= t.subrange(17, 25));
    assert(p.subrange(33, 33 + ulen) =~= t.subrange(33, 33 + ulen));
    assert(p.subrange(41 + ulen, p.len() as int) =~= t.subrange(41 + ulen, plen));
    assert(payload_ok(p));
    assert(payload_claims(p) == c);
    lemma_payload_canonical(p);
    assert(payload_of(c) == p);
    let sig = t.subrange(plen + 1, t.len() as int);
    assert(sig == mac_of(p, secret));
    lemma_split_at(t, plen);
    assert(t == p + seq![TOKEN_SEPARATOR] + sig);
    assert(token_of(c, secret) == p + seq![TOKEN_SEPARATOR] + mac_of(p, secret));
}

/// A sequence is its prefix, the element at the split point, and its suffix.
proof fn lemma_split_at(t: Seq<u8>, mid: int)
    requires
        0 <= mid < t.len(),
    ensures
        t == t.subrange(0, mid) + seq![t[mid]] + t.subrange(mid + 1, t.len() as int),
{
    assert(t =~= t.subrange(0, mid) + seq![t[mid]] + t.subrange(mid + 1, t.len() as int));
}

/// A token presented after its expiry is rejected as `Expired`, even though
/// its signature is valid.
pub proof fn lemma_token_expired(c: ClaimsV, secret: Seq<u8>, now: u64)
    requires
        claims_wf(c),
        now > c.expires_at,
    ensures
        spec_decode(token_of(c, secret), secret, now) == Err::<ClaimsV, TokenError>(
            TokenError::Expired,
        ),
{
    lemma_token_of_parts(c, secret);
    lemma_payload_round_trip(c);
}

} // verus!
