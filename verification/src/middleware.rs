//! The request-gating decision of the middleware: extract the bearer token
//! from the authorization header, validate it, and either forward the
//! request with the decoded identity attached or reject it. Stateless and
//! free of side effects; every rejection surfaces as the same status code.

use vstd::prelude::*;
use crate::codec;
use crate::codec::{spec_decode, Claims, TokenError};

verus! {

/// Why a request was rejected. Mapped one-to-one from the token errors; the
/// distinction is for server-side logs only and is never exposed.
#[derive(Clone, Copy, Debug, PartialEq, Eq, Structural)]
pub enum RejectReason {
    MissingToken,
    Malformed,
    BadSignature,
    Expired,
}

/// What the middleware does with a request: forward it with the identity
/// from the validated claims attached, or reject it.
#[derive(Debug)]
pub enum GateDecision {
    Forward(Claims),
    Reject(RejectReason),
}

/// The rejection reason for each way token validation can fail.
pub open spec fn reason_of(e: TokenError) -> RejectReason {
    match e {
        TokenError::Malformed => RejectReason::Malformed,
        TokenError::BadSignature => RejectReason::BadSignature,
        TokenError::Expired => RejectReason::Expired,
    }
}

/// The bytes that open a bearer authorization header.
pub open spec fn bearer_prefix() -> Seq<u8> {
    seq![66u8, 101u8, 97u8, 114u8, 101u8, 114u8, 32u8]
}

/// The token carried by an authorization header value, when the value is a
/// bearer credential.
pub open spec fn bearer_token(header: Seq<u8>) -> Option<Seq<u8>> {
    if header.len() >= 7 && header.subrange(0, 7) == bearer_prefix() {
        Some(header.subrange(7, header.len() as int))
    } else {
        None
    }
}

/// Extracts the token from a bearer authorization header value.
fn extract_bearer(header: &Vec<u8>) -> (r: Option<Vec<u8>>)
    ensures
        match r {
            Some(t) => bearer_token(header@) == Some(t@),
            None => bearer_token(header@) is None,
        },
{
    if header.len() < 7 {
        return None;
    }
    if header[0] != 66 || header[1] != 101 || header[2] != 97 || header[3] != 114 || header[4]
        != 101 || header[5] != 114 || header[6] != 32 {
        proof {
            assert(header@.subrange(0, 7) != bearer_prefix());
        }
        return None;
    }
    proof {
        assert(header@.subrange(0, 7) =~= bearer_prefix());
    }
    Some(codec::sub_vec(header, 7, header.len()))
}

/// The per-request gate. A missing header, or one that is not a bearer
/// credential, rejects with `MissingToken`; a token that fails validation
/// rejects with the reason mapped one-to-one from the token error; a valid,
/// unexpired token has its claims attached and the request is forwarded.
pub fn jwt_middleware(header: Option<&Vec<u8>>, secret: &Vec<u8>, now: u64) -> (d: GateDecision)
    ensures
        match header {
            None => d == GateDecision::Reject(RejectReason::MissingToken),
            Some(h) => match bearer_token(h@) {
                None => d == GateDecision::Reject(RejectReason::MissingToken),
                Some(tok) => match spec_decode(tok, secret@, now) {
                    Ok(c) => d matches GateDecision::Forward(cl) && cl@ == c,
                    Err(e) => d == GateDecision::Reject(reason_of(e)),
                },
            },
        },
{
    let h = match header {
        None => {
            return GateDecision::Reject(RejectReason::MissingToken);
        },
        Some(h) => h,
    };
    let token = match extract_bearer(h) {
        None => {
            return GateDecision::Reject(RejectReason::MissingToken);
        },
        Some(t) => t,
    };
    match codec::decode(&token, secret, now) {
        Ok(claims) => GateDecision::Forward(claims),
        Err(TokenError::Malformed) => GateDecision::Reject(RejectReason::Malformed),
        Err(TokenError::BadSignature) => GateDecision::Reject(RejectReason::BadSignature),
        Err(TokenError::Expired) => GateDecision::Reject(RejectReason::Expired),
    }
}

/// The status code a decision surfaces to the client: every rejection is
/// the same unauthorized response, whatever its internal reason.
pub fn response_status(d: &GateDecision) -> (s: u16)
    ensures
        (d is Reject ==> s == 401),
        (d is Forward ==> s == 200),
{
    match d {
        GateDecision::Forward(_) => 200,
        GateDecision::Reject(_) => 401,
    }
}

} // verus!
