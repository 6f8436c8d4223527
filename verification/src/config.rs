//! Process configuration: the configuration record, loaded once at process
//! start and read-only afterwards, and the verified parsing of the port
//! number that the loader needs.

use vstd::prelude::*;

verus! {

/// Process-wide configuration.
#[derive(Debug)]
pub struct AppConfig {
    pub database_url: String,
    pub jwt_secret: String,
    pub server_host: String,
    pub server_port: u16,
}

/// Whether `b` is the byte of a decimal digit.
pub open spec fn is_digit(b: u8) -> bool {
    48 <= b <= 57
}

/// Whether every byte of `s` is a decimal digit.
pub open spec fn all_digits(s: Seq<u8>) -> bool {
    forall|i: int| 0 <= i < s.len() ==> is_digit(#[trigger] s[i])
}

/// The number the digit bytes of `s` spell, most significant first.
pub open spec fn digits_value(s: Seq<u8>) -> int
    decreases s.len(),
{
    if s.len() == 0 {
        0
    } else {
        digits_value(s.drop_last()) * 10 + (s.last() - 48)
    }
}

/// What parsing a port number returns: an optional leading plus sign, then
/// at least one digit, spelling a value of at most 65535; anything else is
/// rejected.
pub open spec fn spec_parse_port(s: Seq<u8>) -> Option<u16> {
    let ds = if s.len() >= 1 && s[0] == 43 {
        s.subrange(1, s.len() as int)
    } else {
        s
    };
    if ds.len() == 0 || !all_digits(ds) || digits_value(ds) > 65535 {
        None
    } else {
        Some(digits_value(ds) as u16)
    }
}

/// The value of a digit string is never negative.
proof fn lemma_digits_nonneg(s: Seq<u8>)
    requires
        all_digits(s),
    ensures
        digits_value(s) >= 0,
    decreases s.len(),
{
    if s.len() > 0 {
        assert(all_digits(s.drop_last()));
        lemma_digits_nonneg(s.drop_last());
    }
}

/// Reading further digits never shrinks the value.
proof fn lemma_digits_prefix(s: Seq<u8>, k: int)
    requires
        all_digits(s),
        0 <= k <= s.len(),
    ensures
        digits_value(s) >= digits_value(s.subrange(0, k)),
    decreases s.len() - k,
{
    if k == s.len() {
        assert(s.subrange(0, k) =~= s);
    } else {
        let p = s.subrange(0, k + 1);
        assert(p.drop_last() =~= s.subrange(0, k));
        assert(all_digits(s.subrange(0, k)));
        lemma_digits_nonneg(s.subrange(0, k));
        assert(digits_value(p) >= digits_value(s.subrange(0, k)));
        lemma_digits_prefix(s, k + 1);
    }
}

/// Parses a port number: an optional leading plus sign, then decimal
/// digits, with 65535 the largest accepted value. Returns exactly what
/// `spec_parse_port` says.
pub fn parse_port(s: &Vec<u8>) -> (r: Option<u16>)
    ensures
        r == spec_parse_port(s@),
{
    let start: usize = if s.len() >= 1 && s[0] == 43 {
        1
    } else {
        0
    };
    let n = s.len();
    if n == start {
        return None;
    }
    let ghost ds = if s@.len() >= 1 && s@[0] == 43 {
        s@.subrange(1, s@.len() as int)
    } else {
        s@
    };
    proof {
        assert(ds =~= s@.subrange(start as int, n as int));
    }
    let mut acc: u32 = 0;
    let mut i: usize = start;
    while i < n
        invariant
            start <= i <= n == s@.len(),
            start <= 1,
            start == (if s@.len() >= 1 && s@[0] == 43 { 1int } else { 0int }),
            ds == s@.subrange(start as int, n as int),
            all_digits(s@.subrange(start as int, i as int)),
            acc == digits_value(s@.subrange(start as int, i as int)),
            acc <= 65535,
        decreases n - i,
    {
        let b = s[i];
        if b < 48 || b > 57 {
            proof {
                assert(0 <= i - (start as int) && i - (start as int) < ds.len());
                assert(ds[i - start as int] == s@[i as int]);
                assert(!is_digit(ds[i - start as int]));
                assert(!all_digits(ds));
                assert(spec_parse_port(s@) is None);
            }
            return None;
        }
        proof {
            let prior = s@.subrange(start as int, i as int);
            let p = s@.subrange(start as int, i + 1 as int);
            assert(p.drop_last() =~= prior);
            assert(p.last() == s@[i as int]);
            assert(digits_value(p) == digits_value(prior) * 10 + (s@[i as int] - 48));
            assert(forall|j: int| 0 <= j < p.len() ==> is_digit(#[trigger] p[j]));
        }
        acc = acc * 10 + ((b - 48) as u32);
        if acc > 65535 {
            proof {
                assert(acc == digits_value(s@.subrange(start as int, i + 1 as int)));
                if all_digits(ds) {
                    assert(ds.subrange(0, i + 1 - start as int)
                        =~= s@.subrange(start as int, i + 1 as int));
                    lemma_digits_prefix(ds, i + 1 - start as int);
                    assert(digits_value(ds) > 65535);
                }
                assert(s@.subrange(0, n as int) =~= s@);
                assert(spec_parse_port(s@) is None);
            }
            return None;
        }
        i = i + 1;
    }
    proof {
        assert(s@.subrange(start as int, n as int) =~= ds);
    }
    Some(acc as u16)
}

} // verus!
