use vstd::prelude::*;
use vstd::string::*;

use crate::codec::{
    chars_to_string, dec_digits, digits_val, enc_int, is_digit, push_i64, push_u64,
};

verus! {

/// Character-wise string equality.
pub fn str_eq(a: &str, b: &str) -> (r: bool)
    ensures
        r == (a@ == b@),
{
    let na = a.unicode_len();
    let nb = b.unicode_len();
    if na != nb {
        return false;
    }
    let mut i: usize = 0;
    while i < na
        invariant
            i <= na,
            na == a@.len(),
            na == b@.len(),
            forall|k: int| 0 <= k < i ==> a@[k] == b@[k],
        decreases na - i,
    {
        if a.get_char(i) != b.get_char(i) {
            return false;
        }
        i += 1;
    }
    proof {
        assert(a@ =~= b@);
    }
    true
}

/// The decimal digits of `n`, as a string.
pub fn u64_to_string(n: u64) -> (r: String)
    ensures
        r@ == dec_digits(n as nat),
{
    let mut out: Vec<char> = Vec::new();
    push_u64(&mut out, n);
    proof {
        assert(out@ =~= dec_digits(n as nat));
    }
    chars_to_string(&out)
}

/// The decimal encoding of `n`, sign included, as a string.
pub fn i64_to_string(n: i64) -> (r: String)
    ensures
        r@ == enc_int(n as int),
{
    let mut out: Vec<char> = Vec::new();
    push_i64(&mut out, n);
    proof {
        assert(out@ =~= enc_int(n as int));
    }
    chars_to_string(&out)
}

/// Every character is a decimal digit.
pub open spec fn all_digits(s: Seq<char>) -> bool {
    forall|i: int| 0 <= i < s.len() ==> is_digit(#[trigger] s[i])
}

/// What a bare digit run reads as: one or more digits, valued within the
/// machine range.
pub open spec fn parse_digits_spec(body: Seq<char>) -> Option<u64> {
    if body.len() > 0 && all_digits(body) && digits_val(body) <= u64::MAX {
        Some(digits_val(body) as u64)
    } else {
        None
    }
}

/// What an unsigned decimal argument reads as: an optional plus sign, then
/// one or more digits, valued within the machine range.
pub open spec fn parse_u64_spec(s: Seq<char>) -> Option<u64> {
    if s.len() > 0 && s[0] == '+' {
        parse_digits_spec(s.drop_first())
    } else {
        parse_digits_spec(s)
    }
}

/// Parses an unsigned decimal argument.
pub fn parse_u64(s: &str) -> (r: Option<u64>)
    ensures
        r == parse_u64_spec(s@),
{
    let cs = crate::codec::str_chars(s);
    let n = cs.len();
    let start: usize = if n > 0 && cs[0] == '+' {
        1
    } else {
        0
    };
    let ghost body = if s@.len() > 0 && s@[0] == '+' {
        s@.drop_first()
    } else {
        s@
    };
    proof {
        assert(body =~= cs@.skip(start as int));
    }
    if start >= n {
        return None;
    }
    let mut j: usize = start;
    let mut acc: u128 = 0;
    while j < n
        invariant
            start <= j <= n,
            n == cs@.len(),
            cs@ == s@,
            start == if s@.len() > 0 && s@[0] == '+' {
                1int
            } else {
                0int
            },
            body == cs@.skip(start as int),
            body == (if s@.len() > 0 && s@[0] == '+' {
                s@.drop_first()
            } else {
                s@
            }),
            forall|k: int| start <= k < j ==> is_digit(#[trigger] cs@[k]),
            digits_val(cs@.subrange(start as int, j as int)) <= u64::MAX ==> acc as nat
                == digits_val(cs@.subrange(start as int, j as int)),
            digits_val(cs@.subrange(start as int, j as int)) > u64::MAX ==> acc as nat
                > u64::MAX,
        decreases n - j,
    {
        let c = cs[j];
        let u = c as u32;
        if !(48 <= u && u <= 57) {
            proof {
                let w: int = j - start;
                assert(body[w] == cs@[j as int]);
                assert(!all_digits(body)) by {
                    assert(0 <= w < body.len() && !is_digit(body[w]));
                }
                assert(parse_digits_spec(body) is None);
            }
            return None;
        }
        proof {
            assert(cs@.subrange(start as int, j as int + 1).drop_last() =~= cs@.subrange(
                start as int,
                j as int,
            ));
            assert(cs@.subrange(start as int, j as int + 1).last() == cs@[j as int]);
        }
        if acc > 0xFFFF_FFFF_FFFF_FFFFu128 {
            // already past the machine range: keep only that fact
            acc = 0x1_0000_0000_0000_0000_0000u128;
        } else {
            acc = acc * 10 + ((u - 48) as u128);
        }
        j += 1;
    }
    proof {
        assert(cs@.subrange(start as int, n as int) =~= body);
        assert(all_digits(body));
    }
    if acc > 0xFFFF_FFFF_FFFF_FFFFu128 {
        None
    } else {
        Some(acc as u64)
    }
}

/// What a signed 32-bit decimal argument reads as: after a minus sign
/// only bare digits follow; a plus sign is accepted only unsigned.
pub open spec fn parse_i32_spec(s: Seq<char>) -> Option<i32> {
    if s.len() > 0 && s[0] == '-' {
        match parse_digits_spec(s.drop_first()) {
            Some(mag) => if mag <= 0x8000_0000u64 {
                Some((-(mag as int)) as i32)
            } else {
                None
            },
            None => None,
        }
    } else {
        match parse_u64_spec(s) {
            Some(mag) => if mag <= 0x7FFF_FFFFu64 {
                Some(mag as i32)
            } else {
                None
            },
            None => None,
        }
    }
}

/// Parses a signed 32-bit decimal argument.
pub fn parse_i32(s: &str) -> (r: Option<i32>)
    ensures
        r == parse_i32_spec(s@),
{
    let cs = crate::codec::str_chars(s);
    if cs.len() > 0 && cs[0] == '-' {
        let rest = s.substring_char(1, cs.len());
        proof {
            assert(rest@ =~= s@.drop_first());
        }
        if rest.unicode_len() > 0 && rest.get_char(0) == '+' {
            proof {
                assert(!crate::codec::is_digit('+')) by {
                    assert('+' as u32 == 43);
                }
                assert(!all_digits(rest@)) by {
                    assert(!crate::codec::is_digit(rest@[0]));
                }
            }
            return None;
        }
        proof {
            if rest@.len() > 0 && rest@[0] == '+' {
                assert(false);
            }
            assert(parse_u64_spec(rest@) == parse_digits_spec(rest@));
        }
        match parse_u64(rest) {
            Some(mag) => {
                if mag <= 0x8000_0000u64 {
                    let v: i32 = if mag == 0x8000_0000u64 {
                        i32::MIN
                    } else {
                        -((mag as u32) as i32)
                    };
                    Some(v)
                } else {
                    None
                }
            },
            None => None,
        }
    } else {
        match parse_u64(s) {
            Some(mag) => {
                if mag <= 0x7FFF_FFFFu64 {
                    Some((mag as u32) as i32)
                } else {
                    None
                }
            },
            None => None,
        }
    }
}

} // verus!
