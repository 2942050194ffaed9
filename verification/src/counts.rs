//! Tolerant decoding of per-video count fields.
//!
//! Statistics pages carry view and like counts as decimal strings, and a
//! field may be absent altogether. A count is the value of the string when
//! it is a non-empty run of decimal digits whose value fits in `u64`;
//! anything else — an absent field, a non-digit character, or a value too
//! large — yields 0 rather than an error.

use vstd::prelude::*;

verus! {

pub open spec fn is_dec_digit(c: char) -> bool {
    '0' <= c && c <= '9'
}

pub open spec fn digit_value(c: char) -> int {
    c as u32 - '0' as u32
}

pub open spec fn all_dec_digits(s: Seq<char>) -> bool {
    forall|i: int| 0 <= i < s.len() ==> is_dec_digit(s[i])
}

/// The integer denoted by a run of decimal digits, most significant first.
pub open spec fn dec_value(s: Seq<char>) -> int
    decreases s.len(),
{
    if s.len() == 0 {
        0
    } else {
        dec_value(s.drop_last()) * 10 + digit_value(s.last())
    }
}

/// The tolerant reading of a count string: its decimal value when that is
/// well-formed and representable, and 0 otherwise.
pub open spec fn count_value(s: Seq<char>) -> u64 {
    if s.len() > 0 && all_dec_digits(s) && dec_value(s) <= u64::MAX {
        dec_value(s) as u64
    } else {
        0
    }
}

/// The tolerant reading of an optional count field: an absent field counts
/// as 0.
pub open spec fn count_field_value(f: Option<Seq<char>>) -> u64 {
    match f {
        Option::None => 0,
        Option::Some(s) => count_value(s),
    }
}

proof fn lemma_dec_value_nonneg(s: Seq<char>)
    requires
        all_dec_digits(s),
    ensures
        dec_value(s) >= 0,
    decreases s.len(),
{
    if s.len() > 0 {
        assert(all_dec_digits(s.drop_last()));
        lemma_dec_value_nonneg(s.drop_last());
    }
}

/// A digit string denotes at least as much as any of its prefixes.
proof fn lemma_dec_value_prefix_le(s: Seq<char>, i: int)
    requires
        all_dec_digits(s),
        0 <= i <= s.len(),
    ensures
        dec_value(s.take(i)) <= dec_value(s),
    decreases s.len() - i,
{
    if i < s.len() {
        let t = s.take(i + 1);
        assert(t.drop_last() =~= s.take(i));
        assert(all_dec_digits(s.take(i)));
        lemma_dec_value_nonneg(s.take(i));
        assert(dec_value(s.take(i)) <= dec_value(t));
        lemma_dec_value_prefix_le(s, i + 1);
    } else {
        assert(s.take(i) =~= s);
    }
}

/// Reads a count string tolerantly: the decimal value when the whole string
/// is digits and fits in `u64`, and 0 on any malformed or oversized input.
pub fn parse_count(s: &str) -> (n: u64)
    ensures
        n == count_value(s@),
{
    let len = s.unicode_len();
    if len == 0 {
        return 0;
    }
    let mut acc: u64 = 0;
    let mut i: usize = 0;
    while i < len
        invariant
            0 <= i <= len,
            len == s@.len(),
            all_dec_digits(s@.take(i as int)),
            acc == dec_value(s@.take(i as int)),
        decreases len - i,
    {
        let c = s.get_char(i);
        if !('0' <= c && c <= '9') {
            proof {
                assert(!is_dec_digit(s@[i as int]));
                assert(!all_dec_digits(s@));
            }
            return 0;
        }
        let d: u64 = (c as u32 - 48) as u64;
        let ghost prev = s@.take(i as int);
        let ghost ext = s@.take(i as int + 1);
        proof {
            assert(ext.drop_last() =~= prev);
            assert(ext.last() == s@[i as int]);
            assert(dec_value(ext) == acc * 10 + d);
            assert(all_dec_digits(ext));
        }
        let next = match acc.checked_mul(10) {
            Option::Some(m) => m.checked_add(d),
            Option::None => Option::None,
        };
        match next {
            Option::Some(v) => {
                acc = v;
            },
            Option::None => {
                proof {
                    assert(dec_value(ext) > u64::MAX);
                    if all_dec_digits(s@) {
                        lemma_dec_value_prefix_le(s@, i as int + 1);
                        assert(dec_value(s@) > u64::MAX);
                    }
                }
                return 0;
            },
        }
        i = i + 1;
    }
    proof {
        assert(s@.take(len as int) =~= s@);
    }
    acc
}

/// Reads an optional count field tolerantly; an absent field yields 0.
pub fn parse_count_field(f: &Option<String>) -> (n: u64)
    ensures
        n == count_field_value(f.deep_view()),
{
    match f {
        Option::None => 0,
        Option::Some(s) => parse_count(s.as_str()),
    }
}

} // verus!
