//! Reading signed integers out of decimal byte text, as the wire format
//! transmits line identifiers and timestamps.

use vstd::prelude::*;

verus! {

/// An ASCII decimal digit.
pub open spec fn is_digit(b: u8) -> bool {
    0x30 <= b && b <= 0x39
}

/// Every byte of `s` is an ASCII decimal digit.
pub open spec fn all_digits(s: Seq<u8>) -> bool {
    forall|i: int| 0 <= i < s.len() ==> is_digit(#[trigger] s[i])
}

/// The value of a digit string read most-significant first.
pub open spec fn digits_val(s: Seq<u8>) -> int
    decreases s.len(),
{
    if s.len() == 0 {
        0
    } else {
        digits_val(s.drop_last()) * 10 + (s.last() - 0x30)
    }
}

/// The integer a byte string denotes, read the way `str::parse` does:
/// an optional `+` or `-` sign followed by one or more digits, and
/// nothing else.
pub open spec fn spec_parse_int(s: Seq<u8>) -> Option<int> {
    if s.len() > 0 && (s[0] == 0x2b || s[0] == 0x2d) {
        let d = s.subrange(1, s.len() as int);
        if d.len() > 0 && all_digits(d) {
            Some(
                if s[0] == 0x2d {
                    -digits_val(d)
                } else {
                    digits_val(d)
                },
            )
        } else {
            None
        }
    } else if s.len() > 0 && all_digits(s) {
        Some(digits_val(s))
    } else {
        None
    }
}

/// The 16-bit signed integer a byte string denotes, or nothing where the
/// text is not a number or does not fit.
pub open spec fn spec_parse_i16(s: Seq<u8>) -> Option<i16> {
    match spec_parse_int(s) {
        Some(v) => if -32768 <= v && v <= 32767 {
            Some(v as i16)
        } else {
            None
        },
        None => None,
    }
}

/// The 64-bit signed integer a byte string denotes, or nothing where the
/// text is not a number or does not fit.
pub open spec fn spec_parse_i64(s: Seq<u8>) -> Option<i64> {
    match spec_parse_int(s) {
        Some(v) => if i64::MIN <= v && v <= i64::MAX {
            Some(v as i64)
        } else {
            None
        },
        None => None,
    }
}

proof fn lemma_digits_val_nonneg(s: Seq<u8>)
    requires
        all_digits(s),
    ensures
        digits_val(s) >= 0,
    decreases s.len(),
{
    if s.len() > 0 {
        assert(all_digits(s.drop_last()));
        lemma_digits_val_nonneg(s.drop_last());
        assert(is_digit(s.last()));
    }
}

/// The value of a digit string is at least the value of any of its
/// prefixes: appending digits never shrinks the value.
proof fn lemma_digits_prefix_le(s: Seq<u8>, i: int)
    requires
        all_digits(s),
        0 <= i <= s.len(),
    ensures
        digits_val(s.subrange(0, i)) <= digits_val(s),
    decreases s.len() - i,
{
    if i < s.len() {
        lemma_digits_prefix_le(s, i + 1);
        let p = s.subrange(0, i);
        let q = s.subrange(0, i + 1);
        assert(q.drop_last() =~= p);
        assert(all_digits(p));
        lemma_digits_val_nonneg(p);
        assert(is_digit(q.last()));
        assert(digits_val(q) == digits_val(p) * 10 + (q.last() - 0x30));
    } else {
        assert(s.subrange(0, i) =~= s);
    }
}

/// Parses an optional sign and digits, returning the value when it lies
/// in `[lo, hi]`; the bounds must straddle zero and stay well inside the
/// 128-bit range so the running value cannot overflow.
fn parse_int_in_range(s: &[u8], lo: i128, hi: i128) -> (r: Option<i128>)
    requires
        -1000000000000000000000 <= lo <= 0,
        0 <= hi <= 1000000000000000000000,
    ensures
        r matches Some(v) ==> spec_parse_int(s@) == Some(v as int) && lo <= v <= hi,
        r is None ==> (match spec_parse_int(s@) {
            Some(v) => !(lo <= v <= hi),
            None => true,
        }),
{
    let n = s.len();
    if n == 0 {
        return None;
    }
    let neg = s[0] == 0x2d;
    let has_sign = neg || s[0] == 0x2b;
    let start: usize = if has_sign {
        1
    } else {
        0
    };
    if start >= n {
        return None;
    }
    let bound: i128 = if neg {
        -lo
    } else {
        hi
    };
    let ghost d = s@.subrange(start as int, n as int);
    proof {
        if !has_sign {
            assert(d =~= s@);
        }
    }
    let mut acc: i128 = 0;
    let mut i: usize = start;
    while i < n
        invariant
            start <= i <= n,
            n == s@.len(),
            start == 1 <==> has_sign,
            start == 0 || start == 1,
            has_sign <==> s@[0] == 0x2b || s@[0] == 0x2d,
            neg <==> s@[0] == 0x2d && has_sign,
            d == s@.subrange(start as int, n as int),
            d.len() > 0,
            all_digits(s@.subrange(start as int, i as int)),
            acc == digits_val(s@.subrange(start as int, i as int)),
            0 <= acc <= bound,
            bound as int == (if neg { -(lo as int) } else { hi as int }),
            -1000000000000000000000 <= lo <= 0 <= hi <= 1000000000000000000000,
        decreases n - i,
    {
        let b = s[i];
        if b < 0x30 || b > 0x39 {
            proof {
                assert(d[i - start] == s@[i as int]);
                assert(!all_digits(d));
            }
            return None;
        }
        proof {
            let p = s@.subrange(start as int, i as int);
            let q = s@.subrange(start as int, i + 1 as int);
            assert(q.drop_last() =~= p);
            assert(q.last() == s@[i as int]);
            assert(all_digits(q)) by {
                assert(forall|k: int|
                    0 <= k < q.len() ==> #[trigger] q[k] == s@[start as int + k]);
            }
        }
        acc = acc * 10 + (b - 0x30) as i128;
        i = i + 1;
        if acc > bound {
            proof {
                if all_digits(d) {
                    let pre = s@.subrange(start as int, i as int);
                    assert(pre =~= d.subrange(0, i - start));
                    assert(digits_val(pre) == acc);
                    lemma_digits_prefix_le(d, i - start);
                    assert(digits_val(d) >= acc);
                    if neg {
                        assert(spec_parse_int(s@) == Some(-digits_val(d)));
                    } else if has_sign {
                        assert(s@[0] == 0x2b);
                        assert(d == s@.subrange(1, s@.len() as int));
                        assert(spec_parse_int(s@) == Some(digits_val(d)));
                    } else {
                        assert(d == s@);
                        assert(all_digits(s@));
                        assert(s@.len() > 0);
                        assert(!(s@[0] == 0x2b || s@[0] == 0x2d));
                        assert(spec_parse_int(s@) == Some(digits_val(s@)));
                        assert(spec_parse_int(s@) == Some(digits_val(d)));
                    }
                } else {
                    assert(spec_parse_int(s@) is None);
                }
            }
            return None;
        }
    }
    proof {
        assert(s@.subrange(start as int, i as int) =~= d);
        if !has_sign {
            assert(d =~= s@);
        }
    }
    if neg {
        Some(-acc)
    } else {
        Some(acc)
    }
}

/// Reads a 16-bit signed integer from decimal byte text, exactly as
/// `str::parse::<i16>` would.
pub fn parse_i16_bytes(s: &[u8]) -> (r: Option<i16>)
    ensures
        r == spec_parse_i16(s@),
{
    match parse_int_in_range(s, -32768, 32767) {
        Some(v) => Some(v as i16),
        None => None,
    }
}

/// Reads a 64-bit signed integer from decimal byte text, exactly as
/// `str::parse::<i64>` would.
pub fn parse_i64_bytes(s: &[u8]) -> (r: Option<i64>)
    ensures
        r == spec_parse_i64(s@),
{
    match parse_int_in_range(s, -9223372036854775808, 9223372036854775807) {
        Some(v) => Some(v as i64),
        None => None,
    }
}

} // verus!
