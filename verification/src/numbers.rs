//! Exact parsing of numeric attribute text.
//!
//! Attribute values are decimal numbers, optionally signed, with an optional
//! fractional part and an optional decimal exponent.  They are decoded into
//! [`crate::fixed::Fixed`] millionths with truncation toward zero, or into
//! plain unsigned counts.  A value whose magnitude cannot be represented is
//! rejected, as is a mantissa of more than 18 digits or an exponent of more
//! than 9 digits.

use vstd::prelude::*;

use crate::fixed::Fixed;

verus! {

pub open spec fn is_digit(b: u8) -> bool {
    48 <= b <= 57
}

pub open spec fn all_digits(s: Seq<u8>) -> bool {
    forall|i: int| 0 <= i < s.len() ==> is_digit(#[trigger] s[i])
}

/// The value of a digit string, most significant digit first.
pub open spec fn digits_val(s: Seq<u8>) -> int
    decreases s.len(),
{
    if s.len() == 0 {
        0
    } else {
        digits_val(s.drop_last()) * 10 + (s.last() - 48)
    }
}

pub open spec fn pow10(n: nat) -> int
    decreases n,
{
    if n == 0 {
        1
    } else {
        10 * pow10((n - 1) as nat)
    }
}

/// Index of the first occurrence of `b1` or `b2`, or the length if absent.
pub open spec fn find_byte2(s: Seq<u8>, b1: u8, b2: u8) -> int
    decreases s.len(),
{
    if s.len() == 0 {
        0
    } else if s[0] == b1 || s[0] == b2 {
        0
    } else {
        1 + find_byte2(s.drop_first(), b1, b2)
    }
}

/// Splits a leading `+` or `-` off a byte string: (negative, rest).
pub open spec fn sign_split(s: Seq<u8>) -> (bool, Seq<u8>) {
    if s.len() > 0 && (s[0] == 43 || s[0] == 45) {
        (s[0] == 45, s.drop_first())
    } else {
        (false, s)
    }
}

/// The millionths value of a parsed mantissa and scale: `d * 10^k` truncated
/// toward zero, where `d >= 0` is the mantissa and `k` the net power of ten.
/// `None` when the magnitude exceeds `i64::MAX`.
pub open spec fn fixed_of_parts(neg: bool, d: int, k: int) -> Option<i64> {
    let mag = if k >= 0 {
        d * pow10(k as nat)
    } else {
        d / pow10((-k) as nat)
    };
    if mag <= i64::MAX {
        if neg {
            Some((-mag) as i64)
        } else {
            Some(mag as i64)
        }
    } else {
        None
    }
}

/// The accepted number grammar and its exact value in millionths:
/// `sign? (digits | digits '.' digits? | '.' digits) (('e'|'E') sign? digits)?`
/// with at most 18 mantissa digits and 9 exponent digits.
pub open spec fn parse_fixed_spec(s: Seq<u8>) -> Option<i64> {
    let (neg, rest) = sign_split(s);
    let ei = find_byte2(rest, 101, 69);
    let mant = rest.take(ei);
    let di = find_byte2(mant, 46, 46);
    let ipart = mant.take(di);
    let fpart = if di < mant.len() {
        mant.skip(di + 1)
    } else {
        Seq::<u8>::empty()
    };
    let digits = ipart + fpart;
    if !(all_digits(digits) && 1 <= digits.len() <= 18) {
        None
    } else if ei < rest.len() {
        let (eneg, edigits) = sign_split(rest.skip(ei + 1));
        if !(all_digits(edigits) && 1 <= edigits.len() <= 9) {
            None
        } else {
            let e = if eneg {
                -digits_val(edigits)
            } else {
                digits_val(edigits)
            };
            fixed_of_parts(neg, digits_val(digits), 6 + e - fpart.len())
        }
    } else {
        fixed_of_parts(neg, digits_val(digits), 6 - fpart.len())
    }
}

/// An unsigned count: an optional leading `+`, then digits only, value at
/// most `u32::MAX`.
pub open spec fn parse_u32_spec(s: Seq<u8>) -> Option<u32> {
    let d = if s.len() > 0 && s[0] == 43 {
        s.drop_first()
    } else {
        s
    };
    if all_digits(d) && 1 <= d.len() && digits_val(d) <= u32::MAX {
        Some(digits_val(d) as u32)
    } else {
        None
    }
}

pub proof fn lemma_digits_val_nonneg(s: Seq<u8>)
    requires
        all_digits(s),
    ensures
        digits_val(s) >= 0,
    decreases s.len(),
{
    if s.len() > 0 {
        assert(all_digits(s.drop_last()));
        lemma_digits_val_nonneg(s.drop_last());
    }
}

pub proof fn lemma_pow10_pos(n: nat)
    ensures
        pow10(n) >= 1,
    decreases n,
{
    if n > 0 {
        lemma_pow10_pos((n - 1) as nat);
    }
}

pub proof fn lemma_pow10_monotone(m: nat, n: nat)
    requires
        m <= n,
    ensures
        pow10(m) <= pow10(n),
    decreases n,
{
    if m < n {
        lemma_pow10_monotone(m, (n - 1) as nat);
        lemma_pow10_pos((n - 1) as nat);
    }
}

/// A digit string of length `l` has a value below `10^l`.
pub proof fn lemma_digits_val_bound(s: Seq<u8>)
    requires
        all_digits(s),
    ensures
        digits_val(s) < pow10(s.len()),
    decreases s.len(),
{
    if s.len() > 0 {
        assert(all_digits(s.drop_last()));
        lemma_digits_val_bound(s.drop_last());
        lemma_digits_val_nonneg(s.drop_last());
    }
}

proof fn lemma_find_byte2_characterize(s: Seq<u8>, b1: u8, b2: u8, i: int)
    requires
        0 <= i <= s.len(),
        forall|j: int| 0 <= j < i ==> s[j] != b1 && s[j] != b2,
        i < s.len() ==> (s[i] == b1 || s[i] == b2),
    ensures
        find_byte2(s, b1, b2) == i,
    decreases s.len(),
{
    if s.len() > 0 {
        if i == 0 {
        } else {
            lemma_find_byte2_characterize(s.drop_first(), b1, b2, i - 1);
        }
    }
}

fn find_first(s: &[u8], b1: u8, b2: u8) -> (i: usize)
    ensures
        i == find_byte2(s@, b1, b2),
        0 <= i <= s@.len(),
{
    let n: usize = s.len();
    let mut i: usize = 0;
    while i < n
        invariant
            0 <= i <= n,
            n == s@.len(),
            forall|j: int| 0 <= j < i ==> s@[j] != b1 && s@[j] != b2,
        decreases n - i,
    {
        if s[i] == b1 || s[i] == b2 {
            proof {
                lemma_find_byte2_characterize(s@, b1, b2, i as int);
            }
            return i;
        }
        i = i + 1;
    }
    proof {
        lemma_find_byte2_characterize(s@, b1, b2, i as int);
    }
    i
}

/// The exact value of a digit string of at most 18 digits; `None` when the
/// string is empty, longer, or holds a non-digit.
fn digits_value(s: &[u8]) -> (r: Option<u64>)
    ensures
        r is Some <==> (all_digits(s@) && 1 <= s@.len() <= 18),
        r matches Some(v) ==> v == digits_val(s@),
{
    let n: usize = s.len();
    if n < 1 || n > 18 {
        return None;
    }
    let mut acc: u64 = 0;
    let mut i: usize = 0;
    while i < n
        invariant
            0 <= i <= n,
            1 <= n <= 18,
            n == s@.len(),
            all_digits(s@.take(i as int)),
            acc == digits_val(s@.take(i as int)),
            acc < pow10(i as nat),
        decreases n - i,
    {
        let b = s[i];
        if b < 48 || b > 57 {
            assert(!is_digit(s@[i as int]));
            return None;
        }
        proof {
            assert(s@.take(i + 1 as int).drop_last() =~= s@.take(i as int));
            assert(s@.take(i + 1 as int).last() == s@[i as int]);
            lemma_pow10_monotone((i + 1) as nat, 18);
            assert(pow10(18) == 1_000_000_000_000_000_000) by {
                reveal_with_fuel(pow10, 19);
            }
        }
        acc = acc * 10 + (b - 48) as u64;
        i = i + 1;
        assert(all_digits(s@.take(i as int)));
    }
    proof {
        assert(s@.take(n as int) =~= s@);
    }
    Some(acc)
}

/// Ten to a small power.
fn pow10_u64(k: u64) -> (r: u64)
    requires
        k <= 18,
    ensures
        r == pow10(k as nat),
{
    let mut r: u64 = 1;
    let mut i: u64 = 0;
    while i < k
        invariant
            0 <= i <= k <= 18,
            r == pow10(i as nat),
        decreases k - i,
    {
        proof {
            lemma_pow10_monotone((i + 1) as nat, 18);
            assert(pow10(18) == 1_000_000_000_000_000_000) by {
                reveal_with_fuel(pow10, 19);
            }
            lemma_pow10_pos(i as nat);
        }
        r = r * 10;
        i = i + 1;
    }
    r
}

/// Decodes decimal text into millionths, exactly as [`parse_fixed_spec`] says.
#[verifier::rlimit(50)]
pub fn parse_fixed(s: &[u8]) -> (r: Option<Fixed>)
    ensures
        r is Some <==> parse_fixed_spec(s@) is Some,
        r matches Some(f) ==> parse_fixed_spec(s@) == Some(f.micros),
{
    let n: usize = s.len();
    let (neg, start): (bool, usize) = if n > 0 && (s[0] == 43 || s[0] == 45) {
        (s[0] == 45, 1)
    } else {
        (false, 0)
    };
    let rest: &[u8] = vstd::slice::slice_subrange(s, start, n);
    proof {
        assert(sign_split(s@) == (neg, rest@));
    }
    let rn: usize = rest.len();
    let ei = find_first(rest, 101, 69);
    let mant: &[u8] = vstd::slice::slice_subrange(rest, 0, ei);
    proof {
        assert(mant@ =~= rest@.take(ei as int));
    }
    let mn: usize = mant.len();
    let di = find_first(mant, 46, 46);
    let ipart: &[u8] = vstd::slice::slice_subrange(mant, 0, di);
    proof {
        assert(ipart@ =~= mant@.take(di as int));
    }
    let mut digits: Vec<u8> = Vec::new();
    let mut i: usize = 0;
    while i < di
        invariant
            0 <= i <= di <= mn,
            mn == mant@.len(),
            ipart@ == mant@.take(di as int),
            digits@ == ipart@.take(i as int),
        decreases di - i,
    {
        digits.push(mant[i]);
        proof {
            assert(digits@ =~= ipart@.take(i + 1 as int));
        }
        i = i + 1;
    }
    proof {
        assert(digits@ =~= ipart@);
    }
    let flen: usize = if di < mn {
        mn - di - 1
    } else {
        0
    };
    let ghost fpart: Seq<u8> = if di < mn as int {
        mant@.skip(di + 1 as int)
    } else {
        Seq::<u8>::empty()
    };
    if di < mn {
        let mut j: usize = di + 1;
        while j < mn
            invariant
                di + 1 <= j <= mn,
                mn == mant@.len(),
                di < mn,
                fpart == mant@.skip(di + 1 as int),
                ipart@ == mant@.take(di as int),
                digits@ == ipart@ + fpart.take(j - di - 1 as int),
            decreases mn - j,
        {
            digits.push(mant[j]);
            proof {
                assert(fpart[j - di - 1 as int] == mant@[j as int]);
                assert(digits@ =~= ipart@ + fpart.take(j - di as int));
            }
            j = j + 1;
        }
    }
    proof {
        assert(digits@ =~= ipart@ + fpart);
    }
    let dval = match digits_value(digits.as_slice()) {
        Some(v) => v,
        None => {
            return None;
        },
    };
    assert(ipart@.len() + fpart.len() <= 18);
    assert(flen == fpart.len());
    proof {
        lemma_digits_val_bound(digits@);
        lemma_pow10_monotone(digits@.len(), 18);
    }
    let mut e: i64 = 0;
    if ei < rn {
        let eseg: &[u8] = vstd::slice::slice_subrange(rest, ei + 1, rn);
        proof {
            assert(eseg@ =~= rest@.skip(ei + 1 as int));
        }
        let en: usize = eseg.len();
        let (eneg, estart): (bool, usize) = if en > 0 && (eseg[0] == 43 || eseg[0] == 45) {
            (eseg[0] == 45, 1)
        } else {
            (false, 0)
        };
        let edigits: &[u8] = vstd::slice::slice_subrange(eseg, estart, en);
        proof {
            assert(sign_split(eseg@) == (eneg, edigits@));
        }
        if edigits.len() > 9 {
            return None;
        }
        let ev = match digits_value(edigits) {
            Some(v) => v,
            None => {
                return None;
            },
        };
        proof {
            lemma_digits_val_bound(edigits@);
            lemma_pow10_monotone(edigits@.len(), 9);
            assert(pow10(9) == 1_000_000_000) by {
                reveal_with_fuel(pow10, 10);
            }
        }
        e = if eneg {
            -(ev as i64)
        } else {
            ev as i64
        };
    }
    assert(-1_000_000_000 < e < 1_000_000_000);
    let k: i64 = 6 + e - flen as i64;
    let ghost kg: int = 6 + e - fpart.len();
    assert(k == kg);
    fixed_from_parts(neg, dval, k)
}

/// Scales a mantissa by a power of ten and applies the sign, exactly as
/// [`fixed_of_parts`] says.
fn fixed_from_parts(neg: bool, d: u64, k: i64) -> (r: Option<Fixed>)
    requires
        d < pow10(18),
        -2_000_000_000 <= k <= 2_000_000_000,
    ensures
        r is Some <==> fixed_of_parts(neg, d as int, k as int) is Some,
        r matches Some(f) ==> fixed_of_parts(neg, d as int, k as int) == Some(f.micros),
{
    if d == 0 {
        proof {
            if k >= 0 {
                assert(0 * pow10(k as nat) == 0);
            } else {
                lemma_pow10_pos((-k) as nat);
                assert(0int / pow10((-k) as nat) == 0) by {
                    vstd::arithmetic::div_mod::lemma_div_of0(pow10((-k) as nat));
                }
            }
        }
        return Some(Fixed { micros: 0 });
    }
    if k >= 0 {
        if k > 18 {
            proof {
                lemma_pow10_monotone(19, k as nat);
                assert(pow10(19) == 10_000_000_000_000_000_000) by {
                    reveal_with_fuel(pow10, 20);
                }
                vstd::arithmetic::mul::lemma_mul_inequality(1, d as int, pow10(k as nat));
                vstd::arithmetic::mul::lemma_mul_is_commutative(d as int, pow10(k as nat));
            }
            return None;
        }
        let p = pow10_u64(k as u64);
        proof {
            lemma_pow10_pos(k as nat);
        }
        match d.checked_mul(p) {
            Some(m) => {
                if m > i64::MAX as u64 {
                    None
                } else {
                    if neg {
                        Some(Fixed { micros: -(m as i64) })
                    } else {
                        Some(Fixed { micros: m as i64 })
                    }
                }
            },
            None => {
                proof {
                    assert(d * p > u64::MAX);
                }
                None
            },
        }
    } else {
        let nk: i64 = -k;
        if nk > 18 {
            proof {
                lemma_pow10_monotone(18, nk as nat);
                vstd::arithmetic::div_mod::lemma_basic_div(d as int, pow10(nk as nat));
            }
            return Some(Fixed { micros: 0 });
        }
        let p = pow10_u64(nk as u64);
        proof {
            lemma_pow10_pos(nk as nat);
            vstd::arithmetic::div_mod::lemma_div_nonincreasing(d as int, pow10(nk as nat));
            vstd::arithmetic::div_mod::lemma_div_pos_is_pos(d as int, pow10(nk as nat));
            lemma_pow10_monotone(18, 18);
            assert(pow10(18) == 1_000_000_000_000_000_000) by {
                reveal_with_fuel(pow10, 19);
            }
        }
        let q = d / p;
        assert(q <= d);
        if neg {
            Some(Fixed { micros: -(q as i64) })
        } else {
            Some(Fixed { micros: q as i64 })
        }
    }
}

/// Decodes an unsigned count, exactly as [`parse_u32_spec`] says.
pub fn parse_u32(s: &[u8]) -> (r: Option<u32>)
    ensures
        r == parse_u32_spec(s@),
{
    let ghost whole = s@;
    let start: usize = if s.len() > 0 && s[0] == 43 {
        1
    } else {
        0
    };
    let s: &[u8] = vstd::slice::slice_subrange(s, start, s.len());
    proof {
        if start == 1 {
            assert(s@ =~= whole.drop_first());
        } else {
            assert(s@ =~= whole);
        }
    }
    let n: usize = s.len();
    if n < 1 {
        return None;
    }
    let mut acc: u64 = 0;
    let mut i: usize = 0;
    while i < n
        invariant
            0 <= i <= n,
            1 <= n,
            n == s@.len(),
            all_digits(s@.take(i as int)),
            acc == digits_val(s@.take(i as int)),
            acc <= u32::MAX,
        decreases n - i,
    {
        let b = s[i];
        if b < 48 || b > 57 {
            assert(!is_digit(s@[i as int]));
            return None;
        }
        proof {
            assert(s@.take(i + 1 as int).drop_last() =~= s@.take(i as int));
            assert(s@.take(i + 1 as int).last() == s@[i as int]);
        }
        let next: u64 = acc * 10 + (b - 48) as u64;
        if next > u32::MAX as u64 {
            proof {
                lemma_digits_prefix_monotone(s@, (i + 1) as int);
            }
            return None;
        }
        acc = next;
        i = i + 1;
        assert(all_digits(s@.take(i as int)));
    }
    proof {
        assert(s@.take(n as int) =~= s@);
    }
    Some(acc as u32)
}

/// Appending digits never lowers the value of a digit string.
proof fn lemma_digits_prefix_monotone(s: Seq<u8>, j: int)
    requires
        0 <= j <= s.len(),
    ensures
        all_digits(s) ==> digits_val(s.take(j)) <= digits_val(s),
    decreases s.len(),
{
    if all_digits(s) {
        if j == s.len() {
            assert(s.take(j) =~= s);
        } else {
            assert(all_digits(s.drop_last()));
            assert(s.drop_last().take(j) =~= s.take(j));
            lemma_digits_prefix_monotone(s.drop_last(), j);
            lemma_digits_val_nonneg(s.drop_last());
        }
    }
}

} // verus!
