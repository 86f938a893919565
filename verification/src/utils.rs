//! Small helpers shared by the matchers and the registries.

use vstd::prelude::*;

use crate::fixed::Fixed;
use crate::numbers;

verus! {

/// The bytes of an ASCII string, character by character.
pub open spec fn ascii_bytes(s: &str) -> Seq<u8> {
    Seq::new(s@.len(), |i: int| s@[i] as u8)
}

/// The bytes of an ASCII string literal.
pub fn str_bytes(s: &str) -> (r: &[u8])
    requires
        vstd::string::is_ascii(s),
    ensures
        r@ == ascii_bytes(s),
{
    proof {
        broadcast use vstd::string::is_ascii_spec_bytes;
    }
    s.as_bytes()
}

/// Byte-for-byte equality of two byte strings.
pub fn bytes_eq(a: &[u8], b: &[u8]) -> (r: bool)
    ensures
        r == (a@ == b@),
{
    if a.len() != b.len() {
        assert(a@.len() != b@.len());
        return false;
    }
    let n = a.len();
    let mut i: usize = 0;
    while i < n
        invariant
            0 <= i <= n,
            n == a@.len() == b@.len(),
            forall|j: int| 0 <= j < i ==> a@[j] == b@[j],
        decreases n - i,
    {
        if a[i] != b[i] {
            return false;
        }
        i = i + 1;
    }
    proof {
        assert(a@ =~= b@);
    }
    true
}

/// A key with an ASCII suffix appended, such as the `-end` variants of the
/// translation and rotation attributes.
pub fn add_suffix(key: &[u8], suffix: &str) -> (r: Vec<u8>)
    requires
        vstd::string::is_ascii(suffix),
    ensures
        r@ == key@ + ascii_bytes(suffix),
{
    let mut r: Vec<u8> = Vec::new();
    let n = key.len();
    let mut i: usize = 0;
    while i < n
        invariant
            0 <= i <= n,
            n == key@.len(),
            r@ == key@.take(i as int),
        decreases n - i,
    {
        r.push(key[i]);
        proof {
            assert(r@ =~= key@.take(i + 1 as int));
        }
        i = i + 1;
    }
    let sb = str_bytes(suffix);
    let m = sb.len();
    let mut j: usize = 0;
    while j < m
        invariant
            0 <= j <= m,
            m == sb@.len(),
            sb@ == ascii_bytes(suffix),
            r@ == key@ + sb@.take(j as int),
        decreases m - j,
    {
        r.push(sb[j]);
        proof {
            assert(r@ =~= key@ + sb@.take(j + 1 as int));
        }
        j = j + 1;
    }
    proof {
        assert(key@.take(key@.len() as int) =~= key@);
        assert(sb@.take(m as int) =~= sb@);
    }
    r
}

/// Decodes a numeric attribute value into millionths of a unit, exactly as
/// [`numbers::parse_fixed_spec`] says.
pub fn parse_attribute(attribute: &[u8]) -> (r: Option<Fixed>)
    ensures
        r is Some <==> numbers::parse_fixed_spec(attribute@) is Some,
        r matches Some(f) ==> numbers::parse_fixed_spec(attribute@) == Some(f.micros),
{
    numbers::parse_fixed(attribute)
}

} // verus!
