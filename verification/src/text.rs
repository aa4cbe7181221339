//! Byte-level facts about text that the protocol and policy checks rely on.
use vstd::prelude::*;
use vstd::utf8::*;

verus! {

broadcast use vstd::utf8::group_utf8_lib;

/// `prefix` is a prefix of `s`.
pub open spec fn has_prefix(s: Seq<u8>, prefix: Seq<u8>) -> bool {
    prefix.len() <= s.len() && s.subrange(0, prefix.len() as int) == prefix
}

/// An ASCII control byte: C0 controls and DEL.
pub open spec fn is_control(b: u8) -> bool {
    b < 0x20 || b == 0x7f
}

/// No byte of `s` is a control byte.
pub open spec fn control_free(s: Seq<u8>) -> bool {
    forall|i: int| 0 <= i < s.len() ==> !is_control(#[trigger] s[i])
}

/// An ASCII hexadecimal digit, as `u8::is_ascii_hexdigit` defines it.
pub open spec fn is_hex_digit(b: u8) -> bool {
    (0x30 <= b && b <= 0x39) || (0x41 <= b && b <= 0x46) || (0x61 <= b && b <= 0x66)
}

/// `s[i..j]` is one of the parts that splitting `s` at every `/` yields.
pub open spec fn is_segment(s: Seq<u8>, i: int, j: int) -> bool {
    &&& 0 <= i <= j <= s.len()
    &&& (i == 0 || s[i - 1] == 0x2f)
    &&& (j == s.len() || s[j] == 0x2f)
    &&& forall|k: int| i <= k < j ==> s[k] != 0x2f
}

/// A path part that a relative path may not hold: empty, or `..`.
pub open spec fn is_bad_part(part: Seq<u8>) -> bool {
    part.len() == 0 || (part.len() == 2 && part[0] == 0x2e && part[1] == 0x2e)
}

/// Some `/`-separated part of `s` is empty or `..`.
pub open spec fn has_bad_part(s: Seq<u8>) -> bool {
    exists|i: int, j: int| #[trigger] is_segment(s, i, j) && is_bad_part(s.subrange(i, j))
}

/// Byte-wise equality of two slices.
pub fn bytes_eq(a: &[u8], b: &[u8]) -> (r: bool)
    ensures
        r == (a@ == b@),
{
    if a.len() != b.len() {
        return false;
    }
    let mut i: usize = 0;
    while i < a.len()
        invariant
            a.len() == b.len(),
            i <= a.len(),
            forall|k: int| 0 <= k < i ==> a@[k] == b@[k],
        decreases a.len() - i,
    {
        if a[i] != b[i] {
            return false;
        }
        i = i + 1;
    }
    assert(a@ =~= b@);
    true
}

/// Equality of two strings, decided on their UTF-8 bytes.
pub fn str_eq(a: &str, b: &str) -> (r: bool)
    ensures
        r == (a@ == b@),
{
    let r = bytes_eq(a.as_bytes(), b.as_bytes());
    proof {
        encode_utf8_decode_utf8(a@);
        encode_utf8_decode_utf8(b@);
    }
    r
}

/// Whether `s` starts with `prefix`.
pub fn bytes_start_with(s: &[u8], prefix: &[u8]) -> (r: bool)
    ensures
        r == has_prefix(s@, prefix@),
{
    if prefix.len() > s.len() {
        return false;
    }
    let mut i: usize = 0;
    while i < prefix.len()
        invariant
            prefix.len() <= s.len(),
            i <= prefix.len(),
            forall|k: int| 0 <= k < i ==> s@[k] == prefix@[k],
        decreases prefix.len() - i,
    {
        if s[i] != prefix[i] {
            assert(s@.subrange(0, prefix.len() as int)[i as int] != prefix@[i as int]);
            return false;
        }
        i = i + 1;
    }
    assert(s@.subrange(0, prefix.len() as int) =~= prefix@);
    true
}

/// Whether no byte of `s` is a control byte.
pub fn is_control_free(s: &[u8]) -> (r: bool)
    ensures
        r == control_free(s@),
{
    let mut i: usize = 0;
    while i < s.len()
        invariant
            i <= s.len(),
            forall|k: int| 0 <= k < i ==> !is_control(#[trigger] s@[k]),
        decreases s.len() - i,
    {
        if s[i] < 0x20 || s[i] == 0x7f {
            assert(is_control(s@[i as int]));
            return false;
        }
        i = i + 1;
    }
    true
}

/// Whether every byte of `s` is an ASCII hexadecimal digit.
pub fn all_hex_digits(s: &[u8]) -> (r: bool)
    ensures
        r == (forall|i: int| 0 <= i < s@.len() ==> is_hex_digit(#[trigger] s@[i])),
{
    let mut i: usize = 0;
    while i < s.len()
        invariant
            i <= s.len(),
            forall|k: int| 0 <= k < i ==> is_hex_digit(#[trigger] s@[k]),
        decreases s.len() - i,
    {
        let b = s[i];
        if !((0x30 <= b && b <= 0x39) || (0x41 <= b && b <= 0x46) || (0x61 <= b && b <= 0x66)) {
            assert(!is_hex_digit(s@[i as int]));
            return false;
        }
        i = i + 1;
    }
    true
}

/// Whether the part `s[start..end]` is empty or `..`.
fn part_is_bad(s: &[u8], start: usize, end: usize) -> (r: bool)
    requires
        start <= end <= s.len(),
    ensures
        r == is_bad_part(s@.subrange(start as int, end as int)),
{
    end == start || (end - start == 2 && s[start] == 0x2e && s[start + 1] == 0x2e)
}

/// Whether some `/`-separated part of `s` is empty or `..`.
pub fn has_bad_part_exec(s: &[u8]) -> (r: bool)
    ensures
        r == has_bad_part(s@),
{
    let n = s.len();
    let mut start: usize = 0;
    let mut k: usize = 0;
    while k < n
        invariant
            n == s@.len(),
            start <= k <= n,
            start == 0 || s@[start - 1] == 0x2f,
            forall|m: int| start <= m < k ==> s@[m] != 0x2f,
            forall|i: int, j: int|
                #[trigger] is_segment(s@, i, j) && j < k ==> !is_bad_part(s@.subrange(i, j)),
        decreases n - k,
    {
        if s[k] == 0x2f {
            assert(is_segment(s@, start as int, k as int));
            if part_is_bad(s, start, k) {
                return true;
            }
            assert forall|i: int, j: int| #[trigger]
                is_segment(s@, i, j) && j < k + 1 implies !is_bad_part(s@.subrange(i, j)) by {
                if j == k {
                    if i < start {
                        assert(s@[start - 1] == 0x2f);
                    } else if i > start {
                        assert(s@[i - 1] == 0x2f);
                    }
                }
            }
            start = k + 1;
        }
        k = k + 1;
    }
    assert(is_segment(s@, start as int, n as int));
    let last = part_is_bad(s, start, n);
    if !last {
        assert forall|i: int, j: int| #[trigger] is_segment(s@, i, j) implies !is_bad_part(
            s@.subrange(i, j),
        ) by {
            if j == n {
                if i < start {
                    assert(s@[start - 1] == 0x2f);
                } else if i > start {
                    assert(s@[i - 1] == 0x2f);
                }
            }
        }
    }
    last
}

/// The first byte of the UTF-8 text of a string that starts with an ASCII
/// character is that character.
pub proof fn lemma_first_ascii_byte(s: Seq<char>)
    requires
        s.len() > 0,
        (s[0] as u32) < 0x80,
    ensures
        encode_utf8(s).len() > 0,
        encode_utf8(s)[0] as u32 == s[0] as u32,
{
    assert(encode_utf8(s) == encode_scalar(s[0] as u32) + encode_utf8(s.drop_first()));
    let c: u32 = s[0] as u32;
    assert(((c & 0x7f) as u8) as u32 == c) by (bit_vector)
        requires
            c < 0x80,
    ;
    assert(encode_scalar(c) == seq![(c & 0x7f) as u8]);
}

} // verus!
