//! The JSON text of strings and small numbers, byte for byte as serde_json's
//! compact writer produces it.
use vstd::prelude::*;

verus! {

/// The lowercase hexadecimal digit of a nibble, as a byte.
pub open spec fn hex_digit_byte(n: u8) -> u8
    recommends
        n < 16,
{
    if n < 10 {
        (0x30 + n) as u8
    } else {
        (0x57 + n) as u8
    }
}

/// How one byte of a string is written inside a JSON string literal: `"` and
/// `\` and the control bytes below 0x20 are escaped, every other byte stands
/// for itself.
pub open spec fn escape_byte(b: u8) -> Seq<u8> {
    if b == 0x22 {
        seq![0x5cu8, 0x22u8]  // \"
    } else if b == 0x5c {
        seq![0x5cu8, 0x5cu8]  // \\
    } else if b == 0x08 {
        seq![0x5cu8, 0x62u8]  // \b
    } else if b == 0x09 {
        seq![0x5cu8, 0x74u8]  // \t
    } else if b == 0x0a {
        seq![0x5cu8, 0x6eu8]  // \n
    } else if b == 0x0c {
        seq![0x5cu8, 0x66u8]  // \f
    } else if b == 0x0d {
        seq![0x5cu8, 0x72u8]  // \r
    } else if b < 0x20 {
        // \u00XX
        seq![0x5cu8, 0x75u8, 0x30u8, 0x30u8, hex_digit_byte(b / 16), hex_digit_byte(b % 16)]
    } else {
        seq![b]
    }
}

/// The escaped contents of a JSON string literal for the bytes `s`.
pub open spec fn escape_bytes(s: Seq<u8>) -> Seq<u8>
    decreases s.len(),
{
    if s.len() == 0 {
        seq![]
    } else {
        escape_bytes(s.drop_last()) + escape_byte(s.last())
    }
}

/// The JSON string literal for the bytes `s`, quotes included.
pub open spec fn json_string(s: Seq<u8>) -> Seq<u8> {
    seq![0x22u8] + escape_bytes(s) + seq![0x22u8]
}

/// The decimal digits of `n`, without leading zeros.
pub open spec fn decimal(n: nat) -> Seq<u8>
    decreases n,
{
    if n < 10 {
        seq![(0x30 + n) as u8]
    } else {
        decimal(n / 10) + seq![(0x30 + n % 10) as u8]
    }
}

/// The value of a run of decimal digits.
pub open spec fn digits_value(d: Seq<u8>) -> nat
    decreases d.len(),
{
    if d.len() == 0 {
        0
    } else {
        digits_value(d.drop_last()) * 10 + (d.last() - 0x30) as nat
    }
}

/// Decimal digits read back as the number they were written for.
pub proof fn lemma_decimal_reads_back(n: nat)
    ensures
        digits_value(decimal(n)) == n,
    decreases n,
{
    let d = decimal(n);
    if n >= 10 {
        lemma_decimal_reads_back(n / 10);
        assert(d.drop_last() =~= decimal(n / 10));
    } else {
        assert(d.drop_last() =~= Seq::<u8>::empty());
    }
    assert(d.last() == (0x30 + n % 10) as u8);
    assert(digits_value(d) == digits_value(d.drop_last()) * 10 + (n % 10));
}

/// Append `s` to `out`.
pub fn push_all(out: &mut Vec<u8>, s: &[u8])
    ensures
        final(out)@ == old(out)@ + s@,
{
    let ghost start = out@;
    let mut i: usize = 0;
    while i < s.len()
        invariant
            i <= s.len(),
            out@ == start + s@.take(i as int),
        decreases s.len() - i,
    {
        out.push(s[i]);
        assert(s@.take(i + 1) =~= s@.take(i as int).push(s@[i as int]));
        i = i + 1;
    }
    assert(s@.take(s.len() as int) =~= s@);
}

/// Append the escaped form of one byte.
fn push_escaped_byte(out: &mut Vec<u8>, b: u8)
    ensures
        final(out)@ == old(out)@ + escape_byte(b),
{
    let ghost start = out@;
    if b == 0x22 || b == 0x5c {
        out.push(0x5c);
        out.push(b);
    } else if b == 0x08 {
        out.push(0x5c);
        out.push(0x62);
    } else if b == 0x09 {
        out.push(0x5c);
        out.push(0x74);
    } else if b == 0x0a {
        out.push(0x5c);
        out.push(0x6e);
    } else if b == 0x0c {
        out.push(0x5c);
        out.push(0x66);
    } else if b == 0x0d {
        out.push(0x5c);
        out.push(0x72);
    } else if b < 0x20 {
        let hi = b / 16;
        let lo = b % 16;
        out.push(0x5c);
        out.push(0x75);
        out.push(0x30);
        out.push(0x30);
        out.push(if hi < 10 { 0x30 + hi } else { 0x57 + hi });
        out.push(if lo < 10 { 0x30 + lo } else { 0x57 + lo });
    } else {
        out.push(b);
    }
    assert(out@ =~= start + escape_byte(b));
}

/// Append the JSON string literal for the bytes `s`.
pub fn push_json_string(out: &mut Vec<u8>, s: &[u8])
    ensures
        final(out)@ == old(out)@ + json_string(s@),
{
    let ghost start = out@;
    out.push(0x22);
    let mut i: usize = 0;
    while i < s.len()
        invariant
            i <= s.len(),
            out@ == start + seq![0x22u8] + escape_bytes(s@.take(i as int)),
        decreases s.len() - i,
    {
        push_escaped_byte(out, s[i]);
        assert(s@.take(i + 1).drop_last() =~= s@.take(i as int));
        i = i + 1;
    }
    assert(s@.take(s.len() as int) =~= s@);
    out.push(0x22);
    assert(out@ =~= start + json_string(s@));
}

/// Append the decimal digits of `n`.
pub fn push_decimal(out: &mut Vec<u8>, n: u64)
    ensures
        final(out)@ == old(out)@ + decimal(n as nat),
    decreases n,
{
    let ghost start = out@;
    if n >= 10 {
        push_decimal(out, n / 10);
    }
    out.push(0x30 + (n % 10) as u8);
    assert(out@ =~= start + decimal(n as nat));
}

/// No byte of `s` is a line feed.
pub open spec fn newline_free(s: Seq<u8>) -> bool {
    forall|i: int| 0 <= i < s.len() ==> #[trigger] s[i] != 0x0a
}

/// Whether no byte of `s` is a line feed.
pub fn is_newline_free(s: &[u8]) -> (r: bool)
    ensures
        r == newline_free(s@),
{
    let mut i: usize = 0;
    while i < s.len()
        invariant
            i <= s.len(),
            forall|k: int| 0 <= k < i ==> #[trigger] s@[k] != 0x0a,
        decreases s.len() - i,
    {
        if s[i] == 0x0a {
            return false;
        }
        i = i + 1;
    }
    true
}

/// Escaped text never holds a raw line feed: a line feed in a string is
/// written as `\n`.
pub proof fn lemma_escaped_text_is_newline_free(s: Seq<u8>)
    ensures
        newline_free(escape_bytes(s)),
        newline_free(json_string(s)),
    decreases s.len(),
{
    if s.len() > 0 {
        lemma_escaped_text_is_newline_free(s.drop_last());
        let x = s.last();
        assert(newline_free(escape_byte(x))) by {
            if x < 0x20 {
                assert(hex_digit_byte(x / 16) != 0x0a);
                assert(hex_digit_byte(x % 16) != 0x0a);
            }
        }
        assert(escape_bytes(s) == escape_bytes(s.drop_last()) + escape_byte(x));
    }
    assert(json_string(s) == seq![0x22u8] + escape_bytes(s) + seq![0x22u8]);
}

/// Decimal digits are never a line feed.
pub proof fn lemma_decimal_is_newline_free(n: nat)
    ensures
        newline_free(decimal(n)),
    decreases n,
{
    if n >= 10 {
        lemma_decimal_is_newline_free(n / 10);
    }
}

/// The byte that the two-byte escape `\c` stands for, when `c` names one.
pub open spec fn short_escape(c: u8) -> Option<u8> {
    if c == 0x22 {
        Some(0x22u8)
    } else if c == 0x5c {
        Some(0x5cu8)
    } else if c == 0x2f {
        Some(0x2fu8)
    } else if c == 0x62 {
        Some(0x08u8)
    } else if c == 0x66 {
        Some(0x0cu8)
    } else if c == 0x6e {
        Some(0x0au8)
    } else if c == 0x72 {
        Some(0x0du8)
    } else if c == 0x74 {
        Some(0x09u8)
    } else {
        None
    }
}

/// The value of a hexadecimal digit of either case, when `b` is one.
pub open spec fn hex_value(b: u8) -> Option<nat> {
    if 0x30 <= b <= 0x39 {
        Some((b - 0x30) as nat)
    } else if 0x61 <= b <= 0x66 {
        Some((b - 0x57) as nat)
    } else if 0x41 <= b <= 0x46 {
        Some((b - 0x37) as nat)
    } else {
        None
    }
}

/// The code point that the escape `\uXXXX` at the front of `s` names.
pub open spec fn unicode_escape(s: Seq<u8>) -> Option<nat> {
    if s.len() >= 6 && s[0] == 0x5c && s[1] == 0x75 {
        match (hex_value(s[2]), hex_value(s[3]), hex_value(s[4]), hex_value(s[5])) {
            (Some(a), Some(b), Some(c), Some(d)) => Some(a * 4096 + b * 256 + c * 16 + d),
            _ => None,
        }
    } else {
        None
    }
}

/// Reading a JSON string literal after its opening quote, under JSON's rules
/// for escapes (of `\u` escapes, those of ASCII code points): the bytes it
/// stands for, and how many bytes it takes up to and including the closing
/// quote. `None` where the text is not such a literal.
pub open spec fn read_string_body(s: Seq<u8>) -> Option<(Seq<u8>, nat)>
    decreases s.len(),
{
    if s.len() == 0 {
        None
    } else if s[0] == 0x22 {
        Some((seq![], 1))
    } else if s[0] == 0x5c {
        if s.len() >= 2 && short_escape(s[1]) is Some {
            match read_string_body(s.skip(2)) {
                Some((r, n)) => Some((seq![short_escape(s[1])->Some_0] + r, n + 2)),
                None => None,
            }
        } else if unicode_escape(s) matches Some(v) && v < 0x80 {
            match read_string_body(s.skip(6)) {
                Some((r, n)) => Some((seq![unicode_escape(s)->Some_0 as u8] + r, n + 6)),
                None => None,
            }
        } else {
            None
        }
    } else if s[0] < 0x20 {
        None
    } else {
        match read_string_body(s.skip(1)) {
            Some((r, n)) => Some((seq![s[0]] + r, n + 1)),
            None => None,
        }
    }
}

/// Reading a JSON string literal at the front of `s`: the bytes it stands for
/// and its length.
pub open spec fn read_string(s: Seq<u8>) -> Option<(Seq<u8>, nat)> {
    if s.len() > 0 && s[0] == 0x22 {
        match read_string_body(s.skip(1)) {
            Some((r, n)) => Some((r, n + 1)),
            None => None,
        }
    } else {
        None
    }
}

/// Escaping a leading byte.
proof fn lemma_escape_prepend(x: u8, t: Seq<u8>)
    ensures
        escape_bytes(seq![x] + t) == escape_byte(x) + escape_bytes(t),
    decreases t.len(),
{
    if t.len() == 0 {
        assert(seq![x] + t =~= seq![x]);
        assert(seq![x].drop_last() =~= Seq::<u8>::empty());
        assert(seq![x].last() == x);
        assert(escape_bytes(Seq::<u8>::empty()) =~= Seq::<u8>::empty());
        assert(escape_bytes(seq![x]) =~= escape_bytes(seq![x].drop_last()) + escape_byte(x));
        assert(escape_bytes(seq![x]) =~= escape_byte(x));
        assert(escape_byte(x) + escape_bytes(t) =~= escape_byte(x));
    } else {
        lemma_escape_prepend(x, t.drop_last());
        assert((seq![x] + t).drop_last() =~= seq![x] + t.drop_last());
        assert((seq![x] + t).last() == t.last());
        assert(escape_byte(x) + escape_bytes(t) =~= escape_byte(x) + escape_bytes(t.drop_last())
            + escape_byte(t.last()));
    }
}

/// Reading past the escaped form of one byte gives back that byte.
proof fn lemma_read_escaped_byte(x: u8, t: Seq<u8>)
    ensures
        read_string_body(escape_byte(x) + t) == match read_string_body(t) {
            Some((r, n)) => Some((seq![x] + r, n + escape_byte(x).len())),
            None => None::<(Seq<u8>, nat)>,
        },
{
    let e = escape_byte(x);
    let s = e + t;
    if e.len() == 2 {
        assert(s.skip(2) =~= t);
    } else if e.len() == 6 {
        assert(s.skip(6) =~= t);
        assert(hex_value(hex_digit_byte(x / 16)) == Some((x / 16) as nat));
        assert(hex_value(hex_digit_byte(x % 16)) == Some((x % 16) as nat));
        assert(unicode_escape(s) == Some(x as nat));
    } else {
        assert(s.skip(1) =~= t);
    }
}

/// Reading the escaped text of `s` followed by a closing quote.
proof fn lemma_read_back_body(s: Seq<u8>, rest: Seq<u8>)
    ensures
        read_string_body(escape_bytes(s) + seq![0x22u8] + rest) == Some(
            (s, escape_bytes(s).len() + 1),
        ),
    decreases s.len(),
{
    if s.len() == 0 {
        assert(escape_bytes(s) + seq![0x22u8] + rest =~= seq![0x22u8] + rest);
        assert(s =~= Seq::<u8>::empty());
    } else {
        let x = s[0];
        let tail = s.drop_first();
        assert(s =~= seq![x] + tail);
        lemma_escape_prepend(x, tail);
        lemma_read_back_body(tail, rest);
        lemma_read_escaped_byte(x, escape_bytes(tail) + seq![0x22u8] + rest);
        assert(escape_bytes(s) + seq![0x22u8] + rest =~= escape_byte(x) + (escape_bytes(tail)
            + seq![0x22u8] + rest));
    }
}

/// What a write gives a read: the JSON string literal written for any bytes
/// reads back as exactly those bytes, and ends exactly where it was written to
/// end, whatever follows it.
pub proof fn lemma_json_string_reads_back(s: Seq<u8>, rest: Seq<u8>)
    ensures
        read_string(json_string(s) + rest) == Some((s, json_string(s).len())),
{
    lemma_read_back_body(s, rest);
    let whole = json_string(s) + rest;
    assert(whole.skip(1) =~= escape_bytes(s) + seq![0x22u8] + rest);
}

} // verus!
