//! Payload digests: SHA-256 rendered as lowercase hexadecimal.
use vstd::prelude::*;
use vstd::string::*;
use sha2::{Digest, Sha256};
use vstd::utf8::{encode_utf8, is_ascii_chars, is_ascii_chars_encode_utf8};
use crate::requests::is_bundle_digest;
use crate::text::is_hex_digit;

verus! {

/// The SHA-256 digest of `data`, as the sha2 crate computes it.
pub uninterp spec fn sha256_spec(data: Seq<u8>) -> Seq<u8>;

/// `sha2::Sha256::digest`: its result is the SHA-256 digest of `data`, 32 bytes long.
#[verifier::external_body]
fn sha256(data: &[u8]) -> (r: Vec<u8>)
    ensures
        r@ == sha256_spec(data@),
        r@.len() == 32,
{
    Sha256::digest(data).to_vec()
}

/// The digits of lowercase hexadecimal.
pub open spec fn hex_alphabet() -> Seq<char> {
    "0123456789abcdef"@
}

/// `bytes` in lowercase hexadecimal, two digits per byte, high nibble first.
pub open spec fn hex_lower(bytes: Seq<u8>) -> Seq<char>
    decreases bytes.len(),
{
    if bytes.len() == 0 {
        seq![]
    } else {
        hex_lower(bytes.drop_last()) + seq![
            hex_alphabet()[(bytes.last() / 16) as int],
            hex_alphabet()[(bytes.last() % 16) as int],
        ]
    }
}

/// The digest string of a payload.
pub open spec fn digest_spec(payload: Seq<u8>) -> Seq<char> {
    hex_lower(sha256_spec(payload))
}

/// The hexadecimal digit of a nibble.
fn hex_digit(n: u8) -> (r: &'static str)
    requires
        n < 16,
    ensures
        r@ == seq![hex_alphabet()[n as int]],
{
    proof {
        reveal_strlit("0123456789abcdef");
    }
    match n {
        0 => {
            proof {
                reveal_strlit("0");
            }
            "0"
        },
        1 => {
            proof {
                reveal_strlit("1");
            }
            "1"
        },
        2 => {
            proof {
                reveal_strlit("2");
            }
            "2"
        },
        3 => {
            proof {
                reveal_strlit("3");
            }
            "3"
        },
        4 => {
            proof {
                reveal_strlit("4");
            }
            "4"
        },
        5 => {
            proof {
                reveal_strlit("5");
            }
            "5"
        },
        6 => {
            proof {
                reveal_strlit("6");
            }
            "6"
        },
        7 => {
            proof {
                reveal_strlit("7");
            }
            "7"
        },
        8 => {
            proof {
                reveal_strlit("8");
            }
            "8"
        },
        9 => {
            proof {
                reveal_strlit("9");
            }
            "9"
        },
        10 => {
            proof {
                reveal_strlit("a");
            }
            "a"
        },
        11 => {
            proof {
                reveal_strlit("b");
            }
            "b"
        },
        12 => {
            proof {
                reveal_strlit("c");
            }
            "c"
        },
        13 => {
            proof {
                reveal_strlit("d");
            }
            "d"
        },
        14 => {
            proof {
                reveal_strlit("e");
            }
            "e"
        },
        15 => {
            proof {
                reveal_strlit("f");
            }
            "f"
        },
        _ => {
            proof {
                reveal_strlit("f");
            }
            "f"
        },
    }
}

/// Lowercase hexadecimal rendering of `bytes`.
fn to_hex_lower(bytes: &[u8]) -> (r: String)
    ensures
        r@ == hex_lower(bytes@),
        r@.len() == 2 * bytes@.len(),
{
    let mut out = String::new();
    let mut i: usize = 0;
    while i < bytes.len()
        invariant
            i <= bytes.len(),
            out@ == hex_lower(bytes@.take(i as int)),
            out@.len() == 2 * i,
        decreases bytes.len() - i,
    {
        let b = bytes[i];
        out.append(hex_digit(b / 16));
        out.append(hex_digit(b % 16));
        assert(bytes@.take(i + 1).drop_last() =~= bytes@.take(i as int));
        i = i + 1;
    }
    assert(bytes@.take(bytes.len() as int) =~= bytes@);
    out
}

/// The lowercase hexadecimal SHA-256 digest of `payload`.
pub fn digest(payload: &[u8]) -> (r: String)
    ensures
        r@ == digest_spec(payload@),
        r@.len() == 64,
        is_bundle_digest(encode_utf8(r@)),
{
    let d = sha256(payload);
    let r = to_hex_lower(d.as_slice());
    proof {
        lemma_hex_text_is_a_digest(d@);
    }
    r
}

/// A lowercase hexadecimal digit.
pub open spec fn is_lower_hex_char(c: char) -> bool {
    ('0' <= c && c <= '9') || ('a' <= c && c <= 'f')
}

/// Every digit of the alphabet is a lowercase hexadecimal digit.
proof fn lemma_hex_alphabet(k: int)
    requires
        0 <= k < 16,
    ensures
        is_lower_hex_char(hex_alphabet()[k]),
{
    reveal_strlit("0123456789abcdef");
}

/// Hexadecimal text holds only lowercase hexadecimal digits.
proof fn lemma_hex_lower_chars(bytes: Seq<u8>)
    ensures
        hex_lower(bytes).len() == 2 * bytes.len(),
        forall|i: int| 0 <= i < hex_lower(bytes).len() ==> is_lower_hex_char(#[trigger] hex_lower(bytes)[i]),
    decreases bytes.len(),
{
    if bytes.len() > 0 {
        lemma_hex_lower_chars(bytes.drop_last());
        lemma_hex_alphabet((bytes.last() / 16) as int);
        lemma_hex_alphabet((bytes.last() % 16) as int);
    }
}

/// The hexadecimal text of a 32-byte digest passes the Build policy's check
/// on bundle digests: 64 hexadecimal digits.
proof fn lemma_hex_text_is_a_digest(bytes: Seq<u8>)
    requires
        bytes.len() == 32,
    ensures
        is_bundle_digest(encode_utf8(hex_lower(bytes))),
{
    let text = hex_lower(bytes);
    lemma_hex_lower_chars(bytes);
    assert(is_ascii_chars(text));
    is_ascii_chars_encode_utf8(text);
    let b = encode_utf8(text);
    assert forall|i: int| 0 <= i < b.len() implies is_hex_digit(#[trigger] b[i]) by {
        assert(text[i] as u8 == b[i]);
        assert(is_lower_hex_char(text[i]));
    }
}

/// Byte `i` of `bytes` is written as the two hexadecimal digits at positions
/// `2i` and `2i + 1`: high nibble first, in lowercase.
pub proof fn lemma_hex_lower_positions(bytes: Seq<u8>)
    ensures
        hex_lower(bytes).len() == 2 * bytes.len(),
        forall|i: int|
            0 <= i < bytes.len() ==> hex_lower(bytes)[2 * i] == "0123456789abcdef"@[(#[trigger] bytes[i]
                / 16) as int] && hex_lower(bytes)[2 * i + 1] == "0123456789abcdef"@[(bytes[i]
                % 16) as int],
    decreases bytes.len(),
{
    if bytes.len() > 0 {
        let init = bytes.drop_last();
        lemma_hex_lower_positions(init);
        assert forall|i: int| 0 <= i < bytes.len() implies hex_lower(bytes)[2 * i]
            == "0123456789abcdef"@[(#[trigger] bytes[i] / 16) as int] && hex_lower(bytes)[2 * i + 1]
            == "0123456789abcdef"@[(bytes[i] % 16) as int] by {
            if i < bytes.len() - 1 {
                assert(init[i] == bytes[i]);
            }
        }
    }
}

/// The digest of a payload is the lowercase hexadecimal rendering of the
/// SHA-256 digest of the whole payload, whatever its length: two digits per
/// digest byte, high nibble first.
pub proof fn lemma_digest_covers_the_whole_payload(payload: Seq<u8>)
    ensures
        digest_spec(payload).len() == 2 * sha256_spec(payload).len(),
        forall|i: int|
            0 <= i < sha256_spec(payload).len() ==> digest_spec(payload)[2 * i]
                == "0123456789abcdef"@[(#[trigger] sha256_spec(payload)[i] / 16) as int]
                && digest_spec(payload)[2 * i + 1] == "0123456789abcdef"@[(sha256_spec(payload)[i]
                % 16) as int],
{
    lemma_hex_lower_positions(sha256_spec(payload));
}

} // verus!
