//! Reading one bounded record line from a byte stream, one byte at a time: the
//! reader stops at the first line feed, refuses a line that runs past
//! `MAX_RECORD` bytes, and refuses a stream that ends before its line does.
use vstd::prelude::*;
use crate::frame::MAX_RECORD;
use crate::json::newline_free;

verus! {

/// What the reader does after one more byte, or the end of the stream.
#[derive(Clone, Copy, Debug, PartialEq, Eq, Structural)]
pub enum LineStep {
    /// The line is not complete; read another byte.
    ReadMore,
    /// The line is complete, its line feed included.
    Line,
    /// No line: the stream ended, or the line grew past the limit.
    Refused,
}

/// The step for a line of `len` bytes so far and the next byte (`None` at the
/// end of the stream).
pub open spec fn line_step(len: nat, byte: Option<u8>) -> LineStep {
    match byte {
        None => LineStep::Refused,
        Some(b) => if b == 0x0a {
            LineStep::Line
        } else if len + 1 > MAX_RECORD {
            LineStep::Refused
        } else {
            LineStep::ReadMore
        },
    }
}

/// Take the next byte of the stream (`None` at its end) into `line`.
pub fn bounded_line_step(line: &mut Vec<u8>, byte: Option<u8>) -> (r: LineStep)
    requires
        old(line)@.len() <= MAX_RECORD,
    ensures
        match byte {
            Some(b) => final(line)@ == old(line)@.push(b),
            None => final(line)@ == old(line)@,
        },
        r == line_step(old(line)@.len() as nat, byte),
{
    match byte {
        None => LineStep::Refused,
        Some(b) => {
            line.push(b);
            if b == 0x0a {
                LineStep::Line
            } else if line.len() > MAX_RECORD {
                LineStep::Refused
            } else {
                LineStep::ReadMore
            }
        },
    }
}

/// Driving the step from `line` over a stream that yields `s` and then ends:
/// the line returned, if any, and how many bytes of `s` were taken.
pub open spec fn read_line_from(line: Seq<u8>, s: Seq<u8>) -> (Option<Seq<u8>>, nat)
    decreases s.len(),
{
    if s.len() == 0 {
        (None, 0)
    } else {
        match line_step(line.len(), Some(s[0])) {
            LineStep::Line => (Some(line.push(s[0])), 1),
            LineStep::Refused => (None, 1),
            LineStep::ReadMore => {
                let (r, n) = read_line_from(line.push(s[0]), s.skip(1));
                (r, n + 1)
            },
        }
    }
}

/// `k` is the position of the first line feed of `s`.
pub open spec fn first_newline(s: Seq<u8>, k: int) -> bool {
    &&& 0 <= k < s.len()
    &&& s[k] == 0x0a
    &&& forall|j: int| 0 <= j < k ==> s[j] != 0x0a
}

/// Reading on from a line-feed-free start `p`.
proof fn lemma_read_line_from(p: Seq<u8>, s: Seq<u8>)
    requires
        p.len() <= MAX_RECORD,
        newline_free(p),
    ensures
        read_line_from(p, s).1 <= MAX_RECORD + 1 - p.len(),
        read_line_from(p, s).1 <= s.len(),
        match read_line_from(p, s).0 {
            Some(l) => exists|k: int|
                #[trigger] first_newline(s, k) && p.len() + k <= MAX_RECORD && l == p + s.take(k + 1),
            None => forall|k: int| #[trigger] first_newline(s, k) ==> p.len() + k > MAX_RECORD,
        },
    decreases s.len(),
{
    if s.len() > 0 {
        let b = s[0];
        if b == 0x0a {
            assert(first_newline(s, 0));
            assert(p.push(b) =~= p + s.take(1));
        } else if p.len() + 1 > MAX_RECORD {
            assert forall|k: int| #[trigger] first_newline(s, k) implies p.len() + k > MAX_RECORD by {
                assert(k != 0);
            }
        } else {
            let p2 = p.push(b);
            let s2 = s.skip(1);
            lemma_read_line_from(p2, s2);
            match read_line_from(p2, s2).0 {
                Some(l) => {
                    let k2 = choose|k: int|
                        #[trigger] first_newline(s2, k) && p2.len() + k <= MAX_RECORD && l == p2
                            + s2.take(k + 1);
                    assert(first_newline(s, k2 + 1)) by {
                        assert forall|j: int| 0 <= j < k2 + 1 implies s[j] != 0x0a by {
                            if j > 0 {
                                assert(s[j] == s2[j - 1]);
                            }
                        }
                        assert(s[k2 + 1] == s2[k2]);
                    }
                    assert(l =~= p + s.take(k2 + 2));
                },
                None => {
                    assert forall|k: int| #[trigger] first_newline(s, k) implies p.len() + k
                        > MAX_RECORD by {
                        assert(k != 0);
                        assert(first_newline(s2, k - 1)) by {
                            assert forall|j: int| 0 <= j < k - 1 implies s2[j] != 0x0a by {
                                assert(s2[j] == s[j + 1]);
                            }
                        }
                    }
                },
            }
        }
    }
}

/// The bounded read: a stream yields a line exactly when its first line feed
/// comes within the first `MAX_RECORD + 1` bytes, and the line is then the
/// stream up to and including that line feed. The reader never takes more
/// than `MAX_RECORD + 1` bytes.
pub proof fn lemma_bounded_line(s: Seq<u8>)
    ensures
        read_line_from(seq![], s).1 <= MAX_RECORD + 1,
        read_line_from(seq![], s).1 <= s.len(),
        match read_line_from(seq![], s).0 {
            Some(l) => exists|k: int| #[trigger] first_newline(s, k) && k <= MAX_RECORD && l == s.take(k + 1),
            None => forall|k: int| #[trigger] first_newline(s, k) ==> k > MAX_RECORD,
        },
{
    let empty = Seq::<u8>::empty();
    lemma_read_line_from(empty, s);
    if let Some(l) = read_line_from(empty, s).0 {
        let k = choose|k: int|
            #[trigger] first_newline(s, k) && empty.len() + k <= MAX_RECORD && l == empty + s.take(k + 1);
        assert(empty + s.take(k + 1) =~= s.take(k + 1));
    }
}

} // verus!
