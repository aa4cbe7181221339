//! Protocol records: bounded JSON Lines, one frame per line.
use vstd::prelude::*;
use vstd::string::*;
use vstd::utf8::{encode_utf8, encode_utf8_decode_utf8, is_ascii_chars, is_ascii_chars_encode_utf8};
use crate::digest::{digest, digest_spec};
use crate::json::{
    decimal, json_string, lemma_decimal_is_newline_free, lemma_decimal_reads_back,
    is_newline_free, lemma_escaped_text_is_newline_free, lemma_json_string_reads_back,
    newline_free, push_all,
    push_decimal, push_json_string, read_string,
};
use crate::policy::Operation;
use crate::text::{has_prefix, str_eq};

verus! {

/// The largest record, delimiter included, in bytes.
pub const MAX_RECORD: usize = 16 * 1024;

/// The largest payload JSON text, in bytes.
pub const MAX_PAYLOAD: usize = 8 * 1024;

/// One protocol record.
#[derive(Clone, Debug)]
pub struct Frame {
    pub version: u8,
    pub channel: String,
    pub request_id: String,
    pub operation: Operation,
    pub nonce: String,
    pub payload_sha256: String,
    /// The payload's JSON text, as serde_json writes a value in compact form.
    /// `encode` checks that it is one line; that it is a single JSON value is
    /// up to whoever builds the frame (the serde forms in the programs do).
    pub payload: Vec<u8>,
}

/// The name an operation has on the wire.
pub open spec fn operation_name(op: Operation) -> Seq<char> {
    match op {
        Operation::SubmitTask => "submit_task"@,
        Operation::StatusQuery => "status_query"@,
        Operation::OperatorReview => "operator_review"@,
        Operation::Status => "status"@,
        Operation::Result => "result"@,
        Operation::Failure => "failure"@,
        Operation::Fetch => "fetch"@,
        Operation::ScopedPush => "scoped_push"@,
        Operation::SendBundle => "send_bundle"@,
        Operation::Check => "check"@,
        Operation::Test => "test"@,
        Operation::Run => "run"@,
        Operation::Reset => "reset"@,
    }
}

/// The name an operation has on the wire.
pub fn operation_name_str(op: Operation) -> (r: &'static str)
    ensures
        r@ == operation_name(op),
{
    match op {
        Operation::SubmitTask => "submit_task",
        Operation::StatusQuery => "status_query",
        Operation::OperatorReview => "operator_review",
        Operation::Status => "status",
        Operation::Result => "result",
        Operation::Failure => "failure",
        Operation::Fetch => "fetch",
        Operation::ScopedPush => "scoped_push",
        Operation::SendBundle => "send_bundle",
        Operation::Check => "check",
        Operation::Test => "test",
        Operation::Run => "run",
        Operation::Reset => "reset",
    }
}

/// The JSON text of a frame, without the line delimiter: its fields in
/// declaration order, compact, as serde_json writes the record.
pub open spec fn record_text(f: Frame) -> Seq<u8> {
    encode_utf8("{\"version\":"@) + decimal(f.version as nat) + encode_utf8(",\"channel\":"@)
        + json_string(encode_utf8(f.channel@)) + encode_utf8(",\"request_id\":"@) + json_string(
        encode_utf8(f.request_id@),
    ) + encode_utf8(",\"operation\":"@) + json_string(encode_utf8(operation_name(f.operation)))
        + encode_utf8(",\"nonce\":"@) + json_string(encode_utf8(f.nonce@)) + encode_utf8(
        ",\"payload_sha256\":"@,
    ) + json_string(encode_utf8(f.payload_sha256@)) + encode_utf8(",\"payload\":"@) + f.payload@
        + encode_utf8("}"@)
}

/// The field bounds a frame must keep: version 1, a request id and a nonce of
/// 1 to 128 bytes, a channel name of at most 64 bytes.
pub open spec fn within_bounds(f: Frame) -> bool {
    let request_id = encode_utf8(f.request_id@);
    let nonce = encode_utf8(f.nonce@);
    &&& f.version == 1
    &&& 0 < request_id.len() <= 128
    &&& 0 < nonce.len() <= 128
    &&& encode_utf8(f.channel@).len() <= 64
}

/// What `encode` answers for a frame: the record line, or why there is none.
pub open spec fn encode_spec(f: Frame) -> Result<Seq<u8>, Seq<char>> {
    if f.payload@.len() > MAX_PAYLOAD {
        Err("payload too large"@)
    } else if !newline_free(f.payload@) {
        Err("payload is not one line"@)
    } else if !within_bounds(f) {
        Err("invalid frame bounds"@)
    } else if f.payload_sha256@ != digest_spec(f.payload@) {
        Err("payload digest mismatch"@)
    } else if record_text(f).len() + 1 > MAX_RECORD {
        Err("record too large"@)
    } else {
        Ok(record_text(f).push(0x0au8))
    }
}

/// What `decode` answers for a line, given what the JSON reader made of it
/// (`None` when the line is not a well-formed frame record).
pub open spec fn decode_spec(line: Seq<u8>, parsed: Option<Frame>) -> Result<Frame, Seq<char>> {
    if line.len() > MAX_RECORD {
        Err("record too large"@)
    } else if !(line.len() > 0 && line.last() == 0x0au8) {
        Err("missing record delimiter"@)
    } else {
        match parsed {
            None => Err("malformed json"@),
            Some(f) => match encode_spec(f) {
                Err(e) => Err(e),
                Ok(_) => Ok(f),
            },
        }
    }
}

/// Append the bytes of a string.
fn push_str(out: &mut Vec<u8>, s: &str)
    ensures
        final(out)@ == old(out)@ + encode_utf8(s@),
{
    push_all(out, s.as_bytes());
}

/// The JSON text of a bounded frame.
fn record(frame: &Frame) -> (r: Vec<u8>)
    ensures
        r@ == record_text(*frame),
{
    let mut out: Vec<u8> = Vec::new();
    push_str(&mut out, "{\"version\":");
    push_decimal(&mut out, frame.version as u64);
    push_str(&mut out, ",\"channel\":");
    push_json_string(&mut out, frame.channel.as_str().as_bytes());
    push_str(&mut out, ",\"request_id\":");
    push_json_string(&mut out, frame.request_id.as_str().as_bytes());
    push_str(&mut out, ",\"operation\":");
    push_json_string(&mut out, operation_name_str(frame.operation).as_bytes());
    push_str(&mut out, ",\"nonce\":");
    push_json_string(&mut out, frame.nonce.as_str().as_bytes());
    push_str(&mut out, ",\"payload_sha256\":");
    push_json_string(&mut out, frame.payload_sha256.as_str().as_bytes());
    push_str(&mut out, ",\"payload\":");
    push_all(&mut out, frame.payload.as_slice());
    push_str(&mut out, "}");
    out
}

/// Encode a frame as one bounded record line, after checking its bounds and
/// that its digest matches its payload.
pub fn encode(frame: &Frame) -> (r: Result<Vec<u8>, String>)
    ensures
        match (r, encode_spec(*frame)) {
            (Ok(bytes), Ok(expected)) => bytes@ == expected,
            (Err(e), Err(expected)) => e@ == expected,
            _ => false,
        },
{
    if frame.payload.len() > MAX_PAYLOAD {
        return Err(String::from_str("payload too large"));
    }
    if !is_newline_free(frame.payload.as_slice()) {
        return Err(String::from_str("payload is not one line"));
    }
    let request_id = frame.request_id.as_str().as_bytes();
    let nonce = frame.nonce.as_str().as_bytes();
    if frame.version != 1 || request_id.len() == 0 || request_id.len() > 128 || nonce.len() == 0
        || nonce.len() > 128 || frame.channel.as_str().as_bytes().len() > 64 {
        return Err(String::from_str("invalid frame bounds"));
    }
    let expected = digest(frame.payload.as_slice());
    if !str_eq(frame.payload_sha256.as_str(), expected.as_str()) {
        return Err(String::from_str("payload digest mismatch"));
    }
    let mut out = record(frame);
    if out.len() >= MAX_RECORD {
        return Err(String::from_str("record too large"));
    }
    out.push(0x0a);
    Ok(out)
}

/// Decode a record line, given what the JSON reader made of it: the line must
/// be bounded and delimited, and the frame read from it must itself encode.
pub fn decode(line: &[u8], parsed: Option<Frame>) -> (r: Result<Frame, String>)
    ensures
        match (r, decode_spec(line@, parsed)) {
            (Ok(f), Ok(expected)) => f == expected,
            (Err(e), Err(expected)) => e@ == expected,
            _ => false,
        },
{
    if line.len() > MAX_RECORD {
        return Err(String::from_str("record too large"));
    }
    if !(line.len() > 0 && line[line.len() - 1] == 0x0a) {
        return Err(String::from_str("missing record delimiter"));
    }
    match parsed {
        None => Err(String::from_str("malformed json")),
        Some(f) => match encode(&f) {
            Err(e) => Err(e),
            Ok(_) => Ok(f),
        },
    }
}

/// A record that `encode` produced passes `decode` when the reader gives back
/// the frame it was made from.
pub proof fn lemma_encoded_record_decodes(f: Frame)
    ensures
        encode_spec(f) matches Ok(line) ==> decode_spec(line, Some(f)) == Ok::<Frame, Seq<char>>(f),
{
}

/// The fixed text of a record holds no line feed.
proof fn lemma_record_literals_are_newline_free()
    ensures
        newline_free(encode_utf8("{\"version\":"@)),
        newline_free(encode_utf8(",\"channel\":"@)),
        newline_free(encode_utf8(",\"request_id\":"@)),
        newline_free(encode_utf8(",\"operation\":"@)),
        newline_free(encode_utf8(",\"nonce\":"@)),
        newline_free(encode_utf8(",\"payload_sha256\":"@)),
        newline_free(encode_utf8(",\"payload\":"@)),
        newline_free(encode_utf8("}"@)),
{
    reveal_strlit("{\"version\":");
    assert(is_ascii_chars("{\"version\":"@));
    is_ascii_chars_encode_utf8("{\"version\":"@);
    assert(newline_free(encode_utf8("{\"version\":"@)));
    reveal_strlit(",\"channel\":");
    assert(is_ascii_chars(",\"channel\":"@));
    is_ascii_chars_encode_utf8(",\"channel\":"@);
    assert(newline_free(encode_utf8(",\"channel\":"@)));
    reveal_strlit(",\"request_id\":");
    assert(is_ascii_chars(",\"request_id\":"@));
    is_ascii_chars_encode_utf8(",\"request_id\":"@);
    assert(newline_free(encode_utf8(",\"request_id\":"@)));
    reveal_strlit(",\"operation\":");
    assert(is_ascii_chars(",\"operation\":"@));
    is_ascii_chars_encode_utf8(",\"operation\":"@);
    assert(newline_free(encode_utf8(",\"operation\":"@)));
    reveal_strlit(",\"nonce\":");
    assert(is_ascii_chars(",\"nonce\":"@));
    is_ascii_chars_encode_utf8(",\"nonce\":"@);
    assert(newline_free(encode_utf8(",\"nonce\":"@)));
    reveal_strlit(",\"payload_sha256\":");
    assert(is_ascii_chars(",\"payload_sha256\":"@));
    is_ascii_chars_encode_utf8(",\"payload_sha256\":"@);
    assert(newline_free(encode_utf8(",\"payload_sha256\":"@)));
    reveal_strlit(",\"payload\":");
    assert(is_ascii_chars(",\"payload\":"@));
    is_ascii_chars_encode_utf8(",\"payload\":"@);
    assert(newline_free(encode_utf8(",\"payload\":"@)));
    reveal_strlit("}");
    assert(is_ascii_chars("}"@));
    is_ascii_chars_encode_utf8("}"@);
    assert(newline_free(encode_utf8("}"@)));
}

/// JSON Lines framing: an encoded record is exactly one line. Its last byte is
/// the delimiter and no other byte is a line feed.
pub proof fn lemma_records_are_single_lines(f: Frame)
    ensures
        encode_spec(f) matches Ok(line) ==> line.len() > 0 && line.last() == 0x0au8 && newline_free(
            line.drop_last(),
        ),
{
    if newline_free(f.payload@) {
        lemma_record_literals_are_newline_free();
        lemma_decimal_is_newline_free(f.version as nat);
        lemma_escaped_text_is_newline_free(encode_utf8(f.channel@));
        lemma_escaped_text_is_newline_free(encode_utf8(f.request_id@));
        lemma_escaped_text_is_newline_free(encode_utf8(operation_name(f.operation)));
        lemma_escaped_text_is_newline_free(encode_utf8(f.nonce@));
        lemma_escaped_text_is_newline_free(encode_utf8(f.payload_sha256@));
        assert(newline_free(record_text(f)));
        assert(record_text(f).push(0x0au8).drop_last() =~= record_text(f));
    }
}

/// What follows the literal `lit` at the front of `s`.
pub open spec fn after_literal(s: Seq<u8>, lit: Seq<u8>) -> Option<Seq<u8>> {
    if has_prefix(s, lit) {
        Some(s.skip(lit.len() as int))
    } else {
        None
    }
}

/// A decimal digit byte.
pub open spec fn is_digit(b: u8) -> bool {
    0x30 <= b <= 0x39
}

/// The length of the run of decimal digits at the front of `s`.
pub open spec fn digit_run(s: Seq<u8>) -> nat
    decreases s.len(),
{
    if s.len() > 0 && is_digit(s[0]) {
        1 + digit_run(s.skip(1))
    } else {
        0
    }
}

/// Reading the key text `key` and then a JSON string literal at the front of
/// `s`: the bytes the literal stands for, and what follows it.
pub open spec fn read_string_field(s: Seq<u8>, key: Seq<u8>) -> Option<(Seq<u8>, Seq<u8>)> {
    match after_literal(s, key) {
        None => None,
        Some(t) => match read_string(t) {
            None => None,
            Some((value, n)) => Some((value, t.skip(n as int))),
        },
    }
}

/// The fields read back from a record's text: the version's digits, the bytes
/// of the channel, request id, operation name, nonce and digest, and the
/// payload text.
pub type RecordFields = (Seq<u8>, Seq<u8>, Seq<u8>, Seq<u8>, Seq<u8>, Seq<u8>, Seq<u8>);

/// Reading a record's text in the field order the writer uses.
pub open spec fn read_record(s: Seq<u8>) -> Option<RecordFields> {
    match after_literal(s, encode_utf8("{\"version\":"@)) {
        None => None,
        Some(t0) => {
            let version = t0.take(digit_run(t0) as int);
            let t1 = t0.skip(digit_run(t0) as int);
            match read_string_field(t1, encode_utf8(",\"channel\":"@)) {
                None => None,
                Some((channel, t2)) => match read_string_field(t2, encode_utf8(",\"request_id\":"@)) {
                    None => None,
                    Some((request_id, t3)) => match read_string_field(
                        t3,
                        encode_utf8(",\"operation\":"@),
                    ) {
                        None => None,
                        Some((operation, t4)) => match read_string_field(
                            t4,
                            encode_utf8(",\"nonce\":"@),
                        ) {
                            None => None,
                            Some((nonce, t5)) => match read_string_field(
                                t5,
                                encode_utf8(",\"payload_sha256\":"@),
                            ) {
                                None => None,
                                Some((payload_sha256, t6)) => match after_literal(
                                    t6,
                                    encode_utf8(",\"payload\":"@),
                                ) {
                                    None => None,
                                    Some(t7) => if t7.len() > 0 && t7.last() == 0x7du8 {
                                        Some(
                                            (
                                                version,
                                                channel,
                                                request_id,
                                                operation,
                                                nonce,
                                                payload_sha256,
                                                t7.drop_last(),
                                            ),
                                        )
                                    } else {
                                        None
                                    },
                                },
                            },
                        },
                    },
                },
            }
        },
    }
}

/// Reading a literal back.
proof fn lemma_after_literal(lit: Seq<u8>, rest: Seq<u8>)
    ensures
        after_literal(lit + rest, lit) == Some(rest),
{
    assert((lit + rest).subrange(0, lit.len() as int) =~= lit);
    assert((lit + rest).skip(lit.len() as int) =~= rest);
}

/// Reading a key and a string literal back.
proof fn lemma_read_string_field(key: Seq<u8>, value: Seq<u8>, rest: Seq<u8>)
    ensures
        read_string_field(key + json_string(value) + rest, key) == Some((value, rest)),
{
    assert(key + json_string(value) + rest =~= key + (json_string(value) + rest));
    lemma_after_literal(key, json_string(value) + rest);
    lemma_json_string_reads_back(value, rest);
    assert((json_string(value) + rest).skip(json_string(value).len() as int) =~= rest);
}

/// Decimal digits are digits.
proof fn lemma_decimal_digits(n: nat)
    ensures
        decimal(n).len() > 0,
        forall|i: int| 0 <= i < decimal(n).len() ==> is_digit(#[trigger] decimal(n)[i]),
    decreases n,
{
    if n >= 10 {
        lemma_decimal_digits(n / 10);
    }
}

/// The run of digits at the front of `d + rest`, where `d` is all digits and
/// `rest` does not start with one, is `d`.
proof fn lemma_digit_run(d: Seq<u8>, rest: Seq<u8>)
    requires
        forall|i: int| 0 <= i < d.len() ==> is_digit(#[trigger] d[i]),
        rest.len() > 0,
        !is_digit(rest[0]),
    ensures
        digit_run(d + rest) == d.len(),
    decreases d.len(),
{
    if d.len() == 0 {
        assert(d + rest =~= rest);
    } else {
        let tail = d.skip(1);
        assert forall|i: int| 0 <= i < tail.len() implies is_digit(#[trigger] tail[i]) by {
            assert(tail[i] == d[i + 1]);
        }
        lemma_digit_run(tail, rest);
        assert((d + rest).skip(1) =~= tail + rest);
        assert((d + rest)[0] == d[0]);
    }
}

/// The first byte and the shape of the fixed text that the reader relies on.
proof fn lemma_record_literal_shapes()
    ensures
        encode_utf8(",\"channel\":"@).len() > 0,
        !is_digit(encode_utf8(",\"channel\":"@)[0]),
        encode_utf8("}"@) == seq![0x7du8],
{
    reveal_strlit(",\"channel\":");
    reveal_strlit("}");
    assert(is_ascii_chars(",\"channel\":"@));
    is_ascii_chars_encode_utf8(",\"channel\":"@);
    assert(is_ascii_chars("}"@));
    is_ascii_chars_encode_utf8("}"@);
    assert(encode_utf8("}"@) =~= seq![0x7du8]);
}

/// The text after the version's digits, nested from the right.
spec fn record_tail(f: Frame) -> Seq<u8> {
    encode_utf8(",\"channel\":"@) + json_string(encode_utf8(f.channel@)) + (encode_utf8(
        ",\"request_id\":"@,
    ) + json_string(encode_utf8(f.request_id@)) + (encode_utf8(",\"operation\":"@) + json_string(
        encode_utf8(operation_name(f.operation)),
    ) + (encode_utf8(",\"nonce\":"@) + json_string(encode_utf8(f.nonce@)) + (encode_utf8(
        ",\"payload_sha256\":"@,
    ) + json_string(encode_utf8(f.payload_sha256@)) + (encode_utf8(",\"payload\":"@) + (f.payload@
        + encode_utf8("}"@)))))))
}

/// A record's text split after its first literal and the version's digits.
proof fn lemma_record_split(f: Frame)
    ensures
        record_text(f) == encode_utf8("{\"version\":"@) + (decimal(f.version as nat) + record_tail(f)),
{
    let l1 = encode_utf8("{\"version\":"@);
    let l2 = encode_utf8(",\"channel\":"@);
    let l3 = encode_utf8(",\"request_id\":"@);
    let l4 = encode_utf8(",\"operation\":"@);
    let l5 = encode_utf8(",\"nonce\":"@);
    let l6 = encode_utf8(",\"payload_sha256\":"@);
    let l7 = encode_utf8(",\"payload\":"@);
    let l8 = encode_utf8("}"@);
    let j1 = json_string(encode_utf8(f.channel@));
    let j2 = json_string(encode_utf8(f.request_id@));
    let j3 = json_string(encode_utf8(operation_name(f.operation)));
    let j4 = json_string(encode_utf8(f.nonce@));
    let j5 = json_string(encode_utf8(f.payload_sha256@));
    let p = f.payload@;
    let v = decimal(f.version as nat);
    let s7 = p + l8;
    let s6 = l7 + s7;
    let s5 = l6 + j5 + s6;
    let s4 = l5 + j4 + s5;
    let s3 = l4 + j3 + s4;
    let s2 = l3 + j2 + s3;
    let s1 = l2 + j1 + s2;
    let r1 = l1 + v;
    let r2 = r1 + l2 + j1;
    let r3 = r2 + l3 + j2;
    let r4 = r3 + l4 + j3;
    let r5 = r4 + l5 + j4;
    let r6 = r5 + l6 + j5;
    let r7 = r6 + l7;
    assert(record_text(f) == r7 + p + l8);
    assert(r7 + p + l8 =~= r7 + s7);
    assert(r7 + s7 =~= r6 + s6);
    assert(r6 + s6 =~= r5 + s5);
    assert(r5 + s5 =~= r4 + s4);
    assert(r4 + s4 =~= r3 + s3);
    assert(r3 + s3 =~= r2 + s2);
    assert(r2 + s2 =~= r1 + s1);
    assert(r1 + s1 =~= l1 + (v + s1));
    assert(record_tail(f) == s1);
}

/// What a read gives back of a write: reading the text that the writer
/// produces for a frame gives back the version's digits, the UTF-8 bytes of
/// each string field and of the operation's wire name, and the payload text,
/// whatever those strings hold.
pub proof fn lemma_record_reads_back(f: Frame)
    ensures
        read_record(record_text(f)) == Some(
            (
                decimal(f.version as nat),
                encode_utf8(f.channel@),
                encode_utf8(f.request_id@),
                encode_utf8(operation_name(f.operation)),
                encode_utf8(f.nonce@),
                encode_utf8(f.payload_sha256@),
                f.payload@,
            ),
        ),
        encode_spec(f) matches Ok(line) ==> read_record(line.drop_last()) == read_record(
            record_text(f),
        ),
{
    assert(record_text(f).push(0x0au8).drop_last() =~= record_text(f));
    let l1 = encode_utf8("{\"version\":"@);
    let l2 = encode_utf8(",\"channel\":"@);
    let l3 = encode_utf8(",\"request_id\":"@);
    let l4 = encode_utf8(",\"operation\":"@);
    let l5 = encode_utf8(",\"nonce\":"@);
    let l6 = encode_utf8(",\"payload_sha256\":"@);
    let l7 = encode_utf8(",\"payload\":"@);
    let l8 = encode_utf8("}"@);
    let channel = encode_utf8(f.channel@);
    let request_id = encode_utf8(f.request_id@);
    let operation = encode_utf8(operation_name(f.operation));
    let nonce = encode_utf8(f.nonce@);
    let sha = encode_utf8(f.payload_sha256@);
    let version = decimal(f.version as nat);
    let t7 = f.payload@ + l8;
    let t6 = l7 + t7;
    let t5 = l6 + json_string(sha) + t6;
    let t4 = l5 + json_string(nonce) + t5;
    let t3 = l4 + json_string(operation) + t4;
    let t2 = l3 + json_string(request_id) + t3;
    let t1 = l2 + json_string(channel) + t2;
    let t0 = version + t1;
    lemma_record_split(f);
    assert(record_text(f) == l1 + t0);
    lemma_record_literal_shapes();
    lemma_after_literal(l1, t0);
    lemma_decimal_digits(f.version as nat);
    assert(t1 =~= l2 + (json_string(channel) + t2));
    assert(t1[0] == l2[0]);
    lemma_digit_run(version, t1);
    assert(t0.take(version.len() as int) =~= version);
    assert(t0.skip(version.len() as int) =~= t1);
    lemma_read_string_field(l2, channel, t2);
    lemma_read_string_field(l3, request_id, t3);
    lemma_read_string_field(l4, operation, t4);
    lemma_read_string_field(l5, nonce, t5);
    lemma_read_string_field(l6, sha, t6);
    lemma_after_literal(l7, t7);
    assert(t7.drop_last() =~= f.payload@);
}

/// Distinct operations have distinct wire names.
proof fn lemma_operation_names_differ(a: Operation, b: Operation)
    ensures
        operation_name(a) == operation_name(b) ==> a == b,
{
    reveal_strlit("submit_task");
    reveal_strlit("status_query");
    reveal_strlit("operator_review");
    reveal_strlit("status");
    reveal_strlit("result");
    reveal_strlit("failure");
    reveal_strlit("fetch");
    reveal_strlit("scoped_push");
    reveal_strlit("send_bundle");
    reveal_strlit("check");
    reveal_strlit("test");
    reveal_strlit("run");
    reveal_strlit("reset");
    assert("submit_task"@.len() == 11);
    assert("status_query"@.len() == 12);
    assert("operator_review"@.len() == 15);
    assert("status"@.len() == 6);
    assert("result"@.len() == 6);
    assert("failure"@.len() == 7);
    assert("fetch"@.len() == 5);
    assert("scoped_push"@.len() == 11);
    assert("send_bundle"@.len() == 11);
    assert("check"@.len() == 5);
    assert("test"@.len() == 4);
    assert("run"@.len() == 3);
    assert("reset"@.len() == 5);
    // Names of equal length differ at their first or second character.
    assert("status"@[0] != "result"@[0]);
    assert("fetch"@[0] != "check"@[0]);
    assert("fetch"@[0] != "reset"@[0]);
    assert("check"@[0] != "reset"@[0]);
    assert("submit_task"@[1] != "scoped_push"@[1]);
    assert("submit_task"@[1] != "send_bundle"@[1]);
    assert("scoped_push"@[1] != "send_bundle"@[1]);
}

/// A record determines the frame it was written for: two frames with the
/// same record text have the same version, the same text in every string
/// field, the same operation, and the same payload text.
pub proof fn lemma_records_determine_frames(f: Frame, g: Frame)
    requires
        record_text(f) == record_text(g),
    ensures
        f.version == g.version,
        f.channel@ == g.channel@,
        f.request_id@ == g.request_id@,
        f.operation == g.operation,
        f.nonce@ == g.nonce@,
        f.payload_sha256@ == g.payload_sha256@,
        f.payload@ == g.payload@,
{
    lemma_record_reads_back(f);
    lemma_record_reads_back(g);
    lemma_decimal_reads_back(f.version as nat);
    lemma_decimal_reads_back(g.version as nat);
    encode_utf8_decode_utf8(f.channel@);
    encode_utf8_decode_utf8(g.channel@);
    encode_utf8_decode_utf8(f.request_id@);
    encode_utf8_decode_utf8(g.request_id@);
    encode_utf8_decode_utf8(f.nonce@);
    encode_utf8_decode_utf8(g.nonce@);
    encode_utf8_decode_utf8(f.payload_sha256@);
    encode_utf8_decode_utf8(g.payload_sha256@);
    encode_utf8_decode_utf8(operation_name(f.operation));
    encode_utf8_decode_utf8(operation_name(g.operation));
    lemma_operation_names_differ(f.operation, g.operation);
}

/// Each operation's wire name is its variant name in snake case, as the
/// record's `"operation"` field carries it.
pub proof fn lemma_operation_wire_names()
    ensures
        operation_name(Operation::SubmitTask) == "submit_task"@,
        operation_name(Operation::StatusQuery) == "status_query"@,
        operation_name(Operation::OperatorReview) == "operator_review"@,
        operation_name(Operation::Status) == "status"@,
        operation_name(Operation::Result) == "result"@,
        operation_name(Operation::Failure) == "failure"@,
        operation_name(Operation::Fetch) == "fetch"@,
        operation_name(Operation::ScopedPush) == "scoped_push"@,
        operation_name(Operation::SendBundle) == "send_bundle"@,
        operation_name(Operation::Check) == "check"@,
        operation_name(Operation::Test) == "test"@,
        operation_name(Operation::Run) == "run"@,
        operation_name(Operation::Reset) == "reset"@,
{
}

} // verus!
