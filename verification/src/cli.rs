//! The VibeKanban stand-in: its command line, the request it sends to Codex,
//! and the checks on what comes back.
use vstd::prelude::*;
use vstd::string::*;
use vstd::utf8::encode_utf8;
use crate::digest::{digest, digest_spec};
use crate::frame::{encode, encode_spec, Frame, MAX_PAYLOAD};
use crate::json::{decimal, digits_value, json_string, push_all, push_decimal, push_json_string};
use crate::policy::{authorization, authorize_channel, lemma_channel_names, Operation, Role};
use crate::text::str_eq;

verus! {

/// The views of a list of strings.
pub open spec fn arg_views(v: Seq<String>) -> Seq<Seq<char>> {
    v.map_values(|s: String| s@)
}

/// The view of an optional string.
pub open spec fn opt_view(o: Option<String>) -> Option<Seq<char>> {
    match o {
        Some(s) => Some(s@),
        None => None,
    }
}

/// Every byte of `d` is a decimal digit.
pub open spec fn all_decimal(d: Seq<u8>) -> bool {
    forall|i: int| 0 <= i < d.len() ==> 0x30 <= #[trigger] d[i] <= 0x39
}

/// What `str::parse::<u32>` reads from the bytes `s`: an optional `+` and then
/// at least one decimal digit, of a value that fits.
pub open spec fn parse_u32_spec(s: Seq<u8>) -> Option<u32> {
    let d = if s.len() > 0 && s[0] == 0x2b { s.drop_first() } else { s };
    if d.len() > 0 && all_decimal(d) && digits_value(d) <= u32::MAX {
        Some(digits_value(d) as u32)
    } else {
        None
    }
}

/// The value of a longer run of digits is no smaller.
proof fn lemma_digits_value_grows(d: Seq<u8>, k: int)
    requires
        0 <= k <= d.len(),
        all_decimal(d),
    ensures
        digits_value(d.take(k)) <= digits_value(d),
    decreases d.len() - k,
{
    if k < d.len() {
        lemma_digits_value_grows(d, k + 1);
        assert(d.take(k + 1).drop_last() =~= d.take(k));
    } else {
        assert(d.take(k) =~= d);
    }
}

/// Parse a port number as `str::parse::<u32>` does.
fn parse_u32(s: &str) -> (r: Option<u32>)
    ensures
        r == parse_u32_spec(encode_utf8(s@)),
{
    let bytes = s.as_bytes();
    let start: usize = if bytes.len() > 0 && bytes[0] == 0x2b { 1 } else { 0 };
    let ghost d = if bytes@.len() > 0 && bytes@[0] == 0x2b { bytes@.drop_first() } else { bytes@ };
    assert(d =~= bytes@.subrange(start as int, bytes@.len() as int));
    if start == bytes.len() {
        return None;
    }
    let mut value: u64 = 0;
    let mut i: usize = start;
    while i < bytes.len()
        invariant
            start <= i <= bytes.len(),
            bytes@ == encode_utf8(s@),
            d == (if bytes@.len() > 0 && bytes@[0] == 0x2b { bytes@.drop_first() } else { bytes@ }),
            d =~= bytes@.subrange(start as int, bytes@.len() as int),
            all_decimal(d.take(i - start)),
            value as nat == digits_value(d.take(i - start)),
            value <= u32::MAX,
        decreases bytes.len() - i,
    {
        let b = bytes[i];
        if b < 0x30 || b > 0x39 {
            assert(d[i - start] == b);
            return None;
        }
        assert(d.take(i + 1 - start).drop_last() =~= d.take(i - start));
        value = value * 10 + (b - 0x30) as u64;
        i = i + 1;
        if value > 0xffff_ffff {
            proof {
                if all_decimal(d) {
                    lemma_digits_value_grows(d, i - start);
                }
            }
            return None;
        }
    }
    assert(d.take(i - start) =~= d);
    Some(value as u32)
}

/// The JSON text of an object with one string field.
pub open spec fn single_field_json(key: Seq<char>, value: Seq<char>) -> Seq<u8> {
    seq![0x7bu8] + json_string(encode_utf8(key)) + seq![0x3au8] + json_string(encode_utf8(value))
        + seq![0x7du8]
}

/// The JSON text of an object with one string field.
fn single_field_json_exec(key: &str, value: &str) -> (r: Vec<u8>)
    ensures
        r@ == single_field_json(key@, value@),
{
    let mut out: Vec<u8> = Vec::new();
    out.push(0x7b);
    push_json_string(&mut out, key.as_bytes());
    out.push(0x3a);
    push_json_string(&mut out, value.as_bytes());
    out.push(0x7d);
    out
}

/// An argument that starts with `-`.
pub open spec fn is_option(arg: Seq<char>) -> bool {
    encode_utf8(arg).len() > 0 && encode_utf8(arg)[0] == 0x2d
}

/// Whether an argument starts with `-`.
fn is_option_exec(arg: &str) -> (r: bool)
    ensures
        r == is_option(arg@),
{
    let bytes = arg.as_bytes();
    bytes.len() > 0 && bytes[0] == 0x2d
}

/// Reading the options from `args[i]` on, with the socket and port read so
/// far: the index of the first argument that is not an option, the socket,
/// and the port; or why the options are refused.
pub open spec fn read_options(args: Seq<Seq<char>>, i: nat, socket: Option<Seq<char>>, port: u32) -> Result<
    (nat, Option<Seq<char>>, u32),
    Seq<char>,
>
    decreases args.len() + 2 - i,
{
    if i < args.len() && is_option(args[i as int]) {
        if args[i as int] == "--socket"@ {
            if i + 1 < args.len() {
                read_options(args, i + 2, Some(args[i + 1 as int]), port)
            } else {
                // A trailing `--socket` names no socket and ends the options.
                read_options(args, args.len(), None, port)
            }
        } else if args[i as int] == "--port"@ {
            if args.len() == 0 || i >= args.len() - 1 {
                Err("missing port"@)
            } else {
                match parse_u32_spec(encode_utf8(args[i + 1 as int])) {
                    None => Err("invalid port"@),
                    Some(p) => if 1024 <= p <= 65535 {
                        read_options(args, i + 2, socket, p)
                    } else {
                        Err("port outside fixed range"@)
                    },
                }
            }
        } else {
            Err("unknown option"@)
        }
    } else {
        Ok((i, socket, port))
    }
}

/// The operation a named command stands for, and the payload it carries.
pub open spec fn named_command(name: Seq<char>, argument: Seq<char>) -> Option<(Operation, Seq<u8>)> {
    if name == "submit-task"@ {
        Some((Operation::SubmitTask, single_field_json("task"@, argument)))
    } else if name == "status"@ {
        Some((Operation::StatusQuery, single_field_json("task_id"@, argument)))
    } else if name == "operator-review"@ {
        Some((Operation::OperatorReview, single_field_json("reason"@, argument)))
    } else {
        None
    }
}

/// What `command` answers for the arguments: socket, port, operation, and
/// payload JSON text; or why the command line is refused.
pub open spec fn command_spec(args: Seq<Seq<char>>) -> Result<(Seq<char>, u32, Operation, Seq<u8>), Seq<char>> {
    match read_options(args, 0, None, 7000) {
        Err(e) => Err(e),
        Ok((i, socket, port)) => match socket {
            None => Err("--socket is required"@),
            Some(socket) => if i + 1 >= args.len() {
                Err("missing named command and argument"@)
            } else if i + 2 != args.len() {
                Err("named commands accept exactly one bounded argument"@)
            } else {
                match named_command(args[i as int], args[i + 1 as int]) {
                    None => Err("command is not an allowlisted Vibe operation"@),
                    Some((op, payload)) => if payload.len() > MAX_PAYLOAD {
                        Err("command argument too large"@)
                    } else {
                        Ok((socket, port, op, payload))
                    },
                }
            }
        },
    }
}

/// Read the stand-in's command line: `--socket PATH`, an optional
/// `--port PORT` within 1024..=65535, and exactly one named command with one
/// bounded argument. Nothing else is accepted, and no argument becomes shell text.
pub fn command(args: &[String]) -> (r: Result<(String, u32, Operation, Vec<u8>), String>)
    ensures
        match (r, command_spec(arg_views(args@))) {
            (Ok((socket, port, op, payload)), Ok((s, p, o, bytes))) => socket@ == s && port == p
                && op == o && payload@ == bytes,
            (Err(e), Err(expected)) => e@ == expected,
            _ => false,
        },
{
    let ghost views = arg_views(args@);
    let mut i: usize = 0;
    let mut socket: Option<String> = None;
    let mut port: u32 = 7000;
    while i < args.len() && is_option_exec(args[i].as_str())
        invariant
            views == arg_views(args@),
            i <= args.len(),
            read_options(views, i as nat, opt_view(socket), port) == read_options(
                views,
                0,
                None,
                7000,
            ),
        decreases args.len() - i,
    {
        if str_eq(args[i].as_str(), "--socket") {
            if i + 1 < args.len() {
                socket = Some(args[i + 1].clone());
                i = i + 2;
            } else {
                socket = None;
                i = args.len();
            }
        } else if str_eq(args[i].as_str(), "--port") {
            if i + 1 >= args.len() {
                return Err(String::from_str("missing port"));
            }
            match parse_u32(args[i + 1].as_str()) {
                None => {
                    return Err(String::from_str("invalid port"));
                },
                Some(p) => {
                    if !(1024 <= p && p <= 65535) {
                        return Err(String::from_str("port outside fixed range"));
                    }
                    port = p;
                },
            }
            i = i + 2;
        } else {
            return Err(String::from_str("unknown option"));
        }
    }
    let socket = match socket {
        Some(s) => s,
        None => {
            return Err(String::from_str("--socket is required"));
        },
    };
    if args.len() == 0 || i >= args.len() - 1 {
        return Err(String::from_str("missing named command and argument"));
    }
    if i + 2 != args.len() {
        return Err(String::from_str("named commands accept exactly one bounded argument"));
    }
    let name = args[i].as_str();
    let argument = args[i + 1].as_str();
    let (op, payload) = if str_eq(name, "submit-task") {
        (Operation::SubmitTask, single_field_json_exec("task", argument))
    } else if str_eq(name, "status") {
        (Operation::StatusQuery, single_field_json_exec("task_id", argument))
    } else if str_eq(name, "operator-review") {
        (Operation::OperatorReview, single_field_json_exec("reason", argument))
    } else {
        return Err(String::from_str("command is not an allowlisted Vibe operation"));
    };
    if payload.len() > MAX_PAYLOAD {
        return Err(String::from_str("command argument too large"));
    }
    Ok((socket, port, op, payload))
}

/// The decimal digits of `n` as text.
pub open spec fn decimal_text(n: nat) -> Seq<char>
    decreases n,
{
    if n < 10 {
        seq!["0123456789"@[n as int]]
    } else {
        decimal_text(n / 10) + seq!["0123456789"@[(n % 10) as int]]
    }
}

/// The text of one decimal digit.
fn digit_str(d: u64) -> (r: &'static str)
    requires
        d < 10,
    ensures
        r@ == seq!["0123456789"@[d as int]],
{
    proof {
        reveal_strlit("0123456789");
    }
    match d {
        0 => {
            proof {
                reveal_strlit("0");
            }
            "0"
        },
        1 => {
            proof {
                reveal_strlit("1");
            }
            "1"
        },
        2 => {
            proof {
                reveal_strlit("2");
            }
            "2"
        },
        3 => {
            proof {
                reveal_strlit("3");
            }
            "3"
        },
        4 => {
            proof {
                reveal_strlit("4");
            }
            "4"
        },
        5 => {
            proof {
                reveal_strlit("5");
            }
            "5"
        },
        6 => {
            proof {
                reveal_strlit("6");
            }
            "6"
        },
        7 => {
            proof {
                reveal_strlit("7");
            }
            "7"
        },
        8 => {
            proof {
                reveal_strlit("8");
            }
            "8"
        },
        _ => {
            proof {
                reveal_strlit("9");
            }
            "9"
        },
    }
}

/// Append the decimal digits of `n` to `s`.
fn append_decimal(s: &mut String, n: u64)
    ensures
        final(s)@ == old(s)@ + decimal_text(n as nat),
    decreases n,
{
    let ghost start = s@;
    if n >= 10 {
        append_decimal(s, n / 10);
    }
    s.append(digit_str(n % 10));
    assert(s@ =~= start + decimal_text(n as nat));
}

/// The line that asks the vsock broker to connect to `port`.
pub open spec fn connect_line_spec(port: u32) -> Seq<u8> {
    encode_utf8("CONNECT "@) + decimal(port as nat) + seq![0x0au8]
}

/// The line that asks the vsock broker to connect to `port`: `CONNECT <port>`.
pub fn connect_line(port: u32) -> (r: Vec<u8>)
    ensures
        r@ == connect_line_spec(port),
{
    let mut out: Vec<u8> = Vec::new();
    push_all(&mut out, "CONNECT ".as_bytes());
    push_decimal(&mut out, port as u64);
    out.push(0x0a);
    out
}

/// The broker's answer accepts the connection: it starts with `OK `.
pub open spec fn handshake_ok(ack: Seq<u8>) -> bool {
    ack.len() >= 3 && ack[0] == 0x4f && ack[1] == 0x4b && ack[2] == 0x20
}

/// Whether the broker accepted the connection: its answer starts with `OK `.
pub fn handshake_accepted(ack: &[u8]) -> (r: bool)
    ensures
        r == handshake_ok(ack@),
{
    ack.len() >= 3 && ack[0] == 0x4f && ack[1] == 0x4b && ack[2] == 0x20
}

/// The request the stand-in sends from process `pid`: on the Vibe-to-Codex
/// channel, with request id `vibe-cli-<pid>` and nonce `vibe-nonce-<pid>`.
pub fn request_frame(pid: u32, operation: Operation, payload: Vec<u8>) -> (r: Frame)
    ensures
        r.version == 1,
        r.channel@ == "vibe-to-codex"@,
        r.request_id@ == "vibe-cli-"@ + decimal_text(pid as nat),
        r.operation == operation,
        r.nonce@ == "vibe-nonce-"@ + decimal_text(pid as nat),
        r.payload_sha256@ == digest_spec(payload@),
        r.payload@ == payload@,
{
    let mut request_id = String::from_str("vibe-cli-");
    append_decimal(&mut request_id, pid as u64);
    let mut nonce = String::from_str("vibe-nonce-");
    append_decimal(&mut nonce, pid as u64);
    let payload_sha256 = digest(payload.as_slice());
    Frame {
        version: 1,
        channel: String::from_str("vibe-to-codex"),
        request_id,
        operation,
        nonce,
        payload_sha256,
        payload,
    }
}

/// Whether the stand-in accepts a reply: it must arrive on the Codex-to-Vibe
/// channel, the one this connection answers on, and be a result or a failure.
/// The sender's identity comes from that channel, never from the payload.
pub fn accept_reply(channel: &str, op: Operation) -> (r: bool)
    ensures
        r == (channel@ == "codex-to-vibe"@ && (op == Operation::Result || op == Operation::Failure)),
{
    str_eq(channel, "codex-to-vibe") && match op {
        Operation::Result | Operation::Failure => true,
        _ => false,
    }
}

/// An accepted reply is one that Codex is authorized to send to VibeKanban.
pub proof fn lemma_accepted_replies_come_from_codex(channel: Seq<char>, op: Operation)
    requires
        channel == "codex-to-vibe"@,
        op == Operation::Result || op == Operation::Failure,
    ensures
        authorization(channel, op) == Ok::<(Role, Role), Seq<char>>((Role::Codex, Role::VibeKanban)),
{
    lemma_channel_names();
}

/// Every command line the stand-in accepts stands for an operation that
/// VibeKanban may send to Codex, carrying a payload within the payload limit.
pub proof fn lemma_accepted_commands_are_authorized(args: Seq<Seq<char>>)
    ensures
        command_spec(args) matches Ok((_, _, op, payload)) ==> authorization("vibe-to-codex"@, op)
            == Ok::<(Role, Role), Seq<char>>((Role::VibeKanban, Role::Codex)) && payload.len()
            <= MAX_PAYLOAD,
{
    lemma_channel_names();
}

/// Why the stand-in stops.
#[derive(Clone, Debug)]
pub enum CliRefusal {
    /// The broker refused the connection.
    HandshakeRejected,
    /// The reply is not a result or a failure on the Codex-to-Vibe channel.
    DisallowedReply,
    /// Any other refusal, with its message.
    Refused(String),
}

/// The stand-in's first step: the socket to connect to, the line that asks
/// for the Codex port, the operation and its payload; or why nothing is
/// connected.
pub open spec fn start_spec(args: Seq<Seq<char>>) -> Result<(Seq<char>, Seq<u8>, Operation, Seq<u8>), Seq<char>> {
    match command_spec(args) {
        Err(e) => Err(e),
        Ok((socket, port, op, payload)) => match authorization("vibe-to-codex"@, op) {
            Err(e) => Err(e),
            Ok(_) => Ok((socket, connect_line_spec(port), op, payload)),
        },
    }
}

/// Start the stand-in: read its command line and check that the operation may
/// go from VibeKanban to Codex. Only then is there a socket to connect to.
pub fn start(args: &[String]) -> (r: Result<(String, Vec<u8>, Operation, Vec<u8>), String>)
    ensures
        match (r, start_spec(arg_views(args@))) {
            (Ok((socket, line, op, payload)), Ok((s, l, o, p))) => socket@ == s && line@ == l && op
                == o && payload@ == p,
            (Err(e), Err(expected)) => e@ == expected,
            _ => false,
        },
{
    let (socket, port, op, payload) = command(args)?;
    authorize_channel("vibe-to-codex", op)?;
    Ok((socket, connect_line(port), op, payload))
}

/// The stand-in's second step, once the broker has answered: the record to
/// send for `frame`, sent only after an accepted handshake.
pub open spec fn request_spec(ack: Seq<u8>, frame: Frame) -> Result<Seq<u8>, Option<Seq<char>>> {
    if !handshake_ok(ack) {
        Err(None)
    } else {
        match encode_spec(frame) {
            Ok(line) => Ok(line),
            Err(e) => Err(Some(e)),
        }
    }
}

/// The record to send once the broker has answered `ack`: nothing is sent
/// unless the handshake was accepted.
pub fn request_record(ack: &[u8], frame: &Frame) -> (r: Result<Vec<u8>, CliRefusal>)
    ensures
        match (r, request_spec(ack@, *frame)) {
            (Ok(line), Ok(expected)) => line@ == expected,
            (Err(CliRefusal::HandshakeRejected), Err(None)) => true,
            (Err(CliRefusal::Refused(e)), Err(Some(expected))) => e@ == expected,
            _ => false,
        },
{
    if !handshake_accepted(ack) {
        return Err(CliRefusal::HandshakeRejected);
    }
    match encode(frame) {
        Ok(line) => Ok(line),
        Err(e) => Err(CliRefusal::Refused(e)),
    }
}

/// The stand-in's last step, on the decoded reply: its payload when the reply
/// is authorized and accepted.
pub open spec fn reply_spec(reply: Result<Frame, Seq<char>>) -> Result<Seq<u8>, Option<Seq<char>>> {
    match reply {
        Err(e) => Err(Some(e)),
        Ok(f) => match authorization(f.channel@, f.operation) {
            Err(e) => Err(Some(e)),
            Ok(_) => if f.channel@ == "codex-to-vibe"@ && (f.operation == Operation::Result
                || f.operation == Operation::Failure) {
                Ok(f.payload@)
            } else {
                Err(None)
            },
        },
    }
}

/// The payload of the decoded reply, when it is authorized and is a result or
/// a failure on the Codex-to-Vibe channel.
pub fn reply_payload(reply: Result<Frame, String>) -> (r: Result<Vec<u8>, CliRefusal>)
    ensures
        match (r, reply_spec(match reply { Ok(f) => Ok(f), Err(e) => Err(e@) })) {
            (Ok(payload), Ok(expected)) => payload@ == expected,
            (Err(CliRefusal::DisallowedReply), Err(None)) => true,
            (Err(CliRefusal::Refused(e)), Err(Some(expected))) => e@ == expected,
            _ => false,
        },
{
    let frame = match reply {
        Err(e) => return Err(CliRefusal::Refused(e)),
        Ok(frame) => frame,
    };
    if let Err(e) = authorize_channel(frame.channel.as_str(), frame.operation) {
        return Err(CliRefusal::Refused(e));
    }
    if !accept_reply(frame.channel.as_str(), frame.operation) {
        return Err(CliRefusal::DisallowedReply);
    }
    Ok(frame.payload)
}

/// The stand-in's exchange in order: it connects only for an accepted command
/// line whose operation VibeKanban may send to Codex, sends its request only
/// after an accepted handshake, and uses a reply's payload only when the reply
/// is a result or a failure from Codex on the Codex-to-Vibe channel.
pub proof fn lemma_exchange_order(
    args: Seq<Seq<char>>,
    ack: Seq<u8>,
    frame: Frame,
    reply: Result<Frame, Seq<char>>,
)
    ensures
        start_spec(args) is Ok ==> command_spec(args) is Ok,
        request_spec(ack, frame) matches Ok(line) ==> handshake_ok(ack) && encode_spec(frame)
            == Ok::<Seq<u8>, Seq<char>>(line),
        reply_spec(reply) matches Ok(payload) ==> (reply matches Ok(f) && f.payload@ == payload
            && authorization(f.channel@, f.operation) == Ok::<(Role, Role), Seq<char>>(
            (Role::Codex, Role::VibeKanban),
        )),
{
    lemma_channel_names();
}

} // verus!
