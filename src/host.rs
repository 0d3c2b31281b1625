//! The host protocol: length-prefixed requests and `OKAY` / `FAIL` replies.
//!
//! A reply decoder is handed every byte of the reply read so far, and whether
//! the stream has ended. It either asks for more (`Need(k)`: read `k` more bytes,
//! fewer only if the stream ends; `NeedToEnd`: read until the stream ends) or
//! gives the outcome. The caller reads exactly what is asked, so nothing of a
//! later exchange is consumed.
use vstd::prelude::*;
use vstd::utf8::{decode_utf8, encode_utf8, valid_utf8};
use crate::error::AdbError;
use crate::text::{strip_adb_prefix, strip_prefix_chars, utf8_text};
use crate::wire::{hex4, hex4_bytes, hex4_value, lemma_hex4_round_trip, parse_hex4};

verus! {

/// What a decoder asks for, or what it found.
#[derive(Debug)]
pub enum Progress<T> {
    Need(usize),
    NeedToEnd,
    Done(T),
}

/// A decoder's answer as the contracts speak of it.
pub enum Reply {
    Need(nat),
    ToEnd,
    Unit,
    Text(Seq<char>),
    Rejected(Seq<char>),
    Malformed,
    Other,
}

pub open spec fn text_reply(p: Progress<Result<String, AdbError>>) -> Reply {
    match p {
        Progress::Need(n) => Reply::Need(n as nat),
        Progress::NeedToEnd => Reply::ToEnd,
        Progress::Done(Ok(s)) => Reply::Text(s@),
        Progress::Done(Err(AdbError::ServerReject(m))) => Reply::Rejected(m@),
        Progress::Done(Err(AdbError::Protocol(_))) => Reply::Malformed,
        Progress::Done(Err(_)) => Reply::Other,
    }
}

pub open spec fn unit_reply(p: Progress<Result<(), AdbError>>) -> Reply {
    match p {
        Progress::Need(n) => Reply::Need(n as nat),
        Progress::NeedToEnd => Reply::ToEnd,
        Progress::Done(Ok(())) => Reply::Unit,
        Progress::Done(Err(AdbError::ServerReject(m))) => Reply::Rejected(m@),
        Progress::Done(Err(AdbError::Protocol(_))) => Reply::Malformed,
        Progress::Done(Err(_)) => Reply::Other,
    }
}

/// `OKAY` in ASCII.
pub open spec fn okay_tag() -> Seq<u8> {
    seq![79u8, 75u8, 65u8, 89u8]
}

/// `FAIL` in ASCII.
pub open spec fn fail_tag() -> Seq<u8> {
    seq![70u8, 65u8, 73u8, 76u8]
}

/// A four-byte reply status.
#[derive(Debug, PartialEq, Eq, Structural)]
pub enum Status {
    Okay,
    Fail,
    Other,
}

pub open spec fn status_at(buf: Seq<u8>, at: int) -> Status {
    let s = buf.subrange(at, at + 4);
    if s == okay_tag() {
        Status::Okay
    } else if s == fail_tag() {
        Status::Fail
    } else {
        Status::Other
    }
}

/// A host request: the command's byte length as four lowercase hex digits,
/// then the command.
pub open spec fn host_request(command: Seq<u8>) -> Seq<u8> {
    hex4(command.len()) + command
}

/// Reply text: valid UTF-8, less the leading `$` or `+` marker.
pub open spec fn reply_text(b: Seq<u8>) -> Reply {
    if valid_utf8(b) {
        Reply::Text(strip_prefix_chars(decode_utf8(b)))
    } else {
        Reply::Malformed
    }
}

/// The length-prefixed message that starts at `at`. A prefix that is not
/// hex means the message runs to the end of the stream, prefix included; a
/// message cut short by the end of the stream reads as empty.
pub open spec fn message_at(buf: Seq<u8>, at: int, eof: bool) -> Reply {
    if buf.len() < at + 4 {
        if eof {
            Reply::Text(Seq::empty())
        } else {
            Reply::Need((at + 4 - buf.len()) as nat)
        }
    } else {
        match hex4_value(buf.subrange(at, at + 4)) {
            Some(n) => if buf.len() >= at + 4 + n {
                reply_text(buf.subrange(at + 4, at + 4 + n))
            } else if eof {
                Reply::Text(Seq::empty())
            } else {
                Reply::Need((at + 4 + n - buf.len()) as nat)
            },
            None => if eof {
                reply_text(buf.subrange(at, buf.len() as int))
            } else {
                Reply::ToEnd
            },
        }
    }
}

/// Everything from `at` to the end of the stream, as text.
pub open spec fn stream_text(buf: Seq<u8>, at: int, eof: bool) -> Reply {
    if !eof {
        Reply::ToEnd
    } else if valid_utf8(buf.subrange(at, buf.len() as int)) {
        Reply::Text(decode_utf8(buf.subrange(at, buf.len() as int)))
    } else {
        Reply::Malformed
    }
}

pub open spec fn as_rejection(r: Reply) -> Reply {
    match r {
        Reply::Text(m) => Reply::Rejected(m),
        _ => r,
    }
}

pub open spec fn as_malformed(r: Reply) -> Reply {
    match r {
        Reply::Text(_) => Reply::Malformed,
        _ => r,
    }
}

/// The reply to a request answered by a bare status.
pub open spec fn status_reply(buf: Seq<u8>, eof: bool) -> Reply {
    if buf.len() < 4 {
        if eof { Reply::Malformed } else { Reply::Need((4 - buf.len()) as nat) }
    } else {
        match status_at(buf, 0) {
            Status::Okay => Reply::Unit,
            Status::Fail => as_rejection(message_at(buf, 4, eof)),
            Status::Other => as_malformed(message_at(buf, 4, eof)),
        }
    }
}

/// The reply to a request answered by a status and, after `OKAY`, one
/// length-prefixed payload.
pub open spec fn payload_reply(buf: Seq<u8>, eof: bool) -> Reply {
    if buf.len() < 4 {
        if eof { Reply::Malformed } else { Reply::Need((4 - buf.len()) as nat) }
    } else {
        match status_at(buf, 0) {
            Status::Okay => message_at(buf, 4, eof),
            Status::Fail => as_rejection(message_at(buf, 4, eof)),
            Status::Other => as_malformed(message_at(buf, 4, eof)),
        }
    }
}

/// The reply to a request answered by a status and, after `OKAY`, text that
/// runs to the end of the stream.
pub open spec fn stream_reply(buf: Seq<u8>, eof: bool) -> Reply {
    if buf.len() < 4 {
        if eof { Reply::Malformed } else { Reply::Need((4 - buf.len()) as nat) }
    } else {
        match status_at(buf, 0) {
            Status::Okay => stream_text(buf, 4, eof),
            Status::Fail => as_rejection(message_at(buf, 4, eof)),
            Status::Other => as_malformed(message_at(buf, 4, eof)),
        }
    }
}

/// The reply to a shell request: after `OKAY` the output runs to the end of
/// the stream; after `FAIL` the server's message is the result, not an error.
pub open spec fn shell_reply(buf: Seq<u8>, eof: bool) -> Reply {
    if buf.len() < 4 {
        if eof { Reply::Malformed } else { Reply::Need((4 - buf.len()) as nat) }
    } else {
        match status_at(buf, 0) {
            Status::Okay => stream_text(buf, 4, eof),
            Status::Fail => message_at(buf, 4, eof),
            Status::Other => as_malformed(message_at(buf, 4, eof)),
        }
    }
}

/// The two-stage reply of the `reverse:` requests: `OKAY`, then, unless the
/// stream ends there, a second status and an optional payload.
pub open spec fn double_ok_reply(buf: Seq<u8>, eof: bool) -> Reply {
    if buf.len() < 4 {
        if eof { Reply::Malformed } else { Reply::Need((4 - buf.len()) as nat) }
    } else {
        match status_at(buf, 0) {
            Status::Okay => if buf.len() == 4 && eof {
                Reply::Text(Seq::empty())
            } else if buf.len() < 8 {
                if eof { Reply::Malformed } else { Reply::Need((8 - buf.len()) as nat) }
            } else {
                match status_at(buf, 4) {
                    Status::Okay => message_at(buf, 8, eof),
                    Status::Fail => as_rejection(message_at(buf, 8, eof)),
                    Status::Other => as_malformed(message_at(buf, 8, eof)),
                }
            },
            Status::Fail => as_rejection(message_at(buf, 4, eof)),
            Status::Other => as_malformed(message_at(buf, 4, eof)),
        }
    }
}

/// Frames a host request. Fails when the command does not fit the four hex
/// digits of the length prefix.
pub fn encode_request(command: &str) -> (r: Result<Vec<u8>, AdbError>)
    ensures
        encode_utf8(command@).len() < 65536 <==> r is Ok,
        r matches Ok(v) ==> v@ == host_request(encode_utf8(command@)),
        r matches Err(e) ==> e is Argument,
{
    let bytes = command.as_bytes();
    if bytes.len() >= 65536 {
        return Err(AdbError::Argument(String::from_str("request is longer than 65535 bytes")));
    }
    let mut r = hex4_bytes(bytes.len());
    r.extend_from_slice(bytes);
    Ok(r)
}

/// The four-digit prefix of a request reads back as the command's byte length,
/// and the command follows it unchanged.
pub proof fn lemma_request_framing(command: Seq<u8>)
    requires
        command.len() < 65536,
    ensures
        hex4_value(host_request(command).subrange(0, 4)) == Some(command.len()),
        host_request(command).subrange(4, host_request(command).len() as int) == command,
{
    lemma_hex4_round_trip(command.len());
    assert(host_request(command).subrange(0, 4) =~= hex4(command.len()));
    assert(host_request(command).subrange(4, host_request(command).len() as int) =~= command);
}

/// Classifies the four status bytes at `at`.
pub fn status_of(buf: &[u8], at: usize) -> (r: Status)
    requires
        at + 4 <= buf@.len(),
    ensures
        r == status_at(buf@, at as int),
{
    let ghost s = buf@.subrange(at as int, at + 4);
    assert(s[0] == buf@[at as int] && s[1] == buf@[at + 1] && s[2] == buf@[at + 2] && s[3]
        == buf@[at + 3]);
    if buf[at] == 79 && buf[at + 1] == 75 && buf[at + 2] == 65 && buf[at + 3] == 89 {
        assert(s =~= okay_tag());
        Status::Okay
    } else if buf[at] == 70 && buf[at + 1] == 65 && buf[at + 2] == 73 && buf[at + 3] == 76 {
        assert(s =~= fail_tag());
        Status::Fail
    } else {
        assert(s != okay_tag() && s != fail_tag()) by {
            if s == okay_tag() {
                assert(s[0] == 79u8 && s[1] == 75u8 && s[2] == 65u8 && s[3] == 89u8);
            }
            if s == fail_tag() {
                assert(s[0] == 70u8 && s[1] == 65u8 && s[2] == 73u8 && s[3] == 76u8);
            }
        }
        Status::Other
    }
}

fn text_result(b: &[u8]) -> (r: Progress<Result<String, AdbError>>)
    ensures
        text_reply(r) == reply_text(b@),
{
    match utf8_text(b) {
        Some(s) => Progress::Done(Ok(strip_adb_prefix(s))),
        None => Progress::Done(Err(AdbError::Protocol(String::from_str("reply is not valid UTF-8")))),
    }
}

/// Reads the length-prefixed message that starts at `at`.
pub fn read_message(buf: &[u8], at: usize, eof: bool) -> (r: Progress<Result<String, AdbError>>)
    requires
        at <= 8,
    ensures
        text_reply(r) == message_at(buf@, at as int, eof),
{
    if buf.len() < at + 4 {
        if eof {
            return Progress::Done(Ok(String::new()));
        }
        return Progress::Need(at + 4 - buf.len());
    }
    match parse_hex4(&buf[at..at + 4]) {
        Some(n) => {
            if buf.len() - (at + 4) >= n {
                text_result(&buf[at + 4..at + 4 + n])
            } else if eof {
                Progress::Done(Ok(String::new()))
            } else {
                Progress::Need(at + 4 + n - buf.len())
            }
        },
        None => {
            if eof {
                text_result(&buf[at..buf.len()])
            } else {
                Progress::NeedToEnd
            }
        },
    }
}

fn read_stream_text(buf: &[u8], at: usize, eof: bool) -> (r: Progress<Result<String, AdbError>>)
    requires
        at <= buf@.len(),
    ensures
        text_reply(r) == stream_text(buf@, at as int, eof),
{
    if !eof {
        return Progress::NeedToEnd;
    }
    match utf8_text(&buf[at..buf.len()]) {
        Some(s) => Progress::Done(Ok(s)),
        None => Progress::Done(Err(AdbError::Protocol(String::from_str("reply is not valid UTF-8")))),
    }
}

fn rejection(r: Progress<Result<String, AdbError>>) -> (out: Progress<Result<String, AdbError>>)
    ensures
        text_reply(out) == as_rejection(text_reply(r)),
{
    match r {
        Progress::Done(Ok(m)) => Progress::Done(Err(AdbError::ServerReject(m))),
        _ => r,
    }
}

fn malformed(r: Progress<Result<String, AdbError>>, what: &str) -> (out: Progress<Result<String, AdbError>>)
    ensures
        text_reply(out) == as_malformed(text_reply(r)),
{
    match r {
        Progress::Done(Ok(m)) => Progress::Done(
            Err(AdbError::Protocol(String::from_str(what).concat(": ").concat(m.as_str()))),
        ),
        _ => r,
    }
}

fn as_unit(r: Progress<Result<String, AdbError>>) -> (out: Progress<Result<(), AdbError>>)
    requires
        !(text_reply(r) is Text),
    ensures
        unit_reply(out) == text_reply(r),
{
    match r {
        Progress::Need(n) => Progress::Need(n),
        Progress::NeedToEnd => Progress::NeedToEnd,
        Progress::Done(Ok(_)) => Progress::Done(Ok(())),
        Progress::Done(Err(e)) => Progress::Done(Err(e)),
    }
}

/// Names the request in a protocol error: `Protocol(m)` becomes
/// `Protocol("Failed to send <label> command: " + m)`; any other error, the
/// server's own message above all, passes through unchanged.
pub fn labelled_error(e: AdbError, label: &str) -> (r: AdbError)
    ensures
        match e {
            AdbError::Protocol(m) => r matches AdbError::Protocol(t) && t@ == "Failed to send "@ + label@
                + " command: "@ + m@,
            _ => r == e,
        },
{
    match e {
        AdbError::Protocol(m) => AdbError::Protocol(
            String::from_str("Failed to send ").concat(label).concat(" command: ").concat(m.as_str()),
        ),
        other => other,
    }
}

/// Decodes a reply that is a bare status: `OKAY` is success, `FAIL` carries
/// the server's message.
pub fn decode_status_reply(buf: &[u8], eof: bool) -> (r: Progress<Result<(), AdbError>>)
    ensures
        unit_reply(r) == status_reply(buf@, eof),
{
    if buf.len() < 4 {
        if eof {
            return Progress::Done(Err(AdbError::Protocol(String::from_str("connection closed before the reply status"))));
        }
        return Progress::Need(4 - buf.len());
    }
    match status_of(buf, 0) {
        Status::Okay => Progress::Done(Ok(())),
        Status::Fail => as_unit(rejection(read_message(buf, 4, eof))),
        Status::Other => as_unit(malformed(read_message(buf, 4, eof), "unexpected reply status")),
    }
}

/// Decodes a reply that carries one length-prefixed payload after `OKAY`.
pub fn decode_payload_reply(buf: &[u8], eof: bool) -> (r: Progress<Result<String, AdbError>>)
    ensures
        text_reply(r) == payload_reply(buf@, eof),
{
    if buf.len() < 4 {
        if eof {
            return Progress::Done(Err(AdbError::Protocol(String::from_str("connection closed before the reply status"))));
        }
        return Progress::Need(4 - buf.len());
    }
    match status_of(buf, 0) {
        Status::Okay => read_message(buf, 4, eof),
        Status::Fail => rejection(read_message(buf, 4, eof)),
        Status::Other => malformed(read_message(buf, 4, eof), "unexpected reply status"),
    }
}

/// Decodes a reply whose text after `OKAY` runs to the end of the stream.
pub fn decode_stream_reply(buf: &[u8], eof: bool) -> (r: Progress<Result<String, AdbError>>)
    ensures
        text_reply(r) == stream_reply(buf@, eof),
{
    if buf.len() < 4 {
        if eof {
            return Progress::Done(Err(AdbError::Protocol(String::from_str("connection closed before the reply status"))));
        }
        return Progress::Need(4 - buf.len());
    }
    match status_of(buf, 0) {
        Status::Okay => read_stream_text(buf, 4, eof),
        Status::Fail => rejection(read_message(buf, 4, eof)),
        Status::Other => malformed(read_message(buf, 4, eof), "unexpected reply status"),
    }
}

/// Decodes the reply to a shell request.
pub fn decode_shell_reply(buf: &[u8], eof: bool) -> (r: Progress<Result<String, AdbError>>)
    ensures
        text_reply(r) == shell_reply(buf@, eof),
{
    if buf.len() < 4 {
        if eof {
            return Progress::Done(Err(AdbError::Protocol(String::from_str("connection closed before the reply status"))));
        }
        return Progress::Need(4 - buf.len());
    }
    match status_of(buf, 0) {
        Status::Okay => read_stream_text(buf, 4, eof),
        Status::Fail => read_message(buf, 4, eof),
        Status::Other => malformed(read_message(buf, 4, eof), "failed to send shell command"),
    }
}

/// Decodes the two-stage reply of the `reverse:` requests.
pub fn decode_double_ok_reply(buf: &[u8], eof: bool) -> (r: Progress<Result<String, AdbError>>)
    ensures
        text_reply(r) == double_ok_reply(buf@, eof),
{
    if buf.len() < 4 {
        if eof {
            return Progress::Done(Err(AdbError::Protocol(String::from_str("connection closed before the reply status"))));
        }
        return Progress::Need(4 - buf.len());
    }
    match status_of(buf, 0) {
        Status::Okay => {
            if buf.len() == 4 && eof {
                return Progress::Done(Ok(String::new()));
            }
            if buf.len() < 8 {
                if eof {
                    return Progress::Done(Err(AdbError::Protocol(String::from_str("connection closed inside the second reply status"))));
                }
                return Progress::Need(8 - buf.len());
            }
            match status_of(buf, 4) {
                Status::Okay => read_message(buf, 8, eof),
                Status::Fail => rejection(read_message(buf, 8, eof)),
                Status::Other => malformed(read_message(buf, 8, eof), "unexpected reply status"),
            }
        },
        Status::Fail => rejection(read_message(buf, 4, eof)),
        Status::Other => malformed(read_message(buf, 4, eof), "unexpected reply status"),
    }
}

} // verus!
