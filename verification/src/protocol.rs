//! The conversation between the agent and a connect-helper.
//!
//! The agent sends `C <host> <port>\n`. The helper answers with one status byte:
//! `K` with the connected socket attached, or `E` followed by a message and a
//! line feed.

use vstd::prelude::*;

use crate::number::{
    decimal, format_decimal, format_prefixed_hex, lemma_decimal, parse_u16, prefixed_hex,
    read_decimal, read_unsigned,
};
use crate::text::{
    has_text, is_white, lemma_word_before_white, no_white, occurs_at, replace_char, replaced, same_text,
    split_words, texts, trim, trim_start, trimmed, words,
};

verus! {

/// The request to connect to `host` on `port`.
pub open spec fn request_line(host: Seq<char>, port: u16) -> Seq<char> {
    "C "@ + host + " "@ + decimal(port as nat) + "\n"@
}

/// The target that a request line asks for: its first word is `C`, its second
/// word the host, its third word the port. Further words are ignored.
pub open spec fn requested(line: Seq<char>) -> Option<(Seq<char>, u16)> {
    let w = words(line);
    if w.len() >= 3 && w[0] == "C"@ {
        match read_unsigned(w[2], u16::MAX as nat) {
            Some(port) => Some((w[1], port as u16)),
            None => None,
        }
    } else {
        None
    }
}

/// The answer to a request that failed: an `E`, the message with its line feeds
/// turned into spaces, and a line feed.
pub open spec fn error_reply(msg: Seq<char>) -> Seq<char> {
    "E"@ + replaced(msg, '\n', ' ') + "\n"@
}

/// What the agent reports when the helper answered with the error line `line`.
pub open spec fn connect_failure(line: Seq<char>) -> Seq<char> {
    "in-namespace connect failed: "@ + trimmed(line)
}

/// What a helper does next.
#[derive(Debug, PartialEq, Eq)]
pub enum HelperAction {
    /// The agent has closed the socket: end.
    Exit,
    /// Dial this target.
    Dial(String, u16),
    /// Send this answer.
    Answer(String),
    /// Send `K` with the connected socket attached.
    HandBack,
}

/// A [`HelperAction`] with its strings as character sequences.
pub enum HelperActionView {
    Exit,
    Dial(Seq<char>, u16),
    Answer(Seq<char>),
    HandBack,
}

impl View for HelperAction {
    type V = HelperActionView;

    open spec fn view(&self) -> HelperActionView {
        match *self {
            HelperAction::Exit => HelperActionView::Exit,
            HelperAction::Dial(host, port) => HelperActionView::Dial(host@, port),
            HelperAction::Answer(reply) => HelperActionView::Answer(reply@),
            HelperAction::HandBack => HelperActionView::HandBack,
        }
    }
}

/// What a helper does on reading `line`; an empty line, without even a line
/// feed, is the end of the input.
pub open spec fn on_request(line: Seq<char>) -> HelperActionView {
    if line.len() == 0 {
        HelperActionView::Exit
    } else {
        match requested(line) {
            Some((host, port)) => HelperActionView::Dial(host, port),
            None => HelperActionView::Answer(error_reply("malformed request"@)),
        }
    }
}

/// What a helper does when dialing ended: with a socket, or with a message.
pub open spec fn on_dialed(failure: Option<Seq<char>>) -> HelperActionView {
    match failure {
        None => HelperActionView::HandBack,
        Some(msg) => HelperActionView::Answer(error_reply(msg)),
    }
}

/// What the helper's answer means to the agent.
#[derive(Debug, Clone, Copy, PartialEq, Eq, Structural)]
pub enum HelperReply {
    /// The helper is gone.
    Closed,
    /// The attached socket is connected.
    Connected,
    /// Success was reported, but no socket came along.
    NoSocket,
    /// An error line follows.
    ErrorFollows,
    /// The status byte is none that a helper sends.
    Violation(u8),
}

/// What an answer of `received` bytes, the first of them `status`, means.
pub open spec fn reply_meaning(received: nat, status: u8, has_socket: bool) -> HelperReply {
    if received == 0 {
        HelperReply::Closed
    } else if status == 75 {
        if has_socket {
            HelperReply::Connected
        } else {
            HelperReply::NoSocket
        }
    } else if status == 69 {
        HelperReply::ErrorFollows
    } else {
        HelperReply::Violation(status)
    }
}

/// What the agent reports of an answer that gives no socket; of a success there
/// is nothing to report, and an error line speaks for itself.
pub open spec fn reply_failure(reply: HelperReply) -> Option<Seq<char>> {
    match reply {
        HelperReply::Closed => Some("helper closed (namespace process gone?)"@),
        HelperReply::NoSocket => Some("helper said OK but sent no fd"@),
        HelperReply::Violation(status) => Some(
            "helper protocol violation (status byte "@ + prefixed_hex(status) + ")"@,
        ),
        HelperReply::Connected => None,
        HelperReply::ErrorFollows => None,
    }
}

/// How a request to a helper failed.
#[derive(Debug, Clone, Copy, PartialEq, Eq, Structural)]
pub enum HelperFailure {
    /// The helper answered that the target cannot be dialed; it is in order.
    Refused,
    /// The helper is of no more use: the request could not be sent to it, its
    /// answer could not be read, or the answer is none.
    Lost,
}

/// The failure that an answer stands for, if it stands for one.
pub open spec fn failure_kind(reply: HelperReply) -> Option<HelperFailure> {
    match reply {
        HelperReply::Connected => None,
        HelperReply::ErrorFollows => Some(HelperFailure::Refused),
        _ => Some(HelperFailure::Lost),
    }
}

/// What came of a request to a helper.
#[derive(Debug, Clone, Copy, PartialEq, Eq, Structural)]
pub enum RequestEvent {
    /// The request could not be sent.
    NotSent,
    /// No answer could be received.
    NotReceived,
    /// The answer announced an error line, which could not be read.
    LineNotRead,
    /// An answer came, and this is its meaning.
    Reply(HelperReply),
}

/// How a request failed, if it did: a helper that cannot be talked to is lost.
pub open spec fn request_outcome(event: RequestEvent) -> Option<HelperFailure> {
    match event {
        RequestEvent::Reply(reply) => failure_kind(reply),
        _ => Some(HelperFailure::Lost),
    }
}

/// A request is read back as the target it was made for, as long as the host is
/// a word: not empty, and free of white space.
pub proof fn request_is_understood(host: Seq<char>, port: u16)
    requires
        host.len() > 0,
        no_white(host),
    ensures
        requested(request_line(host, port)) == Some((host, port)),
        on_request(request_line(host, port)) == HelperActionView::Dial(host, port),
{
    reveal_strlit("C ");
    reveal_strlit("C");
    reveal_strlit(" ");
    reveal_strlit("\n");
    let digits = decimal(port as nat);
    lemma_decimal(port as nat);
    read_decimal(port as nat, u16::MAX as nat);
    assert(no_white(digits)) by {
        assert forall|i: int| 0 <= i < digits.len() implies !is_white(#[trigger] digits[i]) by {
            assert(crate::number::is_digit(digits[i]));
        }
    }
    let line = request_line(host, port);
    let tail = digits + "\n"@;
    let rest = host + " "@ + tail;
    assert(line =~= "C"@ + seq![' '] + rest);
    lemma_word_before_white("C"@, ' ', rest);
    assert(rest =~= host + seq![' '] + tail);
    lemma_word_before_white(host, ' ', tail);
    assert(tail =~= digits + seq!['\n'] + Seq::<char>::empty());
    lemma_word_before_white(digits, '\n', Seq::<char>::empty());
    assert(words(line) =~= seq!["C"@, host, digits]);
}

/// An error answer starts with `E` and is a single line: its only line feed is
/// its last character.
pub proof fn error_reply_is_one_line(msg: Seq<char>)
    ensures
        error_reply(msg)[0] == 'E',
        error_reply(msg).last() == '\n',
        forall|i: int|
            0 <= i < error_reply(msg).len() - 1 ==> #[trigger] error_reply(msg)[i] != '\n',
{
    reveal_strlit("E");
    reveal_strlit("\n");
    let reply = error_reply(msg);
    assert forall|i: int| 0 <= i < reply.len() - 1 implies #[trigger] reply[i] != '\n' by {
        if i > 0 {
            assert(reply[i] == replaced(msg, '\n', ' ')[i - 1]);
        }
    }
}

/// What the helper answers to a failed request, less its status byte, reaches
/// the agent as the message with line feeds turned into spaces and trimmed.
pub proof fn refusal_reaches_the_agent(msg: Seq<char>)
    ensures
        connect_failure(error_reply(msg).skip(1)) == "in-namespace connect failed: "@ + trimmed(
            replaced(msg, '\n', ' '),
        ),
{
    reveal_strlit("E");
    reveal_strlit("\n");
    let body = replaced(msg, '\n', ' ');
    assert(error_reply(msg).skip(1) =~= body.push('\n'));
    lemma_trim_line_feed(body);
}

/// A request that is no request is refused with an error line that says so.
pub proof fn malformed_is_refused(line: Seq<char>)
    requires
        line.len() > 0,
        requested(line) is None,
    ensures
        on_request(line) == HelperActionView::Answer("Emalformed request\n"@),
{
    reveal_strlit("E");
    reveal_strlit("\n");
    reveal_strlit("malformed request");
    reveal_strlit("Emalformed request\n");
    assert(replaced("malformed request"@, '\n', ' ') =~= "malformed request"@);
    assert(error_reply("malformed request"@) =~= "Emalformed request\n"@);
}

/// Every dialing ends in exactly one answer, and the agent takes it for what it
/// is: the socket for a connection, the error line for a failure.
pub proof fn answers_are_told_apart(failure: Option<Seq<char>>)
    ensures
        failure is None ==> on_dialed(failure) is HandBack && reply_meaning(1, 75, true)
            == HelperReply::Connected,
        failure matches Some(msg) ==> on_dialed(failure) == HelperActionView::Answer(
            error_reply(msg),
        ) && reply_meaning(1, error_reply(msg)[0] as u8, false) == HelperReply::ErrorFollows,
{
    if let Some(msg) = failure {
        error_reply_is_one_line(msg);
    }
}

/// Whatever a helper's error line says, the agent's report tells that a connect
/// in a namespace failed.
pub proof fn failure_is_helpful(line: Seq<char>)
    ensures
        has_text(connect_failure(line), "connect"@),
        has_text(connect_failure(line), "namespace"@),
{
    reveal_strlit("in-namespace connect failed: ");
    reveal_strlit("connect");
    reveal_strlit("namespace");
    let report = connect_failure(line);
    assert(report.subrange(13, 20) =~= "connect"@);
    assert(occurs_at(report, "connect"@, 13));
    assert(report.subrange(3, 12) =~= "namespace"@);
    assert(occurs_at(report, "namespace"@, 3));
}

/// A request succeeds exactly when a socket came back, and it is refused exactly
/// when the helper announced an error; everything else is the helper's own failure.
pub proof fn failures_are_told_apart(event: RequestEvent)
    ensures
        request_outcome(event) is None <==> event == RequestEvent::Reply(HelperReply::Connected),
        request_outcome(event) == Some(HelperFailure::Refused) <==> event == RequestEvent::Reply(
            HelperReply::ErrorFollows,
        ),
{
}

/// A trailing line feed does not survive trimming.
proof fn lemma_trim_line_feed(s: Seq<char>)
    ensures
        trimmed(s.push('\n')) == trimmed(s),
    decreases s.len(),
{
    if s.len() == 0 {
        assert(s.push('\n').skip(1) =~= s);
        assert(trim_start(s.push('\n')) == trim_start(s));
    } else if is_white(s[0]) {
        assert(s.push('\n').skip(1) =~= s.skip(1).push('\n'));
        lemma_trim_line_feed(s.skip(1));
    } else {
        assert(s.push('\n')[0] == s[0]);
        assert(s.push('\n').drop_last() =~= s);
    }
}

/// The request to connect to `host` on `port`.
pub fn encode_request(host: &str, port: u16) -> (line: String)
    ensures
        line@ == request_line(host@, port),
{
    let mut line: String = "C ".to_string();
    line.append(host);
    line.append(" ");
    line.append(format_decimal(port as u32).as_str());
    line.append("\n");
    line
}

/// The target that a request line asks for.
pub fn parse_request(line: &str) -> (res: Option<(String, u16)>)
    ensures
        match (requested(line@), res) {
            (Some((host, port)), Some((h, p))) => h@ == host && p == port,
            (None, None) => true,
            _ => false,
        },
{
    let list: Vec<String> = split_words(line);
    proof {
        assert(texts(list@).len() == list@.len());
    }
    if list.len() < 3 || !same_text(list[0].as_str(), "C") {
        return None;
    }
    match parse_u16(list[2].as_str()) {
        Some(port) => Some((list[1].clone(), port)),
        None => None,
    }
}

/// The answer to a request that failed with `msg`.
pub fn encode_error(msg: &str) -> (reply: String)
    ensures
        reply@ == error_reply(msg@),
{
    let mut reply: String = "E".to_string();
    reply.append(replace_char(msg, '\n', ' ').as_str());
    reply.append("\n");
    reply
}

/// What a helper does on reading `line`.
pub fn handle_request(line: &str) -> (action: HelperAction)
    ensures
        action@ == on_request(line@),
{
    if line.is_empty() {
        return HelperAction::Exit;
    }
    match parse_request(line) {
        Some((host, port)) => HelperAction::Dial(host, port),
        None => HelperAction::Answer(encode_error("malformed request")),
    }
}

/// What a helper does when dialing ended; `failure` is the message where it gave
/// no socket.
pub fn handle_dialed(failure: Option<String>) -> (action: HelperAction)
    ensures
        action@ == on_dialed(
            match failure {
                Some(msg) => Some(msg@),
                None => None,
            },
        ),
{
    match failure {
        None => HelperAction::HandBack,
        Some(msg) => HelperAction::Answer(encode_error(msg.as_str())),
    }
}

/// What an answer of `received` bytes, the first of them `status`, means.
pub fn read_reply(received: usize, status: u8, has_socket: bool) -> (reply: HelperReply)
    ensures
        reply == reply_meaning(received as nat, status, has_socket),
{
    if received == 0 {
        HelperReply::Closed
    } else if status == 75 {
        if has_socket {
            HelperReply::Connected
        } else {
            HelperReply::NoSocket
        }
    } else if status == 69 {
        HelperReply::ErrorFollows
    } else {
        HelperReply::Violation(status)
    }
}

impl HelperReply {
    /// The failure that this answer stands for, if it stands for one.
    pub fn kind(&self) -> (kind: Option<HelperFailure>)
        ensures
            kind == failure_kind(*self),
    {
        match self {
            HelperReply::Connected => None,
            HelperReply::ErrorFollows => Some(HelperFailure::Refused),
            _ => Some(HelperFailure::Lost),
        }
    }

    /// What the agent reports of an answer that gives no socket.
    pub fn failure(&self) -> (s: Option<String>)
        ensures
            match reply_failure(*self) {
                Some(text) => s is Some && s->0@ == text,
                None => s is None,
            },
    {
        match self {
            HelperReply::Closed => Some("helper closed (namespace process gone?)".to_string()),
            HelperReply::NoSocket => Some("helper said OK but sent no fd".to_string()),
            HelperReply::Violation(status) => {
                let mut s: String = "helper protocol violation (status byte ".to_string();
                s.append(format_prefixed_hex(*status).as_str());
                s.append(")");
                Some(s)
            },
            HelperReply::Connected => None,
            HelperReply::ErrorFollows => None,
        }
    }
}

/// How a request failed, if it did.
pub fn request_failure(event: RequestEvent) -> (kind: Option<HelperFailure>)
    ensures
        kind == request_outcome(event),
{
    match event {
        RequestEvent::NotSent => Some(HelperFailure::Lost),
        RequestEvent::NotReceived => Some(HelperFailure::Lost),
        RequestEvent::LineNotRead => Some(HelperFailure::Lost),
        RequestEvent::Reply(reply) => reply.kind(),
    }
}

/// What the agent reports when the helper answered with the error line `line`.
pub fn connect_error(line: &str) -> (s: String)
    ensures
        s@ == connect_failure(line@),
{
    let mut s: String = "in-namespace connect failed: ".to_string();
    s.append(trim(line).as_str());
    s
}

/// A target that cannot be dialed: the helper understands the request, answers
/// with one error line, and the agent reports the helper's message.
pub proof fn failed_dial_is_reported(host: Seq<char>, port: u16, msg: Seq<char>)
    requires
        host.len() > 0,
        no_white(host),
    ensures
        on_request(request_line(host, port)) == HelperActionView::Dial(host, port),
        on_dialed(Some(msg)) == HelperActionView::Answer(error_reply(msg)),
        reply_meaning(1, error_reply(msg)[0] as u8, false) == HelperReply::ErrorFollows,
        connect_failure(error_reply(msg).skip(1)) == "in-namespace connect failed: "@ + trimmed(
            replaced(msg, '\n', ' '),
        ),
{
    request_is_understood(host, port);
    answers_are_told_apart(Some(msg));
    refusal_reaches_the_agent(msg);
}

} // verus!
