//! The per-connection state machine of the submission protocol.
//!
//! A [`Session`] owns one [`Transaction`] at a time. It is driven by events
//! (a line read, the peer gone, an idle timeout, the outcome of a relay
//! attempt) and answers each with the replies to write and a [`Directive`]
//! for what to do next. The transition function is the specification
//! function [`step`]; the executable methods implement it exactly.

use crate::text::{
    chars_equal, decimal, decimal_string, equals_upper, has_prefix, option_view,
    starts_with_upper, str_chars, to_ascii_upper, trim, trim_both, trim_str, views_of, CharClass,
};
use vstd::prelude::*;
use vstd::utf8::encode_utf8;

verus! {

/// Seconds a client may stay silent between two body lines.
pub const DATA_IDLE_TIMEOUT_SECS: u64 = 300;

/// The commands the session tells apart.
#[derive(Clone, Copy, Debug, PartialEq, Eq, Structural)]
pub enum Verb {
    Helo,
    Ehlo,
    /// AUTH PLAIN alone: the credentials follow on a line of their own.
    AuthPlain,
    /// AUTH PLAIN with the credentials on the same line.
    AuthPlainInline,
    /// AUTH with any other mechanism.
    AuthOther,
    MailFrom,
    RcptTo,
    Data,
    Quit,
    Rset,
    Unknown,
}

/// A reply of the server, by kind.
#[derive(Clone, Copy, Debug, PartialEq, Eq, Structural)]
pub enum Reply {
    /// 220, sent once when the connection opens.
    Greeting,
    /// 250 for an accepted command.
    Accepted,
    /// 250, first line of the answer to EHLO.
    AcceptedContinued,
    /// 250, last line of the answer to EHLO: the AUTH mechanisms on offer.
    AuthMechanisms,
    /// 334, asks for the credentials of AUTH PLAIN.
    AuthChallenge,
    /// 235.
    AuthSucceeded,
    /// 504, for an AUTH mechanism other than PLAIN.
    AuthUnrecognized,
    /// 503, for a command out of sequence.
    BadSequence,
    /// 354, invites the message body.
    StartData,
    /// 250 after a message was relayed.
    Queued,
    /// 451 after a relay attempt failed.
    RelayFailed,
    /// 552, the message outgrew the size limit.
    TooLarge,
    /// 500, for anything that is not a known command.
    Unrecognized,
    /// 221, answers QUIT.
    Closing,
}

/// What the driver of a session does next.
#[derive(Clone, Copy, Debug, PartialEq, Eq, Structural)]
pub enum Directive {
    /// Read one line and hand it to `on_line`.
    ReadLine,
    /// Read one line, giving up after `DATA_IDLE_TIMEOUT_SECS` of silence.
    ReadLineWithTimeout,
    /// Relay the finished transaction and report with `on_relay_result`.
    Relay,
    /// Close the connection.
    Close,
}

/// Where a session stands.
#[derive(Clone, Copy, Debug, PartialEq, Eq, Structural)]
pub enum Phase {
    /// Waiting for a command.
    Command,
    /// AUTH PLAIN was answered with a challenge; the next line is consumed.
    AuthContinuation,
    /// Receiving the message body.
    Data,
    /// The body is complete and the relay attempt is under way.
    Relaying,
    /// The session is over.
    Closed,
}

/// The mathematical content of a [`Transaction`].
pub struct TransactionView {
    pub from: Option<Seq<char>>,
    pub recipients: Seq<Seq<char>>,
    pub data: Seq<u8>,
}

/// The mathematical content of a [`Session`].
pub struct SessionView {
    pub phase: Phase,
    pub transaction: TransactionView,
    pub max_email_size: nat,
    pub server_name: Seq<char>,
}

/// Something that happens to a session.
pub enum Event {
    /// A line arrived, terminator included.
    Line(Seq<char>),
    /// The peer closed the connection, or reading failed.
    Disconnected,
    /// The idle timeout expired.
    TimedOut,
    /// The relay attempt ended; `true` for success.
    Relayed(bool),
}

/// The result of one transition.
pub struct Step {
    pub state: SessionView,
    pub replies: Seq<Reply>,
    pub directive: Directive,
}

/// State of one mail-submission attempt.
#[derive(Debug)]
pub struct Transaction {
    pub from: Option<String>,
    pub recipients: Vec<String>,
    pub data: Vec<u8>,
}

/// One accepted connection.
#[derive(Debug)]
pub struct Session {
    phase: Phase,
    transaction: Transaction,
    max_email_size: usize,
    server_name: String,
}

/// What a session answers to one event.
#[derive(Debug)]
pub struct Response {
    pub replies: Vec<Reply>,
    pub directive: Directive,
}

/// The line that ends a message body.
pub open spec fn end_of_data() -> Seq<char> {
    ".\r\n"@
}

/// The command a line holds: surrounding white space is ignored, and so is
/// the case of ASCII letters.
pub open spec fn verb_of(line: Seq<char>) -> Verb {
    let cmd = to_ascii_upper(trim(line));
    if has_prefix(cmd, "EHLO"@) {
        Verb::Ehlo
    } else if has_prefix(cmd, "HELO"@) {
        Verb::Helo
    } else if has_prefix(cmd, "AUTH"@) {
        if cmd == "AUTH PLAIN"@ {
            Verb::AuthPlain
        } else if has_prefix(cmd, "AUTH PLAIN "@) {
            Verb::AuthPlainInline
        } else {
            Verb::AuthOther
        }
    } else if has_prefix(cmd, "MAIL FROM:"@) {
        Verb::MailFrom
    } else if has_prefix(cmd, "RCPT TO:"@) {
        Verb::RcptTo
    } else if cmd == "DATA"@ {
        Verb::Data
    } else if cmd == "QUIT"@ {
        Verb::Quit
    } else if cmd == "RSET"@ {
        Verb::Rset
    } else {
        Verb::Unknown
    }
}

/// The address that follows `keyword` on a line: white space around it is
/// dropped, then angle brackets at either end.
pub open spec fn address_after(line: Seq<char>, keyword: Seq<char>) -> Seq<char> {
    let t = trim(line);
    trim_both(trim(t.subrange(keyword.len() as int, t.len() as int)), CharClass::AngleBracket)
}

/// The address a MAIL FROM or RCPT TO line names; empty for other lines.
pub open spec fn address_of(line: Seq<char>) -> Seq<char> {
    match verb_of(line) {
        Verb::MailFrom => address_after(line, "MAIL FROM:"@),
        Verb::RcptTo => address_after(line, "RCPT TO:"@),
        _ => Seq::empty(),
    }
}

/// A body line as it is stored: one leading dot, if present, is removed.
pub open spec fn unstuffed(line: Seq<char>) -> Seq<char> {
    if line.len() > 0 && line[0] == '.' {
        line.drop_first()
    } else {
        line
    }
}

/// What the driver does while the session is in `phase` and no event has
/// changed it.
pub open spec fn directive_in(phase: Phase) -> Directive {
    match phase {
        Phase::Command => Directive::ReadLine,
        Phase::AuthContinuation => Directive::ReadLine,
        Phase::Data => Directive::ReadLineWithTimeout,
        Phase::Relaying => Directive::Relay,
        Phase::Closed => Directive::Close,
    }
}

impl TransactionView {
    /// The transaction with no sender, no recipients and no data.
    pub open spec fn empty() -> TransactionView {
        TransactionView { from: None, recipients: Seq::empty(), data: Seq::empty() }
    }
}

impl SessionView {
    /// The session as it is right after the connection opened.
    pub open spec fn initial(server_name: Seq<char>, max_email_size: nat) -> SessionView {
        SessionView {
            phase: Phase::Command,
            transaction: TransactionView::empty(),
            max_email_size,
            server_name,
        }
    }

    /// The same session in another phase.
    pub open spec fn in_phase(self, phase: Phase) -> SessionView {
        SessionView { phase, ..self }
    }

    /// The same session with another transaction.
    pub open spec fn with_transaction(self, transaction: TransactionView) -> SessionView {
        SessionView { transaction, ..self }
    }

    /// The invariant of a session: buffered data never exceeds the limit and
    /// exists only while a body is received or relayed; recipients exist
    /// only after a sender; a body is received or relayed only for at least
    /// one recipient.
    pub open spec fn wf(self) -> bool {
        &&& self.transaction.data.len() <= self.max_email_size
        &&& (self.phase == Phase::Command || self.phase == Phase::AuthContinuation)
            ==> self.transaction.data.len() == 0
        &&& self.transaction.recipients.len() > 0 ==> self.transaction.from is Some
        &&& (self.phase == Phase::Data || self.phase == Phase::Relaying)
            ==> self.transaction.recipients.len() > 0
    }

    /// The session unchanged, nothing to write, and the directive its phase
    /// calls for: the answer to an event that does not fit the phase.
    pub open spec fn stay(self) -> Step {
        Step { state: self, replies: Seq::empty(), directive: directive_in(self.phase) }
    }

    /// The session unchanged but for the replies to write.
    pub open spec fn answer(self, replies: Seq<Reply>) -> Step {
        Step { state: self, replies, directive: directive_in(self.phase) }
    }
}

/// The transition on a line while waiting for a command.
pub open spec fn step_command(s: SessionView, line: Seq<char>) -> Step {
    match verb_of(line) {
        Verb::Helo => s.with_transaction(TransactionView::empty()).answer(seq![Reply::Accepted]),
        Verb::Ehlo => s.with_transaction(TransactionView::empty()).answer(
            seq![Reply::AcceptedContinued, Reply::AuthMechanisms],
        ),
        Verb::AuthPlain => s.in_phase(Phase::AuthContinuation).answer(seq![Reply::AuthChallenge]),
        Verb::AuthPlainInline => s.answer(seq![Reply::AuthSucceeded]),
        Verb::AuthOther => s.answer(seq![Reply::AuthUnrecognized]),
        Verb::MailFrom => s.with_transaction(
            TransactionView {
                from: Some(address_of(line)),
                recipients: Seq::empty(),
                data: Seq::empty(),
            },
        ).answer(seq![Reply::Accepted]),
        Verb::RcptTo => if s.transaction.from is Some {
            s.with_transaction(
                TransactionView {
                    recipients: s.transaction.recipients.push(address_of(line)),
                    ..s.transaction
                },
            ).answer(seq![Reply::Accepted])
        } else {
            s.answer(seq![Reply::BadSequence])
        },
        Verb::Data => if s.transaction.from is Some && s.transaction.recipients.len() > 0 {
            s.in_phase(Phase::Data).answer(seq![Reply::StartData])
        } else {
            s.answer(seq![Reply::BadSequence])
        },
        Verb::Quit => s.in_phase(Phase::Closed).answer(seq![Reply::Closing]),
        Verb::Rset => s.with_transaction(TransactionView::empty()).answer(seq![Reply::Accepted]),
        Verb::Unknown => s.answer(seq![Reply::Unrecognized]),
    }
}

/// The transition on a line while receiving the body.
///
/// The line that ends the body is not stored and so is never too large.
/// Any other line counts with the bytes it would add to the buffer, that
/// is without a leading dot: the session closes with 552 where the buffer
/// would exceed the limit, and stores the line where it would not.
pub open spec fn step_data(s: SessionView, line: Seq<char>) -> Step {
    if line == end_of_data() {
        s.in_phase(Phase::Relaying).stay()
    } else if s.transaction.data.len() + encode_utf8(unstuffed(line)).len()
        > s.max_email_size {
        s.in_phase(Phase::Closed).answer(seq![Reply::TooLarge])
    } else {
        s.with_transaction(
            TransactionView {
                data: s.transaction.data + encode_utf8(unstuffed(line)),
                ..s.transaction
            },
        ).stay()
    }
}

/// The transition function of the session.
pub open spec fn step(s: SessionView, event: Event) -> Step {
    match (s.phase, event) {
        (Phase::Closed, _) => s.stay(),
        (_, Event::Disconnected) => s.in_phase(Phase::Closed).stay(),
        (_, Event::TimedOut) => s.in_phase(Phase::Closed).stay(),
        (Phase::Command, Event::Line(line)) => step_command(s, line),
        (Phase::AuthContinuation, Event::Line(_)) => s.in_phase(Phase::Command).answer(
            seq![Reply::AuthSucceeded],
        ),
        (Phase::Data, Event::Line(line)) => step_data(s, line),
        (Phase::Relaying, Event::Relayed(delivered)) => s.with_transaction(
            TransactionView::empty(),
        ).in_phase(Phase::Command).answer(
            seq![if delivered { Reply::Queued } else { Reply::RelayFailed }],
        ),
        _ => s.stay(),
    }
}


impl Reply {
    /// The numeric code of the reply.
    pub open spec fn code_of(self) -> u16 {
        match self {
            Reply::Greeting => 220,
            Reply::Accepted => 250,
            Reply::AcceptedContinued => 250,
            Reply::AuthMechanisms => 250,
            Reply::AuthChallenge => 334,
            Reply::AuthSucceeded => 235,
            Reply::AuthUnrecognized => 504,
            Reply::BadSequence => 503,
            Reply::StartData => 354,
            Reply::Queued => 250,
            Reply::RelayFailed => 451,
            Reply::TooLarge => 552,
            Reply::Unrecognized => 500,
            Reply::Closing => 221,
        }
    }

    /// Whether another line of the same answer follows this one.
    pub open spec fn is_continued(self) -> bool {
        self == Reply::AcceptedContinued
    }

    /// The text after the code.
    pub open spec fn text_of(self, server_name: Seq<char>) -> Seq<char> {
        match self {
            Reply::Greeting => server_name + " ESMTP ready"@,
            Reply::Accepted => "OK"@,
            Reply::AcceptedContinued => "OK"@,
            Reply::AuthMechanisms => "AUTH PLAIN"@,
            Reply::AuthChallenge => ""@,
            Reply::AuthSucceeded => "Authentication successful"@,
            Reply::AuthUnrecognized => "Unrecognized authentication type"@,
            Reply::BadSequence => "Bad sequence of commands"@,
            Reply::StartData => "End data with <CR><LF>.<CR><LF>"@,
            Reply::Queued => "OK: Queued for delivery"@,
            Reply::RelayFailed => "Failed to relay email to Azure Communication Services"@,
            Reply::TooLarge => "Requested mail action aborted: exceeded storage allocation"@,
            Reply::Unrecognized => "Syntax error, command unrecognized"@,
            Reply::Closing => "Bye"@,
        }
    }

    /// The reply as it goes over the wire: the code, a space (a hyphen if
    /// another line follows), the text, and CRLF.
    pub open spec fn line_of(self, server_name: Seq<char>) -> Seq<char> {
        decimal(self.code_of() as nat) + (if self.is_continued() {
            "-"@
        } else {
            " "@
        }) + self.text_of(server_name) + "\r\n"@
    }

    /// Returns the numeric code of the reply.
    pub fn code(&self) -> (c: u16)
        ensures
            c == self.code_of(),
    {
        match self {
            Reply::Greeting => 220,
            Reply::Accepted => 250,
            Reply::AcceptedContinued => 250,
            Reply::AuthMechanisms => 250,
            Reply::AuthChallenge => 334,
            Reply::AuthSucceeded => 235,
            Reply::AuthUnrecognized => 504,
            Reply::BadSequence => 503,
            Reply::StartData => 354,
            Reply::Queued => 250,
            Reply::RelayFailed => 451,
            Reply::TooLarge => 552,
            Reply::Unrecognized => 500,
            Reply::Closing => 221,
        }
    }

    /// Returns the text after the code.
    pub fn text(&self, server_name: &str) -> (t: String)
        ensures
            t@ == self.text_of(server_name@),
    {
        match self {
            Reply::Greeting => {
                let mut t = String::from_str(server_name);
                t.append(" ESMTP ready");
                t
            },
            Reply::Accepted => String::from_str("OK"),
            Reply::AcceptedContinued => String::from_str("OK"),
            Reply::AuthMechanisms => String::from_str("AUTH PLAIN"),
            Reply::AuthChallenge => String::from_str(""),
            Reply::AuthSucceeded => String::from_str("Authentication successful"),
            Reply::AuthUnrecognized => String::from_str("Unrecognized authentication type"),
            Reply::BadSequence => String::from_str("Bad sequence of commands"),
            Reply::StartData => String::from_str("End data with <CR><LF>.<CR><LF>"),
            Reply::Queued => String::from_str("OK: Queued for delivery"),
            Reply::RelayFailed => String::from_str(
                "Failed to relay email to Azure Communication Services",
            ),
            Reply::TooLarge => String::from_str(
                "Requested mail action aborted: exceeded storage allocation",
            ),
            Reply::Unrecognized => String::from_str("Syntax error, command unrecognized"),
            Reply::Closing => String::from_str("Bye"),
        }
    }

    /// Returns the reply as it goes over the wire.
    pub fn line(&self, server_name: &str) -> (l: String)
        ensures
            l@ == self.line_of(server_name@),
    {
        let mut l = decimal_string(self.code() as u64);
        match self {
            Reply::AcceptedContinued => l.append("-"),
            _ => l.append(" "),
        }
        l.append(self.text(server_name).as_str());
        l.append("\r\n");
        l
    }
}

/// The directive that belongs to a phase.
pub fn directive_for(phase: Phase) -> (d: Directive)
    ensures
        d == directive_in(phase),
{
    match phase {
        Phase::Command => Directive::ReadLine,
        Phase::AuthContinuation => Directive::ReadLine,
        Phase::Data => Directive::ReadLineWithTimeout,
        Phase::Relaying => Directive::Relay,
        Phase::Closed => Directive::Close,
    }
}

/// Extracts the address that follows the first `keyword_len` characters of
/// an already trimmed command line.
fn address_in(trimmed: &str, keyword_len: usize, len: usize) -> (r: String)
    requires
        keyword_len <= len == trimmed@.len(),
    ensures
        r@ == trim_both(
            trim(trimmed@.subrange(keyword_len as int, len as int)),
            CharClass::AngleBracket,
        ),
{
    let rest = trimmed.substring_char(keyword_len, len);
    let inner = trim_str(rest, CharClass::Whitespace);
    String::from_str(trim_str(inner, CharClass::AngleBracket))
}

/// Recognises the command on a line, and the address it names if it is
/// MAIL FROM or RCPT TO.
pub fn parse_command(line: &str) -> (r: (Verb, String))
    ensures
        r.0 == verb_of(line@),
        r.1@ == address_of(line@),
{
    let trimmed = trim_str(line, CharClass::Whitespace);
    let chars = str_chars(trimmed);
    let cmd = chars.as_slice();
    let n = cmd.len();
    if starts_with_upper(cmd, str_chars("EHLO").as_slice()) {
        (Verb::Ehlo, String::new())
    } else if starts_with_upper(cmd, str_chars("HELO").as_slice()) {
        (Verb::Helo, String::new())
    } else if starts_with_upper(cmd, str_chars("AUTH").as_slice()) {
        if equals_upper(cmd, str_chars("AUTH PLAIN").as_slice()) {
            (Verb::AuthPlain, String::new())
        } else if starts_with_upper(cmd, str_chars("AUTH PLAIN ").as_slice()) {
            (Verb::AuthPlainInline, String::new())
        } else {
            (Verb::AuthOther, String::new())
        }
    } else if starts_with_upper(cmd, str_chars("MAIL FROM:").as_slice()) {
        let k = str_chars("MAIL FROM:").len();
        (Verb::MailFrom, address_in(trimmed, k, n))
    } else if starts_with_upper(cmd, str_chars("RCPT TO:").as_slice()) {
        let k = str_chars("RCPT TO:").len();
        (Verb::RcptTo, address_in(trimmed, k, n))
    } else if equals_upper(cmd, str_chars("DATA").as_slice()) {
        (Verb::Data, String::new())
    } else if equals_upper(cmd, str_chars("QUIT").as_slice()) {
        (Verb::Quit, String::new())
    } else if equals_upper(cmd, str_chars("RSET").as_slice()) {
        (Verb::Rset, String::new())
    } else {
        (Verb::Unknown, String::new())
    }
}

impl Transaction {
    /// The mathematical content of the transaction.
    pub open spec fn view(&self) -> TransactionView {
        TransactionView {
            from: option_view(self.from),
            recipients: views_of(self.recipients@),
            data: self.data@,
        }
    }

    /// Creates the empty transaction.
    pub fn new() -> (t: Self)
        ensures
            t@ == TransactionView::empty(),
    {
        let t = Transaction { from: None, recipients: Vec::new(), data: Vec::new() };
        assert(t@.recipients =~= Seq::empty());
        t
    }
}

impl Response {
    /// Whether this response and the state `after` are what the transition
    /// `st` prescribes.
    pub open spec fn realizes(self, after: SessionView, st: Step) -> bool {
        &&& after == st.state
        &&& self.replies@ =~= st.replies
        &&& self.directive == st.directive
    }
}

impl Session {
    /// The mathematical content of the session.
    pub closed spec fn view(&self) -> SessionView {
        SessionView {
            phase: self.phase,
            transaction: self.transaction@,
            max_email_size: self.max_email_size as nat,
            server_name: self.server_name@,
        }
    }

    /// Opens a session: it waits for a command, with an empty transaction.
    /// The greeting, `Reply::Greeting`, is to be written at once.
    pub fn new(server_name: String, max_email_size: usize) -> (s: Self)
        ensures
            s@ == SessionView::initial(server_name@, max_email_size as nat),
            s@.wf(),
    {
        Session {
            phase: Phase::Command,
            transaction: Transaction::new(),
            max_email_size,
            server_name,
        }
    }

    /// The phase the session is in.
    pub fn phase(&self) -> (p: Phase)
        ensures
            p == self@.phase,
    {
        self.phase
    }

    /// The transaction in progress.
    pub fn transaction(&self) -> (t: &Transaction)
        ensures
            t@ == self@.transaction,
    {
        &self.transaction
    }

    /// The size limit for a message, in bytes.
    pub fn max_email_size(&self) -> (m: usize)
        ensures
            m == self@.max_email_size,
    {
        self.max_email_size
    }

    /// The name the server greets with.
    pub fn server_name(&self) -> (n: &str)
        ensures
            n@ == self@.server_name,
    {
        self.server_name.as_str()
    }

    /// The directive that is pending in the current phase.
    pub fn directive(&self) -> (d: Directive)
        ensures
            d == directive_in(self@.phase),
    {
        directive_for(self.phase)
    }

    /// Renders a reply of this session for the wire.
    pub fn render(&self, reply: Reply) -> (l: String)
        ensures
            l@ == reply.line_of(self@.server_name),
    {
        reply.line(self.server_name.as_str())
    }

    /// Builds the response for the current phase with the given replies.
    fn respond(&self, replies: Vec<Reply>) -> (r: Response)
        ensures
            r.replies@ == replies@,
            r.directive == directive_in(self@.phase),
    {
        Response { replies, directive: directive_for(self.phase) }
    }

    /// Handles a line while waiting for a command.
    fn on_command(&mut self, line: &str) -> (r: Response)
        requires
            old(self)@.phase == Phase::Command,
        ensures
            r.realizes(final(self)@, step_command(old(self)@, line@)),
    {
        let (verb, address) = parse_command(line);
        match verb {
            Verb::Helo => {
                self.transaction = Transaction::new();
                self.respond(vec![Reply::Accepted])
            },
            Verb::Ehlo => {
                self.transaction = Transaction::new();
                self.respond(vec![Reply::AcceptedContinued, Reply::AuthMechanisms])
            },
            Verb::AuthPlain => {
                self.phase = Phase::AuthContinuation;
                self.respond(vec![Reply::AuthChallenge])
            },
            Verb::AuthPlainInline => self.respond(vec![Reply::AuthSucceeded]),
            Verb::AuthOther => self.respond(vec![Reply::AuthUnrecognized]),
            Verb::MailFrom => {
                let t = Transaction {
                    from: Some(address),
                    recipients: Vec::new(),
                    data: Vec::new(),
                };
                assert(t@.recipients =~= Seq::empty());
                self.transaction = t;
                self.respond(vec![Reply::Accepted])
            },
            Verb::RcptTo => {
                if self.transaction.from.is_some() {
                    self.transaction.recipients.push(address);
                    assert(self.transaction@.recipients =~= old(self)@.transaction.recipients.push(
                        address_of(line@),
                    ));
                    self.respond(vec![Reply::Accepted])
                } else {
                    self.respond(vec![Reply::BadSequence])
                }
            },
            Verb::Data => {
                if self.transaction.from.is_some() && self.transaction.recipients.len() > 0 {
                    self.phase = Phase::Data;
                    self.respond(vec![Reply::StartData])
                } else {
                    self.respond(vec![Reply::BadSequence])
                }
            },
            Verb::Quit => {
                self.phase = Phase::Closed;
                self.respond(vec![Reply::Closing])
            },
            Verb::Rset => {
                self.transaction = Transaction::new();
                self.respond(vec![Reply::Accepted])
            },
            Verb::Unknown => self.respond(vec![Reply::Unrecognized]),
        }
    }

    /// Handles a line of the message body.
    fn on_data_line(&mut self, line: &str) -> (r: Response)
        requires
            old(self)@.phase == Phase::Data,
        ensures
            r.realizes(final(self)@, step_data(old(self)@, line@)),
    {
        let chars = str_chars(line);
        if chars_equal(chars.as_slice(), str_chars(".\r\n").as_slice()) {
            self.phase = Phase::Relaying;
            return self.respond(Vec::new());
        }
        let stored = if chars.len() > 0 && chars[0] == '.' {
            let rest = line.substring_char(1, chars.len());
            assert(rest@ =~= line@.drop_first());
            rest
        } else {
            line
        };
        let bytes = stored.as_bytes();
        let fits = match self.transaction.data.len().checked_add(bytes.len()) {
            Some(total) => total <= self.max_email_size,
            None => false,
        };
        if !fits {
            self.phase = Phase::Closed;
            return self.respond(vec![Reply::TooLarge]);
        }
        let mut i: usize = 0;
        while i < bytes.len()
            invariant
                i <= bytes.len(),
                self.phase == old(self).phase,
                self.max_email_size == old(self).max_email_size,
                self.server_name == old(self).server_name,
                self.transaction.from == old(self).transaction.from,
                self.transaction.recipients == old(self).transaction.recipients,
                self.transaction.data@ == old(self).transaction.data@ + bytes@.subrange(
                    0,
                    i as int,
                ),
            decreases bytes.len() - i,
        {
            self.transaction.data.push(bytes[i]);
            assert(bytes@.subrange(0, i as int + 1) =~= bytes@.subrange(0, i as int).push(
                bytes@[i as int],
            ));
            i += 1;
        }
        assert(bytes@.subrange(0, i as int) =~= bytes@);
        self.respond(Vec::new())
    }

    /// Feeds the session one line as it was read, terminator included.
    pub fn on_line(&mut self, line: &str) -> (r: Response)
        ensures
            r.realizes(final(self)@, step(old(self)@, Event::Line(line@))),
            old(self)@.wf() ==> final(self)@.wf(),
    {
        proof {
            if self@.wf() {
                lemma_step_preserves_wf(self@, Event::Line(line@));
            }
        }
        match self.phase {
            Phase::Command => self.on_command(line),
            Phase::AuthContinuation => {
                self.phase = Phase::Command;
                self.respond(vec![Reply::AuthSucceeded])
            },
            Phase::Data => self.on_data_line(line),
            Phase::Relaying => self.respond(Vec::new()),
            Phase::Closed => self.respond(Vec::new()),
        }
    }

    /// Tells the session that the peer is gone or that reading failed: the
    /// session ends without another reply.
    pub fn on_disconnect(&mut self) -> (r: Response)
        ensures
            r.realizes(final(self)@, step(old(self)@, Event::Disconnected)),
            old(self)@.wf() ==> final(self)@.wf(),
    {
        self.phase = Phase::Closed;
        self.respond(Vec::new())
    }

    /// Tells the session that the idle timeout expired: the session ends
    /// without another reply.
    pub fn on_timeout(&mut self) -> (r: Response)
        ensures
            r.realizes(final(self)@, step(old(self)@, Event::TimedOut)),
            old(self)@.wf() ==> final(self)@.wf(),
    {
        self.phase = Phase::Closed;
        self.respond(Vec::new())
    }

    /// Tells the session how the relay attempt ended. Either way the
    /// transaction is reset and the session waits for the next command.
    pub fn on_relay_result(&mut self, delivered: bool) -> (r: Response)
        ensures
            r.realizes(final(self)@, step(old(self)@, Event::Relayed(delivered))),
            old(self)@.wf() ==> final(self)@.wf(),
    {
        match self.phase {
            Phase::Relaying => {
                self.transaction = Transaction::new();
                self.phase = Phase::Command;
                if delivered {
                    self.respond(vec![Reply::Queued])
                } else {
                    self.respond(vec![Reply::RelayFailed])
                }
            },
            _ => self.respond(Vec::new()),
        }
    }
}

/// Every transition keeps the invariant of the session.
pub proof fn lemma_step_preserves_wf(s: SessionView, event: Event)
    requires
        s.wf(),
    ensures
        step(s, event).state.wf(),
{
}

/// The session after a sequence of events, with every reply written on the
/// way and the directive the last event left.
pub open spec fn run(s: SessionView, events: Seq<Event>) -> Step
    decreases events.len(),
{
    if events.len() == 0 {
        s.stay()
    } else {
        let before = run(s, events.drop_last());
        let last = step(before.state, events.last());
        Step {
            state: last.state,
            replies: before.replies + last.replies,
            directive: last.directive,
        }
    }
}

/// The events of reading the given lines one after another.
pub open spec fn line_events(lines: Seq<Seq<char>>) -> Seq<Event> {
    lines.map_values(|l: Seq<char>| Event::Line(l))
}

/// The bytes of the given body lines as they are stored.
pub open spec fn stored_bytes(lines: Seq<Seq<char>>) -> Seq<u8>
    decreases lines.len(),
{
    if lines.len() == 0 {
        Seq::empty()
    } else {
        stored_bytes(lines.drop_last()) + encode_utf8(unstuffed(lines.last()))
    }
}

/// The number of bytes the given body lines occupy once stored.
pub open spec fn stored_len(lines: Seq<Seq<char>>) -> nat {
    stored_bytes(lines).len()
}

/// A recipient named before any sender is refused with 503, and the session
/// is left exactly as it was.
pub proof fn lemma_recipient_before_sender(s: SessionView, line: Seq<char>)
    requires
        s.phase == Phase::Command,
        s.transaction.from is None,
        verb_of(line) == Verb::RcptTo,
    ensures
        step(s, Event::Line(line)).state == s,
        step(s, Event::Line(line)).replies == seq![Reply::BadSequence],
        step(s, Event::Line(line)).directive == Directive::ReadLine,
        Reply::BadSequence.code_of() == 503,
{
}

/// DATA without a recipient is refused with 503, and the session is left
/// exactly as it was.
pub proof fn lemma_data_without_recipient(s: SessionView, line: Seq<char>)
    requires
        s.phase == Phase::Command,
        s.transaction.recipients.len() == 0,
        verb_of(line) == Verb::Data,
    ensures
        step(s, Event::Line(line)).state == s,
        step(s, Event::Line(line)).replies == seq![Reply::BadSequence],
        step(s, Event::Line(line)).directive == Directive::ReadLine,
        Reply::BadSequence.code_of() == 503,
{
}

/// DATA is accepted, with 354, exactly when a sender and at least one
/// recipient are known.
pub proof fn lemma_data_needs_recipient(s: SessionView, line: Seq<char>)
    requires
        s.wf(),
        s.phase == Phase::Command,
        verb_of(line) == Verb::Data,
    ensures
        step(s, Event::Line(line)).state.phase == Phase::Data <==> s.transaction.recipients.len()
            > 0,
        step(s, Event::Line(line)).replies == seq![
            if s.transaction.recipients.len() > 0 {
                Reply::StartData
            } else {
                Reply::BadSequence
            },
        ],
        Reply::StartData.code_of() == 354,
{
}

/// A body line is handled by its content: the line of a single dot ends
/// the body and is not stored, whatever the limit; a line that begins
/// with a dot is stored without that dot; any other line is stored as it
/// is. A line other than the one that ends the body is stored if, with
/// it, the buffer stays within the limit.
pub proof fn lemma_body_line(s: SessionView, line: Seq<char>)
    requires
        s.phase == Phase::Data,
    ensures
        line == end_of_data() ==> step(s, Event::Line(line)) == s.in_phase(Phase::Relaying).stay()
            && step(s, Event::Line(line)).directive == Directive::Relay,
        line != end_of_data() && s.transaction.data.len() + encode_utf8(unstuffed(line)).len()
            <= s.max_email_size ==> {
            &&& step(s, Event::Line(line)).replies == Seq::<Reply>::empty()
            &&& step(s, Event::Line(line)).state.phase == Phase::Data
            &&& step(s, Event::Line(line)).directive == Directive::ReadLineWithTimeout
            &&& step(s, Event::Line(line)).state.transaction.data == s.transaction.data
                + encode_utf8(unstuffed(line))
        },
        line.len() > 0 && line[0] == '.' ==> unstuffed(line) == line.drop_first(),
        !(line.len() > 0 && line[0] == '.') ==> unstuffed(line) == line,
{
}

/// A body line that would bring the buffer over the limit is refused with
/// 552, and the session is closed.
pub proof fn lemma_body_line_too_large(s: SessionView, line: Seq<char>)
    requires
        s.phase == Phase::Data,
        line != end_of_data(),
        s.transaction.data.len() + encode_utf8(unstuffed(line)).len() > s.max_email_size,
    ensures
        step(s, Event::Line(line)).state == s.in_phase(Phase::Closed),
        step(s, Event::Line(line)).replies == seq![Reply::TooLarge],
        step(s, Event::Line(line)).directive == Directive::Close,
        Reply::TooLarge.code_of() == 552,
{
}

/// Once a session is closed, no event changes it or draws a reply.
pub proof fn lemma_closed_is_final(s: SessionView, events: Seq<Event>)
    requires
        s.phase == Phase::Closed,
    ensures
        run(s, events).state == s,
        run(s, events).replies == Seq::<Reply>::empty(),
        run(s, events).directive == Directive::Close,
    decreases events.len(),
{
    if events.len() > 0 {
        lemma_closed_is_final(s, events.drop_last());
        assert(run(s, events).replies =~= Seq::<Reply>::empty());
    }
}

/// Running two sequences of events one after the other is running their
/// concatenation.
pub proof fn lemma_run_concat(s: SessionView, first: Seq<Event>, second: Seq<Event>)
    ensures
        run(s, first + second).state == run(run(s, first).state, second).state,
        run(s, first + second).replies == run(s, first).replies + run(
            run(s, first).state,
            second,
        ).replies,
        second.len() > 0 ==> run(s, first + second).directive == run(
            run(s, first).state,
            second,
        ).directive,
    decreases second.len(),
{
    if second.len() == 0 {
        assert(first + second =~= first);
        assert(run(s, first).replies + Seq::<Reply>::empty() =~= run(s, first).replies);
    } else {
        assert((first + second).drop_last() =~= first + second.drop_last());
        assert((first + second).last() == second.last());
        lemma_run_concat(s, first, second.drop_last());
        let mid = run(s, first).state;
        let a = run(s, first).replies;
        let b = run(mid, second.drop_last()).replies;
        let c = step(run(mid, second.drop_last()).state, second.last()).replies;
        assert((a + b) + c =~= a + (b + c));
    }
}

/// While body lines fit and none ends the body, they accumulate: the
/// session stays in the data phase and holds as many more bytes as the
/// lines take once stored; as soon as one does not fit, the session is
/// closed with the single reply 552.
proof fn lemma_body_progress(s: SessionView, lines: Seq<Seq<char>>)
    requires
        s.phase == Phase::Data,
        s.transaction.data.len() <= s.max_email_size,
        forall|i: int| 0 <= i < lines.len() ==> lines[i] != end_of_data(),
    ensures
        ({
            let r = run(s, line_events(lines));
            ||| (r.state.phase == Phase::Data && r.replies == Seq::<Reply>::empty()
                && r.state.max_email_size == s.max_email_size && r.state.transaction.data.len()
                == s.transaction.data.len() + stored_len(lines) && r.state.transaction.data.len()
                <= s.max_email_size)
            ||| (r.state.phase == Phase::Closed && r.replies == seq![Reply::TooLarge]
                && r.directive == Directive::Close)
        }),
    decreases lines.len(),
{
    let events = line_events(lines);
    if lines.len() > 0 {
        let init = lines.drop_last();
        assert(events.drop_last() =~= line_events(init));
        assert(events.last() == Event::Line(lines.last()));
        lemma_body_progress(s, init);
        let before = run(s, line_events(init));
        let last = step(before.state, events.last());
        if before.state.phase == Phase::Data {
            assert(before.replies + last.replies =~= last.replies);
        } else {
            assert(before.replies + last.replies =~= before.replies);
        }
    }
}

/// A body that outgrows the size limit is refused with 552 and the session
/// is closed: if the lines up to some point hold no end-of-body line and,
/// once stored, would bring the buffer over the limit, then after all the
/// lines the session is closed, 552 is the only reply written, and nothing
/// that follows is read as a command.
pub proof fn lemma_oversized_body(s: SessionView, lines: Seq<Seq<char>>, k: int)
    requires
        s.wf(),
        s.phase == Phase::Data,
        0 <= k <= lines.len(),
        forall|i: int| 0 <= i < k ==> lines[i] != end_of_data(),
        s.transaction.data.len() + stored_len(lines.take(k)) > s.max_email_size,
    ensures
        run(s, line_events(lines)).state.phase == Phase::Closed,
        run(s, line_events(lines)).replies == seq![Reply::TooLarge],
        run(s, line_events(lines)).directive == Directive::Close,
        Reply::TooLarge.code_of() == 552,
{
    let head = lines.take(k);
    let tail = lines.skip(k);
    lemma_body_progress(s, head);
    let mid = run(s, line_events(head));
    assert(line_events(lines) =~= line_events(head) + line_events(tail));
    lemma_run_concat(s, line_events(head), line_events(tail));
    lemma_closed_is_final(mid.state, line_events(tail));
    assert(mid.replies + Seq::<Reply>::empty() =~= mid.replies);
    if tail.len() == 0 {
        assert(line_events(head) + line_events(tail) =~= line_events(head));
    }
}

/// HELO, EHLO and RSET discard the pending sender and recipients, whatever
/// they were: a RCPT TO that follows is refused with 503.
pub proof fn lemma_reset_discards_transaction(
    s: SessionView,
    reset_line: Seq<char>,
    rcpt_line: Seq<char>,
)
    requires
        s.phase == Phase::Command,
        verb_of(reset_line) == Verb::Helo || verb_of(reset_line) == Verb::Ehlo || verb_of(
            reset_line,
        ) == Verb::Rset,
        verb_of(rcpt_line) == Verb::RcptTo,
    ensures
        step(s, Event::Line(reset_line)).state == s.with_transaction(TransactionView::empty()),
        run(s, seq![Event::Line(reset_line), Event::Line(rcpt_line)]).state == s.with_transaction(
            TransactionView::empty(),
        ),
        step(step(s, Event::Line(reset_line)).state, Event::Line(rcpt_line)).replies == seq![
            Reply::BadSequence,
        ],
        Reply::BadSequence.code_of() == 503,
{
    let events = seq![Event::Line(reset_line), Event::Line(rcpt_line)];
    assert(events.drop_last() =~= seq![Event::Line(reset_line)]);
    assert(events.drop_last().drop_last() =~= Seq::<Event>::empty());
    reveal_with_fuel(run, 3);
}


/// The end of a relay attempt, successful or not, leaves an empty
/// transaction and a session that waits for the next command; the reply is
/// 250 after success and 451 after failure.
pub proof fn lemma_relay_result_resets(s: SessionView, delivered: bool)
    requires
        s.phase == Phase::Relaying,
    ensures
        step(s, Event::Relayed(delivered)).state == s.with_transaction(
            TransactionView::empty(),
        ).in_phase(Phase::Command),
        step(s, Event::Relayed(delivered)).replies == seq![
            if delivered {
                Reply::Queued
            } else {
                Reply::RelayFailed
            },
        ],
        Reply::Queued.code_of() == 250,
        Reply::RelayFailed.code_of() == 451,
{
}

/// Whatever happens on a connection, the invariant of the session holds
/// after it: in particular, the buffered data never exceeds the limit.
pub proof fn lemma_invariant_always_holds(
    server_name: Seq<char>,
    max_email_size: nat,
    events: Seq<Event>,
)
    ensures
        run(SessionView::initial(server_name, max_email_size), events).state.wf(),
        run(
            SessionView::initial(server_name, max_email_size),
            events,
        ).state.transaction.data.len() <= max_email_size,
    decreases events.len(),
{
    let initial = SessionView::initial(server_name, max_email_size);
    if events.len() > 0 {
        lemma_invariant_always_holds(server_name, max_email_size, events.drop_last());
        lemma_step_preserves_wf(run(initial, events.drop_last()).state, events.last());
        lemma_limit_is_kept(initial, events);
    }
}

/// No event changes the size limit or the name of the server.
pub proof fn lemma_limit_is_kept(s: SessionView, events: Seq<Event>)
    ensures
        run(s, events).state.max_email_size == s.max_email_size,
        run(s, events).state.server_name == s.server_name,
    decreases events.len(),
{
    if events.len() > 0 {
        lemma_limit_is_kept(s, events.drop_last());
    }
}


/// AUTH PLAIN always succeeds, and the credentials are not looked at.
/// With the credentials on the same line it is answered with 235 at once.
/// Alone it is answered with 334, and whatever line comes next is taken
/// for the credentials and answered with 235. Either way the transaction
/// is left as it was and the session waits for the next command.
pub proof fn lemma_auth_plain_succeeds(s: SessionView, line: Seq<char>, next: Seq<char>)
    requires
        s.phase == Phase::Command,
    ensures
        verb_of(line) == Verb::AuthPlainInline ==> step(s, Event::Line(line)).state == s && step(
            s,
            Event::Line(line),
        ).replies == seq![Reply::AuthSucceeded],
        verb_of(line) == Verb::AuthPlain ==> {
            &&& step(s, Event::Line(line)).replies == seq![Reply::AuthChallenge]
            &&& step(s, Event::Line(line)).directive == Directive::ReadLine
            &&& step(step(s, Event::Line(line)).state, Event::Line(next)).state == s
            &&& step(step(s, Event::Line(line)).state, Event::Line(next)).replies == seq![
                Reply::AuthSucceeded,
            ]
        },
        Reply::AuthChallenge.code_of() == 334,
        Reply::AuthSucceeded.code_of() == 235,
{
}

/// Only a mechanism other than PLAIN is refused with 504.
pub proof fn lemma_other_auth_is_refused(s: SessionView, line: Seq<char>)
    requires
        s.phase == Phase::Command,
        verb_of(line) == Verb::AuthOther,
    ensures
        step(s, Event::Line(line)).state == s,
        step(s, Event::Line(line)).replies == seq![Reply::AuthUnrecognized],
        Reply::AuthUnrecognized.code_of() == 504,
        !has_prefix(to_ascii_upper(trim(line)), "AUTH PLAIN "@),
        to_ascii_upper(trim(line)) != "AUTH PLAIN"@,
{
}

} // verus!
