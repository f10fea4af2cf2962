use acs_smtp_relay::error::{NetworkError, SmtpRelayError};
use acs_smtp_relay::relay::{relay_transaction, Mailer};
use acs_smtp_relay::session::{
    parse_command, Directive, Phase, Reply, Response, Session, Verb, DATA_IDLE_TIMEOUT_SECS,
};
use std::cell::RefCell;

struct Recorder {
    calls: RefCell<Vec<(Vec<u8>, Vec<String>, Option<String>)>>,
    succeed: bool,
}

impl Recorder {
    fn new(succeed: bool) -> Recorder {
        Recorder { calls: RefCell::new(Vec::new()), succeed }
    }
}

impl Mailer for Recorder {
    fn send(
        &self,
        raw_email: &[u8],
        recipients: &[String],
        from: &Option<String>,
    ) -> Result<(), SmtpRelayError> {
        self.calls.borrow_mut().push((raw_email.to_vec(), recipients.to_vec(), from.clone()));
        if self.succeed {
            Ok(())
        } else {
            Err(SmtpRelayError::Network(NetworkError::Timeout))
        }
    }
}

fn codes(response: &Response) -> Vec<u16> {
    response.replies.iter().map(|r| r.code()).collect()
}

fn session(max: usize) -> Session {
    Session::new("acs.local".to_string(), max)
}

fn in_data_phase(max: usize) -> Session {
    let mut s = session(max);
    s.on_line("MAIL FROM:<from@example.com>\r\n");
    s.on_line("RCPT TO:<to@example.com>\r\n");
    let r = s.on_line("DATA\r\n");
    assert_eq!(r.replies, vec![Reply::StartData]);
    s
}

#[test]
fn complete_delivery_replies_in_order() {
    let mailer = Recorder::new(true);
    let mut s = session(10_000_000);
    let mut seen = vec![Reply::Greeting.code()];
    seen.extend(codes(&s.on_line("HELO client.example.com\r\n")));
    seen.extend(codes(&s.on_line("MAIL FROM:<from@example.com>\r\n")));
    seen.extend(codes(&s.on_line("RCPT TO:<to@example.com>\r\n")));
    seen.extend(codes(&s.on_line("DATA\r\n")));
    seen.extend(codes(&s.on_line("Subject: Test\r\n")));
    seen.extend(codes(&s.on_line("\r\n")));
    seen.extend(codes(&s.on_line("Hello world\r\n")));
    let end = s.on_line(".\r\n");
    assert_eq!(end.directive, Directive::Relay);
    seen.extend(codes(&end));
    seen.extend(codes(&relay_transaction(&mut s, &mailer)));
    let bye = s.on_line("QUIT\r\n");
    assert_eq!(bye.directive, Directive::Close);
    seen.extend(codes(&bye));
    assert_eq!(seen, vec![220, 250, 250, 250, 354, 250, 221]);
    let calls = mailer.calls.borrow();
    assert_eq!(calls.len(), 1);
    assert_eq!(calls[0].0, b"Subject: Test\r\n\r\nHello world\r\n".to_vec());
    assert_eq!(calls[0].1, vec!["to@example.com".to_string()]);
    assert_eq!(calls[0].2, Some("from@example.com".to_string()));
}

#[test]
fn delivery_with_several_recipients() {
    let mut s = session(1000);
    s.on_line("EHLO x\r\n");
    s.on_line("MAIL FROM:<a@x.org>\r\n");
    assert_eq!(codes(&s.on_line("RCPT TO:<b@x.org>\r\n")), vec![250]);
    assert_eq!(codes(&s.on_line("RCPT TO: c@x.org \r\n")), vec![250]);
    assert_eq!(codes(&s.on_line("rcpt to:<<d@x.org>>")), vec![250]);
    assert_eq!(
        s.transaction().recipients,
        vec!["b@x.org".to_string(), "c@x.org".to_string(), "d@x.org".to_string()]
    );
    assert_eq!(codes(&s.on_line("DATA\r\n")), vec![354]);
}

#[test]
fn recipient_before_sender_is_refused() {
    let mut s = session(1000);
    let r = s.on_line("RCPT TO:<to@example.com>\r\n");
    assert_eq!(r.replies, vec![Reply::BadSequence]);
    assert_eq!(codes(&r), vec![503]);
    assert_eq!(r.directive, Directive::ReadLine);
    assert_eq!(s.phase(), Phase::Command);
    assert_eq!(s.transaction().from, None);
    assert!(s.transaction().recipients.is_empty());
    assert!(s.transaction().data.is_empty());
}

#[test]
fn data_without_recipients_is_refused() {
    let mut s = session(1000);
    assert_eq!(codes(&s.on_line("DATA\r\n")), vec![503]);
    assert_eq!(s.phase(), Phase::Command);
    s.on_line("MAIL FROM:<from@example.com>\r\n");
    let r = s.on_line("DATA\r\n");
    assert_eq!(codes(&r), vec![503]);
    assert_eq!(r.directive, Directive::ReadLine);
    assert_eq!(s.phase(), Phase::Command);
    assert_eq!(s.transaction().from, Some("from@example.com".to_string()));
}

#[test]
fn body_lines_are_unstuffed() {
    let mut s = in_data_phase(1000);
    let r = s.on_line(".foo\r\n");
    assert!(r.replies.is_empty());
    assert_eq!(r.directive, Directive::ReadLineWithTimeout);
    assert_eq!(s.transaction().data, b"foo\r\n".to_vec());
    s.on_line("foo\r\n");
    assert_eq!(s.transaction().data, b"foo\r\nfoo\r\n".to_vec());
    s.on_line("..\r\n");
    assert_eq!(s.transaction().data, b"foo\r\nfoo\r\n.\r\n".to_vec());
    s.on_line(".\n");
    assert_eq!(s.transaction().data, b"foo\r\nfoo\r\n.\r\n\n".to_vec());
    s.on_line(".");
    assert_eq!(s.transaction().data, b"foo\r\nfoo\r\n.\r\n\n".to_vec());
    s.on_line("\u{e9}.\r\n");
    assert_eq!(s.transaction().data, b"foo\r\nfoo\r\n.\r\n\n\xc3\xa9.\r\n".to_vec());
    assert_eq!(s.phase(), Phase::Data);
    let r = s.on_line(".\r\n");
    assert!(r.replies.is_empty());
    assert_eq!(r.directive, Directive::Relay);
    assert_eq!(s.phase(), Phase::Relaying);
    assert_eq!(s.transaction().data, b"foo\r\nfoo\r\n.\r\n\n\xc3\xa9.\r\n".to_vec());
}

#[test]
fn commands_are_body_while_data_is_read() {
    let mut s = in_data_phase(1000);
    let r = s.on_line("QUIT\r\n");
    assert!(r.replies.is_empty());
    assert_eq!(s.phase(), Phase::Data);
    assert_eq!(s.transaction().data, b"QUIT\r\n".to_vec());
}

#[test]
fn test_email_size_limit_enforced() {
    let mailer = Recorder::new(true);
    let max_email_size = 100;
    let mut s = Session::new("acs.local".to_string(), max_email_size);
    s.on_line("EHLO test.example.com\r\n");
    s.on_line("MAIL FROM:<from@example.com>\r\n");
    s.on_line("RCPT TO:<to@example.com>\r\n");
    s.on_line("DATA\r\n");
    let big_body = vec![b'a'; 200];
    let mut line = String::from_utf8(big_body).unwrap();
    line.push_str(".\r\n");
    let r = s.on_line(&line);
    let response: String = r.replies.iter().map(|reply| s.render(*reply)).collect();
    assert!(response.contains("552"), "Expected 552 error, got: {response}");
    assert_eq!(r.directive, Directive::Close);
    relay_transaction(&mut s, &mailer);
    assert!(mailer.calls.borrow().is_empty());
}

#[test]
fn oversized_body_closes_the_session() {
    let mut s = in_data_phase(10);
    assert!(s.on_line("12345\r\n").replies.is_empty());
    assert_eq!(s.transaction().data.len(), 7);
    let r = s.on_line("abc\r\n");
    assert_eq!(r.replies, vec![Reply::TooLarge]);
    assert_eq!(codes(&r), vec![552]);
    assert_eq!(r.directive, Directive::Close);
    assert_eq!(s.phase(), Phase::Closed);
    let r = s.on_line("QUIT\r\n");
    assert!(r.replies.is_empty());
    assert_eq!(r.directive, Directive::Close);
    let r = s.on_line(".\r\n");
    assert!(r.replies.is_empty());
    assert_eq!(s.phase(), Phase::Closed);
}

#[test]
fn size_limit_counts_what_is_stored() {
    let mut s = in_data_phase(10);
    assert!(s.on_line("12345678\r\n").replies.is_empty());
    assert_eq!(s.transaction().data.len(), 10);
    let r = s.on_line(".\r\n");
    assert!(r.replies.is_empty());
    assert_eq!(r.directive, Directive::Relay);
    assert_eq!(s.transaction().data, b"12345678\r\n".to_vec());

    let mut s = in_data_phase(10);
    assert!(s.on_line("12345678\r\n").replies.is_empty());
    assert_eq!(s.on_line("\n").replies, vec![Reply::TooLarge]);

    let mut s = in_data_phase(7);
    assert!(s.on_line(".12345\r\n").replies.is_empty());
    assert_eq!(s.transaction().data, b"12345\r\n".to_vec());
    assert_eq!(s.on_line(".x").replies, vec![Reply::TooLarge]);

    let mut s = in_data_phase(6);
    assert_eq!(s.on_line(".12345\r\n").replies, vec![Reply::TooLarge]);
    assert_eq!(s.phase(), Phase::Closed);

    let mut s = in_data_phase(0);
    assert!(s.on_line(".").replies.is_empty());
    assert_eq!(s.on_line(".\r\n").directive, Directive::Relay);

    let mut s = in_data_phase(0);
    assert_eq!(s.on_line("\n").replies, vec![Reply::TooLarge]);
}

#[test]
fn body_of_exactly_the_limit_is_relayed() {
    let mailer = Recorder::new(true);
    let mut s = session(7);
    assert_eq!(codes(&s.on_line("HELO c\r\n")), vec![250]);
    assert_eq!(codes(&s.on_line("MAIL FROM:<a@x.com>\r\n")), vec![250]);
    assert_eq!(codes(&s.on_line("RCPT TO:<b@y.com>\r\n")), vec![250]);
    assert_eq!(codes(&s.on_line("DATA\r\n")), vec![354]);
    assert!(s.on_line("hello\r\n").replies.is_empty());
    let end = s.on_line(".\r\n");
    assert!(end.replies.is_empty());
    assert_eq!(end.directive, Directive::Relay);
    let r = relay_transaction(&mut s, &mailer);
    assert_eq!(codes(&r), vec![250]);
    let calls = mailer.calls.borrow();
    assert_eq!(calls.len(), 1);
    assert_eq!(calls[0].0, b"hello\r\n".to_vec());
}

#[test]
fn reset_commands_clear_the_transaction() {
    for reset in ["HELO x\r\n", "EHLO x\r\n", "RSET\r\n"] {
        let mut s = session(1000);
        s.on_line("MAIL FROM:<from@example.com>\r\n");
        s.on_line("RCPT TO:<to@example.com>\r\n");
        let r = s.on_line(reset);
        assert_eq!(r.replies[0].code(), 250);
        assert_eq!(s.transaction().from, None);
        assert!(s.transaction().recipients.is_empty());
        assert_eq!(codes(&s.on_line("RCPT TO:<to@example.com>\r\n")), vec![503]);
        assert_eq!(codes(&s.on_line("DATA\r\n")), vec![503]);
    }
}

#[test]
fn repeated_mail_from_discards_recipients() {
    let mut s = session(1000);
    s.on_line("MAIL FROM:<a@x.org>\r\n");
    s.on_line("RCPT TO:<b@x.org>\r\n");
    assert_eq!(codes(&s.on_line("MAIL FROM:<c@x.org>\r\n")), vec![250]);
    assert_eq!(s.transaction().from, Some("c@x.org".to_string()));
    assert!(s.transaction().recipients.is_empty());
    assert_eq!(codes(&s.on_line("DATA\r\n")), vec![503]);
}

#[test]
fn ehlo_answers_with_two_lines() {
    let mut s = session(1000);
    let r = s.on_line("EHLO client.example.com\r\n");
    assert_eq!(r.replies, vec![Reply::AcceptedContinued, Reply::AuthMechanisms]);
    assert_eq!(s.render(r.replies[0]), "250-OK\r\n");
    assert_eq!(s.render(r.replies[1]), "250 AUTH PLAIN\r\n");
    let r = s.on_line("HELO client.example.com\r\n");
    assert_eq!(r.replies, vec![Reply::Accepted]);
    assert_eq!(s.render(r.replies[0]), "250 OK\r\n");
}

#[test]
fn auth_plain_consumes_one_line() {
    let mut s = session(1000);
    let r = s.on_line("AUTH PLAIN\r\n");
    assert_eq!(codes(&r), vec![334]);
    assert_eq!(r.directive, Directive::ReadLine);
    assert_eq!(s.phase(), Phase::AuthContinuation);
    let r = s.on_line("QUIT\r\n");
    assert_eq!(codes(&r), vec![235]);
    assert_eq!(s.phase(), Phase::Command);
    assert_eq!(codes(&s.on_line("QUIT\r\n")), vec![221]);
}

#[test]
fn auth_keeps_the_transaction() {
    let mut s = session(1000);
    s.on_line("MAIL FROM:<a@x.org>\r\n");
    s.on_line("auth plain\r\n");
    s.on_line("AGFiYwBkZWY=\r\n");
    assert_eq!(s.transaction().from, Some("a@x.org".to_string()));
    assert_eq!(codes(&s.on_line("RCPT TO:<b@x.org>\r\n")), vec![250]);
}

#[test]
fn other_auth_mechanisms_are_refused() {
    let mut s = session(1000);
    assert_eq!(codes(&s.on_line("AUTH LOGIN\r\n")), vec![504]);
    assert_eq!(codes(&s.on_line("AUTH PLAINTEXT\r\n")), vec![504]);
    assert_eq!(codes(&s.on_line("AUTH\r\n")), vec![504]);
    assert_eq!(codes(&s.on_line("AUTH  PLAIN\r\n")), vec![504]);
    assert_eq!(s.phase(), Phase::Command);
}

#[test]
fn auth_plain_with_credentials_succeeds_at_once() {
    let mut s = session(1000);
    s.on_line("MAIL FROM:<a@x.org>\r\n");
    let r = s.on_line("AUTH PLAIN dGVzdAB0ZXN0AHRlc3Q=\r\n");
    assert_eq!(r.replies, vec![Reply::AuthSucceeded]);
    assert_eq!(codes(&r), vec![235]);
    assert_eq!(r.directive, Directive::ReadLine);
    assert_eq!(s.phase(), Phase::Command);
    assert_eq!(s.transaction().from, Some("a@x.org".to_string()));
    assert_eq!(codes(&s.on_line("auth plain anything at all\r\n")), vec![235]);
    assert_eq!(codes(&s.on_line("RCPT TO:<b@x.org>\r\n")), vec![250]);
}

#[test]
fn test_smtp_auth_flow() {
    let mailer = Recorder::new(true);
    let mut s = Session::new("acs.local".to_string(), 10_000_000);
    let line_buf = s.render(Reply::Greeting);
    assert!(line_buf.starts_with("220"));

    let r = s.on_line("EHLO client.example.com\r\n");
    assert_eq!(r.replies.len(), 2);
    assert!(s.render(r.replies[0]).starts_with("250-"));
    assert!(s.render(r.replies[1]).starts_with("250 "));

    let r = s.on_line("AUTH PLAIN dGVzdAB0ZXN0AHRlc3Q=\r\n");
    assert_eq!(r.replies.len(), 1);
    assert!(s.render(r.replies[0]).starts_with("235"));

    let r = s.on_line("QUIT\r\n");
    assert_eq!(r.replies.len(), 1);
    assert!(s.render(r.replies[0]).starts_with("221"));
    relay_transaction(&mut s, &mailer);
    assert!(mailer.calls.borrow().is_empty());
}

#[test]
fn unknown_commands_are_rejected() {
    let mut s = session(1000);
    for line in ["NOOP\r\n", "VRFY x\r\n", "\r\n", "DATA now\r\n", "QUIT now\r\n", "MAIL\r\n"] {
        let r = s.on_line(line);
        assert_eq!(r.replies, vec![Reply::Unrecognized], "{line}");
        assert_eq!(codes(&r), vec![500]);
        assert_eq!(r.directive, Directive::ReadLine);
    }
}

#[test]
fn quit_ends_the_session() {
    let mut s = session(1000);
    let r = s.on_line("quit\r\n");
    assert_eq!(r.replies, vec![Reply::Closing]);
    assert_eq!(r.directive, Directive::Close);
    assert_eq!(s.phase(), Phase::Closed);
    assert_eq!(s.render(Reply::Closing), "221 Bye\r\n");
}

#[test]
fn disconnect_and_timeout_end_the_session_silently() {
    let mut s = session(1000);
    let r = s.on_disconnect();
    assert!(r.replies.is_empty());
    assert_eq!(r.directive, Directive::Close);
    assert_eq!(s.phase(), Phase::Closed);

    let mut s = in_data_phase(1000);
    let r = s.on_timeout();
    assert!(r.replies.is_empty());
    assert_eq!(r.directive, Directive::Close);
    assert_eq!(s.phase(), Phase::Closed);

    let mut s = session(1000);
    s.on_line("AUTH PLAIN\r\n");
    let r = s.on_disconnect();
    assert!(r.replies.is_empty());
    assert_eq!(s.phase(), Phase::Closed);
    assert_eq!(DATA_IDLE_TIMEOUT_SECS, 300);
}

#[test]
fn relay_failure_is_reported_once() {
    let mailer = Recorder::new(false);
    let mut s = in_data_phase(1000);
    s.on_line("x\r\n");
    s.on_line(".\r\n");
    let r = relay_transaction(&mut s, &mailer);
    assert_eq!(r.replies, vec![Reply::RelayFailed]);
    assert_eq!(codes(&r), vec![451]);
    assert_eq!(r.directive, Directive::ReadLine);
    assert_eq!(mailer.calls.borrow().len(), 1);
    assert_eq!(s.phase(), Phase::Command);
    assert_eq!(s.transaction().from, None);
    assert!(s.transaction().recipients.is_empty());
    assert!(s.transaction().data.is_empty());
    assert_eq!(codes(&s.on_line("RCPT TO:<to@example.com>\r\n")), vec![503]);
}

#[test]
fn relay_result_resets_the_transaction() {
    let mut s = in_data_phase(1000);
    s.on_line("x\r\n");
    s.on_line(".\r\n");
    let r = s.on_relay_result(true);
    assert_eq!(r.replies, vec![Reply::Queued]);
    assert_eq!(s.render(Reply::Queued), "250 OK: Queued for delivery\r\n");
    assert_eq!(s.phase(), Phase::Command);
    assert!(s.transaction().data.is_empty());
    assert_eq!(s.transaction().from, None);
}

#[test]
fn events_that_do_not_fit_are_ignored() {
    let mailer = Recorder::new(true);
    let mut s = session(1000);
    let r = s.on_relay_result(true);
    assert!(r.replies.is_empty());
    assert_eq!(r.directive, Directive::ReadLine);
    let r = relay_transaction(&mut s, &mailer);
    assert!(r.replies.is_empty());
    assert!(mailer.calls.borrow().is_empty());

    let mut s = in_data_phase(1000);
    s.on_line(".\r\n");
    let r = s.on_line("MAIL FROM:<x@y.z>\r\n");
    assert!(r.replies.is_empty());
    assert_eq!(r.directive, Directive::Relay);
    assert_eq!(s.phase(), Phase::Relaying);
    assert_eq!(s.transaction().from, Some("from@example.com".to_string()));
}

#[test]
fn commands_ignore_case_and_surrounding_space() {
    assert_eq!(parse_command("  mail from: <A@b.c>  \r\n"), (Verb::MailFrom, "A@b.c".to_string()));
    assert_eq!(parse_command("Rcpt To:<x@y>"), (Verb::RcptTo, "x@y".to_string()));
    assert_eq!(parse_command("MAIL FROM:<>\r\n"), (Verb::MailFrom, "".to_string()));
    assert_eq!(parse_command("MAIL FROM:\r\n"), (Verb::MailFrom, "".to_string()));
    assert_eq!(parse_command("ehlo\r\n").0, Verb::Ehlo);
    assert_eq!(parse_command("EHLOx\r\n").0, Verb::Ehlo);
    assert_eq!(parse_command("helo there\r\n").0, Verb::Helo);
    assert_eq!(parse_command("\tdata \r\n").0, Verb::Data);
    assert_eq!(parse_command("data.\r\n").0, Verb::Unknown);
    assert_eq!(parse_command("rset\r\n").0, Verb::Rset);
    assert_eq!(parse_command("Auth Plain\r\n").0, Verb::AuthPlain);
    assert_eq!(parse_command("Auth Plain AGEAYg==\r\n").0, Verb::AuthPlainInline);
    assert_eq!(parse_command("AUTH PLAIN \r\n").0, Verb::AuthPlain);
    assert_eq!(parse_command("AUTH PLAINX\r\n").0, Verb::AuthOther);
    assert_eq!(parse_command("AUTHENTICATE\r\n").0, Verb::AuthOther);
    assert_eq!(parse_command("ma\u{131}l from:<a@b>\r\n").0, Verb::Unknown);
    assert_eq!(parse_command("").0, Verb::Unknown);
}

#[test]
fn replies_as_lines() {
    let s = session(1000);
    assert_eq!(s.render(Reply::Greeting), "220 acs.local ESMTP ready\r\n");
    assert_eq!(s.render(Reply::AuthChallenge), "334 \r\n");
    assert_eq!(s.render(Reply::AuthSucceeded), "235 Authentication successful\r\n");
    assert_eq!(s.render(Reply::AuthUnrecognized), "504 Unrecognized authentication type\r\n");
    assert_eq!(s.render(Reply::BadSequence), "503 Bad sequence of commands\r\n");
    assert_eq!(s.render(Reply::StartData), "354 End data with <CR><LF>.<CR><LF>\r\n");
    assert_eq!(
        s.render(Reply::RelayFailed),
        "451 Failed to relay email to Azure Communication Services\r\n"
    );
    assert_eq!(
        s.render(Reply::TooLarge),
        "552 Requested mail action aborted: exceeded storage allocation\r\n"
    );
    assert_eq!(s.render(Reply::Unrecognized), "500 Syntax error, command unrecognized\r\n");
    assert_eq!(Reply::Greeting.text("mx"), "mx ESMTP ready");
    assert_eq!(Reply::Accepted.line("mx"), "250 OK\r\n");
}

#[test]
fn a_new_session_waits_for_a_command() {
    let s = session(42);
    assert_eq!(s.phase(), Phase::Command);
    assert_eq!(s.directive(), Directive::ReadLine);
    assert_eq!(s.max_email_size(), 42);
    assert_eq!(s.server_name(), "acs.local");
    assert_eq!(s.transaction().from, None);
    assert!(s.transaction().recipients.is_empty());
    assert!(s.transaction().data.is_empty());
}

#[test]
fn second_transaction_after_delivery() {
    let mailer = Recorder::new(true);
    let mut s = session(1000);
    for n in 0..2 {
        s.on_line("MAIL FROM:<from@example.com>\r\n");
        s.on_line("RCPT TO:<to@example.com>\r\n");
        s.on_line("DATA\r\n");
        s.on_line("body\r\n");
        s.on_line(".\r\n");
        assert_eq!(relay_transaction(&mut s, &mailer).replies, vec![Reply::Queued]);
        assert_eq!(mailer.calls.borrow().len(), n + 1);
        assert_eq!(mailer.calls.borrow()[n].0, b"body\r\n".to_vec());
    }
}
