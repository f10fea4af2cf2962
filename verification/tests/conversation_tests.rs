use acs_smtp_relay::conversation::serve;
use acs_smtp_relay::error::{NetworkError, SmtpRelayError};
use acs_smtp_relay::relay::Mailer;
use acs_smtp_relay::session::Reply;
use std::cell::RefCell;

struct Script {
    outcomes: RefCell<Vec<bool>>,
    received: RefCell<Vec<(Vec<u8>, Vec<String>, Option<String>)>>,
}

impl Script {
    fn new(outcomes: &[bool]) -> Script {
        Script {
            outcomes: RefCell::new(outcomes.iter().rev().cloned().collect()),
            received: RefCell::new(Vec::new()),
        }
    }
}

impl Mailer for Script {
    fn send(
        &self,
        raw_email: &[u8],
        recipients: &[String],
        from: &Option<String>,
    ) -> Result<(), SmtpRelayError> {
        self.received.borrow_mut().push((raw_email.to_vec(), recipients.to_vec(), from.clone()));
        match self.outcomes.borrow_mut().pop() {
            Some(true) => Ok(()),
            _ => Err(SmtpRelayError::Network(NetworkError::ConnectionLost)),
        }
    }
}

fn lines(text: &[&str]) -> Vec<String> {
    text.iter().map(|l| l.to_string()).collect()
}

fn codes(replies: &[Reply]) -> Vec<u16> {
    replies.iter().map(|r| r.code()).collect()
}

#[test]
fn a_delivery_from_greeting_to_quit() {
    let mailer = Script::new(&[true]);
    let input = lines(&[
        "HELO client.example.com\r\n",
        "MAIL FROM:<from@example.com>\r\n",
        "RCPT TO:<to@example.com>\r\n",
        "DATA\r\n",
        "Subject: Test\r\n",
        "\r\n",
        "Hello world\r\n",
        ".\r\n",
        "QUIT\r\n",
    ]);
    let t = serve("acs.local".to_string(), 10_000_000, &input, &mailer);
    assert_eq!(codes(&t.replies), vec![220, 250, 250, 250, 354, 250, 221]);
    assert_eq!(
        t.replies,
        vec![
            Reply::Greeting,
            Reply::Accepted,
            Reply::Accepted,
            Reply::Accepted,
            Reply::StartData,
            Reply::Queued,
            Reply::Closing
        ]
    );
    assert_eq!(t.relayed, vec![true]);
    let received = mailer.received.borrow();
    assert_eq!(received.len(), 1);
    assert_eq!(received[0].0, b"Subject: Test\r\n\r\nHello world\r\n".to_vec());
    assert_eq!(received[0].1, vec!["to@example.com".to_string()]);
    assert_eq!(received[0].2, Some("from@example.com".to_string()));
}

#[test]
fn an_empty_connection_is_only_greeted() {
    let mailer = Script::new(&[]);
    let t = serve("acs.local".to_string(), 100, &[], &mailer);
    assert_eq!(t.replies, vec![Reply::Greeting]);
    assert!(t.relayed.is_empty());
}

#[test]
fn nothing_is_read_after_quit() {
    let mailer = Script::new(&[]);
    let input = lines(&["QUIT\r\n", "HELO x\r\n", "NOOP\r\n"]);
    let t = serve("acs.local".to_string(), 100, &input, &mailer);
    assert_eq!(codes(&t.replies), vec![220, 221]);
}

#[test]
fn nothing_is_read_after_an_oversized_body() {
    let mailer = Script::new(&[true]);
    let input = lines(&[
        "EHLO x\r\n",
        "MAIL FROM:<a@x.org>\r\n",
        "RCPT TO:<b@x.org>\r\n",
        "DATA\r\n",
        "0123456789\r\n",
        ".\r\n",
        "QUIT\r\n",
    ]);
    let t = serve("acs.local".to_string(), 11, &input, &mailer);
    assert_eq!(codes(&t.replies), vec![220, 250, 250, 250, 250, 354, 552]);
    assert!(t.relayed.is_empty());
    assert!(mailer.received.borrow().is_empty());
}

#[test]
fn a_body_of_exactly_the_limit_is_relayed() {
    let mailer = Script::new(&[true]);
    let input = lines(&[
        "HELO c\r\n",
        "MAIL FROM:<a@x.com>\r\n",
        "RCPT TO:<b@y.com>\r\n",
        "DATA\r\n",
        "hello\r\n",
        ".\r\n",
    ]);
    let t = serve("acs.local".to_string(), 7, &input, &mailer);
    assert_eq!(codes(&t.replies), vec![220, 250, 250, 250, 354, 250]);
    assert_eq!(t.relayed, vec![true]);
    let received = mailer.received.borrow();
    assert_eq!(received.len(), 1);
    assert_eq!(received[0].0, b"hello\r\n".to_vec());
}

#[test]
fn auth_with_credentials_on_the_line() {
    let mailer = Script::new(&[]);
    let input = lines(&[
        "EHLO client.example.com\r\n",
        "AUTH PLAIN dGVzdAB0ZXN0AHRlc3Q=\r\n",
        "QUIT\r\n",
    ]);
    let t = serve("acs.local".to_string(), 10_000_000, &input, &mailer);
    assert_eq!(codes(&t.replies), vec![220, 250, 250, 235, 221]);
    assert!(mailer.received.borrow().is_empty());
}

#[test]
fn an_unfinished_body_is_not_relayed() {
    let mailer = Script::new(&[true]);
    let input = lines(&[
        "MAIL FROM:<a@x.org>\r\n",
        "RCPT TO:<b@x.org>\r\n",
        "DATA\r\n",
        "text\r\n",
    ]);
    let t = serve("acs.local".to_string(), 1000, &input, &mailer);
    assert_eq!(codes(&t.replies), vec![220, 250, 250, 354]);
    assert!(t.relayed.is_empty());
    assert!(mailer.received.borrow().is_empty());
}

#[test]
fn each_message_is_relayed_once() {
    let mailer = Script::new(&[false, true]);
    let input = lines(&[
        "MAIL FROM:<a@x.org>\r\n",
        "RCPT TO:<b@x.org>\r\n",
        "DATA\r\n",
        "one\r\n",
        ".\r\n",
        "RCPT TO:<b@x.org>\r\n",
        "MAIL FROM:<c@x.org>\r\n",
        "RCPT TO:<d@x.org>\r\n",
        "RCPT TO:<e@x.org>\r\n",
        "DATA\r\n",
        ".two\r\n",
        ".\r\n",
    ]);
    let t = serve("acs.local".to_string(), 1000, &input, &mailer);
    assert_eq!(
        codes(&t.replies),
        vec![220, 250, 250, 354, 451, 503, 250, 250, 250, 354, 250]
    );
    assert_eq!(t.relayed, vec![false, true]);
    let received = mailer.received.borrow();
    assert_eq!(received.len(), 2);
    assert_eq!(received[0].0, b"one\r\n".to_vec());
    assert_eq!(received[1].0, b"two\r\n".to_vec());
    assert_eq!(received[1].1, vec!["d@x.org".to_string(), "e@x.org".to_string()]);
    assert_eq!(received[1].2, Some("c@x.org".to_string()));
}

#[test]
fn out_of_sequence_commands_keep_the_connection() {
    let mailer = Script::new(&[]);
    let input = lines(&["RCPT TO:<b@x.org>\r\n", "DATA\r\n", "RSET\r\n", "BOGUS\r\n", "QUIT\r\n"]);
    let t = serve("acs.local".to_string(), 1000, &input, &mailer);
    assert_eq!(codes(&t.replies), vec![220, 503, 503, 250, 500, 221]);
}
