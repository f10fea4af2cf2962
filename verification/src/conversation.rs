//! A whole connection at once: the lines a client sends, a mailer that
//! relays what they submit, and the replies that result.

use crate::error::SmtpRelayError;
use crate::relay::Mailer;
use crate::session::{
    address_of, end_of_data, line_events, run, step, stored_bytes, stored_len, unstuffed,
    verb_of, Event, Phase, Reply, Session, SessionView, TransactionView, Verb,
};
use crate::text::views_of;
use vstd::prelude::*;
use vstd::utf8::encode_utf8;

verus! {

/// What happened on a connection.
#[derive(Debug)]
pub struct Transcript {
    /// Every reply that was written, the greeting first.
    pub replies: Vec<Reply>,
    /// The outcome of each relay attempt, in order: `true` for success.
    pub relayed: Vec<bool>,
}

/// The outcome of the next relay attempt: a failure if none is listed.
pub open spec fn next_outcome(outcomes: Seq<bool>) -> bool {
    outcomes.len() > 0 && outcomes[0]
}

/// The outcomes of the relay attempts after the next one.
pub open spec fn later_outcomes(outcomes: Seq<bool>) -> Seq<bool> {
    if outcomes.len() > 0 {
        outcomes.drop_first()
    } else {
        outcomes
    }
}

/// The replies of a session to the given lines, read one after another
/// until the session closes or the lines end, where each message that is
/// completed on the way is relayed with the next of the given outcomes.
pub open spec fn conversation(
    s: SessionView,
    lines: Seq<Seq<char>>,
    outcomes: Seq<bool>,
) -> Seq<Reply>
    decreases lines.len(), (if s.phase == Phase::Relaying {
            1nat
        } else {
            0nat
        }),
{
    if s.phase == Phase::Closed {
        Seq::empty()
    } else if s.phase == Phase::Relaying {
        let relayed = step(s, Event::Relayed(next_outcome(outcomes)));
        relayed.replies + conversation(relayed.state, lines, later_outcomes(outcomes))
    } else if lines.len() == 0 {
        Seq::empty()
    } else {
        let read = step(s, Event::Line(lines[0]));
        read.replies + conversation(read.state, lines.drop_first(), outcomes)
    }
}

/// The transactions that are handed to the mailer in the course of a
/// conversation, in order. They do not depend on how the attempts end.
pub open spec fn submissions(s: SessionView, lines: Seq<Seq<char>>) -> Seq<TransactionView>
    decreases lines.len(), (if s.phase == Phase::Relaying {
            1nat
        } else {
            0nat
        }),
{
    if s.phase == Phase::Closed {
        Seq::empty()
    } else if s.phase == Phase::Relaying {
        seq![s.transaction] + submissions(step(s, Event::Relayed(true)).state, lines)
    } else if lines.len() == 0 {
        Seq::empty()
    } else {
        submissions(step(s, Event::Line(lines[0])).state, lines.drop_first())
    }
}

/// Whether `delivered` tells how `mailer` answered the request to relay
/// `submission`.
pub open spec fn is_answer_of<M: Mailer>(
    mailer: &M,
    submission: TransactionView,
    delivered: bool,
) -> bool {
    exists|answer: Result<(), SmtpRelayError>|
        #[trigger] mailer.answers(
            submission.data,
            submission.recipients,
            submission.from,
            answer,
        ) && delivered == (answer is Ok)
}

/// Whether `replies` and `relayed` are what happens on a connection on
/// which a new session reads `lines` and relays through `mailer`: every
/// transaction that is completed is handed to the mailer once, `relayed`
/// holds how the mailer answered each, and `replies` are the greeting and
/// then the replies of the conversation with these outcomes.
pub open spec fn is_transcript<M: Mailer>(
    mailer: &M,
    initial: SessionView,
    lines: Seq<Seq<char>>,
    replies: Seq<Reply>,
    relayed: Seq<bool>,
) -> bool {
    &&& replies == seq![Reply::Greeting] + conversation(initial, lines, relayed)
    &&& relayed.len() == submissions(initial, lines).len()
    &&& forall|j: int|
        0 <= j < relayed.len() ==> is_answer_of(
            mailer,
            submissions(initial, lines)[j],
            #[trigger] relayed[j],
        )
}

/// The state a relay attempt leaves does not depend on its outcome.
pub proof fn lemma_outcome_leaves_same_state(s: SessionView, first: bool, second: bool)
    ensures
        step(s, Event::Relayed(first)).state == step(s, Event::Relayed(second)).state,
{
}

/// Serves one connection whose input is known in advance.
///
/// The greeting is written, then each line is read in turn; a message that
/// is completed is handed to `mailer` at once, and its answer decides the
/// reply. Reading stops when the session closes; when the lines end, the
/// client is gone and nothing more is written.
pub fn serve<M: Mailer>(
    server_name: String,
    max_email_size: usize,
    lines: &[String],
    mailer: &M,
) -> (t: Transcript)
    requires
        mailer.ready(),
    ensures
        is_transcript(
            mailer,
            SessionView::initial(server_name@, max_email_size as nat),
            views_of(lines@),
            t.replies@,
            t.relayed@,
        ),
{
    let ghost initial = SessionView::initial(server_name@, max_email_size as nat);
    let ghost all = views_of(lines@);
    let ghost mut submitted: Seq<TransactionView> = Seq::empty();
    let mut session = Session::new(server_name, max_email_size);
    let mut replies: Vec<Reply> = Vec::new();
    let mut relayed: Vec<bool> = Vec::new();
    let mut i: usize = 0;
    proof {
        assert(all.skip(0) =~= all);
        assert(submitted + submissions(session@, all.skip(0)) =~= submissions(initial, all));
        assert forall|rest: Seq<bool>|
            conversation(initial, all, relayed@ + rest) == replies@ + #[trigger] conversation(
                session@,
                all.skip(0),
                rest,
            ) by {
            assert(relayed@ + rest =~= rest);
            assert(replies@ + conversation(initial, all, rest) =~= conversation(
                initial,
                all,
                rest,
            ));
        }
    }
    while i < lines.len() && !matches!(session.phase(), Phase::Closed)
        invariant
            i <= lines.len(),
            all == views_of(lines@),
            mailer.ready(),
            session@.phase != Phase::Relaying,
            forall|rest: Seq<bool>|
                conversation(initial, all, relayed@ + rest) == replies@ + #[trigger] conversation(
                    session@,
                    all.skip(i as int),
                    rest,
                ),
            submissions(initial, all) == submitted + submissions(session@, all.skip(i as int)),
            submitted.len() == relayed@.len(),
            forall|j: int|
                0 <= j < relayed@.len() ==> is_answer_of(mailer, submitted[j], #[trigger] relayed@[j]),
        decreases lines.len() - i,
    {
        let ghost before = session@;
        let ghost written = replies@;
        let ghost outcomes = relayed@;
        let ghost handed = submitted;
        let ghost remaining = all.skip(i as int);
        let mut response = session.on_line(lines[i].as_str());
        let ghost read = session@;
        let ghost read_replies = response.replies@;
        replies.append(&mut response.replies);
        proof {
            assert(remaining[0] == lines@[i as int]@);
            assert(remaining.drop_first() =~= all.skip(i as int + 1));
            assert(submissions(before, remaining) == submissions(read, all.skip(i as int + 1)));
        }
        match session.phase() {
            Phase::Relaying => {
                let transaction = session.transaction();
                let answer = mailer.send(
                    transaction.data.as_slice(),
                    transaction.recipients.as_slice(),
                    &transaction.from,
                );
                let delivered = answer.is_ok();
                let mut reply = session.on_relay_result(delivered);
                let ghost answer_replies = reply.replies@;
                replies.append(&mut reply.replies);
                relayed.push(delivered);
                proof {
                    submitted = submitted.push(read.transaction);
                    lemma_outcome_leaves_same_state(read, delivered, true);
                    assert(submissions(read, all.skip(i as int + 1)) == seq![read.transaction]
                        + submissions(session@, all.skip(i as int + 1)));
                    assert(handed + (seq![read.transaction] + submissions(
                        session@,
                        all.skip(i as int + 1),
                    )) =~= submitted + submissions(session@, all.skip(i as int + 1)));
                    assert(mailer.answers(
                        read.transaction.data,
                        read.transaction.recipients,
                        read.transaction.from,
                        answer,
                    ));
                    assert(is_answer_of(mailer, read.transaction, delivered));
                    assert forall|j: int| 0 <= j < relayed@.len() implies is_answer_of(
                        mailer,
                        submitted[j],
                        #[trigger] relayed@[j],
                    ) by {
                        if j < outcomes.len() {
                            assert(relayed@[j] == outcomes[j]);
                            assert(submitted[j] == handed[j]);
                        }
                    }
                    assert forall|rest: Seq<bool>|
                        conversation(initial, all, relayed@ + rest) == replies@
                            + #[trigger] conversation(session@, all.skip(i as int + 1), rest) by {
                        let longer = seq![delivered] + rest;
                        assert(relayed@ + rest =~= outcomes + longer);
                        assert(later_outcomes(longer) =~= rest);
                        assert(next_outcome(longer) == delivered);
                        assert(conversation(read, all.skip(i as int + 1), longer)
                            == answer_replies + conversation(
                            session@,
                            all.skip(i as int + 1),
                            rest,
                        ));
                        assert(conversation(before, remaining, longer) == read_replies + (
                        answer_replies + conversation(session@, all.skip(i as int + 1), rest)));
                        assert(written + (read_replies + (answer_replies + conversation(
                            session@,
                            all.skip(i as int + 1),
                            rest,
                        ))) =~= replies@ + conversation(session@, all.skip(i as int + 1), rest));
                    }
                }
            },
            _ => {
                proof {
                    assert forall|rest: Seq<bool>|
                        conversation(initial, all, relayed@ + rest) == replies@
                            + #[trigger] conversation(session@, all.skip(i as int + 1), rest) by {
                        assert(conversation(before, remaining, rest) == read_replies
                            + conversation(session@, all.skip(i as int + 1), rest));
                        assert(written + (read_replies + conversation(
                            session@,
                            all.skip(i as int + 1),
                            rest,
                        )) =~= replies@ + conversation(session@, all.skip(i as int + 1), rest));
                    }
                }
            },
        }
        i += 1;
    }
    let ghost outcomes = relayed@;
    let mut transcript = Transcript { replies: vec![Reply::Greeting], relayed };
    proof {
        let rest = Seq::<bool>::empty();
        assert(outcomes + rest =~= outcomes);
        assert(conversation(session@, all.skip(i as int), rest) =~= Seq::<Reply>::empty());
        assert(replies@ + Seq::<Reply>::empty() =~= replies@);
        assert(submissions(session@, all.skip(i as int)) =~= Seq::<TransactionView>::empty());
        assert(submitted + Seq::<TransactionView>::empty() =~= submitted);
        assert(submissions(initial, all) == submitted);
        assert(conversation(initial, all, outcomes) == replies@);
    }
    transcript.replies.append(&mut replies);
    proof {
        assert(transcript.relayed@ == outcomes);
        assert(transcript.replies@ =~= seq![Reply::Greeting] + conversation(
            initial,
            all,
            transcript.relayed@,
        ));
        assert forall|j: int| 0 <= j < transcript.relayed@.len() implies is_answer_of(
            mailer,
            submissions(initial, all)[j],
            #[trigger] transcript.relayed@[j],
        ) by {
            assert(is_answer_of(mailer, submitted[j], outcomes[j]));
        }
    }
    transcript
}

/// The codes of a list of replies.
pub open spec fn codes_of(replies: Seq<Reply>) -> Seq<u16> {
    replies.map_values(|r: Reply| r.code_of())
}

/// The addresses that the given lines name.
pub open spec fn addresses_of(lines: Seq<Seq<char>>) -> Seq<Seq<char>> {
    lines.map_values(|line: Seq<char>| address_of(line))
}

/// Whether a session reads the next line as a command or as a body line.
pub open spec fn reads_lines(s: SessionView) -> bool {
    s.phase != Phase::Closed && s.phase != Phase::Relaying
}

/// A beginning of the lines takes no more bytes, once stored, than all
/// of them.
proof fn lemma_stored_len_prefix(lines: Seq<Seq<char>>, k: int)
    requires
        0 <= k <= lines.len(),
    ensures
        stored_len(lines.take(k)) <= stored_len(lines),
    decreases lines.len(),
{
    if k < lines.len() {
        assert(lines.drop_last().take(k) =~= lines.take(k));
        lemma_stored_len_prefix(lines.drop_last(), k);
    } else {
        assert(lines.take(k) =~= lines);
    }
}

/// Where a session reads each line of `head` as a command or a body line,
/// the conversation over `head` and then `tail` is what the session
/// answers to `head`, then the conversation over `tail` from the state it
/// is in by then; and nothing is handed to the mailer before `tail`.
pub proof fn lemma_conversation_split(
    s: SessionView,
    head: Seq<Seq<char>>,
    tail: Seq<Seq<char>>,
    outcomes: Seq<bool>,
)
    requires
        forall|k: int|
            0 <= k < head.len() ==> reads_lines(#[trigger] run(s, line_events(head.take(k))).state),
    ensures
        conversation(s, head + tail, outcomes) == run(s, line_events(head)).replies + conversation(
            run(s, line_events(head)).state,
            tail,
            outcomes,
        ),
        submissions(s, head + tail) == submissions(run(s, line_events(head)).state, tail),
    decreases head.len(),
{
    if head.len() == 0 {
        assert(head + tail =~= tail);
        assert(line_events(head) =~= Seq::<Event>::empty());
        assert(Seq::<Reply>::empty() + conversation(s, tail, outcomes) =~= conversation(
            s,
            tail,
            outcomes,
        ));
    } else {
        let init = head.drop_last();
        let x = head.last();
        let longer = seq![x] + tail;
        assert(head + tail =~= init + longer);
        assert forall|k: int| 0 <= k < init.len() implies reads_lines(
            #[trigger] run(s, line_events(init.take(k))).state,
        ) by {
            assert(init.take(k) =~= head.take(k));
        }
        lemma_conversation_split(s, init, longer, outcomes);
        let before = run(s, line_events(init));
        assert(head.take(init.len() as int) =~= init);
        assert(reads_lines(run(s, line_events(head.take(init.len() as int))).state));
        assert(longer.drop_first() =~= tail);
        assert(longer[0] == x);
        let read = step(before.state, Event::Line(x));
        assert(conversation(before.state, longer, outcomes) == read.replies + conversation(
            read.state,
            tail,
            outcomes,
        ));
        assert(submissions(before.state, longer) == submissions(read.state, tail));
        assert(line_events(head).drop_last() =~= line_events(init));
        assert(line_events(head).last() == Event::Line(x));
        assert(before.replies + (read.replies + conversation(read.state, tail, outcomes))
            =~= (before.replies + read.replies) + conversation(read.state, tail, outcomes));
    }
}

/// After a sender is known, each RCPT TO is accepted and adds the address
/// it names to the recipients.
proof fn lemma_recipients_accepted(s: SessionView, rcpts: Seq<Seq<char>>)
    requires
        s.phase == Phase::Command,
        s.transaction.from is Some,
        forall|i: int| 0 <= i < rcpts.len() ==> verb_of(#[trigger] rcpts[i]) == Verb::RcptTo,
    ensures
        ({
            let r = run(s, line_events(rcpts));
            &&& r.state == s.with_transaction(
                TransactionView {
                    recipients: s.transaction.recipients + addresses_of(rcpts),
                    ..s.transaction
                },
            )
            &&& r.replies == Seq::new(rcpts.len(), |i: int| Reply::Accepted)
        }),
    decreases rcpts.len(),
{
    let events = line_events(rcpts);
    if rcpts.len() > 0 {
        let init = rcpts.drop_last();
        assert(events.drop_last() =~= line_events(init));
        assert(events.last() == Event::Line(rcpts.last()));
        lemma_recipients_accepted(s, init);
        let before = run(s, line_events(init));
        assert(verb_of(rcpts[rcpts.len() - 1]) == Verb::RcptTo);
        assert(before.replies + seq![Reply::Accepted] =~= Seq::new(
            rcpts.len(),
            |i: int| Reply::Accepted,
        ));
        assert((s.transaction.recipients + addresses_of(init)).push(address_of(rcpts.last()))
            =~= s.transaction.recipients + addresses_of(rcpts));
    } else {
        assert(run(s, events).replies =~= Seq::new(rcpts.len(), |i: int| Reply::Accepted));
        assert(s.transaction.recipients + addresses_of(rcpts) =~= s.transaction.recipients);
    }
}

/// Body lines that fit within the limit, none of which ends the body, are
/// stored without a reply, and the session goes on reading the body.
proof fn lemma_body_accepted(s: SessionView, body: Seq<Seq<char>>)
    requires
        s.phase == Phase::Data,
        forall|i: int| 0 <= i < body.len() ==> #[trigger] body[i] != end_of_data(),
        s.transaction.data.len() + stored_len(body) <= s.max_email_size,
    ensures
        ({
            let r = run(s, line_events(body));
            &&& r.state == s.with_transaction(
                TransactionView {
                    data: s.transaction.data + stored_bytes(body),
                    ..s.transaction
                },
            )
            &&& r.replies == Seq::<Reply>::empty()
        }),
    decreases body.len(),
{
    let events = line_events(body);
    if body.len() > 0 {
        let init = body.drop_last();
        assert(events.drop_last() =~= line_events(init));
        assert(events.last() == Event::Line(body.last()));
        lemma_body_accepted(s, init);
        assert(body[body.len() - 1] != end_of_data());
        let before = run(s, line_events(init));
        assert(before.replies + Seq::<Reply>::empty() =~= Seq::<Reply>::empty());
        assert((s.transaction.data + stored_bytes(init)) + encode_utf8(unstuffed(body.last()))
            =~= s.transaction.data + stored_bytes(body));
    } else {
        assert(s.transaction.data + stored_bytes(body) =~= s.transaction.data);
    }
}

/// HELO and MAIL FROM at the start of a session are both accepted, and
/// leave the sender that was named and no recipient.
proof fn lemma_opening(s: SessionView, helo: Seq<char>, mail: Seq<char>)
    requires
        s.phase == Phase::Command,
        verb_of(helo) == Verb::Helo,
        verb_of(mail) == Verb::MailFrom,
    ensures
        ({
            let opening = seq![helo, mail];
            let r = run(s, line_events(opening));
            &&& r.replies == seq![Reply::Accepted, Reply::Accepted]
            &&& r.state == s.with_transaction(
                TransactionView {
                    from: Some(address_of(mail)),
                    recipients: Seq::empty(),
                    data: Seq::empty(),
                },
            )
            &&& forall|k: int|
                0 <= k < opening.len() ==> reads_lines(
                    #[trigger] run(s, line_events(opening.take(k))).state,
                )
        }),
{
    let opening = seq![helo, mail];
    let events = line_events(opening);
    assert(events.drop_last() =~= seq![Event::Line(helo)]);
    assert(events.drop_last().drop_last() =~= Seq::<Event>::empty());
    assert(events.last() == Event::Line(mail));
    assert(events.drop_last().last() == Event::Line(helo));
    reveal_with_fuel(run, 3);
    assert(run(s, events).replies =~= seq![Reply::Accepted, Reply::Accepted]);
    assert forall|k: int| 0 <= k < opening.len() implies reads_lines(
        #[trigger] run(s, line_events(opening.take(k))).state,
    ) by {
        if k == 0 {
            assert(line_events(opening.take(0)) =~= Seq::<Event>::empty());
        } else {
            assert(line_events(opening.take(1)) =~= seq![Event::Line(helo)]);
            assert(line_events(opening.take(1)).drop_last() =~= Seq::<Event>::empty());
        }
    }
}

/// The line that ends a body, the relay, and QUIT draw the reply for the
/// outcome of the relay and 221, and the transaction is handed to the
/// mailer once.
proof fn lemma_closing(s: SessionView, quit: Seq<char>, delivered: bool)
    requires
        s.phase == Phase::Data,
        verb_of(quit) == Verb::Quit,
    ensures
        conversation(s, seq![end_of_data(), quit], seq![delivered]) == seq![
            if delivered {
                Reply::Queued
            } else {
                Reply::RelayFailed
            },
            Reply::Closing,
        ],
        submissions(s, seq![end_of_data(), quit]) == seq![s.transaction],
{
    let closing = seq![end_of_data(), quit];
    let outcomes = seq![delivered];
    let none = Seq::<bool>::empty();
    let after_end = seq![quit];
    let nothing = Seq::<Seq<char>>::empty();
    let ended = step(s, Event::Line(end_of_data()));
    let relayed = step(ended.state, Event::Relayed(delivered));
    let left = step(relayed.state, Event::Line(quit));
    assert(closing[0] == end_of_data());
    assert(closing.drop_first() =~= after_end);
    assert(after_end.drop_first() =~= nothing);
    assert(later_outcomes(outcomes) =~= none);
    assert(conversation(left.state, nothing, none) =~= Seq::<Reply>::empty());
    assert(conversation(relayed.state, after_end, none) == left.replies + conversation(
        left.state,
        nothing,
        none,
    ));
    assert(conversation(ended.state, after_end, outcomes) == relayed.replies + conversation(
        relayed.state,
        after_end,
        none,
    ));
    assert(conversation(s, closing, outcomes) == ended.replies + conversation(
        ended.state,
        after_end,
        outcomes,
    ));
    assert(conversation(s, closing, outcomes) =~= seq![
        if delivered {
            Reply::Queued
        } else {
            Reply::RelayFailed
        },
        Reply::Closing,
    ]);
    lemma_outcome_leaves_same_state(ended.state, delivered, true);
    assert(submissions(left.state, nothing) =~= Seq::<TransactionView>::empty());
    assert(submissions(relayed.state, after_end) == submissions(left.state, nothing));
    assert(submissions(ended.state, after_end) == seq![ended.state.transaction] + submissions(
        relayed.state,
        after_end,
    ));
    assert(submissions(s, closing) == submissions(ended.state, after_end));
    assert(submissions(s, closing) =~= seq![s.transaction]);
}

/// DATA after a sender and a recipient is answered with 354, and the
/// conversation goes on with the body.
proof fn lemma_data_stage(
    s: SessionView,
    data: Seq<char>,
    rest: Seq<Seq<char>>,
    outcomes: Seq<bool>,
)
    requires
        s.phase == Phase::Command,
        s.transaction.from is Some,
        s.transaction.recipients.len() > 0,
        verb_of(data) == Verb::Data,
    ensures
        conversation(s, seq![data] + rest, outcomes) == seq![Reply::StartData] + conversation(
            s.in_phase(Phase::Data),
            rest,
            outcomes,
        ),
        submissions(s, seq![data] + rest) == submissions(s.in_phase(Phase::Data), rest),
{
    let lines = seq![data] + rest;
    assert(lines[0] == data);
    assert(lines.drop_first() =~= rest);
}

/// HELO and MAIL FROM at the start of a conversation draw two replies of
/// 250, and the conversation goes on with the sender that was named.
proof fn lemma_opening_stage(
    s: SessionView,
    helo: Seq<char>,
    mail: Seq<char>,
    rest: Seq<Seq<char>>,
    outcomes: Seq<bool>,
) -> (next: SessionView)
    requires
        s.phase == Phase::Command,
        verb_of(helo) == Verb::Helo,
        verb_of(mail) == Verb::MailFrom,
    ensures
        conversation(s, seq![helo, mail] + rest, outcomes) == seq![
            Reply::Accepted,
            Reply::Accepted,
        ] + conversation(next, rest, outcomes),
        submissions(s, seq![helo, mail] + rest) == submissions(next, rest),
        next == s.with_transaction(
            TransactionView {
                from: Some(address_of(mail)),
                recipients: Seq::empty(),
                data: Seq::empty(),
            },
        ),
{
    lemma_opening(s, helo, mail);
    lemma_conversation_split(s, seq![helo, mail], rest, outcomes);
    run(s, line_events(seq![helo, mail])).state
}

/// Each RCPT TO after a sender draws a reply of 250, and the conversation
/// goes on with the addresses that were named added to the recipients.
proof fn lemma_recipients_stage(
    s: SessionView,
    rcpts: Seq<Seq<char>>,
    rest: Seq<Seq<char>>,
    outcomes: Seq<bool>,
) -> (next: SessionView)
    requires
        s.phase == Phase::Command,
        s.transaction.from is Some,
        forall|i: int| 0 <= i < rcpts.len() ==> verb_of(#[trigger] rcpts[i]) == Verb::RcptTo,
    ensures
        conversation(s, rcpts + rest, outcomes) == Seq::new(rcpts.len(), |i: int| Reply::Accepted)
            + conversation(next, rest, outcomes),
        submissions(s, rcpts + rest) == submissions(next, rest),
        next == s.with_transaction(
            TransactionView {
                recipients: s.transaction.recipients + addresses_of(rcpts),
                ..s.transaction
            },
        ),
{
    lemma_recipients_accepted(s, rcpts);
    assert forall|k: int| 0 <= k < rcpts.len() implies reads_lines(
        #[trigger] run(s, line_events(rcpts.take(k))).state,
    ) by {
        lemma_recipients_accepted(s, rcpts.take(k));
    }
    lemma_conversation_split(s, rcpts, rest, outcomes);
    run(s, line_events(rcpts)).state
}

/// Body lines that fit, none of which ends the body, draw no reply, and
/// the conversation goes on with the lines stored.
proof fn lemma_body_stage(
    s: SessionView,
    body: Seq<Seq<char>>,
    rest: Seq<Seq<char>>,
    outcomes: Seq<bool>,
) -> (next: SessionView)
    requires
        s.phase == Phase::Data,
        forall|i: int| 0 <= i < body.len() ==> #[trigger] body[i] != end_of_data(),
        s.transaction.data.len() + stored_len(body) <= s.max_email_size,
    ensures
        conversation(s, body + rest, outcomes) == conversation(next, rest, outcomes),
        submissions(s, body + rest) == submissions(next, rest),
        next == s.with_transaction(
            TransactionView { data: s.transaction.data + stored_bytes(body), ..s.transaction },
        ),
{
    lemma_body_accepted(s, body);
    assert forall|k: int| 0 <= k < body.len() implies reads_lines(
        #[trigger] run(s, line_events(body.take(k))).state,
    ) by {
        lemma_stored_len_prefix(body, k);
        lemma_body_accepted(s, body.take(k));
    }
    lemma_conversation_split(s, body, rest, outcomes);
    let next = run(s, line_events(body)).state;
    assert(Seq::<Reply>::empty() + conversation(next, rest, outcomes) =~= conversation(
        next,
        rest,
        outcomes,
    ));
    next
}

/// The lines of a delivery: HELO, MAIL FROM, one RCPT TO or more, DATA, a
/// body, the line that ends it, and QUIT.
pub open spec fn delivery_lines(
    helo: Seq<char>,
    mail: Seq<char>,
    rcpts: Seq<Seq<char>>,
    data: Seq<char>,
    body: Seq<Seq<char>>,
    quit: Seq<char>,
) -> Seq<Seq<char>> {
    seq![helo, mail] + rcpts + seq![data] + body + seq![end_of_data(), quit]
}

/// Whether the given lines are those of a delivery within a size limit:
/// each holds the command of its place, there is at least one recipient,
/// no body line ends the body, and the body as it is stored fits within
/// the limit.
pub open spec fn is_delivery(
    max_email_size: nat,
    helo: Seq<char>,
    mail: Seq<char>,
    rcpts: Seq<Seq<char>>,
    data: Seq<char>,
    body: Seq<Seq<char>>,
    quit: Seq<char>,
) -> bool {
    &&& verb_of(helo) == Verb::Helo
    &&& verb_of(mail) == Verb::MailFrom
    &&& rcpts.len() >= 1
    &&& forall|i: int| 0 <= i < rcpts.len() ==> verb_of(#[trigger] rcpts[i]) == Verb::RcptTo
    &&& verb_of(data) == Verb::Data
    &&& forall|i: int| 0 <= i < body.len() ==> #[trigger] body[i] != end_of_data()
    &&& stored_len(body) <= max_email_size
    &&& verb_of(quit) == Verb::Quit
}

/// The replies of a delivery after the greeting, for a relay that ends as
/// `delivered` tells.
pub open spec fn delivery_replies(recipients: nat, delivered: bool) -> Seq<Reply> {
    seq![Reply::Accepted, Reply::Accepted] + Seq::new(recipients, |i: int| Reply::Accepted) + seq![
        Reply::StartData,
        if delivered {
            Reply::Queued
        } else {
            Reply::RelayFailed
        },
        Reply::Closing,
    ]
}

/// A delivery hands one transaction to the mailer: the sender and the
/// recipients that were named, and the body as it is stored. Its replies
/// after the greeting are 250, 250, one 250 for each recipient, 354, then
/// 250 if the relay succeeds and 451 if it fails, and 221.
pub proof fn lemma_delivery(
    server_name: Seq<char>,
    max_email_size: nat,
    helo: Seq<char>,
    mail: Seq<char>,
    rcpts: Seq<Seq<char>>,
    data: Seq<char>,
    body: Seq<Seq<char>>,
    quit: Seq<char>,
    delivered: bool,
)
    requires
        is_delivery(max_email_size, helo, mail, rcpts, data, body, quit),
    ensures
        ({
            let lines = delivery_lines(helo, mail, rcpts, data, body, quit);
            let initial = SessionView::initial(server_name, max_email_size);
            &&& conversation(initial, lines, seq![delivered]) == delivery_replies(
                rcpts.len(),
                delivered,
            )
            &&& submissions(initial, lines) == seq![
                TransactionView {
                    from: Some(address_of(mail)),
                    recipients: addresses_of(rcpts),
                    data: stored_bytes(body),
                },
            ]
        }),
{
    let outcomes = seq![delivered];
    let s0 = SessionView::initial(server_name, max_email_size);
    let closing = seq![end_of_data(), quit];
    let lines = delivery_lines(helo, mail, rcpts, data, body, quit);
    let rest3 = body + closing;
    let rest2 = seq![data] + rest3;
    let rest1 = rcpts + rest2;
    assert(lines =~= seq![helo, mail] + rest1);
    let s1 = lemma_opening_stage(s0, helo, mail, rest1, outcomes);
    let s2 = lemma_recipients_stage(s1, rcpts, rest2, outcomes);
    assert(s2.transaction.recipients =~= addresses_of(rcpts));
    lemma_data_stage(s2, data, rest3, outcomes);
    let s3 = s2.in_phase(Phase::Data);
    let s4 = lemma_body_stage(s3, body, closing, outcomes);
    assert(s4.transaction.data =~= stored_bytes(body));
    lemma_closing(s4, quit, delivered);
    assert(conversation(s0, lines, outcomes) =~= delivery_replies(rcpts.len(), delivered));
}

/// A complete delivery draws the replies 220, 250, 250, one 250 for each
/// recipient, 354, 250 and 221, in this order: the session is greeted with
/// HELO, a sender and at least one recipient are named, DATA is followed
/// by a body that fits within the limit and the line that ends it, the
/// relay succeeds, and the client leaves with QUIT.
pub proof fn lemma_complete_delivery(
    server_name: Seq<char>,
    max_email_size: nat,
    helo: Seq<char>,
    mail: Seq<char>,
    rcpts: Seq<Seq<char>>,
    data: Seq<char>,
    body: Seq<Seq<char>>,
    quit: Seq<char>,
)
    requires
        is_delivery(max_email_size, helo, mail, rcpts, data, body, quit),
    ensures
        codes_of(
            seq![Reply::Greeting] + conversation(
                SessionView::initial(server_name, max_email_size),
                delivery_lines(helo, mail, rcpts, data, body, quit),
                seq![true],
            ),
        ) == seq![220u16, 250, 250] + Seq::new(rcpts.len(), |i: int| 250u16) + seq![
            354u16,
            250,
            221,
        ],
{
    lemma_delivery(server_name, max_email_size, helo, mail, rcpts, data, body, quit, true);
    let replies = seq![Reply::Greeting] + delivery_replies(rcpts.len(), true);
    assert(codes_of(replies) =~= seq![220u16, 250, 250] + Seq::new(
        rcpts.len(),
        |i: int| 250u16,
    ) + seq![354u16, 250, 221]);
}

/// End to end: on a connection that carries one delivery, served with a
/// mailer that answers the request to relay it with nothing but success,
/// the message is handed to the mailer once, with the sender and the
/// recipients that were named, and the last reply but the 221 for QUIT is
/// 250.
pub proof fn lemma_delivery_through_mailer<M: Mailer>(
    mailer: &M,
    server_name: Seq<char>,
    max_email_size: nat,
    helo: Seq<char>,
    mail: Seq<char>,
    rcpts: Seq<Seq<char>>,
    data: Seq<char>,
    body: Seq<Seq<char>>,
    quit: Seq<char>,
    replies: Seq<Reply>,
    relayed: Seq<bool>,
)
    requires
        is_delivery(max_email_size, helo, mail, rcpts, data, body, quit),
        is_transcript(
            mailer,
            SessionView::initial(server_name, max_email_size),
            delivery_lines(helo, mail, rcpts, data, body, quit),
            replies,
            relayed,
        ),
        forall|answer: Result<(), SmtpRelayError>| #[trigger]
            mailer.answers(stored_bytes(body), addresses_of(rcpts), Some(address_of(mail)), answer)
                ==> answer is Ok,
    ensures
        relayed == seq![true],
        submissions(
            SessionView::initial(server_name, max_email_size),
            delivery_lines(helo, mail, rcpts, data, body, quit),
        ) == seq![
            TransactionView {
                from: Some(address_of(mail)),
                recipients: addresses_of(rcpts),
                data: stored_bytes(body),
            },
        ],
        replies == seq![Reply::Greeting] + delivery_replies(rcpts.len(), true),
        replies[replies.len() - 2] == Reply::Queued,
        Reply::Queued.code_of() == 250,
{
    let initial = SessionView::initial(server_name, max_email_size);
    let lines = delivery_lines(helo, mail, rcpts, data, body, quit);
    lemma_delivery(server_name, max_email_size, helo, mail, rcpts, data, body, quit, true);
    assert(relayed.len() == 1);
    assert(is_answer_of(mailer, submissions(initial, lines)[0], relayed[0]));
    assert(relayed =~= seq![true]);
}

} // verus!
