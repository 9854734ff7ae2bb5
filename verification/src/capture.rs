//! The capture tasks: which lines of a source become records of its log, and
//! when a task stops.
//!
//! A task's driver polls its source and the cancellation signal in turn and
//! hands both findings to the task, which answers with the record to write,
//! if any, and with whether to stop. Writing a record to the log and
//! mirroring it to the console belong to one [`Record`], so that the two
//! never differ in what they hold.

use vstd::prelude::*;
use vstd::string::StringExecFns;
use crate::instant::Instant;
use crate::line::{message_of, split_line, stamp_of};
use crate::session::CaptureSession;
use crate::stamp::{chrono_format, chrono_now, stamp_text};

verus! {

/// A line to append to a log.
#[derive(Clone, Debug, PartialEq, Eq)]
pub struct Record {
    /// The line: a timestamp, a space and the message.
    pub text: String,
    /// Whether the line is also shown on the console.
    pub echo: bool,
}

/// What a [`Record`] holds.
pub struct RecordView {
    pub text: Seq<char>,
    pub echo: bool,
}

impl View for Record {
    type V = RecordView;

    open spec fn view(&self) -> RecordView {
        RecordView { text: self.text@, echo: self.echo }
    }
}

/// A line of the operator's, with the instant at which it was received.
#[derive(Clone, Debug, PartialEq, Eq)]
pub struct Arrival {
    pub line: String,
    pub received: Instant,
}

/// What a capture task answers to one round of polling.
#[derive(Clone, Debug, PartialEq, Eq)]
pub struct Turn {
    /// The record to write, if the round brought one.
    pub record: Option<Record>,
    /// Whether the task stops after this round; the system task's driver
    /// then ends the logging facility.
    pub stop: bool,
}

/// The state of a capture task.
#[derive(Clone, Copy, Debug, PartialEq, Eq, Structural)]
pub struct CaptureTask {
    /// Whether the task has been cancelled.
    pub stopped: bool,
    /// How many lines were lost for want of a timestamp that can be read or
    /// written; the count stops at the largest number it can hold.
    pub dropped: u64,
}

/// The text of a record.
pub open spec fn record_text(stamp: Seq<char>, message: Seq<char>) -> Seq<char> {
    stamp + seq![' '] + message
}

/// Whether a line of the logging facility is left out because it is from
/// before the session.
pub open spec fn system_filtered(full_mode: bool, start: Instant, line: Seq<char>) -> bool {
    stamp_of(line) matches Some(stamp) && !full_mode && stamp.precedes(start)
}

/// The record that a line of the logging facility makes: its own timestamp,
/// written anew, and its message. There is none where the line bears no
/// timestamp, where it is from before the session and the backlog is not
/// asked for, or where its timestamp cannot be written.
pub open spec fn system_record(full_mode: bool, start: Instant, line: Seq<char>) -> Option<
    Seq<char>,
> {
    match stamp_of(line) {
        Some(stamp) => if full_mode || !stamp.precedes(start) {
            match stamp_text(stamp) {
                Some(text) => Some(record_text(text, message_of(line))),
                None => None,
            }
        } else {
            None
        },
        None => None,
    }
}

/// The record that a line of the operator's makes: the instant of its
/// receipt and the line as it is. There is none where that instant cannot be
/// written.
pub open spec fn input_record(received: Instant, line: Seq<char>) -> Option<Seq<char>> {
    match stamp_text(received) {
        Some(text) => Some(record_text(text, line)),
        None => None,
    }
}

/// The count after one more line was dropped.
pub open spec fn bumped(count: u64) -> u64 {
    if count < u64::MAX {
        (count + 1) as u64
    } else {
        count
    }
}

/// The record of a turn, where a text was made.
pub open spec fn echoed(text: Option<Seq<char>>, echo: bool) -> Option<RecordView> {
    match text {
        Some(text) => Some(RecordView { text, echo }),
        None => None,
    }
}

/// What the record of a turn holds.
pub open spec fn record_view(record: Option<Record>) -> Option<RecordView> {
    match record {
        Some(record) => Some(record@),
        None => None,
    }
}

/// What a text holds, if there is one.
pub open spec fn text_view(text: Option<String>) -> Option<Seq<char>> {
    match text {
        Some(text) => Some(text@),
        None => None,
    }
}

/// The text holds no line break.
pub open spec fn is_one_line(text: Seq<char>) -> bool {
    forall|i: int| 0 <= i < text.len() ==> #[trigger] text[i] != '\n'
}

/// A timestamp, a space and a message, none with a line break, make a text
/// without line break.
pub proof fn lemma_record_is_one_line(stamp: Seq<char>, message: Seq<char>)
    requires
        is_one_line(stamp),
        is_one_line(message),
    ensures
        is_one_line(record_text(stamp, message)),
{
    let text = record_text(stamp, message);
    assert forall|i: int| 0 <= i < text.len() implies #[trigger] text[i] != '\n' by {
        if i < stamp.len() {
            assert(text[i] == stamp[i]);
        } else if i > stamp.len() {
            assert(text[i] == message[i - stamp.len() - 1]);
        }
    }
}

/// Writes a record: the timestamp, a space, the message. A record made of a
/// timestamp and a message without line break holds none.
pub fn compose_record(stamp: &str, message: &str) -> (text: String)
    ensures
        text@ == record_text(stamp@, message@),
        is_one_line(stamp@) && is_one_line(message@) ==> is_one_line(text@),
{
    let mut text = String::from_str(stamp);
    text.push(' ');
    text.append(message);
    proof {
        if is_one_line(stamp@) && is_one_line(message@) {
            lemma_record_is_one_line(stamp@, message@);
        }
    }
    text
}

impl Arrival {
    /// The line, received at the instant of the call.
    pub fn now(line: String) -> (arrival: Arrival)
        ensures
            arrival.line == line,
    {
        Arrival { line, received: chrono_now() }
    }
}

/// The record for a line that the operator typed and that was received at
/// `received`.
pub fn record_input_line(received: &Instant, line: &str) -> (text: Option<String>)
    ensures
        text_view(text) == input_record(*received, line@),
{
    match chrono_format(received) {
        Some(stamp) => Some(compose_record(stamp.as_str(), line)),
        None => None,
    }
}

/// Deals with a line of the logging facility: the record it makes, if any,
/// and whether the line counts as dropped.
fn judge_system_line(session: &CaptureSession, line: &str) -> (r: (Option<String>, bool))
    ensures
        text_view(r.0) == system_record(session.full_mode, session.start_instant, line@),
        r.1 == (r.0 is None && !system_filtered(
            session.full_mode,
            session.start_instant,
            line@,
        )),
{
    match split_line(line) {
        Ok(pair) => {
            let (stamp, message) = pair;
            if session.admits(&stamp) {
                match chrono_format(&stamp) {
                    Some(written) => (
                        Some(compose_record(written.as_str(), message.as_str())),
                        false,
                    ),
                    None => (None, true),
                }
            } else {
                (None, false)
            }
        },
        Err(_) => (None, true),
    }
}

impl CaptureSession {
    /// The record for a line of the logging facility.
    pub fn record_system_line(&self, line: &str) -> (text: Option<String>)
        ensures
            text_view(text) == system_record(self.full_mode, self.start_instant, line@),
    {
        judge_system_line(self, line).0
    }
}

impl CaptureTask {
    /// A task that runs and has dropped nothing.
    pub fn new() -> (task: CaptureTask)
        ensures
            task == (CaptureTask { stopped: false, dropped: 0 }),
    {
        CaptureTask { stopped: false, dropped: 0 }
    }

    /// Counts one more dropped line.
    fn count_drop(&mut self)
        ensures
            final(self).stopped == old(self).stopped,
            final(self).dropped == bumped(old(self).dropped),
    {
        if self.dropped < u64::MAX {
            self.dropped = self.dropped + 1;
        }
    }

    /// One round of the system capture task: `line` is what the logging
    /// facility gave, if anything, and `cancelled` whether the cancellation
    /// signal was seen.
    ///
    /// A line that arrived is dealt with before the task stops. A task that
    /// has stopped records nothing more.
    pub fn system_turn(
        &mut self,
        session: &CaptureSession,
        line: Option<String>,
        cancelled: bool,
    ) -> (turn: Turn)
        ensures
            old(self).stopped ==> *final(self) == *old(self) && turn.record is None && turn.stop,
            !old(self).stopped ==> {
                &&& final(self).stopped == cancelled
                &&& turn.stop == cancelled
                &&& record_view(turn.record) == match line {
                    Some(line) => echoed(
                        system_record(session.full_mode, session.start_instant, line@),
                        session.echo_enabled,
                    ),
                    None => None,
                }
                &&& final(self).dropped == match line {
                    Some(line) => if system_record(
                        session.full_mode,
                        session.start_instant,
                        line@,
                    ) is None && !system_filtered(
                        session.full_mode,
                        session.start_instant,
                        line@,
                    ) {
                        bumped(old(self).dropped)
                    } else {
                        old(self).dropped
                    },
                    None => old(self).dropped,
                }
            },
    {
        if self.stopped {
            return Turn { record: None, stop: true };
        }
        let record = match line {
            Some(line) => {
                let (text, dropped) = judge_system_line(session, line.as_str());
                if dropped {
                    self.count_drop();
                }
                match text {
                    Some(text) => Some(Record { text, echo: session.echo_enabled }),
                    None => None,
                }
            },
            None => None,
        };
        self.stopped = cancelled;
        Turn { record, stop: cancelled }
    }

    /// One round of the input capture task: `arrival` is the line that the
    /// operator gave, if any, and `cancelled` whether the cancellation signal
    /// was seen.
    ///
    /// Every line that arrives is recorded, also in the round in which the
    /// task is cancelled. A task that has stopped records nothing more.
    pub fn input_turn(
        &mut self,
        session: &CaptureSession,
        arrival: Option<Arrival>,
        cancelled: bool,
    ) -> (turn: Turn)
        ensures
            old(self).stopped ==> *final(self) == *old(self) && turn.record is None && turn.stop,
            !old(self).stopped ==> {
                &&& final(self).stopped == cancelled
                &&& turn.stop == cancelled
                &&& record_view(turn.record) == match arrival {
                    Some(arrival) => echoed(
                        input_record(arrival.received, arrival.line@),
                        session.echo_enabled,
                    ),
                    None => None,
                }
                &&& final(self).dropped == match arrival {
                    Some(arrival) => if input_record(arrival.received, arrival.line@) is None {
                        bumped(old(self).dropped)
                    } else {
                        old(self).dropped
                    },
                    None => old(self).dropped,
                }
            },
    {
        if self.stopped {
            return Turn { record: None, stop: true };
        }
        let record = match arrival {
            Some(arrival) => match record_input_line(&arrival.received, arrival.line.as_str()) {
                Some(text) => Some(Record { text, echo: session.echo_enabled }),
                None => {
                    self.count_drop();
                    None
                },
            },
            None => None,
        };
        self.stopped = cancelled;
        Turn { record, stop: cancelled }
    }
}

} // verus!
