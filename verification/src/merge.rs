//! The chronological merge engine: a two-way merge by look-ahead that holds
//! one pending line per source.
//!
//! [`Merger`] is the engine as a state machine. Its driver performs each
//! [`Action`] it is handed: it pulls a line from a source and supplies it, or
//! writes a line out, until the machine finishes or, after a failed read,
//! fails. [`merge_entries`] and
//! [`merge_logs`] drive it over logs held in memory, and [`interleaved`] and
//! [`merged`] say what comes out.

use vstd::prelude::*;
use crate::instant::Instant;
use crate::line::{get_line, line_text, split_line, stamp_of, LineError};
use crate::text::texts;

verus! {

/// The two sources of a session.
#[derive(Clone, Copy, Debug, PartialEq, Eq, Structural)]
pub enum Source {
    /// The kernel or system log written by the logging facility.
    System,
    /// The lines typed by the operator.
    Input,
}

/// A line together with the reading of its timestamp: `None` where the line
/// bears none that can be read.
#[derive(Clone, Debug, PartialEq, Eq)]
pub struct Entry {
    pub stamp: Option<Instant>,
    pub line: String,
}

/// What an [`Entry`] holds.
pub struct EntryView {
    pub stamp: Option<Instant>,
    pub line: Seq<char>,
}

impl View for Entry {
    type V = EntryView;

    open spec fn view(&self) -> EntryView {
        EntryView { stamp: self.stamp, line: self.line@ }
    }
}

impl Entry {
    /// A copy of the entry.
    pub fn duplicate(&self) -> (r: Entry)
        ensures
            r@ == self@,
    {
        Entry { stamp: self.stamp, line: self.line.clone() }
    }
}

/// What was pulled from a source: an entry, or nothing at its end.
pub open spec fn pulled_view(pulled: Option<Entry>) -> Option<EntryView> {
    match pulled {
        Some(entry) => Some(entry@),
        None => None,
    }
}

/// The look-ahead of one source.
enum Slot {
    /// The next line has yet to be pulled.
    Wanted,
    /// The pending line.
    Holding(Entry),
    /// The source gave no further line.
    Ended,
}

/// What a [`Slot`] holds.
pub enum SlotView {
    Wanted,
    Holding(EntryView),
    Ended,
}

impl View for Slot {
    type V = SlotView;

    closed spec fn view(&self) -> SlotView {
        match self {
            Slot::Wanted => SlotView::Wanted,
            Slot::Holding(entry) => SlotView::Holding(entry@),
            Slot::Ended => SlotView::Ended,
        }
    }
}

impl SlotView {
    /// The source is exhausted as far as ordering goes: it ended, or its
    /// pending line bears no timestamp.
    pub open spec fn lapsed(self) -> bool {
        match self {
            SlotView::Wanted => false,
            SlotView::Holding(entry) => entry.stamp is None,
            SlotView::Ended => true,
        }
    }
}

/// Where a merge stands.
#[derive(Clone, Copy, Debug, PartialEq, Eq, Structural)]
pub enum Phase {
    /// Both sources are compared line by line.
    Interleaving,
    /// One source is exhausted; the other is copied out as it is.
    Draining(Source),
    /// Nothing is left to write.
    Finished,
    /// A read from the source failed: the merge cannot be completed.
    Failed(Source),
}

/// What the driver of a [`Merger`] does next.
#[derive(Clone, Debug, PartialEq, Eq)]
pub enum Action {
    /// Pull the next line of the source and supply it.
    Pull(Source),
    /// Write the line to the output.
    Emit(String),
    /// Close the output: the merge is complete.
    Finish,
    /// Give up: a read from the source failed and the output is incomplete.
    Fail(Source),
}

/// What an [`Action`] holds.
pub enum ActionView {
    Pull(Source),
    Emit(Seq<char>),
    Finish,
    Fail(Source),
}

impl View for Action {
    type V = ActionView;

    open spec fn view(&self) -> ActionView {
        match self {
            Action::Pull(source) => ActionView::Pull(*source),
            Action::Emit(line) => ActionView::Emit(line@),
            Action::Finish => ActionView::Finish,
            Action::Fail(source) => ActionView::Fail(*source),
        }
    }
}

/// The state of a merge: the look-ahead of each source and the phase.
pub struct Merger {
    system: Slot,
    input: Slot,
    phase: Phase,
}

/// What a [`Merger`] holds.
pub struct MergerView {
    pub system: SlotView,
    pub input: SlotView,
    pub phase: Phase,
}

impl View for Merger {
    type V = MergerView;

    closed spec fn view(&self) -> MergerView {
        MergerView { system: self.system@, input: self.input@, phase: self.phase }
    }
}

impl MergerView {
    /// The state in which a merge starts: a line is wanted from each source.
    pub open spec fn initial() -> MergerView {
        MergerView {
            system: SlotView::Wanted,
            input: SlotView::Wanted,
            phase: Phase::Interleaving,
        }
    }

    /// The look-ahead of a source.
    pub open spec fn slot(self, source: Source) -> SlotView {
        match source {
            Source::System => self.system,
            Source::Input => self.input,
        }
    }

    /// The state with the look-ahead of a source replaced.
    pub open spec fn with_slot(self, source: Source, slot: SlotView) -> MergerView {
        match source {
            Source::System => MergerView { system: slot, ..self },
            Source::Input => MergerView { input: slot, ..self },
        }
    }

    /// Whether the machine asks for a line of the source: its look-ahead is
    /// empty and the merge has not failed.
    pub open spec fn wants(self, source: Source) -> bool {
        self.slot(source) is Wanted && !(self.phase is Failed)
    }

    /// The state after a pulled line was supplied. A line that was not asked
    /// for changes nothing.
    pub open spec fn supplied(self, source: Source, pulled: Option<EntryView>) -> MergerView {
        if self.wants(source) {
            match pulled {
                Some(entry) => self.with_slot(source, SlotView::Holding(entry)),
                None => self.with_slot(source, SlotView::Ended),
            }
        } else {
            self
        }
    }

    /// The state after a read from the source failed: the merge has failed,
    /// in whichever phase it was. A read that was not asked for changes
    /// nothing.
    pub open spec fn failed(self, source: Source) -> MergerView {
        if self.wants(source) {
            MergerView { phase: Phase::Failed(source), ..self }
        } else {
            self
        }
    }

    /// One step of copying out the source `from`: pull where a line is
    /// wanted, write the pending line, finish at the end.
    pub open spec fn drained(self, from: Source) -> (MergerView, ActionView) {
        let state = MergerView { phase: Phase::Draining(from), ..self };
        match self.slot(from) {
            SlotView::Wanted => (state, ActionView::Pull(from)),
            SlotView::Holding(entry) => (
                state.with_slot(from, SlotView::Wanted),
                ActionView::Emit(entry.line),
            ),
            SlotView::Ended => (
                MergerView { phase: Phase::Finished, ..self },
                ActionView::Finish,
            ),
        }
    }

    /// One step of the merge: the state it leads to and what the driver is
    /// asked to do.
    ///
    /// While interleaving, a line is pulled wherever one is wanted, the
    /// operator's input first. With a line pending on both sides the one with
    /// the strictly earlier timestamp is written, and on equal timestamps the
    /// operator's. Once a source has lapsed the other one is copied out, the
    /// system log if both have. A merge that has failed stays failed.
    pub open spec fn advanced(self) -> (MergerView, ActionView) {
        match self.phase {
            Phase::Interleaving => {
                if self.input is Wanted {
                    (self, ActionView::Pull(Source::Input))
                } else if self.system is Wanted {
                    (self, ActionView::Pull(Source::System))
                } else if self.input.lapsed() {
                    self.drained(Source::System)
                } else if self.system.lapsed() {
                    self.drained(Source::Input)
                } else if self.system->Holding_0.stamp->0.precedes(
                    self.input->Holding_0.stamp->0,
                ) {
                    (
                        self.with_slot(Source::System, SlotView::Wanted),
                        ActionView::Emit(self.system->Holding_0.line),
                    )
                } else {
                    (
                        self.with_slot(Source::Input, SlotView::Wanted),
                        ActionView::Emit(self.input->Holding_0.line),
                    )
                }
            },
            Phase::Draining(from) => self.drained(from),
            Phase::Finished => (self, ActionView::Finish),
            Phase::Failed(source) => (self, ActionView::Fail(source)),
        }
    }
}

/// Takes the pending entry out of a slot, which then wants a line.
fn take_entry(slot: &mut Slot) -> (r: Option<Entry>)
    ensures
        match old(slot)@ {
            SlotView::Holding(entry) => r matches Some(e) && e@ == entry && final(slot)@
                == SlotView::Wanted,
            _ => r is None && final(slot)@ == old(slot)@,
        },
{
    let mut taken = Slot::Wanted;
    std::mem::swap(slot, &mut taken);
    match taken {
        Slot::Holding(entry) => Some(entry),
        Slot::Wanted => None,
        Slot::Ended => {
            *slot = Slot::Ended;
            None
        },
    }
}

/// Whether a slot wants a line.
fn is_wanted(slot: &Slot) -> (r: bool)
    ensures
        r == (slot@ is Wanted),
{
    match slot {
        Slot::Wanted => true,
        _ => false,
    }
}

/// Whether the source of a slot has lapsed.
fn has_lapsed(slot: &Slot) -> (r: bool)
    ensures
        r == slot@.lapsed(),
{
    match slot {
        Slot::Wanted => false,
        Slot::Holding(entry) => entry.stamp.is_none(),
        Slot::Ended => true,
    }
}

impl Merger {
    /// A merge at its start.
    pub fn new() -> (m: Merger)
        ensures
            m@ == MergerView::initial(),
    {
        Merger { system: Slot::Wanted, input: Slot::Wanted, phase: Phase::Interleaving }
    }

    /// The phase the merge is in.
    pub fn phase(&self) -> (p: Phase)
        ensures
            p == self@.phase,
    {
        self.phase
    }

    /// Hands the machine what was pulled from `source`: an entry, or `None`
    /// at the end of the source. Returns whether the line was asked for; one
    /// that was not is dropped and the state stays as it is.
    pub fn supply(&mut self, source: Source, pulled: Option<Entry>) -> (taken: bool)
        ensures
            taken == old(self)@.wants(source),
            final(self)@ == old(self)@.supplied(source, pulled_view(pulled)),
    {
        if !self.wants(source) {
            return false;
        }
        let slot = match pulled {
            Some(entry) => Slot::Holding(entry),
            None => Slot::Ended,
        };
        match source {
            Source::System => {
                self.system = slot;
            },
            Source::Input => {
                self.input = slot;
            },
        }
        true
    }

    /// Whether the machine asks for a line of the source.
    pub fn wants(&self, source: Source) -> (r: bool)
        ensures
            r == self@.wants(source),
    {
        let wanted = match source {
            Source::System => is_wanted(&self.system),
            Source::Input => is_wanted(&self.input),
        };
        match self.phase {
            Phase::Failed(_) => false,
            _ => wanted,
        }
    }

    /// Tells the machine that the read it asked for from `source` failed.
    /// The merge has then failed, whether it was interleaving or copying
    /// out. Returns whether a read was asked for; one that was not changes
    /// nothing.
    pub fn fail(&mut self, source: Source) -> (taken: bool)
        ensures
            taken == old(self)@.wants(source),
            final(self)@ == old(self)@.failed(source),
    {
        if self.wants(source) {
            self.phase = Phase::Failed(source);
            true
        } else {
            false
        }
    }

    /// Hands the machine what a read from `source` gave: a line, the end of
    /// the source, or a failure. While interleaving a line's timestamp is
    /// read; while a source is copied out the line is taken as it is.
    ///
    /// Only the end of the source ends it. A failed read that was asked for
    /// fails the merge and comes back as `Unreadable`, with the read error's
    /// own text. Otherwise the result says whether the line was asked for.
    pub fn supply_raw(
        &mut self,
        source: Source,
        raw: &Option<Result<String, std::io::Error>>,
    ) -> (r: Result<bool, LineError>)
        ensures
            match r {
                Ok(taken) => {
                    &&& taken == old(self)@.wants(source)
                    &&& !(taken && *raw matches Some(Err(_)))
                    &&& final(self)@ == old(self)@.supplied(
                        source,
                        raw_entry(*raw, old(self)@.phase == Phase::Interleaving),
                    )
                },
                Err(e) => {
                    &&& *raw matches Some(Err(cause))
                    &&& e matches LineError::Unreadable(text)
                    &&& vstd::string::to_string_from_display_ensures::<std::io::Error>(
                        &cause,
                        text,
                    )
                    &&& old(self)@.wants(source)
                    &&& final(self)@ == old(self)@.failed(source)
                },
            },
    {
        if !self.wants(source) {
            return Ok(false);
        }
        match get_line(raw) {
            Ok(line) => {
                let entry = if self.phase == Phase::Interleaving {
                    read_entry(line)
                } else {
                    Entry { stamp: None, line }
                };
                Ok(self.supply(source, Some(entry)))
            },
            Err(LineError::NoLine) => Ok(self.supply(source, None)),
            Err(e) => {
                self.fail(source);
                Err(e)
            },
        }
    }

    /// Takes one step and returns what the driver is to do.
    pub fn advance(&mut self) -> (action: Action)
        ensures
            (final(self)@, action@) == old(self)@.advanced(),
    {
        match self.phase {
            Phase::Interleaving => {
                if is_wanted(&self.input) {
                    Action::Pull(Source::Input)
                } else if is_wanted(&self.system) {
                    Action::Pull(Source::System)
                } else if has_lapsed(&self.input) {
                    self.drain(Source::System)
                } else if has_lapsed(&self.system) {
                    self.drain(Source::Input)
                } else {
                    let system_first = match (&self.system, &self.input) {
                        (Slot::Holding(s), Slot::Holding(i)) => match (&s.stamp, &i.stamp) {
                            (Some(a), Some(b)) => a.is_before(b),
                            _ => false,
                        },
                        _ => false,
                    };
                    let taken = if system_first {
                        take_entry(&mut self.system)
                    } else {
                        take_entry(&mut self.input)
                    };
                    match taken {
                        Some(entry) => Action::Emit(entry.line),
                        None => Action::Finish,
                    }
                }
            },
            Phase::Draining(from) => self.drain(from),
            Phase::Finished => Action::Finish,
            Phase::Failed(source) => Action::Fail(source),
        }
    }

    /// One step of copying out the source `from`.
    fn drain(&mut self, from: Source) -> (action: Action)
        ensures
            (final(self)@, action@) == old(self)@.drained(from),
    {
        let wanted = match from {
            Source::System => is_wanted(&self.system),
            Source::Input => is_wanted(&self.input),
        };
        if wanted {
            self.phase = Phase::Draining(from);
            return Action::Pull(from);
        }
        let taken = match from {
            Source::System => take_entry(&mut self.system),
            Source::Input => take_entry(&mut self.input),
        };
        match taken {
            Some(entry) => {
                self.phase = Phase::Draining(from);
                Action::Emit(entry.line)
            },
            None => {
                self.phase = Phase::Finished;
                Action::Finish
            },
        }
    }
}

/// The entry that a line of text makes: the line with the reading of its
/// timestamp.
pub open spec fn entry_of(line: Seq<char>) -> EntryView {
    EntryView { stamp: stamp_of(line), line }
}

/// What a read from a source supplies: nothing at the end of the source,
/// else the line, with the reading of its timestamp where `stamped`. (A
/// failed read supplies nothing either; the machine is told of it apart.)
pub open spec fn raw_entry(
    raw: Option<Result<String, std::io::Error>>,
    stamped: bool,
) -> Option<EntryView> {
    match line_text(raw) {
        Some(text) => Some(
            if stamped {
                entry_of(text)
            } else {
                EntryView { stamp: None, line: text }
            },
        ),
        None => None,
    }
}

/// Reads the timestamp of a line.
pub fn read_entry(line: String) -> (r: Entry)
    ensures
        r@ == entry_of(line@),
{
    let stamp = match split_line(line.as_str()) {
        Ok(pair) => Some(pair.0),
        Err(_) => None,
    };
    Entry { stamp, line }
}

/// The lines of a log of entries.
pub open spec fn lines_of(entries: Seq<EntryView>) -> Seq<Seq<char>> {
    Seq::new(entries.len(), |i: int| entries[i].line)
}

/// What each entry of `v` holds.
pub open spec fn entries_of(v: Seq<Entry>) -> Seq<EntryView> {
    Seq::new(v.len(), |i: int| v[i]@)
}

/// The entries that the lines of a log make.
pub open spec fn read(lines: Seq<Seq<char>>) -> Seq<EntryView> {
    Seq::new(lines.len(), |i: int| entry_of(lines[i]))
}

/// The merge of two logs of entries.
///
/// A source counts as exhausted at its end and at its first entry without a
/// timestamp. While neither is, the entry with the strictly earlier timestamp
/// comes next, and on equal timestamps the operator's. Once the operator's
/// input is exhausted, what is left of the system log follows as it is;
/// otherwise, once the system log is, what is left of the input does.
pub open spec fn interleaved(system: Seq<EntryView>, input: Seq<EntryView>) -> Seq<Seq<char>>
    decreases system.len() + input.len(),
{
    if input.len() == 0 || input[0].stamp is None {
        lines_of(system)
    } else if system.len() == 0 || system[0].stamp is None {
        lines_of(input)
    } else if system[0].stamp->0.precedes(input[0].stamp->0) {
        seq![system[0].line] + interleaved(system.skip(1), input)
    } else {
        seq![input[0].line] + interleaved(system, input.skip(1))
    }
}

/// The merge of two logs of lines, each line ordered by the timestamp that
/// its first word gives: [`interleaved`], stated on the lines themselves.
pub open spec fn merged(system: Seq<Seq<char>>, input: Seq<Seq<char>>) -> Seq<Seq<char>>
    decreases system.len() + input.len(),
{
    if input.len() == 0 || stamp_of(input[0]) is None {
        system
    } else if system.len() == 0 || stamp_of(system[0]) is None {
        input
    } else if stamp_of(system[0])->0.precedes(stamp_of(input[0])->0) {
        seq![system[0]] + merged(system.skip(1), input)
    } else {
        seq![input[0]] + merged(system, input.skip(1))
    }
}

/// Merging the entries that two logs of lines make gives the merge of the
/// lines.
pub proof fn lemma_interleaved_read(system: Seq<Seq<char>>, input: Seq<Seq<char>>)
    ensures
        interleaved(read(system), read(input)) == merged(system, input),
    decreases system.len() + input.len(),
{
    assert(lines_of(read(system)) == system);
    assert(lines_of(read(input)) == input);
    if input.len() == 0 || stamp_of(input[0]) is None {
    } else if system.len() == 0 || stamp_of(system[0]) is None {
    } else if stamp_of(system[0])->0.precedes(stamp_of(input[0])->0) {
        assert(read(system).skip(1) == read(system.skip(1)));
        lemma_interleaved_read(system.skip(1), input);
    } else {
        assert(read(input).skip(1) == read(input.skip(1)));
        lemma_interleaved_read(system, input.skip(1));
    }
}

/// The entries of a source that a merge has yet to deal with: the pending
/// entry, if any, and those not yet pulled.
pub open spec fn pending(slot: SlotView, rest: Seq<EntryView>) -> Seq<EntryView> {
    match slot {
        SlotView::Wanted => rest,
        SlotView::Holding(entry) => seq![entry] + rest,
        SlotView::Ended => Seq::empty(),
    }
}

/// The lines that a merge in state `m` has yet to write, given the entries
/// that are left in each source.
pub open spec fn outstanding(
    m: MergerView,
    system: Seq<EntryView>,
    input: Seq<EntryView>,
) -> Seq<Seq<char>> {
    match m.phase {
        Phase::Interleaving => interleaved(pending(m.system, system), pending(m.input, input)),
        Phase::Draining(Source::System) => lines_of(pending(m.system, system)),
        Phase::Draining(Source::Input) => lines_of(pending(m.input, input)),
        Phase::Finished => Seq::empty(),
        Phase::Failed(_) => Seq::empty(),
    }
}

/// The weight of a slot in the measure by which a merge comes to its end.
pub open spec fn slot_weight(slot: SlotView) -> int {
    match slot {
        SlotView::Wanted => 1,
        SlotView::Holding(_) => 2,
        SlotView::Ended => 0,
    }
}

/// A step that writes a line, or finishes, leaves the outstanding lines as
/// they were but for the line written.
pub proof fn lemma_advance_keeps_outstanding(
    m: MergerView,
    system: Seq<EntryView>,
    input: Seq<EntryView>,
)
    requires
        !(m.advanced().1 is Pull),
        !(m.phase is Failed),
    ensures
        m.advanced().1 matches ActionView::Emit(line) ==> {
            &&& outstanding(m, system, input) == seq![line] + outstanding(
                m.advanced().0,
                system,
                input,
            )
            &&& slot_weight(m.advanced().0.system) + slot_weight(m.advanced().0.input)
                < slot_weight(m.system) + slot_weight(m.input)
        },
        m.advanced().1 is Finish ==> outstanding(m, system, input) == Seq::<Seq<char>>::empty(),
{
    let (after, action) = m.advanced();
    let s = pending(m.system, system);
    let i = pending(m.input, input);
    match m.phase {
        Phase::Interleaving => {
            if m.input.lapsed() {
                assert(outstanding(m, system, input) == lines_of(s));
                lemma_drain_keeps_lines(m, Source::System, system);
            } else if m.system.lapsed() {
                assert(outstanding(m, system, input) == lines_of(i));
                lemma_drain_keeps_lines(m, Source::Input, input);
            } else if m.system->Holding_0.stamp->0.precedes(m.input->Holding_0.stamp->0) {
                assert(s.skip(1) == system);
            } else {
                assert(i.skip(1) == input);
            }
        },
        Phase::Draining(Source::System) => {
            lemma_drain_keeps_lines(m, Source::System, system);
        },
        Phase::Draining(Source::Input) => {
            lemma_drain_keeps_lines(m, Source::Input, input);
        },
        Phase::Finished => {},
        Phase::Failed(_) => {},
    }
}

/// Copying out a source writes its pending entry and leaves the rest.
proof fn lemma_drain_keeps_lines(m: MergerView, from: Source, rest: Seq<EntryView>)
    requires
        !(m.slot(from) is Wanted),
    ensures
        m.drained(from).1 matches ActionView::Emit(line) ==> {
            &&& lines_of(pending(m.slot(from), rest)) == seq![line] + lines_of(
                pending(m.drained(from).0.slot(from), rest),
            )
            &&& m.drained(from).0.phase == Phase::Draining(from)
            &&& slot_weight(m.drained(from).0.system) + slot_weight(m.drained(from).0.input)
                < slot_weight(m.system) + slot_weight(m.input)
        },
        m.drained(from).1 is Finish ==> lines_of(pending(m.slot(from), rest)) == Seq::<
            Seq<char>,
        >::empty(),
        !(m.drained(from).1 is Pull),
{
}

/// Supplying the next entry of a source, or its end, leaves the outstanding
/// lines as they were.
pub proof fn lemma_supply_keeps_outstanding(
    m: MergerView,
    source: Source,
    system: Seq<EntryView>,
    input: Seq<EntryView>,
)
    requires
        m.wants(source),
        m.phase is Draining ==> m.phase == Phase::Draining(source),
    ensures
        ({
            let rest = if source == Source::System { system } else { input };
            let pulled = if rest.len() > 0 { Some(rest[0]) } else { None };
            let left = if rest.len() > 0 { rest.skip(1) } else { rest };
            outstanding(m, system, input) == outstanding(
                m.supplied(source, pulled),
                if source == Source::System { left } else { system },
                if source == Source::Input { left } else { input },
            )
        }),
{
    let rest = if source == Source::System { system } else { input };
    if rest.len() > 0 {
        assert(seq![rest[0]] + rest.skip(1) == rest);
    }
}

/// Merges two logs of entries held in memory.
pub fn merge_entries(system: &Vec<Entry>, input: &Vec<Entry>) -> (out: Vec<String>)
    ensures
        texts(out@) == interleaved(entries_of(system@), entries_of(input@)),
{
    let ghost a = entries_of(system@);
    let ghost b = entries_of(input@);
    let mut merger = Merger::new();
    let mut out: Vec<String> = Vec::new();
    let mut i: usize = 0;
    let mut j: usize = 0;
    assert(a.skip(0) == a && b.skip(0) == b);
    loop
        invariant_except_break
            texts(out@) + outstanding(merger@, a.skip(i as int), b.skip(j as int)) == interleaved(
                a,
                b,
            ),
        invariant
            a == entries_of(system@),
            b == entries_of(input@),
            i <= system.len(),
            j <= input.len(),
            !(merger@.phase is Failed),
        ensures
            texts(out@) == interleaved(a, b),
        decreases
            2 * (system.len() - i) + 2 * (input.len() - j) + slot_weight(merger@.system)
                + slot_weight(merger@.input),
    {
        let ghost before = merger@;
        let ghost written = texts(out@);
        match merger.advance() {
            Action::Pull(source) => {
                proof {
                    lemma_supply_keeps_outstanding(
                        before,
                        source,
                        a.skip(i as int),
                        b.skip(j as int),
                    );
                }
                match source {
                    Source::System => {
                        if i < system.len() {
                            assert(a.skip(i as int)[0] == system@[i as int]@);
                            assert(a.skip(i as int).skip(1) == a.skip(i + 1));
                            merger.supply(source, Some(system[i].duplicate()));
                            i += 1;
                        } else {
                            merger.supply(source, None);
                        }
                    },
                    Source::Input => {
                        if j < input.len() {
                            assert(b.skip(j as int)[0] == input@[j as int]@);
                            assert(b.skip(j as int).skip(1) == b.skip(j + 1));
                            merger.supply(source, Some(input[j].duplicate()));
                            j += 1;
                        } else {
                            merger.supply(source, None);
                        }
                    },
                }
            },
            Action::Emit(line) => {
                proof {
                    lemma_advance_keeps_outstanding(before, a.skip(i as int), b.skip(j as int));
                }
                out.push(line);
                assert(texts(out@) == written + seq![line@]);
            },
            Action::Finish | Action::Fail(_) => {
                proof {
                    lemma_advance_keeps_outstanding(before, a.skip(i as int), b.skip(j as int));
                }
                break ;
            },
        }
    }
    out
}

/// Merges two logs of lines held in memory: reads each line's timestamp and
/// merges the entries.
pub fn merge_logs(system: &Vec<String>, input: &Vec<String>) -> (out: Vec<String>)
    ensures
        texts(out@) == merged(texts(system@), texts(input@)),
{
    let a = read_log(system);
    let b = read_log(input);
    proof {
        lemma_interleaved_read(texts(system@), texts(input@));
    }
    merge_entries(&a, &b)
}

/// Reads the timestamp of every line of a log.
pub fn read_log(lines: &Vec<String>) -> (r: Vec<Entry>)
    ensures
        entries_of(r@) == read(texts(lines@)),
{
    let mut out: Vec<Entry> = Vec::new();
    let mut i: usize = 0;
    while i < lines.len()
        invariant
            i <= lines.len(),
            entries_of(out@) == read(texts(lines@)).take(i as int),
        decreases lines.len() - i,
    {
        let ghost before = entries_of(out@);
        out.push(read_entry(lines[i].clone()));
        assert(entries_of(out@) == before.push(entry_of(lines@[i as int]@)));
        i += 1;
    }
    assert(read(texts(lines@)).take(lines.len() as int) == read(texts(lines@)));
    out
}

} // verus!
