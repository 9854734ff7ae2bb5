//! What holds of every merge.

use vstd::prelude::*;
use vstd::seq_lib::lemma_multiset_commutative;
use crate::capture::{
    input_record, is_one_line, lemma_record_is_one_line, record_text, system_record,
};
use crate::instant::Instant;
use crate::line::{message_of, stamp_of};
use crate::merge::merged;
use crate::stamp::{instant_of, stamp_text};
use crate::text::{is_space, is_word, joined, lemma_first_token, lemma_tokens_are_words, tokens};

verus! {

/// Every line of the log begins with a timestamp.
pub open spec fn all_stamped(lines: Seq<Seq<char>>) -> bool {
    forall|i: int| 0 <= i < lines.len() ==> stamp_of(#[trigger] lines[i]) is Some
}

/// No line of the log is stamped earlier than a line before it.
pub open spec fn chronological(lines: Seq<Seq<char>>) -> bool {
    forall|i: int, j: int|
        0 <= i <= j < lines.len() ==> !stamp_of(#[trigger] lines[j])->0.precedes(
            stamp_of(#[trigger] lines[i])->0,
        )
}

/// The messages of the lines of a log.
pub open spec fn messages(lines: Seq<Seq<char>>) -> Seq<Seq<char>> {
    Seq::new(lines.len(), |i: int| message_of(lines[i]))
}

/// Whether, in the merge of the two logs, the operator's input is the source
/// that is exhausted first, so that the system log is the one copied out.
pub open spec fn input_lapses_first(system: Seq<Seq<char>>, input: Seq<Seq<char>>) -> bool
    decreases system.len() + input.len(),
{
    if input.len() == 0 || stamp_of(input[0]) is None {
        true
    } else if system.len() == 0 || stamp_of(system[0]) is None {
        false
    } else if stamp_of(system[0])->0.precedes(stamp_of(input[0])->0) {
        input_lapses_first(system.skip(1), input)
    } else {
        input_lapses_first(system, input.skip(1))
    }
}

/// `out` is an interleaving of the two logs: it holds the lines of both,
/// those of each log in the order in which the log holds them.
pub open spec fn weaves(out: Seq<Seq<char>>, system: Seq<Seq<char>>, input: Seq<Seq<char>>) -> bool
    decreases out.len(),
{
    if out.len() == 0 {
        system.len() == 0 && input.len() == 0
    } else {
        ||| system.len() > 0 && out[0] == system[0] && weaves(out.skip(1), system.skip(1), input)
        ||| input.len() > 0 && out[0] == input[0] && weaves(out.skip(1), system, input.skip(1))
    }
}

/// The number of lines of the log that are stamped earlier than `t`.
pub open spec fn lines_before(lines: Seq<Seq<char>>, t: Instant) -> nat
    decreases lines.len(),
{
    if lines.len() == 0 {
        0
    } else if stamp_of(lines[0])->0.precedes(t) {
        1 + lines_before(lines.skip(1), t)
    } else {
        lines_before(lines.skip(1), t)
    }
}

/// The number of lines of the log that are stamped no later than `t`.
pub open spec fn lines_up_to(lines: Seq<Seq<char>>, t: Instant) -> nat
    decreases lines.len(),
{
    if lines.len() == 0 {
        0
    } else if !t.precedes(stamp_of(lines[0])->0) {
        1 + lines_up_to(lines.skip(1), t)
    } else {
        lines_up_to(lines.skip(1), t)
    }
}

/// A log without its first line is stamped and ordered as the log is.
proof fn lemma_rest_of_log(lines: Seq<Seq<char>>)
    requires
        lines.len() > 0,
    ensures
        all_stamped(lines) ==> all_stamped(lines.skip(1)),
        all_stamped(lines) && chronological(lines) ==> chronological(lines.skip(1)),
        seq![lines[0]] + lines.skip(1) == lines,
        messages(lines.skip(1)) == messages(lines).skip(1),
{
    let rest = lines.skip(1);
    if all_stamped(lines) {
        assert forall|i: int| 0 <= i < rest.len() implies stamp_of(#[trigger] rest[i]) is Some by {
            assert(rest[i] == lines[i + 1]);
        }
        if chronological(lines) {
            assert forall|i: int, j: int| 0 <= i <= j < rest.len() implies !stamp_of(
                #[trigger] rest[j],
            )->0.precedes(stamp_of(#[trigger] rest[i])->0) by {
                assert(rest[i] == lines[i + 1]);
                assert(rest[j] == lines[j + 1]);
            }
        }
    }
}

/// Every line of a merge is a line of one of the two logs.
pub proof fn lemma_merged_line_has_source(
    system: Seq<Seq<char>>,
    input: Seq<Seq<char>>,
    k: int,
)
    requires
        0 <= k < merged(system, input).len(),
    ensures
        system.contains(merged(system, input)[k]) || input.contains(merged(system, input)[k]),
    decreases system.len() + input.len(),
{
    if input.len() == 0 || stamp_of(input[0]) is None {
        assert(system[k] == merged(system, input)[k]);
    } else if system.len() == 0 || stamp_of(system[0]) is None {
        assert(input[k] == merged(system, input)[k]);
    } else if stamp_of(system[0])->0.precedes(stamp_of(input[0])->0) {
        if k == 0 {
            assert(system[0] == merged(system, input)[0]);
        } else {
            let rest = system.skip(1);
            lemma_merged_line_has_source(rest, input, k - 1);
            let line = merged(rest, input)[k - 1];
            if rest.contains(line) {
                let m = choose|m: int| 0 <= m < rest.len() && rest[m] == line;
                assert(system[m + 1] == line);
            }
        }
    } else {
        if k == 0 {
            assert(input[0] == merged(system, input)[0]);
        } else {
            let rest = input.skip(1);
            lemma_merged_line_has_source(system, rest, k - 1);
            let line = merged(system, rest)[k - 1];
            if rest.contains(line) {
                let m = choose|m: int| 0 <= m < rest.len() && rest[m] == line;
                assert(input[m + 1] == line);
            }
        }
    }
}

/// Where every line of both logs begins with a timestamp, the merge holds
/// the lines of the two logs, each as often as they hold it, and so with the
/// messages; and every line of the merge begins with a timestamp.
pub proof fn lemma_merge_keeps_every_line(system: Seq<Seq<char>>, input: Seq<Seq<char>>)
    requires
        all_stamped(system),
        all_stamped(input),
    ensures
        merged(system, input).to_multiset() == system.to_multiset().add(input.to_multiset()),
        messages(merged(system, input)).to_multiset() == messages(system).to_multiset().add(
            messages(input).to_multiset(),
        ),
        all_stamped(merged(system, input)),
        merged(system, input).len() == system.len() + input.len(),
    decreases system.len() + input.len(),
{
    broadcast use vstd::multiset::group_multiset_axioms;

    let out = merged(system, input);
    if input.len() == 0 {
        assert(system + input == system);
        assert(messages(system) + messages(input) == messages(system));
        lemma_multiset_commutative(system, input);
        lemma_multiset_commutative(messages(system), messages(input));
        assert(out.to_multiset() =~= system.to_multiset().add(input.to_multiset()));
        assert(messages(out).to_multiset() =~= messages(system).to_multiset().add(
            messages(input).to_multiset(),
        ));
    } else if system.len() == 0 {
        assert(stamp_of(input[0]) is Some);
        assert(system + input == input);
        assert(messages(system) + messages(input) == messages(input));
        lemma_multiset_commutative(system, input);
        lemma_multiset_commutative(messages(system), messages(input));
        assert(out.to_multiset() =~= system.to_multiset().add(input.to_multiset()));
        assert(messages(out).to_multiset() =~= messages(system).to_multiset().add(
            messages(input).to_multiset(),
        ));
    } else {
        assert(stamp_of(input[0]) is Some);
        assert(stamp_of(system[0]) is Some);
        if stamp_of(system[0])->0.precedes(stamp_of(input[0])->0) {
            let head = seq![system[0]];
            let rest = system.skip(1);
            let tail = merged(rest, input);
            lemma_rest_of_log(system);
            lemma_merge_keeps_every_line(rest, input);
            lemma_multiset_commutative(head, tail);
            lemma_multiset_commutative(head, rest);
            assert(out.to_multiset() =~= system.to_multiset().add(input.to_multiset()));
            assert(messages(out) == messages(head) + messages(tail));
            assert(messages(system) == messages(head) + messages(rest));
            lemma_multiset_commutative(messages(head), messages(tail));
            lemma_multiset_commutative(messages(head), messages(rest));
            assert(messages(out).to_multiset() =~= messages(system).to_multiset().add(
                messages(input).to_multiset(),
            ));
            assert forall|i: int| 0 <= i < out.len() implies stamp_of(#[trigger] out[i]) is Some by {
                if i > 0 {
                    assert(out[i] == tail[i - 1]);
                }
            }
        } else {
            let head = seq![input[0]];
            let rest = input.skip(1);
            let tail = merged(system, rest);
            lemma_rest_of_log(input);
            lemma_merge_keeps_every_line(system, rest);
            lemma_multiset_commutative(head, tail);
            lemma_multiset_commutative(head, rest);
            assert(out.to_multiset() =~= system.to_multiset().add(input.to_multiset()));
            assert(messages(out) == messages(head) + messages(tail));
            assert(messages(input) == messages(head) + messages(rest));
            lemma_multiset_commutative(messages(head), messages(tail));
            lemma_multiset_commutative(messages(head), messages(rest));
            assert(messages(out).to_multiset() =~= messages(system).to_multiset().add(
                messages(input).to_multiset(),
            ));
            assert forall|i: int| 0 <= i < out.len() implies stamp_of(#[trigger] out[i]) is Some by {
                if i > 0 {
                    assert(out[i] == tail[i - 1]);
                }
            }
        }
    }
}

/// Where every line of both logs begins with a timestamp and neither log
/// steps back in time, the merge does not step back in time either.
pub proof fn lemma_merge_is_chronological(system: Seq<Seq<char>>, input: Seq<Seq<char>>)
    requires
        all_stamped(system),
        all_stamped(input),
        chronological(system),
        chronological(input),
    ensures
        chronological(merged(system, input)),
    decreases system.len() + input.len(),
{
    let out = merged(system, input);
    if input.len() == 0 || system.len() == 0 {
        assert(input.len() > 0 ==> stamp_of(input[0]) is Some);
    } else {
        let s0 = stamp_of(system[0])->0;
        let i0 = stamp_of(input[0])->0;
        assert(stamp_of(input[0]) is Some);
        assert(stamp_of(system[0]) is Some);
        let system_first = s0.precedes(i0);
        let rest_system = if system_first { system.skip(1) } else { system };
        let rest_input = if system_first { input } else { input.skip(1) };
        let first = if system_first { system[0] } else { input[0] };
        let tail = merged(rest_system, rest_input);
        lemma_rest_of_log(system);
        lemma_rest_of_log(input);
        lemma_merge_is_chronological(rest_system, rest_input);
        assert(out == seq![first] + tail);
        assert forall|i: int, j: int| 0 <= i <= j < out.len() implies !stamp_of(
            #[trigger] out[j],
        )->0.precedes(stamp_of(#[trigger] out[i])->0) by {
            if i > 0 {
                assert(out[i] == tail[i - 1]);
                assert(out[j] == tail[j - 1]);
            } else if j > 0 {
                let line = tail[j - 1];
                assert(out[j] == line);
                lemma_merged_line_has_source(rest_system, rest_input, j - 1);
                if rest_system.contains(line) {
                    let m = choose|m: int| 0 <= m < rest_system.len() && rest_system[m] == line;
                    let at = if system_first { m + 1 } else { m };
                    assert(system[at] == line);
                    assert(!stamp_of(system[at])->0.precedes(stamp_of(system[0])->0));
                } else {
                    let m = choose|m: int| 0 <= m < rest_input.len() && rest_input[m] == line;
                    let at = if system_first { m } else { m + 1 };
                    assert(input[at] == line);
                    assert(!stamp_of(input[at])->0.precedes(stamp_of(input[0])->0));
                }
            }
        }
    }
}

/// A system line that is pending with a timestamp is written at some point,
/// after at most all of the input: the index of its place in the merge.
pub proof fn lemma_pending_system_line_is_written(
    system: Seq<Seq<char>>,
    input: Seq<Seq<char>>,
) -> (k: int)
    requires
        system.len() > 0,
        stamp_of(system[0]) is Some,
    ensures
        0 <= k <= input.len(),
        k < merged(system, input).len(),
        merged(system, input)[k] == system[0],
    decreases input.len(),
{
    if input.len() == 0 || stamp_of(input[0]) is None {
        0
    } else if stamp_of(system[0])->0.precedes(stamp_of(input[0])->0) {
        0
    } else {
        let k = lemma_pending_system_line_is_written(system, input.skip(1));
        assert(merged(system, input)[k + 1] == merged(system, input.skip(1))[k]);
        k + 1
    }
}

/// Of two pending lines with the same timestamp the operator's is written
/// first: it is the next line of the merge, and the system's line follows
/// further on.
pub proof fn lemma_tie_between_pending_lines(system: Seq<Seq<char>>, input: Seq<Seq<char>>)
    requires
        system.len() > 0,
        input.len() > 0,
        stamp_of(system[0]) is Some,
        stamp_of(input[0]) is Some,
        stamp_of(system[0])->0.coincides(stamp_of(input[0])->0),
    ensures
        merged(system, input) == seq![input[0]] + merged(system, input.skip(1)),
        merged(system, input)[0] == input[0],
        exists|k: int|
            1 <= k < merged(system, input).len() && #[trigger] merged(system, input)[k]
                == system[0],
{
    let k = lemma_pending_system_line_is_written(system, input.skip(1));
    assert(merged(system, input)[k + 1] == merged(system, input.skip(1))[k]);
}

/// A system log merged with no input at all comes out as it is, line for
/// line.
pub proof fn lemma_merge_without_input(system: Seq<Seq<char>>)
    ensures
        merged(system, Seq::empty()) == system,
{
}

/// The operator's input merged with an empty system log comes out as it is,
/// unless its first line bears no timestamp: then nothing comes out.
pub proof fn lemma_merge_without_system_log(input: Seq<Seq<char>>)
    ensures
        merged(Seq::empty(), input) == if input.len() > 0 && stamp_of(input[0]) is None {
            Seq::<Seq<char>>::empty()
        } else {
            input
        },
{
}

/// A system line without a timestamp ends the system log as far as ordering
/// goes: the merge is that of the lines before it with the input. Where the
/// system log is then the one exhausted first, that is the whole merge;
/// where the input is, the rest of the system log follows as it is.
pub proof fn lemma_unstamped_system_line(
    system: Seq<Seq<char>>,
    input: Seq<Seq<char>>,
    k: int,
)
    requires
        0 <= k < system.len(),
        stamp_of(system[k]) is None,
    ensures
        input_lapses_first(system, input) == input_lapses_first(system.take(k), input),
        merged(system, input) == if input_lapses_first(system.take(k), input) {
            merged(system.take(k), input) + system.skip(k)
        } else {
            merged(system.take(k), input)
        },
    decreases system.len() + input.len(),
{
    let before = system.take(k);
    if input.len() == 0 || stamp_of(input[0]) is None {
        assert(before + system.skip(k) == system);
    } else if stamp_of(system[0]) is None {
        if k > 0 {
            assert(before[0] == system[0]);
        }
    } else {
        assert(before[0] == system[0]);
        if stamp_of(system[0])->0.precedes(stamp_of(input[0])->0) {
            let rest = system.skip(1);
            assert(rest[k - 1] == system[k]);
            lemma_unstamped_system_line(rest, input, k - 1);
            assert(rest.take(k - 1) == before.skip(1));
            assert(rest.skip(k - 1) == system.skip(k));
            assert(seq![system[0]] + (merged(before.skip(1), input) + system.skip(k)) == (
                seq![system[0]] + merged(before.skip(1), input)) + system.skip(k));
        } else {
            lemma_unstamped_system_line(system, input.skip(1), k);
            assert(seq![input[0]] + (merged(before, input.skip(1)) + system.skip(k)) == (
                seq![input[0]] + merged(before, input.skip(1))) + system.skip(k));
        }
    }
}

/// An input line without a timestamp ends the input as far as ordering goes:
/// the merge is that of the system log with the lines before it. Where the
/// input is then the one exhausted first, that is the whole merge; where the
/// system log is, the rest of the input follows as it is.
pub proof fn lemma_unstamped_input_line(system: Seq<Seq<char>>, input: Seq<Seq<char>>, k: int)
    requires
        0 <= k < input.len(),
        stamp_of(input[k]) is None,
    ensures
        input_lapses_first(system, input) == input_lapses_first(system, input.take(k)),
        merged(system, input) == if input_lapses_first(system, input.take(k)) {
            merged(system, input.take(k))
        } else {
            merged(system, input.take(k)) + input.skip(k)
        },
    decreases system.len() + input.len(),
{
    let before = input.take(k);
    if stamp_of(input[0]) is None {
        if k > 0 {
            assert(before[0] == input[0]);
        }
    } else {
        assert(before[0] == input[0]);
        if system.len() == 0 || stamp_of(system[0]) is None {
            assert(before + input.skip(k) == input);
        } else if stamp_of(system[0])->0.precedes(stamp_of(input[0])->0) {
            lemma_unstamped_input_line(system.skip(1), input, k);
            assert(seq![system[0]] + (merged(system.skip(1), before) + input.skip(k)) == (
                seq![system[0]] + merged(system.skip(1), before)) + input.skip(k));
        } else {
            let rest = input.skip(1);
            assert(rest[k - 1] == input[k]);
            lemma_unstamped_input_line(system, rest, k - 1);
            assert(rest.take(k - 1) == before.skip(1));
            assert(rest.skip(k - 1) == input.skip(k));
            assert(seq![input[0]] + (merged(system, before.skip(1)) + input.skip(k)) == (
                seq![input[0]] + merged(system, before.skip(1))) + input.skip(k));
        }
    }
}

/// A log alone is an interleaving of itself and an empty log.
proof fn lemma_weaves_one_log(lines: Seq<Seq<char>>)
    ensures
        weaves(lines, lines, Seq::empty()),
        weaves(lines, Seq::empty(), lines),
    decreases lines.len(),
{
    if lines.len() > 0 {
        lemma_weaves_one_log(lines.skip(1));
        assert(Seq::<Seq<char>>::empty().skip(0) == Seq::<Seq<char>>::empty());
    }
}

/// Where every line of both logs begins with a timestamp, the merge is an
/// interleaving of the two: no line is lost, none is written twice, and the
/// lines of each log keep their order.
pub proof fn lemma_merge_weaves_the_logs(system: Seq<Seq<char>>, input: Seq<Seq<char>>)
    requires
        all_stamped(system),
        all_stamped(input),
    ensures
        weaves(merged(system, input), system, input),
    decreases system.len() + input.len(),
{
    let out = merged(system, input);
    if input.len() == 0 {
        lemma_weaves_one_log(system);
        assert(input == Seq::<Seq<char>>::empty());
    } else if system.len() == 0 {
        assert(stamp_of(input[0]) is Some);
        lemma_weaves_one_log(input);
        assert(system == Seq::<Seq<char>>::empty());
    } else {
        assert(stamp_of(input[0]) is Some);
        assert(stamp_of(system[0]) is Some);
        lemma_rest_of_log(system);
        lemma_rest_of_log(input);
        if stamp_of(system[0])->0.precedes(stamp_of(input[0])->0) {
            lemma_merge_weaves_the_logs(system.skip(1), input);
            assert(out.skip(1) == merged(system.skip(1), input));
        } else {
            lemma_merge_weaves_the_logs(system, input.skip(1));
            assert(out.skip(1) == merged(system, input.skip(1)));
        }
    }
}

/// No more lines of a log are stamped before, or up to, an instant than the
/// log holds.
proof fn lemma_count_bounds(lines: Seq<Seq<char>>, t: Instant)
    ensures
        lines_before(lines, t) <= lines.len(),
        lines_up_to(lines, t) <= lines.len(),
    decreases lines.len(),
{
    if lines.len() > 0 {
        lemma_count_bounds(lines.skip(1), t);
    }
}

/// In a log whose lines from index `i` on are not stamped before `t`, at
/// most `i` lines are.
proof fn lemma_lines_before_at_most(lines: Seq<Seq<char>>, t: Instant, i: int)
    requires
        0 <= i <= lines.len(),
        forall|m: int| i <= m < lines.len() ==> !stamp_of(#[trigger] lines[m])->0.precedes(t),
    ensures
        lines_before(lines, t) <= i,
    decreases lines.len(),
{
    if lines.len() > 0 {
        let rest = lines.skip(1);
        let at = if i > 0 { i - 1 } else { 0 };
        assert forall|m: int| at <= m < rest.len() implies !stamp_of(
            #[trigger] rest[m],
        )->0.precedes(t) by {
            assert(rest[m] == lines[m + 1]);
        }
        lemma_lines_before_at_most(rest, t, at);
    }
}

/// In a log whose lines up to index `j` are stamped no later than `t`, more
/// than `j` lines are.
proof fn lemma_lines_up_to_at_least(lines: Seq<Seq<char>>, t: Instant, j: int)
    requires
        0 <= j < lines.len(),
        forall|m: int| 0 <= m <= j ==> !t.precedes(stamp_of(#[trigger] lines[m])->0),
    ensures
        lines_up_to(lines, t) > j,
    decreases lines.len(),
{
    if j > 0 {
        let rest = lines.skip(1);
        assert forall|m: int| 0 <= m <= j - 1 implies !t.precedes(
            stamp_of(#[trigger] rest[m])->0,
        ) by {
            assert(rest[m] == lines[m + 1]);
        }
        lemma_lines_up_to_at_least(rest, t, j - 1);
    }
}

/// Where every line of both logs begins with a timestamp and neither log
/// steps back in time, each line's place in the merge is known: a system
/// line stands behind the system lines before it and behind every input line
/// stamped no later than it; an input line stands behind the input lines
/// before it and behind every system line stamped earlier than it.
pub proof fn lemma_merged_places(system: Seq<Seq<char>>, input: Seq<Seq<char>>)
    requires
        all_stamped(system),
        all_stamped(input),
        chronological(system),
        chronological(input),
    ensures
        merged(system, input).len() == system.len() + input.len(),
        forall|i: int|
            0 <= i < system.len() ==> merged(system, input)[i + lines_up_to(
                input,
                stamp_of(#[trigger] system[i])->0,
            )] == system[i],
        forall|j: int|
            0 <= j < input.len() ==> merged(system, input)[j + lines_before(
                system,
                stamp_of(#[trigger] input[j])->0,
            )] == input[j],
    decreases system.len() + input.len(),
{
    let out = merged(system, input);
    lemma_merge_keeps_every_line(system, input);
    if input.len() == 0 || system.len() == 0 {
        assert(input.len() > 0 ==> stamp_of(input[0]) is Some);
    } else {
        assert(stamp_of(input[0]) is Some);
        assert(stamp_of(system[0]) is Some);
        let s0 = stamp_of(system[0])->0;
        let i0 = stamp_of(input[0])->0;
        lemma_rest_of_log(system);
        lemma_rest_of_log(input);
        if s0.precedes(i0) {
            let rest = system.skip(1);
            let tail = merged(rest, input);
            lemma_merged_places(rest, input);
            lemma_merge_keeps_every_line(rest, input);
            assert forall|i: int| 0 <= i < system.len() implies out[i + lines_up_to(
                input,
                stamp_of(#[trigger] system[i])->0,
            )] == system[i] by {
                let t = stamp_of(system[i])->0;
                lemma_count_bounds(input, t);
                if i == 0 {
                    // Every input line is stamped later than the first system line.
                    assert forall|m: int| 0 <= m < input.len() implies !stamp_of(
                        #[trigger] input[m],
                    )->0.precedes(i0) by {
                        assert(!stamp_of(input[m])->0.precedes(stamp_of(input[0])->0));
                    }
                    lemma_lines_up_to_is_zero(input, t);
                } else {
                    assert(rest[i - 1] == system[i]);
                    assert(out[i + lines_up_to(input, t)] == tail[i - 1 + lines_up_to(input, t)]);
                }
            }
            assert forall|j: int| 0 <= j < input.len() implies out[j + lines_before(
                system,
                stamp_of(#[trigger] input[j])->0,
            )] == input[j] by {
                let t = stamp_of(input[j])->0;
                lemma_count_bounds(rest, t);
                assert(!stamp_of(input[j])->0.precedes(stamp_of(input[0])->0));
                assert(lines_before(system, t) == 1 + lines_before(rest, t));
                assert(out[j + lines_before(system, t)] == tail[j + lines_before(rest, t)]);
            }
        } else {
            let rest = input.skip(1);
            let tail = merged(system, rest);
            lemma_merged_places(system, rest);
            lemma_merge_keeps_every_line(system, rest);
            assert forall|j: int| 0 <= j < input.len() implies out[j + lines_before(
                system,
                stamp_of(#[trigger] input[j])->0,
            )] == input[j] by {
                let t = stamp_of(input[j])->0;
                lemma_count_bounds(system, t);
                if j == 0 {
                    // No system line is stamped earlier than the first input line.
                    assert forall|m: int| 0 <= m < system.len() implies !stamp_of(
                        #[trigger] system[m],
                    )->0.precedes(t) by {
                        assert(!stamp_of(system[m])->0.precedes(stamp_of(system[0])->0));
                    }
                    lemma_lines_before_at_most(system, t, 0);
                } else {
                    assert(rest[j - 1] == input[j]);
                    assert(out[j + lines_before(system, t)] == tail[j - 1 + lines_before(
                        system,
                        t,
                    )]);
                }
            }
            assert forall|i: int| 0 <= i < system.len() implies out[i + lines_up_to(
                input,
                stamp_of(#[trigger] system[i])->0,
            )] == system[i] by {
                let t = stamp_of(system[i])->0;
                lemma_count_bounds(rest, t);
                assert(!stamp_of(system[i])->0.precedes(stamp_of(system[0])->0));
                assert(lines_up_to(input, t) == 1 + lines_up_to(rest, t));
                assert(out[i + lines_up_to(input, t)] == tail[i + lines_up_to(rest, t)]);
            }
        }
    }
}

/// In a log whose lines are all stamped later than `t`, none is stamped up
/// to `t`.
proof fn lemma_lines_up_to_is_zero(lines: Seq<Seq<char>>, t: Instant)
    requires
        forall|m: int| 0 <= m < lines.len() ==> t.precedes(stamp_of(#[trigger] lines[m])->0),
    ensures
        lines_up_to(lines, t) == 0,
    decreases lines.len(),
{
    if lines.len() > 0 {
        let rest = lines.skip(1);
        assert(t.precedes(stamp_of(lines[0])->0));
        assert forall|m: int| 0 <= m < rest.len() implies t.precedes(
            stamp_of(#[trigger] rest[m])->0,
        ) by {
            assert(rest[m] == lines[m + 1]);
        }
        lemma_lines_up_to_is_zero(rest, t);
    }
}

/// Where every line of both logs begins with a timestamp and neither log
/// steps back in time, an input line stands in the merge before every system
/// line that bears the same timestamp.
pub proof fn lemma_tie_puts_input_first(
    system: Seq<Seq<char>>,
    input: Seq<Seq<char>>,
    i: int,
    j: int,
)
    requires
        all_stamped(system),
        all_stamped(input),
        chronological(system),
        chronological(input),
        0 <= i < system.len(),
        0 <= j < input.len(),
        stamp_of(system[i])->0.coincides(stamp_of(input[j])->0),
    ensures
        ({
            let at_input = j + lines_before(system, stamp_of(input[j])->0);
            let at_system = i + lines_up_to(input, stamp_of(system[i])->0);
            &&& 0 <= at_input < at_system < merged(system, input).len()
            &&& merged(system, input)[at_input] == input[j]
            &&& merged(system, input)[at_system] == system[i]
        }),
{
    let of_input = stamp_of(input[j])->0;
    let of_system = stamp_of(system[i])->0;
    lemma_merged_places(system, input);
    lemma_count_bounds(input, of_system);
    assert forall|m: int| i <= m < system.len() implies !stamp_of(
        #[trigger] system[m],
    )->0.precedes(of_input) by {
        assert(!stamp_of(system[m])->0.precedes(stamp_of(system[i])->0));
    }
    lemma_lines_before_at_most(system, of_input, i);
    assert forall|m: int| 0 <= m <= j implies !of_system.precedes(
        stamp_of(#[trigger] input[m])->0,
    ) by {
        assert(!stamp_of(input[j])->0.precedes(stamp_of(input[m])->0));
    }
    lemma_lines_up_to_at_least(input, of_system, j);
}

/// A record begins with the timestamp it was written with, whatever its
/// message holds, provided that the written timestamp is a single word.
pub proof fn lemma_record_keeps_its_stamp(stamp: Seq<char>, message: Seq<char>)
    requires
        is_word(stamp),
    ensures
        stamp_of(record_text(stamp, message)) == instant_of(stamp),
{
    lemma_first_token(stamp, message);
}

/// What the input capture task recorded comes back from a merge with an
/// empty system log as it was recorded, line for line, provided that the
/// timestamp of the first record was written as a single word that reads
/// back as an instant.
pub proof fn lemma_captured_input_comes_back(
    received: Seq<Instant>,
    typed: Seq<Seq<char>>,
    records: Seq<Seq<char>>,
)
    requires
        received.len() == typed.len() == records.len(),
        forall|k: int|
            0 <= k < records.len() ==> input_record(received[k], typed[k]) == Some(
                #[trigger] records[k],
            ),
        records.len() > 0 ==> is_word(stamp_text(received[0])->0) && instant_of(
            stamp_text(received[0])->0,
        ) is Some,
    ensures
        merged(Seq::empty(), records) == records,
{
    if records.len() > 0 {
        assert(input_record(received[0], typed[0]) == Some(records[0]));
        lemma_record_keeps_its_stamp(stamp_text(received[0])->0, typed[0]);
    }
}

/// Words joined by single spaces hold no line break.
proof fn lemma_joined_words_are_one_line(words: Seq<Seq<char>>)
    requires
        forall|k: int| 0 <= k < words.len() ==> is_word(#[trigger] words[k]),
    ensures
        is_one_line(joined(words)),
    decreases words.len(),
{
    assert(is_space('\n'));
    if words.len() == 1 {
        assert(is_word(words[0]));
    } else if words.len() > 1 {
        let front = words.drop_last();
        assert forall|k: int| 0 <= k < front.len() implies is_word(#[trigger] front[k]) by {
            assert(front[k] == words[k]);
        }
        lemma_joined_words_are_one_line(front);
        let head = joined(front);
        let last = words.last();
        assert(is_word(words[words.len() - 1]));
        let text = joined(words);
        assert forall|i: int| 0 <= i < text.len() implies #[trigger] text[i] != '\n' by {
            if i < head.len() {
                assert(text[i] == head[i]);
            } else if i > head.len() {
                assert(text[i] == last[i - head.len() - 1]);
            }
        }
    }
}

/// The message of a line holds no line break, whatever the line holds.
pub proof fn lemma_message_is_one_line(line: Seq<char>)
    ensures
        is_one_line(message_of(line)),
{
    if tokens(line).len() > 0 {
        let words = tokens(line).skip(1);
        lemma_tokens_are_words(line, 0);
        assert forall|k: int| 0 <= k < words.len() implies is_word(#[trigger] words[k]) by {
            assert(words[k] == tokens(line)[k + 1]);
        }
        lemma_joined_words_are_one_line(words);
    }
}

/// A record of the system log holds no line break, whatever the facility's
/// line holds, provided that the written timestamp holds none.
pub proof fn lemma_system_record_is_one_line(full_mode: bool, start: Instant, line: Seq<char>)
    requires
        system_record(full_mode, start, line) is Some,
        is_one_line(stamp_text(stamp_of(line)->0)->0),
    ensures
        is_one_line(system_record(full_mode, start, line)->0),
{
    lemma_message_is_one_line(line);
    lemma_record_is_one_line(stamp_text(stamp_of(line)->0)->0, message_of(line));
}

/// A record of the operator's input holds no line break, provided that the
/// typed line and the written timestamp hold none.
pub proof fn lemma_input_record_is_one_line(received: Instant, line: Seq<char>)
    requires
        input_record(received, line) is Some,
        is_one_line(line),
        is_one_line(stamp_text(received)->0),
    ensures
        is_one_line(input_record(received, line)->0),
{
    lemma_record_is_one_line(stamp_text(received)->0, line);
}

} // verus!
