//! Words of a line: splitting at whitespace, joining with single spaces, and
//! the decimal-separator rewrite applied to a timestamp token.

use vstd::prelude::*;

verus! {

/// `String::push` appends the character to the end of the string.
pub assume_specification[ String::push ](s: &mut String, c: char)
    ensures
        final(s)@ == old(s)@.push(c),
;

/// The characters with the Unicode property `White_Space`.
pub open spec fn is_space(c: char) -> bool {
    let n = c as u32;
    ||| 0x09 <= n <= 0x0d
    ||| n == 0x20
    ||| n == 0x85
    ||| n == 0xa0
    ||| n == 0x1680
    ||| 0x2000 <= n <= 0x200a
    ||| n == 0x2028
    ||| n == 0x2029
    ||| n == 0x202f
    ||| n == 0x205f
    ||| n == 0x3000
}

/// The end of the run that starts at `from` and in which every character is
/// whitespace (`space`) or none is (`!space`): the first index at or after
/// `from` whose character is of the other kind, or the end of `s`.
pub open spec fn run_end(s: Seq<char>, from: int, space: bool) -> int
    decreases s.len() - from,
{
    if 0 <= from < s.len() && is_space(s[from]) == space {
        run_end(s, from + 1, space)
    } else {
        from
    }
}

/// The words of `s` that start at or after `from`: skip whitespace, take the
/// characters up to the next whitespace, and so on to the end.
pub open spec fn tokens_from(s: Seq<char>, from: int) -> Seq<Seq<char>>
    decreases s.len() - from,
{
    let start = run_end(s, from, true);
    let end = run_end(s, start, false);
    if 0 <= from <= s.len() && start < end {
        proof {
            lemma_run_end_bounds(s, from, true);
            lemma_run_end_bounds(s, start, false);
        }
        seq![s.subrange(start, end)] + tokens_from(s, end)
    } else {
        Seq::empty()
    }
}

/// The maximal runs of characters of `s` that are not whitespace, in order.
pub open spec fn tokens(s: Seq<char>) -> Seq<Seq<char>> {
    tokens_from(s, 0)
}

/// The words written one after another with a single space between them.
pub open spec fn joined(words: Seq<Seq<char>>) -> Seq<char>
    decreases words.len(),
{
    if words.len() == 0 {
        Seq::empty()
    } else if words.len() == 1 {
        words[0]
    } else {
        joined(words.drop_last()) + seq![' '] + words.last()
    }
}

/// `s` with every comma replaced by a full stop.
pub open spec fn with_dots(s: Seq<char>) -> Seq<char> {
    Seq::new(s.len(), |i: int| if s[i] == ',' { '.' } else { s[i] })
}

/// What each string of `v` holds.
pub open spec fn texts(v: Seq<String>) -> Seq<Seq<char>> {
    Seq::new(v.len(), |i: int| v[i]@)
}

/// A run ends at or after its start and within the sequence.
pub proof fn lemma_run_end_bounds(s: Seq<char>, from: int, space: bool)
    requires
        0 <= from,
    ensures
        from <= run_end(s, from, space),
        from <= s.len() ==> run_end(s, from, space) <= s.len(),
    decreases s.len() - from,
{
    if from < s.len() && is_space(s[from]) == space {
        lemma_run_end_bounds(s, from + 1, space);
    }
}

/// Every character inside a run is of the run's kind, and the character that
/// follows the run, if there is one, is not.
pub proof fn lemma_run_end_kind(s: Seq<char>, from: int, space: bool)
    requires
        0 <= from <= s.len(),
    ensures
        forall|i: int| from <= i < run_end(s, from, space) ==> is_space(#[trigger] s[i]) == space,
        run_end(s, from, space) < s.len() ==> is_space(s[run_end(s, from, space)]) != space,
    decreases s.len() - from,
{
    if from < s.len() && is_space(s[from]) == space {
        lemma_run_end_bounds(s, from + 1, space);
        lemma_run_end_kind(s, from + 1, space);
    }
}

/// A run ends where the first character of the other kind stands, or at the
/// end of the sequence.
pub proof fn lemma_run_end_is(s: Seq<char>, from: int, space: bool, end: int)
    requires
        0 <= from <= end <= s.len(),
        forall|i: int| from <= i < end ==> is_space(#[trigger] s[i]) == space,
        end < s.len() ==> is_space(s[end]) != space,
    ensures
        run_end(s, from, space) == end,
    decreases end - from,
{
    if from < end {
        lemma_run_end_is(s, from + 1, space, end);
    }
}

/// A word is non-empty and free of whitespace.
pub open spec fn is_word(s: Seq<char>) -> bool {
    s.len() > 0 && forall|i: int| 0 <= i < s.len() ==> !is_space(#[trigger] s[i])
}

/// A line that begins with a word and a space has that word as its first.
pub proof fn lemma_first_token(word: Seq<char>, rest: Seq<char>)
    requires
        is_word(word),
    ensures
        tokens(word + seq![' '] + rest).len() > 0,
        tokens(word + seq![' '] + rest)[0] == word,
{
    let line = word + seq![' '] + rest;
    let n = word.len() as int;
    assert(line[n] == ' ');
    assert forall|i: int| 0 <= i < n implies !is_space(#[trigger] line[i]) by {
        assert(line[i] == word[i]);
    }
    assert(!is_space(line[0]));
    lemma_run_end_is(line, 0, false, n);
    assert(line.subrange(0, n) == word);
}

/// Each word of a line is non-empty and free of whitespace.
pub proof fn lemma_tokens_are_words(s: Seq<char>, from: int)
    requires
        0 <= from <= s.len(),
    ensures
        forall|k: int|
            0 <= k < tokens_from(s, from).len() ==> {
                &&& (#[trigger] tokens_from(s, from)[k]).len() > 0
                &&& forall|i: int|
                    0 <= i < tokens_from(s, from)[k].len() ==> !is_space(
                        #[trigger] tokens_from(s, from)[k][i],
                    )
            },
    decreases s.len() - from,
{
    let start = run_end(s, from, true);
    let end = run_end(s, start, false);
    lemma_run_end_bounds(s, from, true);
    lemma_run_end_bounds(s, start, false);
    if start < end {
        lemma_run_end_kind(s, start, false);
        lemma_tokens_are_words(s, end);
        let word = s.subrange(start, end);
        let rest = tokens_from(s, end);
        assert forall|k: int| 0 <= k < tokens_from(s, from).len() implies {
            &&& (#[trigger] tokens_from(s, from)[k]).len() > 0
            &&& forall|i: int|
                0 <= i < tokens_from(s, from)[k].len() ==> !is_space(
                    #[trigger] tokens_from(s, from)[k][i],
                )
        } by {
            if k == 0 {
                assert(tokens_from(s, from)[0] == word);
                assert forall|i: int| 0 <= i < word.len() implies !is_space(
                    #[trigger] word[i],
                ) by {
                    assert(word[i] == s[start + i]);
                }
            } else {
                assert(tokens_from(s, from)[k] == rest[k - 1]);
            }
        }
    }
}

/// Whether `c` is whitespace.
pub fn is_whitespace(c: char) -> (r: bool)
    ensures
        r == is_space(c),
{
    let n: u32 = c as u32;
    (0x09 <= n && n <= 0x0d) || n == 0x20 || n == 0x85 || n == 0xa0 || n == 0x1680 || (0x2000 <= n
        && n <= 0x200a) || n == 0x2028 || n == 0x2029 || n == 0x202f || n == 0x205f || n == 0x3000
}

/// The characters of `s`, one by one.
pub fn chars_of(s: &str) -> (r: Vec<char>)
    ensures
        r@ == s@,
{
    let mut out: Vec<char> = Vec::new();
    for c in it: s.chars()
        invariant
            it.seq() == s@,
            out@ == s@.take(it.index()),
    {
        out.push(c);
    }
    assert(s@.take(s@.len() as int) == s@);
    out
}

/// The index at which the run starting at `from` ends.
fn scan_run(s: &Vec<char>, from: usize, space: bool) -> (end: usize)
    requires
        from <= s.len(),
    ensures
        end == run_end(s@, from as int, space),
        from <= end <= s.len(),
{
    let mut i: usize = from;
    while i < s.len() && is_whitespace(s[i]) == space
        invariant
            from <= i <= s.len(),
            run_end(s@, from as int, space) == run_end(s@, i as int, space),
        decreases s.len() - i,
    {
        i += 1;
    }
    i
}

/// The characters of `s` from `start` up to `end`, as a string.
fn copy_range(s: &Vec<char>, start: usize, end: usize) -> (r: String)
    requires
        start <= end <= s.len(),
    ensures
        r@ == s@.subrange(start as int, end as int),
{
    let mut out = String::new();
    let mut i: usize = start;
    while i < end
        invariant
            start <= i <= end <= s.len(),
            out@ == s@.subrange(start as int, i as int),
        decreases end - i,
    {
        out.push(s[i]);
        assert(s@.subrange(start as int, i as int).push(s@[i as int]) == s@.subrange(
            start as int,
            i + 1,
        ));
        i += 1;
    }
    out
}

/// Splits a line into its words.
pub fn split_tokens(line: &str) -> (r: Vec<String>)
    ensures
        texts(r@) == tokens(line@),
{
    let chars = chars_of(line);
    let mut out: Vec<String> = Vec::new();
    let mut pos: usize = 0;
    loop
        invariant_except_break
            pos <= chars.len(),
            tokens(line@) == texts(out@) + tokens_from(chars@, pos as int),
        invariant
            chars@ == line@,
        ensures
            texts(out@) == tokens(line@),
        decreases chars.len() - pos,
    {
        let start = scan_run(&chars, pos, true);
        let end = scan_run(&chars, start, false);
        if start == end {
            assert(tokens_from(chars@, pos as int) == Seq::<Seq<char>>::empty());
            break ;
        }
        let word = copy_range(&chars, start, end);
        let ghost before = texts(out@);
        out.push(word);
        assert(texts(out@) == before + seq![chars@.subrange(start as int, end as int)]);
        pos = end;
    }
    out
}

/// Joins the words from index `from` on with single spaces; past the last
/// word nothing is left to join.
pub fn join_tokens(words: &Vec<String>, from: usize) -> (r: String)
    ensures
        r@ == if from < words.len() {
            joined(texts(words@).skip(from as int))
        } else {
            Seq::empty()
        },
{
    let mut out = String::new();
    if from >= words.len() {
        return out;
    }
    let ghost tail = texts(words@).skip(from as int);
    let mut i: usize = from;
    while i < words.len()
        invariant
            from <= i <= words.len(),
            from < words.len(),
            tail == texts(words@).skip(from as int),
            out@ == joined(tail.take(i - from)),
        decreases words.len() - i,
    {
        if i > from {
            out.push(' ');
        }
        out.append(words[i].as_str());
        proof {
            let next = tail.take(i - from + 1);
            assert(next.drop_last() == tail.take(i - from));
            assert(next.last() == words@[i as int]@);
            if i == from {
                assert(joined(tail.take(0)) == Seq::<char>::empty());
                assert(out@ == words@[i as int]@);
            }
        }
        i += 1;
    }
    assert(tail.take(words.len() - from) == tail);
    out
}

/// Rewrites a token so that commas become full stops.
pub fn commas_to_dots(token: &str) -> (r: String)
    ensures
        r@ == with_dots(token@),
{
    let mut out = String::new();
    for c in it: token.chars()
        invariant
            it.seq() == token@,
            out@ == with_dots(token@).take(it.index()),
    {
        if c == ',' {
            out.push('.');
        } else {
            out.push(c);
        }
        assert(with_dots(token@).take(it.index()).push(with_dots(token@)[it.index()])
            == with_dots(token@).take(it.index() + 1));
    }
    assert(with_dots(token@).take(token@.len() as int) == with_dots(token@));
    out
}

} // verus!
