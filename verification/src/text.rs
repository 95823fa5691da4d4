//! Text as sequences of characters: tab expansion, the mapping between
//! logical and rendered columns, and substring search, stated as
//! mathematical functions, with the facts about them that the rest of the
//! crate relies on.

use vstd::prelude::*;
use vstd::std_specs::iter::IteratorSpec;

verus! {

/// The distance between tab stops, in display columns.
pub const TAB_STOP: usize = 8;

/// The number of blanks a tab produces when it starts at column `col`:
/// enough to reach the next multiple of [`TAB_STOP`].
pub open spec fn tab_fill(col: nat) -> nat {
    (TAB_STOP - col % (TAB_STOP as nat)) as nat
}

/// A run of `n` blanks.
pub open spec fn blanks(n: nat) -> Seq<char> {
    Seq::new(n, |i: int| ' ')
}

/// The rendered form of `text`: every tab replaced by blanks up to the next
/// tab stop, every other character kept.
pub open spec fn expand_tabs(text: Seq<char>) -> Seq<char>
    decreases text.len(),
{
    if text.len() == 0 {
        Seq::empty()
    } else {
        let before = expand_tabs(text.drop_last());
        if text.last() == '\t' {
            before + blanks(tab_fill(before.len()))
        } else {
            before.push(text.last())
        }
    }
}

/// The rendered column at which the character at logical offset `pos`
/// starts: the width of the rendering of everything before it. Offsets past
/// the end of the text count as the end.
pub open spec fn render_position(text: Seq<char>, pos: nat) -> nat {
    if pos <= text.len() {
        expand_tabs(text.take(pos as int)).len()
    } else {
        expand_tabs(text).len()
    }
}

/// The logical offset of the character displayed at rendered column `rx`:
/// the greatest offset whose rendered column is at most `rx`.
pub open spec fn render_to_cursor_position(text: Seq<char>, rx: nat) -> nat
    decreases text.len(),
{
    if text.len() == 0 {
        0
    } else if expand_tabs(text).len() <= rx {
        text.len()
    } else {
        render_to_cursor_position(text.drop_last(), rx)
    }
}

/// Whether `query` occurs in `text` starting at offset `at`.
pub open spec fn occurs_at(text: Seq<char>, query: Seq<char>, at: nat) -> bool {
    &&& at + query.len() <= text.len()
    &&& text.subrange(at as int, (at + query.len()) as int) == query
}

/// The offsets of the non-overlapping occurrences of `query` in `text` at or
/// after `from`, left to right. After an occurrence the scan resumes behind
/// it; an empty query occurs once at every offset, the end included.
pub open spec fn matches_from(text: Seq<char>, query: Seq<char>, from: nat) -> Seq<nat>
    decreases text.len() + 1 - from,
{
    if from + query.len() > text.len() {
        Seq::empty()
    } else if occurs_at(text, query, from) {
        seq![from] + matches_from(text, query, from + match_step(query))
    } else {
        matches_from(text, query, from + 1)
    }
}

/// The offsets of the non-overlapping occurrences of `query` in `text`,
/// left to right.
pub open spec fn match_positions(text: Seq<char>, query: Seq<char>) -> Seq<nat> {
    matches_from(text, query, 0)
}

/// How far the search moves on behind a match: by the length of the query,
/// and by one character for the empty query.
pub open spec fn match_step(query: Seq<char>) -> nat {
    if query.len() == 0 {
        1
    } else {
        query.len()
    }
}

/// What the search returns are occurrences of the query, none before
/// `from`, in increasing order and without overlap.
pub proof fn lemma_matches_are_occurrences(text: Seq<char>, query: Seq<char>, from: nat)
    ensures
        forall|i: int|
            0 <= i < matches_from(text, query, from).len() ==> from <= (#[trigger] matches_from(
                text,
                query,
                from,
            )[i]) && occurs_at(text, query, matches_from(text, query, from)[i]),
        forall|i: int, j: int|
            0 <= i < j < matches_from(text, query, from).len() ==> (#[trigger] matches_from(
                text,
                query,
                from,
            )[i]) + match_step(query) <= (#[trigger] matches_from(text, query, from)[j]),
    decreases text.len() + 1 - from,
{
    let found = matches_from(text, query, from);
    if from + query.len() > text.len() {
    } else if occurs_at(text, query, from) {
        let rest = matches_from(text, query, from + match_step(query));
        lemma_matches_are_occurrences(text, query, from + match_step(query));
        assert(found == seq![from] + rest);
        assert forall|i: int| 0 < i < found.len() implies found[i] == rest[i - 1] by {}
    } else {
        lemma_matches_are_occurrences(text, query, from + 1);
        assert(found == matches_from(text, query, from + 1));
    }
}

/// The search misses no occurrence but those that overlap a match: every
/// occurrence at or after `from` starts within a step behind some match. So
/// the first match is the leftmost occurrence.
pub proof fn lemma_matches_are_complete(text: Seq<char>, query: Seq<char>, from: nat, at: nat)
    requires
        from <= at,
        occurs_at(text, query, at),
    ensures
        exists|i: int|
            0 <= i < matches_from(text, query, from).len() && (#[trigger] matches_from(
                text,
                query,
                from,
            )[i]) <= at < matches_from(text, query, from)[i] + match_step(query),
        matches_from(text, query, from).len() > 0,
        matches_from(text, query, from)[0] <= at,
    decreases text.len() + 1 - from,
{
    let found = matches_from(text, query, from);
    if occurs_at(text, query, from) {
        let rest = matches_from(text, query, from + match_step(query));
        assert(found[0] == from);
        if at >= from + match_step(query) {
            lemma_matches_are_complete(text, query, from + match_step(query), at);
            let i = choose|i: int|
                0 <= i < rest.len() && (#[trigger] rest[i]) <= at < rest[i] + match_step(query);
            assert(found[i + 1] == rest[i]);
        }
    } else {
        lemma_matches_are_complete(text, query, from + 1, at);
    }
}

/// Rendering a text extended by one character.
pub proof fn lemma_expand_push(text: Seq<char>, c: char)
    ensures
        c == '\t' ==> expand_tabs(text.push(c)) == expand_tabs(text) + blanks(
            tab_fill(expand_tabs(text).len()),
        ),
        c != '\t' ==> expand_tabs(text.push(c)) == expand_tabs(text).push(c),
        expand_tabs(text.push(c)).len() > expand_tabs(text).len(),
{
    assert(text.push(c).drop_last() == text);
}

/// Moving one character to the right advances the rendered column by one,
/// or to the next tab stop when the character is a tab.
pub proof fn lemma_render_position_step(text: Seq<char>, p: nat)
    requires
        p < text.len(),
    ensures
        render_position(text, p + 1) == render_position(text, p) + (if text[p as int] == '\t' {
            tab_fill(render_position(text, p))
        } else {
            1
        }),
{
    let head = text.take(p as int);
    assert(text.take(p as int + 1) == head.push(text[p as int]));
    lemma_expand_push(head, text[p as int]);
}

/// The rendered column grows with the logical offset, by at least one
/// column per character.
pub proof fn lemma_render_position_monotonic(text: Seq<char>, p: nat, q: nat)
    requires
        p <= q <= text.len(),
    ensures
        render_position(text, p) + (q - p) <= render_position(text, q),
    decreases q - p,
{
    if p < q {
        lemma_render_position_monotonic(text, p, (q - 1) as nat);
        let head = text.take(q - 1);
        assert(text.take(q as int) == head.push(text[q - 1]));
        lemma_expand_push(head, text[q - 1]);
    }
}

/// The rendered column of an offset is within the rendered text.
pub proof fn lemma_render_position_bound(text: Seq<char>, pos: nat)
    ensures
        render_position(text, pos) <= expand_tabs(text).len(),
{
    if pos <= text.len() {
        lemma_render_position_monotonic(text, pos, text.len());
        assert(text.take(text.len() as int) == text);
    }
}

/// A text without tabs renders as itself, so every logical offset is its own
/// rendered column.
pub proof fn lemma_render_position_without_tabs(text: Seq<char>, p: nat)
    requires
        forall|i: int| 0 <= i < text.len() ==> text[i] != '\t',
        p <= text.len(),
    ensures
        expand_tabs(text) == text,
        render_position(text, p) == p,
    decreases text.len(),
{
    if text.len() > 0 {
        lemma_render_position_without_tabs(text.drop_last(), 0);
    }
    if p < text.len() {
        lemma_render_position_without_tabs(text.take(p as int), p);
    } else {
        assert(text.take(p as int) == text);
    }
}

/// What [`render_to_cursor_position`] returns: an offset within the text
/// whose character starts at or before column `rx` and, unless it is the end
/// of the text, ends after it.
pub proof fn lemma_render_to_cursor_position(text: Seq<char>, rx: nat)
    ensures
        render_to_cursor_position(text, rx) <= text.len(),
        render_position(text, render_to_cursor_position(text, rx)) <= rx,
        render_to_cursor_position(text, rx) < text.len() ==> rx < render_position(
            text,
            render_to_cursor_position(text, rx) + 1,
        ),
    decreases text.len(),
{
    let r = render_to_cursor_position(text, rx);
    if text.len() == 0 {
    } else if expand_tabs(text).len() <= rx {
        assert(text.take(text.len() as int) == text);
    } else {
        let shorter = text.drop_last();
        lemma_render_to_cursor_position(shorter, rx);
        assert(shorter.take(r as int) == text.take(r as int));
        if r < shorter.len() {
            assert(shorter.take(r as int + 1) == text.take(r as int + 1));
        } else {
            assert(text.take(r as int + 1) == text);
        }
    }
}

/// Going from a logical offset to its rendered column and back gives the
/// offset again.
pub proof fn lemma_render_round_trip(text: Seq<char>, p: nat)
    requires
        p <= text.len(),
    ensures
        render_to_cursor_position(text, render_position(text, p)) == p,
    decreases text.len(),
{
    let rx = render_position(text, p);
    if text.len() == 0 {
    } else if p == text.len() {
        assert(text.take(p as int) == text);
    } else {
        lemma_render_position_monotonic(text, p, text.len());
        let shorter = text.drop_last();
        assert(shorter.take(p as int) == text.take(p as int));
        lemma_render_round_trip(shorter, p);
    }
}

/// The offset that [`render_to_cursor_position`] returns is the only one
/// whose character covers column `rx`.
pub proof fn lemma_render_to_cursor_position_unique(text: Seq<char>, rx: nat, p: nat)
    requires
        p <= text.len(),
        render_position(text, p) <= rx,
        p < text.len() ==> rx < render_position(text, p + 1),
    ensures
        render_to_cursor_position(text, rx) == p,
    decreases text.len(),
{
    if text.len() == 0 {
    } else if p == text.len() {
        assert(text.take(p as int) == text);
    } else {
        lemma_render_position_monotonic(text, p + 1, text.len());
        assert(text.take(text.len() as int) == text);
        let shorter = text.drop_last();
        assert(shorter.take(p as int) == text.take(p as int));
        if p < shorter.len() {
            assert(shorter.take(p as int + 1) == text.take(p as int + 1));
        }
        lemma_render_to_cursor_position_unique(shorter, rx, p);
    }
}

/// `String::push` appends one character to the end of the string.
pub assume_specification[ String::push ](s: &mut String, ch: char)
    ensures
        final(s)@ == old(s)@.push(ch),
;

/// The characters of `s`, in order.
pub fn chars_of(s: &str) -> (v: Vec<char>)
    ensures
        v@ == s@,
{
    broadcast use vstd::string::group_string_axioms;

    let mut v: Vec<char> = Vec::new();
    for c in it: s.chars()
        invariant
            v@ == it.seq().take(it.index() as int),
            it.seq() == s@,
    {
        v.push(c);
    }
    v
}

} // verus!
