//! One editable line of text, kept together with its rendered form.

use crate::text::{
    blanks, chars_of, expand_tabs, lemma_expand_push, lemma_render_position_bound,
    lemma_render_position_step, lemma_render_to_cursor_position_unique, match_positions,
    matches_from, occurs_at, render_position, render_to_cursor_position, TAB_STOP,
};
use vstd::prelude::*;
use vstd::std_specs::iter::IteratorSpec;
use vstd::string::{StrSliceExecFns, StringExecFns};

verus! {

/// A line of the document. Its view is the logical text; the rendered text,
/// with tabs expanded, is kept beside it and always agrees with it.
pub struct Line {
    actual: String,
    rendered: String,
    length: usize,
    width: usize,
}

impl View for Line {
    type V = Seq<char>;

    closed spec fn view(&self) -> Seq<char> {
        self.actual@
    }
}

/// Appends `n` blanks to `out`.
fn pad(out: &mut String, n: usize)
    ensures
        final(out)@ == old(out)@ + blanks(n as nat),
{
    let mut k: usize = 0;
    while k < n
        invariant
            k <= n,
            out@ == old(out)@ + blanks(k as nat),
        decreases n - k,
    {
        out.push(' ');
        k += 1;
    }
}

/// The rendered form of `text`.
fn render(text: &str) -> (out: String)
    ensures
        out@ == expand_tabs(text@),
{
    broadcast use vstd::string::group_string_axioms;

    let mut out = String::new();
    let mut col: usize = 0;
    for c in it: text.chars()
        invariant
            it.seq() == text@,
            out@ == expand_tabs(text@.take(it.index() as int)),
            col < TAB_STOP,
            col == out@.len() % (TAB_STOP as nat),
    {
        proof {
            let done = text@.take(it.index() as int);
            assert(text@.take(it.index() + 1) == done.push(c));
            lemma_expand_push(done, c);
        }
        if c == '\t' {
            pad(&mut out, TAB_STOP - col);
            col = 0;
        } else {
            out.push(c);
            col = if col + 1 == TAB_STOP {
                0
            } else {
                col + 1
            };
        }
    }
    assert(text@.take(text@.len() as int) == text@);
    out
}

/// Whether `query` occurs in `text` at offset `at`.
fn occurs(text: &Vec<char>, query: &Vec<char>, at: usize) -> (hit: bool)
    requires
        at + query@.len() <= text@.len(),
    ensures
        hit == occurs_at(text@, query@, at as nat),
{
    let ghost window = text@.subrange(at as int, at + query@.len());
    assert(text@.len() == text.len());
    let mut k: usize = 0;
    while k < query.len()
        invariant
            k <= query@.len(),
            at + query@.len() <= text@.len() <= usize::MAX,
            window == text@.subrange(at as int, at + query@.len()),
            forall|j: int| 0 <= j < k ==> window[j] == query@[j],
        decreases query@.len() - k,
    {
        if text[at + k] != query[k] {
            return false;
        }
        k += 1;
    }
    assert(window =~= query@);
    true
}

impl Line {
    #[verifier::type_invariant]
    spec fn consistent(&self) -> bool {
        &&& self.rendered@ == expand_tabs(self.actual@)
        &&& self.length == self.actual@.len()
        &&& self.width == self.rendered@.len()
    }

    /// A line holding `actual`.
    pub fn new(actual: String) -> (line: Self)
        ensures
            line@ == actual@,
            line@.len() <= usize::MAX,
    {
        let rendered = render(actual.as_str());
        let length = actual.as_str().unicode_len();
        let width = rendered.as_str().unicode_len();
        Line { actual, rendered, length, width }
    }

    /// The number of characters of the logical text.
    pub fn len(&self) -> (n: usize)
        ensures
            n == self@.len(),
    {
        proof {
            use_type_invariant(self);
        }
        self.length
    }

    /// The number of characters of the rendered text.
    pub fn width(&self) -> (n: usize)
        ensures
            n == expand_tabs(self@).len(),
    {
        proof {
            use_type_invariant(self);
        }
        self.width
    }

    /// Whether the logical text has no characters.
    pub fn is_empty(&self) -> (b: bool)
        ensures
            b == (self@.len() == 0),
    {
        proof {
            use_type_invariant(self);
        }
        self.length == 0
    }

    /// Inserts `ch` so that it becomes the character at offset `pos`.
    pub fn insert(&mut self, pos: usize, ch: char)
        requires
            pos <= old(self)@.len(),
        ensures
            final(self)@ == old(self)@.insert(pos as int, ch),
            final(self)@.len() <= usize::MAX,
    {
        proof {
            use_type_invariant(&*self);
        }
        let text = self.actual.as_str();
        let len = self.length;
        let mut actual = String::from_str(text.substring_char(0, pos));
        actual.push(ch);
        actual.append(text.substring_char(pos, len));
        *self = Line::new(actual);
    }

    /// Removes the character at offset `pos`.
    pub fn remove(&mut self, pos: usize)
        requires
            pos < old(self)@.len(),
        ensures
            final(self)@ == old(self)@.remove(pos as int),
    {
        proof {
            use_type_invariant(&*self);
        }
        let text = self.actual.as_str();
        let len = self.length;
        let mut actual = String::from_str(text.substring_char(0, pos));
        actual.append(text.substring_char(pos + 1, len));
        *self = Line::new(actual);
    }

    /// Appends `content` to the logical text.
    pub fn push_str(&mut self, content: &str)
        ensures
            final(self)@ == old(self)@ + content@,
    {
        let mut actual = String::from_str(self.actual.as_str());
        actual.append(content);
        *self = Line::new(actual);
    }

    /// The logical text.
    pub fn content(&self) -> (s: &str)
        ensures
            s@ == self@,
    {
        self.actual.as_str()
    }

    /// The rendered text: the logical text with its tabs expanded.
    pub fn rendered(&self) -> (s: &str)
        ensures
            s@ == expand_tabs(self@),
    {
        proof {
            use_type_invariant(self);
        }
        self.rendered.as_str()
    }

    /// Every non-overlapping occurrence of `query` in the rendered text, left
    /// to right: the rendered offset at which it starts, and the matched
    /// slice of the rendered text.
    pub fn match_indices<'a>(&'a self, query: &str) -> (found: Vec<(usize, &'a str)>)
        ensures
            found@.len() == match_positions(expand_tabs(self@), query@).len(),
            forall|i: int|
                0 <= i < found@.len() ==> (#[trigger] found@[i]).0 == match_positions(
                    expand_tabs(self@),
                    query@,
                )[i] && found@[i].1@ == query@,
    {
        proof {
            use_type_invariant(self);
        }
        let shown = self.rendered.as_str();
        let text = chars_of(shown);
        let wanted = chars_of(query);
        let mut found: Vec<(usize, &'a str)> = Vec::new();
        if wanted.len() > text.len() {
            return found;
        }
        let last: usize = text.len() - wanted.len();
        let mut from: usize = 0;
        loop
            invariant_except_break
                from <= last,
                match_positions(text@, wanted@) == found@.map_values(|hit: (usize, &str)| hit.0 as nat)
                    + matches_from(text@, wanted@, from as nat),
            invariant
                text@ == shown@,
                shown@ == expand_tabs(self@),
                wanted@ == query@,
                last + wanted@.len() == text@.len() <= usize::MAX,
                forall|i: int| 0 <= i < found@.len() ==> (#[trigger] found@[i]).1@ == wanted@,
            ensures
                match_positions(text@, wanted@) == found@.map_values(|hit: (usize, &str)| hit.0 as nat),
                forall|i: int| 0 <= i < found@.len() ==> (#[trigger] found@[i]).1@ == wanted@,
            decreases last - from,
        {
            let hit = occurs(&text, &wanted, from);
            let step: usize = if hit && wanted.len() > 0 {
                wanted.len()
            } else {
                1
            };
            if hit {
                found.push((from, shown.substring_char(from, from + wanted.len())));
            }
            if last - from < step {
                assert(matches_from(text@, wanted@, (from + step) as nat) == Seq::<nat>::empty());
                break;
            }
            from += step;
        }
        found
    }

    /// The rendered column at which the character at logical offset `pos`
    /// starts; for an offset past the end, the width of the rendered text.
    pub fn render_position(&self, pos: usize) -> (rx: usize)
        ensures
            rx == render_position(self@, pos as nat),
    {
        broadcast use vstd::string::group_string_axioms;

        proof {
            use_type_invariant(self);
        }
        let mut rx: usize = 0;
        let mut i: usize = 0;
        for c in it: self.actual.as_str().chars()
            invariant
                it.seq() == self@,
                expand_tabs(self@).len() <= usize::MAX,
                i == (if it.index() <= pos { it.index() } else { pos as int }),
                rx == render_position(self@, i as nat),
        {
            if i < pos {
                proof {
                    lemma_render_position_step(self@, i as nat);
                    lemma_render_position_bound(self@, (i + 1) as nat);
                }
                rx = if c == '\t' {
                    rx + (TAB_STOP - rx % TAB_STOP)
                } else {
                    rx + 1
                };
                i += 1;
            }
        }
        assert(self@.take(self@.len() as int) == self@);
        rx
    }

    /// The logical offset of the character displayed at rendered column
    /// `rx`; for a column past the rendered text, the length of the line.
    pub fn render_to_cursor_position(&self, rx: usize) -> (pos: usize)
        ensures
            pos == render_to_cursor_position(self@, rx as nat),
            pos <= self@.len(),
    {
        proof {
            use_type_invariant(self);
        }
        let text = chars_of(self.actual.as_str());
        let mut cur: usize = 0;
        let mut i: usize = 0;
        while i < text.len()
            invariant
                text@ == self@,
                expand_tabs(self@).len() <= usize::MAX,
                i <= text@.len(),
                cur == render_position(self@, i as nat),
                cur <= rx,
            decreases text@.len() - i,
        {
            proof {
                lemma_render_position_step(self@, i as nat);
                lemma_render_position_bound(self@, (i + 1) as nat);
            }
            let next: usize = if text[i] == '\t' {
                cur + (TAB_STOP - cur % TAB_STOP)
            } else {
                cur + 1
            };
            if next > rx {
                proof {
                    lemma_render_to_cursor_position_unique(self@, rx as nat, i as nat);
                }
                return i;
            }
            cur = next;
            i += 1;
        }
        proof {
            lemma_render_to_cursor_position_unique(self@, rx as nat, i as nat);
        }
        i
    }

    /// Cuts the line at offset `index`: the line keeps what was before it,
    /// and what was from there on is returned.
    pub fn split_off(&mut self, index: usize) -> (tail: String)
        requires
            index <= old(self)@.len(),
        ensures
            final(self)@ == old(self)@.take(index as int),
            tail@ == old(self)@.skip(index as int),
    {
        proof {
            use_type_invariant(&*self);
        }
        let text = self.actual.as_str();
        let len = self.length;
        let tail = String::from_str(text.substring_char(index, len));
        let actual = String::from_str(text.substring_char(0, index));
        *self = Line::new(actual);
        tail
    }
}

} // verus!
