//! A plain line that renders each character as one fragment.
use vstd::prelude::*;
use vstd::string::StringExecFns;

use super::textfragment::{fragment_width, TextFragment};
use crate::line::{lemma_flatten_empty, saturate};
use crate::text::{chars_of, string_of_char};

verus! {

broadcast use vstd::seq::group_seq_axioms;

/// Columns taken by the first `i` characters.
pub open spec fn char_columns_until(cs: Seq<char>, i: int) -> int
    decreases i,
{
    if i <= 0 {
        0
    } else {
        char_columns_until(cs, i - 1) + fragment_width(seq![cs[i - 1]]).columns()
    }
}

pub open spec fn char_col(cs: Seq<char>, i: int) -> int {
    saturate(char_columns_until(cs, i))
}

/// What character `i` contributes to the columns `[start, end)`.
pub open spec fn char_piece(frags: Seq<TextFragment>, cs: Seq<char>, i: int, start: int, end: int) -> Seq<char> {
    let a = char_col(cs, i);
    let b = char_col(cs, i + 1);
    if a >= end {
        seq![]
    } else if a < start {
        if b > start {
            seq!['⋯']
        } else {
            seq![]
        }
    } else if b <= end {
        frags[i].shown()
    } else {
        seq!['⋯']
    }
}

pub open spec fn char_pieces(frags: Seq<TextFragment>, cs: Seq<char>, start: int, end: int) -> Seq<Seq<char>> {
    Seq::new(cs.len(), |i: int| char_piece(frags, cs, i, start, end))
}

proof fn lemma_char_columns_nonneg(cs: Seq<char>, i: int)
    ensures
        0 <= char_columns_until(cs, i),
    decreases i,
{
    if i > 0 {
        lemma_char_columns_nonneg(cs, i - 1);
    }
}

proof fn lemma_char_columns_monotone(cs: Seq<char>, i: int, j: int)
    requires
        i <= j,
    ensures
        char_columns_until(cs, i) <= char_columns_until(cs, j),
        0 <= char_columns_until(cs, i),
    decreases j - i,
{
    lemma_char_columns_nonneg(cs, i);
    if i < j {
        lemma_char_columns_monotone(cs, i, j - 1);
    }
}

pub struct Line {
    string: String,
    text_fragments: Vec<TextFragment>,
    len: usize,
}

impl Line {
    pub closed spec fn text(&self) -> Seq<char> {
        self.string@
    }

    pub closed spec fn fragments_spec(&self) -> Seq<TextFragment> {
        self.text_fragments@
    }

    pub closed spec fn len_spec(&self) -> usize {
        self.len
    }

    /// One fragment per character, and the total width, saturated.
    pub closed spec fn wf(&self) -> bool {
        &&& self.text_fragments@.len() == self.string@.len()
        &&& forall|i: int|
            0 <= i < self.string@.len() ==> (#[trigger] self.text_fragments@[i]).describes(
                seq![self.string@[i]],
            )
        &&& self.len == char_col(self.string@, self.string@.len() as int)
    }

    pub fn from(line_str: &str) -> (r: Line)
        ensures
            r.wf(),
            r.text() == line_str@,
    {
        let cs = chars_of(line_str);
        let mut text_fragments: Vec<TextFragment> = Vec::new();
        let mut length: usize = 0;
        let mut i: usize = 0;
        while i < cs.len()
            invariant
                cs@ == line_str@,
                i <= cs@.len(),
                text_fragments@.len() == i,
                forall|j: int| 0 <= j < i ==> (#[trigger] text_fragments@[j]).describes(seq![cs@[j]]),
                length == char_col(cs@, i as int),
            decreases cs@.len() - i,
        {
            let fragment = TextFragment::new(string_of_char(cs[i]));
            proof {
                lemma_char_columns_monotone(cs@, 0, i as int);
            }
            length = length.saturating_add(fragment.len());
            text_fragments.push(fragment);
            i += 1;
        }
        Line { string: line_str.to_owned(), text_fragments, len: length }
    }

    /// The fragments, one per character.
    pub fn text_fragments(&self) -> (r: &Vec<TextFragment>)
        ensures
            r@ == self.fragments_spec(),
    {
        &self.text_fragments
    }

    /// Columns taken by the characters before index `grapheme`; the whole
    /// width where `grapheme` reaches the width.
    pub fn get_width_to(&self, grapheme: usize) -> (r: usize)
        requires
            self.wf(),
        ensures
            grapheme >= self.len_spec() ==> r == self.len_spec(),
            grapheme < self.len_spec() ==> r == char_col(
                self.text(),
                vstd::math::min(grapheme as int, self.text().len() as int),
            ),
    {
        if grapheme >= self.len {
            return self.len;
        }
        let mut index: usize = 0;
        let mut width: usize = 0;
        while index < grapheme && index < self.text_fragments.len()
            invariant
                self.wf(),
                index <= grapheme,
                index <= self.text().len(),
                width == char_col(self.text(), index as int),
            decreases self.text().len() - index,
        {
            proof {
                lemma_char_columns_monotone(self.text(), 0, index as int);
                assert(self.text_fragments@[index as int].describes(seq![self.text()[index as int]]));
            }
            width = width.saturating_add(self.text_fragments[index].len());
            index = index + 1;
        }
        width
    }

    /// The text shown for the columns `[range.start, range.end)`.
    pub fn get(&self, range: std::ops::Range<usize>) -> (r: String)
        requires
            self.wf(),
        ensures
            r@ == char_pieces(self.fragments_spec(), self.text(), range.start as int, range.end as int).flatten(),
    {
        let start = range.start;
        let end = range.end;
        let ghost cs = self.text();
        let ghost pieces = char_pieces(self.fragments_spec(), cs, start as int, end as int);
        let mut position: usize = 0;
        let mut index: usize = 0;
        let mut line_part_string = String::new();
        while position < end && index < self.text_fragments.len()
            invariant
                self.wf(),
                cs == self.text(),
                pieces == char_pieces(self.fragments_spec(), cs, start as int, end as int),
                index <= cs.len(),
                position == char_col(cs, index as int),
                line_part_string@ == pieces.take(index as int).flatten(),
            decreases cs.len() - index,
        {
            let text_fragment = &self.text_fragments[index];
            proof {
                lemma_char_columns_monotone(cs, 0, index as int);
                assert(self.text_fragments@[index as int].describes(seq![cs[index as int]]));
                assert(pieces.take(index + 1) =~= pieces.take(index as int).push(pieces[index as int]));
                pieces.take(index as int).lemma_flatten_push(pieces[index as int]);
            }
            let next = position.saturating_add(text_fragment.len());
            if position < start {
                if next > start {
                    let piece = string_of_char('⋯');
                    line_part_string.append(piece.as_str());
                } else {
                    proof {
                        assert(line_part_string@ + pieces[index as int] =~= line_part_string@);
                    }
                }
            } else if next <= end {
                let piece = text_fragment.get_character();
                line_part_string.append(piece.as_str());
            } else {
                let piece = string_of_char('⋯');
                line_part_string.append(piece.as_str());
            }
            position = next;
            index = index + 1;
        }
        proof {
            if index == cs.len() {
                assert(pieces.take(index as int) =~= pieces);
            } else {
                assert forall|j: int| index <= j < cs.len() implies pieces[j] == Seq::<char>::empty() by {
                    lemma_char_columns_monotone(cs, index as int, j);
                }
                assert(pieces =~= pieces.take(index as int) + pieces.skip(index as int));
                vstd::seq_lib::lemma_flatten_concat(pieces.take(index as int), pieces.skip(index as int));
                lemma_flatten_empty(pieces.skip(index as int));
                assert(line_part_string@ + Seq::<char>::empty() =~= line_part_string@);
            }
        }
        line_part_string
    }

    /// Number of fragments.
    pub fn fragments_len(&self) -> (r: usize)
        requires
            self.wf(),
        ensures
            r == self.text().len(),
    {
        self.text_fragments.len()
    }

    /// Columns taken by the whole line, saturated.
    pub fn len(&self) -> (r: usize)
        requires
            self.wf(),
        ensures
            r == char_col(self.text(), self.text().len() as int),
    {
        self.len
    }
}

} // verus!
