//! The document: an ordered sequence of lines.
use vstd::prelude::*;

use crate::geometry::Location;
use crate::line::{deleted, inserted, split_left, split_right, Line};
use crate::text::{chars_of, string_from_chars, string_of_char, without, ZERO_WIDTH_JOINER};
use crate::unicode::grapheme_clusters;

verus! {

broadcast use vstd::seq::group_seq_axioms;

/// The pieces of `t` between line feeds; there is always at least one.
pub open spec fn split_at_newlines(t: Seq<char>) -> Seq<Seq<char>>
    decreases t.len(),
{
    if t.len() == 0 {
        seq![seq![]]
    } else if t.last() == '\n' {
        split_at_newlines(t.drop_last()).push(seq![])
    } else {
        let ps = split_at_newlines(t.drop_last());
        ps.update(ps.len() - 1, ps.last().push(t.last()))
    }
}

/// `s` without one carriage return at its end.
pub open spec fn strip_cr(s: Seq<char>) -> Seq<char> {
    if s.len() > 0 && s.last() == '\r' {
        s.drop_last()
    } else {
        s
    }
}

/// The lines of a text: split at line feeds, a carriage return before a
/// line feed dropped, no line after a final line feed.
pub open spec fn lines_of(t: Seq<char>) -> Seq<Seq<char>> {
    let ps = split_at_newlines(t);
    let kept = if ps.last().len() == 0 {
        ps.drop_last()
    } else {
        ps
    };
    kept.map_values(|p: Seq<char>| without(strip_cr(p), ZERO_WIDTH_JOINER))
}

pub open spec fn line_count_of(t: Seq<char>) -> nat {
    grapheme_clusters(t).len()
}

/// The texts after deleting at `at`: the grapheme there, or at the end of
/// a line the line break to the next one.
pub open spec fn deleted_at(texts: Seq<Seq<char>>, at: Location) -> Seq<Seq<char>> {
    let y = at.line_index as int;
    let x = at.grapheme_index as int;
    if y >= texts.len() {
        texts
    } else if x >= line_count_of(texts[y]) {
        if y + 1 < texts.len() {
            texts.update(y, texts[y] + texts[y + 1]).remove(y + 1)
        } else {
            texts
        }
    } else {
        texts.update(y, deleted(texts[y], grapheme_clusters(texts[y]), x))
    }
}

/// The texts after typing `c` at `at`; on the line just past the last one
/// it starts a new line.
pub open spec fn char_inserted_at(texts: Seq<Seq<char>>, c: char, at: Location) -> Seq<Seq<char>> {
    let y = at.line_index as int;
    let x = at.grapheme_index as int;
    if y > texts.len() {
        texts
    } else if y == texts.len() {
        texts.push(without(seq![c], ZERO_WIDTH_JOINER))
    } else if c == ZERO_WIDTH_JOINER {
        texts
    } else {
        texts.update(y, inserted(texts[y], grapheme_clusters(texts[y]), x, c))
    }
}

/// The texts after breaking the line at `at` in two.
pub open spec fn newline_inserted_at(texts: Seq<Seq<char>>, at: Location) -> Seq<Seq<char>> {
    let y = at.line_index as int;
    let x = at.grapheme_index as int;
    if y > texts.len() {
        texts
    } else if y == texts.len() {
        texts.push(seq![])
    } else {
        let gs = grapheme_clusters(texts[y]);
        texts.update(y, split_left(texts[y], gs, x)).insert(y + 1, split_right(gs, x))
    }
}

/// Lines written out, each followed by a line feed.
pub open spec fn joined(texts: Seq<Seq<char>>) -> Seq<char>
    decreases texts.len(),
{
    if texts.len() == 0 {
        seq![]
    } else {
        joined(texts.drop_last()) + texts.last() + seq!['\n']
    }
}

pub struct Buffer {
    lines: Vec<Line>,
}

impl Buffer {
    pub closed spec fn lines_spec(&self) -> Seq<Line> {
        self.lines@
    }

    /// The text of each line.
    pub open spec fn texts(&self) -> Seq<Seq<char>> {
        self.lines_spec().map_values(|l: Line| l.text())
    }

    pub open spec fn wf(&self) -> bool {
        forall|i: int| 0 <= i < self.lines_spec().len() ==> (#[trigger] self.lines_spec()[i]).wf()
    }

    /// Reads a document from its text.
    pub fn load(contents: &str) -> (r: Buffer)
        ensures
            r.wf(),
            r.texts() == lines_of(contents@),
    {
        let cs = chars_of(contents);
        let n = cs.len();
        let mut lines: Vec<Line> = Vec::new();
        let mut line_start: usize = 0;
        let mut i: usize = 0;
        let ghost done: Seq<Seq<char>> = seq![];
        proof {
            assert(cs@.take(0) =~= Seq::<char>::empty());
        }
        while i < n
            invariant
                n == cs@.len(),
                cs@ == contents@,
                line_start <= i <= n,
                split_at_newlines(cs@.take(i as int)) == done.push(cs@.subrange(line_start as int, i as int)),
                lines@.len() == done.len(),
                forall|j: int| 0 <= j < lines@.len() ==> (#[trigger] lines@[j]).wf(),
                forall|j: int| 0 <= j < lines@.len() ==> (#[trigger] lines@[j]).text() == without(strip_cr(done[j]), ZERO_WIDTH_JOINER),
            decreases n - i,
        {
            proof {
                assert(cs@.take(i + 1).drop_last() =~= cs@.take(i as int));
                assert(cs@.take(i + 1).last() == cs@[i as int]);
            }
            if cs[i] == '\n' {
                let end = if i > line_start && cs[i - 1] == '\r' {
                    i - 1
                } else {
                    i
                };
                let piece = string_from_chars(&cs, line_start, end);
                let ghost p = cs@.subrange(line_start as int, i as int);
                proof {
                    assert(piece@ =~= strip_cr(p));
                }
                lines.push(Line::from(piece.as_str()));
                proof {
                    done = done.push(p);
                    assert(cs@.subrange(i + 1, i + 1) =~= Seq::<char>::empty());
                }
                line_start = i + 1;
            } else {
                proof {
                    assert(cs@.subrange(line_start as int, i + 1) =~= cs@.subrange(line_start as int, i as int).push(cs@[i as int]));
                    let ps = done.push(cs@.subrange(line_start as int, i as int));
                    assert(ps.update(ps.len() - 1, ps.last().push(cs@[i as int])) =~= done.push(cs@.subrange(line_start as int, i + 1)));
                }
            }
            i += 1;
        }
        proof {
            assert(cs@.take(n as int) =~= cs@);
        }
        if line_start < n {
            let piece_end = if cs[n - 1] == '\r' {
                n - 1
            } else {
                n
            };
            let piece = string_from_chars(&cs, line_start, piece_end);
            proof {
                assert(piece@ =~= strip_cr(cs@.subrange(line_start as int, n as int)));
            }
            lines.push(Line::from(piece.as_str()));
        }
        let r = Buffer { lines };
        proof {
            let ps = split_at_newlines(contents@);
            let kept = if ps.last().len() == 0 { ps.drop_last() } else { ps };
            assert(line_start < n ==> kept == ps);
            assert(line_start == n ==> kept =~= done);
            assert(r.texts() =~= lines_of(contents@));
        }
        r
    }

    pub fn is_empty(&self) -> (r: bool)
        ensures
            r == (self.texts().len() == 0),
    {
        self.lines.len() == 0
    }

    /// Number of lines.
    pub fn height(&self) -> (r: usize)
        ensures
            r == self.texts().len(),
    {
        self.lines.len()
    }

    /// The line at `index`, where there is one.
    pub fn get_line(&self, index: usize) -> (r: Option<&Line>)
        requires
            self.wf(),
        ensures
            index < self.texts().len() ==> r == Some(&self.lines_spec()[index as int]),
            index >= self.texts().len() ==> r is None,
    {
        if index < self.lines.len() {
            Some(&self.lines[index])
        } else {
            None
        }
    }
    /// Deletes the grapheme at `at`; at or past the end of a line, joins
    /// the next line to it.
    pub fn delete(&mut self, at: Location)
        requires
            old(self).wf(),
        ensures
            final(self).wf(),
            final(self).texts() == deleted_at(old(self).texts(), at),
    {
        let y = at.line_index;
        if y >= self.lines.len() {
            return;
        }
        let ghost texts = self.texts();
        let count = self.lines[y].grapheme_count();
        if at.grapheme_index >= count {
            if y + 1 < self.lines.len() {
                let next_line = self.lines.remove(y + 1);
                let mut line = self.lines.remove(y);
                line.append(&next_line);
                self.lines.insert(y, line);
                proof {
                    assert(self.texts() =~= texts.update(y as int, texts[y as int] + texts[y + 1]).remove(y + 1));
                }
            }
        } else {
            let mut line = self.lines.remove(y);
            line.delete(at.grapheme_index);
            self.lines.insert(y, line);
            proof {
                assert(self.texts() =~= texts.update(
                    y as int,
                    deleted(texts[y as int], grapheme_clusters(texts[y as int]), at.grapheme_index as int),
                ));
            }
        }
    }

    /// Types `character` at `at`.
    pub fn insert_char(&mut self, character: char, at: Location)
        requires
            old(self).wf(),
        ensures
            final(self).wf(),
            final(self).texts() == char_inserted_at(old(self).texts(), character, at),
    {
        let y = at.line_index;
        let ghost texts = self.texts();
        if y > self.lines.len() {
            return;
        }
        if y == self.lines.len() {
            let piece = string_of_char(character);
            self.lines.push(Line::from(piece.as_str()));
            proof {
                assert(self.texts() =~= texts.push(without(seq![character], ZERO_WIDTH_JOINER)));
            }
        } else {
            let mut line = self.lines.remove(y);
            line.insert_char(character, at.grapheme_index);
            self.lines.insert(y, line);
            proof {
                if character == ZERO_WIDTH_JOINER {
                    assert(self.texts() =~= texts);
                } else {
                    assert(self.texts() =~= texts.update(
                        y as int,
                        inserted(texts[y as int], grapheme_clusters(texts[y as int]), at.grapheme_index as int, character),
                    ));
                }
            }
        }
    }

    /// Breaks the line at `at` in two; just past the last line, starts an
    /// empty one.
    pub fn insert_newline(&mut self, at: Location)
        requires
            old(self).wf(),
        ensures
            final(self).wf(),
            final(self).texts() == newline_inserted_at(old(self).texts(), at),
    {
        let y = at.line_index;
        let ghost texts = self.texts();
        if y > self.lines.len() {
            return;
        }
        if y == self.lines.len() {
            self.lines.push(Line::default());
            proof {
                assert(self.texts() =~= texts.push(seq![]));
            }
        } else {
            let mut line = self.lines.remove(y);
            let rest = line.split(at.grapheme_index);
            self.lines.insert(y, line);
            self.lines.insert(y + 1, rest);
            proof {
                let gs = grapheme_clusters(texts[y as int]);
                assert(self.texts() =~= texts.update(
                    y as int,
                    split_left(texts[y as int], gs, at.grapheme_index as int),
                ).insert(y + 1, split_right(gs, at.grapheme_index as int)));
            }
        }
    }

    /// The document as text, each line followed by a line feed.
    pub fn text(&self) -> (r: String)
        requires
            self.wf(),
        ensures
            r@ == joined(self.texts()),
    {
        let mut out = String::new();
        let mut i: usize = 0;
        while i < self.lines.len()
            invariant
                self.wf(),
                i <= self.texts().len(),
                out@ == joined(self.texts().take(i as int)),
            decreases self.texts().len() - i,
        {
            out.append(self.lines[i].as_str());
            out.append("\n");
            proof {
                reveal_strlit("\n");
                assert(self.texts().take(i + 1).drop_last() =~= self.texts().take(i as int));
            }
            i += 1;
        }
        proof {
            assert(self.texts().take(i as int) =~= self.texts());
        }
        out
    }

}

impl Default for Buffer {
    fn default() -> (r: Buffer)
        ensures
            r.wf(),
            r.texts() == Seq::<Seq<char>>::empty(),
    {
        let r = Buffer { lines: Vec::new() };
        proof {
            assert(r.texts() =~= Seq::<Seq<char>>::empty());
        }
        r
    }
}

} // verus!
