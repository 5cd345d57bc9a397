//! A single line of text, kept as its raw characters together with one
//! rendering fragment per grapheme cluster.
use vstd::prelude::*;
use vstd::string::{StrSliceExecFns, StringExecFns};

use crate::text::{
    all_whitespace, byte_len, char_byte_len, lemma_byte_len_prefix, lemma_prefix_is_boundary, chars_of, is_control, is_control_spec, is_whitespace,
    encode_utf8_valid, lemma_byte_len_concat, string_of_char, without, ZERO_WIDTH_JOINER,
};
use crate::annotatedstring::{fits, AnnotatedString, Annotation, AnnotationType};
use crate::matching::{
    after_match, as_int, lemma_match_positions_head, matches_at, find_from, first_match_from, last_match_before, match_positions, match_starts,
    rfind_before,
};
use crate::unicode::{display_width, grapheme_clusters, graphemes_of, string_views, width_of};

verus! {

broadcast use vstd::seq::group_seq_axioms;

/// How many terminal columns a grapheme takes when rendered.
#[derive(Copy, Clone, Debug, PartialEq, Eq, Structural)]
pub enum GraphemeWidth {
    Half,
    Full,
}

/// `x`, or the largest `usize` where `x` is larger.
pub open spec fn saturate(x: int) -> int {
    if x > usize::MAX {
        usize::MAX as int
    } else {
        x
    }
}

impl GraphemeWidth {
    pub open spec fn columns(self) -> nat {
        match self {
            GraphemeWidth::Half => 1,
            GraphemeWidth::Full => 2,
        }
    }

    pub fn saturating_add(self, other: usize) -> (r: usize)
        ensures
            r == saturate(other + self.columns()),
    {
        match self {
            Self::Half => other.saturating_add(1),
            Self::Full => other.saturating_add(2),
        }
    }
}

/// One grapheme cluster of a line, with what it renders as.
#[derive(Clone, Debug)]
pub struct TextFragment {
    pub grapheme: String,
    pub rendered_width: GraphemeWidth,
    pub replacement: Option<char>,
    pub start_byte_idx: usize,
}

pub open spec fn is_lone_control(g: Seq<char>) -> bool {
    g.len() == 1 && is_control_spec(g[0])
}

/// The single character shown in place of a grapheme that would render
/// blank, zero-width or as a control code.
pub open spec fn replacement_for(g: Seq<char>) -> Option<char> {
    let width = display_width(g);
    if g == seq![' '] {
        None
    } else if g == seq!['\t'] {
        Some(' ')
    } else if width > 0 && all_whitespace(g) {
        Some('␣')
    } else if width == 0 {
        if is_lone_control(g) {
            Some('▯')
        } else {
            Some('·')
        }
    } else if is_lone_control(g) {
        Some('▯')
    } else {
        None
    }
}

pub open spec fn width_class(g: Seq<char>) -> GraphemeWidth {
    if replacement_for(g) is Some || display_width(g) <= 1 {
        GraphemeWidth::Half
    } else {
        GraphemeWidth::Full
    }
}

/// Byte offset at which grapheme `i` starts.
pub open spec fn start_byte(gs: Seq<Seq<char>>, i: int) -> int {
    byte_len(gs.take(i).flatten()) as int
}

pub open spec fn fragment_matches(f: TextFragment, g: Seq<char>, start: int) -> bool {
    &&& f.grapheme@ == g
    &&& f.replacement == replacement_for(g)
    &&& f.rendered_width == width_class(g)
    &&& f.start_byte_idx == start
}

/// `frags` is the fragment sequence that segmentation gives for `text`.
pub open spec fn fragments_match(frags: Seq<TextFragment>, text: Seq<char>) -> bool {
    let gs = grapheme_clusters(text);
    &&& frags.len() == gs.len()
    &&& gs.flatten() == text
    &&& forall|i: int| 0 <= i < gs.len() ==> (#[trigger] gs[i]).len() > 0
    &&& forall|i: int|
        0 <= i < frags.len() ==> fragment_matches(#[trigger] frags[i], gs[i], start_byte(gs, i))
}

pub open spec fn has_no_joiner(s: Seq<char>) -> bool {
    forall|i: int| 0 <= i < s.len() ==> s[i] != ZERO_WIDTH_JOINER
}

/// Columns taken by the first `i` graphemes.
pub open spec fn columns_until(gs: Seq<Seq<char>>, i: int) -> int
    decreases i,
{
    if i <= 0 {
        0
    } else {
        columns_until(gs, i - 1) + width_class(gs[i - 1]).columns()
    }
}

/// First column of grapheme `i`, saturating at the largest `usize`.
pub open spec fn col_start(gs: Seq<Seq<char>>, i: int) -> int {
    saturate(columns_until(gs, i))
}

/// Column just past grapheme `i`, saturating at the largest `usize`.
pub open spec fn col_end(gs: Seq<Seq<char>>, i: int) -> int {
    saturate(col_start(gs, i) + width_class(gs[i]).columns())
}

/// What a grapheme shows when it is wholly visible.
pub open spec fn display_of(g: Seq<char>) -> Seq<char> {
    match replacement_for(g) {
        Some(c) => seq![c],
        None => g,
    }
}

/// What grapheme `i` contributes to the columns `[start, end)`: nothing
/// when it lies outside, an ellipsis when it straddles an edge, else its
/// display.
pub open spec fn clipped_piece(gs: Seq<Seq<char>>, i: int, start: int, end: int) -> Seq<char> {
    if col_end(gs, i) <= start || col_start(gs, i) >= end {
        seq![]
    } else if col_start(gs, i) < start || col_end(gs, i) > end {
        seq!['⋯']
    } else {
        display_of(gs[i])
    }
}

pub open spec fn clipped_pieces(gs: Seq<Seq<char>>, start: int, end: int) -> Seq<Seq<char>> {
    Seq::new(gs.len(), |i: int| clipped_piece(gs, i, start, end))
}

/// The text shown for the columns `[start, end)` of a line.
pub open spec fn visible_text(gs: Seq<Seq<char>>, start: int, end: int) -> Seq<char> {
    if start >= end {
        seq![]
    } else {
        clipped_pieces(gs, start, end).flatten()
    }
}

pub proof fn lemma_columns_nonneg(gs: Seq<Seq<char>>, i: int)
    ensures
        0 <= columns_until(gs, i),
    decreases i,
{
    if i > 0 {
        lemma_columns_nonneg(gs, i - 1);
    }
}

pub proof fn lemma_columns_monotone(gs: Seq<Seq<char>>, i: int, j: int)
    requires
        i <= j,
    ensures
        columns_until(gs, i) <= columns_until(gs, j),
        0 <= columns_until(gs, i),
    decreases j - i,
{
    lemma_columns_nonneg(gs, i);
    if i < j {
        lemma_columns_monotone(gs, i, j - 1);
        if j > 0 {
            assert(columns_until(gs, j) == columns_until(gs, j - 1) + width_class(gs[j - 1]).columns());
        }
    }
}

pub proof fn lemma_take_skip_flatten(gs: Seq<Seq<char>>, at: int)
    requires
        0 <= at <= gs.len(),
    ensures
        gs.take(at).flatten() + gs.skip(at).flatten() == gs.flatten(),
{
    assert(gs =~= gs.take(at) + gs.skip(at));
    vstd::seq_lib::lemma_flatten_concat(gs.take(at), gs.skip(at));
}


/// The text after inserting `c` before grapheme `at` (at the end where
/// `at` is past the last grapheme).
pub open spec fn inserted(text: Seq<char>, gs: Seq<Seq<char>>, at: int, c: char) -> Seq<char> {
    let k = vstd::math::min(at, gs.len() as int);
    gs.take(k).flatten() + seq![c] + gs.skip(k).flatten()
}

pub proof fn lemma_flatten_empty(ps: Seq<Seq<char>>)
    requires
        forall|j: int| 0 <= j < ps.len() ==> ps[j] == Seq::<char>::empty(),
    ensures
        ps.flatten() == Seq::<char>::empty(),
    decreases ps.len(),
{
    if ps.len() > 0 {
        lemma_flatten_empty(ps.drop_first());
        assert(ps.flatten() =~= ps[0] + ps.drop_first().flatten());
    }
}

/// Both parts of a joiner-free text are joiner-free.
pub proof fn lemma_no_joiner_split(gs: Seq<Seq<char>>, at: int)
    requires
        0 <= at <= gs.len(),
        has_no_joiner(gs.flatten()),
    ensures
        has_no_joiner(gs.take(at).flatten()),
        has_no_joiner(gs.skip(at).flatten()),
{
    lemma_take_skip_flatten(gs, at);
    let a = gs.take(at).flatten();
    let b = gs.skip(at).flatten();
    assert forall|i: int| 0 <= i < a.len() implies a[i] != ZERO_WIDTH_JOINER by {
        assert((a + b)[i] == a[i]);
    }
    assert forall|i: int| 0 <= i < b.len() implies b[i] != ZERO_WIDTH_JOINER by {
        assert((a + b)[a.len() + i] == b[i]);
    }
}

/// Position, in characters, at which grapheme `i` starts.
pub open spec fn char_start(gs: Seq<Seq<char>>, i: int) -> int {
    gs.take(i).flatten().len() as int
}

/// How many of the first `n` graphemes start before character `p`.
pub open spec fn graphemes_before(gs: Seq<Seq<char>>, p: int, n: int) -> int
    decreases n,
{
    if n <= 0 {
        0
    } else {
        graphemes_before(gs, p, n - 1) + if char_start(gs, n - 1) < p {
            1int
        } else {
            0int
        }
    }
}

/// The grapheme index of a character position: the first grapheme that
/// starts at or after it, or the count where none does.
pub open spec fn grapheme_index_of(gs: Seq<Seq<char>>, p: int) -> int {
    graphemes_before(gs, p, gs.len() as int)
}

pub open spec fn index_of_match(gs: Seq<Seq<char>>, o: Option<int>) -> Option<int> {
    match o {
        Some(p) => Some(grapheme_index_of(gs, p)),
        None => None,
    }
}

pub proof fn lemma_char_start_before_end(gs: Seq<Seq<char>>, i: int)
    requires
        0 <= i < gs.len(),
        forall|j: int| 0 <= j < gs.len() ==> (#[trigger] gs[j]).len() > 0,
    ensures
        char_start(gs, i) < gs.flatten().len(),
{
    lemma_take_skip_flatten(gs, i);
    assert(gs.skip(i).flatten() == gs.skip(i)[0] + gs.skip(i).drop_first().flatten());
}

/// Byte offset of character position `k` of `text`.
pub open spec fn byte_at(text: Seq<char>, k: int) -> int {
    byte_len(text.take(k)) as int
}

pub open spec fn annotation(start: int, end: int, kind: AnnotationType) -> Annotation {
    Annotation { start_byte_idx: start as usize, end_byte_idx: end as usize, annotation_type: kind }
}

/// The annotations that mark the matches `ms` of a query of length `qlen`
/// in `text`, from character `last` on: a plain annotation over each gap
/// before a match, a highlight over each match, and a plain annotation
/// over what follows the last match.
pub open spec fn highlight_plan(text: Seq<char>, qlen: int, ms: Seq<int>, last: int) -> Seq<
    Annotation,
>
    decreases ms.len(),
{
    if ms.len() == 0 {
        if last < text.len() {
            seq![annotation(byte_at(text, last), byte_at(text, text.len() as int), AnnotationType::Plain)]
        } else {
            seq![]
        }
    } else {
        let m = ms[0];
        let gap = if last < m {
            seq![annotation(byte_at(text, last), byte_at(text, m), AnnotationType::Plain)]
        } else {
            seq![]
        };
        gap + seq![annotation(byte_at(text, m), byte_at(text, m + qlen), AnnotationType::Highlight)]
            + highlight_plan(text, qlen, ms.drop_first(), m + qlen)
    }
}

/// The matches that get highlighted: none for an empty query.
pub open spec fn highlighted_matches(text: Seq<char>, q: Seq<char>) -> Seq<int> {
    if q.len() == 0 {
        seq![]
    } else {
        match_positions(text, q, 0)
    }
}

/// `anns` lie end to end, each non-empty, from byte `lo` to byte `hi`.
pub open spec fn tiles(anns: Seq<Annotation>, lo: int, hi: int) -> bool
    decreases anns.len(),
{
    if anns.len() == 0 {
        lo == hi
    } else {
        &&& anns[0].start_byte_idx == lo
        &&& anns[0].start_byte_idx < anns[0].end_byte_idx
        &&& tiles(anns.drop_first(), anns[0].end_byte_idx as int, hi)
    }
}

/// The text left in a line split before grapheme `at`.
pub open spec fn split_left(text: Seq<char>, gs: Seq<Seq<char>>, at: int) -> Seq<char> {
    if 0 <= at < gs.len() {
        gs.take(at).flatten()
    } else {
        text
    }
}

/// The text cut off from a line split before grapheme `at`.
pub open spec fn split_right(gs: Seq<Seq<char>>, at: int) -> Seq<char> {
    if 0 <= at < gs.len() {
        gs.skip(at).flatten()
    } else {
        seq![]
    }
}

/// The text after removing grapheme `at`, where there is one.
pub open spec fn deleted(text: Seq<char>, gs: Seq<Seq<char>>, at: int) -> Seq<char> {
    if 0 <= at < gs.len() {
        gs.take(at).flatten() + gs.skip(at + 1).flatten()
    } else {
        text
    }
}

/// Strips every zero-width joiner from `s`.
fn strip_joiners(s: &str) -> (r: String)
    ensures
        r@ == without(s@, ZERO_WIDTH_JOINER),
        has_no_joiner(r@),
{
    let cs = chars_of(s);
    let mut out = String::new();
    let mut i: usize = 0;
    while i < cs.len()
        invariant
            i <= cs@.len(),
            cs@ == s@,
            out@ == without(cs@.take(i as int), ZERO_WIDTH_JOINER),
            has_no_joiner(out@),
        decreases cs@.len() - i,
    {
        proof {
            assert(cs@.take(i + 1).drop_last() =~= cs@.take(i as int));
        }
        if cs[i] != ZERO_WIDTH_JOINER {
            let piece = string_of_char(cs[i]);
            out.append(piece.as_str());
        }
        i += 1;
    }
    proof {
        assert(cs@.take(i as int) =~= cs@);
    }
    out
}

fn all_whitespace_chars(cs: &Vec<char>) -> (r: bool)
    ensures
        r == all_whitespace(cs@),
{
    let mut i: usize = 0;
    while i < cs.len()
        invariant
            i <= cs@.len(),
            forall|j: int| 0 <= j < i ==> crate::text::is_whitespace_spec(#[trigger] cs@[j]),
        decreases cs@.len() - i,
    {
        if !is_whitespace(cs[i]) {
            return false;
        }
        i += 1;
    }
    true
}

/// A text with its fragments; the fragments are always rebuilt from the
/// text after a change, never patched.
#[derive(Clone)]
pub struct Line {
    fragments: Vec<TextFragment>,
    string: String,
}

impl Line {
    /// The raw text of the line.
    pub closed spec fn text(&self) -> Seq<char> {
        self.string@
    }

    pub closed spec fn fragments_spec(&self) -> Seq<TextFragment> {
        self.fragments@
    }

    pub closed spec fn wf(&self) -> bool {
        &&& has_no_joiner(self.string@)
        &&& fragments_match(self.fragments@, self.string@)
        &&& byte_len(self.string@) <= usize::MAX
    }

    /// The grapheme clusters of the line, in order.
    pub open spec fn graphemes(&self) -> Seq<Seq<char>> {
        grapheme_clusters(self.text())
    }

    pub open spec fn count(&self) -> nat {
        self.graphemes().len()
    }

    /// Text of the graphemes before index `at`.
    pub open spec fn prefix(&self, at: int) -> Seq<char> {
        self.graphemes().take(at).flatten()
    }

    /// Text of the graphemes from index `at` on.
    pub open spec fn suffix(&self, at: int) -> Seq<char> {
        self.graphemes().skip(at).flatten()
    }

    /// What follows from well-formedness for users of a line.
    pub proof fn lemma_wf(&self)
        requires
            self.wf(),
        ensures
            self.graphemes().flatten() == self.text(),
            forall|i: int| 0 <= i < self.count() ==> (#[trigger] self.graphemes()[i]).len() > 0,
            has_no_joiner(self.text()),
            self.fragments_spec().len() == self.count(),
            forall|i: int|
                0 <= i < self.count() ==> fragment_matches(
                    #[trigger] self.fragments_spec()[i],
                    self.graphemes()[i],
                    start_byte(self.graphemes(), i),
                ),
    {
    }

    fn get_replacement_character(for_str: &str) -> (r: Option<char>)
        ensures
            r == replacement_for(for_str@),
    {
        let width = width_of(for_str);
        let cs = chars_of(for_str);
        if cs.len() == 1 && cs[0] == ' ' {
            proof {
                assert(for_str@ =~= seq![' ']);
            }
            return None;
        }
        if cs.len() == 1 && cs[0] == '\t' {
            proof {
                assert(for_str@ =~= seq!['\t']);
            }
            return Some(' ');
        }
        proof {
            assert(for_str@ != seq![' ']);
            assert(for_str@ != seq!['\t']);
        }
        let lone_control = cs.len() == 1 && is_control(cs[0]);
        if width > 0 && all_whitespace_chars(&cs) {
            Some('␣')
        } else if width == 0 {
            if lone_control {
                Some('▯')
            } else {
                Some('·')
            }
        } else if lone_control {
            Some('▯')
        } else {
            None
        }
    }

    /// Segments `s` into fragments.
    fn str_to_fragments(s: &str) -> (r: Vec<TextFragment>)
        ensures
            fragments_match(r@, s@),
            byte_len(s@) <= usize::MAX,
    {
        let total = s.as_bytes().len();
        let gs = graphemes_of(s);
        let ghost views = string_views(gs@);
        let mut r: Vec<TextFragment> = Vec::new();
        let mut start: usize = 0;
        let mut i: usize = 0;
        while i < gs.len()
            invariant
                i <= gs@.len(),
                views == string_views(gs@),
                views == grapheme_clusters(s@),
                views.flatten() == s@,
                byte_len(s@) == total,
                r@.len() == i,
                start == start_byte(views, i as int),
                forall|j: int|
                    0 <= j < i ==> fragment_matches(#[trigger] r@[j], views[j], start_byte(views, j)),
            decreases gs@.len() - i,
        {
            let g = &gs[i];
            let replacement = Self::get_replacement_character(g.as_str());
            let rendered_width = match replacement {
                Some(_) => GraphemeWidth::Half,
                None => {
                    if width_of(g.as_str()) <= 1 {
                        GraphemeWidth::Half
                    } else {
                        GraphemeWidth::Full
                    }
                },
            };
            let n = g.as_str().len();
            proof {
                let k = i as int;
                assert(views[k] == g@);
                assert(views.take(k + 1) =~= views.take(k).push(views[k]));
                views.take(k).lemma_flatten_push(views[k]);
                lemma_byte_len_concat(views.take(k).flatten(), views[k]);
                assert(views =~= views.take(k + 1) + views.skip(k + 1));
                vstd::seq_lib::lemma_flatten_concat(views.take(k + 1), views.skip(k + 1));
                lemma_byte_len_concat(views.take(k + 1).flatten(), views.skip(k + 1).flatten());
            }
            r.push(
                TextFragment {
                    grapheme: g.clone(),
                    rendered_width,
                    replacement,
                    start_byte_idx: start,
                },
            );
            start = start + n;
            i += 1;
        }
        r
    }

    fn rebuild_fragments(&mut self)
        requires
            has_no_joiner(old(self).string@),
        ensures
            final(self).wf(),
            final(self).text() == old(self).text(),
    {
        self.fragments = Self::str_to_fragments(self.string.as_str());
    }

    /// Builds a line from `line_str`, leaving out zero-width joiners.
    pub fn from(line_str: &str) -> (r: Line)
        ensures
            r.wf(),
            r.text() == without(line_str@, ZERO_WIDTH_JOINER),
    {
        let string = strip_joiners(line_str);
        let fragments = Self::str_to_fragments(string.as_str());
        Line { fragments, string }
    }

    /// The text of graphemes `[from, to)`.
    fn concat_graphemes(&self, from: usize, to: usize) -> (r: String)
        requires
            self.wf(),
            from <= to <= self.count(),
        ensures
            r@ == self.graphemes().subrange(from as int, to as int).flatten(),
    {
        let ghost gs = self.graphemes();
        proof {
            self.lemma_wf();
        }
        let mut out = String::new();
        let mut i = from;
        proof {
            assert(gs.subrange(from as int, from as int) =~= Seq::<Seq<char>>::empty());
        }
        while i < to
            invariant
                self.wf(),
                gs == self.graphemes(),
                from <= i <= to <= gs.len(),
                self.fragments_spec().len() == gs.len(),
                forall|j: int| 0 <= j < gs.len() ==> (#[trigger] self.fragments_spec()[j]).grapheme@ == gs[j],
                out@ == gs.subrange(from as int, i as int).flatten(),
            decreases to - i,
        {
            proof {
                assert(gs.subrange(from as int, i + 1) =~= gs.subrange(from as int, i as int).push(gs[i as int]));
                gs.subrange(from as int, i as int).lemma_flatten_push(gs[i as int]);
            }
            out.append(self.fragments[i].grapheme.as_str());
            i += 1;
        }
        out
    }

    pub fn grapheme_count(&self) -> (r: usize)
        requires
            self.wf(),
        ensures
            r == self.count(),
    {
        self.fragments.len()
    }

    /// Columns taken by the graphemes before `grapheme_index`.
    pub fn width_until(&self, grapheme_index: usize) -> (r: usize)
        requires
            self.wf(),
        ensures
            r == col_start(self.graphemes(), vstd::math::min(grapheme_index as int, self.count() as int)),
    {
        let ghost gs = self.graphemes();
        proof {
            self.lemma_wf();
        }
        let n = if grapheme_index < self.fragments.len() {
            grapheme_index
        } else {
            self.fragments.len()
        };
        let mut acc: usize = 0;
        let mut i: usize = 0;
        while i < n
            invariant
                self.wf(),
                gs == self.graphemes(),
                i <= n <= gs.len(),
                self.fragments_spec().len() == gs.len(),
                forall|j: int| 0 <= j < gs.len() ==> (#[trigger] self.fragments_spec()[j]).rendered_width == width_class(gs[j]),
                acc == col_start(gs, i as int),
            decreases n - i,
        {
            proof {
                lemma_columns_monotone(gs, 0, i as int);
            }
            acc = self.fragments[i].rendered_width.saturating_add(acc);
            i += 1;
        }
        acc
    }

    /// Columns taken by the whole line.
    pub fn width(&self) -> (r: usize)
        requires
            self.wf(),
        ensures
            r == col_start(self.graphemes(), self.count() as int),
    {
        self.width_until(self.grapheme_count())
    }

    /// The text shown for the columns `[range.start, range.end)`.
    pub fn get_visible_graphemes(&self, range: std::ops::Range<usize>) -> (r: String)
        requires
            self.wf(),
        ensures
            r@ == visible_text(self.graphemes(), range.start as int, range.end as int),
    {
        let start = range.start;
        let end = range.end;
        let ghost gs = self.graphemes();
        let ghost pieces = clipped_pieces(gs, start as int, end as int);
        if start >= end {
            return String::new();
        }
        proof {
            self.lemma_wf();
        }
        let mut result = String::new();
        let mut current_pos: usize = 0;
        let mut i: usize = 0;
        while i < self.fragments.len() && current_pos < end
            invariant
                self.wf(),
                gs == self.graphemes(),
                pieces == clipped_pieces(gs, start as int, end as int),
                i <= gs.len(),
                self.fragments_spec().len() == gs.len(),
                forall|j: int|
                    0 <= j < gs.len() ==> fragment_matches(
                        #[trigger] self.fragments_spec()[j],
                        gs[j],
                        start_byte(gs, j),
                    ),
                current_pos == col_start(gs, i as int),
                result@ == pieces.take(i as int).flatten(),
            decreases gs.len() - i,
        {
            let fragment = &self.fragments[i];
            let fragment_end = fragment.rendered_width.saturating_add(current_pos);
            proof {
                lemma_columns_monotone(gs, 0, i as int);
            }
            proof {
                assert(pieces.take(i + 1) =~= pieces.take(i as int).push(pieces[i as int]));
                pieces.take(i as int).lemma_flatten_push(pieces[i as int]);
            }
            if fragment_end > start {
                if fragment_end > end || current_pos < start {
                    let piece = string_of_char('⋯');
                    result.append(piece.as_str());
                } else if let Some(c) = fragment.replacement {
                    let piece = string_of_char(c);
                    result.append(piece.as_str());
                } else {
                    result.append(fragment.grapheme.as_str());
                }
            } else {
                proof {
                    assert(result@ + pieces[i as int] =~= result@);
                }
            }
            current_pos = fragment_end;
            i += 1;
        }
        proof {
            if i == gs.len() {
                assert(pieces.take(i as int) =~= pieces);
            } else {
                assert forall|j: int| i <= j < gs.len() implies pieces[j] == Seq::<char>::empty() by {
                    lemma_columns_monotone(gs, i as int, j);
                }
                assert(pieces =~= pieces.take(i as int) + pieces.skip(i as int));
                vstd::seq_lib::lemma_flatten_concat(pieces.take(i as int), pieces.skip(i as int));
                lemma_flatten_empty(pieces.skip(i as int));
                assert(result@ + Seq::<char>::empty() =~= result@);
            }
        }
        result
    }

    /// Removes grapheme `at`; past the end nothing changes.
    pub fn delete(&mut self, at: usize)
        requires
            old(self).wf(),
        ensures
            final(self).wf(),
            final(self).text() == deleted(old(self).text(), old(self).graphemes(), at as int),
    {
        if at < self.fragments.len() {
            let n = self.fragments.len();
            let mut head = self.concat_graphemes(0, at);
            let tail = self.concat_graphemes(at + 1, n);
            proof {
                let gs = self.graphemes();
                self.lemma_wf();
                assert(gs.take(at as int) =~= gs.subrange(0, at as int));
                assert(gs.skip(at + 1) =~= gs.subrange(at + 1, n as int));
                lemma_take_skip_flatten(gs, at as int);
                lemma_no_joiner_split(gs, at as int);
                lemma_no_joiner_split(gs, at + 1);
            }
            head.append(tail.as_str());
            self.string = head;
            self.rebuild_fragments();
        }
    }

    /// Removes the last grapheme, if any.
    pub fn delete_last(&mut self)
        requires
            old(self).wf(),
        ensures
            final(self).wf(),
            old(self).count() > 0 ==> final(self).text() == old(self).prefix(old(self).count() - 1),
            old(self).count() == 0 ==> final(self).text() == old(self).text(),
    {
        let n = self.grapheme_count();
        self.delete(n.saturating_sub(1));
        proof {
            if n > 0 {
                let gs = old(self).graphemes();
                assert(gs.skip(n as int) =~= Seq::<Seq<char>>::empty());
                assert(gs.skip(n as int).flatten() =~= Seq::<char>::empty());
                assert(old(self).prefix(n - 1) + Seq::<char>::empty() =~= old(self).prefix(n - 1));
            }
        }
    }

    /// Adds the text of `other` at the end.
    pub fn append(&mut self, other: &Line)
        requires
            old(self).wf(),
            other.wf(),
        ensures
            final(self).wf(),
            final(self).text() == old(self).text() + other.text(),
    {
        self.string.append(other.string.as_str());
        proof {
            assert(has_no_joiner(self.string@));
        }
        self.rebuild_fragments();
    }

    /// Inserts `character` before grapheme `at`, or at the end where `at`
    /// is the count or beyond. A zero-width joiner is never stored.
    pub fn insert_char(&mut self, character: char, at: usize)
        requires
            old(self).wf(),
        ensures
            final(self).wf(),
            character == ZERO_WIDTH_JOINER ==> final(self).text() == old(self).text(),
            character != ZERO_WIDTH_JOINER ==> final(self).text() == inserted(
                old(self).text(),
                old(self).graphemes(),
                at as int,
                character,
            ),
    {
        if character == ZERO_WIDTH_JOINER {
            return;
        }
        let n = self.fragments.len();
        let k = if at < n {
            at
        } else {
            n
        };
        let mut head = self.concat_graphemes(0, k);
        let tail = self.concat_graphemes(k, n);
        let piece = string_of_char(character);
        proof {
            let gs = self.graphemes();
            self.lemma_wf();
            assert(gs.take(k as int) =~= gs.subrange(0, k as int));
            assert(gs.skip(k as int) =~= gs.subrange(k as int, n as int));
            lemma_take_skip_flatten(gs, k as int);
            lemma_no_joiner_split(gs, k as int);
        }
        head.append(piece.as_str());
        head.append(tail.as_str());
        self.string = head;
        self.rebuild_fragments();
    }

    /// Adds `character` at the end.
    pub fn append_char(&mut self, character: char)
        requires
            old(self).wf(),
        ensures
            final(self).wf(),
            character == ZERO_WIDTH_JOINER ==> final(self).text() == old(self).text(),
            character != ZERO_WIDTH_JOINER ==> final(self).text() == old(self).text().push(character),
    {
        let n = self.grapheme_count();
        self.insert_char(character, n);
        proof {
            if character != ZERO_WIDTH_JOINER {
                let gs = old(self).graphemes();
                old(self).lemma_wf();
                assert(gs.take(n as int) =~= gs);
                assert(gs.skip(n as int) =~= Seq::<Seq<char>>::empty());
                assert(gs.skip(n as int).flatten() =~= Seq::<char>::empty());
                assert(old(self).text() + seq![character] + Seq::<char>::empty() =~= old(self).text().push(character));
            }
        }
    }

    /// Cuts the line before grapheme `at` and returns the cut-off part;
    /// where `at` is not a grapheme index, returns an empty line and
    /// changes nothing.
    pub fn split(&mut self, at: usize) -> (r: Line)
        requires
            old(self).wf(),
        ensures
            final(self).wf(),
            r.wf(),
            final(self).text() == split_left(old(self).text(), old(self).graphemes(), at as int),
            r.text() == split_right(old(self).graphemes(), at as int),
    {
        if at < self.fragments.len() {
            let n = self.fragments.len();
            let head = self.concat_graphemes(0, at);
            let tail = self.concat_graphemes(at, n);
            proof {
                let gs = self.graphemes();
                self.lemma_wf();
                assert(gs.take(at as int) =~= gs.subrange(0, at as int));
                assert(gs.skip(at as int) =~= gs.subrange(at as int, n as int));
                lemma_take_skip_flatten(gs, at as int);
                lemma_no_joiner_split(gs, at as int);
            }
            self.string = head;
            self.rebuild_fragments();
            let fragments = Self::str_to_fragments(tail.as_str());
            Line { fragments, string: tail }
        } else {
            Line::default()
        }
    }

    /// Character position at which each grapheme starts, followed by the
    /// length of the text.
    fn char_starts(&self) -> (r: Vec<usize>)
        requires
            self.wf(),
        ensures
            r@.len() == self.count() + 1,
            forall|i: int| 0 <= i <= self.count() ==> r@[i] == char_start(self.graphemes(), i),
    {
        let ghost gs = self.graphemes();
        proof {
            self.lemma_wf();
        }
        let total = chars_of(self.string.as_str()).len();
        let mut r: Vec<usize> = Vec::new();
        let mut acc: usize = 0;
        let mut i: usize = 0;
        proof {
            assert(gs.take(0) =~= Seq::<Seq<char>>::empty());
        }
        while i < self.fragments.len()
            invariant
                self.wf(),
                gs == self.graphemes(),
                gs.flatten() == self.text(),
                total == self.text().len(),
                i <= gs.len(),
                self.fragments_spec().len() == gs.len(),
                forall|j: int| 0 <= j < gs.len() ==> (#[trigger] self.fragments_spec()[j]).grapheme@ == gs[j],
                r@.len() == i,
                acc == char_start(gs, i as int),
                forall|j: int| 0 <= j < i ==> r@[j] == char_start(gs, j),
            decreases gs.len() - i,
        {
            r.push(acc);
            let l = self.fragments[i].grapheme.as_str().unicode_len();
            proof {
                let k = i as int;
                assert(gs.take(k + 1) =~= gs.take(k).push(gs[k]));
                gs.take(k).lemma_flatten_push(gs[k]);
                lemma_take_skip_flatten(gs, k + 1);
            }
            acc = acc + l;
            i += 1;
        }
        r.push(acc);
        proof {
            assert(gs.take(gs.len() as int) =~= gs);
        }
        r
    }

    /// Grapheme index of character position `p`, from the start positions.
    fn grapheme_index_at(starts: &Vec<usize>, p: usize, Ghost(gs): Ghost<Seq<Seq<char>>>) -> (r: usize)
        requires
            starts@.len() == gs.len() + 1,
            forall|i: int| 0 <= i < gs.len() ==> starts@[i] == char_start(gs, i),
        ensures
            r == grapheme_index_of(gs, p as int),
    {
        let n = starts.len() - 1;
        let mut count: usize = 0;
        let mut i: usize = 0;
        while i < n
            invariant
                n == gs.len(),
                starts@.len() == gs.len() + 1,
                forall|j: int| 0 <= j < gs.len() ==> starts@[j] == char_start(gs, j),
                i <= n,
                count <= i,
                count == graphemes_before(gs, p as int, i as int),
            decreases n - i,
        {
            if starts[i] < p {
                count = count + 1;
            }
            i += 1;
        }
        count
    }

    /// Grapheme indices of the matches of `query`, scanning the text from
    /// the start and resuming after each match.
    pub fn search(&self, query: &str) -> (r: Vec<usize>)
        requires
            self.wf(),
        ensures
            r@.map_values(|g: usize| g as int) == match_positions(self.text(), query@, 0).map_values(
                |p: int| grapheme_index_of(self.graphemes(), p),
            ),
    {
        let ghost gs = self.graphemes();
        let text = chars_of(self.string.as_str());
        let q = chars_of(query);
        let matches = match_starts(&text, &q);
        let starts = self.char_starts();
        let ghost ms = match_positions(self.text(), query@, 0);
        let mut r: Vec<usize> = Vec::new();
        let mut i: usize = 0;
        while i < matches.len()
            invariant
                starts@.len() == gs.len() + 1,
                forall|j: int| 0 <= j < gs.len() ==> starts@[j] == char_start(gs, j),
                matches@.map_values(|p: usize| p as int) == ms,
                i <= matches@.len(),
                r@.len() == i,
                forall|j: int| 0 <= j < i ==> r@[j] == grapheme_index_of(gs, ms[j]),
            decreases matches@.len() - i,
        {
            let g = Self::grapheme_index_at(&starts, matches[i], Ghost(gs));
            proof {
                assert(ms[i as int] == matches@[i as int] as int);
            }
            r.push(g);
            i += 1;
        }
        proof {
            assert(r@.map_values(|g: usize| g as int) =~= ms.map_values(
                |p: int| grapheme_index_of(gs, p),
            ));
        }
        r
    }

    /// The first match of `query` that starts after grapheme `from`
    /// begins; none where `from` is not a grapheme index.
    pub fn search_forward(&self, query: &str, from: usize) -> (r: Option<usize>)
        requires
            self.wf(),
        ensures
            from >= self.count() ==> r is None,
            from < self.count() ==> as_int(r) == index_of_match(
                self.graphemes(),
                first_match_from(self.text(), query@, char_start(self.graphemes(), from as int) + 1),
            ),
    {
        let ghost gs = self.graphemes();
        if from >= self.fragments.len() {
            return None;
        }
        let text = chars_of(self.string.as_str());
        let q = chars_of(query);
        let starts = self.char_starts();
        proof {
            self.lemma_wf();
            lemma_char_start_before_end(gs, from as int);
            assert(starts@[from as int] < text@.len());
        }
        let found = find_from(&text, &q, starts[from] + 1);
        match found {
            Some(p) => Some(Self::grapheme_index_at(&starts, p, Ghost(gs))),
            None => None,
        }
    }

    /// The last match of `query` that ends before grapheme `from` begins
    /// (`from` taken as the count where it is larger).
    pub fn search_backward(&self, query: &str, from: usize) -> (r: Option<usize>)
        requires
            self.wf(),
        ensures
            ({
                let k = vstd::math::min(from as int, self.count() as int);
                &&& k == 0 ==> r is None
                &&& k > 0 ==> as_int(r) == index_of_match(
                    self.graphemes(),
                    last_match_before(self.text(), query@, char_start(self.graphemes(), k)),
                )
            }),
    {
        let ghost gs = self.graphemes();
        let n = self.fragments.len();
        let k = if from < n {
            from
        } else {
            n
        };
        if k == 0 {
            return None;
        }
        let text = chars_of(self.string.as_str());
        let q = chars_of(query);
        let starts = self.char_starts();
        proof {
            self.lemma_wf();
            lemma_take_skip_flatten(gs, k as int);
        }
        let found = rfind_before(&text, &q, starts[k]);
        match found {
            Some(p) => Some(Self::grapheme_index_at(&starts, p, Ghost(gs))),
            None => None,
        }
    }

    /// The text shown for the columns `range`, with every match of `query`
    /// in it highlighted and the rest marked plain.
    pub fn get_annotated_visible_substr(&self, range: std::ops::Range<usize>, query: &str) -> (r:
        AnnotatedString)
        requires
            self.wf(),
        ensures
            r.wf(),
            r.text() == visible_text(self.graphemes(), range.start as int, range.end as int),
            r.annotations_spec() == highlight_plan(
                r.text(),
                query@.len() as int,
                highlighted_matches(r.text(), query@),
                0,
            ),
            tiles(r.annotations_spec(), 0, byte_len(r.text()) as int),
    {
        let sub_str = self.get_visible_graphemes(range);
        let ghost vis = sub_str@;
        let total = sub_str.as_str().as_bytes().len();
        let vc = chars_of(sub_str.as_str());
        let qc = chars_of(query);
        let qlen = qc.len();
        let matches = if qlen == 0 {
            Vec::new()
        } else {
            match_starts(&vc, &qc)
        };
        let ghost ms = highlighted_matches(vis, query@);
        proof {
            assert(matches@.map_values(|p: usize| p as int) =~= ms);
        }
        // byte offset of every character position
        let n = vc.len();
        let mut offsets: Vec<usize> = Vec::new();
        let mut acc: usize = 0;
        let mut k: usize = 0;
        while k < n
            invariant
                n == vis.len(),
                vc@ == vis,
                byte_len(vis) == total,
                k <= n,
                offsets@.len() == k,
                acc == byte_at(vis, k as int),
                forall|j: int| 0 <= j < k ==> offsets@[j] == byte_at(vis, j),
            decreases n - k,
        {
            offsets.push(acc);
            let b = char_byte_len(vc[k]);
            proof {
                assert(vis.take(k + 1) =~= vis.take(k as int) + seq![vis[k as int]]);
                lemma_byte_len_concat(vis.take(k as int), seq![vis[k as int]]);
                lemma_byte_len_prefix(vis, k + 1, n as int);
            }
            acc = acc + b;
            k += 1;
        }
        offsets.push(acc);
        proof {
            assert(vis.take(n as int) =~= vis);
        }
        let mut annotated_string = AnnotatedString::new(sub_str.as_str());
        let mut last: usize = 0;
        let mut i: usize = 0;
        proof {
            assert(ms.skip(0) =~= ms);
        }
        while i < matches.len()
            invariant
                n == vis.len(),
                qlen == query@.len(),
                offsets@.len() == n + 1,
                forall|j: int| 0 <= j <= n ==> offsets@[j] == byte_at(vis, j),
                matches@.map_values(|p: usize| p as int) == ms,
                ms == highlighted_matches(vis, query@),
                i <= matches@.len(),
                last <= n,
                qlen > 0 ==> ms.skip(i as int) == match_positions(vis, query@, last as int),
                qlen == 0 ==> ms.len() == 0,
                annotated_string.wf(),
                annotated_string.text() == vis,
                annotated_string.annotations_spec() + highlight_plan(vis, qlen as int, ms.skip(i as int), last as int)
                    == highlight_plan(vis, qlen as int, ms, 0),
            decreases matches@.len() - i,
        {
            let m = matches[i];
            let ghost rest = ms.skip(i as int);
            proof {
                assert(m as int == ms[i as int]);
                assert(rest[0] == ms[i as int]);
                lemma_match_positions_head(vis, query@, last as int);
                assert(rest.drop_first() =~= ms.skip(i + 1));
                encode_utf8_valid(vis);
                lemma_prefix_is_boundary(vis, last as int);
                lemma_prefix_is_boundary(vis, m as int);
                lemma_prefix_is_boundary(vis, m + qlen);
                lemma_byte_len_prefix(vis, last as int, m as int);
                lemma_byte_len_prefix(vis, m as int, m + qlen);
                lemma_byte_len_prefix(vis, m + qlen, n as int);
                assert(vis.take(n as int) =~= vis);
            }
            let ghost before = annotated_string.annotations_spec();
            if last < m {
                annotated_string.add_annotation(
                    Annotation::new(offsets[last], offsets[m], AnnotationType::Plain),
                );
            }
            annotated_string.add_annotation(
                Annotation::new(offsets[m], offsets[m + qlen], AnnotationType::Highlight),
            );
            proof {
                let gap = if last < m {
                    seq![annotation(byte_at(vis, last as int), byte_at(vis, m as int), AnnotationType::Plain)]
                } else {
                    seq![]
                };
                assert(annotated_string.annotations_spec() =~= before + gap + seq![
                    annotation(byte_at(vis, m as int), byte_at(vis, m + qlen), AnnotationType::Highlight),
                ]);
                assert(highlight_plan(vis, qlen as int, rest, last as int) == gap + seq![
                    annotation(byte_at(vis, m as int), byte_at(vis, m + qlen), AnnotationType::Highlight),
                ] + highlight_plan(vis, qlen as int, rest.drop_first(), m + qlen));
                assert(after_match(query@, m as int) == m + qlen);
            }
            last = m + qlen;
            i += 1;
        }
        proof {
            assert(ms.skip(i as int) =~= Seq::<int>::empty());
            encode_utf8_valid(vis);
            lemma_prefix_is_boundary(vis, last as int);
            lemma_prefix_is_boundary(vis, n as int);
            lemma_byte_len_prefix(vis, last as int, n as int);
            assert(vis.take(n as int) =~= vis);
        }
        let ghost before = annotated_string.annotations_spec();
        if last < n {
            annotated_string.add_annotation(
                Annotation::new(offsets[last], offsets[n], AnnotationType::Plain),
            );
        }
        proof {
            assert(annotated_string.annotations_spec() =~= before + highlight_plan(
                vis,
                qlen as int,
                ms.skip(i as int),
                last as int,
            ));
            lemma_annotations_cover(vis, query@);
        }
        annotated_string
    }

    /// The raw text of the line.
    pub fn as_str(&self) -> (r: &str)
        ensures
            r@ == self.text(),
    {
        self.string.as_str()
    }

    /// The raw text of the line, as an owned string.
    pub fn to_string(&self) -> (r: String)
        ensures
            r@ == self.text(),
    {
        self.string.clone()
    }

}

impl Default for Line {
    /// An empty line.
    fn default() -> (r: Line)
        ensures
            r.wf(),
            r.text() == Seq::<char>::empty(),
    {
        proof {
            reveal_strlit("");
        }
        Self::from("")
    }
}

/// Columns that piece `i` takes in the clipped output: one for an
/// ellipsis, the grapheme's own columns when it is wholly visible.
pub open spec fn piece_columns(gs: Seq<Seq<char>>, i: int, start: int, end: int) -> int {
    if col_end(gs, i) <= start || col_start(gs, i) >= end {
        0
    } else if col_start(gs, i) < start || col_end(gs, i) > end {
        1
    } else {
        col_end(gs, i) - col_start(gs, i)
    }
}

/// First output column of piece `i`: an ellipsis at the left edge stands
/// at `start`, every other piece where its grapheme starts.
pub open spec fn piece_column(gs: Seq<Seq<char>>, i: int, start: int) -> int {
    if col_start(gs, i) < start {
        start
    } else {
        col_start(gs, i)
    }
}

/// Columns taken by the first `n` pieces of the clipped output.
pub open spec fn clipped_columns(gs: Seq<Seq<char>>, n: int, start: int, end: int) -> int
    decreases n,
{
    if n <= 0 {
        0
    } else {
        clipped_columns(gs, n - 1, start, end) + piece_columns(gs, n - 1, start, end)
    }
}

/// `x` moved into `[start, end]` and measured from `start`.
pub open spec fn offset_in(x: int, start: int, end: int) -> int {
    if x < start {
        0
    } else if x > end {
        end - start
    } else {
        x - start
    }
}

proof fn lemma_col_end_is_next_start(gs: Seq<Seq<char>>, i: int)
    requires
        0 <= i,
    ensures
        col_end(gs, i) == col_start(gs, i + 1),
        col_start(gs, i) <= col_end(gs, i),
{
    lemma_columns_nonneg(gs, i);
}

proof fn lemma_clipped_columns_bound(gs: Seq<Seq<char>>, n: int, start: int, end: int)
    requires
        0 <= n,
        start < end,
    ensures
        clipped_columns(gs, n, start, end) <= offset_in(col_start(gs, n), start, end),
    decreases n,
{
    if n > 0 {
        lemma_clipped_columns_bound(gs, n - 1, start, end);
        lemma_col_end_is_next_start(gs, n - 1);
    }
}

/// Splitting a line at any index and appending the cut-off part back
/// gives back the text it had.
pub proof fn lemma_split_then_append(line: &Line, at: int)
    requires
        line.wf(),
    ensures
        split_left(line.text(), line.graphemes(), at) + split_right(line.graphemes(), at)
            == line.text(),
{
    line.lemma_wf();
    if 0 <= at < line.count() {
        lemma_take_skip_flatten(line.graphemes(), at);
    } else {
        assert(line.text() + Seq::<char>::empty() =~= line.text());
    }
}

/// Inserting a character and then deleting the grapheme at the same index
/// restores the text and the grapheme count, whenever the inserted
/// character forms a grapheme of its own there and leaves the graphemes
/// before it as they were.
pub proof fn lemma_insert_then_delete(before: &Line, after: &Line, at: int, c: char)
    requires
        before.wf(),
        after.wf(),
        0 <= at <= before.count(),
        c != ZERO_WIDTH_JOINER,
        after.text() == inserted(before.text(), before.graphemes(), at, c),
        at < after.count(),
        after.graphemes()[at] == seq![c],
        after.prefix(at) == before.prefix(at),
    ensures
        deleted(after.text(), after.graphemes(), at) == before.text(),
        grapheme_clusters(deleted(after.text(), after.graphemes(), at)).len() == before.count(),
{
    before.lemma_wf();
    after.lemma_wf();
    let gs = after.graphemes();
    lemma_take_skip_flatten(before.graphemes(), at);
    lemma_take_skip_flatten(gs, at);
    assert(gs.skip(at).flatten() == gs.skip(at)[0] + gs.skip(at).drop_first().flatten());
    assert(gs.skip(at).drop_first() =~= gs.skip(at + 1));
    let p = before.prefix(at);
    let rest = gs.skip(at + 1).flatten();
    let tail = before.suffix(at);
    assert(after.text() == p + seq![c] + rest);
    assert(after.text() == p + seq![c] + tail);
    assert(rest =~= (p + seq![c] + rest).subrange(p.len() as int + 1, after.text().len() as int));
    assert(tail =~= (p + seq![c] + tail).subrange(p.len() as int + 1, after.text().len() as int));
}

/// The clipped output of `[start, end)` never takes more than `end - start`
/// columns, and each of its pieces lies wholly inside the range, so
/// clipping it again to the same range keeps it as it is.
pub proof fn lemma_clip_within_range(line: &Line, start: int, end: int)
    requires
        line.wf(),
        start < end,
    ensures
        clipped_columns(line.graphemes(), line.count() as int, start, end) <= end - start,
        forall|i: int|
            0 <= i < line.count() && piece_columns(line.graphemes(), i, start, end) > 0 ==> start
                <= #[trigger] piece_column(line.graphemes(), i, start) && piece_column(
                line.graphemes(),
                i,
                start,
            ) + piece_columns(line.graphemes(), i, start, end) <= end,
{
    let gs = line.graphemes();
    lemma_clipped_columns_bound(gs, line.count() as int, start, end);
    assert forall|i: int|
        0 <= i < line.count() && piece_columns(gs, i, start, end) > 0 implies start
            <= #[trigger] piece_column(gs, i, start) && piece_column(gs, i, start) + piece_columns(
            gs,
            i,
            start,
            end,
        ) <= end by {
        lemma_col_end_is_next_start(gs, i);
    }
}

/// A full-width grapheme of which only one column falls inside the range
/// shows as a single ellipsis.
pub proof fn lemma_straddling_full_width(line: &Line, i: int, start: int, end: int)
    requires
        line.wf(),
        0 <= i < line.count(),
        start < end,
        width_class(line.graphemes()[i]) == GraphemeWidth::Full,
        col_end(line.graphemes(), i) == col_start(line.graphemes(), i) + 2,
        ({
            let c = col_start(line.graphemes(), i);
            (c < start && start <= c + 1 && c + 1 < end) || (start <= c && c < end && end <= c + 1)
        }),
    ensures
        clipped_piece(line.graphemes(), i, start, end) == seq!['⋯'],
{
}

proof fn lemma_tiles_concat(a: Seq<Annotation>, b: Seq<Annotation>, lo: int, mid: int, hi: int)
    requires
        tiles(a, lo, mid),
        tiles(b, mid, hi),
    ensures
        tiles(a + b, lo, hi),
    decreases a.len(),
{
    if a.len() > 0 {
        lemma_tiles_concat(a.drop_first(), b, a[0].end_byte_idx as int, mid, hi);
        assert((a + b).drop_first() =~= a.drop_first() + b);
    } else {
        assert(a + b =~= b);
    }
}

proof fn lemma_plan_tiles(text: Seq<char>, q: Seq<char>, last: int)
    requires
        q.len() > 0,
        0 <= last <= text.len(),
        byte_len(text) <= usize::MAX,
    ensures
        tiles(
            highlight_plan(text, q.len() as int, match_positions(text, q, last), last),
            byte_at(text, last),
            byte_at(text, text.len() as int),
        ),
    decreases text.len() + 1 - last,
{
    reveal_with_fuel(tiles, 2);
    let ms = match_positions(text, q, last);
    let n = text.len() as int;
    assert(text.take(n) =~= text);
    lemma_byte_len_prefix(text, last, n);
    if ms.len() == 0 {
        if last < n {
            let a = annotation(byte_at(text, last), byte_at(text, n), AnnotationType::Plain);
            assert(seq![a].drop_first() =~= Seq::<Annotation>::empty());
        }
    } else {
        lemma_match_positions_head(text, q, last);
        let m = ms[0];
        let e = m + q.len();
        lemma_byte_len_prefix(text, last, m);
        lemma_byte_len_prefix(text, m, e);
        lemma_byte_len_prefix(text, e, n);
        let gap = if last < m {
            seq![annotation(byte_at(text, last), byte_at(text, m), AnnotationType::Plain)]
        } else {
            seq![]
        };
        let hl = seq![annotation(byte_at(text, m), byte_at(text, e), AnnotationType::Highlight)];
        let rest = highlight_plan(text, q.len() as int, ms.drop_first(), e);
        if last < m {
            assert(gap.drop_first() =~= Seq::<Annotation>::empty());
        }
        assert(tiles(gap, byte_at(text, last), byte_at(text, m)));
        assert(hl.drop_first() =~= Seq::<Annotation>::empty());
        assert(tiles(hl, byte_at(text, m), byte_at(text, e)));
        lemma_plan_tiles(text, q, e);
        assert(after_match(q, m) == e);
        lemma_tiles_concat(hl, rest, byte_at(text, m), byte_at(text, e), byte_at(text, n));
        lemma_tiles_concat(gap, hl + rest, byte_at(text, last), byte_at(text, m), byte_at(text, n));
        assert(highlight_plan(text, q.len() as int, ms, last) == gap + hl + rest);
        assert(gap + hl + rest =~= gap + (hl + rest));
    }
}

/// The annotations built for a shown text lie end to end, each non-empty,
/// from its first byte to its last: every byte is covered exactly once.
pub proof fn lemma_annotations_cover(text: Seq<char>, q: Seq<char>)
    requires
        byte_len(text) <= usize::MAX,
    ensures
        tiles(
            highlight_plan(text, q.len() as int, highlighted_matches(text, q), 0),
            0,
            byte_len(text) as int,
        ),
{
    assert(text.take(0) =~= Seq::<char>::empty());
    assert(byte_len(Seq::<char>::empty()) == 0) by {
        assert(vstd::utf8::encode_utf8(Seq::<char>::empty()) =~= Seq::<u8>::empty());
    }
    assert(text.take(text.len() as int) =~= text);
    reveal_with_fuel(tiles, 2);
    if q.len() > 0 {
        lemma_plan_tiles(text, q, 0);
    } else {
        let n = text.len() as int;
        lemma_byte_len_prefix(text, 0, n);
        if n > 0 {
            let a = annotation(byte_at(text, 0), byte_at(text, n), AnnotationType::Plain);
            assert(seq![a].drop_first() =~= Seq::<Annotation>::empty());
        }
    }
}

} // verus!
