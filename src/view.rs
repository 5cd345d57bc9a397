//! The viewport: a buffer, a cursor, a scroll offset and a size. It moves
//! the cursor, keeps it on screen and works out what each screen row shows.
use vstd::prelude::*;
use vstd::string::StringExecFns;
use vstd::view::View as _;

pub mod buffer;
pub mod line;
pub mod textfragment;

use crate::annotatedstring::AnnotatedString;
use crate::editorcommand::{Direction, EditorCommand, InsertionCommand};
use crate::geometry::{Location, Position, Size};
use crate::line::{col_start, highlight_plan, highlighted_matches, saturate, visible_text};
use crate::text::{chars_of, string_from_chars};
use crate::unicode::grapheme_clusters;
use buffer::{char_inserted_at, deleted_at, newline_inserted_at, Buffer};

verus! {

broadcast use vstd::seq::group_seq_axioms;

pub const NAME: &'static str = "hecto";

pub const VERSION: &'static str = "0.1.0";

pub open spec fn sat_sub(a: int, b: int) -> int {
    if a >= b {
        a - b
    } else {
        0
    }
}

/// Number of graphemes on line `y`, zero where there is no such line.
pub open spec fn line_len(texts: Seq<Seq<char>>, y: int) -> int {
    if 0 <= y < texts.len() {
        grapheme_clusters(texts[y]).len() as int
    } else {
        0
    }
}

/// The cursor after one move: horizontal moves wrap across line ends,
/// vertical ones go by one line or by a screen's height, and the result is
/// clamped into the document.
pub open spec fn moved(texts: Seq<Seq<char>>, loc: Location, dir: Direction, height: int) -> Location {
    let x = loc.grapheme_index as int;
    let y = loc.line_index as int;
    let (x1, y1) = match dir {
        Direction::Up => (x, sat_sub(y, 1)),
        Direction::Down => (x, saturate(y + 1)),
        Direction::Left => if x > 0 {
            (x - 1, y)
        } else if y > 0 {
            (line_len(texts, y - 1), y - 1)
        } else {
            (x, y)
        },
        Direction::Right => if x < line_len(texts, y) {
            (x + 1, y)
        } else {
            (0, saturate(y + 1))
        },
        Direction::PageUp => (x, sat_sub(y, height)),
        Direction::PageDown => (x, saturate(y + height)),
        Direction::Home => (0, y),
        Direction::End => (line_len(texts, y), y),
    };
    Location {
        grapheme_index: vstd::math::min(x1, line_len(texts, y1)) as usize,
        line_index: vstd::math::min(y1, texts.len() as int) as usize,
    }
}

/// Where the cursor is drawn in the whole document: its line, and the
/// columns taken by the graphemes before it.
pub open spec fn text_position(texts: Seq<Seq<char>>, loc: Location) -> Position {
    let y = loc.line_index as int;
    let col = if y < texts.len() {
        let gs = grapheme_clusters(texts[y]);
        col_start(gs, vstd::math::min(loc.grapheme_index as int, gs.len() as int))
    } else {
        0
    };
    Position { row: loc.line_index, col: col as usize }
}

/// One axis of the scroll offset after bringing `pos` into
/// `[offset, offset + extent)` with the least movement.
pub open spec fn scroll_axis(offset: int, pos: int, extent: int) -> int {
    if pos < offset {
        pos
    } else if pos >= saturate(offset + extent) {
        saturate(sat_sub(pos, extent) + 1)
    } else {
        offset
    }
}

pub open spec fn scrolled(offset: Position, pos: Position, size: Size) -> Position {
    Position {
        row: scroll_axis(offset.row as int, pos.row as int, size.height as int) as usize,
        col: scroll_axis(offset.col as int, pos.col as int, size.width as int) as usize,
    }
}

pub open spec fn welcome_message() -> Seq<char> {
    NAME@ + " editor -- version "@ + VERSION@
}

/// The banner row: a tilde, padding that centres the message, and the
/// message, cut to `width` characters.
pub open spec fn welcome_text(width: int) -> Seq<char> {
    if width == 0 {
        seq![' ']
    } else {
        let m = welcome_message();
        let pad = sat_sub(sat_sub(width, m.len() as int), 1) / 2;
        let full = seq!['~'] + Seq::new(pad as nat, |i: int| ' ') + m;
        full.take(vstd::math::min(width, full.len() as int))
    }
}

/// The document after an edit at cursor `loc`, on a view `height` rows
/// high.
pub open spec fn edited_texts(
    texts: Seq<Seq<char>>,
    loc: Location,
    height: int,
    e: InsertionCommand,
) -> Seq<Seq<char>> {
    match e {
        InsertionCommand::Insert(c) => char_inserted_at(texts, c, loc),
        InsertionCommand::Enter => newline_inserted_at(texts, loc),
        InsertionCommand::Delete => deleted_at(texts, loc),
        InsertionCommand::Backspace => if loc.line_index == 0 && loc.grapheme_index == 0 {
            texts
        } else {
            deleted_at(texts, moved(texts, loc, Direction::Left, height))
        },
    }
}

/// What a screen row shows.
pub enum RenderedRow {
    Text(String),
    Annotated(AnnotatedString),
}

impl RenderedRow {
    /// The characters of the row.
    pub open spec fn chars(&self) -> Seq<char> {
        match self {
            RenderedRow::Text(s) => s@,
            RenderedRow::Annotated(a) => a.text(),
        }
    }

    pub fn text(&self) -> (r: String)
        ensures
            r@ == self.chars(),
    {
        match self {
            RenderedRow::Text(s) => s.clone(),
            RenderedRow::Annotated(a) => a.get_display_string().to_owned(),
        }
    }
}

/// Row `k` of the screen, as the view's state determines it.
pub open spec fn row_is(
    row: RenderedRow,
    texts: Seq<Seq<char>>,
    offset: Position,
    size: Size,
    query: Option<Seq<char>>,
    k: int,
) -> bool {
    let y = saturate(k + offset.row);
    let start = offset.col as int;
    let end = saturate(offset.col + size.width);
    if y < texts.len() {
        let shown = visible_text(grapheme_clusters(texts[y]), start, end);
        match query {
            None => row is Text && row.chars() == shown,
            Some(q) => match row {
                RenderedRow::Annotated(a) => a.wf() && a.text() == shown && a.annotations_spec()
                    == highlight_plan(shown, q.len() as int, highlighted_matches(shown, q), 0),
                RenderedRow::Text(_) => false,
            },
        }
    } else if k == size.height / 3 && texts.len() == 0 {
        row is Text && row.chars() == welcome_text(size.width as int)
    } else {
        row is Text && row.chars() == seq!['~']
    }
}

pub struct View {
    buffer: Buffer,
    needs_redraw: bool,
    size: Size,
    location: Location,
    scroll_offset: Position,
    search_query: Option<String>,
}

impl View {
    pub closed spec fn texts(&self) -> Seq<Seq<char>> {
        self.buffer.texts()
    }

    pub closed spec fn wf(&self) -> bool {
        self.buffer.wf()
    }

    pub closed spec fn dirty(&self) -> bool {
        self.needs_redraw
    }

    pub closed spec fn size_spec(&self) -> Size {
        self.size
    }

    pub closed spec fn location_spec(&self) -> Location {
        self.location
    }

    pub closed spec fn offset_spec(&self) -> Position {
        self.scroll_offset
    }

    pub closed spec fn query_spec(&self) -> Option<Seq<char>> {
        match self.search_query {
            Some(q) => Some(q@),
            None => None,
        }
    }

    /// Puts `text` in the view in place of what it held.
    pub fn load(&mut self, text: &str)
        requires
            old(self).wf(),
        ensures
            final(self).wf(),
            final(self).texts() == buffer::lines_of(text@),
            final(self).dirty(),
            final(self).size_spec() == old(self).size_spec(),
            final(self).location_spec() == old(self).location_spec(),
            final(self).offset_spec() == old(self).offset_spec(),
            final(self).query_spec() == old(self).query_spec(),
    {
        self.buffer = Buffer::load(text);
        self.needs_redraw = true;
    }

    /// The cursor.
    pub fn location(&self) -> (r: Location)
        ensures
            r == self.location_spec(),
    {
        self.location
    }

    pub fn needs_redraw(&self) -> (r: bool)
        ensures
            r == self.dirty(),
    {
        self.needs_redraw
    }

    pub fn scroll_offset(&self) -> (r: Position)
        ensures
            r == self.offset_spec(),
    {
        self.scroll_offset
    }

    /// Where the cursor is in the whole document, in rendered cells.
    fn text_location_to_position(&self) -> (r: Position)
        requires
            self.wf(),
        ensures
            r == text_position(self.texts(), self.location_spec()),
    {
        let y = self.location.line_index;
        let col = match self.buffer.get_line(y) {
            Some(line) => line.width_until(self.location.grapheme_index),
            None => 0,
        };
        Position { row: y, col }
    }

    /// Where the cursor is on the screen.
    pub fn get_position(&self) -> (r: Position)
        requires
            self.wf(),
        ensures
            r == text_position(self.texts(), self.location_spec()).saturating_sub_spec(
                self.offset_spec(),
            ),
    {
        self.text_location_to_position().saturating_sub(&self.scroll_offset)
    }

    /// Moves the scroll offset by as little as brings the cursor on screen;
    /// marks the view for redrawing where it moved.
    fn scroll_location_into_view(&mut self)
        requires
            old(self).wf(),
        ensures
            final(self).wf(),
            final(self).texts() == old(self).texts(),
            final(self).offset_spec() == scrolled(
                old(self).offset_spec(),
                text_position(old(self).texts(), old(self).location_spec()),
                old(self).size_spec(),
            ),
            final(self).dirty() == (old(self).dirty() || final(self).offset_spec()
                != old(self).offset_spec()),
            final(self).size_spec() == old(self).size_spec(),
            final(self).location_spec() == old(self).location_spec(),
            final(self).query_spec() == old(self).query_spec(),
    {
        let position = self.text_location_to_position();
        let Size { width, height } = self.size;
        let previous = self.scroll_offset;
        if position.row < self.scroll_offset.row {
            self.scroll_offset.row = position.row;
        } else if position.row >= self.scroll_offset.row.saturating_add(height) {
            self.scroll_offset.row = position.row.saturating_sub(height).saturating_add(1);
        }
        if position.col < self.scroll_offset.col {
            self.scroll_offset.col = position.col;
        } else if position.col >= self.scroll_offset.col.saturating_add(width) {
            self.scroll_offset.col = position.col.saturating_sub(width).saturating_add(1);
        }
        if self.scroll_offset != previous {
            self.needs_redraw = true;
        }
    }

    /// Moves the cursor one step in `direction`, then scrolls it into view.
    pub fn move_text_location(&mut self, direction: &Direction)
        requires
            old(self).wf(),
        ensures
            final(self).wf(),
            final(self).texts() == old(self).texts(),
            final(self).location_spec() == moved(
                old(self).texts(),
                old(self).location_spec(),
                *direction,
                old(self).size_spec().height as int,
            ),
            final(self).offset_spec() == scrolled(
                old(self).offset_spec(),
                text_position(final(self).texts(), final(self).location_spec()),
                old(self).size_spec(),
            ),
            final(self).dirty() == (old(self).dirty() || final(self).offset_spec()
                != old(self).offset_spec()),
            final(self).size_spec() == old(self).size_spec(),
            final(self).query_spec() == old(self).query_spec(),
    {
        let Location { grapheme_index: mut x, line_index: mut y } = self.location;
        let height = self.size.height;
        match direction {
            Direction::Up => {
                y = y.saturating_sub(1);
            },
            Direction::Down => {
                y = y.saturating_add(1);
            },
            Direction::Left => {
                if x > 0 {
                    x -= 1;
                } else if y > 0 {
                    y -= 1;
                    x = self.line_length(y);
                }
            },
            Direction::Right => {
                if x < self.line_length(y) {
                    x += 1;
                } else {
                    y = y.saturating_add(1);
                    x = 0;
                }
            },
            Direction::PageUp => {
                y = y.saturating_sub(height);
            },
            Direction::PageDown => {
                y = y.saturating_add(height);
            },
            Direction::Home => {
                x = 0;
            },
            Direction::End => {
                x = self.line_length(y);
            },
        }
        let max_x = self.line_length(y);
        if x > max_x {
            x = max_x;
        }
        if y > self.buffer.height() {
            y = self.buffer.height();
        }
        self.location = Location { grapheme_index: x, line_index: y };
        self.scroll_location_into_view();
    }

    /// Number of graphemes on line `y`, zero where there is none.
    fn line_length(&self, y: usize) -> (r: usize)
        requires
            self.wf(),
        ensures
            r == line_len(self.texts(), y as int),
    {
        match self.buffer.get_line(y) {
            Some(line) => line.grapheme_count(),
            None => 0,
        }
    }

    /// Takes a new size, keeps the cursor on screen and marks the view for
    /// redrawing.
    pub fn resize(&mut self, to: Size)
        requires
            old(self).wf(),
        ensures
            final(self).wf(),
            final(self).texts() == old(self).texts(),
            final(self).size_spec() == to,
            final(self).location_spec() == old(self).location_spec(),
            final(self).offset_spec() == scrolled(
                old(self).offset_spec(),
                text_position(old(self).texts(), old(self).location_spec()),
                to,
            ),
            final(self).dirty(),
            final(self).query_spec() == old(self).query_spec(),
    {
        self.size = to;
        self.scroll_location_into_view();
        self.needs_redraw = true;
    }
    /// The banner row for an empty document.
    fn build_welcome_message(width: usize) -> (r: String)
        ensures
            r@ == welcome_text(width as int),
    {
        if width == 0 {
            proof {
                reveal_strlit(" ");
            }
            return " ".to_owned();
        }
        let mut message = NAME.to_owned();
        message.append(" editor -- version ");
        message.append(VERSION);
        let m = chars_of(message.as_str());
        let len = m.len();
        proof {
            reveal_strlit("hecto");
            reveal_strlit(" editor -- version ");
            reveal_strlit("0.1.0");
            assert(len < 100);
        }
        let padding = width.saturating_sub(len).saturating_sub(1) / 2;
        let ghost full = seq!['~'] + Seq::new(padding as nat, |i: int| ' ') + m@;
        let total = 1 + padding + len;
        let limit = if width < total {
            width
        } else {
            total
        };
        let mut chars: Vec<char> = Vec::new();
        let mut i: usize = 0;
        while i < limit
            invariant
                limit <= total,
                total == full.len(),
                total == 1 + padding + len,
                len == m@.len(),
                full == seq!['~'] + Seq::new(padding as nat, |i: int| ' ') + m@,
                i <= limit,
                chars@ == full.take(i as int),
            decreases limit - i,
        {
            let c = if i == 0 {
                '~'
            } else if i <= padding {
                ' '
            } else {
                m[i - 1 - padding]
            };
            proof {
                assert(full[i as int] == c);
                assert(full.take(i + 1) =~= full.take(i as int).push(c));
            }
            chars.push(c);
            i += 1;
        }
        string_from_chars(&chars, 0, limit)
    }

    /// The rows to draw, top to bottom; none when nothing changed since the
    /// last drawing or when the view has no area.
    pub fn render(&mut self) -> (r: Vec<RenderedRow>)
        requires
            old(self).wf(),
        ensures
            final(self).wf(),
            final(self).texts() == old(self).texts(),
            final(self).size_spec() == old(self).size_spec(),
            final(self).location_spec() == old(self).location_spec(),
            final(self).offset_spec() == old(self).offset_spec(),
            final(self).query_spec() == old(self).query_spec(),
            !old(self).dirty() || old(self).size_spec().width == 0 || old(self).size_spec().height
                == 0 ==> r@.len() == 0 && final(self).dirty() == old(self).dirty(),
            old(self).dirty() && old(self).size_spec().width > 0 && old(self).size_spec().height > 0
                ==> {
                &&& !final(self).dirty()
                &&& r@.len() == old(self).size_spec().height
                &&& forall|k: int|
                    0 <= k < r@.len() ==> row_is(
                        #[trigger] r@[k],
                        old(self).texts(),
                        old(self).offset_spec(),
                        old(self).size_spec(),
                        old(self).query_spec(),
                        k,
                    )
            },
    {
        let mut rows: Vec<RenderedRow> = Vec::new();
        if !self.needs_redraw {
            return rows;
        }
        let Size { width, height } = self.size;
        if height == 0 || width == 0 {
            return rows;
        }
        let vertical_center = height / 3;
        let top = self.scroll_offset.row;
        let left = self.scroll_offset.col;
        let right = left.saturating_add(width);
        let mut current_row: usize = 0;
        while current_row < height
            invariant
                self.wf(),
                self.size_spec().height == height,
                self.size_spec().width == width,
                width > 0,
                vertical_center == height / 3,
                top == self.offset_spec().row,
                left == self.offset_spec().col,
                right == saturate(left + width),
                current_row <= height,
                rows@.len() == current_row,
                forall|k: int|
                    0 <= k < current_row ==> row_is(
                        #[trigger] rows@[k],
                        self.texts(),
                        self.offset_spec(),
                        self.size_spec(),
                        self.query_spec(),
                        k,
                    ),
            decreases height - current_row,
        {
            let y = current_row.saturating_add(top);
            let row = match self.buffer.get_line(y) {
                Some(line) => match &self.search_query {
                    Some(query) => RenderedRow::Annotated(
                        line.get_annotated_visible_substr(left..right, query.as_str()),
                    ),
                    None => RenderedRow::Text(line.get_visible_graphemes(left..right)),
                },
                None => {
                    if current_row == vertical_center && self.buffer.is_empty() {
                        RenderedRow::Text(Self::build_welcome_message(width))
                    } else {
                        proof {
                            reveal_strlit("~");
                        }
                        RenderedRow::Text("~".to_owned())
                    }
                },
            };
            proof {
                if y >= self.texts().len() && !(current_row == vertical_center && self.texts().len() == 0) {
                    assert(row.chars() =~= seq!['~']);
                }
                assert(row_is(row, self.texts(), self.offset_spec(), self.size_spec(), self.query_spec(), current_row as int));
            }
            let ghost before = rows@;
            rows.push(row);
            proof {
                assert forall|k: int| 0 <= k < current_row + 1 implies row_is(
                    #[trigger] rows@[k],
                    self.texts(),
                    self.offset_spec(),
                    self.size_spec(),
                    self.query_spec(),
                    k,
                ) by {
                    if k < current_row {
                        assert(rows@[k] == before[k]);
                    }
                }
            }
            current_row += 1;
        }
        self.needs_redraw = false;
        rows
    }

    /// Sets the text whose matches get highlighted, or none.
    pub fn set_search_query(&mut self, query: Option<&str>)
        requires
            old(self).wf(),
        ensures
            final(self).wf(),
            final(self).texts() == old(self).texts(),
            final(self).size_spec() == old(self).size_spec(),
            final(self).location_spec() == old(self).location_spec(),
            final(self).offset_spec() == old(self).offset_spec(),
            final(self).dirty(),
            match query {
                Some(q) => final(self).query_spec() == Some(q@),
                None => final(self).query_spec() is None,
            },
    {
        self.search_query = match query {
            Some(q) => Some(q.to_owned()),
            None => None,
        };
        self.needs_redraw = true;
    }

    /// Applies an edit at the cursor and moves the cursor past it: after
    /// the typed character, to the start of the new line, or back over a
    /// deleted one.
    pub fn handle_edit_command(&mut self, command: InsertionCommand)
        requires
            old(self).wf(),
        ensures
            final(self).wf(),
            final(self).size_spec() == old(self).size_spec(),
            final(self).query_spec() == old(self).query_spec(),
            final(self).dirty(),
            final(self).texts() == edited_texts(
                old(self).texts(),
                old(self).location_spec(),
                old(self).size_spec().height as int,
                command,
            ),
            ({
                let texts = old(self).texts();
                let loc = old(self).location_spec();
                let h = old(self).size_spec().height as int;
                match command {
                    InsertionCommand::Insert(c) => {
                        &&& final(self).texts() == char_inserted_at(texts, c, loc)
                        &&& final(self).location_spec() == moved(
                            final(self).texts(),
                            loc,
                            Direction::Right,
                            h,
                        )
                    },
                    InsertionCommand::Enter => {
                        &&& final(self).texts() == newline_inserted_at(texts, loc)
                        &&& final(self).location_spec() == moved(
                            final(self).texts(),
                            loc,
                            Direction::Right,
                            h,
                        )
                    },
                    InsertionCommand::Delete => {
                        &&& final(self).texts() == deleted_at(texts, loc)
                        &&& final(self).location_spec() == loc
                    },
                    InsertionCommand::Backspace => if loc.line_index == 0 && loc.grapheme_index
                        == 0 {
                        final(self).texts() == texts && final(self).location_spec() == loc
                    } else {
                        let back = moved(texts, loc, Direction::Left, h);
                        &&& final(self).location_spec() == back
                        &&& final(self).texts() == deleted_at(texts, back)
                    },
                }
            }),
    {
        match command {
            InsertionCommand::Insert(character) => {
                self.buffer.insert_char(character, self.location);
                self.move_text_location(&Direction::Right);
            },
            InsertionCommand::Enter => {
                self.buffer.insert_newline(self.location);
                self.move_text_location(&Direction::Right);
            },
            InsertionCommand::Delete => {
                self.buffer.delete(self.location);
            },
            InsertionCommand::Backspace => {
                if self.location.line_index > 0 || self.location.grapheme_index > 0 {
                    self.move_text_location(&Direction::Left);
                    self.buffer.delete(self.location);
                }
            },
        }
        self.needs_redraw = true;
    }

    /// Applies one command to the view.
    pub fn handle_command(&mut self, command: EditorCommand)
        requires
            old(self).wf(),
        ensures
            final(self).wf(),
            command == EditorCommand::Quit ==> *final(self) == *old(self),
            (match command {
                EditorCommand::Move(d) => final(self).location_spec() == moved(
                    old(self).texts(),
                    old(self).location_spec(),
                    d,
                    old(self).size_spec().height as int,
                ) && final(self).texts() == old(self).texts(),
                EditorCommand::Edit(e) => {
                    &&& final(self).texts() == edited_texts(
                        old(self).texts(),
                        old(self).location_spec(),
                        old(self).size_spec().height as int,
                        e,
                    )
                    &&& final(self).dirty()
                },
                EditorCommand::Resize(size) => {
                    &&& final(self).size_spec() == size
                    &&& final(self).texts() == old(self).texts()
                    &&& final(self).dirty()
                },
                EditorCommand::Quit => true,
            }),
    {
        match command {
            EditorCommand::Resize(size) => self.resize(size),
            EditorCommand::Move(direction) => self.move_text_location(&direction),
            EditorCommand::Edit(edit) => self.handle_edit_command(edit),
            EditorCommand::Quit => {},
        }
    }

    /// Number of lines in the document.
    pub fn line_count(&self) -> (r: usize)
        ensures
            r == self.texts().len(),
    {
        self.buffer.height()
    }

    /// The whole document, each line followed by a line feed.
    pub fn text(&self) -> (r: String)
        requires
            self.wf(),
        ensures
            r@ == buffer::joined(self.texts()),
    {
        self.buffer.text()
    }

}

impl Position {
    pub open spec fn saturating_sub_spec(self, other: Position) -> Position {
        Position {
            row: sat_sub(self.row as int, other.row as int) as usize,
            col: sat_sub(self.col as int, other.col as int) as usize,
        }
    }
}

impl Default for View {
    fn default() -> (r: View)
        ensures
            r.wf(),
            r.texts() == Seq::<Seq<char>>::empty(),
            r.dirty(),
            r.size_spec() == (Size { width: 0, height: 0 }),
            r.location_spec() == (Location { line_index: 0, grapheme_index: 0 }),
            r.offset_spec() == (Position { col: 0, row: 0 }),
            r.query_spec() is None,
    {
        View {
            buffer: Buffer::default(),
            needs_redraw: true,
            size: Size { width: 0, height: 0 },
            location: Location { line_index: 0, grapheme_index: 0 },
            scroll_offset: Position { col: 0, row: 0 },
            search_query: None,
        }
    }
}

/// After scrolling, the cursor lies on screen on both axes, for any offset,
/// cursor and non-empty size.
pub proof fn lemma_scroll_keeps_cursor_visible(offset: Position, pos: Position, size: Size)
    requires
        size.width > 0,
        size.height > 0,
    ensures
        ({
            let o = scrolled(offset, pos, size);
            &&& o.row <= pos.row < o.row + size.height
            &&& o.col <= pos.col < o.col + size.width
        }),
{
}

} // verus!
