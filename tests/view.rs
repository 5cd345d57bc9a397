use hecto::editorcommand::{Direction, EditorCommand, InsertionCommand};
use hecto::geometry::{Location, Position, Size};
use hecto::view::buffer::Buffer;
use hecto::view::{RenderedRow, View};

fn view_with(text: &str, width: usize, height: usize) -> View {
    let mut view = View::default();
    view.load(text);
    view.resize(Size { width, height });
    view
}

fn row_texts(rows: &[RenderedRow]) -> Vec<String> {
    rows.iter().map(|r| r.text()).collect()
}

#[test]
fn empty_buffer_renders_welcome_banner() {
    let mut view = View::default();
    view.resize(Size { width: 80, height: 24 });
    let rows = row_texts(&view.render());
    assert_eq!(rows.len(), 24);
    let expected = format!("~{}hecto editor -- version 0.1.0", " ".repeat(25));
    for (index, row) in rows.iter().enumerate() {
        if index == 8 {
            assert_eq!(row, &expected);
        } else {
            assert_eq!(row, "~");
        }
    }
    assert!(!view.needs_redraw());
    assert!(view.render().is_empty());
}

#[test]
fn narrow_welcome_banner_is_cut() {
    let mut view = View::default();
    view.resize(Size { width: 10, height: 3 });
    let rows = row_texts(&view.render());
    assert_eq!(rows[1], "~hecto edi");
}

#[test]
fn zero_size_renders_nothing() {
    let mut view = View::default();
    assert!(view.render().is_empty());
    assert!(view.needs_redraw());
}

#[test]
fn render_shows_lines_and_tildes() {
    let mut view = view_with("abc\nde", 2, 3);
    let rows = row_texts(&view.render());
    assert_eq!(rows, vec!["ab", "de", "~"]);
}

#[test]
fn right_at_end_of_line_wraps_to_next_line() {
    let mut view = view_with("abc\nde", 80, 24);
    view.move_text_location(&Direction::End);
    assert_eq!(view.location(), Location { line_index: 0, grapheme_index: 3 });
    view.move_text_location(&Direction::Right);
    assert_eq!(view.location(), Location { line_index: 1, grapheme_index: 0 });
}

#[test]
fn left_at_document_start_stays() {
    let mut view = view_with("ab", 80, 24);
    view.move_text_location(&Direction::Left);
    assert_eq!(view.location(), Location { line_index: 0, grapheme_index: 0 });
}

#[test]
fn left_at_line_start_goes_to_previous_line_end() {
    let mut view = view_with("abc\nde", 80, 24);
    view.move_text_location(&Direction::Down);
    view.move_text_location(&Direction::Left);
    assert_eq!(view.location(), Location { line_index: 0, grapheme_index: 3 });
}

#[test]
fn vertical_moves_clamp() {
    let mut view = view_with("abc\nd", 80, 24);
    view.move_text_location(&Direction::End);
    view.move_text_location(&Direction::Down);
    assert_eq!(view.location(), Location { line_index: 1, grapheme_index: 1 });
    view.move_text_location(&Direction::Down);
    view.move_text_location(&Direction::Down);
    assert_eq!(view.location(), Location { line_index: 2, grapheme_index: 0 });
    view.move_text_location(&Direction::PageUp);
    assert_eq!(view.location(), Location { line_index: 0, grapheme_index: 0 });
    view.move_text_location(&Direction::PageDown);
    assert_eq!(view.location(), Location { line_index: 2, grapheme_index: 0 });
    view.move_text_location(&Direction::Up);
    view.move_text_location(&Direction::Home);
    assert_eq!(view.location(), Location { line_index: 1, grapheme_index: 0 });
}

#[test]
fn scrolling_keeps_cursor_on_screen() {
    let mut view = view_with("a\nb\nc\nd\ne", 3, 2);
    for _ in 0..4 {
        view.move_text_location(&Direction::Down);
        let position = view.get_position();
        assert!(position.row < 2);
    }
    assert_eq!(view.scroll_offset(), Position { row: 3, col: 0 });
    assert_eq!(view.get_position(), Position { row: 1, col: 0 });
    view.move_text_location(&Direction::PageUp);
    assert_eq!(view.scroll_offset(), Position { row: 2, col: 0 });
}

#[test]
fn horizontal_scroll_follows_wide_text() {
    let mut view = view_with("ＡＢＣ", 3, 1);
    view.move_text_location(&Direction::End);
    assert_eq!(view.scroll_offset(), Position { row: 0, col: 4 });
    assert_eq!(view.get_position(), Position { row: 0, col: 2 });
    let rows = row_texts(&view.render());
    assert_eq!(rows, vec!["Ｃ"]);
}

#[test]
fn edits_move_the_cursor() {
    let mut view = view_with("ac", 80, 24);
    view.handle_command(EditorCommand::Move(Direction::Right));
    view.handle_edit_command(InsertionCommand::Insert('b'));
    assert_eq!(view.location(), Location { line_index: 0, grapheme_index: 2 });
    view.handle_edit_command(InsertionCommand::Enter);
    assert_eq!(view.location(), Location { line_index: 1, grapheme_index: 0 });
    let rows = row_texts(&view.render());
    assert_eq!(&rows[0..3], &["ab".to_string(), "c".to_string(), "~".to_string()]);
    view.handle_edit_command(InsertionCommand::Backspace);
    assert_eq!(view.location(), Location { line_index: 0, grapheme_index: 2 });
    view.handle_edit_command(InsertionCommand::Delete);
    let rows = row_texts(&view.render());
    assert_eq!(&rows[0..2], &["ab".to_string(), "~".to_string()]);
}

#[test]
fn typing_into_empty_buffer_starts_a_line() {
    let mut view = view_with("", 10, 3);
    view.handle_edit_command(InsertionCommand::Insert('x'));
    assert_eq!(view.location(), Location { line_index: 0, grapheme_index: 1 });
    let rows = row_texts(&view.render());
    assert_eq!(rows, vec!["x", "~", "~"]);
}

#[test]
fn search_query_highlights_rows() {
    let mut view = view_with("hello lo", 80, 1);
    view.set_search_query(Some("lo"));
    let rows = view.render();
    match &rows[0] {
        RenderedRow::Annotated(annotated) => {
            let pieces: Vec<String> =
                annotated.get_annotated_fragments().iter().map(|f| f.string.clone()).collect();
            assert_eq!(pieces, vec!["hel", "lo", " ", "lo"]);
        }
        RenderedRow::Text(_) => panic!("expected an annotated row"),
    }
}

#[test]
fn quit_changes_nothing() {
    let mut view = view_with("abc", 80, 24);
    view.move_text_location(&Direction::Right);
    view.handle_command(EditorCommand::Quit);
    assert_eq!(view.location(), Location { line_index: 0, grapheme_index: 1 });
}

#[test]
fn buffer_load_splits_lines() {
    let buffer = Buffer::load("a\r\nb\n\nc\n");
    assert_eq!(buffer.height(), 4);
    assert!(!buffer.is_empty());
    let empty = Buffer::load("");
    assert!(empty.is_empty());
}

#[test]
fn buffer_edits() {
    let mut buffer = Buffer::load("ab\ncd");
    buffer.delete(Location { line_index: 0, grapheme_index: 2 });
    assert_eq!(buffer.height(), 1);
    assert_eq!(buffer.get_line(0).unwrap().grapheme_count(), 4);
    buffer.insert_newline(Location { line_index: 0, grapheme_index: 1 });
    assert_eq!(buffer.height(), 2);
    assert_eq!(buffer.get_line(1).unwrap().get_visible_graphemes(0..10), "bcd");
    buffer.insert_char('z', Location { line_index: 2, grapheme_index: 0 });
    assert_eq!(buffer.height(), 3);
    buffer.insert_char('q', Location { line_index: 9, grapheme_index: 0 });
    assert_eq!(buffer.height(), 3);
    buffer.delete(Location { line_index: 2, grapheme_index: 5 });
    assert_eq!(buffer.height(), 3);
}
