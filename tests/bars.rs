use hecto::annotatedstring::{AnnotatedString, Annotation, AnnotationType};
use hecto::buffer::Buffer;
use hecto::command::{Edit, Move};
use hecto::commandbar::{CommandBar, CommandPrompt, CommandType};
use hecto::documentstatus::DocumentStatus;
use hecto::geometry::{Position, Size};
use hecto::messagebar::MessageBar;
use hecto::statusbar::StatusBar;
use hecto::tooltipbar::TooltipBar;

#[test]
fn annotations_that_do_not_fit_are_ignored() {
    let mut annotated = AnnotatedString::new("äb");
    annotated.add_annotation(Annotation::new(1, 2, AnnotationType::Plain));
    annotated.add_annotation(Annotation::new(3, 2, AnnotationType::Plain));
    annotated.add_annotation(Annotation::new(3, 4, AnnotationType::Plain));
    annotated.add_annotation(Annotation::new(0, 2, AnnotationType::Highlight));
    let fragments = annotated.get_annotated_fragments();
    assert_eq!(fragments.len(), 1);
    assert_eq!(fragments[0].string, "ä");
    assert_eq!(annotated.get_display_string(), "äb");
}

#[test]
fn simple_buffer_rows() {
    let buffer = Buffer::from_rows(vec!["one".to_string()]);
    assert_eq!(buffer.get_row(0), Some("one"));
    assert_eq!(buffer.get_row(1), None);
    assert_eq!(Buffer::default().get_row(0), None);
}

#[test]
fn command_bar_editing() {
    let mut bar = CommandBar::new();
    bar.set_prompt("Search:");
    bar.set_command_type(CommandType::FileName);
    bar.handle_edit_command(Edit::Insert('a'));
    bar.handle_edit_command(Edit::Insert('b'));
    bar.handle_edit_command(Edit::Insert('c'));
    assert_eq!(bar.value(), "abc");
    assert_eq!(bar.caret_position(5), Position { row: 5, col: 11 });
    bar.handle_move_command(Move::Left);
    bar.handle_move_command(Move::Left);
    bar.handle_edit_command(Edit::Delete);
    assert_eq!(bar.value(), "ac");
    bar.handle_edit_command(Edit::DeleteBackward);
    assert_eq!(bar.value(), "a");
    assert_eq!(bar.caret_position_col(), 8);
    bar.handle_move_command(Move::Right);
    bar.handle_move_command(Move::Right);
    assert_eq!(bar.caret_position_col(), 9);
    assert_eq!(bar.display_text(), "Search: a");
    assert_eq!(bar.get_command_type(), CommandType::FileName);
}

#[test]
fn command_bar_update_marks_redraw() {
    let mut bar = CommandBar::new();
    assert!(!bar.needs_redraw());
    bar.update_command(CommandPrompt::new(""));
    assert!(!bar.needs_redraw());
    bar.update_command(CommandPrompt::new("Find: "));
    assert!(bar.needs_redraw());
    bar.set_needs_redraw(false);
    bar.resize(Size { width: 10, height: 1 });
    assert!(bar.needs_redraw());
}

#[test]
fn message_bar_updates() {
    let mut bar = MessageBar::default();
    bar.update_message(String::new());
    assert!(!bar.needs_redraw());
    bar.update_message("hello".to_string());
    assert!(bar.needs_redraw());
    assert_eq!(bar.current_message(), "hello");
}

#[test]
fn status_bar_text() {
    let mut bar = StatusBar::new(1, Size { width: 30, height: 10 });
    bar.update_status(DocumentStatus {
        total_lines: 12,
        current_line_index: 3,
        is_modified: true,
        file_name: Some("a.txt".to_string()),
    });
    let (row, text) = bar.render().unwrap();
    assert_eq!(row, 8);
    assert_eq!(text, "a.txt - 12 lines (modified)3/12");
    assert!(bar.render().is_none());
    bar.resize(Size { width: 30, height: 5 });
    let (row, text) = bar.render().unwrap();
    assert_eq!(row, 3);
    assert_eq!(text.len(), 31);
}

#[test]
fn status_bar_pads_to_the_right() {
    let mut bar = StatusBar::new(0, Size { width: 30, height: 2 });
    let (_, text) = bar.render().unwrap();
    assert_eq!(text, "New Document - 0 lines     0/0");
}

#[test]
fn tooltip_bar_visibility() {
    let mut bar = TooltipBar::new(true, 2, Size { width: 10, height: 5 });
    let row = bar.render().unwrap();
    assert_eq!(row.row, 2);
    assert!(row.inverted);
    bar.resize(Size { width: 10, height: 2 });
    assert!(bar.render().is_none());
    bar.flag_dirty();
    assert!(bar.render().is_none());
}
