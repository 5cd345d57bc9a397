use hecto::command::{Command, Edit, Move, System};
use hecto::editor::{Editor, EditorAction};
use hecto::geometry::{Position, Size};
use hecto::view::RenderedRow;

fn editor_with(text: &str) -> Editor {
    let mut editor = Editor::new(Size { width: 40, height: 10 });
    editor.load("notes.txt", Some(text));
    editor
}

#[test]
fn quit_without_changes_is_immediate() {
    let mut editor = editor_with("abc");
    let action = editor.process_command(Command::System(System::Quit));
    assert_eq!(action, EditorAction::Nothing);
    assert!(editor.should_quit());
}

#[test]
fn quit_with_changes_needs_three_presses() {
    let mut editor = editor_with("abc");
    editor.process_command(Command::Edit(Edit::Insert('x')));
    editor.process_command(Command::System(System::Quit));
    assert!(!editor.should_quit());
    let frame = editor.refresh_screen().unwrap();
    assert_eq!(
        frame.bottom.text,
        "WARNING! File has unsaved changes. Press Ctrl-Q 2 more times to quit."
    );
    editor.process_command(Command::System(System::Quit));
    assert!(!editor.should_quit());
    editor.process_command(Command::System(System::Quit));
    assert!(editor.should_quit());
}

#[test]
fn other_commands_reset_the_quit_count() {
    let mut editor = editor_with("abc");
    editor.process_command(Command::Edit(Edit::Insert('x')));
    editor.process_command(Command::System(System::Quit));
    editor.process_command(Command::System(System::Quit));
    editor.process_command(Command::Move(Move::Left));
    editor.process_command(Command::System(System::Quit));
    assert!(!editor.should_quit());
}

#[test]
fn save_of_a_named_document_asks_for_a_write() {
    let mut editor = editor_with("abc");
    editor.process_command(Command::Edit(Edit::Insert('x')));
    let action = editor.process_command(Command::System(System::Save));
    assert_eq!(action, EditorAction::Save("notes.txt".to_string()));
    assert_eq!(editor.document_text(), "xabc\n");
    editor.finish_save("notes.txt", true);
    let frame = editor.refresh_screen().unwrap();
    assert_eq!(frame.bottom.text, "File saved successfully.");
    editor.process_command(Command::System(System::Quit));
    assert!(editor.should_quit());
}

#[test]
fn save_of_a_new_document_prompts_for_a_name() {
    let mut editor = Editor::new(Size { width: 40, height: 10 });
    let action = editor.process_command(Command::System(System::Save));
    assert_eq!(action, EditorAction::Nothing);
    for character in "new.txt".chars() {
        editor.process_command(Command::Edit(Edit::Insert(character)));
    }
    let frame = editor.refresh_screen().unwrap();
    assert_eq!(frame.bottom.text, "Save as:  new.txt");
    assert_eq!(frame.caret, Position { row: 9, col: 17 });
    let action = editor.process_command(Command::Edit(Edit::InsertNewLine));
    assert_eq!(action, EditorAction::Save("new.txt".to_string()));
    editor.finish_save("new.txt", false);
    let frame = editor.refresh_screen().unwrap();
    assert_eq!(frame.bottom.text, "Error writing file!");
}

#[test]
fn dismissing_a_search_reports_it() {
    let mut editor = editor_with("hello");
    editor.process_command(Command::System(System::Find));
    editor.process_command(Command::Edit(Edit::Insert('l')));
    editor.process_command(Command::System(System::Dismiss));
    let frame = editor.refresh_screen().unwrap();
    assert_eq!(frame.bottom.text, "Search aborted.");
}

#[test]
fn search_prompt_highlights_matches() {
    let mut editor = editor_with("hello");
    editor.process_command(Command::System(System::Find));
    editor.process_command(Command::Edit(Edit::Insert('l')));
    editor.process_command(Command::Edit(Edit::Insert('l')));
    let frame = editor.refresh_screen().unwrap();
    match &frame.view_rows[0] {
        RenderedRow::Annotated(annotated) => {
            let pieces: Vec<String> =
                annotated.get_annotated_fragments().iter().map(|f| f.string.clone()).collect();
            assert_eq!(pieces, vec!["he", "ll", "o"]);
        }
        RenderedRow::Text(_) => panic!("expected a highlighted row"),
    }
}

#[test]
fn moves_are_ignored_while_prompting() {
    let mut editor = editor_with("abc");
    editor.process_command(Command::System(System::Find));
    editor.process_command(Command::Move(Move::Right));
    editor.process_command(Command::System(System::Dismiss));
    let frame = editor.refresh_screen().unwrap();
    assert_eq!(frame.caret, Position { row: 0, col: 0 });
}

#[test]
fn load_failure_is_reported() {
    let mut editor = Editor::new(Size { width: 40, height: 10 });
    editor.load("missing.txt", None);
    let frame = editor.refresh_screen().unwrap();
    assert_eq!(frame.bottom.text, "ERR: Could not open file: missing.txt");
}

#[test]
fn status_line_and_title() {
    let mut editor = editor_with("a\nb");
    assert_eq!(editor.refresh_status(), Some("notes.txt - hecto".to_string()));
    assert_eq!(editor.refresh_status(), None);
    let frame = editor.refresh_screen().unwrap();
    let (row, text) = frame.status.unwrap();
    assert_eq!(row, 8);
    assert!(text.starts_with("notes.txt - 2 lines "));
    assert!(text.ends_with("0/2"));
}

#[test]
fn tiny_screen_draws_no_view() {
    let mut editor = Editor::new(Size { width: 40, height: 2 });
    let frame = editor.refresh_screen().unwrap();
    assert!(frame.view_rows.is_empty());
    let mut none = Editor::new(Size { width: 0, height: 0 });
    assert!(none.refresh_screen().is_none());
}
