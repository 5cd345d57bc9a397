//! The editor session: the view, the bars, the prompt and the decisions
//! that each command brings. The caller does the terminal and file work
//! that a decision asks for and reports back.
use vstd::prelude::*;
use vstd::string::StringExecFns;
use vstd::view::View as _;

use crate::command::{Command, Edit, Move, System};
use crate::commandbar::{CommandBar, CommandType};
use crate::documentstatus::DocumentStatus;
use crate::editorcommand::{Direction, InsertionCommand};
use crate::geometry::{Position, Size};
use crate::messagebar::MessageBar;
use crate::statusbar::StatusBar;
use crate::text::decimal;
use crate::view::{sat_sub, RenderedRow, View, NAME};

verus! {

/// How many Ctrl-Q presses quit with unsaved changes.
pub const QUIT_TIMES: u8 = 3;

/// Work that a command leaves for the caller.
#[derive(Clone, Debug, PartialEq, Eq)]
pub enum EditorAction {
    Nothing,
    /// Write the document to the named file, then report with
    /// `finish_save`.
    Save(String),
}

pub open spec fn move_direction(m: Move) -> Direction {
    match m {
        Move::PageUp => Direction::PageUp,
        Move::PageDown => Direction::PageDown,
        Move::Home => Direction::Home,
        Move::End => Direction::End,
        Move::Up => Direction::Up,
        Move::Left => Direction::Left,
        Move::Right => Direction::Right,
        Move::Down => Direction::Down,
    }
}

pub open spec fn edit_insertion(e: Edit) -> InsertionCommand {
    match e {
        Edit::Insert(c) => InsertionCommand::Insert(c),
        Edit::Delete => InsertionCommand::Delete,
        Edit::DeleteBackward => InsertionCommand::Backspace,
        Edit::InsertNewLine => InsertionCommand::Enter,
    }
}

fn direction_of(m: Move) -> (r: Direction)
    ensures
        r == move_direction(m),
{
    match m {
        Move::PageUp => Direction::PageUp,
        Move::PageDown => Direction::PageDown,
        Move::Home => Direction::Home,
        Move::End => Direction::End,
        Move::Up => Direction::Up,
        Move::Left => Direction::Left,
        Move::Right => Direction::Right,
        Move::Down => Direction::Down,
    }
}

fn insertion_of(e: Edit) -> (r: InsertionCommand)
    ensures
        r == edit_insertion(e),
{
    match e {
        Edit::Insert(c) => InsertionCommand::Insert(c),
        Edit::Delete => InsertionCommand::Delete,
        Edit::DeleteBackward => InsertionCommand::Backspace,
        Edit::InsertNewLine => InsertionCommand::Enter,
    }
}

/// The view's area on a screen of `size`: all but the two bottom rows.
pub open spec fn view_size(size: Size) -> Size {
    Size { width: size.width, height: sat_sub(size.height as int, 2) as usize }
}

/// Whether a Ctrl-Q press ends the session.
pub open spec fn quits(is_modified: bool, quit_times: u8) -> bool {
    !is_modified || quit_times + 1 == QUIT_TIMES
}

/// A bar row to draw at the bottom of the screen.
pub struct BottomBar {
    pub row: usize,
    pub text: String,
    pub inverted: bool,
}

/// What one screen refresh draws: the bottom line, the status line where
/// it changed, the view's rows where they changed, and the caret.
pub struct Frame {
    pub bottom: BottomBar,
    pub status: Option<(usize, String)>,
    pub view_rows: Vec<RenderedRow>,
    pub caret: Position,
}

pub struct Editor {
    view: View,
    status_bar: StatusBar,
    command_bar: Option<CommandBar>,
    message_bar: MessageBar,
    should_quit: bool,
    terminal_size: Size,
    title: String,
    quit_times: u8,
    file_name: Option<String>,
    is_modified: bool,
}

impl Editor {
    pub closed spec fn wf(&self) -> bool {
        self.view.wf()
    }

    pub closed spec fn view_spec(&self) -> View {
        self.view
    }

    pub closed spec fn prompt(&self) -> Option<CommandType> {
        match self.command_bar {
            Some(bar) => Some(bar.kind()),
            None => None,
        }
    }

    pub closed spec fn prompt_value(&self) -> Seq<char> {
        match self.command_bar {
            Some(bar) => bar.command_spec(),
            None => seq![],
        }
    }

    pub closed spec fn message(&self) -> Seq<char> {
        self.message_bar.message()
    }

    pub closed spec fn quitting(&self) -> bool {
        self.should_quit
    }

    pub closed spec fn quit_count(&self) -> u8 {
        self.quit_times
    }

    pub closed spec fn modified(&self) -> bool {
        self.is_modified
    }

    pub closed spec fn file(&self) -> Option<Seq<char>> {
        match self.file_name {
            Some(n) => Some(n@),
            None => None,
        }
    }

    pub closed spec fn screen(&self) -> Size {
        self.terminal_size
    }

    /// A session on a screen of `size`, with an empty document and the
    /// help message shown.
    pub fn new(size: Size) -> (r: Editor)
        ensures
            r.wf(),
            r.view_spec().texts() == Seq::<Seq<char>>::empty(),
            r.screen() == size,
            r.view_spec().size_spec() == view_size(size),
            r.prompt() is None,
            !r.quitting(),
            r.quit_count() == 0,
            !r.modified(),
            r.file() is None,
    {
        let mut editor = Editor {
            view: View::default(),
            status_bar: StatusBar::new(1, size),
            command_bar: None,
            message_bar: MessageBar::default(),
            should_quit: false,
            terminal_size: size,
            title: String::new(),
            quit_times: 0,
            file_name: None,
            is_modified: false,
        };
        editor.resize(size);
        editor.update_message("HELP: Ctrl-F = find | Ctrl-S = save | Ctrl-Q = quit");
        editor
    }

    /// Opens a document: `contents` is its text where the file could be
    /// read, none where it could not.
    pub fn load(&mut self, file_name: &str, contents: Option<&str>)
        requires
            old(self).wf(),
        ensures
            final(self).wf(),
            final(self).prompt() == old(self).prompt(),
            final(self).quitting() == old(self).quitting(),
            match contents {
                Some(text) => {
                    &&& final(self).view_spec().texts() == crate::view::buffer::lines_of(text@)
                    &&& final(self).file() == Some(file_name@)
                    &&& !final(self).modified()
                },
                None => {
                    &&& final(self).view_spec().texts() == old(self).view_spec().texts()
                    &&& final(self).file() == old(self).file()
                    &&& final(self).message() == "ERR: Could not open file: "@ + file_name@
                },
            },
    {
        match contents {
            Some(text) => {
                self.view.load(text);
                self.file_name = Some(file_name.to_owned());
                self.is_modified = false;
            },
            None => {
                let mut message = "ERR: Could not open file: ".to_owned();
                message.append(file_name);
                self.message_bar.update_message(message);
            },
        }
    }

    fn update_message(&mut self, message: &str)
        ensures
            final(self).message() == message@,
            final(self).view == old(self).view,
            final(self).command_bar == old(self).command_bar,
            final(self).should_quit == old(self).should_quit,
            final(self).quit_times == old(self).quit_times,
            final(self).terminal_size == old(self).terminal_size,
            final(self).is_modified == old(self).is_modified,
            final(self).file_name == old(self).file_name,
    {
        self.message_bar.update_message(message.to_owned());
    }

    /// Lays the screen out for `size`: the view above, the status bar and
    /// the message or prompt line below it.
    pub fn resize(&mut self, size: Size)
        requires
            old(self).wf(),
        ensures
            final(self).wf(),
            final(self).screen() == size,
            final(self).view_spec().size_spec() == view_size(size),
            final(self).view_spec().texts() == old(self).view_spec().texts(),
            final(self).view_spec().location_spec() == old(self).view_spec().location_spec(),
            final(self).prompt() == old(self).prompt(),
            final(self).prompt_value() == old(self).prompt_value(),
            final(self).message() == old(self).message(),
            final(self).quitting() == old(self).quitting(),
            final(self).quit_count() == old(self).quit_count(),
            final(self).modified() == old(self).modified(),
            final(self).file() == old(self).file(),
    {
        self.terminal_size = size;
        self.view.resize(Size { height: size.height.saturating_sub(2), width: size.width });
        self.message_bar.set_size(Size { height: 1, width: size.width });
        self.status_bar.resize(size);
        if let Some(command_bar) = &mut self.command_bar {
            command_bar.resize(Size { height: 1, width: size.width });
        }
    }

    /// What the status line reports now.
    fn get_status(&self) -> (r: DocumentStatus)
        requires
            self.wf(),
        ensures
            r.total_lines == self.view_spec().texts().len(),
            r.current_line_index == self.view_spec().location_spec().line_index,
            r.is_modified == self.modified(),
            crate::documentstatus::name_view(r.file_name) == self.file(),
    {
        DocumentStatus {
            total_lines: self.view.line_count(),
            current_line_index: self.view.location().line_index,
            is_modified: self.is_modified,
            file_name: self.file_name.clone(),
        }
    }

    /// Brings the status line up to date; returns the window title to set
    /// where it changed.
    pub fn refresh_status(&mut self) -> (r: Option<String>)
        requires
            old(self).wf(),
        ensures
            final(self).wf(),
            final(self).view_spec() == old(self).view_spec(),
            final(self).prompt() == old(self).prompt(),
            final(self).quitting() == old(self).quitting(),
            final(self).modified() == old(self).modified(),
            final(self).file() == old(self).file(),
            match r {
                Some(t) => t@ == window_title(old(self).file()),
                None => true,
            },
    {
        let status = self.get_status();
        let mut title = match &self.file_name {
            Some(name) => name.clone(),
            None => "New Document".to_owned(),
        };
        title.append(" - ");
        title.append(NAME);
        self.status_bar.update_status(status);
        if title != self.title {
            self.title = title.clone();
            Some(title)
        } else {
            None
        }
    }

    fn dismiss_prompt(&mut self)
        ensures
            final(self).command_bar is None,
            final(self).view == old(self).view,
            final(self).message() == old(self).message(),
            final(self).should_quit == old(self).should_quit,
            final(self).quit_times == old(self).quit_times,
            final(self).terminal_size == old(self).terminal_size,
            final(self).is_modified == old(self).is_modified,
            final(self).file_name == old(self).file_name,
    {
        self.command_bar = None;
        self.message_bar.mark_redraw(true);
    }

    fn show_prompt(&mut self, command_type: CommandType)
        ensures
            final(self).prompt() == Some(command_type),
            final(self).prompt_value() == Seq::<char>::empty(),
            final(self).view == old(self).view,
            final(self).message() == old(self).message(),
            final(self).should_quit == old(self).should_quit,
            final(self).quit_times == old(self).quit_times,
            final(self).terminal_size == old(self).terminal_size,
            final(self).is_modified == old(self).is_modified,
            final(self).file_name == old(self).file_name,
    {
        let mut command_bar = CommandBar::new();
        command_bar.set_command_type(command_type);
        let prompt_string = match command_type {
            CommandType::SearchTerm => "Search: ",
            CommandType::FileName => "Save as: ",
        };
        command_bar.set_prompt(prompt_string);
        command_bar.resize(Size { height: 1, width: self.terminal_size.width });
        command_bar.set_needs_redraw(true);
        self.command_bar = Some(command_bar);
    }

    /// Counts a Ctrl-Q press: quits where nothing is unsaved or on the
    /// last of the presses asked for, and warns otherwise.
    fn handle_quit(&mut self)
        ensures
            final(self).should_quit == (old(self).should_quit || quits(
                old(self).is_modified,
                old(self).quit_times,
            )),
            final(self).quit_times == (if old(self).quit_times < 255 {
                old(self).quit_times + 1
            } else {
                255
            }),
            final(self).view == old(self).view,
            final(self).command_bar == old(self).command_bar,
            final(self).terminal_size == old(self).terminal_size,
            final(self).is_modified == old(self).is_modified,
            final(self).file_name == old(self).file_name,
    {
        if !self.is_modified || self.quit_times as u16 + 1 == QUIT_TIMES as u16 {
            self.should_quit = true;
        } else {
            let left: usize = if self.quit_times < QUIT_TIMES {
                (QUIT_TIMES - self.quit_times - 1) as usize
            } else {
                0
            };
            let mut message = "WARNING! File has unsaved changes. Press Ctrl-Q ".to_owned();
            let count = decimal(left);
            message.append(count.as_str());
            message.append(" more times to quit.");
            self.message_bar.update_message(message);
        }
        self.quit_times = self.quit_times.saturating_add(1);
    }

    fn reset_quit_times(&mut self)
        ensures
            final(self).quit_times == 0,
            old(self).quit_times > 0 ==> final(self).message() == Seq::<char>::empty(),
            old(self).quit_times == 0 ==> final(self).message() == old(self).message(),
            final(self).view == old(self).view,
            final(self).command_bar == old(self).command_bar,
            final(self).should_quit == old(self).should_quit,
            final(self).terminal_size == old(self).terminal_size,
            final(self).is_modified == old(self).is_modified,
            final(self).file_name == old(self).file_name,
    {
        if self.quit_times > 0 {
            self.quit_times = 0;
            self.message_bar.update_message(String::new());
        }
    }

    /// Starts a save: to the document's file where it has one, else by
    /// asking for a name.
    fn handle_save(&mut self) -> (r: EditorAction)
        ensures
            match old(self).file() {
                Some(n) => r is Save && r->0@ == n && final(self).command_bar == old(self).command_bar,
                None => r is Nothing && final(self).prompt() == Some(CommandType::FileName)
                    && final(self).prompt_value() == Seq::<char>::empty(),
            },
            final(self).view == old(self).view,
            final(self).message() == old(self).message(),
            final(self).should_quit == old(self).should_quit,
            final(self).quit_times == old(self).quit_times,
            final(self).terminal_size == old(self).terminal_size,
            final(self).is_modified == old(self).is_modified,
            final(self).file_name == old(self).file_name,
    {
        match &self.file_name {
            Some(name) => EditorAction::Save(name.clone()),
            None => {
                self.show_prompt(CommandType::FileName);
                EditorAction::Nothing
            },
        }
    }

    /// Opens the search prompt.
    fn handle_find(&mut self)
        ensures
            final(self).prompt() == Some(CommandType::SearchTerm),
            final(self).prompt_value() == Seq::<char>::empty(),
            final(self).view == old(self).view,
            final(self).message() == old(self).message(),
            final(self).should_quit == old(self).should_quit,
            final(self).quit_times == old(self).quit_times,
            final(self).terminal_size == old(self).terminal_size,
            final(self).is_modified == old(self).is_modified,
            final(self).file_name == old(self).file_name,
    {
        self.show_prompt(CommandType::SearchTerm);
    }

    /// Reports how a save asked for by `Save(file_name)` went.
    pub fn finish_save(&mut self, file_name: &str, succeeded: bool)
        requires
            old(self).wf(),
        ensures
            final(self).wf(),
            final(self).view_spec() == old(self).view_spec(),
            final(self).prompt() == old(self).prompt(),
            final(self).quitting() == old(self).quitting(),
            succeeded ==> {
                &&& final(self).file() == Some(file_name@)
                &&& !final(self).modified()
                &&& final(self).message() == "File saved successfully."@
            },
            !succeeded ==> {
                &&& final(self).file() == old(self).file()
                &&& final(self).modified() == old(self).modified()
                &&& final(self).message() == "Error writing file!"@
            },
    {
        if succeeded {
            self.file_name = Some(file_name.to_owned());
            self.is_modified = false;
            self.update_message("File saved successfully.");
        } else {
            self.update_message("Error writing file!");
        }
    }

    /// Applies one command and says what the caller has to do for it.
    pub fn process_command(&mut self, command: Command) -> (r: EditorAction)
        requires
            old(self).wf(),
        ensures
            final(self).wf(),
            process_outcome(*old(self), command, *final(self), r),
    {
        match command {
            Command::System(System::Quit) => {
                if self.command_bar.is_none() {
                    self.handle_quit();
                }
            },
            Command::System(System::Resize(size)) => self.resize(size),
            _ => self.reset_quit_times(),
        }
        match command {
            Command::System(System::Quit) | Command::System(System::Resize(_)) => EditorAction::Nothing,
            Command::System(System::Save) => {
                if self.command_bar.is_none() {
                    self.handle_save()
                } else {
                    EditorAction::Nothing
                }
            },
            Command::System(System::Find) => {
                if self.command_bar.is_none() {
                    self.handle_find();
                }
                EditorAction::Nothing
            },
            Command::System(System::Dismiss) => {
                if let Some(command_bar) = &self.command_bar {
                    let command_type = command_bar.get_command_type();
                    let message = match command_type {
                        CommandType::SearchTerm => "Search aborted.",
                        CommandType::FileName => "Save aborted.",
                    };
                    self.dismiss_prompt();
                    if command_type == CommandType::SearchTerm {
                        self.view.set_search_query(None);
                    }
                    self.update_message(message);
                }
                EditorAction::Nothing
            },
            Command::Edit(edit_command) => {
                if let Some(command_bar) = &mut self.command_bar {
                    let command_type = command_bar.get_command_type();
                    if edit_command == Edit::InsertNewLine {
                        let value = command_bar.value();
                        self.dismiss_prompt();
                        if command_type == CommandType::FileName {
                            EditorAction::Save(value)
                        } else {
                            EditorAction::Nothing
                        }
                    } else {
                        command_bar.handle_edit_command(edit_command);
                        if command_type == CommandType::SearchTerm {
                            let value = command_bar.value();
                            self.view.set_search_query(Some(value.as_str()));
                        }
                        EditorAction::Nothing
                    }
                } else {
                    self.view.handle_edit_command(insertion_of(edit_command));
                    self.is_modified = true;
                    EditorAction::Nothing
                }
            },
            Command::Move(move_command) => {
                if self.command_bar.is_none() {
                    self.view.move_text_location(&direction_of(move_command));
                }
                EditorAction::Nothing
            },
        }
    }

    /// The document as text, each line followed by a line feed.
    pub fn document_text(&self) -> (r: String)
        requires
            self.wf(),
        ensures
            r@ == crate::view::buffer::joined(self.view_spec().texts()),
    {
        self.view.text()
    }

    /// Whether the session has ended.
    pub fn should_quit(&self) -> (r: bool)
        ensures
            r == self.quitting(),
    {
        self.should_quit
    }

    /// What to draw now, top to bottom, and where the caret goes; none on a
    /// screen without area.
    pub fn refresh_screen(&mut self) -> (r: Option<Frame>)
        requires
            old(self).wf(),
        ensures
            final(self).wf(),
            final(self).view_spec().texts() == old(self).view_spec().texts(),
            final(self).view_spec().location_spec() == old(self).view_spec().location_spec(),
            final(self).prompt() == old(self).prompt(),
            final(self).quitting() == old(self).quitting(),
            old(self).screen().height == 0 || old(self).screen().width == 0 ==> r is None,
            old(self).screen().height > 0 && old(self).screen().width > 0 ==> match r {
                Some(frame) => {
                    &&& frame.bottom.row == old(self).screen().height - 1
                    &&& old(self).screen().height <= 1 ==> frame.status is None
                    &&& old(self).screen().height <= 2 ==> frame.view_rows@.len() == 0
                    &&& old(self).prompt() is None ==> frame.caret == text_caret(old(self).view_spec())
                },
                None => false,
            },
    {
        if self.terminal_size.height == 0 || self.terminal_size.width == 0 {
            return None;
        }
        let bottom_row_bar = self.terminal_size.height - 1;
        let bottom = match &self.command_bar {
            Some(command_bar) => BottomBar {
                row: bottom_row_bar,
                text: command_bar.display_text(),
                inverted: true,
            },
            None => BottomBar {
                row: bottom_row_bar,
                text: self.message_bar.current_message().to_owned(),
                inverted: false,
            },
        };
        let status = if self.terminal_size.height > 1 {
            self.status_bar.render()
        } else {
            None
        };
        let view_rows = if self.terminal_size.height > 2 {
            self.view.render()
        } else {
            Vec::new()
        };
        let caret = match &self.command_bar {
            Some(command_bar) => Position {
                row: bottom_row_bar,
                col: command_bar.caret_position_col(),
            },
            None => self.view.get_position(),
        };
        Some(Frame { bottom, status, view_rows, caret })
    }
}

/// The window title for a document.
pub open spec fn window_title(file: Option<Seq<char>>) -> Seq<char> {
    let name = match file {
        Some(n) => n,
        None => "New Document"@,
    };
    name + " - "@ + NAME@
}

/// Where the caret goes when no prompt is open.
pub open spec fn text_caret(view: View) -> Position {
    crate::view::text_position(view.texts(), view.location_spec()).saturating_sub_spec(
        view.offset_spec(),
    )
}

/// What `process_command` does, by command.
pub open spec fn process_outcome(before: Editor, command: Command, after: Editor, r: EditorAction) -> bool {
    let prompt_open = before.prompt() is Some;
    let v0 = before.view_spec();
    let v1 = after.view_spec();
    match command {
        Command::System(System::Quit) => {
            &&& r is Nothing
            &&& v1 == v0
            &&& after.prompt() == before.prompt()
            &&& prompt_open ==> after.quitting() == before.quitting() && after.quit_count()
                == before.quit_count()
            &&& !prompt_open ==> after.quitting() == (before.quitting() || quits(
                before.modified(),
                before.quit_count(),
            )) && after.quit_count() == (if before.quit_count() < 255 {
                before.quit_count() + 1
            } else {
                255
            })
        },
        Command::System(System::Resize(size)) => {
            &&& r is Nothing
            &&& after.screen() == size
            &&& v1.size_spec() == view_size(size)
            &&& v1.texts() == v0.texts()
            &&& after.prompt() == before.prompt()
            &&& after.quit_count() == before.quit_count()
        },
        Command::System(System::Save) => {
            &&& after.quit_count() == 0
            &&& v1 == v0
            &&& prompt_open ==> r is Nothing && after.prompt() == before.prompt()
            &&& !prompt_open ==> match before.file() {
                Some(n) => r is Save && r->0@ == n && after.prompt() is None,
                None => r is Nothing && after.prompt() == Some(CommandType::FileName),
            }
        },
        Command::System(System::Find) => {
            &&& r is Nothing
            &&& after.quit_count() == 0
            &&& v1 == v0
            &&& prompt_open ==> after.prompt() == before.prompt()
            &&& !prompt_open ==> after.prompt() == Some(CommandType::SearchTerm)
                && after.prompt_value() == Seq::<char>::empty()
        },
        Command::System(System::Dismiss) => {
            &&& r is Nothing
            &&& after.quit_count() == 0
            &&& after.prompt() is None
            &&& v1.texts() == v0.texts()
            &&& v1.location_spec() == v0.location_spec()
            &&& before.prompt() == Some(CommandType::SearchTerm) ==> v1.query_spec() is None
                && after.message() == "Search aborted."@
            &&& before.prompt() == Some(CommandType::FileName) ==> after.message()
                == "Save aborted."@
        },
        Command::Edit(e) => {
            &&& after.quit_count() == 0
            &&& match before.prompt() {
                None => {
                    &&& r is Nothing
                    &&& after.modified()
                    &&& after.prompt() is None
                    &&& v1.texts() == crate::view::edited_texts(v0.texts(), v0.location_spec(), v0.size_spec().height as int, edit_insertion(e))
                },
                Some(kind) => {
                    &&& v1.texts() == v0.texts()
                    &&& v1.location_spec() == v0.location_spec()
                    &&& after.modified() == before.modified()
                    &&& e == Edit::InsertNewLine ==> {
                        &&& after.prompt() is None
                        &&& kind == CommandType::FileName ==> r is Save && r->0@
                            == before.prompt_value()
                        &&& kind == CommandType::SearchTerm ==> r is Nothing
                    }
                    &&& e != Edit::InsertNewLine ==> {
                        &&& r is Nothing
                        &&& after.prompt() == before.prompt()
                        &&& kind == CommandType::SearchTerm ==> v1.query_spec() == Some(
                            after.prompt_value(),
                        )
                    }
                },
            }
        },
        Command::Move(m) => {
            &&& r is Nothing
            &&& after.quit_count() == 0
            &&& after.prompt() == before.prompt()
            &&& v1.texts() == v0.texts()
            &&& prompt_open ==> v1 == v0
            &&& !prompt_open ==> v1.location_spec() == crate::view::moved(
                v0.texts(),
                v0.location_spec(),
                move_direction(m),
                v0.size_spec().height as int,
            )
        },
    }
}

} // verus!
