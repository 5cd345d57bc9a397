//! The one-line prompt where the user types a search term or a file name.
use vstd::prelude::*;
use vstd::string::StringExecFns;

use crate::command::{Edit, Move};
use crate::geometry::{Position, Size};
use crate::line::saturate;
use crate::text::{byte_len, chars_of, string_from_chars, string_of_char};

verus! {

broadcast use vstd::seq::group_seq_axioms;

/// A prompt and what has been typed after it.
pub struct CommandPrompt {
    prompt: String,
    command: String,
}

impl PartialEq for CommandPrompt {
    fn eq(&self, other: &CommandPrompt) -> (r: bool) {
        self.prompt == other.prompt && self.command == other.command
    }
}

impl vstd::std_specs::cmp::PartialEqSpecImpl for CommandPrompt {
    open spec fn obeys_eq_spec() -> bool {
        true
    }

    open spec fn eq_spec(&self, other: &CommandPrompt) -> bool {
        self.prompt_spec() == other.prompt_spec() && self.command_spec() == other.command_spec()
    }
}

impl CommandPrompt {
    pub closed spec fn prompt_spec(&self) -> Seq<char> {
        self.prompt@
    }

    pub closed spec fn command_spec(&self) -> Seq<char> {
        self.command@
    }

    pub fn new(prompt: &str) -> (r: CommandPrompt)
        ensures
            r.prompt_spec() == prompt@,
            r.command_spec() == Seq::<char>::empty(),
    {
        CommandPrompt { prompt: prompt.to_owned(), command: String::new() }
    }

    pub fn with_command(prompt: &str, command: &str) -> (r: CommandPrompt)
        ensures
            r.prompt_spec() == prompt@,
            r.command_spec() == command@,
    {
        CommandPrompt { prompt: prompt.to_owned(), command: command.to_owned() }
    }
}

/// What the prompt asks for.
#[derive(Copy, Clone, Debug, PartialEq, Eq, Structural)]
pub enum CommandType {
    SearchTerm,
    FileName,
}

pub struct CommandBar {
    current_command: CommandPrompt,
    needs_redraw: bool,
    size: Size,
    cursor_offset: usize,
    command_type: CommandType,
}

impl CommandBar {
    pub closed spec fn prompt_spec(&self) -> Seq<char> {
        self.current_command.prompt@
    }

    pub closed spec fn command_spec(&self) -> Seq<char> {
        self.current_command.command@
    }

    pub closed spec fn dirty(&self) -> bool {
        self.needs_redraw
    }

    pub closed spec fn cursor(&self) -> usize {
        self.cursor_offset
    }

    pub closed spec fn size_spec(&self) -> Size {
        self.size
    }

    pub closed spec fn kind(&self) -> CommandType {
        self.command_type
    }

    /// An empty search prompt.
    pub fn new() -> (r: CommandBar)
        ensures
            r.prompt_spec() == Seq::<char>::empty(),
            r.command_spec() == Seq::<char>::empty(),
            !r.dirty(),
            r.cursor() == 0,
            r.size_spec() == (Size { width: 0, height: 0 }),
            r.kind() == CommandType::SearchTerm,
    {
        proof {
            reveal_strlit("");
        }
        CommandBar {
            current_command: CommandPrompt::new(""),
            needs_redraw: false,
            size: Size { width: 0, height: 0 },
            cursor_offset: 0,
            command_type: CommandType::SearchTerm,
        }
    }

    /// Replaces the prompt and its text; marks the bar for redrawing when
    /// they differ from what it showed.
    pub fn update_command(&mut self, new_command: CommandPrompt)
        ensures
            final(self).prompt_spec() == new_command.prompt_spec(),
            final(self).command_spec() == new_command.command_spec(),
            final(self).dirty() == (old(self).dirty() || old(self).prompt_spec()
                != new_command.prompt_spec() || old(self).command_spec()
                != new_command.command_spec()),
            final(self).cursor() == old(self).cursor(),
            final(self).size_spec() == old(self).size_spec(),
            final(self).kind() == old(self).kind(),
    {
        if self.current_command != new_command {
            self.current_command = new_command;
            self.set_needs_redraw(true);
        }
    }

    /// Where the caret stands: after the prompt, a space, and the cursor's
    /// offset into the typed text.
    pub fn caret_position(&self, origin_y: usize) -> (r: Position)
        ensures
            r.row == origin_y,
            r.col == saturate(byte_len(self.prompt_spec()) + 1 + self.cursor()),
    {
        Position { row: origin_y, col: self.caret_position_col() }
    }

    pub fn caret_position_col(&self) -> (r: usize)
        ensures
            r == saturate(byte_len(self.prompt_spec()) + 1 + self.cursor()),
    {
        let prompt_len = self.current_command.prompt.as_str().as_bytes().len();
        prompt_len.saturating_add(1).saturating_add(self.cursor_offset)
    }

    /// Applies an edit to the typed text: a typed character goes at the
    /// end, delete removes the character at the cursor, delete-backward the
    /// last one.
    pub fn handle_edit_command(&mut self, command: Edit)
        ensures
            final(self).prompt_spec() == old(self).prompt_spec(),
            final(self).size_spec() == old(self).size_spec(),
            final(self).kind() == old(self).kind(),
            ({
                let text = old(self).command_spec();
                let at = old(self).cursor() as int;
                match command {
                    Edit::Insert(c) => {
                        &&& final(self).command_spec() == text.push(c)
                        &&& final(self).cursor() == saturate(at + 1)
                        &&& final(self).dirty()
                    },
                    Edit::Delete => if at < text.len() {
                        &&& final(self).command_spec() == text.remove(at)
                        &&& final(self).cursor() == at
                        &&& final(self).dirty()
                    } else {
                        *final(self) == *old(self)
                    },
                    Edit::DeleteBackward => if text.len() > 0 {
                        &&& final(self).command_spec() == text.drop_last()
                        &&& final(self).cursor() == (if at > 0 { at - 1 } else { 0 })
                        &&& final(self).dirty()
                    } else {
                        *final(self) == *old(self)
                    },
                    Edit::InsertNewLine => *final(self) == *old(self),
                }
            }),
    {
        match command {
            Edit::Insert(character) => {
                self.cursor_offset = self.cursor_offset.saturating_add(1);
                let mut new_command = self.current_command.command.clone();
                let piece = string_of_char(character);
                new_command.append(piece.as_str());
                let prompt = self.current_command.prompt.clone();
                self.update_command(CommandPrompt { prompt, command: new_command });
            },
            Edit::Delete => {
                let cs = chars_of(self.current_command.command.as_str());
                if self.cursor_offset >= cs.len() {
                    return;
                }
                let mut new_command = string_from_chars(&cs, 0, self.cursor_offset);
                let tail = string_from_chars(&cs, self.cursor_offset + 1, cs.len());
                new_command.append(tail.as_str());
                proof {
                    assert(new_command@ =~= cs@.remove(self.cursor_offset as int));
                }
                let prompt = self.current_command.prompt.clone();
                self.update_command(CommandPrompt { prompt, command: new_command });
            },
            Edit::DeleteBackward => {
                let cs = chars_of(self.current_command.command.as_str());
                if cs.len() == 0 {
                    return;
                }
                let new_command = string_from_chars(&cs, 0, cs.len() - 1);
                proof {
                    assert(new_command@ =~= cs@.drop_last());
                }
                self.cursor_offset = self.cursor_offset.saturating_sub(1);
                let prompt = self.current_command.prompt.clone();
                self.update_command(CommandPrompt { prompt, command: new_command });
            },
            Edit::InsertNewLine => {},
        }
    }

    /// Moves the cursor left or right within the typed text; other moves do
    /// nothing.
    pub fn handle_move_command(&mut self, command: Move)
        ensures
            command == Move::Left ==> *final(self) == old(self).moved_left(),
            command == Move::Right ==> *final(self) == old(self).moved_right(),
            command != Move::Left && command != Move::Right ==> *final(self) == *old(self),
    {
        match command {
            Move::Left => self.move_left(),
            Move::Right => self.move_right(),
            _ => {},
        }
    }

    pub closed spec fn moved_left(self) -> CommandBar {
        if self.cursor_offset > 0 {
            CommandBar { cursor_offset: (self.cursor_offset - 1) as usize, ..self }
        } else {
            self
        }
    }

    pub closed spec fn moved_right(self) -> CommandBar {
        if self.cursor_offset < self.current_command.command@.len() {
            CommandBar { cursor_offset: (self.cursor_offset + 1) as usize, ..self }
        } else {
            self
        }
    }

    pub fn move_left(&mut self)
        ensures
            *final(self) == old(self).moved_left(),
            old(self).cursor() > 0 ==> final(self).cursor() == old(self).cursor() - 1,
            old(self).cursor() == 0 ==> final(self).cursor() == 0,
    {
        if self.cursor_offset > 0 {
            self.cursor_offset -= 1;
        }
    }

    pub fn move_right(&mut self)
        ensures
            *final(self) == old(self).moved_right(),
            old(self).cursor() < old(self).command_spec().len() ==> final(self).cursor() == old(
                self,
            ).cursor() + 1,
            old(self).cursor() >= old(self).command_spec().len() ==> final(self).cursor() == old(
                self,
            ).cursor(),
    {
        let len = chars_of(self.current_command.command.as_str()).len();
        if self.cursor_offset < len {
            self.cursor_offset += 1;
        }
    }

    pub fn set_needs_redraw(&mut self, value: bool)
        ensures
            final(self).dirty() == value,
            final(self).prompt_spec() == old(self).prompt_spec(),
            final(self).command_spec() == old(self).command_spec(),
            final(self).cursor() == old(self).cursor(),
            final(self).size_spec() == old(self).size_spec(),
            final(self).kind() == old(self).kind(),
    {
        self.needs_redraw = value;
    }

    pub fn needs_redraw(&self) -> (r: bool)
        ensures
            r == self.dirty(),
    {
        self.needs_redraw
    }

    pub fn set_size(&mut self, size: Size)
        ensures
            final(self).size_spec() == size,
            final(self).dirty() == old(self).dirty(),
            final(self).prompt_spec() == old(self).prompt_spec(),
            final(self).command_spec() == old(self).command_spec(),
            final(self).cursor() == old(self).cursor(),
            final(self).kind() == old(self).kind(),
    {
        self.size = size;
    }

    /// Takes a new size and marks the bar for redrawing.
    pub fn resize(&mut self, size: Size)
        ensures
            final(self).size_spec() == size,
            final(self).dirty(),
            final(self).prompt_spec() == old(self).prompt_spec(),
            final(self).command_spec() == old(self).command_spec(),
            final(self).cursor() == old(self).cursor(),
            final(self).kind() == old(self).kind(),
    {
        self.set_size(size);
        self.set_needs_redraw(true);
    }

    pub fn set_prompt(&mut self, prompt: &str)
        ensures
            final(self).prompt_spec() == prompt@,
            final(self).command_spec() == old(self).command_spec(),
            final(self).cursor() == old(self).cursor(),
            final(self).size_spec() == old(self).size_spec(),
            final(self).kind() == old(self).kind(),
    {
        self.current_command.prompt = prompt.to_owned();
    }

    pub fn set_command_type(&mut self, command_type: CommandType)
        ensures
            final(self).kind() == command_type,
            final(self).prompt_spec() == old(self).prompt_spec(),
            final(self).command_spec() == old(self).command_spec(),
            final(self).cursor() == old(self).cursor(),
            final(self).size_spec() == old(self).size_spec(),
            final(self).dirty() == old(self).dirty(),
    {
        self.command_type = command_type;
    }

    pub fn get_command_type(&self) -> (r: CommandType)
        ensures
            r == self.kind(),
    {
        self.command_type
    }

    /// The typed text.
    pub fn value(&self) -> (r: String)
        ensures
            r@ == self.command_spec(),
    {
        self.current_command.command.clone()
    }

    /// The line to draw: the prompt, a space, the typed text.
    pub fn display_text(&self) -> (r: String)
        ensures
            r@ == self.prompt_spec() + seq![' '] + self.command_spec(),
    {
        let mut r = self.current_command.prompt.clone();
        r.append(" ");
        proof {
            reveal_strlit(" ");
        }
        r.append(self.current_command.command.as_str());
        proof {
            assert(r@ =~= self.prompt_spec() + seq![' '] + self.command_spec());
        }
        r
    }
}

} // verus!
