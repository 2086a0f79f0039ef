use vstd::prelude::*;
use vstd::string::StringExecFns;
use vstd::utf8::encode_utf8;
use crate::editor::EditorState;
use crate::keys::Key;
use crate::view::{
    cursor_fits, cursor_rendered_x, fill_screen_buffer, frame_rows,
    lemma_rendered_width_at_least_len, lemma_rendered_width_bound, scroll_left, scroll_screen,
    scroll_top,
};

verus! {

/// Relies on `String::push`: appends one character.
#[verifier::external_body]
fn push_char(s: &mut String, c: char)
    ensures
        final(s)@ == old(s)@.push(c),
{
    s.push(c)
}

/// Relies on `String::pop`: removes the last character, if there is one,
/// and returns it.
#[verifier::external_body]
fn pop_char(s: &mut String) -> (r: Option<char>)
    ensures
        old(s)@.len() > 0 ==> r == Some(old(s)@.last()) && final(s)@ == old(s)@.drop_last(),
        old(s)@.len() == 0 ==> r is None && final(s)@ == old(s)@,
{
    s.pop()
}

/// What the save prompt does after a key.
#[derive(Debug, PartialEq, Eq, Structural, Clone, Copy)]
pub enum PromptStep {
    /// The input was edited; the prompt line is to be redrawn.
    Edited,
    /// The key does nothing in the prompt.
    Ignored,
    /// Newline: the input is the answer.
    Done,
    /// Escape: the prompt was abandoned, which reads as an empty answer.
    Cancelled,
}

/// The input after a key in the prompt.
pub open spec fn prompt_input_after(command: Seq<char>, key: Key) -> Seq<char> {
    match key {
        Key::Backspace => if command.len() > 0 { command.drop_last() } else { command },
        Key::Char(ch) => command.push(ch),
        _ => command,
    }
}

pub open spec fn prompt_step_of(key: Key) -> PromptStep {
    match key {
        Key::Escape => PromptStep::Cancelled,
        Key::Newline => PromptStep::Done,
        Key::Backspace => PromptStep::Edited,
        Key::Char(_) => PromptStep::Edited,
        _ => PromptStep::Ignored,
    }
}

/// Shows `prompt` on the status line before the first key of the prompt.
pub fn start_user_command(editor_state: &mut EditorState, prompt: &String)
    ensures
        final(editor_state).menu_info@ == prompt@,
        final(editor_state).doc() == old(editor_state).doc(),
        final(editor_state).filename@ == old(editor_state).filename@,
{
    editor_state.menu_info = prompt.clone();
}

/// Applies one key to the input of a prompt. After an edit the status line
/// shows the prompt followed by the input.
pub fn get_user_command(
    editor_state: &mut EditorState,
    prompt: &String,
    command: &mut String,
    key: &Key,
) -> (r: PromptStep)
    ensures
        r == prompt_step_of(*key),
        final(command)@ == prompt_input_after(old(command)@, *key),
        r == PromptStep::Edited ==> final(editor_state).menu_info@ == prompt@ + final(command)@,
        r != PromptStep::Edited ==> final(editor_state).menu_info@ == old(editor_state).menu_info@,
        final(editor_state).doc() == old(editor_state).doc(),
        final(editor_state).filename@ == old(editor_state).filename@,
{
    let step = match key {
        Key::Escape => PromptStep::Cancelled,
        Key::Backspace => {
            pop_char(command);
            PromptStep::Edited
        },
        Key::Newline => PromptStep::Done,
        Key::Char(ch) => {
            push_char(command, *ch);
            PromptStep::Edited
        },
        _ => PromptStep::Ignored,
    };
    if step == PromptStep::Edited {
        let mut shown = prompt.clone();
        shown.append(command.as_str());
        editor_state.menu_info = shown;
    }
    step
}

pub const SAVE_AS_PROMPT: &'static str = "Save As: ";
pub const SAVED_MESSAGE: &'static str = "Saved file: ";
pub const SAVE_FAILED_MESSAGE: &'static str = "Invalid filename or directory: ";

impl EditorState {
    /// Whether a save has to ask for a file name first.
    pub fn needs_filename(&self) -> (r: bool)
        ensures
            r == (self.filename@.len() == 0),
    {
        self.filename.as_str().is_empty()
    }
}

/// Takes the answer of the save prompt as the file name. An empty answer
/// cancels the save.
pub fn set_save_name(editor_state: &mut EditorState, answer: String) -> (proceed: bool)
    ensures
        final(editor_state).filename@ == answer@,
        proceed == (answer@.len() > 0),
        final(editor_state).doc() == old(editor_state).doc(),
        final(editor_state).menu_info@ == old(editor_state).menu_info@,
{
    let proceed = !answer.as_str().is_empty();
    editor_state.filename = answer;
    proceed
}

/// Reports the outcome of writing the buffer to its file on the status
/// line. After a failure the file name is cleared, so the next save asks
/// for one again.
pub fn record_save_result(editor_state: &mut EditorState, written: bool)
    ensures
        written ==> final(editor_state).menu_info@ == SAVED_MESSAGE@ + old(editor_state).filename@,
        written ==> final(editor_state).filename@ == old(editor_state).filename@,
        !written ==> final(editor_state).menu_info@ == SAVE_FAILED_MESSAGE@ + old(
            editor_state,
        ).filename@,
        !written ==> final(editor_state).filename@.len() == 0,
        final(editor_state).doc() == old(editor_state).doc(),
{
    let mut message = if written {
        String::from_str(SAVED_MESSAGE)
    } else {
        String::from_str(SAVE_FAILED_MESSAGE)
    };
    message.append(editor_state.filename.as_str());
    editor_state.menu_info = message;
    if !written {
        editor_state.filename = String::new();
    }
}

/// Brings the viewport to the cursor for a terminal of `rows` by `cols`
/// cells and builds the frame. Returns the 1-based screen row and column at
/// which the terminal cursor is to be placed.
pub fn prepare_frame(editor_state: &mut EditorState, rows: usize, cols: usize) -> (pos: (
    usize,
    usize,
))
    requires
        old(editor_state).wf(),
        cursor_fits(old(editor_state)),
        rows >= 1,
        cols >= 1,
        old(editor_state).cursor_y + rows <= usize::MAX,
    ensures
        final(editor_state).wf(),
        final(editor_state).doc() == old(editor_state).doc(),
        final(editor_state).filename@ == old(editor_state).filename@,
        final(editor_state).terminal_rows == rows,
        final(editor_state).terminal_cols == cols,
        final(editor_state).rendered_x == cursor_rendered_x(old(editor_state)),
        final(editor_state).current_row == scroll_top(
            old(editor_state).cursor_y as nat,
            old(editor_state).current_row as nat,
            rows as nat,
        ),
        final(editor_state).current_column == scroll_left(
            old(editor_state).cursor_x as nat,
            cursor_rendered_x(old(editor_state)),
            old(editor_state).current_column as nat,
            cols as nat,
        ),
        final(editor_state).screen_buffer@ == frame_rows(
            old(editor_state).lines(),
            final(editor_state).current_row as nat,
            (rows - 1) as nat,
            final(editor_state).current_column as nat,
            cols as nat,
        ) + encode_utf8(old(editor_state).menu_info@),
        final(editor_state).menu_info@.len() == 0,
        pos.0 == final(editor_state).cursor_y - final(editor_state).current_row + 1,
        pos.1 == final(editor_state).rendered_x - final(editor_state).current_column + 1,
{
    editor_state.terminal_rows = rows;
    editor_state.terminal_cols = cols;
    scroll_screen(editor_state);
    proof {
        lemma_rendered_width_bound(
            editor_state.lines()[editor_state.cursor_y as int].subrange(
                0,
                editor_state.cursor_x as int,
            ),
        );
        lemma_rendered_width_at_least_len(
            editor_state.lines()[editor_state.cursor_y as int].subrange(
                0,
                editor_state.cursor_x as int,
            ),
        );
    }
    fill_screen_buffer(editor_state);
    (
        editor_state.cursor_y - editor_state.current_row + 1,
        editor_state.rendered_x - editor_state.current_column + 1,
    )
}

} // verus!
