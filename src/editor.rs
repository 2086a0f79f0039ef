use vstd::prelude::*;
use vstd::pervasive::VecAdditionalExecFns;
use crate::keys::Key;
use crate::text::{
    doc_delete, doc_insert_char, doc_insert_newline, doc_move_down, doc_move_left, doc_move_right,
    doc_lines_wf, doc_move_up, doc_wf, is_line_split, join_lines, lemma_delete_lines_wf,
    lemma_insert_char_lines_wf, lemma_insert_newline_lines_wf, lemma_moves_lines_wf, Doc, NEWLINE,
};

verus! {

/// What the main loop does after a key has been handled.
#[derive(Debug, PartialEq, Eq, Structural, Clone, Copy)]
pub enum KeyAction {
    Continue,
    Exit,
    /// The buffer is to be written out; the caller performs the write.
    Save,
}

/// The state of one editing session.
pub struct EditorState {
    /// Cursor column: a byte offset in the current line.
    pub cursor_x: usize,
    /// Cursor row: an index into `file`.
    pub cursor_y: usize,
    /// Left column of the viewport, in display cells.
    pub current_column: usize,
    /// Top row of the viewport.
    pub current_row: usize,
    /// The lines of the buffer, each with its newline byte.
    pub file: Vec<Vec<u8>>,
    /// Where the buffer is saved; empty while it has no path.
    pub filename: String,
    /// The status line shown below the text.
    pub menu_info: String,
    /// The cursor column in display cells, after tab expansion.
    pub rendered_x: usize,
    /// The last frame built for the terminal.
    pub screen_buffer: Vec<u8>,
    pub terminal_cols: usize,
    pub terminal_rows: usize,
}

pub open spec fn lines_of(file: Seq<Vec<u8>>) -> Seq<Seq<u8>> {
    Seq::new(file.len(), |i: int| file[i]@)
}

impl EditorState {
    pub open spec fn lines(&self) -> Seq<Seq<u8>> {
        lines_of(self.file@)
    }

    pub open spec fn doc(&self) -> Doc {
        Doc { lines: self.lines(), col: self.cursor_x as nat, row: self.cursor_y as nat }
    }

    pub open spec fn wf(&self) -> bool {
        doc_wf(self.doc())
    }

    /// Everything but the buffer and the cursor is left as it was.
    pub open spec fn same_view(&self, other: &EditorState) -> bool {
        &&& self.current_column == other.current_column
        &&& self.current_row == other.current_row
        &&& self.filename@ == other.filename@
        &&& self.menu_info@ == other.menu_info@
        &&& self.rendered_x == other.rendered_x
        &&& self.screen_buffer@ == other.screen_buffer@
        &&& self.terminal_cols == other.terminal_cols
        &&& self.terminal_rows == other.terminal_rows
    }

    /// A session on the given lines, with the cursor at the start and no
    /// file name.
    pub fn new(file: Vec<Vec<u8>>) -> (r: EditorState)
        requires
            file@.len() >= 1,
        ensures
            r.wf(),
            r.lines() == lines_of(file@),
            r.cursor_x == 0 && r.cursor_y == 0,
            r.current_column == 0 && r.current_row == 0,
            r.filename@.len() == 0,
            r.menu_info@.len() == 0,
    {
        EditorState {
            cursor_x: 0,
            cursor_y: 0,
            current_column: 0,
            current_row: 0,
            file,
            filename: String::new(),
            menu_info: String::new(),
            rendered_x: 0,
            screen_buffer: Vec::new(),
            terminal_cols: 0,
            terminal_rows: 0,
        }
    }
}

/// Takes line `y` out of the buffer, leaving an empty line in its place.
fn take_line(editor_state: &mut EditorState, y: usize) -> (line: Vec<u8>)
    requires
        y < old(editor_state).file@.len(),
    ensures
        line@ == old(editor_state).lines()[y as int],
        final(editor_state).lines() == old(editor_state).lines().update(y as int, Seq::empty()),
        final(editor_state).file@.len() == old(editor_state).file@.len(),
        final(editor_state).cursor_x == old(editor_state).cursor_x,
        final(editor_state).cursor_y == old(editor_state).cursor_y,
        final(editor_state).same_view(old(editor_state)),
{
    let mut line: Vec<u8> = Vec::new();
    editor_state.file.set_and_swap(y, &mut line);
    assert(editor_state.lines() =~= old(editor_state).lines().update(y as int, Seq::empty()));
    line
}

/// Puts `line` in place of line `y`.
fn put_line(editor_state: &mut EditorState, y: usize, line: Vec<u8>)
    requires
        y < old(editor_state).file@.len(),
    ensures
        final(editor_state).lines() == old(editor_state).lines().update(y as int, line@),
        final(editor_state).file@.len() == old(editor_state).file@.len(),
        final(editor_state).cursor_x == old(editor_state).cursor_x,
        final(editor_state).cursor_y == old(editor_state).cursor_y,
        final(editor_state).same_view(old(editor_state)),
{
    editor_state.file.set(y, line);
    assert(editor_state.lines() =~= old(editor_state).lines().update(y as int, line@));
}

pub fn move_cursor_up(editor_state: &mut EditorState) -> (r: KeyAction)
    requires
        old(editor_state).wf(),
    ensures
        final(editor_state).wf(),
        final(editor_state).doc() == doc_move_up(old(editor_state).doc()),
        final(editor_state).same_view(old(editor_state)),
        r == KeyAction::Continue,
{
    if editor_state.cursor_y > 0 {
        let target = editor_state.file[editor_state.cursor_y - 1].len();
        if editor_state.cursor_x >= target {
            editor_state.cursor_x = if target > 0 { target - 1 } else { 0 };
        }
        editor_state.cursor_y -= 1;
    }
    KeyAction::Continue
}

pub fn move_cursor_down(editor_state: &mut EditorState) -> (r: KeyAction)
    requires
        old(editor_state).wf(),
    ensures
        final(editor_state).wf(),
        final(editor_state).doc() == doc_move_down(old(editor_state).doc()),
        final(editor_state).same_view(old(editor_state)),
        r == KeyAction::Continue,
{
    if editor_state.cursor_y < editor_state.file.len() - 1 {
        let target = editor_state.file[editor_state.cursor_y + 1].len();
        if editor_state.cursor_x >= target {
            editor_state.cursor_x = if target > 0 { target - 1 } else { 0 };
        }
        editor_state.cursor_y += 1;
    }
    KeyAction::Continue
}

pub fn move_cursor_left(editor_state: &mut EditorState) -> (r: KeyAction)
    requires
        old(editor_state).wf(),
    ensures
        final(editor_state).wf(),
        final(editor_state).doc() == doc_move_left(old(editor_state).doc()),
        final(editor_state).same_view(old(editor_state)),
        r == KeyAction::Continue,
{
    if editor_state.cursor_x != 0 {
        editor_state.cursor_x -= 1;
    }
    KeyAction::Continue
}

pub fn move_cursor_right(editor_state: &mut EditorState) -> (r: KeyAction)
    requires
        old(editor_state).wf(),
    ensures
        final(editor_state).wf(),
        final(editor_state).doc() == doc_move_right(old(editor_state).doc()),
        final(editor_state).same_view(old(editor_state)),
        r == KeyAction::Continue,
{
    if editor_state.cursor_x < editor_state.file[editor_state.cursor_y].len() {
        if editor_state.cursor_x + 1 < editor_state.file[editor_state.cursor_y].len() {
            editor_state.cursor_x += 1;
        }
    }
    KeyAction::Continue
}

pub fn delete_character(editor_state: &mut EditorState) -> (r: KeyAction)
    requires
        old(editor_state).wf(),
    ensures
        final(editor_state).wf(),
        final(editor_state).doc() == doc_delete(old(editor_state).doc()),
        final(editor_state).same_view(old(editor_state)),
        r == KeyAction::Continue,
{
    let ghost d = editor_state.doc();
    let x = editor_state.cursor_x;
    let y = editor_state.cursor_y;
    if x > 0 {
        let mut line = take_line(editor_state, y);
        line.remove(x - 1);
        put_line(editor_state, y, line);
        editor_state.cursor_x = x - 1;
        assert(editor_state.lines() =~= doc_delete(d).lines);
    } else if y > 0 {
        let mut current = editor_state.file.remove(y);
        assert(editor_state.lines() =~= d.lines.remove(y as int));
        let mut prev = take_line(editor_state, y - 1);
        prev.pop();
        let join_at = prev.len();
        prev.append(&mut current);
        put_line(editor_state, y - 1, prev);
        editor_state.cursor_x = join_at;
        editor_state.cursor_y = y - 1;
        assert(editor_state.lines() =~= doc_delete(d).lines);
    }
    KeyAction::Continue
}

pub fn insert_newline(editor_state: &mut EditorState) -> (r: KeyAction)
    requires
        old(editor_state).wf(),
    ensures
        final(editor_state).wf(),
        final(editor_state).doc() == doc_insert_newline(old(editor_state).doc()),
        final(editor_state).same_view(old(editor_state)),
        r == KeyAction::Continue,
{
    let ghost d = editor_state.doc();
    let x = editor_state.cursor_x;
    let y = editor_state.cursor_y;
    let rows = editor_state.file.len();
    let mut line = take_line(editor_state, y);
    let split_vector = line.split_off(x);
    line.push(NEWLINE);
    put_line(editor_state, y, line);
    let ghost before = editor_state.lines();
    let ghost right = split_vector@;
    editor_state.file.insert(y + 1, split_vector);
    assert(editor_state.lines() =~= before.insert(y + 1, right));
    editor_state.cursor_x = 0;
    editor_state.cursor_y = y + 1;
    assert(editor_state.lines() =~= doc_insert_newline(d).lines);
    KeyAction::Continue
}

pub fn insert_character(editor_state: &mut EditorState, ch: u8) -> (r: KeyAction)
    requires
        old(editor_state).wf(),
    ensures
        final(editor_state).wf(),
        final(editor_state).doc() == doc_insert_char(old(editor_state).doc(), ch),
        final(editor_state).same_view(old(editor_state)),
        r == KeyAction::Continue,
{
    let ghost d = editor_state.doc();
    let x = editor_state.cursor_x;
    let y = editor_state.cursor_y;
    let mut line = take_line(editor_state, y);
    line.insert(x, ch);
    let n = line.len();
    put_line(editor_state, y, line);
    editor_state.cursor_x = x + 1;
    assert(editor_state.lines() =~= doc_insert_char(d, ch).lines);
    KeyAction::Continue
}

/// What a key does to the buffer and cursor.
pub open spec fn doc_apply_key(d: Doc, key: Key) -> Doc {
    match key {
        Key::UpArrow => doc_move_up(d),
        Key::DownArrow => doc_move_down(d),
        Key::LeftArrow => doc_move_left(d),
        Key::RightArrow => doc_move_right(d),
        Key::Backspace => doc_delete(d),
        Key::Newline => doc_insert_newline(d),
        Key::Char(ch) => doc_insert_char(d, ch as u8),
        _ => d,
    }
}

/// The action that follows a key.
pub open spec fn action_of(key: Key) -> KeyAction {
    match key {
        Key::CtrlS => KeyAction::Save,
        Key::CtrlQ => KeyAction::Exit,
        _ => KeyAction::Continue,
    }
}

/// Applies one key to the session. Saving is reported as
/// `KeyAction::Save` for the caller to carry out.
pub fn handle_key_presses(key: &Key, editor_state: &mut EditorState) -> (r: KeyAction)
    requires
        old(editor_state).wf(),
    ensures
        final(editor_state).wf(),
        final(editor_state).doc() == doc_apply_key(old(editor_state).doc(), *key),
        final(editor_state).same_view(old(editor_state)),
        r == action_of(*key),
{
    match key {
        Key::UpArrow => move_cursor_up(editor_state),
        Key::DownArrow => move_cursor_down(editor_state),
        Key::LeftArrow => move_cursor_left(editor_state),
        Key::RightArrow => move_cursor_right(editor_state),
        Key::Backspace => delete_character(editor_state),
        Key::Newline => insert_newline(editor_state),
        Key::Escape => KeyAction::Continue,
        Key::CtrlS => KeyAction::Save,
        Key::CtrlQ => KeyAction::Exit,
        Key::Char(ch) => insert_character(editor_state, *ch as u8),
    }
}

/// Splits the bytes of a file into lines after each newline byte. Each line
/// keeps its newline; a last line without one is kept as it is. Empty
/// content gives one empty line.
pub fn split_lines(content: &[u8]) -> (lines: Vec<Vec<u8>>)
    ensures
        is_line_split(lines_of(lines@)),
        join_lines(lines_of(lines@)) == content@,
{
    let mut lines: Vec<Vec<u8>> = Vec::new();
    let mut current_line: Vec<u8> = Vec::new();
    let mut i: usize = 0;
    while i < content.len()
        invariant
            0 <= i <= content@.len(),
            join_lines(lines_of(lines@)) + current_line@ == content@.subrange(0, i as int),
            forall|k: int| 0 <= k < current_line@.len() ==> current_line@[k] != NEWLINE,
            forall|k: int|
                0 <= k < lines@.len() ==> newline_at_end_only(#[trigger] lines@[k]@),
        decreases content@.len() - i,
    {
        let byte = content[i];
        current_line.push(byte);
        if byte == NEWLINE {
            let ghost before = lines_of(lines@);
            let ghost line = current_line@;
            lines.push(current_line);
            current_line = Vec::new();
            assert(lines_of(lines@) =~= before.push(line));
            assert(lines_of(lines@).drop_last() =~= before);
        }
        i = i + 1;
        assert(content@.subrange(0, i as int) =~= content@.subrange(0, i - 1 as int).push(byte));
    }
    assert(content@.subrange(0, i as int) =~= content@);
    if current_line.len() > 0 || lines.len() == 0 {
        let ghost before = lines_of(lines@);
        let ghost line = current_line@;
        lines.push(current_line);
        assert(lines_of(lines@) =~= before.push(line));
        assert(lines_of(lines@).drop_last() =~= before);
    } else {
        assert(join_lines(lines_of(lines@)) + Seq::<u8>::empty() =~= join_lines(lines_of(lines@)));
    }
    lines
}

/// A line that ends with its newline byte and holds no other.
pub open spec fn newline_at_end_only(s: Seq<u8>) -> bool {
    &&& s.len() > 0
    &&& s.last() == NEWLINE
    &&& forall|j: int| 0 <= j < s.len() - 1 ==> s[j] != NEWLINE
}

/// The bytes written when the buffer is saved: all lines, one after
/// another, with nothing added.
pub fn file_content(file: &Vec<Vec<u8>>) -> (r: Vec<u8>)
    ensures
        r@ == join_lines(lines_of(file@)),
{
    let mut out: Vec<u8> = Vec::new();
    let mut i: usize = 0;
    while i < file.len()
        invariant
            0 <= i <= file@.len(),
            out@ == join_lines(lines_of(file@.subrange(0, i as int))),
        decreases file@.len() - i,
    {
        let ghost before = out@;
        let line = &file[i];
        let mut j: usize = 0;
        while j < line.len()
            invariant
                0 <= j <= line@.len(),
                out@ == before + line@.subrange(0, j as int),
            decreases line@.len() - j,
        {
            out.push(line[j]);
            j = j + 1;
            assert(out@ =~= before + line@.subrange(0, j as int));
        }
        assert(line@.subrange(0, j as int) =~= line@);
        assert(lines_of(file@.subrange(0, i + 1 as int)).drop_last() =~= lines_of(
            file@.subrange(0, i as int),
        ));
        i = i + 1;
    }
    assert(file@.subrange(0, i as int) =~= file@);
    out
}

/// The buffer of a new, unnamed file: one empty line.
pub fn empty_buffer() -> (r: Vec<Vec<u8>>)
    ensures
        lines_of(r@) == seq![Seq::<u8>::empty()],
        is_line_split(lines_of(r@)),
{
    let mut r: Vec<Vec<u8>> = Vec::new();
    r.push(Vec::new());
    assert(lines_of(r@) =~= seq![Seq::<u8>::empty()]);
    r
}

/// A key that types a newline byte as a plain character; the decoder never
/// yields one.
pub open spec fn types_raw_newline(key: Key) -> bool {
    key is Char && (key->Char_0 as u8) == NEWLINE
}

/// Every key but one that types a raw newline byte keeps the buffer's shape:
/// newlines only at line ends, one at the end of every line but the last,
/// and the cursor before it.
pub proof fn lemma_keys_keep_lines_wf(d: Doc, key: Key)
    requires
        doc_lines_wf(d),
        !types_raw_newline(key),
    ensures
        doc_lines_wf(doc_apply_key(d, key)),
{
    lemma_moves_lines_wf(d);
    lemma_delete_lines_wf(d);
    lemma_insert_newline_lines_wf(d);
    if let Key::Char(ch) = key {
        lemma_insert_char_lines_wf(d, ch as u8);
    }
}

/// A buffer read from a file, with the cursor at its start, has the shape
/// that editing keeps.
pub proof fn lemma_loaded_buffer_lines_wf(lines: Seq<Seq<u8>>)
    requires
        is_line_split(lines),
    ensures
        doc_lines_wf(Doc { lines, col: 0, row: 0 }),
{
    if lines.len() > 1 {
        assert(lines[0].len() > 0);
    }
}

} // verus!
