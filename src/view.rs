use vstd::prelude::*;
use crate::editor::{lines_of, EditorState};
use crate::text::NEWLINE;
use vstd::utf8::encode_utf8;

verus! {

pub const TAB_SPACES: usize = 4;
pub const TAB: u8 = 9;
pub const SPACE: u8 = 32;

/// Display cells taken by `s` when each tab runs to the next multiple of
/// the tab width and every other byte takes one cell.
pub open spec fn rendered_width(s: Seq<u8>) -> nat
    decreases s.len(),
{
    if s.len() == 0 {
        0
    } else {
        let w = rendered_width(s.drop_last());
        if s.last() == TAB {
            w + (TAB_SPACES - w % (TAB_SPACES as nat)) as nat
        } else {
            w + 1
        }
    }
}

/// `s` with each tab replaced by the spaces that reach the next tab stop.
pub open spec fn expand_tabs(s: Seq<u8>) -> Seq<u8>
    decreases s.len(),
{
    if s.len() == 0 {
        s
    } else {
        let e = expand_tabs(s.drop_last());
        if s.last() == TAB {
            e + Seq::new((TAB_SPACES - e.len() % (TAB_SPACES as nat)) as nat, |k: int| SPACE)
        } else {
            e.push(s.last())
        }
    }
}

pub proof fn lemma_rendered_width_bound(s: Seq<u8>)
    ensures
        rendered_width(s) <= TAB_SPACES * s.len(),
    decreases s.len(),
{
    if s.len() > 0 {
        lemma_rendered_width_bound(s.drop_last());
    }
}

/// A line takes at least one cell per byte.
pub proof fn lemma_rendered_width_at_least_len(s: Seq<u8>)
    ensures
        rendered_width(s) >= s.len(),
    decreases s.len(),
{
    if s.len() > 0 {
        lemma_rendered_width_at_least_len(s.drop_last());
    }
}

pub open spec fn sat_sub(a: nat, b: nat) -> nat {
    if a >= b { (a - b) as nat } else { 0 }
}

/// The top row after the cursor has moved to `row`.
pub open spec fn scroll_top(row: nat, top: nat, rows: nat) -> nat {
    let top1 = if row < top { row } else { top };
    if row >= top1 + sat_sub(rows, 1) { sat_sub(row, sat_sub(rows, 2)) } else { top1 }
}

/// The left column after the cursor has moved to `col`, drawn at `rcol`.
pub open spec fn scroll_left(col: nat, rcol: nat, left: nat, cols: nat) -> nat {
    let left1 = if rcol < left { rcol } else { left };
    if col >= left1 + cols { (col - sat_sub(cols, 1)) as nat } else { left1 }
}

/// The rendered column of the cursor.
pub open spec fn cursor_rendered_x(e: &EditorState) -> nat {
    rendered_width(e.lines()[e.cursor_y as int].subrange(0, e.cursor_x as int))
}

/// Everything but the rendered column and the scroll offsets is left as it was.
pub open spec fn same_but_scroll(a: &EditorState, b: &EditorState) -> bool {
    &&& a.doc() == b.doc()
    &&& a.filename@ == b.filename@
    &&& a.menu_info@ == b.menu_info@
    &&& a.screen_buffer@ == b.screen_buffer@
    &&& a.terminal_cols == b.terminal_cols
    &&& a.terminal_rows == b.terminal_rows
}

/// A cursor column that a tab-expanded width of it cannot overflow.
pub open spec fn cursor_fits(e: &EditorState) -> bool {
    e.cursor_x <= usize::MAX / TAB_SPACES
}

pub fn get_render_cursor_x(editor_state: &mut EditorState)
    requires
        old(editor_state).wf(),
        cursor_fits(old(editor_state)),
    ensures
        final(editor_state).rendered_x == cursor_rendered_x(old(editor_state)),
        final(editor_state).current_column == old(editor_state).current_column,
        final(editor_state).current_row == old(editor_state).current_row,
        same_but_scroll(final(editor_state), old(editor_state)),
        final(editor_state).wf(),
{
    let ghost line = editor_state.lines()[editor_state.cursor_y as int];
    let x = editor_state.cursor_x;
    let y = editor_state.cursor_y;
    let mut rendered: usize = 0;
    let mut i: usize = 0;
    while i < x
        invariant
            0 <= i <= x,
            x == editor_state.cursor_x,
            y == editor_state.cursor_y,
            editor_state.wf(),
            line == editor_state.lines()[y as int],
            x <= usize::MAX / TAB_SPACES,
            rendered == rendered_width(line.subrange(0, i as int)),
        decreases x - i,
    {
        proof {
            lemma_rendered_width_bound(line.subrange(0, i as int));
            assert(line.subrange(0, i + 1 as int).drop_last() =~= line.subrange(0, i as int));
        }
        if editor_state.file[y][i] == TAB {
            rendered = rendered + (TAB_SPACES - rendered % TAB_SPACES);
        } else {
            rendered = rendered + 1;
        }
        i = i + 1;
    }
    editor_state.rendered_x = rendered;
}

pub fn scroll_screen(editor_state: &mut EditorState)
    requires
        old(editor_state).wf(),
        cursor_fits(old(editor_state)),
    ensures
        final(editor_state).rendered_x == cursor_rendered_x(old(editor_state)),
        final(editor_state).current_row == scroll_top(
            old(editor_state).cursor_y as nat,
            old(editor_state).current_row as nat,
            old(editor_state).terminal_rows as nat,
        ),
        final(editor_state).current_column == scroll_left(
            old(editor_state).cursor_x as nat,
            cursor_rendered_x(old(editor_state)),
            old(editor_state).current_column as nat,
            old(editor_state).terminal_cols as nat,
        ),
        same_but_scroll(final(editor_state), old(editor_state)),
        final(editor_state).wf(),
        old(editor_state).terminal_rows >= 2 ==> final(editor_state).current_row
            <= final(editor_state).cursor_y < final(editor_state).current_row
            + final(editor_state).terminal_rows - 1,
{
    get_render_cursor_x(editor_state);
    let rows = editor_state.terminal_rows;
    let cols = editor_state.terminal_cols;
    let y = editor_state.cursor_y;
    let x = editor_state.cursor_x;
    if y < editor_state.current_row {
        editor_state.current_row = y;
    }
    if y - editor_state.current_row >= rows.saturating_sub(1) {
        editor_state.current_row = y.saturating_sub(rows.saturating_sub(2));
    }
    if editor_state.rendered_x < editor_state.current_column {
        editor_state.current_column = editor_state.rendered_x;
    }
    if x >= editor_state.current_column && x - editor_state.current_column >= cols {
        editor_state.current_column = x - cols.saturating_sub(1);
    }
}

/// The tab expansion of `line`, as a new vector.
fn expanded(line: &Vec<u8>) -> (out: Vec<u8>)
    ensures
        out@ == expand_tabs(line@),
{
    let mut out: Vec<u8> = Vec::new();
    let mut i: usize = 0;
    while i < line.len()
        invariant
            0 <= i <= line@.len(),
            out@ == expand_tabs(line@.subrange(0, i as int)),
        decreases line@.len() - i,
    {
        let ghost before = out@;
        proof {
            assert(line@.subrange(0, i + 1 as int).drop_last() =~= line@.subrange(0, i as int));
        }
        if line[i] == TAB {
            let spaces = TAB_SPACES - out.len() % TAB_SPACES;
            let mut k: usize = 0;
            while k < spaces
                invariant
                    0 <= k <= spaces,
                    out@ == before + Seq::new(k as nat, |j: int| SPACE),
                decreases spaces - k,
            {
                out.push(SPACE);
                k = k + 1;
                assert(out@ =~= before + Seq::new(k as nat, |j: int| SPACE));
            }
            assert(out@ =~= expand_tabs(line@.subrange(0, i + 1 as int)));
        } else {
            out.push(line[i]);
        }
        i = i + 1;
    }
    assert(line@.subrange(0, i as int) =~= line@);
    out
}

/// Replaces each tab of `line` by the spaces that reach the next tab stop.
pub fn replace_tabs_with_spaces(line: &mut Vec<u8>)
    ensures
        final(line)@ == expand_tabs(old(line)@),
{
    let out = expanded(line);
    *line = out;
}

/// `s` without the newline bytes at its end.
pub open spec fn trim_newlines(s: Seq<u8>) -> Seq<u8>
    decreases s.len(),
{
    if s.len() > 0 && s.last() == NEWLINE {
        trim_newlines(s.drop_last())
    } else {
        s
    }
}

/// What shows of an expanded line from column `left` in `cols - 1` cells.
pub open spec fn visible_part(e: Seq<u8>, left: nat, cols: nat) -> Seq<u8> {
    if left < e.len() {
        let end = if e.len() > left + sat_sub(cols, 1) { left + sat_sub(cols, 1) } else { e.len() };
        e.subrange(left as int, end as int)
    } else {
        Seq::empty()
    }
}

pub const PAST_END_MARK: u8 = 126;

/// The text of screen row for buffer row `i`; a row past the end shows `~`.
pub open spec fn row_text(lines: Seq<Seq<u8>>, i: nat, left: nat, cols: nat) -> Seq<u8> {
    if i < lines.len() {
        trim_newlines(visible_part(expand_tabs(lines[i as int]), left, cols))
    } else {
        seq![PAST_END_MARK]
    }
}

/// The first `k` content rows of the frame from buffer row `top`, each
/// followed by a newline.
pub open spec fn frame_rows(lines: Seq<Seq<u8>>, top: nat, k: nat, left: nat, cols: nat) -> Seq<u8>
    decreases k,
{
    if k == 0 {
        Seq::empty()
    } else {
        frame_rows(lines, top, (k - 1) as nat, left, cols) + row_text(
            lines,
            (top + k - 1) as nat,
            left,
            cols,
        ) + seq![NEWLINE]
    }
}

/// The whole frame: the content rows, then the status line.
pub open spec fn frame(e: &EditorState) -> Seq<u8> {
    frame_rows(
        e.lines(),
        e.current_row as nat,
        (e.terminal_rows - 1) as nat,
        e.current_column as nat,
        e.terminal_cols as nat,
    ) + encode_utf8(e.menu_info@)
}

/// Appends the visible part of buffer row `i` to the screen buffer.
fn push_row(editor_state: &mut EditorState, i: usize)
    requires
        old(editor_state).terminal_cols >= 1,
    ensures
        final(editor_state).screen_buffer@ == old(editor_state).screen_buffer@ + row_text(
            old(editor_state).lines(),
            i as nat,
            old(editor_state).current_column as nat,
            old(editor_state).terminal_cols as nat,
        ),
        final(editor_state).file@ == old(editor_state).file@,
        final(editor_state).menu_info@ == old(editor_state).menu_info@,
        final(editor_state).cursor_x == old(editor_state).cursor_x,
        final(editor_state).cursor_y == old(editor_state).cursor_y,
        final(editor_state).current_column == old(editor_state).current_column,
        final(editor_state).current_row == old(editor_state).current_row,
        final(editor_state).rendered_x == old(editor_state).rendered_x,
        final(editor_state).filename@ == old(editor_state).filename@,
        final(editor_state).terminal_cols == old(editor_state).terminal_cols,
        final(editor_state).terminal_rows == old(editor_state).terminal_rows,
{
    let ghost lines = editor_state.lines();
    let ghost base = editor_state.screen_buffer@;
    let left = editor_state.current_column;
    let cols = editor_state.terminal_cols;
    if i < editor_state.file.len() {
        let e = expanded(&editor_state.file[i]);
        assert(e@ == expand_tabs(lines[i as int]));
        if left < e.len() {
            let mut end: usize = if e.len() - left > cols - 1 { left + (cols - 1) } else { e.len() };
            let ghost shown = e@.subrange(left as int, end as int);
            assert(shown == visible_part(e@, left as nat, cols as nat));
            while end > left && e[end - 1] == NEWLINE
                invariant
                    left <= end <= e@.len(),
                    trim_newlines(shown) == trim_newlines(e@.subrange(left as int, end as int)),
                decreases end,
            {
                assert(e@.subrange(left as int, end as int).drop_last() =~= e@.subrange(
                    left as int,
                    end - 1 as int,
                ));
                end = end - 1;
            }
            assert(trim_newlines(e@.subrange(left as int, end as int)) == e@.subrange(
                left as int,
                end as int,
            ));
            let mut j: usize = left;
            while j < end
                invariant
                    left <= j <= end <= e@.len(),
                    editor_state.screen_buffer@ == base + e@.subrange(left as int, j as int),
                    editor_state.file@ == old(editor_state).file@,
                    editor_state.menu_info@ == old(editor_state).menu_info@,
                    editor_state.cursor_x == old(editor_state).cursor_x,
                    editor_state.cursor_y == old(editor_state).cursor_y,
                    editor_state.current_column == old(editor_state).current_column,
                    editor_state.current_row == old(editor_state).current_row,
                    editor_state.rendered_x == old(editor_state).rendered_x,
                    editor_state.filename@ == old(editor_state).filename@,
                    editor_state.terminal_cols == old(editor_state).terminal_cols,
                    editor_state.terminal_rows == old(editor_state).terminal_rows,
                decreases end - j,
            {
                editor_state.screen_buffer.push(e[j]);
                j = j + 1;
                assert(editor_state.screen_buffer@ =~= base + e@.subrange(left as int, j as int));
            }
        } else {
            assert(trim_newlines(Seq::<u8>::empty()) == Seq::<u8>::empty());
            assert(base + Seq::<u8>::empty() =~= base);
        }
    } else {
        editor_state.screen_buffer.push(PAST_END_MARK);
        assert(editor_state.screen_buffer@ =~= base + seq![PAST_END_MARK]);
    }
}

/// Appends `bytes` to `buf`.
fn push_bytes(buf: &mut Vec<u8>, bytes: &[u8])
    ensures
        final(buf)@ == old(buf)@ + bytes@,
{
    let mut j: usize = 0;
    while j < bytes.len()
        invariant
            0 <= j <= bytes@.len(),
            buf@ == old(buf)@ + bytes@.subrange(0, j as int),
        decreases bytes@.len() - j,
    {
        buf.push(bytes[j]);
        j = j + 1;
        assert(buf@ =~= old(buf)@ + bytes@.subrange(0, j as int));
    }
    assert(bytes@.subrange(0, j as int) =~= bytes@);
}

/// Builds the frame for the current viewport into `screen_buffer` and
/// empties the status line.
pub fn fill_screen_buffer(editor_state: &mut EditorState)
    requires
        old(editor_state).terminal_rows >= 1,
        old(editor_state).terminal_cols >= 1,
        old(editor_state).current_row + old(editor_state).terminal_rows <= usize::MAX,
    ensures
        final(editor_state).screen_buffer@ == frame(old(editor_state)),
        final(editor_state).menu_info@.len() == 0,
        final(editor_state).doc() == old(editor_state).doc(),
        final(editor_state).current_column == old(editor_state).current_column,
        final(editor_state).current_row == old(editor_state).current_row,
        final(editor_state).rendered_x == old(editor_state).rendered_x,
        final(editor_state).filename@ == old(editor_state).filename@,
        final(editor_state).terminal_cols == old(editor_state).terminal_cols,
        final(editor_state).terminal_rows == old(editor_state).terminal_rows,
{
    let ghost lines = editor_state.lines();
    editor_state.screen_buffer = Vec::new();
    let top = editor_state.current_row;
    let end = top + (editor_state.terminal_rows - 1);
    let mut i: usize = top;
    while i < end
        invariant
            top <= i <= end,
            end == top + (old(editor_state).terminal_rows - 1),
            top == old(editor_state).current_row,
            old(editor_state).terminal_cols >= 1,
            editor_state.screen_buffer@ == frame_rows(
                lines,
                top as nat,
                (i - top) as nat,
                editor_state.current_column as nat,
                editor_state.terminal_cols as nat,
            ),
            editor_state.lines() == lines,
            lines == old(editor_state).lines(),
            editor_state.file@ == old(editor_state).file@,
            editor_state.menu_info@ == old(editor_state).menu_info@,
            editor_state.cursor_x == old(editor_state).cursor_x,
            editor_state.cursor_y == old(editor_state).cursor_y,
            editor_state.current_column == old(editor_state).current_column,
            editor_state.current_row == old(editor_state).current_row,
            editor_state.rendered_x == old(editor_state).rendered_x,
            editor_state.filename@ == old(editor_state).filename@,
            editor_state.terminal_cols == old(editor_state).terminal_cols,
            editor_state.terminal_rows == old(editor_state).terminal_rows,
        decreases end - i,
    {
        push_row(editor_state, i);
        editor_state.screen_buffer.push(NEWLINE);
        i = i + 1;
    }
    let bytes = editor_state.menu_info.as_str().as_bytes();
    push_bytes(&mut editor_state.screen_buffer, bytes);
    editor_state.menu_info = String::new();
}

} // verus!
