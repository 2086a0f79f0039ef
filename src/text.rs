use vstd::prelude::*;

verus! {

pub const NEWLINE: u8 = 10;

/// The buffer and cursor as mathematical values: lines of bytes, a column
/// and a row.
pub struct Doc {
    pub lines: Seq<Seq<u8>>,
    pub col: nat,
    pub row: nat,
}

/// The buffer holds a line, the row names one of them and the column lies
/// within that line.
pub open spec fn doc_wf(d: Doc) -> bool {
    &&& d.lines.len() >= 1
    &&& d.row < d.lines.len()
    &&& d.col <= d.lines[d.row as int].len()
}

/// `max(0, n - 1)`.
pub open spec fn dec_floor(n: nat) -> nat {
    if n == 0 { 0 } else { (n - 1) as nat }
}

/// The column kept when the cursor lands on a line of length `target`.
pub open spec fn clamp_col(col: nat, target: nat) -> nat {
    if col < target { col } else { dec_floor(target) }
}

pub open spec fn doc_insert_char(d: Doc, ch: u8) -> Doc {
    Doc {
        lines: d.lines.update(d.row as int, d.lines[d.row as int].insert(d.col as int, ch)),
        col: d.col + 1,
        row: d.row,
    }
}

pub open spec fn doc_insert_newline(d: Doc) -> Doc {
    let line = d.lines[d.row as int];
    let left = line.subrange(0, d.col as int).push(NEWLINE);
    let right = line.subrange(d.col as int, line.len() as int);
    Doc { lines: d.lines.update(d.row as int, left).insert(d.row + 1 as int, right), col: 0, row: d.row + 1 }
}

/// The previous line without its last byte, if it has one.
pub open spec fn drop_last_byte(s: Seq<u8>) -> Seq<u8> {
    if s.len() == 0 { s } else { s.drop_last() }
}

pub open spec fn doc_delete(d: Doc) -> Doc {
    if d.col > 0 {
        Doc {
            lines: d.lines.update(d.row as int, d.lines[d.row as int].remove(d.col - 1)),
            col: (d.col - 1) as nat,
            row: d.row,
        }
    } else if d.row > 0 {
        let prev = drop_last_byte(d.lines[d.row - 1]);
        Doc {
            lines: d.lines.update(d.row - 1, prev + d.lines[d.row as int]).remove(d.row as int),
            col: prev.len(),
            row: (d.row - 1) as nat,
        }
    } else {
        d
    }
}

pub open spec fn doc_move_up(d: Doc) -> Doc {
    if d.row > 0 {
        Doc {
            lines: d.lines,
            col: clamp_col(d.col, d.lines[d.row - 1].len()),
            row: (d.row - 1) as nat,
        }
    } else {
        d
    }
}

pub open spec fn doc_move_down(d: Doc) -> Doc {
    if d.row + 1 < d.lines.len() {
        Doc { lines: d.lines, col: clamp_col(d.col, d.lines[d.row + 1 as int].len()), row: d.row + 1 }
    } else {
        d
    }
}

pub open spec fn doc_move_left(d: Doc) -> Doc {
    if d.col != 0 {
        Doc { lines: d.lines, col: (d.col - 1) as nat, row: d.row }
    } else {
        d
    }
}

pub open spec fn doc_move_right(d: Doc) -> Doc {
    if d.col + 1 < d.lines[d.row as int].len() {
        Doc { lines: d.lines, col: d.col + 1, row: d.row }
    } else {
        d
    }
}

/// Types the bytes of `s` one after another.
pub open spec fn doc_insert_all(d: Doc, s: Seq<u8>) -> Doc
    decreases s.len(),
{
    if s.len() == 0 {
        d
    } else {
        doc_insert_char(doc_insert_all(d, s.drop_last()), s.last())
    }
}

/// Presses backspace `n` times.
pub open spec fn doc_delete_n(d: Doc, n: nat) -> Doc
    decreases n,
{
    if n == 0 {
        d
    } else {
        doc_delete_n(doc_delete(d), (n - 1) as nat)
    }
}

pub proof fn lemma_insert_char_wf(d: Doc, ch: u8)
    requires
        doc_wf(d),
    ensures
        doc_wf(doc_insert_char(d, ch)),
{
}

/// Typing a byte and then pressing backspace gives back the buffer and
/// cursor as they were.
pub proof fn lemma_delete_undoes_insert(d: Doc, ch: u8)
    requires
        doc_wf(d),
    ensures
        doc_delete(doc_insert_char(d, ch)) == d,
{
    let line = d.lines[d.row as int];
    let typed = doc_insert_char(d, ch);
    assert(typed.lines[d.row as int] == line.insert(d.col as int, ch));
    assert(line.insert(d.col as int, ch).remove(d.col as int) =~= line);
    assert(typed.lines.update(d.row as int, line) =~= d.lines);
    assert(doc_delete(typed).lines =~= d.lines);
}

/// Typing any run of bytes and then pressing backspace as many times
/// restores the buffer and the cursor exactly.
pub proof fn lemma_insert_then_delete_restores(d: Doc, s: Seq<u8>)
    requires
        doc_wf(d),
    ensures
        doc_wf(doc_insert_all(d, s)),
        doc_delete_n(doc_insert_all(d, s), s.len()) == d,
    decreases s.len(),
{
    if s.len() > 0 {
        let prefix = s.drop_last();
        lemma_insert_then_delete_restores(d, prefix);
        let mid = doc_insert_all(d, prefix);
        lemma_insert_char_wf(mid, s.last());
        lemma_delete_undoes_insert(mid, s.last());
        assert(doc_delete_n(doc_insert_all(d, s), s.len()) == doc_delete_n(
            doc_delete(doc_insert_char(mid, s.last())),
            prefix.len(),
        ));
    }
}

/// Splitting a line with a newline and pressing backspace at the start of
/// the new line joins the two halves back into the line that was split.
pub proof fn lemma_split_join_round_trip(d: Doc)
    requires
        doc_wf(d),
    ensures
        doc_wf(doc_insert_newline(d)),
        doc_delete(doc_insert_newline(d)) == d,
{
    let line = d.lines[d.row as int];
    let left = line.subrange(0, d.col as int);
    let right = line.subrange(d.col as int, line.len() as int);
    assert(drop_last_byte(left.push(NEWLINE)) =~= left);
    assert(left + right =~= line);
    let split = doc_insert_newline(d).lines;
    assert(split.update(d.row as int, line).remove(d.row + 1 as int) =~= d.lines);
}

/// Each cursor move keeps the row inside the buffer and the column inside
/// its line.
pub proof fn lemma_moves_keep_cursor_in_bounds(d: Doc)
    requires
        doc_wf(d),
    ensures
        doc_wf(doc_move_up(d)),
        doc_wf(doc_move_down(d)),
        doc_wf(doc_move_left(d)),
        doc_wf(doc_move_right(d)),
{
}

/// The bytes of a buffer: its lines one after another.
pub open spec fn join_lines(lines: Seq<Seq<u8>>) -> Seq<u8>
    decreases lines.len(),
{
    if lines.len() == 0 {
        Seq::empty()
    } else {
        join_lines(lines.drop_last()) + lines.last()
    }
}

/// No newline byte in `s` but possibly its last one.
pub open spec fn newline_only_at_end(s: Seq<u8>) -> bool {
    forall|j: int| 0 <= j < s.len() - 1 ==> s[j] != NEWLINE
}

/// The shape of a buffer read from a file: at least one line; every line but
/// the last ends with its newline byte; no line holds another newline; and
/// the last line is empty only when it is the only one.
pub open spec fn is_line_split(lines: Seq<Seq<u8>>) -> bool {
    &&& lines.len() >= 1
    &&& forall|i: int| 0 <= i < lines.len() ==> newline_only_at_end(#[trigger] lines[i])
    &&& forall|i: int|
        0 <= i < lines.len() - 1 ==> (#[trigger] lines[i]).len() > 0 && lines[i].last() == NEWLINE
    &&& lines.len() > 1 ==> lines.last().len() > 0
}

/// The buffer's shape while editing: no line holds a newline byte but as
/// its last byte, every line but the last ends with one, and the cursor
/// never sits after a line's newline.
pub open spec fn doc_lines_wf(d: Doc) -> bool {
    &&& doc_wf(d)
    &&& forall|i: int| 0 <= i < d.lines.len() ==> newline_only_at_end(#[trigger] d.lines[i])
    &&& forall|i: int|
        0 <= i < d.lines.len() - 1 ==> (#[trigger] d.lines[i]).len() > 0 && d.lines[i].last()
            == NEWLINE
    &&& (d.lines[d.row as int].len() > 0 && d.lines[d.row as int].last() == NEWLINE) ==> d.col
        < d.lines[d.row as int].len()
}

pub proof fn lemma_insert_char_lines_wf(d: Doc, ch: u8)
    requires
        doc_lines_wf(d),
        ch != NEWLINE,
    ensures
        doc_lines_wf(doc_insert_char(d, ch)),
{
    let r = doc_insert_char(d, ch);
    let line = d.lines[d.row as int];
    let new_line = line.insert(d.col as int, ch);
    assert forall|j: int| 0 <= j < new_line.len() - 1 implies new_line[j] != NEWLINE by {
        if j > d.col {
            assert(new_line[j] == line[j - 1]);
        } else if j < d.col {
            assert(new_line[j] == line[j]);
        }
    }
    if line.len() > 0 && line.last() == NEWLINE {
        assert(new_line.last() == line.last());
    }
    assert forall|i: int| 0 <= i < r.lines.len() implies newline_only_at_end(#[trigger] r.lines[i]) by {
        if i != d.row {
            assert(r.lines[i] == d.lines[i]);
        }
    }
    assert forall|i: int| 0 <= i < r.lines.len() - 1 implies (#[trigger] r.lines[i]).len() > 0
        && r.lines[i].last() == NEWLINE by {
        if i != d.row {
            assert(r.lines[i] == d.lines[i]);
        } else {
            assert(new_line.last() == line.last());
        }
    }
}

pub proof fn lemma_insert_newline_lines_wf(d: Doc)
    requires
        doc_lines_wf(d),
    ensures
        doc_lines_wf(doc_insert_newline(d)),
{
    let r = doc_insert_newline(d);
    let row = d.row as int;
    let line = d.lines[row];
    let left = line.subrange(0, d.col as int).push(NEWLINE);
    let right = line.subrange(d.col as int, line.len() as int);
    assert(r.lines[row] == left);
    assert(r.lines[row + 1] == right);
    assert forall|i: int| 0 <= i < r.lines.len() implies newline_only_at_end(#[trigger] r.lines[i]) by {
        if i < row {
            assert(r.lines[i] == d.lines[i]);
        } else if i > row + 1 {
            assert(r.lines[i] == d.lines[i - 1]);
        } else if i == row {
            assert forall|j: int| 0 <= j < left.len() - 1 implies left[j] != NEWLINE by {
                assert(left[j] == line[j]);
            }
        } else {
            assert forall|j: int| 0 <= j < right.len() - 1 implies right[j] != NEWLINE by {
                assert(right[j] == line[j + d.col]);
            }
        }
    }
    assert forall|i: int| 0 <= i < r.lines.len() - 1 implies (#[trigger] r.lines[i]).len() > 0
        && r.lines[i].last() == NEWLINE by {
        if i < row {
            assert(r.lines[i] == d.lines[i]);
        } else if i > row + 1 {
            assert(r.lines[i] == d.lines[i - 1]);
        } else if i == row + 1 {
            assert(row < d.lines.len() - 1);
            assert(right.last() == line.last());
        }
    }
}

pub proof fn lemma_delete_lines_wf(d: Doc)
    requires
        doc_lines_wf(d),
    ensures
        doc_lines_wf(doc_delete(d)),
{
    let r = doc_delete(d);
    let row = d.row as int;
    let line = d.lines[row];
    if d.col > 0 {
        let new_line = line.remove(d.col - 1);
        assert(r.lines[row] == new_line);
        assert forall|j: int| 0 <= j < new_line.len() - 1 implies new_line[j] != NEWLINE by {
            if j >= d.col - 1 {
                assert(new_line[j] == line[j + 1]);
            } else {
                assert(new_line[j] == line[j]);
            }
        }
        if line.len() > 0 && line.last() == NEWLINE {
            assert(new_line.last() == line.last());
        }
        if new_line.len() > 0 && new_line.last() == NEWLINE {
            assert(new_line.last() == line.last());
        }
        assert forall|i: int| 0 <= i < r.lines.len() implies newline_only_at_end(#[trigger] r.lines[i]) by {
            if i != row {
                assert(r.lines[i] == d.lines[i]);
            }
        }
        assert forall|i: int| 0 <= i < r.lines.len() - 1 implies (#[trigger] r.lines[i]).len() > 0
            && r.lines[i].last() == NEWLINE by {
            if i != row {
                assert(r.lines[i] == d.lines[i]);
            } else {
                assert(new_line.last() == line.last());
            }
        }
    } else if d.row > 0 {
        let prev = drop_last_byte(d.lines[row - 1]);
        let joined = prev + line;
        assert(r.lines[row - 1] == joined);
        assert(d.lines[row - 1].len() > 0 && d.lines[row - 1].last() == NEWLINE);
        assert forall|j: int| 0 <= j < joined.len() - 1 implies joined[j] != NEWLINE by {
            if j < prev.len() {
                assert(joined[j] == d.lines[row - 1][j]);
            } else {
                assert(joined[j] == line[j - prev.len()]);
            }
        }
        assert forall|i: int| 0 <= i < r.lines.len() implies newline_only_at_end(#[trigger] r.lines[i]) by {
            if i < row - 1 {
                assert(r.lines[i] == d.lines[i]);
            } else if i >= row {
                assert(r.lines[i] == d.lines[i + 1]);
            }
        }
        assert forall|i: int| 0 <= i < r.lines.len() - 1 implies (#[trigger] r.lines[i]).len() > 0
            && r.lines[i].last() == NEWLINE by {
            if i < row - 1 {
                assert(r.lines[i] == d.lines[i]);
            } else if i >= row {
                assert(r.lines[i] == d.lines[i + 1]);
            } else {
                assert(row < d.lines.len() - 1);
                assert(joined.last() == line.last());
            }
        }
        if joined.len() > 0 && joined.last() == NEWLINE && line.len() == 0 {
            assert(joined.last() == d.lines[row - 1][prev.len() - 1]);
        }
    }
}

pub proof fn lemma_moves_lines_wf(d: Doc)
    requires
        doc_lines_wf(d),
    ensures
        doc_lines_wf(doc_move_up(d)),
        doc_lines_wf(doc_move_down(d)),
        doc_lines_wf(doc_move_left(d)),
        doc_lines_wf(doc_move_right(d)),
{
}

} // verus!
