use termedit::editor::{empty_buffer, EditorState};
use termedit::session::prepare_frame;
use termedit::view::{fill_screen_buffer, get_render_cursor_x, replace_tabs_with_spaces, scroll_screen};

fn state_with(lines: &[&str]) -> EditorState {
    let file: Vec<Vec<u8>> = lines.iter().map(|l| l.as_bytes().to_vec()).collect();
    EditorState::new(file)
}

#[test]
fn tab_advances_rendered_column_to_next_stop() {
    let mut state = state_with(&["a\tb"]);
    state.cursor_x = 2;
    get_render_cursor_x(&mut state);
    assert_eq!(state.rendered_x, 4);
    state.cursor_x = 3;
    get_render_cursor_x(&mut state);
    assert_eq!(state.rendered_x, 5);
    state.cursor_x = 0;
    get_render_cursor_x(&mut state);
    assert_eq!(state.rendered_x, 0);
}

#[test]
fn tabs_expand_to_tab_stops() {
    let mut line = b"\tab\tcdef\tg".to_vec();
    replace_tabs_with_spaces(&mut line);
    assert_eq!(line, b"    ab  cdef    g".to_vec());
    let mut plain = b"no tabs".to_vec();
    replace_tabs_with_spaces(&mut plain);
    assert_eq!(plain, b"no tabs".to_vec());
}

#[test]
fn vertical_scroll_follows_cursor_down_and_up() {
    let file: Vec<Vec<u8>> = (0..20).map(|i| format!("line {}\n", i).into_bytes()).collect();
    let mut state = EditorState::new(file);
    state.terminal_rows = 10;
    state.terminal_cols = 80;
    for row in 0..=15usize {
        state.cursor_y = row;
        scroll_screen(&mut state);
        if row < 9 {
            assert_eq!(state.current_row, 0);
        } else {
            assert_eq!(state.current_row, row - 8);
        }
    }
    assert_eq!(state.current_row, 7);
    state.cursor_y = 3;
    scroll_screen(&mut state);
    assert_eq!(state.current_row, 3);
}

#[test]
fn horizontal_scroll_follows_cursor() {
    let mut state = state_with(&["0123456789abcdefghij\n"]);
    state.terminal_rows = 5;
    state.terminal_cols = 8;
    state.cursor_x = 10;
    scroll_screen(&mut state);
    assert_eq!(state.current_column, 3);
    state.cursor_x = 1;
    scroll_screen(&mut state);
    assert_eq!(state.current_column, 1);
}

#[test]
fn frame_shows_rows_placeholders_and_status() {
    let mut state = state_with(&["a\tb\n", "hello world\n"]);
    state.terminal_rows = 4;
    state.terminal_cols = 6;
    state.menu_info = "status".to_string();
    fill_screen_buffer(&mut state);
    assert_eq!(String::from_utf8(state.screen_buffer.clone()).unwrap(), "a   b\nhello\n~\nstatus");
    assert_eq!(state.menu_info, "");
}

#[test]
fn frame_clips_from_left_column() {
    let mut state = state_with(&["abcdefgh\n", "ab\n"]);
    state.terminal_rows = 3;
    state.terminal_cols = 4;
    state.current_column = 3;
    fill_screen_buffer(&mut state);
    assert_eq!(String::from_utf8(state.screen_buffer.clone()).unwrap(), "def\n\n");
}

#[test]
fn prepared_frame_places_cursor() {
    let mut state = state_with(&["\tx\n", "y"]);
    state.cursor_x = 1;
    let pos = prepare_frame(&mut state, 5, 20);
    assert_eq!(pos, (1, 5));
    assert_eq!(String::from_utf8(state.screen_buffer.clone()).unwrap(), "    x\ny\n~\n~\n");
    let mut empty = EditorState::new(empty_buffer());
    assert_eq!(prepare_frame(&mut empty, 2, 2), (1, 1));
}
