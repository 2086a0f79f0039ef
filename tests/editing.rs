use termedit::editor::{
    delete_character, empty_buffer, file_content, handle_key_presses, insert_character,
    insert_newline, move_cursor_down, move_cursor_left, move_cursor_right, move_cursor_up,
    split_lines, EditorState, KeyAction,
};
use termedit::keys::Key;

fn state_with(lines: &[&str]) -> EditorState {
    let file: Vec<Vec<u8>> = lines.iter().map(|l| l.as_bytes().to_vec()).collect();
    EditorState::new(file)
}

fn lines(state: &EditorState) -> Vec<String> {
    state.file.iter().map(|l| String::from_utf8(l.clone()).unwrap()).collect()
}

#[test]
fn typing_then_backspacing_restores_empty_line() {
    let mut state = EditorState::new(empty_buffer());
    for &b in b"hello" {
        insert_character(&mut state, b);
    }
    assert_eq!(lines(&state), vec!["hello"]);
    assert_eq!(state.cursor_x, 5);
    for _ in 0..5 {
        delete_character(&mut state);
    }
    assert_eq!(lines(&state), vec![""]);
    assert_eq!((state.cursor_x, state.cursor_y), (0, 0));
}

#[test]
fn typing_then_backspacing_mid_line_restores_line() {
    let mut state = state_with(&["abcd\n", "xy"]);
    state.cursor_x = 2;
    for &b in b"\tq" {
        insert_character(&mut state, b);
    }
    assert_eq!(lines(&state), vec!["ab\tqcd\n", "xy"]);
    delete_character(&mut state);
    delete_character(&mut state);
    assert_eq!(lines(&state), vec!["abcd\n", "xy"]);
    assert_eq!(state.cursor_x, 2);
}

#[test]
fn newline_then_backspace_rejoins_line() {
    for c in 0..=4usize {
        let mut state = state_with(&["abcd\n", "tail"]);
        state.cursor_x = c;
        insert_newline(&mut state);
        let expected_left = format!("{}\n", &"abcd\n"[..c]);
        assert_eq!(lines(&state), vec![expected_left.as_str(), &"abcd\n"[c..], "tail"]);
        assert_eq!((state.cursor_x, state.cursor_y), (0, 1));
        delete_character(&mut state);
        assert_eq!(lines(&state), vec!["abcd\n", "tail"]);
        assert_eq!((state.cursor_x, state.cursor_y), (c, 0));
    }
}

#[test]
fn newline_at_end_of_last_line() {
    let mut state = state_with(&["ab"]);
    state.cursor_x = 2;
    insert_newline(&mut state);
    assert_eq!(lines(&state), vec!["ab\n", ""]);
    assert_eq!((state.cursor_x, state.cursor_y), (0, 1));
}

#[test]
fn backspace_at_origin_does_nothing() {
    let mut state = state_with(&["ab\n", "c"]);
    assert_eq!(delete_character(&mut state), KeyAction::Continue);
    assert_eq!(lines(&state), vec!["ab\n", "c"]);
    assert_eq!((state.cursor_x, state.cursor_y), (0, 0));
}

#[test]
fn backspace_at_line_start_joins_with_previous() {
    let mut state = state_with(&["ab\n", "cd\n", "e"]);
    state.cursor_y = 1;
    delete_character(&mut state);
    assert_eq!(lines(&state), vec!["abcd\n", "e"]);
    assert_eq!((state.cursor_x, state.cursor_y), (2, 0));
}

#[test]
fn vertical_moves_clamp_column() {
    let mut state = state_with(&["abcdef\n", "ab\n", "\n", "", "xyz"]);
    state.cursor_x = 5;
    move_cursor_down(&mut state);
    assert_eq!((state.cursor_x, state.cursor_y), (2, 1));
    move_cursor_down(&mut state);
    assert_eq!((state.cursor_x, state.cursor_y), (0, 2));
    move_cursor_down(&mut state);
    assert_eq!((state.cursor_x, state.cursor_y), (0, 3));
    move_cursor_down(&mut state);
    assert_eq!((state.cursor_x, state.cursor_y), (0, 4));
    move_cursor_down(&mut state);
    assert_eq!((state.cursor_x, state.cursor_y), (0, 4));
    state.cursor_x = 3;
    move_cursor_up(&mut state);
    assert_eq!((state.cursor_x, state.cursor_y), (0, 3));
    state.cursor_y = 1;
    state.cursor_x = 1;
    move_cursor_up(&mut state);
    assert_eq!((state.cursor_x, state.cursor_y), (1, 0));
    move_cursor_up(&mut state);
    assert_eq!((state.cursor_x, state.cursor_y), (1, 0));
}

#[test]
fn horizontal_moves_stop_at_line_edges() {
    let mut state = state_with(&["abc\n", "de"]);
    move_cursor_left(&mut state);
    assert_eq!(state.cursor_x, 0);
    for _ in 0..10 {
        move_cursor_right(&mut state);
    }
    assert_eq!((state.cursor_x, state.cursor_y), (3, 0));
    move_cursor_left(&mut state);
    assert_eq!(state.cursor_x, 2);
}

#[test]
fn cursor_stays_in_bounds_over_many_moves() {
    let mut state = state_with(&["short\n", "\n", "a much longer line\n", "", "x\ty"]);
    let keys = [
        Key::DownArrow,
        Key::RightArrow,
        Key::DownArrow,
        Key::RightArrow,
        Key::RightArrow,
        Key::RightArrow,
        Key::RightArrow,
        Key::DownArrow,
        Key::DownArrow,
        Key::DownArrow,
        Key::UpArrow,
        Key::LeftArrow,
        Key::UpArrow,
        Key::UpArrow,
        Key::RightArrow,
        Key::UpArrow,
        Key::UpArrow,
    ];
    for _ in 0..3 {
        for key in keys.iter() {
            handle_key_presses(key, &mut state);
            assert!(state.cursor_y < state.file.len());
            assert!(state.cursor_x <= state.file[state.cursor_y].len());
        }
    }
}

#[test]
fn keys_dispatch_to_edits_and_actions() {
    let mut state = EditorState::new(empty_buffer());
    assert_eq!(handle_key_presses(&Key::Char('h'), &mut state), KeyAction::Continue);
    assert_eq!(handle_key_presses(&Key::Newline, &mut state), KeyAction::Continue);
    assert_eq!(handle_key_presses(&Key::Escape, &mut state), KeyAction::Continue);
    assert_eq!(handle_key_presses(&Key::CtrlS, &mut state), KeyAction::Save);
    assert_eq!(handle_key_presses(&Key::CtrlQ, &mut state), KeyAction::Exit);
    assert_eq!(lines(&state), vec!["h\n", ""]);
    assert_eq!(handle_key_presses(&Key::Backspace, &mut state), KeyAction::Continue);
    assert_eq!(lines(&state), vec!["h"]);
}

#[test]
fn loading_splits_after_each_newline() {
    let file = split_lines(b"abc\ndef");
    assert_eq!(file, vec![b"abc\n".to_vec(), b"def".to_vec()]);
    let file = split_lines(b"abc\n\nx\n");
    assert_eq!(file, vec![b"abc\n".to_vec(), b"\n".to_vec(), b"x\n".to_vec()]);
    let file = split_lines(b"");
    assert_eq!(file, vec![Vec::<u8>::new()]);
}

#[test]
fn saving_concatenates_lines() {
    let file = vec![b"abc\n".to_vec(), b"def".to_vec()];
    assert_eq!(file_content(&file), b"abc\ndef".to_vec());
    assert_eq!(file_content(&split_lines(b"a\n\tb\n\n")), b"a\n\tb\n\n".to_vec());
}
