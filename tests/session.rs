use termedit::editor::{empty_buffer, file_content, handle_key_presses, EditorState, KeyAction};
use termedit::keys::{decode_key, key_from_read, Key};
use termedit::session::{
    get_user_command, record_save_result, set_save_name, start_user_command, PromptStep,
    SAVE_AS_PROMPT,
};

#[test]
fn bytes_decode_to_keys() {
    assert_eq!(decode_key(&[27, 91, 65]), Key::UpArrow);
    assert_eq!(decode_key(&[27, 91, 66]), Key::DownArrow);
    assert_eq!(decode_key(&[27, 91, 67]), Key::RightArrow);
    assert_eq!(decode_key(&[27, 91, 68]), Key::LeftArrow);
    assert_eq!(decode_key(&[127, 0, 0]), Key::Backspace);
    assert_eq!(decode_key(&[10, 0, 0]), Key::Newline);
    assert_eq!(decode_key(&[27, 0, 0]), Key::Escape);
    assert_eq!(decode_key(&[27, 91, 69]), Key::Escape);
    assert_eq!(decode_key(&[19, 0, 0]), Key::CtrlS);
    assert_eq!(decode_key(&[17, 0, 0]), Key::CtrlQ);
    assert_eq!(decode_key(&[b'x', b'y', 0]), Key::Char('x'));
    assert_eq!(key_from_read(0, &[b'x', 0, 0]), None);
    assert_eq!(key_from_read(1, &[b'x', 0, 0]), Some(Key::Char('x')));
}

#[test]
fn prompt_edits_input_and_shows_it() {
    let mut state = EditorState::new(empty_buffer());
    let prompt = SAVE_AS_PROMPT.to_string();
    let mut command = String::new();
    start_user_command(&mut state, &prompt);
    assert_eq!(state.menu_info, "Save As: ");
    assert_eq!(get_user_command(&mut state, &prompt, &mut command, &Key::Char('a')), PromptStep::Edited);
    assert_eq!(get_user_command(&mut state, &prompt, &mut command, &Key::Char('b')), PromptStep::Edited);
    assert_eq!(command, "ab");
    assert_eq!(state.menu_info, "Save As: ab");
    assert_eq!(get_user_command(&mut state, &prompt, &mut command, &Key::Backspace), PromptStep::Edited);
    assert_eq!(command, "a");
    assert_eq!(state.menu_info, "Save As: a");
    assert_eq!(get_user_command(&mut state, &prompt, &mut command, &Key::UpArrow), PromptStep::Ignored);
    assert_eq!(get_user_command(&mut state, &prompt, &mut command, &Key::Escape), PromptStep::Cancelled);
    assert_eq!(command, "a");
    let mut empty = String::new();
    assert_eq!(get_user_command(&mut state, &prompt, &mut empty, &Key::Backspace), PromptStep::Edited);
    assert_eq!(empty, "");
}

#[test]
fn save_outcome_reaches_status_line() {
    let mut state = EditorState::new(empty_buffer());
    assert!(state.needs_filename());
    assert!(!set_save_name(&mut state, String::new()));
    assert!(set_save_name(&mut state, "notes.txt".to_string()));
    assert!(!state.needs_filename());
    record_save_result(&mut state, true);
    assert_eq!(state.menu_info, "Saved file: notes.txt");
    assert_eq!(state.filename, "notes.txt");
    record_save_result(&mut state, false);
    assert_eq!(state.menu_info, "Invalid filename or directory: notes.txt");
    assert_eq!(state.filename, "");
    assert!(state.needs_filename());
}

#[test]
fn type_newline_type_and_save_through_prompt() {
    let mut state = EditorState::new(empty_buffer());
    let mut keys: Vec<Key> = "hi".chars().map(Key::Char).collect();
    keys.push(Key::Newline);
    keys.extend("there".chars().map(Key::Char));
    for key in keys.iter() {
        assert_eq!(handle_key_presses(key, &mut state), KeyAction::Continue);
    }
    assert_eq!(handle_key_presses(&Key::CtrlS, &mut state), KeyAction::Save);
    assert!(state.needs_filename());
    let prompt = SAVE_AS_PROMPT.to_string();
    let mut command = String::new();
    start_user_command(&mut state, &prompt);
    for ch in "out.txt".chars() {
        get_user_command(&mut state, &prompt, &mut command, &Key::Char(ch));
    }
    assert_eq!(get_user_command(&mut state, &prompt, &mut command, &Key::Newline), PromptStep::Done);
    assert!(set_save_name(&mut state, command));
    assert_eq!(state.filename, "out.txt");
    assert_eq!(file_content(&state.file), b"hi\nthere".to_vec());
    record_save_result(&mut state, true);
    assert_eq!(state.menu_info, "Saved file: out.txt");
}
