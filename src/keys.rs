use vstd::prelude::*;

verus! {

/// A logical key event decoded from the bytes the terminal delivered.
#[derive(Debug, PartialEq, Eq, Structural, Clone, Copy)]
pub enum Key {
    Backspace,
    Newline,
    Escape,
    CtrlS,
    CtrlQ,
    Char(char),
    UpArrow,
    DownArrow,
    LeftArrow,
    RightArrow,
}

pub const BYTE_BACKSPACE: u8 = 127;
pub const BYTE_NEWLINE: u8 = 10;
pub const BYTE_ESCAPE: u8 = 27;
pub const BYTE_CSI: u8 = 91;
pub const BYTE_CTRL_S: u8 = 19;
pub const BYTE_CTRL_Q: u8 = 17;

/// The key that a window of three bytes stands for, by prefix matching.
pub open spec fn key_of(b: Seq<u8>) -> Key
    recommends
        b.len() == 3,
{
    if b[0] == BYTE_ESCAPE && b[1] == BYTE_CSI && b[2] == 65u8 {
        Key::UpArrow
    } else if b[0] == BYTE_ESCAPE && b[1] == BYTE_CSI && b[2] == 66u8 {
        Key::DownArrow
    } else if b[0] == BYTE_ESCAPE && b[1] == BYTE_CSI && b[2] == 67u8 {
        Key::RightArrow
    } else if b[0] == BYTE_ESCAPE && b[1] == BYTE_CSI && b[2] == 68u8 {
        Key::LeftArrow
    } else if b[0] == BYTE_BACKSPACE {
        Key::Backspace
    } else if b[0] == BYTE_NEWLINE {
        Key::Newline
    } else if b[0] == BYTE_ESCAPE {
        Key::Escape
    } else if b[0] == BYTE_CTRL_S {
        Key::CtrlS
    } else if b[0] == BYTE_CTRL_Q {
        Key::CtrlQ
    } else {
        Key::Char(b[0] as char)
    }
}

/// Classifies a window of three bytes; bytes that were not read are zero.
pub fn decode_key(buffer: &[u8; 3]) -> (k: Key)
    ensures
        k == key_of(buffer@),
        k is Char ==> (k->Char_0 as u8) != BYTE_NEWLINE,
{
    let b0 = buffer[0];
    let b1 = buffer[1];
    let b2 = buffer[2];
    if b0 == BYTE_ESCAPE && b1 == BYTE_CSI && b2 == 65u8 {
        Key::UpArrow
    } else if b0 == BYTE_ESCAPE && b1 == BYTE_CSI && b2 == 66u8 {
        Key::DownArrow
    } else if b0 == BYTE_ESCAPE && b1 == BYTE_CSI && b2 == 67u8 {
        Key::RightArrow
    } else if b0 == BYTE_ESCAPE && b1 == BYTE_CSI && b2 == 68u8 {
        Key::LeftArrow
    } else if b0 == BYTE_BACKSPACE {
        Key::Backspace
    } else if b0 == BYTE_NEWLINE {
        Key::Newline
    } else if b0 == BYTE_ESCAPE {
        Key::Escape
    } else if b0 == BYTE_CTRL_S {
        Key::CtrlS
    } else if b0 == BYTE_CTRL_Q {
        Key::CtrlQ
    } else {
        Key::Char(b0 as char)
    }
}

/// The event for one read of up to three bytes into `buffer`: nothing when
/// no byte came, else the key those bytes stand for.
pub fn key_from_read(count: usize, buffer: &[u8; 3]) -> (k: Option<Key>)
    ensures
        count == 0 ==> k is None,
        count > 0 ==> k == Some(key_of(buffer@)),
{
    if count == 0 {
        None
    } else {
        Some(decode_key(buffer))
    }
}

} // verus!
