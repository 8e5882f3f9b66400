//! Keys for selecting and copying code blocks in the document: what a key
//! asks for while a block is selected, and which keys start a selection.
use vstd::prelude::*;
use crate::diagram_keys::KeyCode;

verus! {

/// What a key asks for while a code block is selected.
#[derive(Clone, Copy, Debug, PartialEq, Eq, Structural)]
pub enum CodeSelectCommand {
    /// Leave selection mode.
    Exit,
    /// Copy the selected block.
    Copy,
    /// Select the next block.
    Next,
    /// Select the previous block.
    Prev,
}

/// What a key asks for outside selection mode, if anything.
#[derive(Clone, Copy, Debug, PartialEq, Eq, Structural)]
pub enum CodeEntryCommand {
    /// Copy the first code block in view at once.
    CopyFirstVisible,
    /// Start selecting code blocks.
    EnterSelect,
}

/// Ctrl-C and Esc leave, Ctrl-Y and Enter copy, `c`/`y` move forward and
/// `C`/`Y` back; other keys are not handled.
pub open spec fn code_select_spec(key: KeyCode, ctrl: bool) -> Option<CodeSelectCommand> {
    match key {
        KeyCode::Char(c) => if ctrl && c == 'c' {
            Some(CodeSelectCommand::Exit)
        } else if ctrl && c == 'y' {
            Some(CodeSelectCommand::Copy)
        } else if !ctrl && (c == 'c' || c == 'y') {
            Some(CodeSelectCommand::Next)
        } else if c == 'C' || c == 'Y' {
            Some(CodeSelectCommand::Prev)
        } else {
            None
        },
        KeyCode::Enter => Some(CodeSelectCommand::Copy),
        KeyCode::Esc => Some(CodeSelectCommand::Exit),
        _ => None,
    }
}

/// Ctrl-Y copies the first visible block; `c`, `y`, `C` or `Y` without
/// Ctrl start a selection; other keys are not handled.
pub open spec fn code_entry_spec(key: KeyCode, ctrl: bool) -> Option<CodeEntryCommand> {
    match key {
        KeyCode::Char(c) => if ctrl && c == 'y' {
            Some(CodeEntryCommand::CopyFirstVisible)
        } else if !ctrl && (c == 'c' || c == 'y' || c == 'C' || c == 'Y') {
            Some(CodeEntryCommand::EnterSelect)
        } else {
            None
        },
        _ => None,
    }
}

/// The command of a key while a code block is selected.
pub fn code_select_command(key: KeyCode, ctrl: bool) -> (r: Option<CodeSelectCommand>)
    ensures
        r == code_select_spec(key, ctrl),
{
    match key {
        KeyCode::Char(c) => if ctrl && c == 'c' {
            Some(CodeSelectCommand::Exit)
        } else if ctrl && c == 'y' {
            Some(CodeSelectCommand::Copy)
        } else if !ctrl && (c == 'c' || c == 'y') {
            Some(CodeSelectCommand::Next)
        } else if c == 'C' || c == 'Y' {
            Some(CodeSelectCommand::Prev)
        } else {
            None
        },
        KeyCode::Enter => Some(CodeSelectCommand::Copy),
        KeyCode::Esc => Some(CodeSelectCommand::Exit),
        _ => None,
    }
}

/// The command of a key that may start selecting code blocks.
pub fn code_entry_command(key: KeyCode, ctrl: bool) -> (r: Option<CodeEntryCommand>)
    ensures
        r == code_entry_spec(key, ctrl),
{
    match key {
        KeyCode::Char(c) => if ctrl && c == 'y' {
            Some(CodeEntryCommand::CopyFirstVisible)
        } else if !ctrl && (c == 'c' || c == 'y' || c == 'C' || c == 'Y') {
            Some(CodeEntryCommand::EnterSelect)
        } else {
            None
        },
        _ => None,
    }
}

} // verus!
