//! What the pager hands to the terminal and what it reads from it: colors,
//! keys, and the commands that draw a frame.
use vstd::prelude::*;

verus! {

/// Terminal colors.
#[derive(Clone, Copy, Debug, PartialEq, Eq, Structural)]
pub enum Color {
    Reset,
    Black,
    DarkGrey,
    Red,
    DarkRed,
    Green,
    DarkGreen,
    Yellow,
    DarkYellow,
    Blue,
    DarkBlue,
    Magenta,
    DarkMagenta,
    Cyan,
    DarkCyan,
    White,
    Grey,
    Rgb { r: u8, g: u8, b: u8 },
    AnsiValue(u8),
}

/// A key that was pressed.
#[derive(Clone, Copy, Debug, PartialEq, Eq, Structural)]
pub enum Key {
    Char(char),
    Enter,
    Esc,
    Backspace,
    Up,
    Down,
    Left,
    Right,
    /// Any other key; no binding uses it.
    Other,
}

/// One instruction to the terminal.
#[derive(Debug, PartialEq, Eq)]
pub enum TermCommand {
    MoveTo(usize, usize),
    SetForeground(Color),
    SetBackground(Color),
    ResetAttributes,
    ClearAll,
    ClearLine,
    Print(String),
    Flush,
    CopyToClipboard(String),
}

/// A terminal instruction with its text taken as characters.
pub enum TermOp {
    MoveTo(usize, usize),
    SetForeground(Color),
    SetBackground(Color),
    ResetAttributes,
    ClearAll,
    ClearLine,
    Print(Seq<char>),
    Flush,
    CopyToClipboard(Seq<char>),
}

impl View for TermCommand {
    type V = TermOp;

    open spec fn view(&self) -> TermOp {
        match self {
            TermCommand::MoveTo(x, y) => TermOp::MoveTo(*x, *y),
            TermCommand::SetForeground(c) => TermOp::SetForeground(*c),
            TermCommand::SetBackground(c) => TermOp::SetBackground(*c),
            TermCommand::ResetAttributes => TermOp::ResetAttributes,
            TermCommand::ClearAll => TermOp::ClearAll,
            TermCommand::ClearLine => TermOp::ClearLine,
            TermCommand::Print(s) => TermOp::Print(s@),
            TermCommand::Flush => TermOp::Flush,
            TermCommand::CopyToClipboard(s) => TermOp::CopyToClipboard(s@),
        }
    }
}

/// The instructions of a command list.
pub open spec fn ops(cmds: Seq<TermCommand>) -> Seq<TermOp> {
    cmds.map_values(|c: TermCommand| c@)
}

/// Appends one command to the output.
pub fn emit(out: &mut Vec<TermCommand>, c: TermCommand)
    ensures
        ops(final(out)@) == ops(old(out)@).push(c@),
{
    let ghost c_view = c@;
    out.push(c);
    assert(ops(out@) =~= ops(old(out)@).push(c_view));
}

/// Appends a `Print` of `s`.
pub fn emit_print(out: &mut Vec<TermCommand>, s: String)
    ensures
        ops(final(out)@) == ops(old(out)@).push(TermOp::Print(s@)),
{
    emit(out, TermCommand::Print(s));
}

} // verus!
