//! The commands that the renderer asks of a terminal.

use vstd::prelude::*;
use crate::tui::style::Color;

verus! {

/// A text attribute that a terminal can be told to switch on or off.
#[derive(Debug, Clone, Copy, PartialEq, Eq, Structural)]
pub enum Attribute {
    Bold,
    Dim,
    Italic,
    Underlined,
    SlowBlink,
    RapidBlink,
    Reverse,
    Hidden,
    CrossedOut,
    /// Neither bold nor dim.
    NormalIntensity,
    NoItalic,
    NoUnderline,
    NoBlink,
    NoReverse,
    NoHidden,
    NotCrossedOut,
}

/// One thing to ask of the terminal.
#[derive(Debug, Clone, Copy, PartialEq, Eq, Structural)]
pub enum Command {
    /// Move the cursor to the given column and row.
    MoveTo(u16, u16),
    /// Print what follows in this color.
    SetForegroundColor(Color),
    /// Print what follows on this color.
    SetBackgroundColor(Color),
    /// Switch a text attribute on or off.
    SetAttribute(Attribute),
    /// Print a character where the cursor is, which moves the cursor one
    /// column to the right.
    Print(char),
}

/// The sequence of `c` alone if `b` holds, and the empty sequence if not.
pub open spec fn only_if(b: bool, c: Command) -> Seq<Command> {
    if b {
        seq![c]
    } else {
        Seq::empty()
    }
}

/// Appends `c` to `commands` if `b` holds.
pub fn push_if(commands: &mut Vec<Command>, b: bool, c: Command)
    ensures
        final(commands)@ == old(commands)@ + only_if(b, c),
{
    if b {
        commands.push(c);
    }
}

} // verus!
