//! The vocabulary components use to talk to each other: everything
//! keybindable, loggable, or crossing component boundaries is a `Command`.
use vstd::prelude::*;
use crate::puzzle::{Rotation, Twist};

verus! {

/// Who issued a command. Decides policy downstream: whether a twist animates
/// and whether it is recorded in the undo history.
#[derive(Debug, Clone, Copy, PartialEq, Eq, Structural)]
pub enum Origin {
    User,
    Undo,
    Redo,
}

/// Component-local settings (sliders, checkboxes) mutate their component
/// directly instead of going through a command.
#[derive(Debug, Clone, Copy, PartialEq, Eq, Structural)]
pub enum Command {
    /// A twist, always in puzzle space. Keybinds are absolute (F is always
    /// `Side::F`); looking around with the mouse never changes what a key
    /// means. Only `Align` re-bases the state onto the view.
    Twist { twist: Twist, origin: Origin },
    /// Rotate the whole puzzle state (every piece), animated through the
    /// twist queue like a twist of all layers; undoable.
    Rotate { rotation: Rotation, origin: Origin },
    /// Make the puzzle state agree with the view: the state is rotated by
    /// the axis-aligned part of the view orientation, and the view snaps to
    /// its home orientation. Visually net-zero at the instant it applies.
    Align,
    Undo,
    Redo,
    /// Toggle a piece's membership in the view's selection.
    TogglePieceSelection(usize),
    ClearSelection,
}

} // verus!
