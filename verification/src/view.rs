//! What the view decides about the pointer: which grip it hovers, what a
//! shift-click does, and the selection of pieces that shift-clicks edit.
use vstd::prelude::*;
use std::collections::HashSet;
use crate::commands::Command;
use crate::puzzle::Side;

verus! {

broadcast use vstd::std_specs::hash::group_hash_axioms;

/// What the pointer is over this frame.
#[derive(Debug, Clone, Copy)]
pub struct Hover {
    /// the gizmo face under the pointer, and whether its front (outward)
    /// side faces the camera.
    pub gizmo: Option<(Side, bool)>,
    /// the piece under the pointer while shift is held (pick mode).
    pub piece: Option<usize>,
}

impl Hover {
    /// The keybinds' view of the hover: the hovered grip, and whether a
    /// click there twists the other way. Clicking the back of a face twists
    /// as seen from the camera, mirrored, when `reverse_backface_twists` is
    /// on.
    pub fn grip(&self, reverse_backface_twists: bool) -> (r: (Option<Side>, bool))
        ensures
            r == match self.gizmo {
                Some((side, front)) => (Some(side), !front && reverse_backface_twists),
                None => (None, false),
            },
    {
        match self.gizmo {
            Some((side, front)) => (Some(side), !front && reverse_backface_twists),
            None => (None, false),
        }
    }

    /// A shift-click toggles the hovered piece's membership in the
    /// selection; a shift-click on the background clears it.
    pub fn selection_command(&self) -> (r: Command)
        ensures
            r == match self.piece {
                Some(i) => Command::TogglePieceSelection(i),
                None => Command::ClearSelection,
            },
    {
        match self.piece {
            Some(i) => Command::TogglePieceSelection(i),
            None => Command::ClearSelection,
        }
    }
}

/// The pieces selected by shift-clicking, by their index in the puzzle.
pub struct Selection {
    pub pieces: HashSet<usize>,
}

impl Selection {
    pub fn new() -> (r: Self)
        ensures
            r.pieces@ == Set::<usize>::empty(),
    {
        Selection { pieces: HashSet::new() }
    }

    pub fn contains(&self, piece: usize) -> (r: bool)
        ensures
            r == self.pieces@.contains(piece),
    {
        self.pieces.contains(&piece)
    }

    /// A selected piece leaves the selection, any other one joins it.
    pub fn toggle(&mut self, piece: usize)
        ensures
            old(self).pieces@.contains(piece) ==> final(self).pieces@ == old(self).pieces@.remove(piece),
            !old(self).pieces@.contains(piece) ==> final(self).pieces@ == old(self).pieces@.insert(piece),
    {
        if !self.pieces.remove(&piece) {
            self.pieces.insert(piece);
        }
    }

    pub fn clear(&mut self)
        ensures
            final(self).pieces@ == Set::<usize>::empty(),
    {
        self.pieces.clear();
    }
}

/// Toggling a piece twice leaves the selection as it was.
pub proof fn lemma_toggle_twice(s: Set<usize>, piece: usize)
    ensures
        ({
            let once = if s.contains(piece) { s.remove(piece) } else { s.insert(piece) };
            let twice = if once.contains(piece) { once.remove(piece) } else { once.insert(piece) };
            twice == s
        }),
{
    let once = if s.contains(piece) { s.remove(piece) } else { s.insert(piece) };
    let twice = if once.contains(piece) { once.remove(piece) } else { once.insert(piece) };
    assert(twice =~= s);
}

/// Which subsystem's settings the sidebar shows.
#[derive(Debug, Clone, Copy, PartialEq, Eq, Structural)]
pub enum SidebarTab {
    Twists,
    View,
    Filters,
    Styles,
    Keybinds,
}

impl SidebarTab {
    /// Every tab, in the order the sidebar lists them.
    pub fn all() -> (r: Vec<SidebarTab>)
        ensures
            r@ == seq![
                SidebarTab::Twists,
                SidebarTab::View,
                SidebarTab::Filters,
                SidebarTab::Styles,
                SidebarTab::Keybinds,
            ],
    {
        let r = vec![
            SidebarTab::Twists,
            SidebarTab::View,
            SidebarTab::Filters,
            SidebarTab::Styles,
            SidebarTab::Keybinds,
        ];
        assert(r@ =~= seq![
            SidebarTab::Twists,
            SidebarTab::View,
            SidebarTab::Filters,
            SidebarTab::Styles,
            SidebarTab::Keybinds,
        ]);
        r
    }

    pub fn name(self) -> (r: &'static str)
        ensures
            r@ == match self {
                SidebarTab::Twists => "Twists"@,
                SidebarTab::View => "View"@,
                SidebarTab::Filters => "Filters"@,
                SidebarTab::Styles => "Styles"@,
                SidebarTab::Keybinds => "Keybinds"@,
            },
    {
        match self {
            SidebarTab::Twists => "Twists",
            SidebarTab::View => "View",
            SidebarTab::Filters => "Filters",
            SidebarTab::Styles => "Styles",
            SidebarTab::Keybinds => "Keybinds",
        }
    }
}

} // verus!
