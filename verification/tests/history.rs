use speedsun::commands::{Command, Origin};
use speedsun::history::{Action, History, Move, Replay};
use speedsun::puzzle::{Axis, LayerMask, Rotation, Side, Twist};
use speedsun::view::{Hover, Selection};

fn r() -> Twist {
    Twist { side: Side::R, layers: LayerMask::outer(), multiplicity: 1 }
}

#[test]
fn undo_queues_the_inverse_and_redo_the_move() {
    let mut h: History<u8> = History::new();
    h.record_applied(Move::Twist(r()), Origin::User);
    match h.undo() {
        Some(Replay::Queue(Move::Twist(t), Origin::Undo)) => {
            assert_eq!(t, r().inv());
        }
        _ => panic!("undo of a twist queues its inverse"),
    }
    assert!(h.undo().is_none());
    match h.redo() {
        Some(Replay::Queue(Move::Twist(t), Origin::Redo)) => assert_eq!(t, r()),
        _ => panic!("redo queues the twist again"),
    }
    assert!(h.redo().is_none());
    assert_eq!(h.undo_stack.len(), 1);
}

#[test]
fn replays_are_not_recorded() {
    let mut h: History<u8> = History::new();
    h.record_applied(Move::Twist(r()), Origin::Undo);
    h.record_applied(Move::Twist(r()), Origin::Redo);
    assert!(h.undo_stack.is_empty());
}

#[test]
fn a_new_move_makes_the_redo_stack_stale() {
    let mut h: History<u8> = History::new();
    h.record_applied(Move::Twist(r()), Origin::User);
    h.undo();
    assert_eq!(h.redo_stack.len(), 1);
    h.record_applied(Move::Rotate(Rotation::new(Axis::Y, 2)), Origin::User);
    assert!(h.redo_stack.is_empty());
    match h.undo() {
        Some(Replay::Queue(Move::Rotate(rot), Origin::Undo)) => {
            assert_eq!(rot, Rotation::new(Axis::Y, -2));
        }
        _ => panic!("undo of a rotation queues its inverse"),
    }
}

#[test]
fn an_align_is_undone_at_once() {
    let mut h: History<u8> = History::new();
    h.record_align(7);
    assert!(matches!(h.undo(), Some(Replay::Unbase(7))));
    assert!(matches!(h.redo(), Some(Replay::Rebase(7))));
    assert!(matches!(h.undo_stack[..], [Action::Align(7)]));
}

#[test]
fn hovering_a_back_face_inverts_only_when_asked() {
    let back = Hover { gizmo: Some((Side::U, false)), piece: None };
    assert_eq!(back.grip(true), (Some(Side::U), true));
    assert_eq!(back.grip(false), (Some(Side::U), false));
    let front = Hover { gizmo: Some((Side::F, true)), piece: None };
    assert_eq!(front.grip(true), (Some(Side::F), false));
    let nothing = Hover { gizmo: None, piece: None };
    assert_eq!(nothing.grip(true), (None, false));
}

#[test]
fn shift_clicks_toggle_and_clear_the_selection() {
    assert_eq!(Hover { gizmo: None, piece: Some(3) }.selection_command(), Command::TogglePieceSelection(3));
    assert_eq!(Hover { gizmo: None, piece: None }.selection_command(), Command::ClearSelection);
    let mut s = Selection::new();
    s.toggle(3);
    assert!(s.contains(3));
    s.toggle(4);
    s.toggle(3);
    assert!(!s.contains(3));
    assert!(s.contains(4));
    s.clear();
    assert!(!s.contains(4));
}
