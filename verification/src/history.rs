//! The undo and redo history of the simulation, and what replaying an entry
//! asks the simulation to do.
//!
//! Only moves the user made are recorded: undo and redo replays are already
//! accounted for by moving the entry between the stacks. `R` is the type of
//! an orientation, which an align re-bases the puzzle by; the history only
//! carries it.
use vstd::prelude::*;
use crate::commands::Origin;
use crate::puzzle::{Rotation, Twist};

verus! {

/// A state-changing move: a layer twist or a whole-puzzle rotation.
#[derive(Debug, Clone, Copy, PartialEq, Eq, Structural)]
pub enum Move {
    Twist(Twist),
    Rotate(Rotation),
}

/// An entry in the history: the moves as applied, and the re-basings of
/// the state onto the view. Blocked twists never get here.
#[derive(Debug, Clone, Copy)]
pub enum Action<R> {
    Twist(Twist),
    Rotate(Rotation),
    /// the puzzle state was rotated by this orientation to agree with the
    /// view.
    Align(R),
}

/// What replaying an entry asks of the simulation.
#[derive(Debug, Clone, Copy)]
pub enum Replay<R> {
    /// queue this move, animated, from this origin.
    Queue(Move, Origin),
    /// rotate the state by this orientation at once, and the view by its
    /// inverse, so it is visually net-zero as the align itself was.
    Rebase(R),
    /// rotate the state by the inverse of this orientation at once, and the
    /// view by it.
    Unbase(R),
}

/// Can the entry be inverted? A multiplicity of -128 has no negation.
pub open spec fn action_ok<R>(a: Action<R>) -> bool {
    match a {
        Action::Twist(t) => t.multiplicity != i8::MIN,
        Action::Rotate(r) => r.multiplicity != i8::MIN,
        Action::Align(_) => true,
    }
}

pub open spec fn move_ok(m: Move) -> bool {
    match m {
        Move::Twist(t) => t.multiplicity != i8::MIN,
        Move::Rotate(r) => r.multiplicity != i8::MIN,
    }
}

pub open spec fn action_of<R>(m: Move) -> Action<R> {
    match m {
        Move::Twist(t) => Action::Twist(t),
        Move::Rotate(r) => Action::Rotate(r),
    }
}

/// Replaying an entry backwards: the inverse move, queued as an undo.
pub open spec fn undo_replay<R>(a: Action<R>) -> Replay<R> {
    match a {
        Action::Twist(t) => Replay::Queue(
            Move::Twist(Twist { side: t.side, layers: t.layers, multiplicity: (-t.multiplicity) as i8 }),
            Origin::Undo,
        ),
        Action::Rotate(r) => Replay::Queue(
            Move::Rotate(Rotation { axis: r.axis, multiplicity: (-r.multiplicity) as i8 }),
            Origin::Undo,
        ),
        Action::Align(o) => Replay::Unbase(o),
    }
}

/// Replaying an entry forwards: the move again, queued as a redo.
pub open spec fn redo_replay<R>(a: Action<R>) -> Replay<R> {
    match a {
        Action::Twist(t) => Replay::Queue(Move::Twist(t), Origin::Redo),
        Action::Rotate(r) => Replay::Queue(Move::Rotate(r), Origin::Redo),
        Action::Align(o) => Replay::Rebase(o),
    }
}

pub open spec fn stack_ok<R>(s: Seq<Action<R>>) -> bool {
    forall|i: int| 0 <= i < s.len() ==> action_ok(#[trigger] s[i])
}

/// The two stacks: the most recent entry last.
pub struct History<R> {
    pub undo_stack: Vec<Action<R>>,
    pub redo_stack: Vec<Action<R>>,
}

impl<R> History<R> {
    /// Every entry can be inverted.
    pub open spec fn wf(&self) -> bool {
        stack_ok(self.undo_stack@) && stack_ok(self.redo_stack@)
    }
}

impl<R: Copy> History<R> {
    pub fn new() -> (r: Self)
        ensures
            r.wf(),
            r.undo_stack@.len() == 0,
            r.redo_stack@.len() == 0,
    {
        History { undo_stack: Vec::new(), redo_stack: Vec::new() }
    }

    /// Bookkeeping for a move that was applied: a user's move is recorded
    /// and makes the redo stack stale; a replay is already accounted for.
    pub fn record_applied(&mut self, mv: Move, origin: Origin)
        requires
            old(self).wf(),
            move_ok(mv),
        ensures
            final(self).wf(),
            origin == Origin::User ==> final(self).undo_stack@ == old(self).undo_stack@.push(action_of(mv))
                && final(self).redo_stack@.len() == 0,
            origin != Origin::User ==> final(self).undo_stack@ == old(self).undo_stack@
                && final(self).redo_stack@ == old(self).redo_stack@,
    {
        if origin == Origin::User {
            let action = match mv {
                Move::Twist(t) => Action::Twist(t),
                Move::Rotate(r) => Action::Rotate(r),
            };
            self.undo_stack.push(action);
            self.redo_stack.clear();
        }
    }

    /// Record that the state was re-based onto the view by `orientation`.
    pub fn record_align(&mut self, orientation: R)
        requires
            old(self).wf(),
        ensures
            final(self).wf(),
            final(self).undo_stack@ == old(self).undo_stack@.push(Action::Align(orientation)),
            final(self).redo_stack@.len() == 0,
    {
        self.undo_stack.push(Action::Align(orientation));
        self.redo_stack.clear();
    }

    /// Take back the latest entry, if any: it moves to the redo stack, and
    /// its inverse is what the simulation should do.
    pub fn undo(&mut self) -> (r: Option<Replay<R>>)
        requires
            old(self).wf(),
        ensures
            final(self).wf(),
            old(self).undo_stack@.len() == 0 ==> r is None && final(self).undo_stack@ == old(
                self,
            ).undo_stack@ && final(self).redo_stack@ == old(self).redo_stack@,
            old(self).undo_stack@.len() > 0 ==> {
                let a = old(self).undo_stack@.last();
                &&& r == Some(undo_replay(a))
                &&& final(self).undo_stack@ == old(self).undo_stack@.drop_last()
                &&& final(self).redo_stack@ == old(self).redo_stack@.push(a)
            },
    {
        match self.undo_stack.pop() {
            Some(action) => {
                assert(action_ok(action));
                self.redo_stack.push(action);
                let replay = match action {
                    Action::Twist(t) => Replay::Queue(Move::Twist(t.inv()), Origin::Undo),
                    Action::Rotate(r) => Replay::Queue(Move::Rotate(r.inv()), Origin::Undo),
                    Action::Align(o) => Replay::Unbase(o),
                };
                Some(replay)
            },
            None => None,
        }
    }

    /// Put back the latest undone entry, if any: it moves to the undo stack,
    /// and the simulation should do it again.
    pub fn redo(&mut self) -> (r: Option<Replay<R>>)
        requires
            old(self).wf(),
        ensures
            final(self).wf(),
            old(self).redo_stack@.len() == 0 ==> r is None && final(self).undo_stack@ == old(
                self,
            ).undo_stack@ && final(self).redo_stack@ == old(self).redo_stack@,
            old(self).redo_stack@.len() > 0 ==> {
                let a = old(self).redo_stack@.last();
                &&& r == Some(redo_replay(a))
                &&& final(self).redo_stack@ == old(self).redo_stack@.drop_last()
                &&& final(self).undo_stack@ == old(self).undo_stack@.push(a)
            },
    {
        match self.redo_stack.pop() {
            Some(action) => {
                self.undo_stack.push(action);
                let replay = match action {
                    Action::Twist(t) => Replay::Queue(Move::Twist(t), Origin::Redo),
                    Action::Rotate(r) => Replay::Queue(Move::Rotate(r), Origin::Redo),
                    Action::Align(o) => Replay::Rebase(o),
                };
                Some(replay)
            },
            None => None,
        }
    }
}

/// Undoing and then redoing brings both stacks back as they were.
pub proof fn lemma_redo_undoes_undo<R>(undo: Seq<Action<R>>, redo: Seq<Action<R>>)
    requires
        undo.len() > 0,
    ensures
        ({
            let a = undo.last();
            let (u1, r1) = (undo.drop_last(), redo.push(a));
            let (u2, r2) = (u1.push(r1.last()), r1.drop_last());
            u2 == undo && r2 == redo
        }),
{
    let a = undo.last();
    assert(undo.drop_last().push(a) =~= undo);
    assert(redo.push(a).drop_last() =~= redo);
}

/// Redoing and then undoing brings both stacks back as they were.
pub proof fn lemma_undo_undoes_redo<R>(undo: Seq<Action<R>>, redo: Seq<Action<R>>)
    requires
        redo.len() > 0,
    ensures
        ({
            let a = redo.last();
            let (u1, r1) = (undo.push(a), redo.drop_last());
            let (u2, r2) = (u1.drop_last(), r1.push(u1.last()));
            u2 == undo && r2 == redo
        }),
{
    let a = redo.last();
    assert(redo.drop_last().push(a) =~= redo);
    assert(undo.push(a).drop_last() =~= undo);
}

/// The replay of an undone move is its inverse, and undoing the replay of
/// that gives back the move the user made.
pub proof fn lemma_undo_replay_inverts<R>(a: Action<R>)
    requires
        action_ok(a),
    ensures
        match (a, undo_replay(a), redo_replay(a)) {
            (Action::Twist(t), Replay::Queue(Move::Twist(u), Origin::Undo), Replay::Queue(Move::Twist(v), Origin::Redo)) =>
                u.side == t.side && u.layers == t.layers && u.multiplicity == -t.multiplicity && v == t,
            (Action::Rotate(r), Replay::Queue(Move::Rotate(u), Origin::Undo), Replay::Queue(Move::Rotate(v), Origin::Redo)) =>
                u.axis == r.axis && u.multiplicity == -r.multiplicity && v == r,
            (Action::Align(o), Replay::Unbase(p), Replay::Rebase(q)) => p == o && q == o,
            _ => false,
        },
{
}

} // verus!
