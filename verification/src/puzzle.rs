//! The discrete vocabulary of the puzzle: sides, axes, layer masks, and the
//! twists and whole-puzzle rotations built from them.
//!
//! The puzzle has three layers along each axis. A twist turns some of the
//! layers about a side's axis by a multiple of 45 degrees.
use vstd::prelude::*;

verus! {

/// A face of the cube, and the grip that turns the layers nearest to it.
#[derive(Debug, Clone, Copy, PartialEq, Eq, Structural)]
pub enum Side {
    R,
    L,
    U,
    D,
    F,
    B,
}

/// The three axes of the cube. `X` points at `R`, `Y` at `U`, `Z` at `F`.
#[derive(Debug, Clone, Copy, PartialEq, Eq, Structural)]
pub enum Axis {
    X,
    Y,
    Z,
}

/// The side across the cube from `side`.
pub open spec fn opposite_of(side: Side) -> Side {
    match side {
        Side::R => Side::L,
        Side::L => Side::R,
        Side::U => Side::D,
        Side::D => Side::U,
        Side::F => Side::B,
        Side::B => Side::F,
    }
}

/// The axis a side lies on and which end of it: `+1` for R, U and F.
pub open spec fn axis_of(side: Side) -> (Axis, i8) {
    match side {
        Side::R => (Axis::X, 1i8),
        Side::L => (Axis::X, -1i8),
        Side::U => (Axis::Y, 1i8),
        Side::D => (Axis::Y, -1i8),
        Side::F => (Axis::Z, 1i8),
        Side::B => (Axis::Z, -1i8),
    }
}

/// The one-letter name of a side, as its `Debug` form writes it.
pub open spec fn side_text(side: Side) -> Seq<char> {
    match side {
        Side::R => "R"@,
        Side::L => "L"@,
        Side::U => "U"@,
        Side::D => "D"@,
        Side::F => "F"@,
        Side::B => "B"@,
    }
}

/// Every side, in the order R, L, U, D, F, B.
pub open spec fn all_sides() -> Seq<Side> {
    seq![Side::R, Side::L, Side::U, Side::D, Side::F, Side::B]
}

impl Side {
    /// Every side, in the order R, L, U, D, F, B.
    pub fn all() -> (sides: Vec<Side>)
        ensures
            sides@ == all_sides(),
    {
        let sides = vec![Side::R, Side::L, Side::U, Side::D, Side::F, Side::B];
        assert(sides@ =~= all_sides());
        sides
    }

    pub fn opposite(self) -> (r: Side)
        ensures
            r == opposite_of(self),
    {
        match self {
            Side::R => Side::L,
            Side::L => Side::R,
            Side::U => Side::D,
            Side::D => Side::U,
            Side::F => Side::B,
            Side::B => Side::F,
        }
    }

    /// The axis the side is on, and `1` or `-1` for which end.
    pub fn axis(self) -> (r: (Axis, i8))
        ensures
            r == axis_of(self),
    {
        match self {
            Side::R => (Axis::X, 1),
            Side::L => (Axis::X, -1),
            Side::U => (Axis::Y, 1),
            Side::D => (Axis::Y, -1),
            Side::F => (Axis::Z, 1),
            Side::B => (Axis::Z, -1),
        }
    }

    /// The side's letter.
    pub fn name(self) -> (r: &'static str)
        ensures
            r@ == side_text(self),
    {
        match self {
            Side::R => "R",
            Side::L => "L",
            Side::U => "U",
            Side::D => "D",
            Side::F => "F",
            Side::B => "B",
        }
    }
}

/// Going to the opposite side twice comes back.
pub proof fn lemma_opposite_involution(side: Side)
    ensures
        opposite_of(opposite_of(side)) == side,
        opposite_of(side) != side,
        axis_of(opposite_of(side)).0 == axis_of(side).0,
        axis_of(opposite_of(side)).1 == -axis_of(side).1,
{
}

/// The number of layers along every axis.
pub const N_LAYERS: u8 = 3;

/// A set of layers, counted from the gripped side: bit 0 is the layer
/// nearest the side, bit 2 the one farthest from it.
#[derive(Debug, Clone, Copy, PartialEq, Eq, Structural)]
pub struct LayerMask(pub u8);

/// Is layer `layer` (0-based) in the mask?
pub open spec fn has_layer(mask: u8, layer: u8) -> bool {
    (mask >> layer) & 1u8 == 1u8
}

/// The mask with the same three layers counted from the other side.
pub open spec fn reversed_bits(mask: u8) -> u8 {
    ((mask & 1u8) << 2u8) | (mask & 2u8) | ((mask >> 2u8) & 1u8)
}

impl LayerMask {
    /// No layers.
    pub fn none() -> (r: LayerMask)
        ensures
            r.0 == 0,
    {
        LayerMask(0)
    }

    /// The layer nearest the gripped side, what a plain face turn moves.
    pub fn outer() -> (r: LayerMask)
        ensures
            r.0 == 1,
    {
        LayerMask(1)
    }

    /// All three layers: a whole-puzzle rotation.
    pub fn all() -> (r: LayerMask)
        ensures
            r.0 == 7,
    {
        LayerMask(7)
    }

    /// Is layer `layer` (0-based) in the mask?
    pub fn get(self, layer: u8) -> (r: bool)
        requires
            layer < 8,
        ensures
            r == has_layer(self.0, layer),
    {
        (self.0 >> layer) & 1 == 1
    }

    /// Add layer `layer` to the mask, or take it out.
    pub fn set(&mut self, layer: u8, on: bool)
        requires
            layer < N_LAYERS,
        ensures
            forall|i: u8| i < 8 && i != layer ==> has_layer(final(self).0, i) == has_layer(old(self).0, i),
            has_layer(final(self).0, layer) == on,
            old(self).0 < 8 ==> final(self).0 < 8,
            on ==> final(self).0 == old(self).0 | (1u8 << layer),
            !on ==> final(self).0 == old(self).0 & !(1u8 << layer),
    {
        let m = self.0;
        proof {
            lemma_set_layer(m, layer);
        }
        if on {
            self.0 = m | (1u8 << layer);
        } else {
            self.0 = m & !(1u8 << layer);
        }
    }

    /// The same layers, counted from the opposite side. Only the puzzle's
    /// three layers are kept.
    pub fn reversed(self) -> (r: LayerMask)
        ensures
            r.0 == reversed_bits(self.0),
            r.0 < 8,
            forall|i: u8| i < 3 ==> has_layer(r.0, i) == has_layer(self.0, (2 - i) as u8),
    {
        let m = self.0;
        proof {
            lemma_reversed(m);
        }
        LayerMask(((m & 1) << 2) | (m & 2) | ((m >> 2) & 1))
    }
}

/// What a twist does to one piece, given the layers the piece spans.
#[derive(Debug, Clone, Copy, PartialEq, Eq, Structural)]
pub enum Grip {
    /// the piece lies in the twisted layers and turns with them.
    Moves,
    /// the piece lies outside them and stays.
    Stays,
    /// the piece straddles a boundary of the twisted layers, which blocks
    /// the twist.
    Blocks,
}

/// A twist of `mask` moves a piece spanning only twisted layers, leaves one
/// spanning none of them, and is blocked by one spanning both kinds.
pub open spec fn grip_spec(spanned: u8, mask: u8) -> Grip {
    if forall|i: u8| i < N_LAYERS && #[trigger] has_layer(spanned, i) ==> !has_layer(mask, i) {
        Grip::Stays
    } else if forall|i: u8| i < N_LAYERS && #[trigger] has_layer(spanned, i) ==> has_layer(mask, i) {
        Grip::Moves
    } else {
        Grip::Blocks
    }
}

impl LayerMask {
    /// What a twist of these layers does to a piece spanning `spanned`.
    pub fn grip(self, spanned: LayerMask) -> (r: Grip)
        ensures
            r == grip_spec(spanned.0, self.0),
    {
        let mut any_in = false;
        let mut any_out = false;
        let mut i: u8 = 0;
        while i < N_LAYERS
            invariant
                i <= N_LAYERS,
                any_in == exists|j: u8| j < i && #[trigger] has_layer(spanned.0, j) && has_layer(self.0, j),
                any_out == exists|j: u8| j < i && #[trigger] has_layer(spanned.0, j) && !has_layer(self.0, j),
            decreases N_LAYERS - i,
        {
            if spanned.get(i) {
                if self.get(i) {
                    any_in = true;
                } else {
                    any_out = true;
                }
            }
            i = i + 1;
        }
        if !any_in {
            Grip::Stays
        } else if !any_out {
            Grip::Moves
        } else {
            Grip::Blocks
        }
    }
}

/// Setting or clearing one bit changes exactly that layer.
proof fn lemma_set_layer(m: u8, layer: u8)
    requires
        layer < 3,
    ensures
        forall|i: u8| i < 8 && i != layer ==> has_layer(m | (1u8 << layer), i) == has_layer(m, i),
        forall|i: u8| i < 8 && i != layer ==> has_layer(m & !(1u8 << layer), i) == has_layer(m, i),
        has_layer(m | (1u8 << layer), layer),
        !has_layer(m & !(1u8 << layer), layer),
        m < 8 ==> m | (1u8 << layer) < 8,
        m < 8 ==> m & !(1u8 << layer) < 8,
{
    assert(forall|i: u8| i < 8 && i != layer ==> ((m | (1u8 << layer)) >> i) & 1u8 == (m >> i) & 1u8) by (bit_vector)
        requires layer < 3;
    assert(forall|i: u8| i < 8 && i != layer ==> ((m & !(1u8 << layer)) >> i) & 1u8 == (m >> i) & 1u8) by (bit_vector)
        requires layer < 3;
    assert(((m | (1u8 << layer)) >> layer) & 1u8 == 1u8) by (bit_vector)
        requires layer < 3;
    assert(((m & !(1u8 << layer)) >> layer) & 1u8 == 0u8) by (bit_vector)
        requires layer < 3;
    assert(m < 8 ==> m | (1u8 << layer) < 8) by (bit_vector)
        requires layer < 3;
    assert(m < 8 ==> m & !(1u8 << layer) < 8) by (bit_vector);
}

/// Reversing a mask mirrors its three layers.
proof fn lemma_reversed(m: u8)
    ensures
        reversed_bits(m) < 8,
        forall|i: u8| i < 3 ==> has_layer(reversed_bits(m), i) == has_layer(m, (2 - i) as u8),
{
    assert(((m & 1u8) << 2u8) | (m & 2u8) | ((m >> 2u8) & 1u8) < 8) by (bit_vector);
    assert(forall|i: u8| i < 3 ==> ((((m & 1u8) << 2u8) | (m & 2u8) | ((m >> 2u8) & 1u8)) >> i) & 1u8
        == (m >> ((2 - i) as u8)) & 1u8) by (bit_vector);
}

/// Counting the layers from the other side twice counts them as before.
pub proof fn lemma_reversed_twice(m: u8)
    requires
        m < 8,
    ensures
        reversed_bits(reversed_bits(m)) == m,
{
    let r = ((m & 1u8) << 2u8) | (m & 2u8) | ((m >> 2u8) & 1u8);
    assert(m < 8 ==> ((r & 1u8) << 2u8) | (r & 2u8) | ((r >> 2u8) & 1u8) == m) by (bit_vector)
        requires
            r == ((m & 1u8) << 2u8) | (m & 2u8) | ((m >> 2u8) & 1u8),
    ;
}

/// A twist: the layers `layers` of the grip `side`, turned `multiplicity`
/// steps of 45 degrees. 1 is a 45 degree turn, 2 a quarter turn and 4 a half
/// turn; negative is the other way.
#[derive(Debug, Clone, Copy, PartialEq, Eq, Structural)]
pub struct Twist {
    pub side: Side,
    pub layers: LayerMask,
    pub multiplicity: i8,
}

impl Twist {
    /// The twist that undoes this one: the same layers the other way.
    pub fn inv(&self) -> (r: Self)
        requires
            self.multiplicity != i8::MIN,
        ensures
            r.side == self.side,
            r.layers == self.layers,
            r.multiplicity == -self.multiplicity,
    {
        Self { side: self.side, layers: self.layers, multiplicity: -self.multiplicity }
    }
}

/// A whole-puzzle rotation about an axis, in the same 45 degree steps as a
/// twist, turning like a twist of the positive end of the axis.
#[derive(Debug, Clone, Copy, PartialEq, Eq, Structural)]
pub struct Rotation {
    pub axis: Axis,
    pub multiplicity: i8,
}

impl Rotation {
    pub fn new(axis: Axis, multiplicity: i8) -> (r: Self)
        ensures
            r.axis == axis,
            r.multiplicity == multiplicity,
    {
        Self { axis, multiplicity }
    }

    /// The rotation that undoes this one.
    pub fn inv(&self) -> (r: Self)
        requires
            self.multiplicity != i8::MIN,
        ensures
            r.axis == self.axis,
            r.multiplicity == -self.multiplicity,
    {
        Self { axis: self.axis, multiplicity: -self.multiplicity }
    }
}

/// Undoing a twist and undoing that again gives the twist back.
pub proof fn lemma_twist_inv_involution(t: Twist)
    requires
        t.multiplicity != i8::MIN,
    ensures
        ({
            let u = Twist { side: t.side, layers: t.layers, multiplicity: (-t.multiplicity) as i8 };
            u.multiplicity != i8::MIN && Twist {
                side: u.side,
                layers: u.layers,
                multiplicity: (-u.multiplicity) as i8,
            } == t
        }),
{
}

/// The indices, in order, of the first `k` pieces that a twist of `mask`
/// grips as `g`, each piece given by the layers it spans.
pub open spec fn gripped(spans: Seq<LayerMask>, mask: LayerMask, g: Grip, k: int) -> Seq<usize>
    decreases k,
{
    if k <= 0 {
        seq![]
    } else if grip_spec(spans[k - 1].0, mask.0) == g {
        gripped(spans, mask, g, k - 1).push((k - 1) as usize)
    } else {
        gripped(spans, mask, g, k - 1)
    }
}

/// Which pieces a twist of `mask` turns, each piece given by the layers it
/// spans: the indices of those it moves, in order, or, when any straddle a
/// boundary of the twisted layers, the indices of those that block it.
pub fn twist_pieces(mask: LayerMask, spans: &Vec<LayerMask>) -> (r: Result<Vec<usize>, Vec<usize>>)
    ensures
        gripped(spans@, mask, Grip::Blocks, spans@.len() as int).len() == 0 ==> r is Ok
            && r->Ok_0@ == gripped(spans@, mask, Grip::Moves, spans@.len() as int),
        gripped(spans@, mask, Grip::Blocks, spans@.len() as int).len() > 0 ==> r is Err
            && r->Err_0@ == gripped(spans@, mask, Grip::Blocks, spans@.len() as int),
{
    let mut inside: Vec<usize> = Vec::new();
    let mut blocked: Vec<usize> = Vec::new();
    let mut i: usize = 0;
    while i < spans.len()
        invariant
            i <= spans@.len(),
            inside@ == gripped(spans@, mask, Grip::Moves, i as int),
            blocked@ == gripped(spans@, mask, Grip::Blocks, i as int),
        decreases spans@.len() - i,
    {
        match mask.grip(spans[i]) {
            Grip::Moves => inside.push(i),
            Grip::Stays => {},
            Grip::Blocks => blocked.push(i),
        }
        i = i + 1;
    }
    if blocked.len() > 0 {
        Err(blocked)
    } else {
        Ok(inside)
    }
}

} // verus!
