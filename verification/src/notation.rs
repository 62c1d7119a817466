//! How a twist is written down: in the keybind reference, in the resolution
//! set, and in log files.
//!
//! The puzzle only ever has three layers, so this uses the compact cuber
//! notation the whole way rather than general layer-mask prefixes: `Rw`, not
//! `{1,2}R`; `M`, not `{2}L`. Only the two layer masks with no standard name
//! ({1,3} and the empty mask) fall back to a brace prefix, numbered from 1.
//!
//! A quarter turn is the unit, so the 45 degree jumbling twist is half of
//! one: `R/2`, and multiplicity 3 is `R3/2`. An inverse primes the whole
//! thing: `R3/2'`.
use vstd::prelude::*;
use crate::puzzle::{Axis, LayerMask, Side, Twist, axis_of, has_layer, opposite_of, reversed_bits, side_text};
use crate::text::{decimal, push_decimal, push_str};

verus! {

/// Everything after the move letter. `m` counts 45 degree steps while the
/// notation counts quarter turns: 2 is the bare move, 4 is `2`, and odd step
/// counts keep a `/2`.
pub open spec fn amount_text(m: int) -> Seq<char> {
    let prime = if m < 0 {
        "'"@
    } else {
        ""@
    };
    let steps: nat = if m < 0 {
        (-m) as nat
    } else {
        m as nat
    };
    if steps % 2 == 0 {
        if steps / 2 == 1 {
            prime
        } else {
            decimal(steps / 2) + prime
        }
    } else if steps == 1 {
        "/2"@ + prime
    } else {
        decimal(steps) + "/2"@ + prime
    }
}

/// The layers of a mask, numbered from 1, in braces: `{1,3}`.
pub open spec fn mask_text(mask: u8) -> Seq<char> {
    "{"@ + layer_list(mask, 0) + "}"@
}

/// The 1-based numbers of the layers from `from` on, separated by commas,
/// with a leading comma when a layer before `from` was listed.
pub open spec fn layer_list(mask: u8, from: int) -> Seq<char>
    decreases 3 - from,
{
    if from >= 3 || from < 0 {
        seq![]
    } else {
        let rest = layer_list(mask, from + 1);
        if has_layer(mask, from as u8) {
            let sep = if listed_before(mask, from) {
                ","@
            } else {
                ""@
            };
            sep + decimal((from + 1) as nat) + rest
        } else {
            rest
        }
    }
}

/// Does the mask have a layer below `from`?
pub open spec fn listed_before(mask: u8, from: int) -> bool {
    exists|j: u8| j < from && j < 3 && #[trigger] has_layer(mask, j)
}

/// Does naming this twist flip it onto the opposite side? The far layers of
/// `R` are `L'`, and slices are named after L, D and F.
pub open spec fn flips(side: Side, layers: u8) -> bool {
    if layers == 4 || layers == 6 {
        true
    } else if layers == 2 {
        !(side == Side::L || side == Side::D || side == Side::F)
    } else {
        false
    }
}

/// The same twist named from whichever side gives it a standard name.
pub open spec fn canonical(side: Side, layers: u8, m: int) -> (Side, u8, int) {
    if flips(side, layers) {
        (opposite_of(side), reversed_bits(layers), -m)
    } else {
        (side, layers, m)
    }
}

/// The slice letter: M follows L, E follows D, S follows F.
pub open spec fn slice_text(side: Side) -> Seq<char> {
    match side {
        Side::L => "M"@,
        Side::D => "E"@,
        _ => "S"@,
    }
}

/// The rotation letter of an axis.
pub open spec fn axis_text(axis: Axis) -> Seq<char> {
    match axis {
        Axis::X => "x"@,
        Axis::Y => "y"@,
        Axis::Z => "z"@,
    }
}

/// How a twist is written.
pub open spec fn twist_text(t: Twist) -> Seq<char> {
    let (side, layers, m) = canonical(t.side, t.layers.0, t.multiplicity as int);
    if layers == 1 {
        side_text(side) + amount_text(m)
    } else if layers == 3 {
        side_text(side) + "w"@ + amount_text(m)
    } else if layers == 2 {
        slice_text(side) + amount_text(m)
    } else if layers == 7 {
        let (axis, sign) = axis_of(side);
        axis_text(axis) + amount_text(sign * m)
    } else {
        mask_text(layers) + side_text(side) + amount_text(m)
    }
}

/// Naming the twist negates its multiplicity, which cannot hold -128 as an
/// `i8`.
pub open spec fn naming_overflows(t: Twist) -> bool {
    t.multiplicity == i8::MIN && (flips(t.side, t.layers.0) || (t.layers.0 == 7 && axis_of(t.side).1
        == -1))
}

fn push_amount(s: &mut String, m: i8)
    ensures
        final(s)@ == old(s)@ + amount_text(m as int),
{
    let steps: u8 = if m < 0 {
        (-(m as i16)) as u8
    } else {
        m as u8
    };
    let ghost before = s@;
    proof {
        reveal_strlit("");
    }
    if steps % 2 == 0 {
        if steps / 2 != 1 {
            push_decimal(s, (steps / 2) as u64);
        }
    } else {
        if steps != 1 {
            push_decimal(s, steps as u64);
        }
        push_str(s, "/2");
    }
    if m < 0 {
        push_str(s, "'");
    }
    proof {
        if m < 0 {
            assert(s@ =~= before + amount_text(m as int));
        } else {
            assert(s@ =~= before + amount_text(m as int));
        }
    }
}

fn push_layer_list(s: &mut String, mask: LayerMask)
    ensures
        final(s)@ == old(s)@ + layer_list(mask.0, 0),
{
    let ghost before = s@;
    proof {
        reveal_strlit("");
    }
    let mut any = false;
    let mut i: u8 = 0;
    while i < 3
        invariant
            i <= 3,
            any == listed_before(mask.0, i as int),
            s@ + layer_list(mask.0, i as int) =~= before + layer_list(mask.0, 0),
        decreases 3 - i,
    {
        let ghost at = s@;
        proof {
            reveal_strlit("");
        }
        let present = mask.get(i);
        if present {
            if any {
                push_str(s, ",");
            }
            push_decimal(s, (i + 1) as u64);
            assert(has_layer(mask.0, ((i as int) as u8)));
            assert(s@ + layer_list(mask.0, i + 1) =~= at + layer_list(mask.0, i as int));
        }
        proof {
            if present {
                assert(has_layer(mask.0, i as u8));
                assert(listed_before(mask.0, i + 1));
            } else if listed_before(mask.0, i + 1) {
                let j = choose|j: u8| j < i + 1 && j < 3 && #[trigger] has_layer(mask.0, j);
                assert(j != i);
                assert(listed_before(mask.0, i as int));
            }
        }
        any = any || present;
        i = i + 1;
    }
    assert(layer_list(mask.0, 3) == Seq::<char>::empty());
}

/// Appends the mask's layers in braces.
pub fn push_mask(s: &mut String, mask: LayerMask)
    ensures
        final(s)@ == old(s)@ + mask_text(mask.0),
{
    let ghost before = s@;
    push_str(s, "{");
    push_layer_list(s, mask);
    push_str(s, "}");
    assert(s@ =~= before + mask_text(mask.0));
}

fn slice_letter(side: Side) -> (r: &'static str)
    ensures
        r@ == slice_text(side),
{
    match side {
        Side::L => "M",
        Side::D => "E",
        _ => "S",
    }
}

fn axis_letter(axis: Axis) -> (r: &'static str)
    ensures
        r@ == axis_text(axis),
{
    match axis {
        Axis::X => "x",
        Axis::Y => "y",
        Axis::Z => "z",
    }
}

fn flip_for_name(side: Side, layers: LayerMask) -> (r: bool)
    ensures
        r == flips(side, layers.0),
{
    if layers.0 == 4 || layers.0 == 6 {
        true
    } else if layers.0 == 2 {
        !(side == Side::L || side == Side::D || side == Side::F)
    } else {
        false
    }
}

impl Twist {
    /// Would naming the twist negate the multiplicity -128?
    pub fn name_overflows(&self) -> (r: bool)
        ensures
            r == naming_overflows(*self),
    {
        self.multiplicity == i8::MIN && (flip_for_name(self.side, self.layers) || (self.layers.0 == 7
            && self.side.axis().1 == -1))
    }

    /// The twist in cuber notation, named from the side that gives it a
    /// standard name.
    pub fn to_string(&self) -> (r: String)
        requires
            !naming_overflows(*self),
        ensures
            r@ == twist_text(*self),
    {
        let (side, layers, m) = if flip_for_name(self.side, self.layers) {
            (self.side.opposite(), self.layers.reversed(), -self.multiplicity)
        } else {
            (self.side, self.layers, self.multiplicity)
        };
        proof {
            lemma_reversed_names();
        }
        let mut s = String::new();
        if layers.0 == 1 {
            push_str(&mut s, side.name());
            push_amount(&mut s, m);
        } else if layers.0 == 3 {
            push_str(&mut s, side.name());
            push_str(&mut s, "w");
            push_amount(&mut s, m);
        } else if layers.0 == 2 {
            push_str(&mut s, slice_letter(side));
            push_amount(&mut s, m);
        } else if layers.0 == 7 {
            let (axis, sign) = side.axis();
            push_str(&mut s, axis_letter(axis));
            push_amount(&mut s, sign * m);
        } else {
            push_mask(&mut s, layers);
            push_str(&mut s, side.name());
            push_amount(&mut s, m);
        }
        assert(s@ =~= twist_text(*self));
        s
    }
}

proof fn lemma_reversed_names()
    ensures
        reversed_bits(4) == 1u8,
        reversed_bits(6) == 3u8,
        reversed_bits(2) == 2u8,
{
    assert(reversed_bits(4) == 1u8) by (bit_vector);
    assert(reversed_bits(6) == 3u8) by (bit_vector);
    assert(reversed_bits(2) == 2u8) by (bit_vector);
}

/// How a whole-puzzle reorientation is written: the same as a twist of every
/// layer about that grip, since that is the same motion.
pub fn reorientation(side: Side, multiplicity: i8) -> (r: String)
    requires
        !(multiplicity == i8::MIN && axis_of(side).1 == -1),
    ensures
        r@ == twist_text(Twist { side, layers: LayerMask(7), multiplicity }),
{
    Twist { side, layers: LayerMask::all(), multiplicity }.to_string()
}

/// Naming a twist of the far layers or of a slice from the other side gives
/// the same text as naming the equivalent twist from that side directly.
pub proof fn lemma_names_agree_across_sides(t: Twist)
    requires
        flips(t.side, t.layers.0),
        t.multiplicity != i8::MIN,
    ensures
        twist_text(t) == twist_text(
            Twist {
                side: opposite_of(t.side),
                layers: LayerMask(reversed_bits(t.layers.0)),
                multiplicity: (-t.multiplicity) as i8,
            },
        ),
{
    let u = Twist {
        side: opposite_of(t.side),
        layers: LayerMask(reversed_bits(t.layers.0)),
        multiplicity: (-t.multiplicity) as i8,
    };
    assert(reversed_bits(4) == 1u8) by (bit_vector);
    assert(reversed_bits(6) == 3u8) by (bit_vector);
    assert(reversed_bits(2) == 2u8) by (bit_vector);
    assert(!flips(u.side, u.layers.0));
}

} // verus!
