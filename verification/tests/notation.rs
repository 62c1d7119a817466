use speedsun::notation::reorientation;
use speedsun::puzzle::{LayerMask, Side, Twist};

fn twist(side: Side, layers: u8, multiplicity: i8) -> String {
    Twist {
        side,
        layers: LayerMask(layers),
        multiplicity,
    }
    .to_string()
}

#[test]
fn layer_masks_get_their_standard_names() {
    // a quarter turn of each mask on R, and the same mask on L.
    assert_eq!(twist(Side::R, 0b001, 2), "R");
    assert_eq!(twist(Side::L, 0b001, 2), "L");
    assert_eq!(twist(Side::R, 0b011, 2), "Rw");
    assert_eq!(twist(Side::L, 0b011, 2), "Lw");
    // the slice is named after L, D or F, so R's is M the other way.
    assert_eq!(twist(Side::L, 0b010, 2), "M");
    assert_eq!(twist(Side::R, 0b010, 2), "M'");
    assert_eq!(twist(Side::D, 0b010, 2), "E");
    assert_eq!(twist(Side::U, 0b010, 2), "E'");
    assert_eq!(twist(Side::F, 0b010, 2), "S");
    assert_eq!(twist(Side::B, 0b010, 2), "S'");
    // far layers are the other side's near layers, turning the other way.
    assert_eq!(twist(Side::R, 0b100, 2), "L'");
    assert_eq!(twist(Side::R, 0b110, 2), "Lw'");
    // every layer is a rotation, named after the positive axis end.
    assert_eq!(twist(Side::R, 0b111, 2), "x");
    assert_eq!(twist(Side::L, 0b111, 2), "x'");
    assert_eq!(twist(Side::U, 0b111, 2), "y");
    assert_eq!(twist(Side::D, 0b111, 2), "y'");
    assert_eq!(twist(Side::F, 0b111, 2), "z");
    assert_eq!(twist(Side::B, 0b111, 2), "z'");
    // the two masks with no name keep an explicit (1-indexed) prefix.
    assert_eq!(twist(Side::R, 0b101, 2), "{1,3}R");
    assert_eq!(twist(Side::R, 0b000, 2), "{}R");
}

#[test]
fn multiplicity_counts_quarter_turns() {
    assert_eq!(twist(Side::R, 0b001, 2), "R");
    assert_eq!(twist(Side::R, 0b001, -2), "R'");
    assert_eq!(twist(Side::R, 0b001, 4), "R2");
    assert_eq!(twist(Side::R, 0b001, -4), "R2'");
    assert_eq!(twist(Side::R, 0b001, 6), "R3");
    // the jumbling twist is half a quarter turn.
    assert_eq!(twist(Side::R, 0b001, 1), "R/2");
    assert_eq!(twist(Side::R, 0b001, -1), "R/2'");
    assert_eq!(twist(Side::R, 0b001, 3), "R3/2");
    assert_eq!(twist(Side::R, 0b001, -3), "R3/2'");
}

#[test]
fn the_amount_composes_with_every_name() {
    assert_eq!(twist(Side::R, 0b011, -3), "Rw3/2'");
    assert_eq!(twist(Side::L, 0b010, 1), "M/2");
    // flipping to name the twist negates the amount too.
    assert_eq!(twist(Side::R, 0b100, 1), "L/2'");
    assert_eq!(twist(Side::R, 0b111, -4), "x2'");
    assert_eq!(reorientation(Side::U, 2), "y");
    assert_eq!(reorientation(Side::F, -4), "z2'");
}

#[test]
fn a_twist_and_its_inverse_are_named_apart_by_a_prime() {
    let t = Twist { side: Side::F, layers: LayerMask(0b011), multiplicity: 3 };
    assert_eq!(t.to_string(), "Fw3/2");
    assert_eq!(t.inv().to_string(), "Fw3/2'");
    assert_eq!(t.inv().inv(), t);
}

#[test]
fn no_multiplicity_is_a_zero_turn() {
    assert_eq!(twist(Side::U, 0b001, 0), "U0");
}

#[test]
fn counting_layers_from_the_other_side_twice_changes_nothing() {
    for m in 0..8u8 {
        assert_eq!(LayerMask(m).reversed().reversed(), LayerMask(m));
    }
    assert_eq!(LayerMask(0b001).reversed(), LayerMask(0b100));
    assert_eq!(LayerMask(0b011).reversed(), LayerMask(0b110));
}

#[test]
fn the_same_twist_named_from_either_side_agrees() {
    // R's far layer turning one way is L's near layer turning the other.
    let far = Twist { side: Side::R, layers: LayerMask(0b100), multiplicity: 2 };
    let near = Twist { side: Side::L, layers: LayerMask(0b001), multiplicity: -2 };
    assert_eq!(far.to_string(), near.to_string());
    assert_eq!(far.to_string(), "L'");
}
