use speedsun::puzzle::{LayerMask, twist_pieces};

#[test]
fn a_twist_moves_the_pieces_inside_its_layers() {
    // outer layer only: pieces in layer 0 move, those in layer 2 stay.
    let spans = vec![LayerMask(0b001), LayerMask(0b100), LayerMask(0b001), LayerMask(0b010)];
    assert_eq!(twist_pieces(LayerMask(0b001), &spans), Ok(vec![0, 2]));
    assert_eq!(twist_pieces(LayerMask(0b011), &spans), Ok(vec![0, 2, 3]));
    assert_eq!(twist_pieces(LayerMask(0b000), &spans), Ok(vec![]));
}

#[test]
fn a_piece_across_the_boundary_blocks_the_twist() {
    let spans = vec![LayerMask(0b001), LayerMask(0b011), LayerMask(0b100), LayerMask(0b110)];
    assert_eq!(twist_pieces(LayerMask(0b001), &spans), Err(vec![1]));
    assert_eq!(twist_pieces(LayerMask(0b010), &spans), Err(vec![1, 3]));
}
