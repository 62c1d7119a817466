use speedsun::input::is_builtin;
use speedsun::reference::{Area, Block, Cell, KeybindReference, place, KEY};

fn all_areas() -> Vec<Area> {
    vec![
        Block::Function.area("Super"),
        Block::Main.area("Super"),
        Block::Mouse.area("Super"),
        Block::Arrows.area("Super"),
    ]
}

fn row_width(row: &[(Cell, u32)]) -> u32 {
    row.iter().map(|(_, width)| width).sum()
}

/// the layout is a hand-typed table of key widths, and a keyboard row that
/// doesn't add up puts every key after it in the wrong place.
#[test]
fn every_row_fits_its_block() {
    for area in all_areas() {
        for row in &area.rows {
            let width = row_width(row);
            assert!(
                width <= area.right - area.left,
                "a row is {width} wide in a block {} wide",
                area.right - area.left
            );
        }
        assert!(area.rows.len() as u32 * KEY <= area.bottom - area.top);
    }
    // the main block is a real keyboard: every row is exactly full.
    let main = Block::Main.area("Super");
    for row in &main.rows {
        let width = row_width(row);
        assert!(
            width == main.right - main.left,
            "row is {width} wide, not {}",
            main.right - main.left
        );
    }
}

/// every key cell names a variable the keybind system can actually
/// resolve; a typo here would silently show an empty key forever.
#[test]
fn every_cell_names_a_real_variable() {
    for area in all_areas() {
        for row in &area.rows {
            for (cell, _) in row {
                let Some(variable) = cell.variable() else {
                    continue;
                };
                // unbound is fine; unknown is not.
                assert!(is_builtin(&variable), "no builtin variable named `{variable}`");
            }
        }
    }
}

#[test]
fn dead_keys_and_gaps_stand_for_nothing() {
    assert_eq!(Cell::Dead("Caps").variable(), None);
    assert_eq!(Cell::Gap.variable(), None);
    assert_eq!(Cell::Key("r").variable(), Some("key_r".to_string()));
    assert_eq!(Cell::Var("mouse_left", "LMB").variable(), Some("mouse_left".to_string()));
}

#[test]
fn the_super_key_is_labeled_as_asked() {
    let main = Block::Main.area("Cmd");
    let labels: Vec<&str> = main.rows[4]
        .iter()
        .filter_map(|(cell, _)| match cell {
            Cell::Var("key_command", label) => Some(*label),
            _ => None,
        })
        .collect();
    assert_eq!(labels, vec!["Cmd", "Cmd"]);
}

#[test]
fn placed_cells_follow_each_other_and_stay_inside() {
    let main = Block::Main.area("Super");
    let placed = place(&main);
    assert_eq!(placed.len(), 5);
    // the space bar row: ctrl, super, alt, then the space bar from 15 to 40.
    let space = &placed[4][3];
    assert_eq!((space.left, space.right), (15, 40));
    assert_eq!((space.top, space.bottom), (21, 25));
    for row in &placed {
        for p in row {
            assert!(main.left <= p.left && p.right <= main.right);
            assert!(main.top <= p.top && p.bottom <= main.bottom);
        }
        assert_eq!(row.last().unwrap().right, main.right);
    }
}

#[test]
fn the_default_reference_shows_arrows_and_mouse() {
    let reference = KeybindReference::default();
    assert!(!reference.open);
    assert_eq!(reference.blocks(), vec![Block::Main, Block::Arrows, Block::Mouse]);
    assert_eq!(reference.extent(), (0, 5, 60, 34));
    let all = KeybindReference { show_function_keys: true, ..reference };
    assert_eq!(all.extent(), (0, 0, 60, 34));
    let bare = KeybindReference { show_arrow_keys: false, show_mouse_buttons: false, ..reference };
    assert_eq!(bare.blocks(), vec![Block::Main]);
    assert_eq!(bare.extent(), (0, 5, 60, 25));
}
