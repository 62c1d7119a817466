use speedsun::bindings::Color;
use speedsun::editor::held_text;
use speedsun::expr::Value;
use speedsun::filter_edit::SideState;
use speedsun::filters::{
    CompleteStyle, FaceColor, FilterStyle, Filters, IncludePrev, PartialStyle, PieceSet, PieceSetTerm,
    SelectedSeqStage, SideSet, StageTerm, StyleIdx, Styles, UserStyle,
};
use speedsun::input::{is_builtin, key_name, key_variable};
use speedsun::keybinds::Keybinds;
use speedsun::puzzle::{Grip, LayerMask, Side};
use speedsun::vars::{UserVar, builtins, is_known};

fn none() -> PartialStyle<f32> {
    PartialStyle::none()
}

fn styles() -> Styles<f32> {
    Styles {
        basic: CompleteStyle {
            face_opacity: 1.0,
            face_color: FaceColor::Sticker,
            outline_opacity: 1.0,
            outline_size: 1.0,
            outline_color: Color::from_rgb(0, 0, 0),
        },
        hovered: PartialStyle { outline_size: Some(2.0), ..none() },
        selected: PartialStyle { outline_size: Some(3.0), ..none() },
        user: vec![
            UserStyle { name: "hidden".to_string(), style: PartialStyle { face_opacity: Some(0.05), ..none() } },
            UserStyle { name: "gray".to_string(), style: PartialStyle { face_opacity: Some(0.2), ..none() } },
        ],
    }
}

fn piece(sides: &[Side]) -> SideSet {
    SideSet::of(&sides.to_vec())
}

#[test]
fn a_side_cycles_may_must_cant() {
    assert_eq!(SideState::May.next(), SideState::Must);
    assert_eq!(SideState::Must.next(), SideState::Cant);
    assert_eq!(SideState::Cant.next(), SideState::May);
    for s in [SideState::May, SideState::Must, SideState::Cant] {
        assert_eq!(s.next().prev(), s);
    }
    let mut term = PieceSetTerm::default();
    assert_eq!(term.side_state(Side::R), SideState::May);
    term.set_side_state(Side::R, SideState::Must);
    term.set_side_state(Side::F, SideState::Cant);
    assert_eq!(term.label(), "R!F");
    term.set_side_state(Side::R, SideState::Cant);
    assert_eq!(term.side_state(Side::R), SideState::Cant);
    assert_eq!(term.label(), "!RF");
}

#[test]
fn sequences_and_stages_come_and_go() {
    let mut filters = Filters::new(styles());
    filters.add_sequence();
    assert_eq!(filters.sequences[1].name, "sequence 1");
    // a copy of the selected stage 0 of sequence 0.
    filters.append_stage(1);
    assert_eq!(filters.sequences[1].stages[1].name, "stage 0 copy");
    filters.select(SelectedSeqStage::Stage { seq: 1, stage: 1 });
    filters.remove_stage(1, 1);
    assert_eq!(filters.selected_seq_stage, SelectedSeqStage::Stage { seq: 1, stage: 0 });
    filters.remove_sequence(0);
    assert_eq!(filters.selected_seq_stage, SelectedSeqStage::Stage { seq: 0, stage: 0 });
    filters.remove_sequence(0);
    assert_eq!(filters.selected_seq_stage, SelectedSeqStage::NoStage);
    assert!(filters.sequences.is_empty());
    filters.add_sequence();
    filters.append_stage(0);
    assert_eq!(filters.sequences[0].stages[1].name, "stage 1");
}

#[test]
fn removing_a_user_style_keeps_what_it_drew() {
    let mut filters = Filters::new(styles());
    let stage = &mut filters.sequences[0].stages[0];
    stage.terms.clear();
    stage.terms.push(StageTerm { set: PieceSet { terms: vec![PieceSetTerm::default()] }, style: FilterStyle::User(0) });
    stage.include_prev = IncludePrev::Dont;
    filters.sequences[0].fallback = FilterStyle::User(1);
    filters.selected_style_idx = StyleIdx::User(1);
    assert_eq!(filters.style_of(piece(&[Side::R])).face_opacity, 0.05);
    filters.remove_user_style(0);
    assert_eq!(filters.styles.user.len(), 1);
    assert_eq!(filters.style_of(piece(&[Side::R])).face_opacity, 0.05);
    assert!(matches!(filters.sequences[0].stages[0].terms[0].style, FilterStyle::Literal(_)));
    assert!(matches!(filters.sequences[0].fallback, FilterStyle::User(0)));
    // the editor's selection moves only once it is past the new end.
    assert_eq!(filters.selected_style_idx, StyleIdx::User(1));
    filters.selected_style_idx = StyleIdx::User(0);
    filters.add_user_style();
    assert_eq!(filters.styles.user[1].name, "gray copy");
}

#[test]
fn a_selection_past_the_end_moves_to_the_last_style() {
    let mut filters = Filters::new(styles());
    filters.selected_style_idx = StyleIdx::User(5);
    filters.remove_user_style(0);
    assert_eq!(filters.selected_style_idx, StyleIdx::User(0));
    filters.selected_style_idx = StyleIdx::User(3);
    filters.remove_user_style(0);
    assert_eq!(filters.selected_style_idx, StyleIdx::Basic);
}

#[test]
fn hover_and_selection_style_a_piece_on_top_of_the_filter() {
    let filters = Filters::new(styles());
    let plain = filters.style_of_state(piece(&[Side::U]), false, false);
    assert_eq!(plain.outline_size, 1.0);
    assert_eq!(filters.style_of_state(piece(&[Side::U]), false, true).outline_size, 3.0);
    // the hovered style wins over the selected one.
    assert_eq!(filters.style_of_state(piece(&[Side::U]), true, true).outline_size, 2.0);
}

#[test]
fn a_twist_moves_stays_or_is_blocked() {
    let outer = LayerMask::outer();
    assert_eq!(outer.grip(LayerMask(0b001)), Grip::Moves);
    assert_eq!(outer.grip(LayerMask(0b010)), Grip::Stays);
    assert_eq!(outer.grip(LayerMask(0b011)), Grip::Blocks);
    assert_eq!(LayerMask(0b011).grip(LayerMask(0b011)), Grip::Moves);
    assert_eq!(LayerMask::all().grip(LayerMask(0b111)), Grip::Moves);
}

#[test]
fn key_names_are_egui_names_lowercased() {
    // egui lists the arrow keys first, starting with the down arrow.
    assert_eq!(key_name(0), Some("arrowdown".to_string()));
    assert_eq!(key_variable(0), Some("key_arrowdown".to_string()));
    assert_eq!(key_name(100_000), None);
    assert!(is_builtin("key_r"));
    assert!(is_builtin("key_arrowdown"));
    assert!(!is_builtin("key_R"));
    assert!(!is_builtin("keyr"));
}

#[test]
fn known_names_are_builtins_or_declared() {
    let vars = vec![UserVar { name: "toggle".to_string(), value: Value::Bool(false), pinned: false }];
    assert!(is_known("toggle", &vars));
    assert!(is_known("mouse_left", &vars));
    assert!(!is_known("nope", &vars));
    let list = builtins();
    assert_eq!(list.len(), 9);
    assert_eq!(list[0].0, "hovered_grip");
    assert!(list.iter().all(|(name, _)| is_builtin(name)));
}

#[test]
fn the_editor_adds_variables_and_lists_held_keys() {
    let mut keybinds = Keybinds::default();
    keybinds.add_variable();
    assert_eq!(keybinds.vars[2].name, "var2");
    assert_eq!(keybinds.vars[2].value, Value::Bool(false));
    assert_eq!(held_text(&vec!["r".to_string(), "space".to_string()]), "key_r key_space");
    assert_eq!(held_text(&vec![]), "");
}
