use speedsun::bindings::Color;
use speedsun::filters::{
    CompleteStyle, FaceColor, FilterStyle, Filters, IncludePrev, PartialStyle, PieceSet, PieceSetTerm,
    SelectedSeqStage, SideSet, Stage, StageTerm, StyleIdx, Styles, UserStyle, piece_sides,
};
use speedsun::puzzle::Side;

fn black() -> Color {
    Color::from_rgb(0, 0, 0)
}

fn none() -> PartialStyle<f32> {
    PartialStyle::none()
}

/// the builtin styles as the app starts with them.
fn default_styles() -> Styles<f32> {
    Styles {
        basic: CompleteStyle {
            face_opacity: 1.0,
            face_color: FaceColor::Sticker,
            outline_opacity: 1.0,
            outline_size: 1.0,
            outline_color: black(),
        },
        hovered: PartialStyle {
            outline_opacity: Some(1.0),
            outline_size: Some(2.0),
            outline_color: Some(Color::from_rgb(255, 255, 255)),
            ..none()
        },
        selected: PartialStyle {
            outline_opacity: Some(1.0),
            outline_size: Some(2.0),
            outline_color: Some(Color::from_rgb(190, 190, 190)),
            ..none()
        },
        user: vec![UserStyle {
            name: "hidden".to_string(),
            style: PartialStyle { face_opacity: Some(0.05), face_color: Some(FaceColor::Sticker), ..none() },
        }],
    }
}

fn default_filters() -> Filters<f32> {
    Filters::new(default_styles())
}

/// a piece with one sticker per given side.
fn piece(sides: &[Side]) -> SideSet {
    SideSet::of(&sides.to_vec())
}

fn term(must_have: &[Side], cant_have: &[Side]) -> PieceSetTerm {
    PieceSetTerm { must_have: SideSet::of(&must_have.to_vec()), cant_have: SideSet::of(&cant_have.to_vec()) }
}

fn opacity(o: f32) -> FilterStyle<f32> {
    FilterStyle::Literal(PartialStyle { face_opacity: Some(o), ..none() })
}

#[test]
fn set_term_semantics() {
    let ruf = piece(&[Side::R, Side::U, Side::F]);
    // empty term matches everything.
    assert!(term(&[], &[]).contains(ruf));
    // must_have is a subset check, not an exact match.
    assert!(term(&[Side::R], &[]).contains(ruf));
    assert!(term(&[Side::R, Side::U], &[]).contains(ruf));
    assert!(!term(&[Side::R, Side::B], &[]).contains(ruf));
    // cant_have excludes.
    assert!(!term(&[Side::R], &[Side::F]).contains(ruf));
    assert!(term(&[Side::R], &[Side::B]).contains(ruf));
}

#[test]
fn style_of_applies_term_and_fallback() {
    let mut filters = default_filters();
    // drop the seeded "all pieces get basic" term: it's complete and
    // earlier terms win per-field, so it would mask the term under test.
    filters.sequences[0].stages[0].terms.clear();
    filters.sequences[0].stages[0].terms.push(StageTerm {
        set: PieceSet { terms: vec![term(&[Side::R], &[])] },
        style: opacity(0.25),
    });

    // matching piece: the term's opacity, other fields from the default.
    let styled = filters.style_of(piece(&[Side::R, Side::U]));
    assert_eq!(styled.face_opacity, 0.25);
    assert_eq!(styled.outline_opacity, 1.0);
    // non-matching piece: the fallback (here, the default style).
    let fallback = filters.style_of(piece(&[Side::L]));
    assert_eq!(fallback.face_opacity, 1.0);
}

#[test]
fn no_selection_shows_basic() {
    let mut filters = default_filters();
    // a stage that styles everything at 0.25...
    let stage = &mut filters.sequences[0].stages[0];
    stage.terms.clear();
    stage.terms.push(StageTerm { set: PieceSet { terms: vec![term(&[], &[])] }, style: opacity(0.25) });
    assert_eq!(filters.style_of(piece(&[Side::R])).face_opacity, 0.25);

    // ...is ignored once no stage is selected: everything gets basic.
    filters.selected_seq_stage = SelectedSeqStage::NoStage;
    assert_eq!(filters.style_of(piece(&[Side::R])).face_opacity, 1.0);
}

#[test]
fn earlier_terms_win() {
    let mut filters = default_filters();
    let stage = &mut filters.sequences[0].stages[0];
    // terms read top-down like match arms: a narrowed term first, then a
    // complete catch-all below it.
    stage.terms.clear();
    stage.terms.push(StageTerm { set: PieceSet { terms: vec![term(&[Side::R], &[])] }, style: opacity(0.25) });
    stage.terms.push(StageTerm::new(FilterStyle::Basic));

    // the earlier term wins where it matches, even though the later
    // catch-all is complete; its unset fields fall to the catch-all.
    let styled = filters.style_of(piece(&[Side::R]));
    assert_eq!(styled.face_opacity, 0.25);
    assert_eq!(styled.outline_opacity, 1.0);
    // pieces the earlier term doesn't match get the catch-all.
    let unmatched = filters.style_of(piece(&[Side::L]));
    assert_eq!(unmatched.face_opacity, 1.0);
}

#[test]
fn fallback_chain() {
    let mut filters = default_filters();
    let seq = &mut filters.sequences[0];
    // drop the seeded "all pieces get basic" term so that pieces are
    // unmatched and actually reach the fallbacks.
    seq.stages[0].terms.clear();
    seq.fallback = FilterStyle::Literal(PartialStyle { face_opacity: Some(0.5), outline_size: Some(2.0), ..none() });
    seq.stages[0].fallback = opacity(0.25);

    let styled = filters.style_of(piece(&[Side::R]));
    // the stage fallback shadows the sequence fallback,
    assert_eq!(styled.face_opacity, 0.25);
    // which fills what the stage fallback leaves unset,
    assert_eq!(styled.outline_size, 2.0);
    // and the default completes the rest.
    assert_eq!(styled.outline_opacity, 1.0);
}

#[test]
fn include_prev_carries_the_prev_stage_style() {
    let mut filters = default_filters();
    let seq = &mut filters.sequences[0];
    // drop the seeded "all pieces get basic" terms (here and in stage 1
    // below): they're complete and would mask the styles under test.
    seq.stages[0].terms.clear();
    seq.stages[0].terms.push(StageTerm { set: PieceSet { terms: vec![term(&[Side::R], &[])] }, style: opacity(0.25) });
    let mut stage1 = Stage::new("stage 1".to_string(), FilterStyle::Basic);
    stage1.include_prev = IncludePrev::Prev;
    stage1.terms.clear();
    seq.stages.push(stage1);
    filters.selected_seq_stage = SelectedSeqStage::Stage { seq: 0, stage: 1 };

    let styled = filters.style_of(piece(&[Side::R]));
    assert_eq!(styled.face_opacity, 0.25);
    let fallback = filters.style_of(piece(&[Side::L]));
    assert_eq!(fallback.face_opacity, 1.0);
}

#[test]
fn include_prev_fixed_restyles_what_the_prev_stage_matched() {
    let mut filters = default_filters();
    let seq = &mut filters.sequences[0];
    seq.stages[0].terms.clear();
    seq.stages[0].terms.push(StageTerm { set: PieceSet { terms: vec![term(&[Side::U], &[])] }, style: opacity(0.25) });
    let mut stage1 = Stage::new("stage 1".to_string(), FilterStyle::Basic);
    stage1.include_prev = IncludePrev::Fixed(FilterStyle::User(0));
    stage1.terms.clear();
    seq.stages.push(stage1);
    filters.selected_seq_stage = SelectedSeqStage::Stage { seq: 0, stage: 1 };
    // matched by stage 0: the fixed style, not stage 0's.
    let styled = filters.style_of(piece(&[Side::U]));
    assert_eq!(styled.face_opacity, 0.05);
    // not matched: the fallback.
    assert_eq!(filters.style_of(piece(&[Side::D])).face_opacity, 1.0);
}

#[test]
fn labels_read_like_the_filter_syntax() {
    assert_eq!(term(&[], &[]).label(), "all");
    assert_eq!(term(&[Side::U, Side::R], &[]).label(), "RU");
    assert_eq!(term(&[], &[Side::F]).label(), "!F");
    assert_eq!(term(&[Side::R, Side::U], &[Side::F, Side::L]).label(), "RU!FL");
    assert_eq!(PieceSet { terms: vec![] }.label(), "none");
    let set = PieceSet { terms: vec![term(&[Side::R], &[]), term(&[], &[Side::B])] };
    assert_eq!(set.label(), "R + !B");
    assert!(set.contains(piece(&[Side::L])));
    assert!(!set.contains(piece(&[Side::B])));
    assert!(set.contains(piece(&[Side::R, Side::B])));
}

#[test]
fn a_piece_has_the_sides_of_its_facing_stickers() {
    let sides = piece_sides(&vec![Some(Side::R), None, Some(Side::U)]);
    assert!(sides.contains(Side::R));
    assert!(sides.contains(Side::U));
    assert!(!sides.contains(Side::F));
}

#[test]
fn styles_merge_field_by_field() {
    let a = PartialStyle { face_opacity: Some(0.25f32), ..none() };
    let b = PartialStyle { face_opacity: Some(0.5), outline_size: Some(3.0), ..none() };
    let merged = a.or(&b);
    assert_eq!(merged.face_opacity, Some(0.25));
    assert_eq!(merged.outline_size, Some(3.0));
    assert_eq!(merged.face_color, None);
    let complete = merged.unwrap_or(&default_styles().basic);
    assert_eq!(complete.outline_opacity, 1.0);
    assert_eq!(complete.face_color, FaceColor::Sticker);
}

#[test]
fn named_styles_are_found_by_index() {
    let styles = default_styles();
    assert!(matches!(styles.get(StyleIdx::User(0)), FilterStyle::User(0)));
    assert_eq!(FilterStyle::<f32>::User(0).name(&styles), "hidden");
    assert_eq!(FilterStyle::<f32>::Basic.name(&styles), "basic");
    assert_eq!(FilterStyle::<f32>::Hovered.style(&styles).outline_size, Some(2.0));
    assert_eq!(StyleIdx::builtin(), vec![StyleIdx::Basic, StyleIdx::Hovered, StyleIdx::Selected]);
}

#[test]
fn a_new_filter_draws_everything_basic() {
    let filters = default_filters();
    assert_eq!(filters.selected_seq_stage, SelectedSeqStage::Stage { seq: 0, stage: 0 });
    assert_eq!(filters.sequences[0].name, "sequence 0");
    assert_eq!(filters.sequences[0].stages[0].name, "stage 0");
    assert_eq!(filters.style_of(piece(&[Side::B])).face_opacity, 1.0);
    assert!(filters.selected_stage().is_some());
}
