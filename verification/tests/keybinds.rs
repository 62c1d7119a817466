use speedsun::bindings::{BindCommand, Node, binding, reorient_command, twist_command};
use speedsun::commands::Command;
use speedsun::expr::{ExprField, Value};
use speedsun::input::{InputContext, InputState, Modifiers};
use speedsun::keybinds::{FrameInput, InputEvent, Keybinds};
use speedsun::puzzle::{LayerMask, Side, Twist};
use speedsun::vars::{UserVar, UserVars};

/// stage one frame: clear the per-pass press marks, let `setup` mutate the
/// persistent input the way this frame's events (or a reference click)
/// would, then run the pass.
fn frame(keybinds: &mut Keybinds, setup: impl FnOnce(&mut InputState)) -> Vec<Command> {
    keybinds.input.pressed.clear();
    keybinds.input.mouse_pressed = [false; 3];
    setup(&mut keybinds.input);
    keybinds.run_pass()
}

/// the default variables, but a hand-written binding tree.
fn keybinds_with(root: Vec<Node>) -> Keybinds {
    Keybinds { root, ..Keybinds::default() }
}

#[test]
fn a_held_key_twists_once() {
    let mut keybinds = Keybinds::default();
    let commands = frame(&mut keybinds, |i| i.press("r"));
    assert!(matches!(
        commands[..],
        [Command::Twist {
            twist: Twist { side: Side::R, layers: LayerMask(1), multiplicity: 1 },
            ..
        }]
    ));
    // still held: no new edge, no repeat.
    assert!(frame(&mut keybinds, |_| {}).is_empty());
    // released and pressed again: another twist.
    assert!(frame(&mut keybinds, |i| i.release("r")).is_empty());
    assert_eq!(frame(&mut keybinds, |i| i.press("r")).len(), 1);
}

#[test]
fn a_tap_too_short_to_span_a_frame_still_fires() {
    let mut keybinds = Keybinds::default();
    // press and release inside one frame: the key is down for that frame,
    // so the twist isn't lost.
    assert_eq!(
        frame(&mut keybinds, |i| {
            i.press("r");
            i.release("r");
        })
        .len(),
        1
    );
    // the next frame clears the press mark: nothing stays held, and it
    // doesn't fire a second time.
    assert!(frame(&mut keybinds, |_| {}).is_empty());
    assert!(!keybinds.is_down("key_r"));
}

#[test]
fn shift_inverts_through_the_invert_expression() {
    let mut keybinds = Keybinds::default();
    let commands = frame(&mut keybinds, |i| {
        i.modifiers.shift = true;
        i.press("r");
    });
    assert!(matches!(
        commands[..],
        [Command::Twist { twist: Twist { multiplicity: -1, .. }, .. }]
    ));
}

#[test]
fn guards_dont_fire_on_their_own_edge() {
    // press r with the guard false...
    let mut keybinds = keybinds_with(vec![binding("key_r", "toggle", twist_command("R", "false"))]);
    keybinds.vars.push(UserVar { name: "toggle".to_string(), value: Value::Bool(false), pinned: false });
    assert!(frame(&mut keybinds, |i| i.press("r")).is_empty());
    // ...then make the guard true while r is still held. the guard's own
    // edge is not the trigger's, so nothing fires.
    assert!(keybinds.replace_var("toggle", Value::Bool(true)));
    assert!(frame(&mut keybinds, |_| {}).is_empty());
}

#[test]
fn the_mouse_twists_the_hovered_grip() {
    let mut keybinds = Keybinds::default();
    // hovering without pressing does nothing.
    assert!(frame(&mut keybinds, |i| i.hovered_grip = Some(Side::U)).is_empty());
    let commands = frame(&mut keybinds, |i| {
        i.hovered_grip = Some(Side::U);
        i.mouse_press(0);
    });
    assert!(matches!(
        commands[..],
        [Command::Twist { twist: Twist { side: Side::U, multiplicity: 1, .. }, .. }]
    ));
    // pressing with no grip under the pointer is guarded out.
    let mut keybinds = Keybinds::default();
    assert!(frame(&mut keybinds, |i| i.mouse_press(0)).is_empty());
}

#[test]
fn the_default_mask_variable_drives_the_twist() {
    let mut keybinds = Keybinds::default();
    assert!(keybinds.replace_var("default_mask", Value::Mask(LayerMask(0b011))));
    let commands = frame(&mut keybinds, |i| i.press("f"));
    assert!(matches!(
        commands[..],
        [Command::Twist { twist: Twist { layers: LayerMask(0b011), .. }, .. }]
    ));
}

#[test]
fn preview_labels_a_key_without_doing_anything() {
    let mut keybinds = Keybinds::default();
    // the reference asks this of every key, every frame.
    let preview = keybinds.preview("key_r", None).expect("r is bound");
    assert_eq!(preview.label, "R/2");
    assert_eq!(preview.location, "twists / key_r");
    assert!(keybinds.preview("key_q", None).is_none());
    // nothing moved: a preview is a question, not a press.
    assert!(frame(&mut keybinds, |_| {}).is_empty());

    // it answers for the state as it is, so a held modifier changes it.
    frame(&mut keybinds, |i| i.modifiers.shift = true);
    assert_eq!(keybinds.preview("key_r", None).unwrap().label, "R/2'");
    // and a key already held down still previews, so the reference doesn't
    // blank out the key you're pressing.
    frame(&mut keybinds, |i| {
        i.modifiers.shift = false;
        i.press("r");
    });
    assert_eq!(keybinds.preview("key_r", None).unwrap().label, "R/2");
}

#[test]
fn preview_answers_what_clicking_a_gizmo_would_twist() {
    let keybinds = Keybinds::default();
    // the pointer is nowhere near a gizmo, so a click does nothing...
    assert!(keybinds.preview("mouse_left", None).is_none());
    // ...but the gizmos ask the hypothetical anyway.
    let preview = keybinds.preview("mouse_left", Some(Side::U)).expect("the default set twists on left click");
    assert_eq!(preview.label, "U/2");
    assert!(matches!(
        preview.command,
        Some(Command::Twist { twist: Twist { side: Side::U, .. }, .. })
    ));
}

#[test]
fn clicking_the_reference_toggles_a_key() {
    let mut keybinds = Keybinds::default();
    keybinds.toggle("key_r");
    // clicking it down is a press...
    assert_eq!(frame(&mut keybinds, |_| {}).len(), 1);
    assert!(keybinds.is_down("key_r"));
    // ...and staying down is not another one.
    assert!(frame(&mut keybinds, |_| {}).is_empty());
    // it reads as down everywhere, so a guard on it sees it too. previews
    // are against the last pass, which the app runs every frame.
    keybinds.toggle("key_shift");
    frame(&mut keybinds, |_| {});
    assert_eq!(keybinds.preview("key_u", None).unwrap().label, "U/2'");
    // clicking again releases it, and a release fires nothing.
    keybinds.toggle("key_r");
    assert!(!keybinds.is_down("key_r"));
    assert!(frame(&mut keybinds, |_| {}).is_empty());
}

#[test]
fn a_physical_press_while_clicked_down_is_not_an_edge() {
    let mut keybinds = Keybinds::default();
    keybinds.toggle("key_r");
    assert_eq!(frame(&mut keybinds, |_| {}).len(), 1);

    // press it for real while it's already down: the variable was already
    // true, so there's no false -> true edge and nothing fires.
    assert!(frame(&mut keybinds, |i| i.press("r")).is_empty());
    assert!(keybinds.is_down("key_r"));
    // releasing it clears the same bit the click set.
    assert!(frame(&mut keybinds, |i| i.release("r")).is_empty());
    assert!(!keybinds.is_down("key_r"));
    // now that it's up, a fresh press really is an edge.
    assert_eq!(frame(&mut keybinds, |i| i.press("r")).len(), 1);
}

#[test]
fn a_real_press_doesnt_answer_for_other_keys() {
    let mut keybinds = Keybinds::default();
    // r is pressed for real this pass. asking what q would do must not
    // come back with r's twist.
    frame(&mut keybinds, |i| i.press("r"));
    assert!(keybinds.preview("key_q", None).is_none());
    assert_eq!(keybinds.preview("key_r", None).unwrap().label, "R/2");
}

#[test]
fn a_folder_guard_hides_its_bindings() {
    let mut keybinds = Keybinds::default();
    let Node::Folder(twists) = &mut keybinds.root[0] else {
        panic!("the first default folder is the twists");
    };
    twists.guard = ExprField::new("false");
    assert!(frame(&mut keybinds, |i| i.press("r")).is_empty());
}

#[test]
fn a_reorientation_cant_be_45_degrees() {
    let mut keybinds = keybinds_with(vec![binding("key_a", "true", reorient_command("U", "false"))]);
    let Node::Binding(b) = &mut keybinds.root[0] else {
        unreachable!()
    };
    let BindCommand::Reorient { multiplicity, .. } = &mut b.command else {
        unreachable!()
    };
    *multiplicity = ExprField::new("1");
    assert!(frame(&mut keybinds, |i| i.press("a")).is_empty());
    // and it says why, rather than failing silently.
    assert!(keybinds.last_fired[0].action.is_err());
}

// Mask literals list 0-based layers, as the parser and the expression tests
// read them (`{0,1}` is 0b011 and `{3}` is out of range), so `{1,2}` is layers
// 1 and 2: 0b110, not 0b011, which would read the layers as 1-based.
#[test]
fn setting_a_variable_is_a_command() {
    let mut keybinds = keybinds_with(vec![binding(
        "key_a",
        "true",
        BindCommand::SetVar { name: "default_mask".to_string(), value: ExprField::new("{1,2}") },
    )]);
    frame(&mut keybinds, |i| i.press("a"));
    assert_eq!(keybinds.default_mask(), LayerMask(0b110));
}

#[test]
fn setting_a_variable_of_another_type_is_an_error() {
    let mut keybinds = keybinds_with(vec![binding(
        "key_a",
        "true",
        BindCommand::SetVar { name: "default_mask".to_string(), value: ExprField::new("true") },
    )]);
    assert!(frame(&mut keybinds, |i| i.press("a")).is_empty());
    assert_eq!(keybinds.default_mask(), LayerMask(1));
    assert_eq!(keybinds.errors.len(), 1);
}

#[test]
fn an_unknown_trigger_is_reported_every_pass() {
    let mut keybinds = keybinds_with(vec![binding("key_nope", "true", BindCommand::Undo)]);
    assert!(frame(&mut keybinds, |_| {}).is_empty());
    assert_eq!(keybinds.errors.len(), 1);
    assert!(frame(&mut keybinds, |_| {}).is_empty());
    assert_eq!(keybinds.errors.len(), 1);
}

#[test]
fn only_the_first_fired_binding_runs() {
    let mut keybinds = keybinds_with(vec![
        binding("key_a", "true", BindCommand::Undo),
        binding("key_a", "true", BindCommand::Redo),
    ]);
    let commands = frame(&mut keybinds, |i| i.press("a"));
    assert_eq!(commands, vec![Command::Undo]);
    assert_eq!(keybinds.last_fired.len(), 2);
}

#[test]
fn the_default_set_undoes_on_cmd_z() {
    let mut keybinds = Keybinds::default();
    let commands = frame(&mut keybinds, |i| {
        i.modifiers.command = true;
        i.press("z");
    });
    assert_eq!(commands, vec![Command::Undo]);
    assert_eq!(keybinds.has_pinned(), true);
    assert_eq!(keybinds.var("default_multiplicity"), Some(Value::Multiplicity(1)));
}

#[test]
fn collect_folds_events_into_the_input() {
    let mut keybinds = Keybinds::default();
    let context = InputContext { hovered_grip: None, hovered_grip_inverted: false };
    let press_r = FrameInput {
        blocked: false,
        events: vec![InputEvent::Key { key: "r".to_string(), pressed: true, repeat: false }],
        modifiers: Modifiers::none(),
    };
    assert_eq!(keybinds.collect(&context, &press_r).len(), 1);
    assert!(keybinds.is_down("key_r"));
    // a repeat is not a new press.
    let repeat = FrameInput {
        blocked: false,
        events: vec![InputEvent::Key { key: "r".to_string(), pressed: true, repeat: true }],
        modifiers: Modifiers::none(),
    };
    assert!(keybinds.collect(&context, &repeat).is_empty());
    // a blocked frame reads everything as up.
    let blocked = FrameInput { blocked: true, events: vec![], modifiers: Modifiers::none() };
    assert!(keybinds.collect(&context, &blocked).is_empty());
    assert!(!keybinds.is_down("key_r"));
}

#[test]
fn setting_a_variable_nobody_declared_is_an_error() {
    let mut keybinds = keybinds_with(vec![binding(
        "key_a",
        "true",
        BindCommand::SetVar { name: "nope".to_string(), value: ExprField::new("true") },
    )]);
    assert!(frame(&mut keybinds, |i| i.press("a")).is_empty());
    assert_eq!(keybinds.errors, vec!["no variable named `nope`".to_string()]);
}

#[test]
fn the_retype_error_names_both_types() {
    let mut keybinds = keybinds_with(vec![binding(
        "key_a",
        "true",
        BindCommand::SetVar { name: "default_mask".to_string(), value: ExprField::new("true") },
    )]);
    frame(&mut keybinds, |i| i.press("a"));
    assert_eq!(keybinds.errors, vec!["`default_mask` is a mask, not a bool".to_string()]);
}

#[test]
fn a_command_that_would_negate_minus_128_is_an_error() {
    let vars = vec![UserVar { name: "m".to_string(), value: Value::Multiplicity(i8::MIN), pinned: false }];
    let env = UserVars::Live(&vars);
    let twist = |invert: &str| BindCommand::Twist {
        grip: ExprField::new("U"),
        layers: ExprField::new("{0}"),
        multiplicity: ExprField::new("m"),
        invert: ExprField::new(invert),
    };
    assert!(twist("false").eval(&env).is_ok());
    assert_eq!(
        twist("true").eval(&env).err(),
        Some("the multiplicity -128 cannot be negated".to_string())
    );
    let reorient = |grip: &str| BindCommand::Reorient {
        grip: ExprField::new(grip),
        multiplicity: ExprField::new("m"),
        invert: ExprField::new("false"),
    };
    assert!(reorient("R").eval(&env).is_ok());
    assert_eq!(
        reorient("L").eval(&env).err(),
        Some("the multiplicity -128 cannot be negated".to_string())
    );
}

#[test]
fn the_default_set_starts_with_nothing_held() {
    let keybinds = Keybinds::default();
    assert_eq!(keybinds.input.modifiers, Modifiers::none());
    assert_eq!(keybinds.prev_input.modifiers, Modifiers::none());
    assert!(!keybinds.input.hovered_grip_inverted);
    assert!(keybinds.prev_input.hovered_grip.is_none());
    assert_eq!(keybinds.prev_input.mouse_pressed, [false; 3]);
}
