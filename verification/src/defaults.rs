//! The default keybind set, which is also the worked example of what the
//! system can say.
use vstd::prelude::*;
use crate::bindings::{
    BindCommand, Color, CommandKind, Node, binding, folder, fresh, is_reorient_command, is_twist_command,
    kind_of, reorient_command, twist_command,
};
use crate::expr::Value;
use crate::input::{InputState, KeyNames, Modifiers, ascii_lowercase, is_ascii_text, key_set, to_lowercase};
use crate::keybinds::Keybinds;
use crate::puzzle::{LayerMask, Side, all_sides, side_text};
use crate::text::{owned, push_str};
use crate::vars::UserVar;

verus! {

/// A folder with this name and color whose guard is always true.
pub open spec fn folder_node(n: Node, name: Seq<char>, color: Color) -> bool {
    n matches Node::Folder(f) && f.name@ == name && f.color == color && fresh(f.guard, "true"@)
}

/// What a folder holds; a binding holds nothing.
pub open spec fn node_children(n: Node) -> Seq<Node> {
    match n {
        Node::Folder(f) => f.children@,
        Node::Binding(_) => seq![],
    }
}

/// A binding of `trigger` under `guard` whose command is the default twist
/// of `grip`, inverted by `invert`.
pub open spec fn twist_binding(n: Node, trigger: Seq<char>, guard: Seq<char>, grip: Seq<char>, invert: Seq<char>) -> bool {
    n matches Node::Binding(b) && b.trigger@ == trigger && fresh(b.guard, guard) && is_twist_command(
        b.command,
        grip,
        invert,
    )
}

/// A binding of `trigger` under `guard` whose command is the quarter turn
/// of the whole puzzle about `grip`, inverted by `invert`.
pub open spec fn reorient_binding(n: Node, trigger: Seq<char>, guard: Seq<char>, grip: Seq<char>, invert: Seq<char>) -> bool {
    n matches Node::Binding(b) && b.trigger@ == trigger && fresh(b.guard, guard) && is_reorient_command(
        b.command,
        grip,
        invert,
    )
}

/// A binding of `trigger` under `guard` to a command without arguments.
pub open spec fn plain_binding(n: Node, trigger: Seq<char>, guard: Seq<char>, kind: CommandKind) -> bool {
    n matches Node::Binding(b) && b.trigger@ == trigger && fresh(b.guard, guard) && kind_of(b.command)
        == kind
}

/// The key that twists `side` by default: `key_r` for `R`.
pub open spec fn side_key(side: Side) -> Seq<char> {
    match side {
        Side::R => "key_r"@,
        Side::L => "key_l"@,
        Side::U => "key_u"@,
        Side::D => "key_d"@,
        Side::F => "key_f"@,
        Side::B => "key_b"@,
    }
}

/// A side's key is `key_` and the side's letter, lowercased.
proof fn lemma_side_key(side: Side)
    ensures
        is_ascii_text(side_text(side)),
        "key_"@ + ascii_lowercase(side_text(side)) == side_key(side),
{
    reveal_strlit("key_");
    reveal_strlit("R");
    reveal_strlit("L");
    reveal_strlit("U");
    reveal_strlit("D");
    reveal_strlit("F");
    reveal_strlit("B");
    reveal_strlit("key_r");
    reveal_strlit("key_l");
    reveal_strlit("key_u");
    reveal_strlit("key_d");
    reveal_strlit("key_f");
    reveal_strlit("key_b");
    assert("key_"@ + ascii_lowercase(side_text(side)) =~= side_key(side));
}

/// The two default variables: the pinned mask of the outer layer and a
/// multiplicity of one 45 degree step.
pub open spec fn default_vars(vars: Seq<UserVar>) -> bool {
    &&& vars.len() == 2
    &&& vars[0].name@ == "default_mask"@
    &&& vars[0].value == Value::Mask(LayerMask(1))
    &&& vars[0].pinned
    &&& vars[1].name@ == "default_multiplicity"@
    &&& vars[1].value == Value::Multiplicity(1)
    &&& !vars[1].pinned
}

/// The default tree: twists, reorientations, view, history and mouse.
pub open spec fn default_root(root: Seq<Node>) -> bool {
    let twists = node_children(root[0]);
    let reorient = node_children(root[1]);
    let view = node_children(root[2]);
    let history = node_children(root[3]);
    let mouse = node_children(root[4]);
    &&& root.len() == 5
    &&& folder_node(root[0], "twists"@, Color { r: 120, g: 170, b: 255, a: 255 })
    &&& twists.len() == 6
    &&& forall|i: int|
        0 <= i < 6 ==> twist_binding(
            #[trigger] twists[i],
            side_key(all_sides()[i]),
            "true"@,
            side_text(all_sides()[i]),
            "key_shift"@,
        )
    &&& folder_node(root[1], "reorientations"@, Color { r: 130, g: 210, b: 130, a: 255 })
    &&& reorient.len() == 3
    &&& reorient_binding(reorient[0], "key_x"@, "true"@, "R"@, "key_shift"@)
    &&& reorient_binding(reorient[1], "key_y"@, "true"@, "U"@, "key_shift"@)
    &&& reorient_binding(reorient[2], "key_z"@, "!key_command"@, "F"@, "key_shift"@)
    &&& folder_node(root[2], "view"@, Color { r: 230, g: 200, b: 120, a: 255 })
    &&& view.len() == 1
    &&& plain_binding(view[0], "key_space"@, "true"@, CommandKind::Align)
    &&& folder_node(root[3], "history"@, Color { r: 200, g: 150, b: 230, a: 255 })
    &&& history.len() == 2
    &&& plain_binding(history[0], "key_z"@, "key_command && !key_shift"@, CommandKind::Undo)
    &&& plain_binding(history[1], "key_z"@, "key_command && key_shift"@, CommandKind::Redo)
    &&& folder_node(root[4], "mouse"@, Color { r: 240, g: 160, b: 110, a: 255 })
    &&& mouse.len() == 2
    &&& twist_binding(
        mouse[0],
        "mouse_left"@,
        "hovered_grip != null"@,
        "hovered_grip"@,
        "hovered_grip_inverted"@,
    )
    &&& twist_binding(
        mouse[1],
        "mouse_right"@,
        "hovered_grip != null"@,
        "hovered_grip"@,
        "!hovered_grip_inverted"@,
    )
}

/// Nothing held, nothing remembered from a previous pass.
pub open spec fn fresh_state(k: Keybinds) -> bool {
    &&& fresh_input(k.input)
    &&& fresh_input(k.prev_input)
    &&& k.prev_vars@.len() == 0
    &&& k.physical_modifiers == no_modifiers()
    &&& k.last_fired@.len() == 0
    &&& k.errors@.len() == 0
}

/// No modifier held.
pub open spec fn no_modifiers() -> Modifiers {
    Modifiers { alt: false, ctrl: false, shift: false, mac_cmd: false, command: false }
}

/// Input with nothing held, nothing pressed, no modifier and no grip hovered.
pub open spec fn fresh_input(i: InputState) -> bool {
    &&& key_set(i.keys@) == Set::<Seq<char>>::empty()
    &&& key_set(i.pressed@) == Set::<Seq<char>>::empty()
    &&& i.mouse@ == seq![false, false, false]
    &&& i.mouse_pressed@ == seq![false, false, false]
    &&& i.modifiers == no_modifiers()
    &&& i.hovered_grip is None
    &&& !i.hovered_grip_inverted
}

/// One twist binding per side, `key_r` twisting `R`, inverted by shift.
#[verifier::rlimit(40)]
fn twist_bindings() -> (r: Vec<Node>)
    ensures
        r@.len() == 6,
        forall|i: int|
            0 <= i < 6 ==> twist_binding(
                #[trigger] r@[i],
                side_key(all_sides()[i]),
                "true"@,
                side_text(all_sides()[i]),
                "key_shift"@,
            ),
{
    let sides = Side::all();
    let mut r: Vec<Node> = Vec::new();
    let mut i: usize = 0;
    while i < sides.len()
        invariant
            sides@ == all_sides(),
            i <= 6,
            r@.len() == i,
            forall|j: int|
                0 <= j < i ==> twist_binding(
                    #[trigger] r@[j],
                    side_key(all_sides()[j]),
                    "true"@,
                    side_text(all_sides()[j]),
                    "key_shift"@,
                ),
        decreases 6 - i,
    {
        let side = sides[i];
        let name = side.name();
        let mut key = owned("key_");
        let lower = to_lowercase(name);
        push_str(&mut key, lower.as_str());
        proof {
            lemma_side_key(side);
        }
        assert(key@ == side_key(side));
        r.push(binding(key.as_str(), "true", twist_command(name, "key_shift")));
        i = i + 1;
    }
    r
}

/// The reorientations: x, y and z turn the whole puzzle like R, U and F.
fn reorient_bindings() -> (r: Vec<Node>)
    ensures
        r@.len() == 3,
        reorient_binding(r@[0], "key_x"@, "true"@, "R"@, "key_shift"@),
        reorient_binding(r@[1], "key_y"@, "true"@, "U"@, "key_shift"@),
        reorient_binding(r@[2], "key_z"@, "!key_command"@, "F"@, "key_shift"@),
{
    vec![
        binding("key_x", "true", reorient_command("R", "key_shift")),
        binding("key_y", "true", reorient_command("U", "key_shift")),
        // cmd+z is undo, so plain z is the only z left to reorient with.
        binding("key_z", "!key_command", reorient_command("F", "key_shift")),
    ]
}

/// Undo and redo on cmd+z and cmd+shift+z.
fn history_bindings() -> (r: Vec<Node>)
    ensures
        r@.len() == 2,
        plain_binding(r@[0], "key_z"@, "key_command && !key_shift"@, CommandKind::Undo),
        plain_binding(r@[1], "key_z"@, "key_command && key_shift"@, CommandKind::Redo),
{
    vec![
        binding("key_z", "key_command && !key_shift", BindCommand::Undo),
        binding("key_z", "key_command && key_shift", BindCommand::Redo),
    ]
}

/// The gizmo under the pointer is a grip like any other; shift-hover
/// reports none, which is what keeps piece selection from twisting.
fn mouse_bindings() -> (r: Vec<Node>)
    ensures
        r@.len() == 2,
        twist_binding(
            r@[0],
            "mouse_left"@,
            "hovered_grip != null"@,
            "hovered_grip"@,
            "hovered_grip_inverted"@,
        ),
        twist_binding(
            r@[1],
            "mouse_right"@,
            "hovered_grip != null"@,
            "hovered_grip"@,
            "!hovered_grip_inverted"@,
        ),
{
    vec![
        binding(
            "mouse_left",
            "hovered_grip != null",
            twist_command("hovered_grip", "hovered_grip_inverted"),
        ),
        binding(
            "mouse_right",
            "hovered_grip != null",
            twist_command("hovered_grip", "!hovered_grip_inverted"),
        ),
    ]
}

/// The five default folders.
fn default_tree() -> (r: Vec<Node>)
    ensures
        default_root(r@),
{
    let twists = folder("twists", Color::from_rgb(120, 170, 255), twist_bindings());
    let reorientations = folder("reorientations", Color::from_rgb(130, 210, 130), reorient_bindings());
    let view = folder(
        "view",
        Color::from_rgb(230, 200, 120),
        vec![binding("key_space", "true", BindCommand::Align)],
    );
    let history = folder("history", Color::from_rgb(200, 150, 230), history_bindings());
    let mouse = folder("mouse", Color::from_rgb(240, 160, 110), mouse_bindings());
    vec![twists, reorientations, view, history, mouse]
}

/// `default_mask` and `default_multiplicity`.
fn default_variables() -> (r: Vec<UserVar>)
    ensures
        default_vars(r@),
{
    let r = vec![
        UserVar { name: owned("default_mask"), value: Value::Mask(LayerMask::outer()), pinned: true },
        UserVar { name: owned("default_multiplicity"), value: Value::Multiplicity(1), pinned: false },
    ];
    proof {
        reveal_strlit("default_mask");
        reveal_strlit("default_multiplicity");
    }
    r
}

impl Default for Keybinds {
    /// The default set. `default_multiplicity` is 1, one 45 degree step, the
    /// puzzle's fundamental twist, in the direction a plain keypress and a
    /// left click twist, so `invert` reads as "the other way" everywhere.
    fn default() -> (r: Self)
        ensures
            default_vars(r.vars@),
            default_root(r.root@),
            fresh_state(r),
    {
        let vars = default_variables();
        let root = default_tree();
        Keybinds {
            vars,
            root,
            input: InputState::new(),
            prev_input: InputState::new(),
            prev_vars: Vec::new(),
            physical_modifiers: Modifiers::none(),
            last_fired: Vec::new(),
            errors: Vec::new(),
            names: KeyNames::new(),
        }
    }
}

} // verus!
