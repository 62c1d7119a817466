//! The keybind system: variables, folders of bindings, and the pass that
//! turns input into at most one command per frame.
//!
//! A binding fires on the rising edge of one boolean variable (its trigger,
//! always a variable and never an expression) while its guard (an
//! expression) and every enclosing folder's guard are true. Keeping the edge
//! on a variable is what makes holding a key through a guard change
//! harmless: switching keybind sets while `key_r` is held gives `key_r` no
//! new edge, so nothing fires.
//!
//! Everything the input system knows is a variable, so mousebinds are just
//! keybinds: `mouse_left` and `hovered_grip` are builtins, and the default
//! set binds them exactly the way it binds keys.
use vstd::prelude::*;
use crate::bindings::{
    Action, ActionView, Binding, Color, Fired, FiredView, Folder, Node, command_eval,
    fired_view, fired_views, location, location_text, path_view, root_color,
};
use crate::commands::Command;
use crate::input::{
    InputContext, InputState, KeyNames, Modifiers, apply_modifier_delta, delta, is_key_name,
    key_part, key_set, read, read_spec, strip_key_prefix,
};
use crate::puzzle::LayerMask;
use crate::puzzle::Side;
use crate::expr::{
    Env, Lookup, Type, Value, as_bool, bool_of, field_eval, lookup_of,
    type_text, unknown_variable_text,
};
use crate::text::{owned, push_str, str_eq};
use crate::vars::{
    UserVar, UserVars, Vars, first_value, last_value, vars_lookup,
};

verus! {

/// Did the trigger variable go from not-true to true? While previewing, the
/// only edge is the hypothetical one being asked about; otherwise a variable
/// that was not `true` last pass (or did not exist) and is `true` now rises.
pub open spec fn rising_spec(
    trigger: Seq<char>,
    env: Lookup,
    forced: Option<Seq<char>>,
    prev: Lookup,
) -> Result<bool, Seq<char>> {
    match env(trigger) {
        None => Err(unknown_variable_text(trigger)),
        Some(v) => match as_bool(v) {
            Err(m) => Err(m),
            Ok(false) => Ok(false),
            Ok(true) => match forced {
                Some(f) => Ok(f == trigger),
                None => Ok(!(prev(trigger) == Some(Value::Bool(true)))),
            },
        },
    }
}

/// A pass's findings: the fired bindings in tree order, and the errors of
/// guards and triggers that could not be evaluated.
pub type Findings = (Seq<FiredView>, Seq<Seq<char>>);

pub open spec fn no_findings() -> Findings {
    (seq![], seq![])
}

pub open spec fn join(a: Findings, b: Findings) -> Findings {
    (a.0 + b.0, a.1 + b.1)
}

/// What one binding contributes to a pass.
pub open spec fn binding_spec(
    b: Binding,
    path: Seq<Seq<char>>,
    color: Color,
    env: Lookup,
    forced: Option<Seq<char>>,
    prev: Lookup,
) -> Findings {
    let loc = location_text(path, b.trigger@);
    match rising_spec(b.trigger@, env, forced, prev) {
        Ok(false) => no_findings(),
        Err(e) => (seq![], seq![loc + ": "@ + e]),
        Ok(true) => match bool_of(field_eval(b.guard.parsed_view(), env)) {
            Ok(false) => no_findings(),
            Err(e) => (seq![], seq![loc + ": guard: "@ + e]),
            Ok(true) => (
                seq![FiredView { location: loc, color, action: command_eval(b.command, env) }],
                seq![],
            ),
        },
    }
}

/// What a walk of the folder tree finds: a folder is explored while its
/// guard is true, and a folder guard that cannot be evaluated is an error
/// (the folder is then not explored).
pub open spec fn walk_spec(
    nodes: Seq<Node>,
    path: Seq<Seq<char>>,
    color: Color,
    env: Lookup,
    forced: Option<Seq<char>>,
    prev: Lookup,
) -> Findings
    decreases nodes,
{
    if nodes.len() == 0 {
        no_findings()
    } else {
        let here = match nodes[0] {
            Node::Folder(f) => match bool_of(field_eval(f.guard.parsed_view(), env)) {
                Ok(true) => walk_spec(f.children@, path.push(f.name@), f.color, env, forced, prev),
                Ok(false) => no_findings(),
                Err(e) => (seq![], seq![location_text(path, f.name@) + ": guard: "@ + e]),
            },
            Node::Binding(b) => binding_spec(b, path, color, env, forced, prev),
        };
        join(here, walk_spec(nodes.drop_first(), path, color, env, forced, prev))
    }
}

/// One walk of the folder tree.
pub struct Pass<'a> {
    /// what guards, triggers and arguments read this pass.
    pub env: Vars<'a>,
    /// what they read last pass, for rising edges.
    pub prev: Vars<'a>,
    /// the resolution set, in tree order.
    pub fired: Vec<Fired>,
    /// guards that couldn't be evaluated. not fatal: an unevaluatable guard
    /// is false, so the binding just doesn't fire.
    pub errors: Vec<String>,
}

pub open spec fn forced_name(env: Vars) -> Option<Seq<char>> {
    match env.forced {
        Some((f, _)) => Some(f@),
        None => None,
    }
}

pub open spec fn strings_view(v: Seq<String>) -> Seq<Seq<char>> {
    v.map_values(|s: String| s@)
}

impl<'a> Pass<'a> {
    spec fn findings(&self) -> Findings {
        (fired_views(self.fired@), strings_view(self.errors@))
    }

    /// `path` is the stack of enclosing folder names.
    #[verifier::rlimit(60)]
    fn walk(&mut self, nodes: &'a Vec<Node>, path: &mut Vec<&'a str>, color: Color)
        ensures
            final(self).env == old(self).env,
            final(self).prev == old(self).prev,
            final(path)@ == old(path)@,
            final(self).findings() == join(
                old(self).findings(),
                walk_spec(
                    nodes@,
                    path_view(old(path)@),
                    color,
                    lookup_of(&old(self).env),
                    forced_name(old(self).env),
                    lookup_of(&old(self).prev),
                ),
            ),
        decreases nodes@,
    {
        let ghost env = lookup_of(&self.env);
        let ghost forced = forced_name(self.env);
        let ghost prev = lookup_of(&self.prev);
        let ghost p = path_view(path@);
        let ghost start = self.findings();
        let mut i: usize = 0;
        assert(nodes@.skip(0) =~= nodes@);
        while i < nodes.len()
            invariant
                env == lookup_of(&self.env),
                prev == lookup_of(&self.prev),
                forced == forced_name(self.env),
                self.env == old(self).env,
                self.prev == old(self).prev,
                path@ == old(path)@,
                p == path_view(path@),
                start == old(self).findings(),
                i <= nodes@.len(),
                join(start, walk_spec(nodes@, p, color, env, forced, prev)) == join(
                    self.findings(),
                    walk_spec(nodes@.skip(i as int), p, color, env, forced, prev),
                ),
            decreases nodes@.len() - i,
        {
            let ghost rest = nodes@.skip(i as int);
            let ghost before = self.findings();
            assert(rest[0] == nodes@[i as int]);
            assert(rest.drop_first() =~= nodes@.skip(i + 1));
            match &nodes[i] {
                Node::Folder(folder) => {
                    match folder.guard.eval_bool(&self.env) {
                        Ok(true) => {
                            path.push(folder.name.as_str());
                            assert(path_view(path@) =~= p.push(folder.name@));
                            self.walk(&folder.children, path, folder.color);
                            path.pop();
                            assert(path@ =~= old(path)@);
                        },
                        Ok(false) => {
                            assert(self.findings() =~= join(before, no_findings()));
                        },
                        Err(e) => {
                            let location = location(path, folder.name.as_str());
                            let mut message = location;
                            push_str(&mut message, ": guard: ");
                            push_str(&mut message, e.as_str());
                            self.errors.push(message);
                            assert(self.findings() =~= join(
                                before,
                                (seq![], seq![location_text(p, folder.name@) + ": guard: "@ + e@]),
                            ));
                        },
                    }
                },
                Node::Binding(binding) => {
                    self.binding(binding, path, color);
                },
            }
            proof {
                let here = match nodes@[i as int] {
                    Node::Folder(f) => match bool_of(field_eval(f.guard.parsed_view(), env)) {
                        Ok(true) => walk_spec(f.children@, p.push(f.name@), f.color, env, forced, prev),
                        Ok(false) => no_findings(),
                        Err(e) => (seq![], seq![location_text(p, f.name@) + ": guard: "@ + e]),
                    },
                    Node::Binding(b) => binding_spec(b, p, color, env, forced, prev),
                };
                assert(self.findings() == join(before, here));
                let tail = walk_spec(nodes@.skip(i + 1), p, color, env, forced, prev);
                assert(walk_spec(rest, p, color, env, forced, prev) == join(here, tail));
                assert(join(before, join(here, tail)) =~= join(join(before, here), tail));
            }
            i = i + 1;
        }
        proof {
            assert(nodes@.skip(i as int) =~= Seq::<Node>::empty());
            assert(join(self.findings(), no_findings()) =~= self.findings());
        }
    }

    fn binding(&mut self, binding: &Binding, path: &Vec<&str>, color: Color)
        ensures
            final(self).env == old(self).env,
            final(self).prev == old(self).prev,
            final(self).findings() == join(
                old(self).findings(),
                binding_spec(
                    *binding,
                    path_view(path@),
                    color,
                    lookup_of(&old(self).env),
                    forced_name(old(self).env),
                    lookup_of(&old(self).prev),
                ),
            ),
    {
        let ghost before = self.findings();
        let ghost env = lookup_of(&self.env);
        match self.rising(binding.trigger.as_str()) {
            Ok(false) => {
                assert(self.findings() =~= join(before, no_findings()));
                return ;
            },
            Err(e) => {
                let mut message = location(path, binding.trigger.as_str());
                push_str(&mut message, ": ");
                push_str(&mut message, e.as_str());
                self.errors.push(message);
                assert(self.findings() =~= join(
                    before,
                    (seq![], seq![location_text(path_view(path@), binding.trigger@) + ": "@ + e@]),
                ));
                return ;
            },
            Ok(true) => {},
        }
        match binding.guard.eval_bool(&self.env) {
            Ok(false) => {
                assert(self.findings() =~= join(before, no_findings()));
                return ;
            },
            Err(e) => {
                let mut message = location(path, binding.trigger.as_str());
                push_str(&mut message, ": guard: ");
                push_str(&mut message, e.as_str());
                self.errors.push(message);
                assert(self.findings() =~= join(
                    before,
                    (
                        seq![],
                        seq![location_text(path_view(path@), binding.trigger@) + ": guard: "@ + e@],
                    ),
                ));
                return ;
            },
            Ok(true) => {},
        }
        let fired = Fired {
            location: location(path, binding.trigger.as_str()),
            color,
            action: binding.command.eval(&self.env),
        };
        self.fired.push(fired);
        assert(self.findings() =~= join(
            before,
            (seq![fired_view(fired)], seq![]),
        ));
    }

    /// did the trigger variable go from not-true to true this pass?
    pub fn rising(&self, trigger: &str) -> (r: Result<bool, String>)
        ensures
            crate::expr::res_view(r) == rising_spec(
                trigger@,
                lookup_of(&self.env),
                forced_name(self.env),
                lookup_of(&self.prev),
            ),
    {
        let now = match self.env.get(trigger) {
            Some(v) => v,
            None => {
                let mut s = owned("unknown variable `");
                push_str(&mut s, trigger);
                push_str(&mut s, "`");
                assert(s@ =~= unknown_variable_text(trigger@));
                return Err(s);
            },
        };
        let now = now.bool()?;
        if !now {
            return Ok(false);
        }
        // While previewing, the only edge is the hypothetical one being asked
        // about. Everything else is steady however it got to be down.
        if let Some((forced, _)) = self.env.forced {
            return Ok(str_eq(forced, trigger));
        }
        // a rising edge is purely the variable going false -> true; a
        // variable that didn't exist last pass counts as not-true.
        let was = match self.prev.get(trigger) {
            Some(v) => v == Value::Bool(true),
            None => false,
        };
        Ok(!was)
    }
}

/// What one key of the keybind reference (or one twist gizmo) would do.
pub struct Preview {
    /// notation for a twist, a short phrase for anything else, `!` for a
    /// binding that fires but can't be evaluated.
    pub label: String,
    /// the enclosing folder's color.
    pub color: Color,
    /// "twists / key_r", for a tooltip.
    pub location: String,
    /// what it would run, for a caller that wants to ask more of it: the
    /// gizmos ask whether the twist is blocked.
    pub command: Option<Command>,
    pub error: Option<String>,
}

/// What a preview shows for the first binding that fired.
pub open spec fn preview_matches(p: Preview, f: FiredView) -> bool {
    &&& p.color == f.color
    &&& p.location@ == f.location
    &&& match f.action {
        Ok((label, action)) => {
            &&& p.label@ == label
            &&& p.error is None
            &&& p.command == match action {
                ActionView::Command(c) => Some(c),
                ActionView::SetVar { .. } => None::<Command>,
            }
        },
        Err(e) => {
            &&& p.label@ == "!"@
            &&& p.command is None
            &&& p.error matches Some(m) && m@ == e
        },
    }
}

/// One physical input event of a frame, as the keybind system reads it.
pub enum InputEvent {
    /// A key by its name (`r`, `space`).
    Key { key: String, pressed: bool, repeat: bool },
    /// A mouse button: 0 left, 1 right, 2 middle.
    Pointer { button: usize, pressed: bool },
}

/// What a frame's physical input was.
pub struct FrameInput {
    /// a text field has focus, or the window is in the background: then
    /// everything reads as up.
    pub blocked: bool,
    pub events: Vec<InputEvent>,
    pub modifiers: Modifiers,
}

/// The keys held after a frame's events: presses (but not auto-repeats)
/// add, releases remove.
pub open spec fn keys_after(keys: Set<Seq<char>>, events: Seq<InputEvent>) -> Set<Seq<char>>
    decreases events.len(),
{
    if events.len() == 0 {
        keys
    } else {
        let before = keys_after(keys, events.drop_last());
        match events.last() {
            InputEvent::Key { key, pressed, repeat } => if pressed && !repeat {
                before.insert(key@)
            } else if !pressed {
                before.remove(key@)
            } else {
                before
            },
            InputEvent::Pointer { .. } => before,
        }
    }
}

/// The keys pressed during a frame's events.
pub open spec fn pressed_after(keys: Set<Seq<char>>, events: Seq<InputEvent>) -> Set<Seq<char>>
    decreases events.len(),
{
    if events.len() == 0 {
        keys
    } else {
        let before = pressed_after(keys, events.drop_last());
        match events.last() {
            InputEvent::Key { key, pressed, repeat } => if pressed && !repeat {
                before.insert(key@)
            } else {
                before
            },
            InputEvent::Pointer { .. } => before,
        }
    }
}

/// The mouse buttons held after a frame's events.
pub open spec fn mouse_after(m: Seq<bool>, events: Seq<InputEvent>) -> Seq<bool>
    decreases events.len(),
{
    if events.len() == 0 {
        m
    } else {
        let before = mouse_after(m, events.drop_last());
        match events.last() {
            InputEvent::Pointer { button, pressed } => if button < 3 {
                before.update(button as int, pressed)
            } else {
                before
            },
            InputEvent::Key { .. } => before,
        }
    }
}

/// The mouse buttons pressed during a frame's events.
pub open spec fn mouse_pressed_after(m: Seq<bool>, events: Seq<InputEvent>) -> Seq<bool>
    decreases events.len(),
{
    if events.len() == 0 {
        m
    } else {
        let before = mouse_pressed_after(m, events.drop_last());
        match events.last() {
            InputEvent::Pointer { button, pressed } => if button < 3 && pressed {
                before.update(button as int, true)
            } else {
                before
            },
            InputEvent::Key { .. } => before,
        }
    }
}

/// The variables of a keybind pass read live: builtins from this input,
/// user variables from their declarations.
pub open spec fn live_env(input: InputState, vars: Seq<UserVar>) -> Lookup {
    |name: Seq<char>| vars_lookup(input, |n: Seq<char>| first_value(vars, n, 0), None, None, name)
}

/// The variables as the last pass saw them, for finding rising edges.
pub open spec fn prev_env(input: InputState, vals: Seq<(String, Value)>) -> Lookup {
    |name: Seq<char>|
        vars_lookup(
            input,
            |n: Seq<char>| last_value(vals, n, vals.len() as int),
            None,
            None,
            name,
        )
}

/// The variables of a preview: the last pass's input, the live user
/// variables, one variable forced, and possibly a hypothetical hovered grip.
pub open spec fn preview_env(
    input: InputState,
    vars: Seq<UserVar>,
    variable: Seq<char>,
    down: bool,
    hovered_grip: Option<Side>,
) -> Lookup {
    |name: Seq<char>|
        vars_lookup(
            input,
            |n: Seq<char>| first_value(vars, n, 0),
            Some((variable, down)),
            hovered_grip,
            name,
        )
}

/// The same input, with the key lists taken as sets.
pub open spec fn same_input(a: InputState, b: InputState) -> bool {
    &&& key_set(a.keys@) == key_set(b.keys@)
    &&& key_set(a.pressed@) == key_set(b.pressed@)
    &&& a.mouse == b.mouse
    &&& a.mouse_pressed == b.mouse_pressed
    &&& a.modifiers == b.modifiers
    &&& a.hovered_grip == b.hovered_grip
    &&& a.hovered_grip_inverted == b.hovered_grip_inverted
}

/// The index of the first variable named `name` from `i` on.
pub open spec fn var_index(vars: Seq<UserVar>, name: Seq<char>, i: int) -> Option<int>
    decreases vars.len() - i,
{
    if i < 0 || i >= vars.len() {
        None
    } else if vars[i].name@ == name {
        Some(i)
    } else {
        var_index(vars, name, i + 1)
    }
}

/// The message for setting a variable that doesn't exist.
pub open spec fn no_variable_text(name: Seq<char>) -> Seq<char> {
    "no variable named `"@ + name + "`"@
}

/// The message for setting a variable to a value of another type.
pub open spec fn retype_text(name: Seq<char>, has: Type, got: Type) -> Seq<char> {
    "`"@ + name + "` is a "@ + type_text(has) + ", not a "@ + type_text(got)
}

/// What setting a variable does: the first variable of that name takes the
/// value if the types agree; otherwise nothing changes and this is the
/// error.
pub open spec fn set_var_error(vars: Seq<UserVar>, name: Seq<char>, value: Value) -> Option<
    Seq<char>,
> {
    match var_index(vars, name, 0) {
        None => Some(no_variable_text(name)),
        Some(i) => if vars[i].value.type_of() != value.type_of() {
            Some(retype_text(name, vars[i].value.type_of(), value.type_of()))
        } else {
            None
        },
    }
}

/// The variables after a successful set: only the value of the first of
/// that name changes.
pub open spec fn vars_after_set(
    old_vars: Seq<UserVar>,
    new_vars: Seq<UserVar>,
    name: Seq<char>,
    value: Value,
) -> bool {
    match var_index(old_vars, name, 0) {
        None => false,
        Some(i) => {
            &&& new_vars.len() == old_vars.len()
            &&& forall|j: int| 0 <= j < old_vars.len() && j != i ==> new_vars[j] == old_vars[j]
            &&& new_vars[i].name == old_vars[i].name
            &&& new_vars[i].pinned == old_vars[i].pinned
            &&& new_vars[i].value == value
        },
    }
}

/// A snapshot holds each variable's name and value, in order.
pub open spec fn is_snapshot(vals: Seq<(String, Value)>, vars: Seq<UserVar>) -> bool {
    &&& vals.len() == vars.len()
    &&& forall|i: int|
        0 <= i < vars.len() ==> (#[trigger] vals[i]).0@ == vars[i].name@ && vals[i].1
            == vars[i].value
}

/// What a pass's first fired binding sends to the hub.
pub open spec fn first_command(fired: Seq<FiredView>) -> Seq<Command> {
    if fired.len() > 0 && fired[0].action is Ok && fired[0].action->Ok_0.1 is Command {
        seq![fired[0].action->Ok_0.1->Command_0]
    } else {
        seq![]
    }
}

/// The variable write of a pass's first fired binding, if that is what it
/// does.
pub open spec fn first_write(fired: Seq<FiredView>) -> Option<(Seq<char>, Value)> {
    if fired.len() > 0 && fired[0].action is Ok && fired[0].action->Ok_0.1 is SetVar {
        let a = fired[0].action->Ok_0.1;
        Some((a->SetVar_name, a->SetVar_value))
    } else {
        None
    }
}

/// The keybind component: the variables, the folder tree, and one pass per
/// frame over both.
pub struct Keybinds {
    pub vars: Vec<UserVar>,
    pub root: Vec<Node>,
    /// the persistent input: keys, mouse, and modifiers held down, written by
    /// both the keyboard and the reference. read live by guards and
    /// arguments.
    pub input: InputState,
    /// last pass's input and variable values, for finding rising edges. also
    /// what previews are evaluated against.
    pub prev_input: InputState,
    pub prev_vars: Vec<(String, Value)>,
    /// last frame's physical modifier state, so only real modifier changes
    /// are folded into `input` (leaving reference toggles alone).
    pub physical_modifiers: Modifiers,
    /// the last non-empty resolution set: a pass that fired nothing would
    /// wipe the display a frame after the twist it explains.
    pub last_fired: Vec<Fired>,
    /// this pass's errors. static mistakes recur every pass, so they stay on
    /// screen.
    pub errors: Vec<String>,
    /// the names of the keys, looked up once.
    pub names: KeyNames,
}

impl Keybinds {
    /// One walk of the tree against a given view of the variables. Pure:
    /// both the real pass and the reference's hypothetical ones go through
    /// here, and neither changes anything.
    fn resolve(&self, env: Vars<'_>, prev: Vars<'_>) -> (r: (Vec<Fired>, Vec<String>))
        ensures
            (fired_views(r.0@), strings_view(r.1@)) == walk_spec(
                self.root@,
                seq![],
                root_color(),
                lookup_of(&env),
                forced_name(env),
                lookup_of(&prev),
            ),
    {
        let mut pass = Pass { env, prev, fired: Vec::new(), errors: Vec::new() };
        let mut path: Vec<&str> = Vec::new();
        assert(path_view(path@) =~= Seq::<Seq<char>>::empty());
        pass.walk(&self.root, &mut path, Color::gray());
        assert(fired_views(Seq::<Fired>::empty()) =~= Seq::<FiredView>::empty());
        assert(strings_view(Seq::<String>::empty()) =~= Seq::<Seq<char>>::empty());
        let ghost w = walk_spec(self.root@, seq![], root_color(), lookup_of(&pass.env), forced_name(pass.env), lookup_of(&pass.prev));
        assert(pass.findings() =~= join(no_findings(), w));
        assert(join(no_findings(), w) =~= w);
        (pass.fired, pass.errors)
    }
}

/// The input after setting a builtin bool the way a reference click does:
/// keys, mouse buttons and modifiers all live in the persistent input. Names
/// that aren't a toggleable builtin change nothing.
pub open spec fn set_down_effect(a: InputState, b: InputState, name: Seq<char>, down: bool) -> bool {
    let fixed = name == "mouse_left"@ || name == "mouse_right"@ || name == "mouse_middle"@ || name
        == "key_shift"@ || name == "key_ctrl"@ || name == "key_alt"@ || name == "key_command"@;
    &&& b.mouse@ == if name == "mouse_left"@ {
        a.mouse@.update(0, down)
    } else if name == "mouse_right"@ {
        a.mouse@.update(1, down)
    } else if name == "mouse_middle"@ {
        a.mouse@.update(2, down)
    } else {
        a.mouse@
    }
    &&& b.modifiers == if name == "key_shift"@ {
        Modifiers { shift: down, ..a.modifiers }
    } else if name == "key_ctrl"@ {
        Modifiers { ctrl: down, ..a.modifiers }
    } else if name == "key_alt"@ {
        Modifiers { alt: down, ..a.modifiers }
    } else if name == "key_command"@ {
        Modifiers { command: down, ..a.modifiers }
    } else {
        a.modifiers
    }
    &&& key_set(b.keys@) == if !fixed && key_part(name) is Some && is_key_name(
        key_part(name)->Some_0,
    ) {
        if down {
            key_set(a.keys@).insert(key_part(name)->Some_0)
        } else {
            key_set(a.keys@).remove(key_part(name)->Some_0)
        }
    } else {
        key_set(a.keys@)
    }
    &&& key_set(b.pressed@) == key_set(a.pressed@)
    &&& b.mouse_pressed == a.mouse_pressed
    &&& b.hovered_grip == a.hovered_grip
    &&& b.hovered_grip_inverted == a.hovered_grip_inverted
}

/// The persistent input after a frame's physical input is folded in.
pub open spec fn input_applied(
    a: InputState,
    physical: Modifiers,
    b: InputState,
    context: InputContext,
    frame: FrameInput,
) -> bool {
    &&& b.hovered_grip == context.hovered_grip
    &&& b.hovered_grip_inverted == context.hovered_grip_inverted
    &&& if frame.blocked {
        &&& key_set(b.keys@) == Set::<Seq<char>>::empty()
        &&& key_set(b.pressed@) == Set::<Seq<char>>::empty()
        &&& b.mouse@ == seq![false, false, false]
        &&& b.mouse_pressed@ == seq![false, false, false]
        &&& b.modifiers == (Modifiers {
            alt: false,
            ctrl: false,
            shift: false,
            mac_cmd: false,
            command: false,
        })
    } else {
        &&& key_set(b.keys@) == keys_after(key_set(a.keys@), frame.events@)
        &&& key_set(b.pressed@) == pressed_after(Set::<Seq<char>>::empty(), frame.events@)
        &&& b.mouse@ == mouse_after(a.mouse@, frame.events@)
        &&& b.mouse_pressed@ == mouse_pressed_after(seq![false, false, false], frame.events@)
        &&& b.modifiers.shift == delta(a.modifiers.shift, physical.shift, frame.modifiers.shift)
        &&& b.modifiers.ctrl == delta(a.modifiers.ctrl, physical.ctrl, frame.modifiers.ctrl)
        &&& b.modifiers.alt == delta(a.modifiers.alt, physical.alt, frame.modifiers.alt)
        &&& b.modifiers.mac_cmd == delta(
            a.modifiers.mac_cmd,
            physical.mac_cmd,
            frame.modifiers.mac_cmd,
        )
        &&& b.modifiers.command == delta(
            a.modifiers.command,
            physical.command,
            frame.modifiers.command,
        )
    }
}

/// What a pass does to the keybind state: the first fired command goes out,
/// a first fired variable write is applied (or its error reported), and the
/// input and variables are rolled forward so the next pass can find edges.
pub open spec fn pass_effect(old: Keybinds, new: Keybinds, commands: Seq<Command>) -> bool {
    let f = walk_spec(
        old.root@,
        seq![],
        root_color(),
        live_env(old.input, old.vars@),
        None,
        prev_env(old.prev_input, old.prev_vars@),
    );
    &&& commands == first_command(f.0)
    &&& fired_views(new.last_fired@) == if f.0.len() > 0 {
        f.0
    } else {
        fired_views(old.last_fired@)
    }
    &&& match first_write(f.0) {
        None => new.vars@ == old.vars@ && strings_view(new.errors@) == f.1,
        Some((name, value)) => match set_var_error(old.vars@, name, value) {
            None => vars_after_set(old.vars@, new.vars@, name, value) && strings_view(new.errors@)
                == f.1,
            Some(e) => new.vars@ == old.vars@ && strings_view(new.errors@) == f.1.push(e),
        },
    }
    &&& new.root == old.root
    &&& new.input == old.input
    &&& same_input(new.prev_input, old.input)
    &&& is_snapshot(new.prev_vars@, old.vars@)
    &&& new.physical_modifiers == old.physical_modifiers
    &&& new.names == old.names
}

impl Keybinds {
    /// One pass: fold this frame's input into the persistent state, walk the
    /// tree, and execute the resolution set. Only the first command executes
    /// for now, which also enforces the speedsolving rule of at most one twist
    /// per pass.
    pub fn collect(&mut self, context: &InputContext, frame: &FrameInput) -> (commands: Vec<Command>)
        ensures
            input_applied(old(self).input, old(self).physical_modifiers, final(self).input, *context, *frame),
            final(self).physical_modifiers == frame.modifiers,
            pass_effect(
                Keybinds { input: final(self).input, physical_modifiers: frame.modifiers, ..*old(self) },
                Keybinds { physical_modifiers: frame.modifiers, ..*final(self) },
                commands@,
            ),
    {
        self.apply_input(context, frame);
        self.run_pass()
    }

    /// Fold this frame's physical input into the persistent state. Keys and
    /// mouse buttons come from events, so a bit a reference click set isn't
    /// clobbered by re-sampling; modifiers come from the change in the
    /// physical state.
    pub fn apply_input(&mut self, context: &InputContext, frame: &FrameInput)
        ensures
            input_applied(old(self).input, old(self).physical_modifiers, final(self).input, *context, *frame),
            final(self).physical_modifiers == frame.modifiers,
            final(self).vars == old(self).vars,
            final(self).root == old(self).root,
            final(self).prev_input == old(self).prev_input,
            final(self).prev_vars == old(self).prev_vars,
            final(self).last_fired == old(self).last_fired,
            final(self).errors == old(self).errors,
            final(self).names == old(self).names,
    {
        self.input.pressed = Vec::new();
        self.input.mouse_pressed = [false, false, false];
        self.input.hovered_grip = context.hovered_grip;
        self.input.hovered_grip_inverted = context.hovered_grip_inverted;
        assert(key_set(self.input.pressed@) =~= Set::<Seq<char>>::empty());
        assert(self.input.mouse_pressed@ =~= seq![false, false, false]);
        // while a text field has focus, or the window is in the background,
        // everything reads as up: typing must never fire a binding, and
        // nothing stays stuck after a release the window never saw.
        if frame.blocked {
            self.input.keys = Vec::new();
            self.input.mouse = [false, false, false];
            self.input.modifiers = Modifiers::none();
            self.physical_modifiers = frame.modifiers;
            assert(key_set(self.input.keys@) =~= Set::<Seq<char>>::empty());
            assert(self.input.mouse@ =~= seq![false, false, false]);
            return ;
        }
        let ghost keys0 = key_set(old(self).input.keys@);
        let ghost mouse0 = old(self).input.mouse@;
        let mut i: usize = 0;
        while i < frame.events.len()
            invariant
                i <= frame.events@.len(),
                key_set(self.input.keys@) == keys_after(keys0, frame.events@.take(i as int)),
                key_set(self.input.pressed@) == pressed_after(
                    Set::<Seq<char>>::empty(),
                    frame.events@.take(i as int),
                ),
                self.input.mouse@ == mouse_after(mouse0, frame.events@.take(i as int)),
                self.input.mouse_pressed@ == mouse_pressed_after(
                    seq![false, false, false],
                    frame.events@.take(i as int),
                ),
                self.input.hovered_grip == context.hovered_grip,
                self.input.hovered_grip_inverted == context.hovered_grip_inverted,
                self.input.modifiers == old(self).input.modifiers,
                self.physical_modifiers == old(self).physical_modifiers,
                self.vars == old(self).vars,
                self.root == old(self).root,
                self.prev_input == old(self).prev_input,
                self.prev_vars == old(self).prev_vars,
                self.last_fired == old(self).last_fired,
                self.errors == old(self).errors,
                self.names == old(self).names,
            decreases frame.events@.len() - i,
        {
            assert(frame.events@.take(i + 1).drop_last() =~= frame.events@.take(i as int));
            match &frame.events[i] {
                InputEvent::Key { key, pressed, repeat } => {
                    if *pressed && !*repeat {
                        // auto-repeat isn't a new press.
                        self.input.press(key.as_str());
                    } else if !*pressed {
                        self.input.release(key.as_str());
                    }
                },
                InputEvent::Pointer { button, pressed } => {
                    if *button < 3 {
                        if *pressed {
                            self.input.mouse_press(*button);
                        } else {
                            self.input.mouse_release(*button);
                        }
                    }
                },
            }
            i = i + 1;
        }
        assert(frame.events@.take(i as int) =~= frame.events@);
        apply_modifier_delta(&mut self.input.modifiers, self.physical_modifiers, frame.modifiers);
        self.physical_modifiers = frame.modifiers;
    }

    /// Walk the tree against the current persistent input, execute the first
    /// fired command, and roll the state forward so next pass can find edges.
    pub fn run_pass(&mut self) -> (commands: Vec<Command>)
        ensures
            pass_effect(*old(self), *final(self), commands@),
    {
        let now_vars = snapshot(&self.vars);
        let ghost f = walk_spec(
            self.root@,
            seq![],
            root_color(),
            live_env(self.input, self.vars@),
            None,
            prev_env(self.prev_input, self.prev_vars@),
        );
        let (fired, mut errors) = {
            let env = Vars::new(&self.input, &self.names, UserVars::Live(self.vars.as_slice()));
            let prev = Vars::new(
                &self.prev_input,
                &self.names,
                UserVars::Snapshot(self.prev_vars.as_slice()),
            );
            proof {
                assert(lookup_of(&env) =~= live_env(self.input, self.vars@));
                assert(lookup_of(&prev) =~= prev_env(self.prev_input, self.prev_vars@));
            }
            self.resolve(env, prev)
        };
        let ghost errs0 = strings_view(errors@);
        let mut commands: Vec<Command> = Vec::new();
        if fired.len() > 0 {
            assert(fired_views(fired@)[0] == fired_view(fired@[0]));
            match &fired[0].action {
                Ok((_, Action::Command(command))) => {
                    commands.push(*command);
                },
                Ok((_, Action::SetVar { name, value })) => {
                    match self.set_var(name.as_str(), *value) {
                        Ok(()) => {},
                        Err(e) => {
                            errors.push(e);
                            assert(strings_view(errors@) =~= errs0.push(e@));
                        },
                    }
                },
                Err(_) => {},
            }
        }
        assert(commands@ =~= first_command(f.0));
        // the pre-execution values: a variable a binding just set reads as a
        // rising edge next pass, so bindings can chain.
        self.prev_input = self.input.copy();
        self.prev_vars = now_vars;
        if fired.len() > 0 {
            self.last_fired = fired;
        }
        self.errors = errors;
        commands
    }

    /// What the pass would do if `variable` were pressed right now: the label
    /// for one key of the reference, or the twist a gizmo click would input.
    /// Nothing is executed and nothing changes.
    ///
    /// Everything else keeps the state of the last real pass, so held
    /// modifiers and held variables are accounted for. `hovered_grip` asks
    /// the hypothetical "if the pointer were over this gizmo"; `None` uses
    /// wherever the pointer really is.
    pub fn preview(&self, variable: &str, hovered_grip: Option<Side>) -> (r: Option<Preview>)
        ensures
            ({
                let f = walk_spec(
                    self.root@,
                    seq![],
                    root_color(),
                    preview_env(self.prev_input, self.vars@, variable@, true, hovered_grip),
                    Some(variable@),
                    preview_env(self.prev_input, self.vars@, variable@, false, hovered_grip),
                ).0;
                match r {
                    None => f.len() == 0,
                    Some(p) => f.len() > 0 && preview_matches(p, f[0]),
                }
            }),
    {
        // forcing the variable off in the previous pass is what makes this a
        // press: it rises even if the key is genuinely held down already.
        let env = Vars {
            input: &self.prev_input,
            names: &self.names,
            // the variables as they are now, not as the last pass left them:
            // the reference should answer for the state you can see.
            user: UserVars::Live(self.vars.as_slice()),
            forced: Some((variable, true)),
            hovered_grip,
        };
        let prev = Vars {
            input: &self.prev_input,
            names: &self.names,
            user: UserVars::Live(self.vars.as_slice()),
            forced: Some((variable, false)),
            hovered_grip,
        };
        proof {
            assert(lookup_of(&env) =~= preview_env(self.prev_input, self.vars@, variable@, true, hovered_grip));
            assert(lookup_of(&prev) =~= preview_env(self.prev_input, self.vars@, variable@, false, hovered_grip));
        }
        let (fired, _) = self.resolve(env, prev);
        if fired.len() == 0 {
            return None;
        }
        assert(fired_views(fired@)[0] == fired_view(fired@[0]));
        let first = &fired[0];
        match &first.action {
            Ok((label, action)) => Some(
                Preview {
                    label: label.clone(),
                    color: first.color,
                    location: first.location.clone(),
                    command: match action {
                        Action::Command(command) => Some(*command),
                        Action::SetVar { .. } => None,
                    },
                    error: None,
                },
            ),
            Err(e) => Some(
                Preview {
                    label: owned("!"),
                    color: first.color,
                    location: first.location.clone(),
                    command: None,
                    error: Some(e.clone()),
                },
            ),
        }
    }

    /// Is this variable down, clicked down in the reference or pressed for
    /// real? There's one state, and bindings can't tell the difference.
    pub fn is_down(&self, variable: &str) -> (r: bool)
        ensures
            r == (read_spec(variable@, self.input) == Some(Value::Bool(true))),
    {
        match read(variable, &self.input, &self.names) {
            Some(v) => v == Value::Bool(true),
            None => false,
        }
    }

    /// Toggle a variable from the reference: a key that's down goes up and
    /// vice versa, however it got that way. The next pass sees the rising
    /// edge and the binding fires, and a later physical release clears the
    /// same bit.
    pub fn toggle(&mut self, variable: &str)
        ensures
            set_down_effect(
                old(self).input,
                final(self).input,
                variable@,
                !(read_spec(variable@, old(self).input) == Some(Value::Bool(true))),
            ),
            final(self).vars == old(self).vars,
            final(self).root == old(self).root,
            final(self).names == old(self).names,
    {
        let down = self.is_down(variable);
        self.set_down(variable, !down);
    }

    /// Write a builtin bool into the persistent input. Names that aren't a
    /// toggleable builtin are ignored.
    #[verifier::spinoff_prover]
    #[verifier::rlimit(30)]
    pub fn set_down(&mut self, variable: &str, down: bool)
        ensures
            set_down_effect(old(self).input, final(self).input, variable@, down),
            final(self).vars == old(self).vars,
            final(self).root == old(self).root,
            final(self).names == old(self).names,
    {
        proof {
            reveal_strlit("mouse_left");
            reveal_strlit("mouse_right");
            reveal_strlit("mouse_middle");
            reveal_strlit("key_shift");
            reveal_strlit("key_ctrl");
            reveal_strlit("key_alt");
            reveal_strlit("key_command");
        }
        if str_eq(variable, "mouse_left") {
            self.input.mouse.set(0, down);
            assert(variable@.len() == 10);
            assert(self.input.mouse@ == old(self).input.mouse@.update(0, down));
            assert(set_down_effect(old(self).input, self.input, variable@, down));
        } else if str_eq(variable, "mouse_right") {
            self.input.mouse.set(1, down);
            assert(variable@[0] != "key_command"@[0]);
            assert(set_down_effect(old(self).input, self.input, variable@, down));
        } else if str_eq(variable, "mouse_middle") {
            self.input.mouse.set(2, down);
            assert(set_down_effect(old(self).input, self.input, variable@, down));
        } else if str_eq(variable, "key_shift") {
            self.input.modifiers.shift = down;
            assert(set_down_effect(old(self).input, self.input, variable@, down));
        } else if str_eq(variable, "key_ctrl") {
            self.input.modifiers.ctrl = down;
            assert(set_down_effect(old(self).input, self.input, variable@, down));
        } else if str_eq(variable, "key_alt") {
            self.input.modifiers.alt = down;
            assert(set_down_effect(old(self).input, self.input, variable@, down));
        } else if str_eq(variable, "key_command") {
            self.input.modifiers.command = down;
            assert(variable@[0] != "mouse_right"@[0]);
            assert(set_down_effect(old(self).input, self.input, variable@, down));
        } else {
            match strip_key_prefix(variable) {
                Some(key) => {
                    if self.names.contains(key) {
                        self.input.set_key(key, down);
                        assert(set_down_effect(old(self).input, self.input, variable@, down));
                    } else {
                        assert(set_down_effect(old(self).input, self.input, variable@, down));
                    }
                },
                None => {
                    assert(set_down_effect(old(self).input, self.input, variable@, down));
                },
            }
        }
    }

    /// variables are typed, so a set that doesn't match is a mistake worth
    /// reporting rather than a silent retype.
    pub fn set_var(&mut self, name: &str, value: Value) -> (r: Result<(), String>)
        ensures
            match set_var_error(old(self).vars@, name@, value) {
                None => r is Ok && vars_after_set(old(self).vars@, final(self).vars@, name@, value),
                Some(e) => r matches Err(m) && m@ == e && final(self).vars@ == old(self).vars@,
            },
            final(self).root == old(self).root,
            final(self).input == old(self).input,
            final(self).prev_input == old(self).prev_input,
            final(self).prev_vars == old(self).prev_vars,
            final(self).last_fired == old(self).last_fired,
            final(self).errors == old(self).errors,
            final(self).physical_modifiers == old(self).physical_modifiers,
            final(self).names == old(self).names,
    {
        let mut i: usize = 0;
        while i < self.vars.len()
            invariant
                *self == *old(self),
                i <= self.vars@.len(),
                var_index(self.vars@, name@, 0) == var_index(self.vars@, name@, i as int),
            decreases self.vars@.len() - i,
        {
            if str_eq(self.vars[i].name.as_str(), name) {
                let has = self.vars[i].value.ty();
                if has != value.ty() {
                    let mut s = owned("`");
                    push_str(&mut s, name);
                    push_str(&mut s, "` is a ");
                    push_str(&mut s, has.name());
                    push_str(&mut s, ", not a ");
                    push_str(&mut s, value.ty().name());
                    assert(s@ =~= retype_text(name@, has, value.type_of()));
                    return Err(s);
                }
                let updated = UserVar {
                    name: self.vars[i].name.clone(),
                    value,
                    pinned: self.vars[i].pinned,
                };
                self.vars.set(i, updated);
                return Ok(());
            }
            i = i + 1;
        }
        let mut s = owned("no variable named `");
        push_str(&mut s, name);
        push_str(&mut s, "`");
        assert(s@ =~= no_variable_text(name@));
        Err(s)
    }

    /// The value of the first variable named `name`.
    pub fn var(&self, name: &str) -> (r: Option<Value>)
        ensures
            r == first_value(self.vars@, name@, 0),
    {
        UserVars::Live(self.vars.as_slice()).get(name)
    }

    /// Replaces the value of the first variable named `name`, whatever its
    /// type; `false` when there is none.
    pub fn replace_var(&mut self, name: &str, value: Value) -> (found: bool)
        ensures
            found == var_index(old(self).vars@, name@, 0) is Some,
            found ==> vars_after_set(old(self).vars@, final(self).vars@, name@, value),
            !found ==> final(self).vars@ == old(self).vars@,
            final(self).root == old(self).root,
            final(self).input == old(self).input,
            final(self).names == old(self).names,
    {
        let mut i: usize = 0;
        while i < self.vars.len()
            invariant
                *self == *old(self),
                i <= self.vars@.len(),
                var_index(self.vars@, name@, 0) == var_index(self.vars@, name@, i as int),
            decreases self.vars@.len() - i,
        {
            if str_eq(self.vars[i].name.as_str(), name) {
                let updated = UserVar {
                    name: self.vars[i].name.clone(),
                    value,
                    pinned: self.vars[i].pinned,
                };
                self.vars.set(i, updated);
                return true;
            }
            i = i + 1;
        }
        false
    }

    /// The mask the twist gizmos preview and the manual twist buttons use:
    /// whatever `default_mask` holds, since that's what the default bindings
    /// twist. Falls back to the outer layer if it's gone or retyped.
    pub fn default_mask(&self) -> (r: LayerMask)
        ensures
            r == match first_value(self.vars@, "default_mask"@, 0) {
                Some(Value::Mask(m)) => m,
                _ => LayerMask(1),
            },
    {
        match self.var("default_mask") {
            Some(Value::Mask(mask)) => mask,
            _ => LayerMask::outer(),
        }
    }

    /// Is any variable pinned to the bottom bar?
    pub fn has_pinned(&self) -> (r: bool)
        ensures
            r == exists|i: int| 0 <= i < self.vars@.len() && #[trigger] self.vars@[i].pinned,
    {
        let mut i: usize = 0;
        while i < self.vars.len()
            invariant
                i <= self.vars@.len(),
                forall|j: int| 0 <= j < i ==> !#[trigger] self.vars@[j].pinned,
            decreases self.vars@.len() - i,
        {
            if self.vars[i].pinned {
                return true;
            }
            i = i + 1;
        }
        false
    }
}

/// Each variable's name and value, in order.
fn snapshot(vars: &Vec<UserVar>) -> (r: Vec<(String, Value)>)
    ensures
        is_snapshot(r@, vars@),
{
    let mut r: Vec<(String, Value)> = Vec::new();
    let mut i: usize = 0;
    while i < vars.len()
        invariant
            i <= vars@.len(),
            r@.len() == i,
            forall|k: int| 0 <= k < i ==> (#[trigger] r@[k]).0@ == vars@[k].name@ && r@[k].1 == vars@[k].value,
        decreases vars@.len() - i,
    {
        r.push((vars[i].name.clone(), vars[i].value));
        i = i + 1;
    }
    r
}

} // verus!
