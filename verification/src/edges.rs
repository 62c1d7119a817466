//! Why a held key twists once: a binding fires on its trigger's rising
//! edge, so a pass in which every variable reads as it did in the pass
//! before fires nothing, and a pass runs at most one command.
use vstd::prelude::*;
use crate::bindings::{Binding, Color, FiredView, Folder, Node};
use crate::commands::Command;
use crate::expr::{Lookup, Value, bool_of, field_eval};
use crate::input::{InputState, is_key_name, key_part, key_set, read_spec};
use crate::keybinds::{
    Keybinds, join, no_findings, set_down_effect, binding_spec, first_command, is_snapshot, live_env, pass_effect,
    prev_env, rising_spec, same_input, walk_spec,
};
use crate::vars::{UserVar, first_value, last_value};

verus! {

/// No two user variables share a name.
pub open spec fn names_distinct(vars: Seq<UserVar>) -> bool {
    forall|i: int, j: int| 0 <= i < j < vars.len() ==> #[trigger] vars[i].name@ != #[trigger] vars[j].name@
}

/// Every variable reads the same in both.
pub open spec fn reads_same(a: Lookup, b: Lookup) -> bool {
    forall|n: Seq<char>| #[trigger] a(n) == b(n)
}

/// A pass sends at most one command.
pub proof fn lemma_at_most_one_command(fired: Seq<FiredView>)
    ensures
        first_command(fired).len() <= 1,
{
}

/// Nothing rises where nothing changed: a variable that reads as it did in
/// the last pass has no rising edge.
pub proof fn lemma_unchanged_does_not_rise(trigger: Seq<char>, env: Lookup, prev: Lookup)
    requires
        env(trigger) == prev(trigger),
    ensures
        rising_spec(trigger, env, None, prev) != Ok::<bool, Seq<char>>(true),
{
}

/// A walk in which every variable reads as it did in the last pass fires
/// no binding.
pub proof fn lemma_quiet_walk(
    nodes: Seq<Node>,
    path: Seq<Seq<char>>,
    color: Color,
    env: Lookup,
    prev: Lookup,
)
    requires
        reads_same(env, prev),
    ensures
        walk_spec(nodes, path, color, env, None, prev).0.len() == 0,
    decreases nodes,
{
    if nodes.len() > 0 {
        match nodes[0] {
            Node::Folder(f) => {
                lemma_quiet_walk(f.children@, path.push(f.name@), f.color, env, prev);
            },
            Node::Binding(b) => {
                lemma_unchanged_does_not_rise(b.trigger@, env, prev);
                let _ = binding_spec(b, path, color, env, None, prev);
            },
        }
        lemma_quiet_walk(nodes.drop_first(), path, color, env, prev);
    }
}

proof fn lemma_first_value_at(vars: Seq<UserVar>, n: Seq<char>, j: int, k: int)
    requires
        0 <= j <= k < vars.len(),
        vars[k].name@ == n,
        forall|i: int| j <= i < k ==> (#[trigger] vars[i]).name@ != n,
    ensures
        first_value(vars, n, j) == Some(vars[k].value),
    decreases k - j,
{
    if j < k {
        lemma_first_value_at(vars, n, j + 1, k);
    }
}

proof fn lemma_first_value_none(vars: Seq<UserVar>, n: Seq<char>, j: int)
    requires
        0 <= j <= vars.len(),
        forall|i: int| j <= i < vars.len() ==> (#[trigger] vars[i]).name@ != n,
    ensures
        first_value(vars, n, j) is None,
    decreases vars.len() - j,
{
    if j < vars.len() {
        lemma_first_value_none(vars, n, j + 1);
    }
}

proof fn lemma_last_value_at(vals: Seq<(String, Value)>, n: Seq<char>, m: int, k: int)
    requires
        0 <= k < m <= vals.len(),
        vals[k].0@ == n,
        forall|i: int| k < i < m ==> (#[trigger] vals[i]).0@ != n,
    ensures
        last_value(vals, n, m) == Some(vals[k].1),
    decreases m - k,
{
    if k < m - 1 {
        lemma_last_value_at(vals, n, m - 1, k);
    }
}

proof fn lemma_last_value_none(vals: Seq<(String, Value)>, n: Seq<char>, m: int)
    requires
        0 <= m <= vals.len(),
        forall|i: int| 0 <= i < m ==> (#[trigger] vals[i]).0@ != n,
    ensures
        last_value(vals, n, m) is None,
    decreases m,
{
    if m > 0 {
        lemma_last_value_none(vals, n, m - 1);
    }
}

/// With distinct names, a snapshot answers every name as the variables
/// it was taken of do.
pub proof fn lemma_snapshot_reads_same(vars: Seq<UserVar>, vals: Seq<(String, Value)>, n: Seq<char>)
    requires
        is_snapshot(vals, vars),
        names_distinct(vars),
    ensures
        first_value(vars, n, 0) == last_value(vals, n, vals.len() as int),
{
    if exists|k: int| 0 <= k < vars.len() && #[trigger] vars[k].name@ == n {
        let k = choose|k: int| 0 <= k < vars.len() && #[trigger] vars[k].name@ == n;
        assert forall|i: int| 0 <= i < k implies (#[trigger] vars[i]).name@ != n by {
            assert(vars[i].name@ != vars[k].name@);
        }
        assert forall|i: int| k < i < vals.len() implies (#[trigger] vals[i]).0@ != n by {
            assert(vars[k].name@ != vars[i].name@);
            assert(vals[i].0@ == vars[i].name@);
        }
        assert(vals[k].0@ == vars[k].name@);
        lemma_first_value_at(vars, n, 0, k);
        lemma_last_value_at(vals, n, vals.len() as int, k);
    } else {
        assert forall|i: int| 0 <= i < vals.len() implies (#[trigger] vals[i]).0@ != n by {
            assert(vals[i].0@ == vars[i].name@);
        }
        lemma_first_value_none(vars, n, 0);
        lemma_last_value_none(vals, n, vals.len() as int);
    }
}

/// A binding fires on the rising edge of its trigger, so holding a key
/// twists once: after a pass that wrote no variable, a pass whose input
/// reads as the last one did (the key still held, nothing else changed)
/// fires nothing and sends no command. The variables must have distinct
/// names: a name declared twice is read live at its first declaration and
/// remembered at its last.
pub proof fn lemma_held_input_fires_once(
    k0: Keybinds,
    k1: Keybinds,
    c1: Seq<Command>,
    input: InputState,
    k2: Keybinds,
    c2: Seq<Command>,
)
    requires
        names_distinct(k0.vars@),
        pass_effect(k0, k1, c1),
        k1.vars@ == k0.vars@,
        forall|n: Seq<char>| #[trigger] read_spec(n, input) == read_spec(n, k1.input),
        pass_effect(Keybinds { input, ..k1 }, k2, c2),
    ensures
        c2.len() == 0,
{
    let env = live_env(input, k1.vars@);
    let prev = prev_env(k1.prev_input, k1.prev_vars@);
    assert(same_input(k1.prev_input, k0.input));
    assert forall|n: Seq<char>| #[trigger] env(n) == prev(n) by {
        lemma_snapshot_reads_same(k0.vars@, k1.prev_vars@, n);
        assert(read_spec(n, k1.prev_input) == read_spec(n, k0.input));
    }
    lemma_quiet_walk(k1.root@, seq![], crate::bindings::root_color(), env, prev);
}

/// The variables a click on the reference can hold down: the mouse
/// buttons, the modifiers, and every key.
pub open spec fn toggleable(name: Seq<char>) -> bool {
    ||| name == "mouse_left"@
    ||| name == "mouse_right"@
    ||| name == "mouse_middle"@
    ||| name == "key_shift"@
    ||| name == "key_ctrl"@
    ||| name == "key_alt"@
    ||| name == "key_command"@
    ||| (key_part(name) matches Some(k) && is_key_name(k))
}

/// Was the variable's key or button pressed for real this pass? Then it
/// reads as down for the pass whatever a click says.
pub open spec fn pressed_this_pass(a: InputState, name: Seq<char>) -> bool {
    if name == "mouse_left"@ {
        a.mouse_pressed@[0]
    } else if name == "mouse_right"@ {
        a.mouse_pressed@[1]
    } else if name == "mouse_middle"@ {
        a.mouse_pressed@[2]
    } else if name == "key_shift"@ || name == "key_ctrl"@ || name == "key_alt"@ || name == "key_command"@ {
        false
    } else {
        match key_part(name) {
            Some(k) => key_set(a.pressed@).contains(k),
            None => false,
        }
    }
}

proof fn lemma_fixed_names_differ()
    ensures
        "mouse_left"@ != "mouse_right"@,
        "mouse_left"@ != "mouse_middle"@,
        "mouse_right"@ != "mouse_middle"@,
        "key_shift"@ != "key_ctrl"@,
        "key_shift"@ != "key_alt"@,
        "key_shift"@ != "key_command"@,
        "key_ctrl"@ != "key_alt"@,
        "key_ctrl"@ != "key_command"@,
        "key_alt"@ != "key_command"@,
        "mouse_right"@ != "key_command"@,
        "hovered_grip"@ != "mouse_middle"@,
        key_part("mouse_left"@) is None,
        key_part("mouse_right"@) is None,
        key_part("mouse_middle"@) is None,
        key_part("hovered_grip"@) is None,
        key_part("hovered_grip_inverted"@) is None,
{
    reveal_strlit("mouse_left");
    reveal_strlit("mouse_right");
    reveal_strlit("mouse_middle");
    reveal_strlit("key_shift");
    reveal_strlit("key_ctrl");
    reveal_strlit("key_alt");
    reveal_strlit("key_command");
    reveal_strlit("hovered_grip");
    reveal_strlit("hovered_grip_inverted");
    reveal_strlit("key_");
    assert("key_shift"@.len() == 9);
    assert("key_ctrl"@.len() == 8);
    assert("key_alt"@.len() == 7);
    assert("mouse_right"@[0] != "key_command"@[0]);
    assert("hovered_grip"@[0] != "mouse_middle"@[0]);
    assert("mouse_left"@.take(4)[0] != "key_"@[0]);
    assert("mouse_right"@.take(4)[0] != "key_"@[0]);
    assert("mouse_middle"@.take(4)[0] != "key_"@[0]);
    assert("hovered_grip"@.take(4)[0] != "key_"@[0]);
    assert("hovered_grip_inverted"@.take(4)[0] != "key_"@[0]);
}

/// A click on the reference holds the variable down or lets it up: it reads
/// as set afterwards (or as down, if it was pressed for real this pass),
/// and every other variable reads as it did.
pub proof fn lemma_click_sets_only_its_variable(
    a: InputState,
    b: InputState,
    name: Seq<char>,
    down: bool,
    other: Seq<char>,
)
    requires
        set_down_effect(a, b, name, down),
        toggleable(name),
        a.mouse@.len() == 3,
        a.mouse_pressed@.len() == 3,
    ensures
        read_spec(name, b) == Some(Value::Bool(down || pressed_this_pass(a, name))),
        other != name ==> read_spec(other, b) == read_spec(other, a),
{
    lemma_fixed_names_differ();
    reveal_strlit("key_shift");
    reveal_strlit("key_ctrl");
    reveal_strlit("key_alt");
    reveal_strlit("key_command");
    reveal_strlit("hovered_grip");
    reveal_strlit("hovered_grip_inverted");
    reveal_strlit("mouse_left");
    reveal_strlit("mouse_right");
    reveal_strlit("mouse_middle");
    reveal_strlit("key_");
    let fixed = name == "mouse_left"@ || name == "mouse_right"@ || name == "mouse_middle"@ || name
        == "key_shift"@ || name == "key_ctrl"@ || name == "key_alt"@ || name == "key_command"@;
    if !fixed {
        let k = key_part(name)->Some_0;
        assert(name != "hovered_grip"@ && name != "hovered_grip_inverted"@);
        if down {
            assert(key_set(b.keys@) == key_set(a.keys@).insert(k));
        } else {
            assert(key_set(b.keys@) == key_set(a.keys@).remove(k));
        }
        assert(key_set(b.keys@).contains(k) == down);
    }
    if key_part(other) is Some && key_part(name) is Some && other != name {
        assert(key_part(other)->Some_0 != key_part(name)->Some_0) by {
            let (ko, kn) = (key_part(other)->Some_0, key_part(name)->Some_0);
            if ko == kn {
                assert(other =~= other.take(4) + ko);
                assert(name =~= name.take(4) + kn);
            }
        }
    }
}

/// Switching keybind sets while a key is held fires nothing: a binding
/// whose trigger was already true last pass does not fire, whatever its
/// guard says now.
pub proof fn lemma_held_trigger_never_fires(
    b: Binding,
    path: Seq<Seq<char>>,
    color: Color,
    env: Lookup,
    prev: Lookup,
)
    requires
        prev(b.trigger@) == Some(Value::Bool(true)),
    ensures
        binding_spec(b, path, color, env, None, prev).0.len() == 0,
{
}

/// A folder whose guard is false is not explored: nothing in it fires and
/// nothing in it is reported.
pub proof fn lemma_closed_folder_is_skipped(
    f: Folder,
    rest: Seq<Node>,
    path: Seq<Seq<char>>,
    color: Color,
    env: Lookup,
    forced: Option<Seq<char>>,
    prev: Lookup,
)
    requires
        bool_of(field_eval(f.guard.parsed_view(), env)) == Ok::<bool, Seq<char>>(false),
    ensures
        walk_spec(seq![Node::Folder(f)] + rest, path, color, env, forced, prev) == walk_spec(
            rest,
            path,
            color,
            env,
            forced,
            prev,
        ),
{
    let nodes = seq![Node::Folder(f)] + rest;
    assert(nodes.drop_first() =~= rest);
    let w = walk_spec(rest, path, color, env, forced, prev);
    assert(join(no_findings(), w).0 =~= w.0);
    assert(join(no_findings(), w).1 =~= w.1);
}

} // verus!
