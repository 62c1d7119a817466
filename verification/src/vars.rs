//! Keybind variables: the user-declared ones, and the lookup one pass makes
//! over the builtins and the user variables together.
use vstd::prelude::*;
use crate::expr::{Env, Type, Value};
use crate::input::{InputState, KeyNames, builtin_name, fixed_builtin, is_builtin, read, read_spec};
use crate::puzzle::Side;
use crate::text::str_eq;

verus! {

/// A user-declared variable. There is no separate declaration and current
/// value: the declaration holds the live value, so editing it here is how you
/// set it, and the pass reads whatever is in it.
pub struct UserVar {
    pub name: String,
    pub value: Value,
    /// show in the bottom bar, where it can be toggled without opening the
    /// tab.
    pub pinned: bool,
}

/// The value of the first variable named `name` from index `i` on.
pub open spec fn first_value(vars: Seq<UserVar>, name: Seq<char>, i: int) -> Option<Value>
    decreases vars.len() - i,
{
    if i < 0 || i >= vars.len() {
        None
    } else if vars[i].name@ == name {
        Some(vars[i].value)
    } else {
        first_value(vars, name, i + 1)
    }
}

/// The value of the last entry named `name` among the first `n`: a snapshot
/// collected into a map keeps the last of two equal names.
pub open spec fn last_value(vals: Seq<(String, Value)>, name: Seq<char>, n: int) -> Option<Value>
    decreases n,
{
    if n <= 0 || n > vals.len() {
        None
    } else if vals[n - 1].0@ == name {
        Some(vals[n - 1].1)
    } else {
        last_value(vals, name, n - 1)
    }
}

/// Where a pass reads user variables: live off the declarations, or from
/// the snapshot of what they held during the last pass. Only rising edges
/// need the snapshot, so everything else reads the live values.
pub enum UserVars<'a> {
    Live(&'a [UserVar]),
    Snapshot(&'a [(String, Value)]),
}

/// What a user-variable lookup answers for a name.
pub open spec fn user_lookup(user: UserVars, name: Seq<char>) -> Option<Value> {
    match user {
        UserVars::Live(vars) => first_value(vars@, name, 0),
        UserVars::Snapshot(vals) => last_value(vals@, name, vals@.len() as int),
    }
}

impl<'a> UserVars<'a> {
    pub fn get(&self, name: &str) -> (r: Option<Value>)
        ensures
            r == user_lookup(*self, name@),
    {
        match self {
            UserVars::Live(vars) => {
                let mut i: usize = 0;
                while i < vars.len()
                    invariant
                        user_lookup(*self, name@) == first_value(vars@, name@, 0),
                        i <= vars@.len(),
                        first_value(vars@, name@, 0) == first_value(vars@, name@, i as int),
                    decreases vars@.len() - i,
                {
                    if str_eq(vars[i].name.as_str(), name) {
                        return Some(vars[i].value);
                    }
                    i = i + 1;
                }
                None
            },
            UserVars::Snapshot(vals) => {
                let mut n: usize = vals.len();
                while n > 0
                    invariant
                        user_lookup(*self, name@) == last_value(vals@, name@, vals@.len() as int),
                        n <= vals@.len(),
                        last_value(vals@, name@, vals@.len() as int) == last_value(
                            vals@,
                            name@,
                            n as int,
                        ),
                    decreases n,
                {
                    if str_eq(vals[n - 1].0.as_str(), name) {
                        return Some(vals[n - 1].1);
                    }
                    n = n - 1;
                }
                None
            },
        }
    }
}

impl<'a> Env for UserVars<'a> {
    open spec fn lookup(&self, name: Seq<char>) -> Option<Value> {
        user_lookup(*self, name)
    }

    fn get(&self, name: &str) -> (r: Option<Value>) {
        UserVars::get(self, name)
    }
}

/// Variable lookup for one pass: builtins shadow user variables, so builtin
/// names are effectively reserved.
///
/// The two forced fields are what make a preview possible: asking "what
/// would happen if this were pressed" is the same pass with one variable
/// answered differently.
pub struct Vars<'a> {
    pub input: &'a InputState,
    pub names: &'a KeyNames,
    pub user: UserVars<'a>,
    /// this variable reads as this value, whatever the input says.
    pub forced: Option<(&'a str, bool)>,
    /// the pointer is over this grip, wherever it really is.
    pub hovered_grip: Option<Side>,
}

/// The lookup of a pass over the given input, user variables and overrides.
pub open spec fn vars_lookup(
    input: InputState,
    user: spec_fn(Seq<char>) -> Option<Value>,
    forced: Option<(Seq<char>, bool)>,
    hovered_grip: Option<Side>,
    name: Seq<char>,
) -> Option<Value> {
    if forced is Some && forced.unwrap().0 == name {
        Some(Value::Bool(forced.unwrap().1))
    } else if hovered_grip is Some && name == "hovered_grip"@ {
        Some(Value::Grip(hovered_grip))
    } else {
        match read_spec(name, input) {
            Some(v) => Some(v),
            None => user(name),
        }
    }
}

/// The forced variable's name and value, by their characters.
pub open spec fn forced_view(forced: Option<(&str, bool)>) -> Option<(Seq<char>, bool)> {
    match forced {
        Some((f, b)) => Some((f@, b)),
        None => None,
    }
}

impl<'a> Vars<'a> {
    pub fn new(input: &'a InputState, names: &'a KeyNames, user: UserVars<'a>) -> (r: Self)
        ensures
            r.input == input,
            r.names == names,
            r.user == user,
            r.forced is None,
            r.hovered_grip is None,
    {
        Vars { input, names, user, forced: None, hovered_grip: None }
    }
}

impl<'a> Env for Vars<'a> {
    open spec fn lookup(&self, name: Seq<char>) -> Option<Value> {
        vars_lookup(
            *self.input,
            |n: Seq<char>| user_lookup(self.user, n),
            forced_view(self.forced),
            self.hovered_grip,
            name,
        )
    }

    fn get(&self, name: &str) -> (r: Option<Value>) {
        if let Some((forced, value)) = self.forced {
            if str_eq(forced, name) {
                return Some(Value::Bool(value));
            }
        }
        if self.hovered_grip.is_some() && str_eq(name, "hovered_grip") {
            return Some(Value::Grip(self.hovered_grip));
        }
        match read(name, self.input, self.names) {
            Some(v) => Some(v),
            None => self.user.get(name),
        }
    }
}

/// Does the name resolve to anything at all? A trigger naming a variable
/// nobody declared is a typo, not an unbound key, so the editor says so.
pub fn is_known(name: &str, vars: &[UserVar]) -> (r: bool)
    ensures
        r == (builtin_name(name@) || exists|i: int| 0 <= i < vars@.len() && #[trigger] vars@[i].name@ == name@),
{
    if is_builtin(name) {
        return true;
    }
    let mut i: usize = 0;
    while i < vars.len()
        invariant
            i <= vars@.len(),
            forall|k: int| 0 <= k < i ==> (#[trigger] vars@[k]).name@ != name@,
        decreases vars@.len() - i,
    {
        if str_eq(vars[i].name.as_str(), name) {
            return true;
        }
        i = i + 1;
    }
    false
}

/// The builtin variables with fixed names, in the order the editor lists
/// them.
pub open spec fn builtin_names() -> Seq<Seq<char>> {
    seq![
        "hovered_grip"@,
        "hovered_grip_inverted"@,
        "mouse_left"@,
        "mouse_right"@,
        "mouse_middle"@,
        "key_shift"@,
        "key_ctrl"@,
        "key_alt"@,
        "key_command"@,
    ]
}

/// The builtin variables with fixed names and their types, for the list of
/// builtins in the editor. Every key also has one, named `key_` and the
/// key's name.
pub fn builtins() -> (r: Vec<(&'static str, Type)>)
    ensures
        r@.len() == 9,
        forall|i: int| 0 <= i < 9 ==> (#[trigger] r@[i]).0@ == builtin_names()[i],
        r@[0].1 == Type::Grip,
        forall|i: int| 1 <= i < r@.len() ==> (#[trigger] r@[i]).1 == Type::Bool,
{
    let r = vec![
        ("hovered_grip", Type::Grip),
        ("hovered_grip_inverted", Type::Bool),
        ("mouse_left", Type::Bool),
        ("mouse_right", Type::Bool),
        ("mouse_middle", Type::Bool),
        ("key_shift", Type::Bool),
        ("key_ctrl", Type::Bool),
        ("key_alt", Type::Bool),
        ("key_command", Type::Bool),
    ];
    proof {
        reveal_strlit("hovered_grip");
        reveal_strlit("hovered_grip_inverted");
        reveal_strlit("mouse_left");
        reveal_strlit("mouse_right");
        reveal_strlit("mouse_middle");
        reveal_strlit("key_shift");
        reveal_strlit("key_ctrl");
        reveal_strlit("key_alt");
        reveal_strlit("key_command");
    }
    r
}

} // verus!
