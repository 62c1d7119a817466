//! The persistent input state every builtin keybind variable reads from, and
//! the names of the keys.
//!
//! A key is named by egui's name for it, lowercased: `r`, `space`,
//! `arrowleft`. Its variable is `key_` followed by that name.
use vstd::prelude::*;
use crate::expr::Value;
use crate::puzzle::Side;
use crate::text::{owned, push_str, str_eq};

verus! {

/// egui's `Debug` name of the key at `index` in `egui::Key::ALL`, or `None`
/// past the end of that list.
pub uninterp spec fn egui_key_debug_name(index: int) -> Option<Seq<char>>;

/// What `str::to_lowercase` makes of a string.
pub uninterp spec fn lowercase(s: Seq<char>) -> Seq<char>;

/// Is `name` the lowercased name of one of egui's keys?
pub open spec fn is_key_name(name: Seq<char>) -> bool {
    exists|i: int| 0 <= i && (#[trigger] egui_key_debug_name(i) matches Some(d) && lowercase(d) == name)
}

/// The number of keys egui knows (`egui::Key::ALL.len()`): exactly the
/// indices below it have a key.
#[verifier::external_body]
fn egui_key_count() -> (r: usize)
    ensures
        forall|i: int| 0 <= i ==> (i < r <==> #[trigger] egui_key_debug_name(i) is Some),
{
    eframe::egui::Key::ALL.len()
}

/// The `Debug` name of `egui::Key::ALL[index]`, or `None` past the end.
#[verifier::external_body]
fn egui_key_name(index: usize) -> (r: Option<String>)
    ensures
        match r {
            Some(s) => egui_key_debug_name(index as int) == Some(s@),
            None => egui_key_debug_name(index as int) is None,
        },
{
    match eframe::egui::Key::ALL.get(index) {
        Some(key) => Some(format!("{key:?}")),
        None => None,
    }
}

/// Only ASCII characters.
pub open spec fn is_ascii_text(s: Seq<char>) -> bool {
    forall|i: int| 0 <= i < s.len() ==> (#[trigger] s[i] as u32) < 128
}

/// `c` with an ASCII capital letter turned into its small letter.
pub open spec fn ascii_lower_char(c: char) -> char {
    if 'A' <= c && c <= 'Z' {
        ((c as u32) + 32) as char
    } else {
        c
    }
}

/// Each character of `s` through `ascii_lower_char`.
pub open spec fn ascii_lowercase(s: Seq<char>) -> Seq<char> {
    s.map_values(|c: char| ascii_lower_char(c))
}

/// std's `str::to_lowercase`. Its result is named; of it is stated what the
/// documentation gives for ASCII text: `A` to `Z` become `a` to `z` and every
/// other character stays. The Unicode case tables beyond ASCII are not
/// stated.
#[verifier::external_body]
pub(crate) fn to_lowercase(s: &str) -> (r: String)
    ensures
        r@ == lowercase(s@),
        is_ascii_text(s@) ==> r@ == ascii_lowercase(s@),
{
    s.to_lowercase()
}

/// The lowercased names of all of egui's keys, looked up once and kept.
pub struct KeyNames {
    names: Vec<String>,
}

impl KeyNames {
    /// Holds exactly egui's key names, lowercased, in egui's order.
    #[verifier::type_invariant]
    pub closed spec fn complete(self) -> bool {
        &&& forall|i: int| 0 <= i ==> (i < self.names@.len() <==> #[trigger] egui_key_debug_name(i) is Some)
        &&& forall|i: int|
            0 <= i < self.names@.len() ==> (egui_key_debug_name(i) matches Some(d) && lowercase(d)
                == #[trigger] self.names@[i]@)
    }

    pub fn new() -> (r: Self) {
        let count = egui_key_count();
        let mut names: Vec<String> = Vec::new();
        let mut i: usize = 0;
        while i < count
            invariant
                i <= count,
                names@.len() == i,
                forall|j: int| 0 <= j ==> (j < count <==> #[trigger] egui_key_debug_name(j) is Some),
                forall|j: int|
                    0 <= j < i ==> (egui_key_debug_name(j) matches Some(d) && lowercase(d)
                        == #[trigger] names@[j]@),
            decreases count - i,
        {
            assert(egui_key_debug_name(i as int) is Some);
            match egui_key_name(i) {
                Some(debug) => {
                    names.push(to_lowercase(debug.as_str()));
                },
                None => {
                    assert(false);
                },
            }
            i = i + 1;
        }
        KeyNames { names }
    }

    /// Is `name` one of the key names?
    pub fn contains(&self, name: &str) -> (r: bool)
        ensures
            r == is_key_name(name@),
    {
        proof {
            use_type_invariant(self);
        }
        let mut i: usize = 0;
        while i < self.names.len()
            invariant
                self.complete(),
                i <= self.names@.len(),
                forall|j: int| 0 <= j < i ==> self.names@[j]@ != name@,
            decreases self.names@.len() - i,
        {
            if str_eq(self.names[i].as_str(), name) {
                assert(egui_key_debug_name(i as int) matches Some(d) && lowercase(d) == name@);
                return true;
            }
            i = i + 1;
        }
        proof {
            if is_key_name(name@) {
                let k = choose|k: int|
                    0 <= k && (#[trigger] egui_key_debug_name(k) matches Some(d) && lowercase(d)
                        == name@);
                assert(k < self.names@.len());
                assert(self.names@[k]@ == name@);
            }
        }
        false
    }
}

/// The name of egui's key at `index` of `egui::Key::ALL`, lowercased: the
/// name a key event carries and the suffix of its `key_` variable.
pub fn key_name(index: usize) -> (r: Option<String>)
    ensures
        match r {
            Some(s) => egui_key_debug_name(index as int) matches Some(d) && s@ == lowercase(d),
            None => egui_key_debug_name(index as int) is None,
        },
{
    match egui_key_name(index) {
        Some(debug) => Some(to_lowercase(debug.as_str())),
        None => None,
    }
}

/// The variable that reads egui's key at `index`: `key_r` for `R`.
pub fn key_variable(index: usize) -> (r: Option<String>)
    ensures
        match r {
            Some(s) => egui_key_debug_name(index as int) matches Some(d) && s@ == "key_"@ + lowercase(d),
            None => egui_key_debug_name(index as int) is None,
        },
{
    match key_name(index) {
        Some(name) => {
            let mut s = owned("key_");
            push_str(&mut s, name.as_str());
            Some(s)
        },
        None => None,
    }
}

/// The physical modifier keys, as egui reports them.
#[derive(Debug, Clone, Copy, PartialEq, Eq, Structural)]
pub struct Modifiers {
    pub alt: bool,
    pub ctrl: bool,
    pub shift: bool,
    pub mac_cmd: bool,
    pub command: bool,
}

impl Modifiers {
    /// No modifier down.
    pub fn none() -> (r: Self)
        ensures
            !r.alt && !r.ctrl && !r.shift && !r.mac_cmd && !r.command,
    {
        Modifiers { alt: false, ctrl: false, shift: false, mac_cmd: false, command: false }
    }
}

/// A flag after folding in a physical change: the new physical value if it
/// moved, else what it was.
pub open spec fn delta(current: bool, was: bool, now: bool) -> bool {
    if now != was {
        now
    } else {
        current
    }
}

/// Fold physical modifier changes into the persistent state. Only a flag that
/// actually moved is written, so a reference-toggled modifier survives frames
/// where the physical key did not move, while a real release still clears it.
pub fn apply_modifier_delta(current: &mut Modifiers, was: Modifiers, now: Modifiers)
    ensures
        final(current).shift == delta(old(current).shift, was.shift, now.shift),
        final(current).ctrl == delta(old(current).ctrl, was.ctrl, now.ctrl),
        final(current).alt == delta(old(current).alt, was.alt, now.alt),
        final(current).mac_cmd == delta(old(current).mac_cmd, was.mac_cmd, now.mac_cmd),
        final(current).command == delta(old(current).command, was.command, now.command),
{
    if now.shift != was.shift {
        current.shift = now.shift;
    }
    if now.ctrl != was.ctrl {
        current.ctrl = now.ctrl;
    }
    if now.alt != was.alt {
        current.alt = now.alt;
    }
    if now.mac_cmd != was.mac_cmd {
        current.mac_cmd = now.mac_cmd;
    }
    if now.command != was.command {
        current.command = now.command;
    }
}

/// What the rest of the app tells the keybind system about this frame, beyond
/// the raw keyboard and mouse state.
pub struct InputContext {
    /// the twist gizmo under the pointer, as the `hovered_grip` variable.
    pub hovered_grip: Option<Side>,
    /// `hovered_grip_inverted`: clicking that gizmo should twist the other way
    /// (it is a backface and the view reverses backface twists).
    pub hovered_grip_inverted: bool,
}

/// The key names held in a list, as a set.
pub open spec fn key_set(v: Seq<String>) -> Set<Seq<char>> {
    Set::new(|k: Seq<char>| exists|i: int| 0 <= i < v.len() && #[trigger] v[i]@ == k)
}

/// Is `key` in the list?
pub fn has_key(v: &Vec<String>, key: &str) -> (r: bool)
    ensures
        r == key_set(v@).contains(key@),
{
    let mut i: usize = 0;
    while i < v.len()
        invariant
            i <= v@.len(),
            forall|j: int| 0 <= j < i ==> v@[j]@ != key@,
        decreases v@.len() - i,
    {
        if str_eq(v[i].as_str(), key) {
            return true;
        }
        i = i + 1;
    }
    false
}

/// Adds `key` to the list unless it is there already.
fn insert_key(v: &mut Vec<String>, key: &str)
    ensures
        key_set(final(v)@) == key_set(old(v)@).insert(key@),
{
    if !has_key(v, key) {
        let ghost before = v@;
        v.push(owned(key));
        assert(key_set(v@) =~= key_set(before).insert(key@)) by {
            assert(v@[before.len() as int]@ == key@);
            assert forall|k: Seq<char>| key_set(v@).contains(k) implies key_set(before).insert(key@).contains(k) by {
                let i = choose|i: int| 0 <= i < v@.len() && #[trigger] v@[i]@ == k;
                if i < before.len() {
                    assert(before[i]@ == k);
                }
            }
            assert forall|k: Seq<char>| key_set(before).contains(k) implies key_set(v@).contains(k) by {
                let i = choose|i: int| 0 <= i < before.len() && #[trigger] before[i]@ == k;
                assert(v@[i]@ == k);
            }
        }
    } else {
        assert(key_set(v@) =~= key_set(v@).insert(key@));
    }
}

/// Takes every copy of `key` out of the list.
fn remove_key(v: &mut Vec<String>, key: &str)
    ensures
        key_set(final(v)@) == key_set(old(v)@).remove(key@),
{
    let ghost before = v@;
    let mut kept: Vec<String> = Vec::new();
    let mut i: usize = 0;
    while i < v.len()
        invariant
            v@ == before,
            i <= before.len(),
            forall|k: Seq<char>|
                key_set(kept@).contains(k) <==> (k != key@ && exists|j: int|
                    0 <= j < i && #[trigger] before[j]@ == k),
        decreases before.len() - i,
    {
        if !str_eq(v[i].as_str(), key) {
            let ghost prev = kept@;
            kept.push(v[i].clone());
            assert forall|k: Seq<char>| key_set(kept@).contains(k) <==> (k != key@ && exists|j: int|
                0 <= j < i + 1 && #[trigger] before[j]@ == k) by {
                if key_set(kept@).contains(k) {
                    let m = choose|m: int| 0 <= m < kept@.len() && #[trigger] kept@[m]@ == k;
                    if m < prev.len() {
                        assert(prev[m]@ == k);
                        assert(key_set(prev).contains(k));
                    } else {
                        assert(before[i as int]@ == k);
                    }
                }
                if k != key@ && exists|j: int| 0 <= j < i + 1 && #[trigger] before[j]@ == k {
                    let j = choose|j: int| 0 <= j < i + 1 && #[trigger] before[j]@ == k;
                    if j < i {
                        assert(key_set(prev).contains(k));
                        let m = choose|m: int| 0 <= m < prev.len() && #[trigger] prev[m]@ == k;
                        assert(kept@[m]@ == k);
                    } else {
                        assert(kept@[prev.len() as int]@ == k);
                    }
                }
            }
        } else {
            assert forall|k: Seq<char>| key_set(kept@).contains(k) <==> (k != key@ && exists|j: int|
                0 <= j < i + 1 && #[trigger] before[j]@ == k) by {
                if k != key@ && exists|j: int| 0 <= j < i + 1 && #[trigger] before[j]@ == k {
                    let j = choose|j: int| 0 <= j < i + 1 && #[trigger] before[j]@ == k;
                    assert(j < i);
                }
            }
        }
        i = i + 1;
    }
    assert(key_set(kept@) =~= key_set(before).remove(key@));
    *v = kept;
}

/// The persistent input: keys, mouse buttons and modifiers held down. Both
/// physical events and clicks on the keybind reference mutate it, so there
/// is one source of truth for "is this down".
pub struct InputState {
    /// keys held down. press events add, release events remove, a reference
    /// click toggles.
    pub keys: Vec<String>,
    /// keys that got a press event this pass, cleared each pass, so a key
    /// counts as down for the frame it was pressed even if the release
    /// already arrived.
    pub pressed: Vec<String>,
    /// left, right, middle, held down.
    pub mouse: [bool; 3],
    /// mouse buttons pressed this pass, cleared each pass.
    pub mouse_pressed: [bool; 3],
    pub modifiers: Modifiers,
    pub hovered_grip: Option<Side>,
    pub hovered_grip_inverted: bool,
}

impl InputState {
    /// Nothing down, nothing hovered.
    pub fn new() -> (r: Self)
        ensures
            key_set(r.keys@) == Set::<Seq<char>>::empty(),
            key_set(r.pressed@) == Set::<Seq<char>>::empty(),
            r.mouse@ == seq![false, false, false],
            r.mouse_pressed@ == seq![false, false, false],
            r.modifiers == (Modifiers { alt: false, ctrl: false, shift: false, mac_cmd: false, command: false }),
            r.hovered_grip is None,
            !r.hovered_grip_inverted,
    {
        let r = InputState {
            keys: Vec::new(),
            pressed: Vec::new(),
            mouse: [false, false, false],
            mouse_pressed: [false, false, false],
            modifiers: Modifiers::none(),
            hovered_grip: None,
            hovered_grip_inverted: false,
        };
        assert(key_set(r.keys@) =~= Set::<Seq<char>>::empty());
        assert(key_set(r.pressed@) =~= Set::<Seq<char>>::empty());
        assert(r.mouse@ =~= seq![false, false, false]);
        assert(r.mouse_pressed@ =~= seq![false, false, false]);
        r
    }

    /// a key went down: held, and marked pressed-this-pass so it is an edge.
    pub fn press(&mut self, key: &str)
        ensures
            key_set(final(self).keys@) == key_set(old(self).keys@).insert(key@),
            key_set(final(self).pressed@) == key_set(old(self).pressed@).insert(key@),
            final(self).mouse == old(self).mouse,
            final(self).mouse_pressed == old(self).mouse_pressed,
            final(self).modifiers == old(self).modifiers,
            final(self).hovered_grip == old(self).hovered_grip,
            final(self).hovered_grip_inverted == old(self).hovered_grip_inverted,
    {
        insert_key(&mut self.keys, key);
        insert_key(&mut self.pressed, key);
    }

    /// a key went up.
    pub fn release(&mut self, key: &str)
        ensures
            key_set(final(self).keys@) == key_set(old(self).keys@).remove(key@),
            key_set(final(self).pressed@) == key_set(old(self).pressed@),
            final(self).mouse == old(self).mouse,
            final(self).mouse_pressed == old(self).mouse_pressed,
            final(self).modifiers == old(self).modifiers,
            final(self).hovered_grip == old(self).hovered_grip,
            final(self).hovered_grip_inverted == old(self).hovered_grip_inverted,
    {
        remove_key(&mut self.keys, key);
    }

    /// Holds a key down, or lets it up, the way a reference click does.
    pub fn set_key(&mut self, key: &str, down: bool)
        ensures
            key_set(final(self).keys@) == if down {
                key_set(old(self).keys@).insert(key@)
            } else {
                key_set(old(self).keys@).remove(key@)
            },
            key_set(final(self).pressed@) == key_set(old(self).pressed@),
            final(self).mouse == old(self).mouse,
            final(self).mouse_pressed == old(self).mouse_pressed,
            final(self).modifiers == old(self).modifiers,
            final(self).hovered_grip == old(self).hovered_grip,
            final(self).hovered_grip_inverted == old(self).hovered_grip_inverted,
    {
        if down {
            insert_key(&mut self.keys, key);
        } else {
            remove_key(&mut self.keys, key);
        }
    }

    /// a mouse button went down, held and marked pressed-this-pass.
    pub fn mouse_press(&mut self, idx: usize)
        requires
            idx < 3,
        ensures
            final(self).mouse@ == old(self).mouse@.update(idx as int, true),
            final(self).mouse_pressed@ == old(self).mouse_pressed@.update(idx as int, true),
            final(self).keys == old(self).keys,
            final(self).pressed == old(self).pressed,
            final(self).modifiers == old(self).modifiers,
            final(self).hovered_grip == old(self).hovered_grip,
            final(self).hovered_grip_inverted == old(self).hovered_grip_inverted,
    {
        self.mouse.set(idx, true);
        self.mouse_pressed.set(idx, true);
    }

    /// a mouse button went up.
    pub fn mouse_release(&mut self, idx: usize)
        requires
            idx < 3,
        ensures
            final(self).mouse@ == old(self).mouse@.update(idx as int, false),
            final(self).mouse_pressed == old(self).mouse_pressed,
            final(self).keys == old(self).keys,
            final(self).pressed == old(self).pressed,
            final(self).modifiers == old(self).modifiers,
            final(self).hovered_grip == old(self).hovered_grip,
            final(self).hovered_grip_inverted == old(self).hovered_grip_inverted,
    {
        self.mouse.set(idx, false);
    }

    /// A copy of the state.
    pub fn copy(&self) -> (r: Self)
        ensures
            r.keys@ == self.keys@,
            r.pressed@ == self.pressed@,
            r.mouse == self.mouse,
            r.mouse_pressed == self.mouse_pressed,
            r.modifiers == self.modifiers,
            r.hovered_grip == self.hovered_grip,
            r.hovered_grip_inverted == self.hovered_grip_inverted,
    {
        InputState {
            keys: copy_names(&self.keys),
            pressed: copy_names(&self.pressed),
            mouse: self.mouse,
            mouse_pressed: self.mouse_pressed,
            modifiers: self.modifiers,
            hovered_grip: self.hovered_grip,
            hovered_grip_inverted: self.hovered_grip_inverted,
        }
    }
}

/// A copy of a list of names.
pub fn copy_names(v: &Vec<String>) -> (r: Vec<String>)
    ensures
        r@ == v@,
{
    let mut r: Vec<String> = Vec::new();
    let mut i: usize = 0;
    while i < v.len()
        invariant
            i <= v@.len(),
            r@ == v@.subrange(0, i as int),
        decreases v@.len() - i,
    {
        r.push(v[i].clone());
        i = i + 1;
        assert(r@ =~= v@.subrange(0, i as int));
    }
    assert(r@ =~= v@);
    r
}

/// The builtin variables with fixed names. Every key also has one, named
/// `key_` and the key's name.
pub open spec fn fixed_builtin(name: Seq<char>) -> bool {
    name == "hovered_grip"@ || name == "hovered_grip_inverted"@ || name == "mouse_left"@ || name
        == "mouse_right"@ || name == "mouse_middle"@ || name == "key_shift"@ || name == "key_ctrl"@
        || name == "key_alt"@ || name == "key_command"@
}

/// The key a `key_` variable names, if the name has that prefix.
pub open spec fn key_part(name: Seq<char>) -> Option<Seq<char>> {
    if name.len() >= 4 && name.take(4) == "key_"@ {
        Some(name.skip(4))
    } else {
        None
    }
}

/// Is `name` a builtin variable's name? It does not depend on the input:
/// every key has one whether or not it is down.
pub open spec fn builtin_name(name: Seq<char>) -> bool {
    fixed_builtin(name) || (key_part(name) matches Some(k) && is_key_name(k))
}

/// The value of a builtin variable, read straight from the persistent input.
/// `mouse_left` and the keys are down when held or pressed this pass: a tap
/// inside one frame is down for that frame.
pub open spec fn read_spec(name: Seq<char>, input: InputState) -> Option<Value> {
    if name == "hovered_grip"@ {
        Some(Value::Grip(input.hovered_grip))
    } else if name == "hovered_grip_inverted"@ {
        Some(Value::Bool(input.hovered_grip_inverted))
    } else if name == "mouse_left"@ {
        Some(Value::Bool(input.mouse@[0] || input.mouse_pressed@[0]))
    } else if name == "mouse_right"@ {
        Some(Value::Bool(input.mouse@[1] || input.mouse_pressed@[1]))
    } else if name == "mouse_middle"@ {
        Some(Value::Bool(input.mouse@[2] || input.mouse_pressed@[2]))
    } else if name == "key_shift"@ {
        Some(Value::Bool(input.modifiers.shift))
    } else if name == "key_ctrl"@ {
        Some(Value::Bool(input.modifiers.ctrl))
    } else if name == "key_alt"@ {
        Some(Value::Bool(input.modifiers.alt))
    } else if name == "key_command"@ {
        Some(Value::Bool(input.modifiers.command))
    } else {
        match key_part(name) {
            Some(k) => if is_key_name(k) {
                Some(
                    Value::Bool(key_set(input.keys@).contains(k) || key_set(input.pressed@).contains(k)),
                )
            } else {
                None
            },
            None => None,
        }
    }
}

/// The key name after a `key_` prefix, if there is that prefix.
pub fn strip_key_prefix(name: &str) -> (r: Option<&str>)
    ensures
        match key_part(name@) {
            Some(k) => r matches Some(s) && s@ == k,
            None => r is None,
        },
{
    proof {
        reveal_strlit("key_");
    }
    let n = name.unicode_len();
    if n >= 4 && name.get_char(0) == 'k' && name.get_char(1) == 'e' && name.get_char(2) == 'y'
        && name.get_char(3) == '_' {
        assert(name@.take(4) =~= "key_"@);
        let rest = name.substring_char(4, n);
        assert(rest@ =~= name@.skip(4));
        Some(rest)
    } else {
        proof {
            if name@.len() >= 4 && name@.take(4) == "key_"@ {
                assert(name@[0] == name@.take(4)[0]);
                assert(name@[1] == name@.take(4)[1]);
                assert(name@[2] == name@.take(4)[2]);
                assert(name@[3] == name@.take(4)[3]);
            }
        }
        None
    }
}

/// The value of a builtin variable, read straight from the persistent input.
pub fn read(name: &str, input: &InputState, names: &KeyNames) -> (r: Option<Value>)
    requires
        input.mouse@.len() == 3,
        input.mouse_pressed@.len() == 3,
    ensures
        r == read_spec(name@, *input),
{
    if str_eq(name, "hovered_grip") {
        Some(Value::Grip(input.hovered_grip))
    } else if str_eq(name, "hovered_grip_inverted") {
        Some(Value::Bool(input.hovered_grip_inverted))
    } else if str_eq(name, "mouse_left") {
        Some(Value::Bool(input.mouse[0] || input.mouse_pressed[0]))
    } else if str_eq(name, "mouse_right") {
        Some(Value::Bool(input.mouse[1] || input.mouse_pressed[1]))
    } else if str_eq(name, "mouse_middle") {
        Some(Value::Bool(input.mouse[2] || input.mouse_pressed[2]))
    } else if str_eq(name, "key_shift") {
        Some(Value::Bool(input.modifiers.shift))
    } else if str_eq(name, "key_ctrl") {
        Some(Value::Bool(input.modifiers.ctrl))
    } else if str_eq(name, "key_alt") {
        Some(Value::Bool(input.modifiers.alt))
    } else if str_eq(name, "key_command") {
        Some(Value::Bool(input.modifiers.command))
    } else {
        match strip_key_prefix(name) {
            Some(key) => {
                if names.contains(key) {
                    Some(Value::Bool(has_key(&input.keys, key) || has_key(&input.pressed, key)))
                } else {
                    None
                }
            },
            None => None,
        }
    }
}

/// Is this a builtin variable's name, given the key names?
pub fn builtin_in(name: &str, names: &KeyNames) -> (r: bool)
    ensures
        r == builtin_name(name@),
{
    if str_eq(name, "hovered_grip") || str_eq(name, "hovered_grip_inverted") || str_eq(
        name,
        "mouse_left",
    ) || str_eq(name, "mouse_right") || str_eq(name, "mouse_middle") || str_eq(name, "key_shift")
        || str_eq(name, "key_ctrl") || str_eq(name, "key_alt") || str_eq(name, "key_command") {
        true
    } else {
        match strip_key_prefix(name) {
            Some(key) => names.contains(key),
            None => false,
        }
    }
}

/// Is this a builtin variable's name? It does not depend on the input, since
/// the set of names does not: every key has one whether or not it is down.
pub fn is_builtin(name: &str) -> (r: bool)
    ensures
        r == builtin_name(name@),
{
    builtin_in(name, &KeyNames::new())
}

} // verus!
