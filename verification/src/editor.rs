//! The edits the keybind editor makes that are more than setting a field.
use vstd::prelude::*;
use crate::expr::Value;
use crate::keybinds::Keybinds;
use crate::text::{int_text, numbered, push_str};
use crate::vars::UserVar;

verus! {

/// "key_r key_space": the variables of the held keys, in order.
pub open spec fn held_spec(keys: Seq<Seq<char>>) -> Seq<char>
    decreases keys.len(),
{
    if keys.len() == 0 {
        seq![]
    } else if keys.len() == 1 {
        "key_"@ + keys[0]
    } else {
        held_spec(keys.drop_last()) + " key_"@ + keys.last()
    }
}

pub open spec fn names_of(keys: Seq<String>) -> Seq<Seq<char>> {
    keys.map_values(|k: String| k@)
}

/// The variables of the keys held down, for the list of builtins.
pub fn held_text(keys: &Vec<String>) -> (r: String)
    ensures
        r@ == held_spec(names_of(keys@)),
{
    let mut s = String::new();
    let mut i: usize = 0;
    while i < keys.len()
        invariant
            i <= keys@.len(),
            s@ == held_spec(names_of(keys@).take(i as int)),
        decreases keys@.len() - i,
    {
        if i == 0 {
            push_str(&mut s, "key_");
        } else {
            push_str(&mut s, " key_");
        }
        push_str(&mut s, keys[i].as_str());
        i = i + 1;
        assert(names_of(keys@).take(i as int).drop_last() =~= names_of(keys@).take(i - 1));
        proof {
            reveal_strlit("key_");
            reveal_strlit(" key_");
        }
        assert(s@ =~= held_spec(names_of(keys@).take(i as int)));
    }
    assert(names_of(keys@).take(i as int) =~= names_of(keys@));
    s
}

impl Keybinds {
    /// Declare a new variable: `false`, unpinned, named by how many there
    /// were, `var3` after three.
    pub fn add_variable(&mut self)
        requires
            old(self).vars@.len() < i64::MAX,
        ensures
            final(self).vars@.len() == old(self).vars@.len() + 1,
            forall|i: int| 0 <= i < old(self).vars@.len() ==> #[trigger] final(self).vars@[i] == old(self).vars@[i],
            final(self).vars@.last().name@ == "var"@ + int_text(old(self).vars@.len() as int),
            final(self).vars@.last().value == Value::Bool(false),
            !final(self).vars@.last().pinned,
            final(self).root == old(self).root,
            final(self).input == old(self).input,
            final(self).prev_input == old(self).prev_input,
            final(self).prev_vars == old(self).prev_vars,
            final(self).names == old(self).names,
    {
        let name = numbered("var", self.vars.len());
        self.vars.push(UserVar { name, value: Value::Bool(false), pinned: false });
    }
}

} // verus!
