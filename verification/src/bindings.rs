//! The folder tree of bindings, and what a fired binding's command
//! evaluates to.
use vstd::prelude::*;
use crate::commands::{Command, Origin};
use crate::expr::{
    Env, ExprField, Lookup, Value, as_mask, as_multiplicity, bool_of, field_eval,
    grip_of, lookup_of, push_value, res_view, value_text,
};
use crate::notation::{naming_overflows, reorientation, twist_text};
use crate::parser::parse_spec;
use crate::puzzle::{LayerMask, Rotation, Side, Twist, axis_of};
use crate::text::{int_text, owned, push_i64, push_str};

verus! {

/// An sRGB color with alpha, as the reference and the report draw folders.
#[derive(Debug, Clone, Copy, PartialEq, Eq, Structural)]
pub struct Color {
    pub r: u8,
    pub g: u8,
    pub b: u8,
    pub a: u8,
}

impl Color {
    /// An opaque color.
    pub fn from_rgb(r: u8, g: u8, b: u8) -> (c: Color)
        ensures
            c == (Color { r, g, b, a: 255 }),
    {
        Color { r, g, b, a: 255 }
    }

    /// The mid gray of bindings outside any folder.
    pub fn gray() -> (c: Color)
        ensures
            c == (Color { r: 160, g: 160, b: 160, a: 255 }),
    {
        Color { r: 160, g: 160, b: 160, a: 255 }
    }
}

/// color for bindings outside any folder, and for a freshly added folder.
pub open spec fn root_color() -> Color {
    Color { r: 160, g: 160, b: 160, a: 255 }
}

pub struct Folder {
    pub name: String,
    /// colors this folder's bindings wherever they're reported.
    pub color: Color,
    /// the pass only explores the folder while this is true.
    pub guard: ExprField,
    pub children: Vec<Node>,
}

pub struct Binding {
    /// the boolean variable whose rising edge fires this.
    pub trigger: String,
    pub guard: ExprField,
    pub command: BindCommand,
}

pub enum Node {
    Folder(Folder),
    Binding(Binding),
}

/// What a binding does. Arguments are expressions, so one binding covers
/// both twist directions (`invert: key_shift`) and follows whatever the
/// default mask happens to be.
pub enum BindCommand {
    Twist { grip: ExprField, layers: ExprField, multiplicity: ExprField, invert: ExprField },
    /// whole-puzzle reorientation, named by the side it turns like: `U` turns
    /// the puzzle the way a `U` twist turns its layer.
    Reorient { grip: ExprField, multiplicity: ExprField, invert: ExprField },
    Align,
    Undo,
    Redo,
    /// the one command that writes back into the keybind system.
    SetVar { name: String, value: ExprField },
}

/// `BindCommand` without its arguments, for the command dropdown.
#[derive(Debug, Clone, Copy, PartialEq, Eq, Structural)]
pub enum CommandKind {
    Twist,
    Reorient,
    Align,
    Undo,
    Redo,
    SetVar,
}

pub open spec fn kind_of(cmd: BindCommand) -> CommandKind {
    match cmd {
        BindCommand::Twist { .. } => CommandKind::Twist,
        BindCommand::Reorient { .. } => CommandKind::Reorient,
        BindCommand::Align => CommandKind::Align,
        BindCommand::Undo => CommandKind::Undo,
        BindCommand::Redo => CommandKind::Redo,
        BindCommand::SetVar { .. } => CommandKind::SetVar,
    }
}

pub open spec fn kind_text(kind: CommandKind) -> Seq<char> {
    match kind {
        CommandKind::Twist => "twist"@,
        CommandKind::Reorient => "reorient"@,
        CommandKind::Align => "align"@,
        CommandKind::Undo => "undo"@,
        CommandKind::Redo => "redo"@,
        CommandKind::SetVar => "set variable"@,
    }
}

/// A field exactly as `ExprField::new(src)` makes it.
pub open spec fn fresh(f: ExprField, src: Seq<char>) -> bool {
    f.source() == src && f.parsed_view() == parse_spec(src)
}

/// The default twist binding command: the given grip, the default mask and
/// multiplicity, and the given inversion.
pub open spec fn is_twist_command(cmd: BindCommand, grip: Seq<char>, invert: Seq<char>) -> bool {
    cmd matches BindCommand::Twist { grip: g, layers: l, multiplicity: m, invert: i } && fresh(g, grip)
        && fresh(l, "default_mask"@) && fresh(m, "default_multiplicity"@) && fresh(i, invert)
}

/// The default reorientation command: a quarter turn about the grip.
pub open spec fn is_reorient_command(cmd: BindCommand, grip: Seq<char>, invert: Seq<char>) -> bool {
    cmd matches BindCommand::Reorient { grip: g, multiplicity: m, invert: i } && fresh(g, grip)
        && fresh(m, "2"@) && fresh(i, invert)
}

impl CommandKind {
    pub fn all() -> (r: Vec<CommandKind>)
        ensures
            r@ == seq![
                CommandKind::Twist,
                CommandKind::Reorient,
                CommandKind::Align,
                CommandKind::Undo,
                CommandKind::Redo,
                CommandKind::SetVar,
            ],
    {
        let r = vec![
            CommandKind::Twist,
            CommandKind::Reorient,
            CommandKind::Align,
            CommandKind::Undo,
            CommandKind::Redo,
            CommandKind::SetVar,
        ];
        assert(r@ =~= seq![
            CommandKind::Twist,
            CommandKind::Reorient,
            CommandKind::Align,
            CommandKind::Undo,
            CommandKind::Redo,
            CommandKind::SetVar,
        ]);
        r
    }

    pub fn name(self) -> (r: &'static str)
        ensures
            r@ == kind_text(self),
    {
        match self {
            CommandKind::Twist => "twist",
            CommandKind::Reorient => "reorient",
            CommandKind::Align => "align",
            CommandKind::Undo => "undo",
            CommandKind::Redo => "redo",
            CommandKind::SetVar => "set variable",
        }
    }

    /// The command a binding gets when its kind is switched to this one.
    pub fn default_command(self) -> (r: BindCommand)
        ensures
            kind_of(r) == self,
            self == CommandKind::Twist ==> is_twist_command(r, "hovered_grip"@, "false"@),
            self == CommandKind::Reorient ==> is_reorient_command(r, "U"@, "false"@),
            self == CommandKind::SetVar ==> (r matches BindCommand::SetVar { name, value } && name@
                == Seq::<char>::empty() && fresh(value, "true"@)),
    {
        match self {
            CommandKind::Twist => twist_command("hovered_grip", "false"),
            CommandKind::Reorient => reorient_command("U", "false"),
            CommandKind::Align => BindCommand::Align,
            CommandKind::Undo => BindCommand::Undo,
            CommandKind::Redo => BindCommand::Redo,
            CommandKind::SetVar => BindCommand::SetVar {
                name: String::new(),
                value: ExprField::new("true"),
            },
        }
    }
}

/// The unevaluated one-liner for a collapsed binding header.
pub open spec fn summary_text(cmd: BindCommand) -> Seq<char> {
    match cmd {
        BindCommand::Twist { grip, layers, multiplicity, invert } => "twist "@ + grip.source() + " "@
            + layers.source() + " "@ + multiplicity.source() + " (invert "@ + invert.source() + ")"@,
        BindCommand::Reorient { grip, multiplicity, invert } => "reorient "@ + grip.source() + " "@
            + multiplicity.source() + " (invert "@ + invert.source() + ")"@,
        BindCommand::Align => "align"@,
        BindCommand::Undo => "undo"@,
        BindCommand::Redo => "redo"@,
        BindCommand::SetVar { name, value } => "set "@ + name@ + " = "@ + value.source(),
    }
}

/// What executing a fired binding does. Commands go out to the hub; a
/// variable write stays in the keybind system.
pub enum Action {
    Command(Command),
    SetVar { name: String, value: Value },
}

pub enum ActionView {
    Command(Command),
    SetVar { name: Seq<char>, value: Value },
}

pub open spec fn action_view(a: Action) -> ActionView {
    match a {
        Action::Command(c) => ActionView::Command(c),
        Action::SetVar { name, value } => ActionView::SetVar { name: name@, value },
    }
}

/// An evaluated command with its label, taken by characters.
pub type EvalView = Result<(Seq<char>, ActionView), Seq<char>>;

pub open spec fn eval_view(r: Result<(String, Action), String>) -> EvalView {
    match r {
        Ok((label, action)) => Ok((label@, action_view(action))),
        Err(m) => Err(m@),
    }
}

pub open spec fn mask_of(r: Result<Value, Seq<char>>) -> Result<LayerMask, Seq<char>> {
    match r {
        Ok(v) => as_mask(v),
        Err(m) => Err(m),
    }
}

pub open spec fn multiplicity_of(r: Result<Value, Seq<char>>) -> Result<i8, Seq<char>> {
    match r {
        Ok(v) => as_multiplicity(v),
        Err(m) => Err(m),
    }
}

/// The message for a reorientation by an odd number of 45 degree steps.
pub open spec fn odd_reorientation_text(m: int) -> Seq<char> {
    "a reorientation is a whole number of quarter turns, so its multiplicity must be even; got "@
        + int_text(m)
}

/// A multiplicity, negated when `invert` holds.
pub open spec fn inverted(m: i8, invert: bool) -> i8 {
    if invert {
        (-m) as i8
    } else {
        m
    }
}

/// The message for a command that would negate the multiplicity -128, which
/// has no `i8` negation.
pub open spec fn overflow_text() -> Seq<char> {
    "the multiplicity -128 cannot be negated"@
}

/// What evaluating a command's arguments gives: the command ready to run and
/// how to describe it, or the first error. Arguments are evaluated in order:
/// grip, layers, multiplicity, invert.
pub open spec fn command_eval(cmd: BindCommand, env: Lookup) -> EvalView {
    match cmd {
        BindCommand::Twist { grip, layers, multiplicity, invert } => match grip_of(
            field_eval(grip.parsed_view(), env),
        ) {
            Err(m) => Err(m),
            Ok(None) => Err("the grip is null"@),
            Ok(Some(side)) => match mask_of(field_eval(layers.parsed_view(), env)) {
                Err(m) => Err(m),
                Ok(mask) => match multiplicity_of(field_eval(multiplicity.parsed_view(), env)) {
                    Err(m) => Err(m),
                    Ok(mult) => match bool_of(field_eval(invert.parsed_view(), env)) {
                        Err(m) => Err(m),
                        Ok(inv) => if inv && mult == i8::MIN {
                            Err(overflow_text())
                        } else {
                            let twist = Twist {
                                side,
                                layers: mask,
                                multiplicity: inverted(mult, inv),
                            };
                            if naming_overflows(twist) {
                                Err(overflow_text())
                            } else {
                                Ok(
                                    (
                                        twist_text(twist),
                                        ActionView::Command(Command::Twist { twist, origin: Origin::User }),
                                    ),
                                )
                            }
                        },
                    },
                },
            },
        },
        BindCommand::Reorient { grip, multiplicity, invert } => match grip_of(
            field_eval(grip.parsed_view(), env),
        ) {
            Err(m) => Err(m),
            Ok(None) => Err("the grip is null"@),
            Ok(Some(side)) => match multiplicity_of(field_eval(multiplicity.parsed_view(), env)) {
                Err(m) => Err(m),
                Ok(mult) => match bool_of(field_eval(invert.parsed_view(), env)) {
                    Err(m) => Err(m),
                    Ok(inv) => if inv && mult == i8::MIN {
                        Err(overflow_text())
                    } else {
                        let m2 = inverted(mult, inv);
                        let (axis, sign) = axis_of(side);
                        if m2 % 2 != 0 {
                            Err(odd_reorientation_text(m2 as int))
                        } else if sign == -1 && m2 == i8::MIN {
                            Err(overflow_text())
                        } else {
                            Ok(
                                (
                                    twist_text(
                                        Twist { side, layers: LayerMask(7), multiplicity: m2 },
                                    ),
                                    ActionView::Command(
                                        Command::Rotate {
                                            rotation: Rotation {
                                                axis,
                                                multiplicity: (sign * m2) as i8,
                                            },
                                            origin: Origin::User,
                                        },
                                    ),
                                ),
                            )
                        }
                    },
                },
            },
        },
        BindCommand::Align => Ok(("align"@, ActionView::Command(Command::Align))),
        BindCommand::Undo => Ok(("undo"@, ActionView::Command(Command::Undo))),
        BindCommand::Redo => Ok(("redo"@, ActionView::Command(Command::Redo))),
        BindCommand::SetVar { name, value } => match field_eval(value.parsed_view(), env) {
            Err(m) => Err(m),
            Ok(v) => Ok(("set "@ + name@ + " = "@ + value_text(v), ActionView::SetVar { name: name@, value: v })),
        },
    }
}

impl BindCommand {
    pub fn kind(&self) -> (r: CommandKind)
        ensures
            r == kind_of(*self),
    {
        match self {
            BindCommand::Twist { .. } => CommandKind::Twist,
            BindCommand::Reorient { .. } => CommandKind::Reorient,
            BindCommand::Align => CommandKind::Align,
            BindCommand::Undo => CommandKind::Undo,
            BindCommand::Redo => CommandKind::Redo,
            BindCommand::SetVar { .. } => CommandKind::SetVar,
        }
    }

    /// unevaluated one-liner for the collapsed header.
    pub fn summary(&self) -> (r: String)
        ensures
            r@ == summary_text(*self),
    {
        match self {
            BindCommand::Twist { grip, layers, multiplicity, invert } => {
                let mut s = owned("twist ");
                push_str(&mut s, grip.src());
                push_str(&mut s, " ");
                push_str(&mut s, layers.src());
                push_str(&mut s, " ");
                push_str(&mut s, multiplicity.src());
                push_str(&mut s, " (invert ");
                push_str(&mut s, invert.src());
                push_str(&mut s, ")");
                assert(s@ =~= summary_text(*self));
                s
            },
            BindCommand::Reorient { grip, multiplicity, invert } => {
                let mut s = owned("reorient ");
                push_str(&mut s, grip.src());
                push_str(&mut s, " ");
                push_str(&mut s, multiplicity.src());
                push_str(&mut s, " (invert ");
                push_str(&mut s, invert.src());
                push_str(&mut s, ")");
                assert(s@ =~= summary_text(*self));
                s
            },
            BindCommand::Align => owned("align"),
            BindCommand::Undo => owned("undo"),
            BindCommand::Redo => owned("redo"),
            BindCommand::SetVar { name, value } => {
                let mut s = owned("set ");
                push_str(&mut s, name.as_str());
                push_str(&mut s, " = ");
                push_str(&mut s, value.src());
                assert(s@ =~= summary_text(*self));
                s
            },
        }
    }

    /// evaluate the arguments into something ready to execute, plus how to
    /// describe it in the resolution set. A command that would have to
    /// negate the multiplicity -128 is an error.
    pub fn eval<E: Env>(&self, env: &E) -> (r: Result<(String, Action), String>)
        ensures
            eval_view(r) == command_eval(*self, lookup_of(env)),
    {
        match self {
            BindCommand::Twist { grip, layers, multiplicity, invert } => {
                let side = match grip.eval(env)?.grip()? {
                    Some(side) => side,
                    None => return Err(owned("the grip is null")),
                };
                let layers = layers.eval(env)?.mask()?;
                let mut multiplicity = multiplicity.eval(env)?.multiplicity()?;
                if invert.eval(env)?.bool()? {
                    if multiplicity == i8::MIN {
                        return Err(owned("the multiplicity -128 cannot be negated"));
                    }
                    multiplicity = -multiplicity;
                }
                let twist = Twist { side, layers, multiplicity };
                if twist.name_overflows() {
                    return Err(owned("the multiplicity -128 cannot be negated"));
                }
                Ok((twist.to_string(), Action::Command(Command::Twist { twist, origin: Origin::User })))
            },
            BindCommand::Reorient { grip, multiplicity, invert } => {
                let side = match grip.eval(env)?.grip()? {
                    Some(side) => side,
                    None => return Err(owned("the grip is null")),
                };
                let mut multiplicity = multiplicity.eval(env)?.multiplicity()?;
                if invert.eval(env)?.bool()? {
                    if multiplicity == i8::MIN {
                        return Err(owned("the multiplicity -128 cannot be negated"));
                    }
                    multiplicity = -multiplicity;
                }
                // a 45 deg reorientation has no coherent face-key mapping
                // afterward, so there is no such thing.
                if multiplicity % 2 != 0 {
                    let mut s = owned(
                        "a reorientation is a whole number of quarter turns, so its multiplicity must be even; got ",
                    );
                    push_i64(&mut s, multiplicity as i64);
                    assert(s@ =~= odd_reorientation_text(multiplicity as int));
                    return Err(s);
                }
                let (axis, sign) = side.axis();
                if sign == -1 && multiplicity == i8::MIN {
                    return Err(owned("the multiplicity -128 cannot be negated"));
                }
                Ok(
                    (
                        reorientation(side, multiplicity),
                        Action::Command(
                            Command::Rotate {
                                rotation: Rotation::new(axis, sign * multiplicity),
                                origin: Origin::User,
                            },
                        ),
                    ),
                )
            },
            BindCommand::Align => Ok((owned("align"), Action::Command(Command::Align))),
            BindCommand::Undo => Ok((owned("undo"), Action::Command(Command::Undo))),
            BindCommand::Redo => Ok((owned("redo"), Action::Command(Command::Redo))),
            BindCommand::SetVar { name, value } => {
                let value = value.eval(env)?;
                let mut s = owned("set ");
                push_str(&mut s, name.as_str());
                push_str(&mut s, " = ");
                push_value(&mut s, value);
                assert(s@ =~= "set "@ + name@ + " = "@ + value_text(value));
                Ok((s, Action::SetVar { name: name.clone(), value }))
            },
        }
    }
}

/// A folder with a `true` guard.
pub fn folder(name: &str, color: Color, children: Vec<Node>) -> (r: Node)
    ensures
        r matches Node::Folder(f) && f.name@ == name@ && f.color == color && fresh(f.guard, "true"@)
            && f.children@ == children@,
{
    Node::Folder(Folder { name: owned(name), color, guard: ExprField::new("true"), children })
}

pub fn binding(trigger: &str, guard: &str, command: BindCommand) -> (r: Node)
    ensures
        r matches Node::Binding(b) && b.trigger@ == trigger@ && fresh(b.guard, guard@) && b.command
            == command,
{
    Node::Binding(Binding { trigger: owned(trigger), guard: ExprField::new(guard), command })
}

pub fn twist_command(grip: &str, invert: &str) -> (r: BindCommand)
    ensures
        is_twist_command(r, grip@, invert@),
{
    BindCommand::Twist {
        grip: ExprField::new(grip),
        layers: ExprField::new("default_mask"),
        multiplicity: ExprField::new("default_multiplicity"),
        invert: ExprField::new(invert),
    }
}

pub fn reorient_command(grip: &str, invert: &str) -> (r: BindCommand)
    ensures
        is_reorient_command(r, grip@, invert@),
{
    BindCommand::Reorient {
        grip: ExprField::new(grip),
        // a quarter turn; reorientations can't be 45 deg.
        multiplicity: ExprField::new("2"),
        invert: ExprField::new(invert),
    }
}

/// One binding that fired: it made it into the resolution set, whether or
/// not it was the one that executed.
pub struct Fired {
    /// enclosing folder names, then the trigger.
    pub location: String,
    /// the innermost folder's color.
    pub color: Color,
    /// the evaluated command, or why it couldn't be evaluated.
    pub action: Result<(String, Action), String>,
}

pub struct FiredView {
    pub location: Seq<char>,
    pub color: Color,
    pub action: EvalView,
}

pub open spec fn fired_view(f: Fired) -> FiredView {
    FiredView { location: f.location@, color: f.color, action: eval_view(f.action) }
}

pub open spec fn fired_views(fs: Seq<Fired>) -> Seq<FiredView> {
    fs.map_values(|f: Fired| fired_view(f))
}

/// The text before a binding's name: each enclosing folder and ` / `.
pub open spec fn prefix_text(path: Seq<Seq<char>>) -> Seq<char>
    decreases path.len(),
{
    if path.len() == 0 {
        seq![]
    } else {
        prefix_text(path.drop_last()) + path.last() + " / "@
    }
}

/// "twists / key_r": where a binding lives, for the report and the
/// reference's tooltips.
pub open spec fn location_text(path: Seq<Seq<char>>, name: Seq<char>) -> Seq<char> {
    prefix_text(path) + name
}

pub open spec fn path_view(path: Seq<&str>) -> Seq<Seq<char>> {
    path.map_values(|s: &str| s@)
}

pub fn location(path: &Vec<&str>, name: &str) -> (r: String)
    ensures
        r@ == location_text(path_view(path@), name@),
{
    let mut s = String::new();
    let mut i: usize = 0;
    while i < path.len()
        invariant
            i <= path@.len(),
            s@ == prefix_text(path_view(path@).take(i as int)),
        decreases path@.len() - i,
    {
        let ghost before = s@;
        push_str(&mut s, path[i]);
        push_str(&mut s, " / ");
        i = i + 1;
        assert(path_view(path@).take(i as int).drop_last() =~= path_view(path@).take(i - 1));
        assert(s@ =~= prefix_text(path_view(path@).take(i as int)));
    }
    assert(path_view(path@).take(i as int) =~= path_view(path@));
    push_str(&mut s, name);
    s
}

/// What a command's arguments evaluate to: the grip `side`, the layers
/// `mask` (twists only), the multiplicity `m` and the invert flag `inv`.
pub open spec fn args_are(
    cmd: BindCommand,
    env: Lookup,
    side: Side,
    mask: LayerMask,
    m: i8,
    inv: bool,
) -> bool {
    match cmd {
        BindCommand::Twist { grip, layers, multiplicity, invert } => {
            &&& field_eval(grip.parsed_view(), env) == Ok::<Value, Seq<char>>(Value::Grip(Some(side)))
            &&& field_eval(layers.parsed_view(), env) == Ok::<Value, Seq<char>>(Value::Mask(mask))
            &&& field_eval(multiplicity.parsed_view(), env) == Ok::<Value, Seq<char>>(Value::Multiplicity(m))
            &&& field_eval(invert.parsed_view(), env) == Ok::<Value, Seq<char>>(Value::Bool(inv))
        },
        BindCommand::Reorient { grip, multiplicity, invert } => {
            &&& field_eval(grip.parsed_view(), env) == Ok::<Value, Seq<char>>(Value::Grip(Some(side)))
            &&& field_eval(multiplicity.parsed_view(), env) == Ok::<Value, Seq<char>>(Value::Multiplicity(m))
            &&& field_eval(invert.parsed_view(), env) == Ok::<Value, Seq<char>>(Value::Bool(inv))
        },
        _ => false,
    }
}

/// Invert turns a command the other way: a twist of `m` steps becomes one
/// of `-m`, and a quarter-turn reorientation of the whole puzzle about the
/// grip's axis becomes the opposite rotation, named with the other sign
/// (`x` becomes `x'`). Without invert the command turns by `m` as given.
pub proof fn lemma_invert_turns_the_other_way(cmd: BindCommand, env: Lookup, side: Side, mask: LayerMask, m: i8, inv: bool)
    requires
        args_are(cmd, env, side, mask, m, inv),
        m != i8::MIN,
    ensures
        ({
            let turn: int = if inv { -m } else { m as int };
            let (axis, sign) = axis_of(side);
            &&& cmd is Twist ==> command_eval(cmd, env) == Ok::<(Seq<char>, ActionView), Seq<char>>((
                twist_text(Twist { side, layers: mask, multiplicity: turn as i8 }),
                ActionView::Command(
                    Command::Twist { twist: Twist { side, layers: mask, multiplicity: turn as i8 }, origin: Origin::User },
                ),
            ))
            &&& (cmd is Reorient && m % 2 == 0) ==> command_eval(cmd, env) == Ok::<(Seq<char>, ActionView), Seq<char>>((
                twist_text(Twist { side, layers: LayerMask(7), multiplicity: turn as i8 }),
                ActionView::Command(
                    Command::Rotate { rotation: Rotation { axis, multiplicity: (sign * turn) as i8 }, origin: Origin::User },
                ),
            ))
            &&& (cmd is Reorient && m % 2 != 0) ==> command_eval(cmd, env) == Err::<(Seq<char>, ActionView), Seq<char>>(
                odd_reorientation_text(turn),
            )
        }),
{
    let turn: int = if inv { -m } else { m as int };
    assert(inverted(m, inv) as int == turn);
    assert(!naming_overflows(Twist { side, layers: mask, multiplicity: turn as i8 }));
    assert((turn % 2 == 0) == (m % 2 == 0));
}

} // verus!
