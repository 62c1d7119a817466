//! The little typed language keybind guards and command arguments are written
//! in.
//!
//! Four types (bool, grip, mask, multiplicity) and no arithmetic beyond
//! negation: an expression exists to select a twist, not to compute one.
//! Only grips are nullable, because `hovered_grip` is the one thing that can
//! be absent, so `??` is a grip fallback.
//!
//! ```text
//! expr     := or
//! or       := and ("||" and)*
//! and      := cmp ("&&" cmp)*
//! cmp      := coalesce (("==" | "!=") coalesce)?
//! coalesce := unary ("??" coalesce)?
//! unary    := ("!" | "-") unary | atom
//! atom     := "(" expr ")" | literal | identifier
//! literal  := "true" | "false" | "null" | integer
//!           | "{" [integer ("," integer)*] "}"
//!           | "R" | "L" | "U" | "D" | "F" | "B"
//! ```
//!
//! Identifiers name variables and are lowercase by convention; the six
//! uppercase side letters are grip literals instead.
use vstd::prelude::*;
use crate::notation::{mask_text, push_mask};
use crate::puzzle::{LayerMask, Side, side_text};
use crate::parser::{parse_spec, res_expr_view};
use crate::text::{int_text, owned, push_i64, push_str};

verus! {

/// The type of a value.
#[derive(Debug, Clone, Copy, PartialEq, Eq, Structural)]
pub enum Type {
    Bool,
    Grip,
    Mask,
    Multiplicity,
}

pub open spec fn type_text(t: Type) -> Seq<char> {
    match t {
        Type::Bool => "bool"@,
        Type::Grip => "grip"@,
        Type::Mask => "mask"@,
        Type::Multiplicity => "multiplicity"@,
    }
}

/// The value a variable gets when it is declared, or when its type changes.
pub open spec fn default_of(t: Type) -> Value {
    match t {
        Type::Bool => Value::Bool(false),
        Type::Grip => Value::Grip(None),
        Type::Mask => Value::Mask(LayerMask(1)),
        Type::Multiplicity => Value::Multiplicity(1),
    }
}

impl Type {
    /// Every type, in the order the editor lists them.
    pub fn all() -> (r: Vec<Type>)
        ensures
            r@ == seq![Type::Bool, Type::Grip, Type::Mask, Type::Multiplicity],
    {
        let r = vec![Type::Bool, Type::Grip, Type::Mask, Type::Multiplicity];
        assert(r@ =~= seq![Type::Bool, Type::Grip, Type::Mask, Type::Multiplicity]);
        r
    }

    pub fn name(self) -> (r: &'static str)
        ensures
            r@ == type_text(self),
    {
        match self {
            Type::Bool => "bool",
            Type::Grip => "grip",
            Type::Mask => "mask",
            Type::Multiplicity => "multiplicity",
        }
    }

    /// The value a variable gets when it is declared, or when its type
    /// changes.
    pub fn default_value(self) -> (r: Value)
        ensures
            r == default_of(self),
            r.ty() == self,
    {
        match self {
            Type::Bool => Value::Bool(false),
            Type::Grip => Value::Grip(None),
            Type::Mask => Value::Mask(LayerMask::outer()),
            Type::Multiplicity => Value::Multiplicity(1),
        }
    }
}

#[derive(Debug, Clone, Copy, PartialEq, Eq, Structural)]
pub enum Value {
    Bool(bool),
    /// null when nothing is gripped: `hovered_grip` with the pointer off the
    /// twist gizmos. The only nullable type.
    Grip(Option<Side>),
    Mask(LayerMask),
    /// in 45 degree steps, like `Twist::multiplicity`: 1 is a 45 degree turn,
    /// 2 a quarter turn, and negative is the other way.
    Multiplicity(i8),
}

/// How a value is written: `true`, `null`, `R`, `{1,2}`, `-2`.
pub open spec fn value_text(v: Value) -> Seq<char> {
    match v {
        Value::Bool(b) => if b {
            "true"@
        } else {
            "false"@
        },
        Value::Grip(None) => "null"@,
        Value::Grip(Some(side)) => side_text(side),
        Value::Mask(mask) => mask_text(mask.0),
        Value::Multiplicity(m) => int_text(m as int),
    }
}

/// The message for a value of the wrong type.
pub open spec fn wrong_type_text(wanted: Type, got: Value) -> Seq<char> {
    "expected "@ + type_text(wanted) + ", got "@ + type_text(got.ty()) + " `"@ + value_text(got)
        + "`"@
}

/// A result with its error taken by its characters.
pub open spec fn res_view<T>(r: Result<T, String>) -> Result<T, Seq<char>> {
    match r {
        Ok(v) => Ok(v),
        Err(e) => Err(e@),
    }
}

impl Value {
    pub open spec fn type_of(self) -> Type {
        match self {
            Value::Bool(_) => Type::Bool,
            Value::Grip(_) => Type::Grip,
            Value::Mask(_) => Type::Mask,
            Value::Multiplicity(_) => Type::Multiplicity,
        }
    }

    /// The value's type.
    #[verifier::when_used_as_spec(type_of)]
    pub fn ty(self) -> (r: Type)
        ensures
            r == self.type_of(),
    {
        match self {
            Value::Bool(_) => Type::Bool,
            Value::Grip(_) => Type::Grip,
            Value::Mask(_) => Type::Mask,
            Value::Multiplicity(_) => Type::Multiplicity,
        }
    }

    pub fn bool(self) -> (r: Result<bool, String>)
        ensures
            res_view(r) == as_bool(self),
    {
        match self {
            Value::Bool(b) => Ok(b),
            other => Err(wrong_type(Type::Bool, other)),
        }
    }

    /// The grip, or `None` for null.
    pub fn grip(self) -> (r: Result<Option<Side>, String>)
        ensures
            res_view(r) == as_grip(self),
    {
        match self {
            Value::Grip(grip) => Ok(grip),
            other => Err(wrong_type(Type::Grip, other)),
        }
    }

    pub fn mask(self) -> (r: Result<LayerMask, String>)
        ensures
            res_view(r) == as_mask(self),
    {
        match self {
            Value::Mask(mask) => Ok(mask),
            other => Err(wrong_type(Type::Mask, other)),
        }
    }

    pub fn multiplicity(self) -> (r: Result<i8, String>)
        ensures
            res_view(r) == as_multiplicity(self),
    {
        match self {
            Value::Multiplicity(m) => Ok(m),
            other => Err(wrong_type(Type::Multiplicity, other)),
        }
    }

    /// The value as it is written.
    pub fn to_string(&self) -> (r: String)
        ensures
            r@ == value_text(*self),
    {
        let mut s = String::new();
        push_value(&mut s, *self);
        assert(s@ =~= value_text(*self));
        s
    }
}

pub open spec fn as_bool(v: Value) -> Result<bool, Seq<char>> {
    match v {
        Value::Bool(b) => Ok(b),
        _ => Err(wrong_type_text(Type::Bool, v)),
    }
}

pub open spec fn as_grip(v: Value) -> Result<Option<Side>, Seq<char>> {
    match v {
        Value::Grip(g) => Ok(g),
        _ => Err(wrong_type_text(Type::Grip, v)),
    }
}

pub open spec fn as_mask(v: Value) -> Result<LayerMask, Seq<char>> {
    match v {
        Value::Mask(m) => Ok(m),
        _ => Err(wrong_type_text(Type::Mask, v)),
    }
}

pub open spec fn as_multiplicity(v: Value) -> Result<i8, Seq<char>> {
    match v {
        Value::Multiplicity(m) => Ok(m),
        _ => Err(wrong_type_text(Type::Multiplicity, v)),
    }
}

/// Appends a value as it is written.
pub fn push_value(s: &mut String, v: Value)
    ensures
        final(s)@ == old(s)@ + value_text(v),
{
    match v {
        Value::Bool(b) => {
            if b {
                push_str(s, "true");
            } else {
                push_str(s, "false");
            }
        },
        Value::Grip(None) => push_str(s, "null"),
        Value::Grip(Some(side)) => push_str(s, side.name()),
        Value::Mask(mask) => push_mask(s, mask),
        Value::Multiplicity(m) => push_i64(s, m as i64),
    }
}

fn wrong_type(wanted: Type, got: Value) -> (r: String)
    ensures
        r@ == wrong_type_text(wanted, got),
{
    let mut s = owned("expected ");
    push_str(&mut s, wanted.name());
    push_str(&mut s, ", got ");
    push_str(&mut s, got.ty().name());
    push_str(&mut s, " `");
    push_value(&mut s, got);
    push_str(&mut s, "`");
    assert(s@ =~= wrong_type_text(wanted, got));
    s
}

#[derive(Debug, PartialEq)]
pub enum Expr {
    Literal(Value),
    /// a variable, by name: builtin (`key_r`, `hovered_grip`) or
    /// user-declared.
    Var(String),
    Not(Box<Expr>),
    /// negation of a multiplicity, the only arithmetic there is.
    Neg(Box<Expr>),
    And(Box<Expr>, Box<Expr>),
    Or(Box<Expr>, Box<Expr>),
    Eq(Box<Expr>, Box<Expr>),
    Ne(Box<Expr>, Box<Expr>),
    /// grip fallback: the left grip unless it's null.
    Coalesce(Box<Expr>, Box<Expr>),
}

/// An expression with its variable names taken by their characters.
pub enum ExprView {
    Literal(Value),
    Var(Seq<char>),
    Not(Box<ExprView>),
    Neg(Box<ExprView>),
    And(Box<ExprView>, Box<ExprView>),
    Or(Box<ExprView>, Box<ExprView>),
    Eq(Box<ExprView>, Box<ExprView>),
    Ne(Box<ExprView>, Box<ExprView>),
    Coalesce(Box<ExprView>, Box<ExprView>),
}

pub open spec fn expr_view(e: Expr) -> ExprView
    decreases e,
{
    match e {
        Expr::Literal(v) => ExprView::Literal(v),
        Expr::Var(name) => ExprView::Var(name@),
        Expr::Not(a) => ExprView::Not(Box::new(expr_view(*a))),
        Expr::Neg(a) => ExprView::Neg(Box::new(expr_view(*a))),
        Expr::And(a, b) => ExprView::And(Box::new(expr_view(*a)), Box::new(expr_view(*b))),
        Expr::Or(a, b) => ExprView::Or(Box::new(expr_view(*a)), Box::new(expr_view(*b))),
        Expr::Eq(a, b) => ExprView::Eq(Box::new(expr_view(*a)), Box::new(expr_view(*b))),
        Expr::Ne(a, b) => ExprView::Ne(Box::new(expr_view(*a)), Box::new(expr_view(*b))),
        Expr::Coalesce(a, b) => ExprView::Coalesce(
            Box::new(expr_view(*a)),
            Box::new(expr_view(*b)),
        ),
    }
}

impl View for Expr {
    type V = ExprView;

    open spec fn view(&self) -> ExprView {
        expr_view(*self)
    }
}

/// Where an expression reads its variables, as a function from names.
pub type Lookup = spec_fn(Seq<char>) -> Option<Value>;

/// A boolean out of an evaluation result.
pub open spec fn bool_of(r: Result<Value, Seq<char>>) -> Result<bool, Seq<char>> {
    match r {
        Ok(v) => as_bool(v),
        Err(e) => Err(e),
    }
}

/// A grip out of an evaluation result.
pub open spec fn grip_of(r: Result<Value, Seq<char>>) -> Result<Option<Side>, Seq<char>> {
    match r {
        Ok(v) => as_grip(v),
        Err(e) => Err(e),
    }
}

/// The message for comparing values of different types.
pub open spec fn compare_text(a: Value, b: Value) -> Seq<char> {
    "can't compare "@ + type_text(a.ty()) + " `"@ + value_text(a) + "` with "@ + type_text(b.ty())
        + " `"@ + value_text(b) + "`"@
}

/// `==` on two evaluated operands: both must evaluate, to the same type.
pub open spec fn compare(ra: Result<Value, Seq<char>>, rb: Result<Value, Seq<char>>) -> Result<
    bool,
    Seq<char>,
> {
    match ra {
        Err(e) => Err(e),
        Ok(a) => match rb {
            Err(e) => Err(e),
            Ok(b) => if a.ty() != b.ty() {
                Err(compare_text(a, b))
            } else {
                Ok(a == b)
            },
        },
    }
}

/// A multiplicity negated as `i8` negation does with overflow checks off:
/// -128 has no negation in `i8` and wraps to itself.
pub open spec fn negated(m: i8) -> i8 {
    if m == i8::MIN {
        i8::MIN
    } else {
        (-m) as i8
    }
}

/// The message for a variable nobody declared.
pub open spec fn unknown_variable_text(name: Seq<char>) -> Seq<char> {
    "unknown variable `"@ + name + "`"@
}

/// What an expression evaluates to, or the first error met. `&&` and `||`
/// short-circuit, so the right operand is only looked at when the left one
/// does not decide; so does `??` on a non-null left grip.
pub open spec fn eval_in(e: ExprView, env: Lookup) -> Result<Value, Seq<char>>
    decreases e,
{
    match e {
        ExprView::Literal(v) => Ok(v),
        ExprView::Var(name) => match env(name) {
            Some(v) => Ok(v),
            None => Err(unknown_variable_text(name)),
        },
        ExprView::Not(a) => match bool_of(eval_in(*a, env)) {
            Ok(b) => Ok(Value::Bool(!b)),
            Err(m) => Err(m),
        },
        ExprView::Neg(a) => match eval_in(*a, env) {
            Ok(v) => match as_multiplicity(v) {
                Ok(m) => Ok(Value::Multiplicity(negated(m))),
                Err(m) => Err(m),
            },
            Err(m) => Err(m),
        },
        ExprView::And(a, b) => match bool_of(eval_in(*a, env)) {
            Ok(false) => Ok(Value::Bool(false)),
            Ok(true) => match bool_of(eval_in(*b, env)) {
                Ok(c) => Ok(Value::Bool(c)),
                Err(m) => Err(m),
            },
            Err(m) => Err(m),
        },
        ExprView::Or(a, b) => match bool_of(eval_in(*a, env)) {
            Ok(true) => Ok(Value::Bool(true)),
            Ok(false) => match bool_of(eval_in(*b, env)) {
                Ok(c) => Ok(Value::Bool(c)),
                Err(m) => Err(m),
            },
            Err(m) => Err(m),
        },
        ExprView::Eq(a, b) => match compare(eval_in(*a, env), eval_in(*b, env)) {
            Ok(c) => Ok(Value::Bool(c)),
            Err(m) => Err(m),
        },
        ExprView::Ne(a, b) => match compare(eval_in(*a, env), eval_in(*b, env)) {
            Ok(c) => Ok(Value::Bool(!c)),
            Err(m) => Err(m),
        },
        ExprView::Coalesce(a, b) => match grip_of(eval_in(*a, env)) {
            Ok(Some(side)) => Ok(Value::Grip(Some(side))),
            Ok(None) => match grip_of(eval_in(*b, env)) {
                Ok(g) => Ok(Value::Grip(g)),
                Err(m) => Err(m),
            },
            Err(m) => Err(m),
        },
    }
}

/// A boolean result as a value, its error, or the error for a value of
/// another type.
pub open spec fn as_bool_value(r: Result<Value, Seq<char>>) -> Result<Value, Seq<char>> {
    match bool_of(r) {
        Ok(b) => Ok(Value::Bool(b)),
        Err(m) => Err(m),
    }
}

/// `&&` and `||` short-circuit: once the left operand decides, the right
/// one is not evaluated, so whatever it is, even an expression that fails,
/// the result is the same. That is what lets a guard check
/// `hovered_grip != null` before using it. When the left operand does not
/// decide, the result is the right operand's bool, its error, or the error
/// for a right operand that is not a bool.
pub proof fn lemma_short_circuit(a: ExprView, b: ExprView, other: ExprView, env: Lookup)
    ensures
        eval_in(a, env) == Ok::<Value, Seq<char>>(Value::Bool(false)) ==> {
            &&& eval_in(ExprView::And(Box::new(a), Box::new(b)), env) == Ok::<Value, Seq<char>>(
                Value::Bool(false),
            )
            &&& eval_in(ExprView::And(Box::new(a), Box::new(other)), env) == eval_in(
                ExprView::And(Box::new(a), Box::new(b)),
                env,
            )
            &&& eval_in(ExprView::Or(Box::new(a), Box::new(b)), env) == as_bool_value(eval_in(b, env))
        },
        eval_in(a, env) == Ok::<Value, Seq<char>>(Value::Bool(true)) ==> {
            &&& eval_in(ExprView::Or(Box::new(a), Box::new(b)), env) == Ok::<Value, Seq<char>>(
                Value::Bool(true),
            )
            &&& eval_in(ExprView::Or(Box::new(a), Box::new(other)), env) == eval_in(
                ExprView::Or(Box::new(a), Box::new(b)),
                env,
            )
            &&& eval_in(ExprView::And(Box::new(a), Box::new(b)), env) == as_bool_value(eval_in(b, env))
        },
{
}

/// The right operand of a decided `&&`, `||` or `??` is never read: two
/// environments that give the left operand the same result give the whole
/// the same result, whatever they hold for the right operand's variables.
pub proof fn lemma_right_operand_unread(a: ExprView, b: ExprView, env: Lookup, other_env: Lookup)
    requires
        eval_in(a, other_env) == eval_in(a, env),
    ensures
        eval_in(a, env) == Ok::<Value, Seq<char>>(Value::Bool(false)) ==> eval_in(
            ExprView::And(Box::new(a), Box::new(b)),
            other_env,
        ) == eval_in(ExprView::And(Box::new(a), Box::new(b)), env),
        eval_in(a, env) == Ok::<Value, Seq<char>>(Value::Bool(true)) ==> eval_in(
            ExprView::Or(Box::new(a), Box::new(b)),
            other_env,
        ) == eval_in(ExprView::Or(Box::new(a), Box::new(b)), env),
        (eval_in(a, env) matches Ok(Value::Grip(Some(_)))) ==> eval_in(
            ExprView::Coalesce(Box::new(a), Box::new(b)),
            other_env,
        ) == eval_in(ExprView::Coalesce(Box::new(a), Box::new(b)), env),
{
}

/// `??` takes the left grip unless it is null, without looking at the right
/// operand; on null it is the right operand's grip, or its error. A left
/// operand that fails, or is not a grip, fails the whole.
pub proof fn lemma_coalesce(a: ExprView, b: ExprView, other: ExprView, env: Lookup)
    ensures
        forall|side: Side|
            eval_in(a, env) == Ok::<Value, Seq<char>>(Value::Grip(Some(side))) ==> {
                &&& #[trigger] eval_in(ExprView::Coalesce(Box::new(a), Box::new(b)), env) == Ok::<
                    Value,
                    Seq<char>,
                >(Value::Grip(Some(side)))
                &&& eval_in(ExprView::Coalesce(Box::new(a), Box::new(other)), env) == Ok::<
                    Value,
                    Seq<char>,
                >(Value::Grip(Some(side)))
            },
        eval_in(a, env) == Ok::<Value, Seq<char>>(Value::Grip(None)) ==> eval_in(
            ExprView::Coalesce(Box::new(a), Box::new(b)),
            env,
        ) == match grip_of(eval_in(b, env)) {
            Ok(g) => Ok::<Value, Seq<char>>(Value::Grip(g)),
            Err(m) => Err(m),
        },
        (eval_in(a, env) matches Ok(v) && v.ty() != Type::Grip) ==> eval_in(
            ExprView::Coalesce(Box::new(a), Box::new(b)),
            env,
        ) == Err::<Value, Seq<char>>(wrong_type_text(Type::Grip, eval_in(a, env)->Ok_0)),
        (eval_in(a, env) matches Err(m)) ==> eval_in(
            ExprView::Coalesce(Box::new(a), Box::new(b)),
            env,
        ) == eval_in(a, env),
{
}

/// `==` and `!=` evaluate the left operand, then the right, and compare
/// values of one type; values of two types are an error, never coerced.
pub proof fn lemma_comparison(a: ExprView, b: ExprView, x: Value, y: Value, env: Lookup)
    requires
        eval_in(a, env) == Ok::<Value, Seq<char>>(x),
        eval_in(b, env) == Ok::<Value, Seq<char>>(y),
    ensures
        x.ty() != y.ty() ==> {
            &&& eval_in(ExprView::Eq(Box::new(a), Box::new(b)), env) == Err::<Value, Seq<char>>(
                compare_text(x, y),
            )
            &&& eval_in(ExprView::Ne(Box::new(a), Box::new(b)), env) == Err::<Value, Seq<char>>(
                compare_text(x, y),
            )
        },
        x.ty() == y.ty() ==> {
            &&& eval_in(ExprView::Eq(Box::new(a), Box::new(b)), env) == Ok::<Value, Seq<char>>(
                Value::Bool(x == y),
            )
            &&& eval_in(ExprView::Ne(Box::new(a), Box::new(b)), env) == Ok::<Value, Seq<char>>(
                Value::Bool(x != y),
            )
        },
{
}

/// Every operator has one result type: `!`, `&&`, `||`, `==` and `!=` give
/// a bool, `-` a multiplicity and `??` a grip.
pub proof fn lemma_result_types(a: ExprView, b: ExprView, env: Lookup)
    ensures
        eval_in(ExprView::Not(Box::new(a)), env) matches Ok(v) ==> v.ty() == Type::Bool,
        eval_in(ExprView::And(Box::new(a), Box::new(b)), env) matches Ok(v) ==> v.ty() == Type::Bool,
        eval_in(ExprView::Or(Box::new(a), Box::new(b)), env) matches Ok(v) ==> v.ty() == Type::Bool,
        eval_in(ExprView::Eq(Box::new(a), Box::new(b)), env) matches Ok(v) ==> v.ty() == Type::Bool,
        eval_in(ExprView::Ne(Box::new(a), Box::new(b)), env) matches Ok(v) ==> v.ty() == Type::Bool,
        eval_in(ExprView::Neg(Box::new(a)), env) matches Ok(v) ==> v.ty() == Type::Multiplicity,
        eval_in(ExprView::Coalesce(Box::new(a), Box::new(b)), env) matches Ok(v) ==> v.ty()
            == Type::Grip,
{
}

/// Types are checked, never coerced: a logical operator on a value that is
/// not a bool and `??` on one that is not a grip fail with the message for
/// that value, and an operand that fails fails the whole.
pub proof fn lemma_type_errors_are_errors(a: ExprView, b: ExprView, env: Lookup)
    ensures
        (eval_in(a, env) matches Ok(v) && v.ty() != Type::Bool) ==> {
            let m = wrong_type_text(Type::Bool, eval_in(a, env)->Ok_0);
            &&& eval_in(ExprView::And(Box::new(a), Box::new(b)), env) == Err::<Value, Seq<char>>(m)
            &&& eval_in(ExprView::Or(Box::new(a), Box::new(b)), env) == Err::<Value, Seq<char>>(m)
            &&& eval_in(ExprView::Not(Box::new(a)), env) == Err::<Value, Seq<char>>(m)
        },
        (eval_in(a, env) matches Ok(v) && v.ty() != Type::Multiplicity) ==> eval_in(
            ExprView::Neg(Box::new(a)),
            env,
        ) == Err::<Value, Seq<char>>(wrong_type_text(Type::Multiplicity, eval_in(a, env)->Ok_0)),
        (eval_in(a, env) is Err) ==> {
            &&& eval_in(ExprView::And(Box::new(a), Box::new(b)), env) == eval_in(a, env)
            &&& eval_in(ExprView::Or(Box::new(a), Box::new(b)), env) == eval_in(a, env)
            &&& eval_in(ExprView::Not(Box::new(a)), env) == eval_in(a, env)
            &&& eval_in(ExprView::Neg(Box::new(a)), env) == eval_in(a, env)
            &&& eval_in(ExprView::Eq(Box::new(a), Box::new(b)), env) == eval_in(a, env)
            &&& eval_in(ExprView::Ne(Box::new(a), Box::new(b)), env) == eval_in(a, env)
        },
        (eval_in(a, env) is Ok && eval_in(b, env) is Err) ==> {
            &&& eval_in(ExprView::Eq(Box::new(a), Box::new(b)), env) == eval_in(b, env)
            &&& eval_in(ExprView::Ne(Box::new(a), Box::new(b)), env) == eval_in(b, env)
        },
{
}

/// Negation flips the sign of a multiplicity; -128, which has no `i8`
/// negation, stays -128.
pub proof fn lemma_negation(a: ExprView, m: i8, env: Lookup)
    requires
        eval_in(a, env) == Ok::<Value, Seq<char>>(Value::Multiplicity(m)),
    ensures
        m != i8::MIN ==> eval_in(ExprView::Neg(Box::new(a)), env) == Ok::<Value, Seq<char>>(
            Value::Multiplicity((-m) as i8),
        ),
        m != i8::MIN ==> eval_in(ExprView::Neg(Box::new(a)), env)->Ok_0->Multiplicity_0 == -m,
        m == i8::MIN ==> eval_in(ExprView::Neg(Box::new(a)), env) == Ok::<Value, Seq<char>>(
            Value::Multiplicity(i8::MIN),
        ),
{
}

/// The number of nodes in an expression.
pub open spec fn expr_size(e: ExprView) -> nat
    decreases e,
{
    match e {
        ExprView::Literal(_) => 1,
        ExprView::Var(_) => 1,
        ExprView::Not(a) => 1 + expr_size(*a),
        ExprView::Neg(a) => 1 + expr_size(*a),
        ExprView::And(a, b) => 1 + expr_size(*a) + expr_size(*b),
        ExprView::Or(a, b) => 1 + expr_size(*a) + expr_size(*b),
        ExprView::Eq(a, b) => 1 + expr_size(*a) + expr_size(*b),
        ExprView::Ne(a, b) => 1 + expr_size(*a) + expr_size(*b),
        ExprView::Coalesce(a, b) => 1 + expr_size(*a) + expr_size(*b),
    }
}

proof fn lemma_size_positive(e: ExprView)
    ensures
        expr_size(e) >= 1,
{
}

/// Where an expression reads its variables. Implemented by the keybind
/// system over the builtins plus the user-declared variables.
pub trait Env {
    /// The value `get` answers for a name.
    spec fn lookup(&self, name: Seq<char>) -> Option<Value>;

    fn get(&self, name: &str) -> (r: Option<Value>)
        ensures
            r == self.lookup(name@),
    ;
}

/// An environment's lookup as a function of names.
pub open spec fn lookup_of<E: Env>(env: &E) -> Lookup {
    |name: Seq<char>| env.lookup(name)
}

impl Expr {
    pub fn eval<E: Env>(&self, env: &E) -> (r: Result<Value, String>)
        ensures
            res_view(r) == eval_in(self@, lookup_of(env)),
        decreases expr_size(self@),
    {
        match self {
            Expr::Literal(value) => Ok(*value),
            Expr::Var(name) => match env.get(name.as_str()) {
                Some(v) => Ok(v),
                None => {
                    let mut s = owned("unknown variable `");
                    push_str(&mut s, name.as_str());
                    push_str(&mut s, "`");
                    assert(s@ =~= unknown_variable_text(name@));
                    Err(s)
                },
            },
            Expr::Not(a) => {
                let b = a.eval(env)?.bool()?;
                Ok(Value::Bool(!b))
            },
            Expr::Neg(a) => {
                let m = a.eval(env)?.multiplicity()?;
                if m == i8::MIN {
                    Ok(Value::Multiplicity(i8::MIN))
                } else {
                    Ok(Value::Multiplicity(-m))
                }
            },
            // short-circuiting, so a guard can check a variable before using
            // it (`hovered_grip != null && ...`).
            Expr::And(a, b) => {
                let x = a.eval(env)?.bool()?;
                if !x {
                    return Ok(Value::Bool(false));
                }
                let y = b.eval(env)?.bool()?;
                Ok(Value::Bool(y))
            },
            Expr::Or(a, b) => {
                let x = a.eval(env)?.bool()?;
                if x {
                    return Ok(Value::Bool(true));
                }
                let y = b.eval(env)?.bool()?;
                Ok(Value::Bool(y))
            },
            Expr::Eq(a, b) => {
                assert(expr_size(self@) == 1 + expr_size(a@) + expr_size(b@));
                Ok(Value::Bool(eq(a, b, env)?))
            },
            Expr::Ne(a, b) => {
                assert(expr_size(self@) == 1 + expr_size(a@) + expr_size(b@));
                Ok(Value::Bool(!eq(a, b, env)?))
            },
            Expr::Coalesce(a, b) => match a.eval(env)?.grip()? {
                Some(side) => Ok(Value::Grip(Some(side))),
                None => Ok(Value::Grip(b.eval(env)?.grip()?)),
            },
        }
    }
}

fn eq<E: Env>(a: &Expr, b: &Expr, env: &E) -> (r: Result<bool, String>)
    ensures
        res_view(r) == compare(eval_in(a@, lookup_of(env)), eval_in(b@, lookup_of(env))),
    decreases expr_size(a@) + expr_size(b@),
{
    proof {
        lemma_size_positive(a@);
        lemma_size_positive(b@);
    }
    let x = a.eval(env)?;
    let y = b.eval(env)?;
    if x.ty() != y.ty() {
        let mut s = owned("can't compare ");
        push_str(&mut s, x.ty().name());
        push_str(&mut s, " `");
        push_value(&mut s, x);
        push_str(&mut s, "` with ");
        push_str(&mut s, y.ty().name());
        push_str(&mut s, " `");
        push_value(&mut s, y);
        push_str(&mut s, "`");
        assert(s@ =~= compare_text(x, y));
        return Err(s);
    }
    Ok(x == y)
}

/// An expression as the user typed it, kept next to its parse: the editor
/// shows the parse error inline, and the pass does not reparse every frame.
pub struct ExprField {
    src: String,
    parsed: Result<Expr, String>,
}

impl ExprField {
    /// The text as typed.
    pub closed spec fn source(self) -> Seq<char> {
        self.src@
    }

    /// The parse kept next to the text: that of the text as of the last
    /// `new` or `reparse`.
    pub closed spec fn parsed_view(self) -> Result<ExprView, Seq<char>> {
        res_expr_view(self.parsed)
    }

    pub fn new(src: &str) -> (r: Self)
        ensures
            r.source() == src@,
            r.parsed_view() == parse_spec(src@),
    {
        let src = owned(src);
        let parsed = Expr::parse(src.as_str());
        Self { src, parsed }
    }

    pub fn src(&self) -> (r: &str)
        ensures
            r@ == self.source(),
    {
        self.src.as_str()
    }

    /// Brings the parse up to date with the text, after `set_src`.
    pub fn reparse(&mut self)
        ensures
            final(self).source() == old(self).source(),
            final(self).parsed_view() == parse_spec(old(self).source()),
    {
        self.parsed = Expr::parse(self.src.as_str());
    }

    /// The text, to edit in place; the parse stays as it was until
    /// `reparse`.
    pub fn src_mut(&mut self) -> (r: &mut String)
        ensures
            r@ == old(self).source(),
            final(self).source() == final(r)@,
            final(self).parsed_view() == old(self).parsed_view(),
    {
        &mut self.src
    }

    /// Replaces the text; `reparse` brings the parse up to date.
    pub fn set_src(&mut self, src: String)
        ensures
            final(self).source() == src@,
            final(self).parsed_view() == old(self).parsed_view(),
    {
        self.src = src;
    }

    pub fn error(&self) -> (r: Option<&str>)
        ensures
            match self.parsed_view() {
                Ok(_) => r is None,
                Err(m) => r matches Some(x) && x@ == m,
            },
    {
        match &self.parsed {
            Ok(_) => None,
            Err(e) => Some(e.as_str()),
        }
    }

    /// Evaluates the parse: its error, or what the expression gives.
    pub fn eval<E: Env>(&self, env: &E) -> (r: Result<Value, String>)
        ensures
            res_view(r) == field_eval(self.parsed_view(), lookup_of(env)),
    {
        match &self.parsed {
            Ok(expr) => expr.eval(env),
            Err(e) => Err(e.clone()),
        }
    }

    pub fn eval_bool<E: Env>(&self, env: &E) -> (r: Result<bool, String>)
        ensures
            res_view(r) == bool_of(field_eval(self.parsed_view(), lookup_of(env))),
    {
        match self.eval(env) {
            Ok(v) => v.bool(),
            Err(e) => Err(e),
        }
    }
}

/// A field made from some text keeps that text, reports exactly the parse
/// error of it, and evaluates as its parse does: the parse error itself, or
/// what the parsed expression evaluates to.
pub proof fn lemma_field_follows_parse(src: Seq<char>, env: Lookup)
    ensures
        field_eval(parse_spec(src), env) == match parse_spec(src) {
            Ok(e) => eval_in(e, env),
            Err(m) => Err::<Value, Seq<char>>(m),
        },
        parse_spec(src) is Err ==> field_eval(parse_spec(src), env) == Err::<Value, Seq<char>>(
            parse_spec(src)->Err_0,
        ),
{
}

/// Evaluating a field: its parse error, or what its expression evaluates to.
pub open spec fn field_eval(parsed: Result<ExprView, Seq<char>>, env: Lookup) -> Result<
    Value,
    Seq<char>,
> {
    match parsed {
        Ok(e) => eval_in(e, env),
        Err(m) => Err(m),
    }
}

} // verus!
