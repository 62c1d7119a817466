use speedsun::expr::{Expr, ExprField, Value};
use speedsun::puzzle::{LayerMask, Side};
use speedsun::vars::{UserVar, UserVars};

fn var(name: &str, value: Value) -> UserVar {
    UserVar { name: name.to_string(), value, pinned: false }
}

fn env() -> Vec<UserVar> {
    vec![
        var("key_shift", Value::Bool(true)),
        var("key_r", Value::Bool(false)),
        var("hovered_grip", Value::Grip(None)),
        var("default_mask", Value::Mask(LayerMask::outer())),
        var("default_multiplicity", Value::Multiplicity(-1)),
    ]
}

fn eval(src: &str) -> Result<Value, String> {
    let vars = env();
    ExprField::new(src).eval(&UserVars::Live(&vars))
}

#[test]
fn literals_and_variables() {
    assert_eq!(eval("true"), Ok(Value::Bool(true)));
    assert_eq!(eval("key_shift"), Ok(Value::Bool(true)));
    assert_eq!(eval("U"), Ok(Value::Grip(Some(Side::U))));
    assert_eq!(eval("null"), Ok(Value::Grip(None)));
    assert_eq!(eval("{0,1}"), Ok(Value::Mask(LayerMask(0b011))));
    assert_eq!(eval("{}"), Ok(Value::Mask(LayerMask::none())));
    assert_eq!(eval("-2"), Ok(Value::Multiplicity(-2)));
    assert!(eval("nope").is_err());
    assert!(eval("{3}").is_err());
}

#[test]
fn operators_and_precedence() {
    // `&&` binds tighter than `||`.
    assert_eq!(eval("false && false || true"), Ok(Value::Bool(true)));
    assert_eq!(eval("false && (false || true)"), Ok(Value::Bool(false)));
    // comparison binds tighter than `&&`.
    assert_eq!(
        eval("key_shift && default_mask == {0}"),
        Ok(Value::Bool(true))
    );
    // `??` binds tighter than `==`.
    assert_eq!(eval("hovered_grip ?? F == F"), Ok(Value::Bool(true)));
    assert_eq!(eval("hovered_grip != null"), Ok(Value::Bool(false)));
    assert_eq!(eval("!key_shift"), Ok(Value::Bool(false)));
    assert_eq!(eval("-default_multiplicity"), Ok(Value::Multiplicity(1)));
}

#[test]
fn type_errors_are_reported_not_coerced() {
    assert!(eval("key_shift && U").is_err());
    assert!(eval("!default_mask").is_err());
    // only grips are nullable, so `??` on anything else is a mistake.
    assert!(eval("default_mask ?? {1}").is_err());
    // comparing different types is a mistake too, not just false.
    assert!(eval("default_mask == 1").is_err());
}

#[test]
fn and_short_circuits_past_an_error() {
    // the point of short-circuiting: guard a use behind a null check.
    assert_eq!(
        eval("hovered_grip != null && hovered_grip == U"),
        Ok(Value::Bool(false))
    );
    // ...and `false && <type error>` still evaluates, so the check has to
    // come first.
    assert_eq!(eval("false && U"), Ok(Value::Bool(false)));
}

#[test]
fn parse_errors() {
    assert!(Expr::parse("key_shift &&").is_err());
    assert!(Expr::parse("(true").is_err());
    assert!(Expr::parse("true true").is_err());
    assert!(Expr::parse("true & false").is_err());
    assert!(Expr::parse("#").is_err());
}

#[test]
fn errors_say_what_went_wrong() {
    assert_eq!(eval("nope"), Err("unknown variable `nope`".to_string()));
    assert_eq!(eval("!default_mask"), Err("expected bool, got mask `{1}`".to_string()));
    assert_eq!(
        eval("default_mask == 1"),
        Err("can't compare mask `{1}` with multiplicity `1`".to_string())
    );
    assert_eq!(eval("-key_shift"), Err("expected multiplicity, got bool `true`".to_string()));
}

#[test]
fn parse_errors_say_where() {
    assert_eq!(Expr::parse("(true"), Err("expected `)`".to_string()));
    assert_eq!(Expr::parse("true true"), Err("trailing `true`".to_string()));
    assert_eq!(Expr::parse("#"), Err("unexpected `#`".to_string()));
    assert_eq!(Expr::parse("{3}"), Err("layer `3`: the puzzle has layers 0..3".to_string()));
    assert_eq!(Expr::parse("200"), Err("multiplicity `200` is too big".to_string()));
    assert_eq!(Expr::parse(""), Err("expected an expression".to_string()));
    assert_eq!(Expr::parse("{0 1}"), Err("expected `,` or `}`".to_string()));
    assert_eq!(Expr::parse("{a}"), Err("expected a layer number".to_string()));
    assert_eq!(Expr::parse(")"), Err("unexpected `)`".to_string()));
}

#[test]
fn values_print_as_they_are_written() {
    assert_eq!(Value::Bool(true).to_string(), "true");
    assert_eq!(Value::Grip(None).to_string(), "null");
    assert_eq!(Value::Grip(Some(Side::F)).to_string(), "F");
    assert_eq!(Value::Mask(LayerMask(0b101)).to_string(), "{1,3}");
    assert_eq!(Value::Multiplicity(-3).to_string(), "-3");
}

#[test]
fn coalesce_and_or_short_circuit_too() {
    assert_eq!(eval("U ?? default_mask"), Ok(Value::Grip(Some(Side::U))));
    assert_eq!(eval("true || U"), Ok(Value::Bool(true)));
    assert!(eval("null ?? default_mask").is_err());
}

#[test]
fn negating_the_smallest_multiplicity_wraps() {
    let vars = vec![var("m", Value::Multiplicity(i8::MIN)), var("n", Value::Multiplicity(3))];
    let env = UserVars::Live(&vars);
    assert_eq!(ExprField::new("-m").eval(&env), Ok(Value::Multiplicity(i8::MIN)));
    assert_eq!(ExprField::new("-n").eval(&env), Ok(Value::Multiplicity(-3)));
    assert_eq!(ExprField::new("--n").eval(&env), Ok(Value::Multiplicity(3)));
}

#[test]
fn an_undecided_left_operand_hands_over_to_the_right() {
    assert_eq!(eval("false || key_shift"), Ok(Value::Bool(true)));
    assert_eq!(eval("true && key_r"), Ok(Value::Bool(false)));
    assert_eq!(eval("false || default_mask"), Err("expected bool, got mask `{1}`".to_string()));
    assert_eq!(eval("true && nope"), Err("unknown variable `nope`".to_string()));
    assert_eq!(eval("false || nope"), Err("unknown variable `nope`".to_string()));
}

#[test]
fn coalesce_on_null_takes_the_right_grip() {
    assert_eq!(eval("null ?? F"), Ok(Value::Grip(Some(Side::F))));
    assert_eq!(eval("hovered_grip ?? null"), Ok(Value::Grip(None)));
    assert_eq!(eval("nope ?? F"), Err("unknown variable `nope`".to_string()));
    assert_eq!(eval("key_r ?? F"), Err("expected grip, got bool `false`".to_string()));
}

#[test]
fn comparisons_of_one_type() {
    assert_eq!(eval("U == U"), Ok(Value::Bool(true)));
    assert_eq!(eval("U != F"), Ok(Value::Bool(true)));
    assert_eq!(eval("key_r == key_shift"), Ok(Value::Bool(false)));
    assert_eq!(eval("default_multiplicity != -1"), Ok(Value::Bool(false)));
    assert_eq!(eval("U != {0}"), Err("can't compare grip `U` with mask `{1}`".to_string()));
}

#[test]
fn a_field_keeps_its_text_and_its_parse_error() {
    let field = ExprField::new("(true");
    assert_eq!(field.src(), "(true");
    assert_eq!(field.error(), Some("expected `)`"));
    let vars = env();
    assert_eq!(field.eval(&UserVars::Live(&vars)), Err("expected `)`".to_string()));
    let ok = ExprField::new("key_shift");
    assert_eq!(ok.error(), None);
}

#[test]
fn any_unicode_white_space_separates_tokens() {
    assert_eq!(Expr::parse("\ttrue\n"), Expr::parse("true"));
    assert_eq!(Expr::parse("\u{3000}key_r\u{a0}&&\u{2009}key_shift"), Expr::parse("key_r && key_shift"));
    assert_eq!(Expr::parse("a1 || _b"), Expr::parse("a1||_b"));
}

#[test]
fn editing_the_text_in_place_keeps_the_parse_until_reparse() {
    let mut field = ExprField::new("true");
    field.src_mut().push_str(" &&");
    assert_eq!(field.src(), "true &&");
    assert_eq!(field.error(), None);
    field.reparse();
    assert!(field.error().is_some());
    assert_eq!(field.error(), Expr::parse("true &&").err().as_deref());
}
