//! Recursive-descent parsing of tokens into expressions, following the
//! grammar in [`crate::expr`].
//!
//! The grammar is stated below as functions from a token sequence and a
//! position to the expression parsed there and the position after it. Each
//! step that recurses only does so after the position has moved on; the
//! `p <= q` tests in the statement are always true for the results the
//! statement itself produces, and only make its termination evident.
use vstd::prelude::*;
use crate::expr::{Expr, ExprView, Value};
use crate::lexer::{Token, TokenView, lex, lex_spec, push_token, token_text, tokens_view, tokens_wf};
use crate::puzzle::{LayerMask, Side, side_text};
use crate::text::{int_text, owned, push_i64, push_str, str_eq};

verus! {

/// A parse: the expression and the position just after it, or an error.
pub type PResult = Result<(ExprView, int), Seq<char>>;

/// Is the token at `p` exactly `t`?
pub open spec fn tok_is(ts: Seq<TokenView>, p: int, t: TokenView) -> bool {
    0 <= p < ts.len() && ts[p] == t
}

/// `expr := or`
pub open spec fn p_expr(ts: Seq<TokenView>, p: int) -> PResult
    decreases ts.len() - p, 8nat,
{
    p_or(ts, p)
}

/// `or := and ("||" and)*`, left-associative.
pub open spec fn p_or(ts: Seq<TokenView>, p: int) -> PResult
    decreases ts.len() - p, 7nat,
{
    match p_and(ts, p) {
        Err(m) => Err(m),
        Ok((lhs, q)) => if p <= q <= ts.len() {
            p_or_tail(ts, lhs, q)
        } else {
            Err(seq![])
        },
    }
}

/// The `("||" and)*` part, with what is parsed so far on the left.
pub open spec fn p_or_tail(ts: Seq<TokenView>, lhs: ExprView, p: int) -> PResult
    decreases ts.len() - p, 6nat,
{
    if tok_is(ts, p, TokenView::Or) {
        match p_and(ts, p + 1) {
            Err(m) => Err(m),
            Ok((rhs, q)) => if p < q <= ts.len() {
                p_or_tail(ts, ExprView::Or(Box::new(lhs), Box::new(rhs)), q)
            } else {
                Err(seq![])
            },
        }
    } else {
        Ok((lhs, p))
    }
}

/// `and := comparison ("&&" comparison)*`, left-associative.
pub open spec fn p_and(ts: Seq<TokenView>, p: int) -> PResult
    decreases ts.len() - p, 5nat,
{
    match p_comparison(ts, p) {
        Err(m) => Err(m),
        Ok((lhs, q)) => if p <= q <= ts.len() {
            p_and_tail(ts, lhs, q)
        } else {
            Err(seq![])
        },
    }
}

/// The `("&&" comparison)*` part, with what is parsed so far on the left.
pub open spec fn p_and_tail(ts: Seq<TokenView>, lhs: ExprView, p: int) -> PResult
    decreases ts.len() - p, 4nat,
{
    if tok_is(ts, p, TokenView::And) {
        match p_comparison(ts, p + 1) {
            Err(m) => Err(m),
            Ok((rhs, q)) => if p < q <= ts.len() {
                p_and_tail(ts, ExprView::And(Box::new(lhs), Box::new(rhs)), q)
            } else {
                Err(seq![])
            },
        }
    } else {
        Ok((lhs, p))
    }
}

/// `comparison := coalesce (("==" | "!=") coalesce)?`: non-associative, since
/// `a == b == c` is a typo, not a chain.
pub open spec fn p_comparison(ts: Seq<TokenView>, p: int) -> PResult
    decreases ts.len() - p, 3nat,
{
    match p_coalesce(ts, p) {
        Err(m) => Err(m),
        Ok((lhs, q)) => if !(p <= q <= ts.len()) {
            Err(seq![])
        } else if tok_is(ts, q, TokenView::Eq) {
            match p_coalesce(ts, q + 1) {
                Err(m) => Err(m),
                Ok((rhs, r)) => Ok((ExprView::Eq(Box::new(lhs), Box::new(rhs)), r)),
            }
        } else if tok_is(ts, q, TokenView::Ne) {
            match p_coalesce(ts, q + 1) {
                Err(m) => Err(m),
                Ok((rhs, r)) => Ok((ExprView::Ne(Box::new(lhs), Box::new(rhs)), r)),
            }
        } else {
            Ok((lhs, q))
        },
    }
}

/// `coalesce := unary ("??" coalesce)?`, right-associative.
pub open spec fn p_coalesce(ts: Seq<TokenView>, p: int) -> PResult
    decreases ts.len() - p, 2nat,
{
    match p_unary(ts, p) {
        Err(m) => Err(m),
        Ok((lhs, q)) => if !(p <= q <= ts.len()) {
            Err(seq![])
        } else if tok_is(ts, q, TokenView::Coalesce) {
            match p_coalesce(ts, q + 1) {
                Err(m) => Err(m),
                Ok((rhs, r)) => Ok((ExprView::Coalesce(Box::new(lhs), Box::new(rhs)), r)),
            }
        } else {
            Ok((lhs, q))
        },
    }
}

/// `unary := ("!" | "-") unary | atom`
pub open spec fn p_unary(ts: Seq<TokenView>, p: int) -> PResult
    decreases ts.len() - p, 1nat,
{
    if tok_is(ts, p, TokenView::Not) {
        match p_unary(ts, p + 1) {
            Err(m) => Err(m),
            Ok((a, q)) => Ok((ExprView::Not(Box::new(a)), q)),
        }
    } else if tok_is(ts, p, TokenView::Minus) {
        match p_unary(ts, p + 1) {
            Err(m) => Err(m),
            Ok((a, q)) => Ok((ExprView::Neg(Box::new(a)), q)),
        }
    } else {
        p_atom(ts, p)
    }
}

/// What an identifier stands for: a keyword literal, a side letter, or a
/// variable.
pub open spec fn ident_expr(name: Seq<char>) -> ExprView {
    if name == "true"@ {
        ExprView::Literal(Value::Bool(true))
    } else if name == "false"@ {
        ExprView::Literal(Value::Bool(false))
    } else if name == "null"@ {
        ExprView::Literal(Value::Grip(None))
    } else if name == "R"@ {
        ExprView::Literal(Value::Grip(Some(Side::R)))
    } else if name == "L"@ {
        ExprView::Literal(Value::Grip(Some(Side::L)))
    } else if name == "U"@ {
        ExprView::Literal(Value::Grip(Some(Side::U)))
    } else if name == "D"@ {
        ExprView::Literal(Value::Grip(Some(Side::D)))
    } else if name == "F"@ {
        ExprView::Literal(Value::Grip(Some(Side::F)))
    } else if name == "B"@ {
        ExprView::Literal(Value::Grip(Some(Side::B)))
    } else {
        ExprView::Var(name)
    }
}

/// `atom := "(" expr ")" | literal | identifier`
pub open spec fn p_atom(ts: Seq<TokenView>, p: int) -> PResult
    decreases ts.len() - p, 0nat,
{
    if p < 0 || p >= ts.len() {
        Err("expected an expression"@)
    } else {
        match ts[p] {
            TokenView::LParen => match p_expr(ts, p + 1) {
                Err(m) => Err(m),
                Ok((inner, q)) => if tok_is(ts, q, TokenView::RParen) {
                    Ok((inner, q + 1))
                } else {
                    Err("expected `)`"@)
                },
            },
            TokenView::LBrace => p_mask(ts, p + 1),
            TokenView::Int(n) => if -128 <= n <= 127 {
                Ok((ExprView::Literal(Value::Multiplicity(n as i8)), p + 1))
            } else {
                Err("multiplicity `"@ + int_text(n) + "` is too big"@)
            },
            TokenView::Ident(name) => Ok((ident_expr(name), p + 1)),
            t => Err("unexpected `"@ + token_text(t) + "`"@),
        }
    }
}

/// The mask literal after its `{`.
pub open spec fn p_mask(ts: Seq<TokenView>, p: int) -> PResult {
    if tok_is(ts, p, TokenView::RBrace) {
        Ok((ExprView::Literal(Value::Mask(LayerMask(0))), p + 1))
    } else {
        mask_items(ts, p, 0)
    }
}

/// The layers of a mask literal from `p` on, with `acc` holding the layers
/// before.
pub open spec fn mask_items(ts: Seq<TokenView>, p: int, acc: u8) -> PResult
    decreases ts.len() - p,
{
    if 0 <= p < ts.len() && ts[p] is Int {
        let n = ts[p]->Int_0;
        if n < 3 {
            let acc2 = acc | (1u8 << (n as u8));
            if tok_is(ts, p + 1, TokenView::RBrace) {
                Ok((ExprView::Literal(Value::Mask(LayerMask(acc2))), p + 2))
            } else if tok_is(ts, p + 1, TokenView::Comma) {
                mask_items(ts, p + 2, acc2)
            } else {
                Err("expected `,` or `}`"@)
            }
        } else {
            Err("layer `"@ + int_text(n) + "`: the puzzle has layers 0..3"@)
        }
    } else {
        Err("expected a layer number"@)
    }
}

/// The whole token sequence as one expression, or an error.
pub open spec fn parse_tokens(ts: Seq<TokenView>) -> Result<ExprView, Seq<char>> {
    match p_expr(ts, 0) {
        Err(m) => Err(m),
        Ok((e, q)) => if 0 <= q < ts.len() {
            Err("trailing `"@ + token_text(ts[q]) + "`"@)
        } else {
            Ok(e)
        },
    }
}

/// What parsing a source text gives: its expression, or the first lexing
/// or parsing error.
pub open spec fn parse_spec(src: Seq<char>) -> Result<ExprView, Seq<char>> {
    match lex_spec(src) {
        Err(m) => Err(m),
        Ok(ts) => parse_tokens(ts),
    }
}

/// An executable parse result agrees with the stated one, and the position
/// is where the stated parse ends.
pub open spec fn agrees(r: Result<Expr, String>, pos: int, s: PResult) -> bool {
    match s {
        Ok((e, q)) => r matches Ok(x) && x@ == e && pos == q,
        Err(m) => r matches Err(x) && x@ == m,
    }
}

/// A successful parse moved forward and stayed within the tokens.
pub open spec fn progressed(r: Result<Expr, String>, from: int, to: int, len: int) -> bool {
    r matches Ok(x) ==> from < to <= len
}

/// One `|| and` step of the `or` loop.
proof fn lemma_or_step(ts: Seq<TokenView>, lhs: ExprView, p: int, r: Result<Expr, String>, q: int)
    requires
        tok_is(ts, p, TokenView::Or),
        agrees(r, q, p_and(ts, p + 1)),
        progressed(r, p + 1, q, ts.len() as int),
    ensures
        r matches Err(m) ==> p_or_tail(ts, lhs, p) == PResult::Err(m@),
        r matches Ok(rhs) ==> p_or_tail(ts, lhs, p) == p_or_tail(
            ts,
            ExprView::Or(Box::new(lhs), Box::new(rhs@)),
            q,
        ),
{
}

struct Parser {
    tokens: Vec<Token>,
    pos: usize,
}

fn token_eq(a: &Token, b: &Token) -> (r: bool)
    ensures
        r == (a@ == b@),
{
    match (a, b) {
        (Token::Ident(x), Token::Ident(y)) => str_eq(x.as_str(), y.as_str()),
        (Token::Int(x), Token::Int(y)) => *x == *y,
        (Token::LBrace, Token::LBrace) => true,
        (Token::RBrace, Token::RBrace) => true,
        (Token::LParen, Token::LParen) => true,
        (Token::RParen, Token::RParen) => true,
        (Token::Comma, Token::Comma) => true,
        (Token::Not, Token::Not) => true,
        (Token::Minus, Token::Minus) => true,
        (Token::And, Token::And) => true,
        (Token::Or, Token::Or) => true,
        (Token::Eq, Token::Eq) => true,
        (Token::Ne, Token::Ne) => true,
        (Token::Coalesce, Token::Coalesce) => true,
        _ => false,
    }
}

fn clone_token(t: &Token) -> (r: Token)
    ensures
        r@ == t@,
{
    match t {
        Token::Ident(x) => Token::Ident(x.clone()),
        Token::Int(x) => Token::Int(*x),
        Token::LBrace => Token::LBrace,
        Token::RBrace => Token::RBrace,
        Token::LParen => Token::LParen,
        Token::RParen => Token::RParen,
        Token::Comma => Token::Comma,
        Token::Not => Token::Not,
        Token::Minus => Token::Minus,
        Token::And => Token::And,
        Token::Or => Token::Or,
        Token::Eq => Token::Eq,
        Token::Ne => Token::Ne,
        Token::Coalesce => Token::Coalesce,
    }
}

fn ident_literal(name: String) -> (r: Expr)
    ensures
        r@ == ident_expr(name@),
{
    proof {
        reveal_strlit("true");
        reveal_strlit("false");
        reveal_strlit("null");
        reveal_strlit("R");
        reveal_strlit("L");
        reveal_strlit("U");
        reveal_strlit("D");
        reveal_strlit("F");
        reveal_strlit("B");
    }
    let n = name.as_str();
    if str_eq(n, "true") {
        Expr::Literal(Value::Bool(true))
    } else if str_eq(n, "false") {
        Expr::Literal(Value::Bool(false))
    } else if str_eq(n, "null") {
        Expr::Literal(Value::Grip(None))
    } else if str_eq(n, "R") {
        Expr::Literal(Value::Grip(Some(Side::R)))
    } else if str_eq(n, "L") {
        Expr::Literal(Value::Grip(Some(Side::L)))
    } else if str_eq(n, "U") {
        Expr::Literal(Value::Grip(Some(Side::U)))
    } else if str_eq(n, "D") {
        Expr::Literal(Value::Grip(Some(Side::D)))
    } else if str_eq(n, "F") {
        Expr::Literal(Value::Grip(Some(Side::F)))
    } else if str_eq(n, "B") {
        Expr::Literal(Value::Grip(Some(Side::B)))
    } else {
        Expr::Var(name)
    }
}

impl Parser {
    spec fn ts(&self) -> Seq<TokenView> {
        tokens_view(self.tokens@)
    }

    spec fn wf(&self) -> bool {
        &&& self.pos <= self.tokens@.len()
        &&& tokens_wf(self.ts())
    }

    fn peek(&self) -> (r: Option<&Token>)
        ensures
            match r {
                Some(t) => self.pos < self.tokens@.len() && t@ == self.ts()[self.pos as int],
                None => self.pos >= self.tokens@.len(),
            },
    {
        if self.pos < self.tokens.len() {
            Some(&self.tokens[self.pos])
        } else {
            None
        }
    }

    /// consume the next token if it's `token`.
    fn eat(&mut self, token: &Token) -> (matched: bool)
        requires
            old(self).wf(),
        ensures
            final(self).tokens@ == old(self).tokens@,
            matched == tok_is(old(self).ts(), old(self).pos as int, token@),
            final(self).pos == if matched {
                old(self).pos + 1
            } else {
                old(self).pos as int
            },
            final(self).wf(),
    {
        if self.pos < self.tokens.len() && token_eq(&self.tokens[self.pos], token) {
            self.pos = self.pos + 1;
            true
        } else {
            false
        }
    }

    fn next(&mut self) -> (r: Option<Token>)
        requires
            old(self).wf(),
        ensures
            final(self).tokens@ == old(self).tokens@,
            final(self).wf(),
            match r {
                Some(t) => old(self).pos < old(self).tokens@.len() && t@ == old(self).ts()[old(
                    self,
                ).pos as int] && final(self).pos == old(self).pos + 1,
                None => old(self).pos >= old(self).tokens@.len(),
            },
    {
        if self.pos < self.tokens.len() {
            let token = clone_token(&self.tokens[self.pos]);
            self.pos = self.pos + 1;
            Some(token)
        } else {
            None
        }
    }

    fn expr(&mut self) -> (r: Result<Expr, String>)
        requires
            old(self).wf(),
        ensures
            final(self).tokens@ == old(self).tokens@,
            agrees(r, final(self).pos as int, p_expr(old(self).ts(), old(self).pos as int)),
            progressed(r, old(self).pos as int, final(self).pos as int, old(self).tokens@.len() as int),
        decreases old(self).tokens@.len() - old(self).pos, 8nat,
    {
        self.or()
    }

    fn or(&mut self) -> (r: Result<Expr, String>)
        requires
            old(self).wf(),
        ensures
            final(self).tokens@ == old(self).tokens@,
            agrees(r, final(self).pos as int, p_or(old(self).ts(), old(self).pos as int)),
            progressed(r, old(self).pos as int, final(self).pos as int, old(self).tokens@.len() as int),
        decreases old(self).tokens@.len() - old(self).pos, 7nat,
    {
        let lhs = match self.and() {
            Ok(e) => e,
            Err(m) => return Err(m),
        };
        self.or_tail(lhs)
    }

    /// The `("||" and)*` after what is parsed so far.
    fn or_tail(&mut self, lhs: Expr) -> (r: Result<Expr, String>)
        requires
            old(self).wf(),
        ensures
            final(self).tokens@ == old(self).tokens@,
            agrees(r, final(self).pos as int, p_or_tail(old(self).ts(), lhs@, old(self).pos as int)),
            r is Ok ==> old(self).pos <= final(self).pos <= old(self).tokens@.len(),
        decreases old(self).tokens@.len() - old(self).pos, 6nat,
    {
        let ghost ts = self.ts();
        let ghost p = self.pos as int;
        if self.eat(&Token::Or) {
            let r = self.and();
            proof {
                lemma_or_step(ts, lhs@, p, r, self.pos as int);
            }
            match r {
                Ok(rhs) => self.or_tail(Expr::Or(Box::new(lhs), Box::new(rhs))),
                Err(m) => Err(m),
            }
        } else {
            Ok(lhs)
        }
    }

    fn and(&mut self) -> (r: Result<Expr, String>)
        requires
            old(self).wf(),
        ensures
            final(self).tokens@ == old(self).tokens@,
            agrees(r, final(self).pos as int, p_and(old(self).ts(), old(self).pos as int)),
            progressed(r, old(self).pos as int, final(self).pos as int, old(self).tokens@.len() as int),
        decreases old(self).tokens@.len() - old(self).pos, 5nat,
    {
        let ghost ts = self.ts();
        let ghost toks = self.tokens@;
        let ghost p0 = self.pos as int;
        let mut lhs = match self.comparison() {
            Ok(e) => e,
            Err(m) => return Err(m),
        };
        while self.eat(&Token::And)
            invariant
                toks == old(self).tokens@,
                p0 == old(self).pos,
                self.tokens@ == toks,
                self.ts() == ts,
                self.wf(),
                p0 < self.pos,
                p_and(ts, p0) == p_and_tail(ts, lhs@, self.pos as int),
            decreases self.tokens@.len() - self.pos,
        {
            let rhs = match self.comparison() {
                Ok(e) => e,
                Err(m) => return Err(m),
            };
            lhs = Expr::And(Box::new(lhs), Box::new(rhs));
        }
        Ok(lhs)
    }

    fn comparison(&mut self) -> (r: Result<Expr, String>)
        requires
            old(self).wf(),
        ensures
            final(self).tokens@ == old(self).tokens@,
            agrees(r, final(self).pos as int, p_comparison(old(self).ts(), old(self).pos as int)),
            progressed(r, old(self).pos as int, final(self).pos as int, old(self).tokens@.len() as int),
        decreases old(self).tokens@.len() - old(self).pos, 3nat,
    {
        let lhs = match self.coalesce() {
            Ok(e) => e,
            Err(m) => return Err(m),
        };
        if self.eat(&Token::Eq) {
            let rhs = match self.coalesce() {
                Ok(e) => e,
                Err(m) => return Err(m),
            };
            Ok(Expr::Eq(Box::new(lhs), Box::new(rhs)))
        } else if self.eat(&Token::Ne) {
            let rhs = match self.coalesce() {
                Ok(e) => e,
                Err(m) => return Err(m),
            };
            Ok(Expr::Ne(Box::new(lhs), Box::new(rhs)))
        } else {
            Ok(lhs)
        }
    }

    fn coalesce(&mut self) -> (r: Result<Expr, String>)
        requires
            old(self).wf(),
        ensures
            final(self).tokens@ == old(self).tokens@,
            agrees(r, final(self).pos as int, p_coalesce(old(self).ts(), old(self).pos as int)),
            progressed(r, old(self).pos as int, final(self).pos as int, old(self).tokens@.len() as int),
        decreases old(self).tokens@.len() - old(self).pos, 2nat,
    {
        let lhs = match self.unary() {
            Ok(e) => e,
            Err(m) => return Err(m),
        };
        if self.eat(&Token::Coalesce) {
            let rhs = match self.coalesce() {
                Ok(e) => e,
                Err(m) => return Err(m),
            };
            Ok(Expr::Coalesce(Box::new(lhs), Box::new(rhs)))
        } else {
            Ok(lhs)
        }
    }

    fn unary(&mut self) -> (r: Result<Expr, String>)
        requires
            old(self).wf(),
        ensures
            final(self).tokens@ == old(self).tokens@,
            agrees(r, final(self).pos as int, p_unary(old(self).ts(), old(self).pos as int)),
            progressed(r, old(self).pos as int, final(self).pos as int, old(self).tokens@.len() as int),
        decreases old(self).tokens@.len() - old(self).pos, 1nat,
    {
        if self.eat(&Token::Not) {
            match self.unary() {
                Ok(a) => Ok(Expr::Not(Box::new(a))),
                Err(m) => Err(m),
            }
        } else if self.eat(&Token::Minus) {
            match self.unary() {
                Ok(a) => Ok(Expr::Neg(Box::new(a))),
                Err(m) => Err(m),
            }
        } else {
            self.atom()
        }
    }

    fn atom(&mut self) -> (r: Result<Expr, String>)
        requires
            old(self).wf(),
        ensures
            final(self).tokens@ == old(self).tokens@,
            agrees(r, final(self).pos as int, p_atom(old(self).ts(), old(self).pos as int)),
            progressed(r, old(self).pos as int, final(self).pos as int, old(self).tokens@.len() as int),
        decreases old(self).tokens@.len() - old(self).pos, 0nat,
    {
        let ghost ts = self.ts();
        let ghost p0 = self.pos as int;
        match self.next() {
            None => Err(owned("expected an expression")),
            Some(Token::LParen) => {
                let inner = match self.expr() {
                    Ok(e) => e,
                    Err(m) => return Err(m),
                };
                if self.eat(&Token::RParen) {
                    Ok(inner)
                } else {
                    Err(owned("expected `)`"))
                }
            },
            Some(Token::LBrace) => self.mask(),
            Some(Token::Int(n)) => {
                if n <= 127 {
                    Ok(Expr::Literal(Value::Multiplicity(n as i8)))
                } else {
                    let mut s = owned("multiplicity `");
                    push_i64(&mut s, n);
                    push_str(&mut s, "` is too big");
                    assert(s@ =~= "multiplicity `"@ + int_text(n as int) + "` is too big"@);
                    Err(s)
                }
            },
            Some(Token::Ident(name)) => Ok(ident_literal(name)),
            Some(token) => {
                let mut s = owned("unexpected `");
                push_token(&mut s, &token);
                push_str(&mut s, "`");
                assert(s@ =~= "unexpected `"@ + token_text(token@) + "`"@);
                Err(s)
            },
        }
    }

    /// the `{` is already eaten.
    fn mask(&mut self) -> (r: Result<Expr, String>)
        requires
            old(self).wf(),
        ensures
            final(self).tokens@ == old(self).tokens@,
            agrees(r, final(self).pos as int, p_mask(old(self).ts(), old(self).pos as int)),
            progressed(r, old(self).pos as int, final(self).pos as int, old(self).tokens@.len() as int),
    {
        let ghost ts = self.ts();
        let ghost toks = self.tokens@;
        let ghost p0 = self.pos as int;
        let mut mask = LayerMask::none();
        if self.eat(&Token::RBrace) {
            return Ok(Expr::Literal(Value::Mask(mask)));
        }
        loop
            invariant
                toks == old(self).tokens@,
                p0 == old(self).pos,
                self.tokens@ == toks,
                self.ts() == ts,
                self.wf(),
                p0 <= self.pos,
                p_mask(ts, p0) == mask_items(ts, self.pos as int, mask.0),
            decreases self.tokens@.len() - self.pos,
        {
            let ghost at = self.pos as int;
            match self.next() {
                Some(Token::Int(n)) => {
                    if n < 3 {
                        mask.set(n as u8, true);
                    } else {
                        let mut s = owned("layer `");
                        push_i64(&mut s, n);
                        push_str(&mut s, "`: the puzzle has layers 0..3");
                        assert(s@ =~= "layer `"@ + int_text(n as int)
                            + "`: the puzzle has layers 0..3"@);
                        return Err(s);
                    }
                },
                _ => return Err(owned("expected a layer number")),
            }
            if self.eat(&Token::RBrace) {
                return Ok(Expr::Literal(Value::Mask(mask)));
            }
            if !self.eat(&Token::Comma) {
                return Err(owned("expected `,` or `}`"));
            }
        }
    }
}

impl Expr {
    /// Parses an expression, or says what is wrong with it.
    pub fn parse(src: &str) -> (r: Result<Expr, String>)
        ensures
            res_expr_view(r) == parse_spec(src@),
    {
        let tokens = match lex(src) {
            Ok(tokens) => tokens,
            Err(m) => return Err(m),
        };
        let mut parser = Parser { tokens, pos: 0 };
        let expr = match parser.expr() {
            Ok(e) => e,
            Err(m) => return Err(m),
        };
        match parser.peek() {
            None => Ok(expr),
            Some(token) => {
                let mut s = owned("trailing `");
                push_token(&mut s, token);
                push_str(&mut s, "`");
                assert(s@ =~= "trailing `"@ + token_text(token@) + "`"@);
                Err(s)
            },
        }
    }
}

/// An expression result taken by its view.
pub open spec fn res_expr_view(r: Result<Expr, String>) -> Result<ExprView, Seq<char>> {
    match r {
        Ok(e) => Ok(e@),
        Err(m) => Err(m@),
    }
}

/// `!` takes the unary operand right after it and nothing more: whatever a
/// unary expression starting after the `!` parses to and wherever it ends,
/// the `!` form is its negation, ending at the same place.
pub proof fn lemma_not_takes_one_unary(ts: Seq<TokenView>, p: int)
    requires
        tok_is(ts, p, TokenView::Not),
    ensures
        p_unary(ts, p) == match p_unary(ts, p + 1) {
            Ok((a, q)) => Ok::<(ExprView, int), Seq<char>>((ExprView::Not(Box::new(a)), q)),
            Err(m) => Err(m),
        },
{
}

/// `-` likewise takes the unary operand right after it and nothing more.
pub proof fn lemma_minus_takes_one_unary(ts: Seq<TokenView>, p: int)
    requires
        tok_is(ts, p, TokenView::Minus),
    ensures
        p_unary(ts, p) == match p_unary(ts, p + 1) {
            Ok((a, q)) => Ok::<(ExprView, int), Seq<char>>((ExprView::Neg(Box::new(a)), q)),
            Err(m) => Err(m),
        },
{
}

/// `!` binds tighter than `&&`: `!a && b` is the conjunction of `!a` and
/// `b`, for any two identifiers.
pub proof fn lemma_not_binds_tighter_than_and(a: Seq<char>, b: Seq<char>)
    ensures
        p_expr(seq![TokenView::Not, TokenView::Ident(a), TokenView::And, TokenView::Ident(b)], 0)
            == Ok::<(ExprView, int), Seq<char>>((
            ExprView::And(
                Box::new(ExprView::Not(Box::new(ident_expr(a)))),
                Box::new(ident_expr(b)),
            ),
            4,
        )),
{
    let ts = seq![TokenView::Not, TokenView::Ident(a), TokenView::And, TokenView::Ident(b)];
    reveal_with_fuel(p_and_tail, 2);
    assert(p_unary(ts, 1) == Ok::<(ExprView, int), Seq<char>>((ident_expr(a), 2)));
    assert(p_unary(ts, 0) == Ok::<(ExprView, int), Seq<char>>((
        ExprView::Not(Box::new(ident_expr(a))),
        2,
    )));
    assert(p_coalesce(ts, 0) == p_unary(ts, 0));
    assert(p_comparison(ts, 0) == p_unary(ts, 0));
    assert(p_unary(ts, 3) == Ok::<(ExprView, int), Seq<char>>((ident_expr(b), 4)));
    assert(p_coalesce(ts, 3) == p_unary(ts, 3));
    assert(p_comparison(ts, 3) == p_unary(ts, 3));
    assert(p_or_tail(
        ts,
        ExprView::And(Box::new(ExprView::Not(Box::new(ident_expr(a)))), Box::new(ident_expr(b))),
        4,
    ) == Ok::<(ExprView, int), Seq<char>>((
        ExprView::And(Box::new(ExprView::Not(Box::new(ident_expr(a)))), Box::new(ident_expr(b))),
        4,
    )));
}

/// The letter that names a side.
spec fn s_letter(s: Side) -> char {
    match s {
        Side::R => 'R',
        Side::L => 'L',
        Side::U => 'U',
        Side::D => 'D',
        Side::F => 'F',
        Side::B => 'B',
    }
}

/// Each side letter is the grip literal of its own side, and no other.
pub proof fn lemma_side_letters_are_their_grips(s: Side)
    ensures
        ident_expr(side_text(s)) == ExprView::Literal(Value::Grip(Some(s))),
        p_expr(seq![TokenView::Ident(side_text(s))], 0) == Ok::<(ExprView, int), Seq<char>>((
            ExprView::Literal(Value::Grip(Some(s))),
            1,
        )),
{
    reveal_strlit("true");
    reveal_strlit("false");
    reveal_strlit("null");
    reveal_strlit("R");
    reveal_strlit("L");
    reveal_strlit("U");
    reveal_strlit("D");
    reveal_strlit("F");
    reveal_strlit("B");
    let t = side_text(s);
    assert(t.len() == 1);
    assert(t != "true"@ && t != "false"@ && t != "null"@);
    assert(t[0] == s_letter(s));
    assert("R"@[0] == 'R' && "L"@[0] == 'L' && "U"@[0] == 'U');
    assert("D"@[0] == 'D' && "F"@[0] == 'F' && "B"@[0] == 'B');
    assert(ident_expr(t) == ExprView::Literal(Value::Grip(Some(s))));
    let ts = seq![TokenView::Ident(side_text(s))];
    assert(p_unary(ts, 0) == Ok::<(ExprView, int), Seq<char>>((ident_expr(side_text(s)), 1)));
}

} // verus!
