//! Splitting an expression's source into tokens.
use vstd::prelude::*;
use crate::text::{digits_value, digit_value, int_text, is_digit, owned, push_char, push_i64, push_str};

verus! {

#[derive(Debug, Clone, PartialEq)]
pub enum Token {
    Ident(String),
    Int(i64),
    LBrace,
    RBrace,
    LParen,
    RParen,
    Comma,
    Not,
    Minus,
    And,
    Or,
    Eq,
    Ne,
    Coalesce,
}

/// A token with its name taken by its characters and its number as an
/// integer.
pub enum TokenView {
    Ident(Seq<char>),
    Int(int),
    LBrace,
    RBrace,
    LParen,
    RParen,
    Comma,
    Not,
    Minus,
    And,
    Or,
    Eq,
    Ne,
    Coalesce,
}

impl View for Token {
    type V = TokenView;

    open spec fn view(&self) -> TokenView {
        match self {
            Token::Ident(name) => TokenView::Ident(name@),
            Token::Int(n) => TokenView::Int(*n as int),
            Token::LBrace => TokenView::LBrace,
            Token::RBrace => TokenView::RBrace,
            Token::LParen => TokenView::LParen,
            Token::RParen => TokenView::RParen,
            Token::Comma => TokenView::Comma,
            Token::Not => TokenView::Not,
            Token::Minus => TokenView::Minus,
            Token::And => TokenView::And,
            Token::Or => TokenView::Or,
            Token::Eq => TokenView::Eq,
            Token::Ne => TokenView::Ne,
            Token::Coalesce => TokenView::Coalesce,
        }
    }
}

pub open spec fn tokens_view(ts: Seq<Token>) -> Seq<TokenView> {
    ts.map_values(|t: Token| t@)
}

/// Every integer token is one the lexer can produce: a non-negative `i64`.
pub open spec fn tokens_wf(ts: Seq<TokenView>) -> bool {
    forall|k: int|
        0 <= k < ts.len() ==> (#[trigger] ts[k] matches TokenView::Int(n) ==> 0 <= n <= i64::MAX)
}

/// How a token is written back in an error message.
pub open spec fn token_text(t: TokenView) -> Seq<char> {
    match t {
        TokenView::Ident(name) => name,
        TokenView::Int(n) => int_text(n),
        TokenView::LBrace => "{"@,
        TokenView::RBrace => "}"@,
        TokenView::LParen => "("@,
        TokenView::RParen => ")"@,
        TokenView::Comma => ","@,
        TokenView::Not => "!"@,
        TokenView::Minus => "-"@,
        TokenView::And => "&&"@,
        TokenView::Or => "||"@,
        TokenView::Eq => "=="@,
        TokenView::Ne => "!="@,
        TokenView::Coalesce => "??"@,
    }
}

/// The characters with the Unicode `White_Space` property: tab, line feed,
/// vertical tab, form feed, carriage return, space, next line, no-break
/// space, ogham space mark, the spaces from en quad to hair space, line and
/// paragraph separator, narrow no-break space, medium mathematical space and
/// ideographic space.
pub open spec fn is_white_space(c: char) -> bool {
    let n = c as u32;
    ||| 0x9 <= n <= 0xD
    ||| n == 0x20
    ||| n == 0x85
    ||| n == 0xA0
    ||| n == 0x1680
    ||| 0x2000 <= n <= 0x200A
    ||| n == 0x2028
    ||| n == 0x2029
    ||| n == 0x202F
    ||| n == 0x205F
    ||| n == 0x3000
}

/// An ASCII letter.
pub open spec fn is_ascii_letter(c: char) -> bool {
    ('a' <= c && c <= 'z') || ('A' <= c && c <= 'Z')
}

/// An ASCII digit.
pub open spec fn is_ascii_digit(c: char) -> bool {
    '0' <= c && c <= '9'
}

/// What `char::is_alphabetic` answers of a character outside ASCII: the
/// Unicode `Alphabetic` property.
pub uninterp spec fn unicode_alphabetic(c: char) -> bool;

/// What `char::is_alphanumeric` answers of a character outside ASCII:
/// `Alphabetic` or `Numeric`.
pub uninterp spec fn unicode_alphanumeric(c: char) -> bool;

/// `char::is_alphabetic`: among ASCII characters, exactly the letters.
pub open spec fn alphabetic(c: char) -> bool {
    if (c as u32) < 128 {
        is_ascii_letter(c)
    } else {
        unicode_alphabetic(c)
    }
}

/// `char::is_alphanumeric`: among ASCII characters, exactly the letters and
/// digits.
pub open spec fn alphanumeric(c: char) -> bool {
    if (c as u32) < 128 {
        is_ascii_letter(c) || is_ascii_digit(c)
    } else {
        unicode_alphanumeric(c)
    }
}

/// std's `char::is_whitespace`, documented as true exactly for the
/// characters with the Unicode `White_Space` property, which
/// `is_white_space` lists.
#[verifier::external_body]
fn char_is_whitespace(c: char) -> (r: bool)
    ensures
        r == is_white_space(c),
{
    c.is_whitespace()
}

/// std's `char::is_alphabetic`, whose answer is the Unicode `Alphabetic`
/// property of `c`; for ASCII that is the letters and nothing else. Outside
/// ASCII the table is named, not stated.
#[verifier::external_body]
fn char_is_alphabetic(c: char) -> (r: bool)
    ensures
        (c as u32) < 128 ==> (r <==> is_ascii_letter(c)),
        (c as u32) >= 128 ==> r == unicode_alphabetic(c),
{
    c.is_alphabetic()
}

/// std's `char::is_alphanumeric`, documented as `is_alphabetic() ||
/// is_numeric()`: for ASCII the letters and digits, and outside ASCII named;
/// stated besides is that it holds of every alphabetic character.
#[verifier::external_body]
fn char_is_alphanumeric(c: char) -> (r: bool)
    ensures
        (c as u32) < 128 ==> (r <==> (is_ascii_letter(c) || is_ascii_digit(c))),
        (c as u32) >= 128 ==> r == unicode_alphanumeric(c),
        alphabetic(c) ==> r,
{
    c.is_alphanumeric()
}

/// The operator two characters make together, if any. Two-character
/// operators are tried first, so `!=` does not lex as `!`.
pub open spec fn pair_token(c: char, next: Option<char>) -> Option<TokenView> {
    match next {
        Some(d) => if c == '&' && d == '&' {
            Some(TokenView::And)
        } else if c == '|' && d == '|' {
            Some(TokenView::Or)
        } else if c == '=' && d == '=' {
            Some(TokenView::Eq)
        } else if c == '!' && d == '=' {
            Some(TokenView::Ne)
        } else if c == '?' && d == '?' {
            Some(TokenView::Coalesce)
        } else {
            None
        },
        None => None,
    }
}

/// The token one character makes on its own, if any.
pub open spec fn single_token(c: char) -> Option<TokenView> {
    if c == '(' {
        Some(TokenView::LParen)
    } else if c == ')' {
        Some(TokenView::RParen)
    } else if c == '{' {
        Some(TokenView::LBrace)
    } else if c == '}' {
        Some(TokenView::RBrace)
    } else if c == ',' {
        Some(TokenView::Comma)
    } else if c == '!' {
        Some(TokenView::Not)
    } else if c == '-' {
        Some(TokenView::Minus)
    } else {
        None
    }
}

/// Where the run of digits starting at `i` ends.
pub open spec fn digit_run_end(cs: Seq<char>, i: int) -> int
    decreases cs.len() - i,
{
    if 0 <= i < cs.len() && is_digit(cs[i]) {
        digit_run_end(cs, i + 1)
    } else {
        i
    }
}

/// A character that can continue an identifier.
pub open spec fn ident_char(c: char) -> bool {
    alphanumeric(c) || c == '_'
}

/// Where the run of identifier characters starting at `i` ends.
pub open spec fn ident_run_end(cs: Seq<char>, i: int) -> int
    decreases cs.len() - i,
{
    if 0 <= i < cs.len() && ident_char(cs[i]) {
        ident_run_end(cs, i + 1)
    } else {
        i
    }
}

pub proof fn lemma_digit_run_end(cs: Seq<char>, i: int)
    requires
        0 <= i <= cs.len(),
    ensures
        i <= digit_run_end(cs, i) <= cs.len(),
        forall|k: int| i <= k < digit_run_end(cs, i) ==> is_digit(#[trigger] cs[k]),
    decreases cs.len() - i,
{
    if i < cs.len() && is_digit(cs[i]) {
        lemma_digit_run_end(cs, i + 1);
    }
}

pub proof fn lemma_ident_run_end(cs: Seq<char>, i: int)
    requires
        0 <= i <= cs.len(),
    ensures
        i <= ident_run_end(cs, i) <= cs.len(),
    decreases cs.len() - i,
{
    if i < cs.len() && ident_char(cs[i]) {
        lemma_ident_run_end(cs, i + 1);
    }
}

/// Put a token in front of the rest of a lexing result.
pub open spec fn cons_token(t: TokenView, rest: Result<Seq<TokenView>, Seq<char>>) -> Result<
    Seq<TokenView>,
    Seq<char>,
> {
    match rest {
        Ok(ts) => Ok(seq![t] + ts),
        Err(e) => Err(e),
    }
}

/// Put tokens in front of the rest of a lexing result.
pub open spec fn cons_tokens(
    front: Seq<TokenView>,
    rest: Result<Seq<TokenView>, Seq<char>>,
) -> Result<Seq<TokenView>, Seq<char>> {
    match rest {
        Ok(ts) => Ok(front + ts),
        Err(e) => Err(e),
    }
}

/// The tokens of `cs` from position `i` on, or the first lexing error.
pub open spec fn lex_from(cs: Seq<char>, i: int) -> Result<Seq<TokenView>, Seq<char>>
    decreases cs.len() - i,
{
    if i < 0 || i >= cs.len() {
        Ok(seq![])
    } else {
        let c = cs[i];
        let next = if i + 1 < cs.len() {
            Some(cs[i + 1])
        } else {
            None
        };
        match pair_token(c, next) {
            Some(t) => cons_token(t, lex_from(cs, i + 2)),
            None => match single_token(c) {
                Some(t) => cons_token(t, lex_from(cs, i + 1)),
                None => if is_white_space(c) {
                    lex_from(cs, i + 1)
                } else if is_digit(c) {
                    proof {
                        lemma_digit_run_end(cs, i + 1);
                    }
                    let j = digit_run_end(cs, i + 1);
                    let text = cs.subrange(i, j);
                    if digits_value(text) <= i64::MAX {
                        cons_token(TokenView::Int(digits_value(text) as int), lex_from(cs, j))
                    } else {
                        Err("`"@ + text + "` is too big"@)
                    }
                } else if alphabetic(c) || c == '_' {
                    proof {
                        lemma_ident_run_end(cs, i + 1);
                    }
                    let j = ident_run_end(cs, i + 1);
                    cons_token(TokenView::Ident(cs.subrange(i, j)), lex_from(cs, j))
                } else {
                    Err("unexpected `"@ + seq![c] + "`"@)
                },
            },
        }
    }
}

/// The tokens of a source text, or the first lexing error.
pub open spec fn lex_spec(src: Seq<char>) -> Result<Seq<TokenView>, Seq<char>> {
    lex_from(src, 0)
}

/// Every token the lexer produces has a non-negative `i64` number.
proof fn lemma_lex_from_wf(cs: Seq<char>, i: int)
    ensures
        lex_from(cs, i) matches Ok(ts) ==> tokens_wf(ts),
    decreases cs.len() - i,
{
    if i < 0 || i >= cs.len() {
    } else {
        let c = cs[i];
        let next = if i + 1 < cs.len() {
            Some(cs[i + 1])
        } else {
            None
        };
        match pair_token(c, next) {
            Some(t) => {
                lemma_lex_from_wf(cs, i + 2);
                lemma_cons_wf(t, lex_from(cs, i + 2));
            },
            None => match single_token(c) {
                Some(t) => {
                    lemma_lex_from_wf(cs, i + 1);
                    lemma_cons_wf(t, lex_from(cs, i + 1));
                },
                None => if is_white_space(c) {
                    lemma_lex_from_wf(cs, i + 1);
                } else if is_digit(c) {
                    lemma_digit_run_end(cs, i + 1);
                    let j = digit_run_end(cs, i + 1);
                    lemma_lex_from_wf(cs, j);
                    let text = cs.subrange(i, j);
                    if digits_value(text) <= i64::MAX {
                        lemma_cons_wf(TokenView::Int(digits_value(text) as int), lex_from(cs, j));
                    }
                } else if alphabetic(c) || c == '_' {
                    lemma_ident_run_end(cs, i + 1);
                    let j = ident_run_end(cs, i + 1);
                    lemma_lex_from_wf(cs, j);
                    lemma_cons_wf(TokenView::Ident(cs.subrange(i, j)), lex_from(cs, j));
                } else {
                },
            },
        }
    }
}

proof fn lemma_cons_wf(t: TokenView, rest: Result<Seq<TokenView>, Seq<char>>)
    requires
        rest matches Ok(ts) ==> tokens_wf(ts),
        t matches TokenView::Int(n) ==> 0 <= n <= i64::MAX,
    ensures
        cons_token(t, rest) matches Ok(ts) ==> tokens_wf(ts),
{
    if let Ok(ts) = rest {
        let all = seq![t] + ts;
        assert forall|k: int| 0 <= k < all.len() implies (#[trigger] all[k] matches TokenView::Int(
            n,
        ) ==> 0 <= n <= i64::MAX) by {
            if k > 0 {
                assert(all[k] == ts[k - 1]);
            }
        }
    }
}

proof fn lemma_cons_assoc(front: Seq<TokenView>, t: TokenView, rest: Result<Seq<TokenView>, Seq<char>>)
    ensures
        cons_tokens(front.push(t), rest) == cons_tokens(front, cons_token(t, rest)),
{
    if let Ok(ts) = rest {
        assert(front.push(t) + ts =~= front + (seq![t] + ts));
    }
}

/// The characters of `src`.
fn chars_of(src: &str) -> (r: Vec<char>)
    ensures
        r@ == src@,
{
    let n = src.unicode_len();
    let mut r: Vec<char> = Vec::new();
    let mut i: usize = 0;
    while i < n
        invariant
            n == src@.len(),
            i <= n,
            r@ == src@.subrange(0, i as int),
        decreases n - i,
    {
        r.push(src.get_char(i));
        i = i + 1;
        assert(r@ =~= src@.subrange(0, i as int));
    }
    assert(r@ =~= src@);
    r
}

/// The characters `cs[start..end]` as a string.
fn collect_chars(cs: &Vec<char>, start: usize, end: usize) -> (r: String)
    requires
        start <= end <= cs@.len(),
    ensures
        r@ == cs@.subrange(start as int, end as int),
{
    let mut s = String::new();
    let mut k = start;
    while k < end
        invariant
            start <= k <= end <= cs@.len(),
            s@ == cs@.subrange(start as int, k as int),
        decreases end - k,
    {
        push_char(&mut s, cs[k]);
        k = k + 1;
        assert(s@ =~= cs@.subrange(start as int, k as int));
    }
    s
}

fn ascii_digit(c: char) -> (r: bool)
    ensures
        r == is_digit(c),
{
    '0' <= c && c <= '9'
}

fn digit_of(c: char) -> (r: i128)
    requires
        is_digit(c),
    ensures
        r == digit_value(c),
        0 <= r <= 9,
{
    (c as u32 - '0' as u32) as i128
}

/// Appends a token as it is written.
pub fn push_token(s: &mut String, t: &Token)
    ensures
        final(s)@ == old(s)@ + token_text(t@),
{
    match t {
        Token::Ident(name) => push_str(s, name.as_str()),
        Token::Int(n) => push_i64(s, *n),
        Token::LBrace => push_str(s, "{"),
        Token::RBrace => push_str(s, "}"),
        Token::LParen => push_str(s, "("),
        Token::RParen => push_str(s, ")"),
        Token::Comma => push_str(s, ","),
        Token::Not => push_str(s, "!"),
        Token::Minus => push_str(s, "-"),
        Token::And => push_str(s, "&&"),
        Token::Or => push_str(s, "||"),
        Token::Eq => push_str(s, "=="),
        Token::Ne => push_str(s, "!="),
        Token::Coalesce => push_str(s, "??"),
    }
}

/// The two-character operator at `c` followed by `next`, if any.
fn pair(c: char, next: Option<char>) -> (r: Option<Token>)
    ensures
        match r {
            Some(t) => pair_token(c, next) == Some(t@),
            None => pair_token(c, next) is None,
        },
{
    match next {
        Some(d) => if c == '&' && d == '&' {
            Some(Token::And)
        } else if c == '|' && d == '|' {
            Some(Token::Or)
        } else if c == '=' && d == '=' {
            Some(Token::Eq)
        } else if c == '!' && d == '=' {
            Some(Token::Ne)
        } else if c == '?' && d == '?' {
            Some(Token::Coalesce)
        } else {
            None
        },
        None => None,
    }
}

/// The one-character token `c`, if any.
fn single(c: char) -> (r: Option<Token>)
    ensures
        match r {
            Some(t) => single_token(c) == Some(t@),
            None => single_token(c) is None,
        },
{
    if c == '(' {
        Some(Token::LParen)
    } else if c == ')' {
        Some(Token::RParen)
    } else if c == '{' {
        Some(Token::LBrace)
    } else if c == '}' {
        Some(Token::RBrace)
    } else if c == ',' {
        Some(Token::Comma)
    } else if c == '!' {
        Some(Token::Not)
    } else if c == '-' {
        Some(Token::Minus)
    } else {
        None
    }
}

/// Splits `src` into tokens, or says what the first character that does not
/// belong to any token is.
pub fn lex(src: &str) -> (r: Result<Vec<Token>, String>)
    ensures
        match lex_spec(src@) {
            Ok(ts) => r matches Ok(v) && tokens_view(v@) == ts,
            Err(e) => r matches Err(m) && m@ == e,
        },
        r matches Ok(v) ==> tokens_wf(tokens_view(v@)),
{
    let chars = chars_of(src);
    let ghost cs = chars@;
    let n = chars.len();
    let mut tokens: Vec<Token> = Vec::new();
    let mut i: usize = 0;
    proof {
        lemma_lex_from_wf(cs, 0);
    }
    while i < n
        invariant
            cs == chars@,
            cs == src@,
            n == cs.len(),
            i <= n,
            lex_from(cs, 0) == cons_tokens(tokens_view(tokens@), lex_from(cs, i as int)),
        decreases n - i,
    {
        let c = chars[i];
        let next = if i + 1 < n {
            Some(chars[i + 1])
        } else {
            None
        };
        let ghost before = tokens_view(tokens@);
        if let Some(token) = pair(c, next) {
            tokens.push(token);
            proof {
                lemma_cons_assoc(before, token@, lex_from(cs, i + 2));
            }
            i = i + 2;
            assert(tokens_view(tokens@) =~= before.push(token@));
            continue;
        }
        if let Some(token) = single(c) {
            tokens.push(token);
            proof {
                lemma_cons_assoc(before, token@, lex_from(cs, i + 1));
            }
            i = i + 1;
            assert(tokens_view(tokens@) =~= before.push(token@));
            continue;
        }
        if char_is_whitespace(c) {
            i = i + 1;
        } else if ascii_digit(c) {
            let start = i;
            let mut value: i128 = digit_of(c);
            let mut too_big = false;
            i = i + 1;
            proof {
                let one = cs.subrange(start as int, i as int);
                assert(one =~= seq![c]);
                assert(one.drop_last() =~= Seq::<char>::empty());
                assert(one.last() == c);
                assert(digits_value(one) == digits_value(one.drop_last()) * 10 + digit_value(c));
            }
            while i < n && ascii_digit(chars[i])
                invariant
                    cs == chars@,
                    n == cs.len(),
                    start < i <= n,
                    is_digit(cs[start as int]),
                    digit_run_end(cs, i as int) == digit_run_end(cs, start + 1),
                    too_big ==> digits_value(cs.subrange(start as int, i as int)) > i64::MAX,
                    !too_big ==> value == digits_value(cs.subrange(start as int, i as int)),
                    !too_big ==> value <= i64::MAX,
                decreases n - i,
            {
                let d = digit_of(chars[i]);
                let ghost old_text = cs.subrange(start as int, i as int);
                assert(cs.subrange(start as int, i + 1).drop_last() =~= old_text);
                if !too_big {
                    let next_value = value * 10 + d;
                    if next_value > i64::MAX as i128 {
                        too_big = true;
                    } else {
                        value = next_value;
                    }
                }
                i = i + 1;
            }
            let ghost j = i as int;
            assert(j == digit_run_end(cs, start + 1));
            if too_big {
                let mut msg = owned("`");
                let text = collect_chars(&chars, start, i);
                push_str(&mut msg, text.as_str());
                push_str(&mut msg, "` is too big");
                assert(msg@ =~= "`"@ + cs.subrange(start as int, j) + "` is too big"@);
                return Err(msg);
            }
            let token = Token::Int(value as i64);
            proof {
                lemma_cons_assoc(before, token@, lex_from(cs, i as int));
            }
            tokens.push(token);
            assert(tokens_view(tokens@) =~= before.push(token@));
        } else if c == '_' || char_is_alphabetic(c) {
            let start = i;
            i = i + 1;
            while i < n && (chars[i] == '_' || char_is_alphanumeric(chars[i]))
                invariant
                    cs == chars@,
                    n == cs.len(),
                    start < i <= n,
                    ident_run_end(cs, i as int) == ident_run_end(cs, start + 1),
                decreases n - i,
            {
                i = i + 1;
            }
            let token = Token::Ident(collect_chars(&chars, start, i));
            proof {
                lemma_cons_assoc(before, token@, lex_from(cs, i as int));
            }
            tokens.push(token);
            assert(tokens_view(tokens@) =~= before.push(token@));
        } else {
            let mut msg = owned("unexpected `");
            push_char(&mut msg, c);
            push_str(&mut msg, "`");
            assert(msg@ =~= "unexpected `"@ + seq![c] + "`"@);
            return Err(msg);
        }
    }
    Ok(tokens)
}

} // verus!
