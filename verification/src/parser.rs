//! The parser: source text to a span-annotated term tree. A hand-written
//! tokenizer handles whitespace, line and block comments, keywords,
//! identifiers and signed decimal numbers; a recursive-descent pass builds
//! the tree, stamping each node with its source span in characters.
use vstd::prelude::*;

use crate::error::Error;
use crate::strutil::str_eq;
use crate::syntax::Context;
use crate::syntax::Pretype;
use crate::syntax::Qualifier;
use crate::syntax::Term;
use crate::syntax::TermCtx;
use crate::syntax::TermCtxV;
use crate::syntax::TermV;
use crate::syntax::Type;

verus! {

/// One lexical token.
pub enum TokKind {
    Ident(String),
    Number(i64),
    True,
    False,
    KwIf,
    KwElse,
    KwLet,
    KwIn,
    KwFix,
    KwInt,
    KwBool,
    KwDiff,
    KwIszero,
    Dollar,
    Bar,
    LParen,
    RParen,
    LBrace,
    RBrace,
    LAngle,
    RAngle,
    Comma,
    Colon,
    Equals,
    Arrow,
}

/// A token with its source span `[start, end)` in characters.
pub struct Token {
    pub kind: TokKind,
    pub start: usize,
    pub end: usize,
}

/// Each token's span is an ordered interval, and the tokens lie in source
/// order without overlap.
pub open spec fn token_order(s: Seq<Token>) -> bool {
    &&& forall|i: int| 0 <= i < s.len() ==> (#[trigger] s[i]).start <= s[i].end
    &&& forall|i: int, j: int| 0 <= i < j < s.len() ==> s[i].end <= s[j].start
}

/// Where the last token ends; every parsed span lies within this bound.
pub open spec fn tok_max(s: Seq<Token>) -> nat {
    if s.len() > 0 {
        s[s.len() - 1].end as nat
    } else {
        0
    }
}

/// Every token ends within the first `n` characters.
pub open spec fn tokens_bounded(s: Seq<Token>, n: nat) -> bool {
    forall|i: int| 0 <= i < s.len() ==> (#[trigger] s[i]).end <= n
}

/// Every span in the tree is an ordered interval ending within the first
/// `n` characters of the source.
pub open spec fn spans_bounded(t: TermCtxV, n: nat) -> bool
    decreases t,
{
    &&& t.ctx.start <= t.ctx.end <= n
    &&& match t.term {
        crate::syntax::TermV::Compound(_, a, b) => spans_bounded(*a, n) && spans_bounded(*b, n),
        crate::syntax::TermV::Arith1(_, _, a) => spans_bounded(*a, n),
        crate::syntax::TermV::Arith2(_, _, a, b) => spans_bounded(*a, n) && spans_bounded(*b, n),
        crate::syntax::TermV::Abstraction(_, _, _, a) => spans_bounded(*a, n),
        crate::syntax::TermV::Application(a, b) => spans_bounded(*a, n) && spans_bounded(*b, n),
        crate::syntax::TermV::Conditional(a, b, c) => spans_bounded(*a, n) && spans_bounded(*b, n)
            && spans_bounded(*c, n),
        crate::syntax::TermV::Fix(a) => spans_bounded(*a, n),
        crate::syntax::TermV::Let(_, a, b) => spans_bounded(*a, n) && spans_bounded(*b, n),
        crate::syntax::TermV::Letc(_, _, a, b) => spans_bounded(*a, n) && spans_bounded(*b, n),
        _ => true,
    }
}

/// A bound on every span widens.
pub proof fn lemma_spans_bounded_widen(t: TermCtxV, n: nat, m: nat)
    requires
        spans_bounded(t, n),
        n <= m,
    ensures
        spans_bounded(t, m),
    decreases t,
{
    match t.term {
        crate::syntax::TermV::Compound(_, a, b) => {
            lemma_spans_bounded_widen(*a, n, m);
            lemma_spans_bounded_widen(*b, n, m);
        }
        crate::syntax::TermV::Arith1(_, _, a) => {
            lemma_spans_bounded_widen(*a, n, m);
        }
        crate::syntax::TermV::Arith2(_, _, a, b) => {
            lemma_spans_bounded_widen(*a, n, m);
            lemma_spans_bounded_widen(*b, n, m);
        }
        crate::syntax::TermV::Abstraction(_, _, _, a) => {
            lemma_spans_bounded_widen(*a, n, m);
        }
        crate::syntax::TermV::Application(a, b) => {
            lemma_spans_bounded_widen(*a, n, m);
            lemma_spans_bounded_widen(*b, n, m);
        }
        crate::syntax::TermV::Conditional(a, b, c) => {
            lemma_spans_bounded_widen(*a, n, m);
            lemma_spans_bounded_widen(*b, n, m);
            lemma_spans_bounded_widen(*c, n, m);
        }
        crate::syntax::TermV::Fix(a) => {
            lemma_spans_bounded_widen(*a, n, m);
        }
        crate::syntax::TermV::Let(_, a, b) => {
            lemma_spans_bounded_widen(*a, n, m);
            lemma_spans_bounded_widen(*b, n, m);
        }
        crate::syntax::TermV::Letc(_, _, a, b) => {
            lemma_spans_bounded_widen(*a, n, m);
            lemma_spans_bounded_widen(*b, n, m);
        }
        _ => {}
    }
}

/// Ordered tokens: spans are ordered intervals whose ends never decrease
/// with the index.
proof fn lemma_token_span(s: Seq<Token>, i: int, j: int)
    requires
        token_order(s),
        0 <= i <= j < s.len(),
    ensures
        s[i].start <= s[i].end,
        s[j].start <= s[j].end,
        s[i].end <= s[j].end,
        s[i].start <= s[j].start,
        i < j ==> s[i].end <= s[j].start,
{
    if i < j {
        assert(s[i].end <= s[j].start);
    }
}


/// The spec-level model of a token kind: identifier text as characters.
pub enum TokKindV {
    Ident(Seq<char>),
    Number(i64),
    True,
    False,
    KwIf,
    KwElse,
    KwLet,
    KwIn,
    KwFix,
    KwInt,
    KwBool,
    KwDiff,
    KwIszero,
    Dollar,
    Bar,
    LParen,
    RParen,
    LBrace,
    RBrace,
    LAngle,
    RAngle,
    Comma,
    Colon,
    Equals,
    Arrow,
}

/// The spec-level model of a token.
pub struct TokenV {
    pub kind: TokKindV,
    pub start: int,
    pub end: int,
}

pub open spec fn token_kind_view(k: TokKind) -> TokKindV {
    match k {
        TokKind::Ident(s) => TokKindV::Ident(s@),
        TokKind::Number(v) => TokKindV::Number(v),
        TokKind::True => TokKindV::True,
        TokKind::False => TokKindV::False,
        TokKind::KwIf => TokKindV::KwIf,
        TokKind::KwElse => TokKindV::KwElse,
        TokKind::KwLet => TokKindV::KwLet,
        TokKind::KwIn => TokKindV::KwIn,
        TokKind::KwFix => TokKindV::KwFix,
        TokKind::KwInt => TokKindV::KwInt,
        TokKind::KwBool => TokKindV::KwBool,
        TokKind::KwDiff => TokKindV::KwDiff,
        TokKind::KwIszero => TokKindV::KwIszero,
        TokKind::Dollar => TokKindV::Dollar,
        TokKind::Bar => TokKindV::Bar,
        TokKind::LParen => TokKindV::LParen,
        TokKind::RParen => TokKindV::RParen,
        TokKind::LBrace => TokKindV::LBrace,
        TokKind::RBrace => TokKindV::RBrace,
        TokKind::LAngle => TokKindV::LAngle,
        TokKind::RAngle => TokKindV::RAngle,
        TokKind::Comma => TokKindV::Comma,
        TokKind::Colon => TokKindV::Colon,
        TokKind::Equals => TokKindV::Equals,
        TokKind::Arrow => TokKindV::Arrow,
    }
}

pub open spec fn token_view(t: Token) -> TokenV {
    TokenV { kind: token_kind_view(t.kind), start: t.start as int, end: t.end as int }
}

pub open spec fn token_views(toks: Seq<Token>) -> Seq<TokenV> {
    toks.map_values(|t: Token| token_view(t))
}

/// Each variant of a token kind's model is the variant of the kind.
pub proof fn lemma_token_kind_view_variant(k: TokKind)
    ensures
        (token_kind_view(k) is Ident) == (k is Ident),
        (token_kind_view(k) is Number) == (k is Number),
        (token_kind_view(k) is True) == (k is True),
        (token_kind_view(k) is False) == (k is False),
        (token_kind_view(k) is KwIf) == (k is KwIf),
        (token_kind_view(k) is KwElse) == (k is KwElse),
        (token_kind_view(k) is KwLet) == (k is KwLet),
        (token_kind_view(k) is KwIn) == (k is KwIn),
        (token_kind_view(k) is KwFix) == (k is KwFix),
        (token_kind_view(k) is KwInt) == (k is KwInt),
        (token_kind_view(k) is KwBool) == (k is KwBool),
        (token_kind_view(k) is KwDiff) == (k is KwDiff),
        (token_kind_view(k) is KwIszero) == (k is KwIszero),
        (token_kind_view(k) is Dollar) == (k is Dollar),
        (token_kind_view(k) is Bar) == (k is Bar),
        (token_kind_view(k) is LParen) == (k is LParen),
        (token_kind_view(k) is RParen) == (k is RParen),
        (token_kind_view(k) is LBrace) == (k is LBrace),
        (token_kind_view(k) is RBrace) == (k is RBrace),
        (token_kind_view(k) is LAngle) == (k is LAngle),
        (token_kind_view(k) is RAngle) == (k is RAngle),
        (token_kind_view(k) is Comma) == (k is Comma),
        (token_kind_view(k) is Colon) == (k is Colon),
        (token_kind_view(k) is Equals) == (k is Equals),
        (token_kind_view(k) is Arrow) == (k is Arrow),
{
    match k {
        TokKind::Ident(..) => {}
        TokKind::Number(..) => {}
        TokKind::True => {}
        TokKind::False => {}
        TokKind::KwIf => {}
        TokKind::KwElse => {}
        TokKind::KwLet => {}
        TokKind::KwIn => {}
        TokKind::KwFix => {}
        TokKind::KwInt => {}
        TokKind::KwBool => {}
        TokKind::KwDiff => {}
        TokKind::KwIszero => {}
        TokKind::Dollar => {}
        TokKind::Bar => {}
        TokKind::LParen => {}
        TokKind::RParen => {}
        TokKind::LBrace => {}
        TokKind::RBrace => {}
        TokKind::LAngle => {}
        TokKind::RAngle => {}
        TokKind::Comma => {}
        TokKind::Colon => {}
        TokKind::Equals => {}
        TokKind::Arrow => {}
    }
}

/// A spec-level parse failure: the span it concerns and its message.
pub struct ParseFail {
    pub start: int,
    pub end: int,
    pub message: Seq<char>,
}

/// Whether the reported error is the spec-level failure.
pub open spec fn parse_err_matches(e: Error, f: ParseFail) -> bool {
    e matches Error::ParseError { message, start, end } && message@ == f.message && start as int
        == f.start && end as int == f.end
}

pub open spec fn is_space_spec(c: char) -> bool {
    c == ' ' || c == '\t' || c == '\r' || c == '\n'
}

pub open spec fn is_ident_start_spec(c: char) -> bool {
    (97 <= c as u32 <= 122) || (65 <= c as u32 <= 90) || c == '_'
}

pub open spec fn is_digit_spec(c: char) -> bool {
    48 <= c as u32 <= 57
}

pub open spec fn is_ident_char_spec(c: char) -> bool {
    is_ident_start_spec(c) || is_digit_spec(c)
}

/// The position right after a line comment's text: the next newline, or
/// the end of the source.
pub open spec fn line_comment_end(chars: Seq<char>, i: int) -> int
    decreases chars.len() - i,
{
    if i < chars.len() && chars[i] != '\n' {
        line_comment_end(chars, i + 1)
    } else {
        i
    }
}

/// The position of the `*` of the first closing `*/` at or after `i`.
pub open spec fn block_comment_close(chars: Seq<char>, i: int) -> Option<int>
    decreases chars.len() - i,
{
    if i + 1 < chars.len() {
        if chars[i] == '*' && chars[i + 1] == '/' {
            Some(i)
        } else {
            block_comment_close(chars, i + 1)
        }
    } else {
        None
    }
}

/// The position right after a run of identifier characters.
pub open spec fn ident_end(chars: Seq<char>, i: int) -> int
    decreases chars.len() - i,
{
    if i < chars.len() && is_ident_char_spec(chars[i]) {
        ident_end(chars, i + 1)
    } else {
        i
    }
}

/// Scans decimal digits from `i` accumulating the magnitude `mag`; fails
/// once the magnitude can no longer fit a signed 64-bit value.
pub open spec fn scan_digits(chars: Seq<char>, start: int, i: int, mag: int) -> Result<
    (int, int),
    ParseFail,
>
    decreases chars.len() - i,
{
    if i < chars.len() && is_digit_spec(chars[i]) {
        if mag >= 1_000_000_000_000_000_000 {
            Err(ParseFail { start, end: i, message: "number out of range"@ })
        } else {
            scan_digits(chars, start, i + 1, mag * 10 + (chars[i] as u32 - 48))
        }
    } else {
        Ok((mag, i))
    }
}

/// What scanning a number starting at `pos` yields: its value and the
/// position after its digits, or the failure.
pub open spec fn scan_number_spec(chars: Seq<char>, start: int, pos: int, neg: bool) -> Result<
    (i64, int),
    ParseFail,
> {
    match scan_digits(chars, start, pos, 0) {
        Err(f) => Err(f),
        Ok((mag, i)) => {
            if i == pos {
                Err(ParseFail { start, end: i, message: "expected digit"@ })
            } else if i < chars.len() && is_ident_char_spec(chars[i]) {
                Err(ParseFail { start, end: i + 1, message: "malformed number"@ })
            } else if neg {
                if mag > 9_223_372_036_854_775_808 {
                    Err(ParseFail { start, end: i, message: "number out of range"@ })
                } else if mag == 9_223_372_036_854_775_808 {
                    Ok((i64::MIN, i))
                } else {
                    Ok(((-mag) as i64, i))
                }
            } else {
                if mag > 9_223_372_036_854_775_807 {
                    Err(ParseFail { start, end: i, message: "number out of range"@ })
                } else {
                    Ok((mag as i64, i))
                }
            }
        }
    }
}

/// Which keyword an identifier spells, if any.
pub open spec fn keyword_kind_spec(s: Seq<char>) -> TokKindV {
    if s == "if"@ {
        TokKindV::KwIf
    } else if s == "else"@ {
        TokKindV::KwElse
    } else if s == "let"@ {
        TokKindV::KwLet
    } else if s == "in"@ {
        TokKindV::KwIn
    } else if s == "fix"@ {
        TokKindV::KwFix
    } else if s == "true"@ {
        TokKindV::True
    } else if s == "false"@ {
        TokKindV::False
    } else if s == "int"@ {
        TokKindV::KwInt
    } else if s == "bool"@ {
        TokKindV::KwBool
    } else if s == "diff"@ {
        TokKindV::KwDiff
    } else if s == "iszero"@ {
        TokKindV::KwIszero
    } else {
        TokKindV::Ident(s)
    }
}

/// The token a single symbol character makes, if any.
pub open spec fn symbol_kind_spec(c: char) -> Option<TokKindV> {
    if c == '$' {
        Some(TokKindV::Dollar)
    } else if c == '|' {
        Some(TokKindV::Bar)
    } else if c == '(' {
        Some(TokKindV::LParen)
    } else if c == ')' {
        Some(TokKindV::RParen)
    } else if c == '{' {
        Some(TokKindV::LBrace)
    } else if c == '}' {
        Some(TokKindV::RBrace)
    } else if c == '<' {
        Some(TokKindV::LAngle)
    } else if c == '>' {
        Some(TokKindV::RAngle)
    } else if c == ',' {
        Some(TokKindV::Comma)
    } else if c == ':' {
        Some(TokKindV::Colon)
    } else if c == '=' {
        Some(TokKindV::Equals)
    } else {
        None
    }
}

/// Prepends a token to a tokenisation that may have failed.
pub open spec fn tok_cons(t: TokenV, rest: Result<Seq<TokenV>, ParseFail>) -> Result<
    Seq<TokenV>,
    ParseFail,
> {
    match rest {
        Ok(s) => Ok(seq![t] + s),
        Err(f) => Err(f),
    }
}

/// Prepends already-made tokens to a tokenisation that may have failed.
pub open spec fn tok_prepend(prefix: Seq<TokenV>, rest: Result<Seq<TokenV>, ParseFail>) -> Result<
    Seq<TokenV>,
    ParseFail,
> {
    match rest {
        Ok(s) => Ok(prefix + s),
        Err(f) => Err(f),
    }
}

proof fn lemma_prepend_cons(prefix: Seq<TokenV>, t: TokenV, rest: Result<Seq<TokenV>, ParseFail>)
    ensures
        tok_prepend(prefix, tok_cons(t, rest)) == tok_prepend(prefix.push(t), rest),
{
    match rest {
        Ok(s) => {
            assert(prefix + (seq![t] + s) =~= prefix.push(t) + s);
        }
        Err(_) => {}
    }
}

/// The next scan position, clamped into `(p, n]` so that the scan makes
/// progress and stays in bounds; the clamp never fires on positions the
/// scan functions actually return.
pub open spec fn adv(p: int, q: int, n: int) -> int {
    if p < q && q <= n {
        q
    } else {
        p + 1
    }
}

/// The tokens of the source from position `pos` on, or the first lexical
/// failure.
pub open spec fn tokenize_from(chars: Seq<char>, pos: int) -> Result<Seq<TokenV>, ParseFail>
    decreases chars.len() - pos,
{
    if pos >= chars.len() {
        Ok(Seq::empty())
    } else {
        let c = chars[pos];
        if is_space_spec(c) {
            tokenize_from(chars, pos + 1)
        } else if c == '/' {
            if pos + 1 < chars.len() && chars[pos + 1] == '/' {
                tokenize_from(chars, adv(pos, line_comment_end(chars, pos + 2), chars.len() as int))
            } else if pos + 1 < chars.len() && chars[pos + 1] == '*' {
                match block_comment_close(chars, pos + 2) {
                    Some(j) => tokenize_from(chars, adv(pos, j + 2, chars.len() as int)),
                    None => Err(
                        ParseFail {
                            start: pos,
                            end: chars.len() as int,
                            message: "unterminated block comment"@,
                        },
                    ),
                }
            } else {
                Err(ParseFail { start: pos, end: pos + 1, message: "unexpected character"@ })
            }
        } else if is_ident_start_spec(c) {
            let end = adv(pos, ident_end(chars, pos + 1), chars.len() as int);
            tok_cons(
                TokenV {
                    kind: keyword_kind_spec(chars.subrange(pos, end)),
                    start: pos,
                    end,
                },
                tokenize_from(chars, end),
            )
        } else if is_digit_spec(c) {
            match scan_number_spec(chars, pos, pos, false) {
                Ok((v, i)) => {
                    let end = adv(pos, i, chars.len() as int);
                    tok_cons(
                        TokenV { kind: TokKindV::Number(v), start: pos, end },
                        tokenize_from(chars, end),
                    )
                }
                Err(f) => Err(f),
            }
        } else if c == '-' {
            if pos + 1 < chars.len() && chars[pos + 1] == '>' {
                tok_cons(
                    TokenV { kind: TokKindV::Arrow, start: pos, end: pos + 2 },
                    tokenize_from(chars, pos + 2),
                )
            } else if pos + 1 < chars.len() && is_digit_spec(chars[pos + 1]) {
                match scan_number_spec(chars, pos, pos + 1, true) {
                    Ok((v, i)) => {
                        let end = adv(pos, i, chars.len() as int);
                        tok_cons(
                            TokenV { kind: TokKindV::Number(v), start: pos, end },
                            tokenize_from(chars, end),
                        )
                    }
                    Err(f) => Err(f),
                }
            } else {
                Err(ParseFail { start: pos, end: pos + 1, message: "unexpected character"@ })
            }
        } else {
            match symbol_kind_spec(c) {
                Some(k) => tok_cons(
                    TokenV { kind: k, start: pos, end: pos + 1 },
                    tokenize_from(chars, pos + 1),
                ),
                None => Err(
                    ParseFail { start: pos, end: pos + 1, message: "unexpected character"@ },
                ),
            }
        }
    }
}

fn parse_err(msg: &str, start: usize, end: usize) -> (e: Error)
    ensures
        e matches Error::ParseError { message, start: s2, end: e2 } && message@ == msg@ && s2
            == start && e2 == end,
{
    Error::ParseError { message: msg.to_owned(), start, end }
}

/// The characters of a string slice, in order.
pub fn str_to_chars(s: &str) -> (r: Vec<char>)
    ensures
        r@ == s@,
{
    let n = s.unicode_len();
    let mut v: Vec<char> = Vec::new();
    let mut i: usize = 0;
    while i < n
        invariant
            n == s@.len(),
            i <= n,
            v@.len() == i,
            forall|j: int| 0 <= j < i ==> v@[j] == s@[j],
        decreases n - i,
    {
        v.push(s.get_char(i));
        i += 1;
    }
    proof {
        assert(v@ =~= s@);
    }
    v
}

fn is_ident_start(c: char) -> (r: bool)
    ensures
        r == is_ident_start_spec(c),
{
    let u = c as u32;
    (97 <= u && u <= 122) || (65 <= u && u <= 90) || c == '_'
}

fn is_digit(c: char) -> (r: bool)
    ensures
        r == is_digit_spec(c),
{
    let u = c as u32;
    48 <= u && u <= 57
}

fn is_ident_char(c: char) -> (r: bool)
    ensures
        r == is_ident_char_spec(c),
{
    is_ident_start(c) || is_digit(c)
}

fn keyword_kind(s: String) -> (r: TokKind)
    ensures
        token_kind_view(r) == keyword_kind_spec(s@),
{
    if str_eq(s.as_str(), "if") {
        TokKind::KwIf
    } else if str_eq(s.as_str(), "else") {
        TokKind::KwElse
    } else if str_eq(s.as_str(), "let") {
        TokKind::KwLet
    } else if str_eq(s.as_str(), "in") {
        TokKind::KwIn
    } else if str_eq(s.as_str(), "fix") {
        TokKind::KwFix
    } else if str_eq(s.as_str(), "true") {
        TokKind::True
    } else if str_eq(s.as_str(), "false") {
        TokKind::False
    } else if str_eq(s.as_str(), "int") {
        TokKind::KwInt
    } else if str_eq(s.as_str(), "bool") {
        TokKind::KwBool
    } else if str_eq(s.as_str(), "diff") {
        TokKind::KwDiff
    } else if str_eq(s.as_str(), "iszero") {
        TokKind::KwIszero
    } else {
        TokKind::Ident(s)
    }
}

/// Scans the digits of a decimal number starting at `pos`; `neg` tells
/// whether a minus sign preceded them. Rejects a number that does not fit
/// a signed 64-bit integer, and a number running into an identifier.
fn scan_number(chars: &Vec<char>, start: usize, pos: usize, neg: bool) -> (r: Result<
    (i64, usize),
    Error,
>)
    requires
        pos < chars.len(),
    ensures
        r matches Ok(p) ==> pos < p.1 <= chars.len(),
        r matches Err(e) ==> e is ParseError,
        ({
            let sres = scan_number_spec(chars@, start as int, pos as int, neg);
            match r {
                Ok(p) => sres matches Ok(q) && p.0 == q.0 && p.1 as int == q.1,
                Err(e) => sres matches Err(f) && parse_err_matches(e, f),
            }
        }),
{
    let n = chars.len();
    let mut i = pos;
    let mut mag: u128 = 0;
    while i < n && is_digit(chars[i])
        invariant
            n == chars.len(),
            pos <= i <= n,
            mag < 10_000_000_000_000_000_000u128,
            scan_digits(chars@, start as int, pos as int, 0) == scan_digits(
                chars@,
                start as int,
                i as int,
                mag as int,
            ),
        decreases n - i,
    {
        if mag >= 1_000_000_000_000_000_000u128 {
            return Err(parse_err("number out of range", start, i));
        }
        let d = (chars[i] as u32) - 48;
        mag = mag * 10 + (d as u128);
        i += 1;
    }
    if i == pos {
        return Err(parse_err("expected digit", start, i));
    }
    if i < n && is_ident_char(chars[i]) {
        return Err(parse_err("malformed number", start, i + 1));
    }
    let value: i64 = if neg {
        if mag > 9_223_372_036_854_775_808u128 {
            return Err(parse_err("number out of range", start, i));
        }
        if mag == 9_223_372_036_854_775_808u128 {
            i64::MIN
        } else {
            -(mag as i64)
        }
    } else {
        if mag > 9_223_372_036_854_775_807u128 {
            return Err(parse_err("number out of range", start, i));
        }
        mag as i64
    };
    Ok((value, i))
}

/// Turns the source characters into tokens, skipping whitespace, `//` line
/// comments and `/* */` block comments: the executable form of
/// `tokenize_from`, which its contract holds it to, error for error.
fn tokenize(chars: &Vec<char>) -> (r: Result<Vec<Token>, Error>)
    ensures
        r matches Ok(toks) ==> token_order(toks@) && tokens_bounded(toks@, chars.len() as nat)
            && tokenize_from(chars@, 0) == Ok::<Seq<TokenV>, ParseFail>(token_views(toks@)),
        r matches Err(e) ==> tokenize_from(chars@, 0) matches Err(f) && parse_err_matches(e, f),
{
    let n = chars.len();
    let mut toks: Vec<Token> = Vec::new();
    let mut pos: usize = 0;
    proof {
        assert(token_views(toks@) =~= Seq::<TokenV>::empty());
        match tokenize_from(chars@, 0) {
            Ok(s) => {
                assert(Seq::<TokenV>::empty() + s =~= s);
            }
            Err(_) => {}
        }
    }
    while pos < n
        invariant
            n == chars.len(),
            pos <= n,
            token_order(toks@),
            forall|k: int| 0 <= k < toks@.len() ==> (#[trigger] toks@[k]).end <= pos,
            tokenize_from(chars@, 0) == tok_prepend(
                token_views(toks@),
                tokenize_from(chars@, pos as int),
            ),
        decreases n - pos,
    {
        let ghost prefix = token_views(toks@);
        let c = chars[pos];
        if c == ' ' || c == '\t' || c == '\r' || c == '\n' {
            pos += 1;
        } else if c == '/' {
            if pos + 1 < n && chars[pos + 1] == '/' {
                let mut i = pos + 2;
                while i < n && chars[i] != '\n'
                    invariant
                        n == chars.len(),
                        pos + 2 <= i <= n,
                        line_comment_end(chars@, pos + 2) == line_comment_end(chars@, i as int),
                    decreases n - i,
                {
                    i += 1;
                }
                proof {
                    assert(line_comment_end(chars@, i as int) == i);
                }
                pos = i;
            } else if pos + 1 < n && chars[pos + 1] == '*' {
                let mut i = pos + 2;
                let mut close: Option<usize> = None;
                while i < n && i + 1 < n && close.is_none()
                    invariant
                        n == chars.len(),
                        pos + 2 <= i <= n,
                        match close {
                            Some(j) => pos + 2 <= j && j + 2 <= n && block_comment_close(
                                chars@,
                                pos + 2,
                            ) == Some(j as int),
                            None => block_comment_close(chars@, pos + 2) == block_comment_close(
                                chars@,
                                i as int,
                            ),
                        },
                    decreases n - i,
                {
                    if chars[i] == '*' && chars[i + 1] == '/' {
                        close = Some(i);
                        i = n;
                    } else {
                        i += 1;
                    }
                }
                match close {
                    Some(j) => {
                        pos = j + 2;
                    }
                    None => {
                        return Err(parse_err("unterminated block comment", pos, n));
                    }
                }
            } else {
                return Err(parse_err("unexpected character", pos, pos + 1));
            }
        } else if is_ident_start(c) {
            let start = pos;
            let mut s = String::new();
            crate::strutil::push_char(&mut s, c);
            proof {
                assert(s@ =~= chars@.subrange(pos as int, pos + 1));
            }
            let mut i = pos + 1;
            while i < n && is_ident_char(chars[i])
                invariant
                    n == chars.len(),
                    start == pos,
                    start < i <= n,
                    s@ == chars@.subrange(pos as int, i as int),
                    ident_end(chars@, pos + 1) == ident_end(chars@, i as int),
                decreases n - i,
            {
                crate::strutil::push_char(&mut s, chars[i]);
                i += 1;
                proof {
                    assert(s@ =~= chars@.subrange(pos as int, i as int));
                }
            }
            proof {
                assert(ident_end(chars@, i as int) == i);
            }
            let tok = Token { kind: keyword_kind(s), start, end: i };
            proof {
                lemma_prepend_cons(prefix, token_view(tok), tokenize_from(chars@, i as int));
                assert(token_views(toks@.push(tok)) =~= prefix.push(token_view(tok)));
            }
            toks.push(tok);
            pos = i;
        } else if is_digit(c) {
            let start = pos;
            match scan_number(chars, start, pos, false) {
                Ok((value, i)) => {
                    let tok = Token { kind: TokKind::Number(value), start, end: i };
                    proof {
                        lemma_prepend_cons(
                            prefix,
                            token_view(tok),
                            tokenize_from(chars@, i as int),
                        );
                        assert(token_views(toks@.push(tok)) =~= prefix.push(token_view(tok)));
                    }
                    toks.push(tok);
                    pos = i;
                }
                Err(e) => {
                    return Err(e);
                }
            }
        } else if c == '-' {
            if pos + 1 < n && chars[pos + 1] == '>' {
                let tok = Token { kind: TokKind::Arrow, start: pos, end: pos + 2 };
                proof {
                    lemma_prepend_cons(
                        prefix,
                        token_view(tok),
                        tokenize_from(chars@, pos + 2),
                    );
                    assert(token_views(toks@.push(tok)) =~= prefix.push(token_view(tok)));
                }
                toks.push(tok);
                pos = pos + 2;
            } else if pos + 1 < n && is_digit(chars[pos + 1]) {
                let start = pos;
                match scan_number(chars, start, pos + 1, true) {
                    Ok((value, i)) => {
                        let tok = Token { kind: TokKind::Number(value), start, end: i };
                        proof {
                            lemma_prepend_cons(
                                prefix,
                                token_view(tok),
                                tokenize_from(chars@, i as int),
                            );
                            assert(token_views(toks@.push(tok)) =~= prefix.push(
                                token_view(tok),
                            ));
                        }
                        toks.push(tok);
                        pos = i;
                    }
                    Err(e) => {
                        return Err(e);
                    }
                }
            } else {
                return Err(parse_err("unexpected character", pos, pos + 1));
            }
        } else {
            let kind = if c == '$' {
                TokKind::Dollar
            } else if c == '|' {
                TokKind::Bar
            } else if c == '(' {
                TokKind::LParen
            } else if c == ')' {
                TokKind::RParen
            } else if c == '{' {
                TokKind::LBrace
            } else if c == '}' {
                TokKind::RBrace
            } else if c == '<' {
                TokKind::LAngle
            } else if c == '>' {
                TokKind::RAngle
            } else if c == ',' {
                TokKind::Comma
            } else if c == ':' {
                TokKind::Colon
            } else if c == '=' {
                TokKind::Equals
            } else {
                return Err(parse_err("unexpected character", pos, pos + 1));
            };
            let tok = Token { kind, start: pos, end: pos + 1 };
            proof {
                lemma_prepend_cons(prefix, token_view(tok), tokenize_from(chars@, pos + 1));
                assert(token_views(toks@.push(tok)) =~= prefix.push(token_view(tok)));
            }
            toks.push(tok);
            pos += 1;
        }
    }
    proof {
        assert(tokenize_from(chars@, pos as int) == Ok::<Seq<TokenV>, ParseFail>(
            Seq::<TokenV>::empty(),
        ));
        assert(token_views(toks@) + Seq::<TokenV>::empty() =~= token_views(toks@));
    }
    Ok(toks)
}


/// The failure reported at an unexpected end of input.
pub open spec fn eof_fail(toks: Seq<TokenV>) -> ParseFail {
    let at = if toks.len() > 0 {
        toks[toks.len() - 1].end
    } else {
        0
    };
    ParseFail { start: at, end: at, message: "unexpected end of input"@ }
}

pub open spec fn expect_lbrace_spec(toks: Seq<TokenV>, pos: int) -> Result<int, ParseFail> {
    if 0 <= pos < toks.len() {
        if toks[pos].kind is LBrace {
            Ok(pos + 1)
        } else {
            Err(
                ParseFail {
                    start: toks[pos].start,
                    end: toks[pos].end,
                    message: "expected opening brace"@,
                },
            )
        }
    } else {
        Err(eof_fail(toks))
    }
}

pub open spec fn expect_rbrace_spec(toks: Seq<TokenV>, pos: int) -> Result<int, ParseFail> {
    if 0 <= pos < toks.len() {
        if toks[pos].kind is RBrace {
            Ok(pos + 1)
        } else {
            Err(
                ParseFail {
                    start: toks[pos].start,
                    end: toks[pos].end,
                    message: "expected closing brace"@,
                },
            )
        }
    } else {
        Err(eof_fail(toks))
    }
}

pub open spec fn expect_rparen_spec(toks: Seq<TokenV>, pos: int) -> Result<int, ParseFail> {
    if 0 <= pos < toks.len() {
        if toks[pos].kind is RParen {
            Ok(pos + 1)
        } else {
            Err(
                ParseFail {
                    start: toks[pos].start,
                    end: toks[pos].end,
                    message: "expected closing parenthesis"@,
                },
            )
        }
    } else {
        Err(eof_fail(toks))
    }
}

pub open spec fn expect_ident_spec(toks: Seq<TokenV>, pos: int) -> Result<
    (Seq<char>, int),
    ParseFail,
> {
    if 0 <= pos < toks.len() {
        match toks[pos].kind {
            TokKindV::Ident(s) => Ok((s, pos + 1)),
            _ => Err(
                ParseFail {
                    start: toks[pos].start,
                    end: toks[pos].end,
                    message: "expected identifier"@,
                },
            ),
        }
    } else {
        Err(eof_fail(toks))
    }
}

/// A failure at the given token.
pub open spec fn at_fail(toks: Seq<TokenV>, pos: int, msg: Seq<char>) -> ParseFail {
    ParseFail { start: toks[pos].start, end: toks[pos].end, message: msg }
}

/// What parsing an expression from token `pos` yields: the tree, the next
/// token position, and the character position where the leading primary
/// ends.
pub open spec fn parse_expr_spec(toks: Seq<TokenV>, pos: int) -> Result<
    (TermCtxV, int, int),
    ParseFail,
>
    decreases toks.len() - pos, 3int,
{
    if pos >= toks.len() || pos < 0 {
        Err(eof_fail(toks))
    } else {
        match parse_primary_spec(toks, pos) {
            Err(f) => Err(f),
            Ok((first, cur0, prim_end)) => parse_app_loop(
                toks,
                first,
                adv(pos, cur0, toks.len() as int),
                prim_end,
            ),
        }
    }
}

/// Folds parenthesized application arguments onto `term1` while the next
/// token opens one.
pub open spec fn parse_app_loop(toks: Seq<TokenV>, term1: TermCtxV, cur: int, prim_end: int) -> Result<
    (TermCtxV, int, int),
    ParseFail,
>
    decreases toks.len() - cur, 4int,
{
    if 0 <= cur < toks.len() && toks[cur].kind is LParen {
        match parse_expr_spec(toks, cur + 1) {
            Err(f) => Err(f),
            Ok((arg, cur2, _)) => {
                let cur2 = adv(cur, cur2, toks.len() as int);
                match expect_rparen_spec(toks, cur2) {
                    Err(f) => Err(f),
                    Ok(cur3) => parse_app_loop(
                        toks,
                        TermCtxV {
                            ctx: Context {
                                start: term1.ctx.start,
                                end: arg.ctx.end,
                            },
                            term: TermV::Application(Box::new(term1), Box::new(arg)),
                        },
                        cur3,
                        prim_end,
                    ),
                }
            }
        }
    } else {
        Ok((term1, cur, prim_end))
    }
}

/// What parsing a conditional from the `if` keyword at `pos` yields.
pub open spec fn parse_conditional_spec(toks: Seq<TokenV>, pos: int) -> Result<
    (TermCtxV, int, int),
    ParseFail,
>
    decreases toks.len() - pos, 1int,
{
    let n = toks.len() as int;
    if !(0 <= pos < n) {
        Err(eof_fail(toks))
    } else {
        let tok_start = toks[pos].start;
        let tok_end = toks[pos].end;
        
            match parse_expr_spec(toks, pos + 1) {
                Err(f) => Err(f),
                Ok((cond, c1, cond_prim_end)) => {
                    let c1 = adv(pos, c1, n);
                    match expect_lbrace_spec(toks, c1) {
                        Err(f) => Err(f),
                        Ok(c2) => match parse_expr_spec(toks, c2) {
                            Err(f) => Err(f),
                            Ok((then_t, c3, _)) => {
                                let c3 = adv(pos, c3, n);
                                match expect_rbrace_spec(toks, c3) {
                                    Err(f) => Err(f),
                                    Ok(c4) => {
                                        if c4 >= n {
                                            Err(eof_fail(toks))
                                        } else if !(toks[c4].kind is KwElse) {
                                            Err(at_fail(toks, c4, "expected else"@))
                                        } else {
                                            match expect_lbrace_spec(toks, c4 + 1) {
                                                Err(f) => Err(f),
                                                Ok(c6) => match parse_expr_spec(toks, c6) {
                                                    Err(f) => Err(f),
                                                    Ok((else_t, c7, _)) => {
                                                        let c7 = adv(pos, c7, n);
                                                        match expect_rbrace_spec(toks, c7) {
                                                            Err(f) => Err(f),
                                                            Ok(c8) => Ok(
                                                                (
                                                                    TermCtxV {
                                                                        ctx: Context {
                                                                            start: tok_start as usize,
                                                                            end: cond_prim_end as usize,
                                                                        },
                                                                        term: TermV::Conditional(
                                                                            Box::new(cond),
                                                                            Box::new(then_t),
                                                                            Box::new(else_t),
                                                                        ),
                                                                    },
                                                                    c8,
                                                                    toks[c7].end,
                                                                ),
                                                            ),
                                                        }
                                                    }
                                                },
                                            }
                                        }
                                    }
                                }
                            }
                        },
                    }
                }
            }
        
    }
}

/// What parsing a `let` or destructuring `let` from the keyword at `pos`
/// yields.
pub open spec fn parse_let_spec(toks: Seq<TokenV>, pos: int) -> Result<
    (TermCtxV, int, int),
    ParseFail,
>
    decreases toks.len() - pos, 1int,
{
    let n = toks.len() as int;
    if !(0 <= pos < n) {
        Err(eof_fail(toks))
    } else {
        let tok_start = toks[pos].start;
        let tok_end = toks[pos].end;
        
            let is_letc = pos + 1 < n && toks[pos + 1].kind is LAngle;
            if is_letc {
                match expect_ident_spec(toks, pos + 2) {
                    Err(f) => Err(f),
                    Ok((x1, c1)) => {
                        if c1 >= n {
                            Err(eof_fail(toks))
                        } else if !(toks[c1].kind is Comma) {
                            Err(at_fail(toks, c1, "expected comma"@))
                        } else {
                            match expect_ident_spec(toks, c1 + 1) {
                                Err(f) => Err(f),
                                Ok((x2, c2)) => {
                                    if c2 >= n {
                                        Err(eof_fail(toks))
                                    } else if !(toks[c2].kind is RAngle) {
                                        Err(at_fail(toks, c2, "expected closing angle"@))
                                    } else if c2 + 1 >= n {
                                        Err(eof_fail(toks))
                                    } else if !(toks[c2 + 1].kind is Equals) {
                                        Err(at_fail(toks, c2 + 1, "expected equals sign"@))
                                    } else {
                                        match parse_expr_spec(toks, c2 + 2) {
                                            Err(f) => Err(f),
                                            Ok((t1, c3, _)) => {
                                                let c3 = adv(pos, c3, n);
                                                if c3 >= n {
                                                    Err(eof_fail(toks))
                                                } else if !(toks[c3].kind is KwIn) {
                                                    Err(at_fail(toks, c3, "expected in"@))
                                                } else {
                                                    match parse_expr_spec(toks, c3 + 1) {
                                                        Err(f) => Err(f),
                                                        Ok((t2, fin, _)) => Ok(
                                                            (
                                                                TermCtxV {
                                                                    ctx: Context {
                                                                        start: tok_start as usize,
                                                                        end: tok_end as usize,
                                                                    },
                                                                    term: TermV::Letc(
                                                                        x1,
                                                                        x2,
                                                                        Box::new(t1),
                                                                        Box::new(t2),
                                                                    ),
                                                                },
                                                                fin,
                                                                t2.ctx.end as int,
                                                            ),
                                                        ),
                                                    }
                                                }
                                            }
                                        }
                                    }
                                }
                            }
                        }
                    }
                }
            } else {
                match expect_ident_spec(toks, pos + 1) {
                    Err(f) => Err(f),
                    Ok((x, c1)) => {
                        if c1 >= n {
                            Err(eof_fail(toks))
                        } else if !(toks[c1].kind is Equals) {
                            Err(at_fail(toks, c1, "expected equals sign"@))
                        } else {
                            match parse_expr_spec(toks, c1 + 1) {
                                Err(f) => Err(f),
                                Ok((t1, c2, _)) => {
                                    let c2 = adv(pos, c2, n);
                                    if c2 >= n {
                                        Err(eof_fail(toks))
                                    } else if !(toks[c2].kind is KwIn) {
                                        Err(at_fail(toks, c2, "expected in"@))
                                    } else {
                                        match parse_expr_spec(toks, c2 + 1) {
                                            Err(f) => Err(f),
                                            Ok((t2, fin, _)) => Ok(
                                                (
                                                    TermCtxV {
                                                        ctx: Context {
                                                            start: tok_start as usize,
                                                            end: tok_end as usize,
                                                        },
                                                        term: TermV::Let(
                                                            x,
                                                            Box::new(t1),
                                                            Box::new(t2),
                                                        ),
                                                    },
                                                    fin,
                                                    t2.ctx.end as int,
                                                ),
                                            ),
                                        }
                                    }
                                }
                            }
                        }
                    }
                }
            }
        
    }
}

/// What parsing one primary form from token `pos` yields.
pub open spec fn parse_primary_spec(toks: Seq<TokenV>, pos: int) -> Result<
    (TermCtxV, int, int),
    ParseFail,
>
    decreases toks.len() - pos, 2int,
{
    let n = toks.len() as int;
    if !(0 <= pos < n) {
        Err(eof_fail(toks))
    } else {
    let tok_start = toks[pos].start;
    let tok_end = toks[pos].end;
    match toks[pos].kind {
        TokKindV::Ident(s) => Ok(
            (
                TermCtxV {
                    ctx: Context { start: tok_start as usize, end: tok_end as usize },
                    term: TermV::Variable(s),
                },
                pos + 1,
                tok_end,
            ),
        ),
        TokKindV::True => Ok(
            (
                TermCtxV {
                    ctx: Context { start: tok_start as usize, end: tok_end as usize },
                    term: TermV::Boolean(Qualifier::Nop, true),
                },
                pos + 1,
                tok_end,
            ),
        ),
        TokKindV::False => Ok(
            (
                TermCtxV {
                    ctx: Context { start: tok_start as usize, end: tok_end as usize },
                    term: TermV::Boolean(Qualifier::Nop, false),
                },
                pos + 1,
                tok_end,
            ),
        ),
        TokKindV::Number(v) => Ok(
            (
                TermCtxV {
                    ctx: Context { start: tok_start as usize, end: tok_end as usize },
                    term: TermV::Integer(Qualifier::Nop, v),
                },
                pos + 1,
                tok_end,
            ),
        ),
        TokKindV::LAngle => parse_compound_spec(toks, pos, pos, Qualifier::Nop),
        TokKindV::Dollar => {
            if pos + 1 >= n {
                Err(eof_fail(toks))
            } else {
                match toks[pos + 1].kind {
                    TokKindV::True => Ok(
                        (
                            TermCtxV {
                                ctx: Context {
                                    start: tok_start as usize,
                                    end: toks[pos + 1].end as usize,
                                },
                                term: TermV::Boolean(Qualifier::Linear, true),
                            },
                            pos + 2,
                            toks[pos + 1].end,
                        ),
                    ),
                    TokKindV::False => Ok(
                        (
                            TermCtxV {
                                ctx: Context {
                                    start: tok_start as usize,
                                    end: toks[pos + 1].end as usize,
                                },
                                term: TermV::Boolean(Qualifier::Linear, false),
                            },
                            pos + 2,
                            toks[pos + 1].end,
                        ),
                    ),
                    TokKindV::Number(v) => Ok(
                        (
                            TermCtxV {
                                ctx: Context {
                                    start: tok_start as usize,
                                    end: toks[pos + 1].end as usize,
                                },
                                term: TermV::Integer(Qualifier::Linear, v),
                            },
                            pos + 2,
                            toks[pos + 1].end,
                        ),
                    ),
                    TokKindV::LAngle => parse_compound_spec(toks, pos + 1, pos, Qualifier::Linear),
                    TokKindV::Bar => parse_abstraction_spec(toks, pos + 1, pos, Qualifier::Linear),
                    TokKindV::KwDiff => parse_diff_spec(toks, pos + 1, Qualifier::Linear),
                    TokKindV::KwIszero => parse_iszero_spec(toks, pos + 1, Qualifier::Linear),
                    _ => Err(
                        at_fail(
                            toks,
                            pos + 1,
                            "expected literal, abstraction or primitive after qualifier"@,
                        ),
                    ),
                }
            }
        }
        TokKindV::Bar => parse_abstraction_spec(toks, pos, pos, Qualifier::Nop),
        TokKindV::KwDiff => parse_diff_spec(toks, pos, Qualifier::Nop),
        TokKindV::KwIszero => parse_iszero_spec(toks, pos, Qualifier::Nop),
        TokKindV::KwIf => parse_conditional_spec(toks, pos),
        TokKindV::LParen => {
            match parse_expr_spec(toks, pos + 1) {
                Err(f) => Err(f),
                Ok((inner, c1, _)) => {
                    let c1 = adv(pos, c1, n);
                    match expect_rparen_spec(toks, c1) {
                        Err(f) => Err(f),
                        Ok(c2) => Ok((inner, c2, toks[c1].end)),
                    }
                }
            }
        }
        TokKindV::KwFix => {
            match parse_expr_spec(toks, pos + 1) {
                Err(f) => Err(f),
                Ok((inner, c1, _)) => Ok(
                    (
                        TermCtxV {
                            ctx: Context { start: tok_start as usize, end: tok_end as usize },
                            term: TermV::Fix(Box::new(inner)),
                        },
                        c1,
                        inner.ctx.end as int,
                    ),
                ),
            }
        }
        TokKindV::KwLet => parse_let_spec(toks, pos),
        _ => Err(at_fail(toks, pos, "unexpected token"@)),
    }
    }
}

/// What parsing a compound literal from the opening angle at `pos` yields;
/// `qpos` stands on the qualifier or the opening angle.
pub open spec fn parse_compound_spec(toks: Seq<TokenV>, pos: int, qpos: int, q: Qualifier) -> Result<
    (TermCtxV, int, int),
    ParseFail,
>
    decreases toks.len() - qpos, 1int,
{
    let n = toks.len() as int;
    if !(0 <= qpos <= pos < n) {
        Err(eof_fail(toks))
    } else {
    match parse_expr_spec(toks, pos + 1) {
        Err(f) => Err(f),
        Ok((t1, c1, _)) => {
            let c1 = adv(qpos, c1, n);
            if c1 >= n {
                Err(eof_fail(toks))
            } else if !(toks[c1].kind is Comma) {
                Err(at_fail(toks, c1, "expected comma"@))
            } else {
                match parse_expr_spec(toks, c1 + 1) {
                    Err(f) => Err(f),
                    Ok((t2, c2, _)) => {
                        let c2 = adv(qpos, c2, n);
                        if c2 >= n {
                            Err(eof_fail(toks))
                        } else if !(toks[c2].kind is RAngle) {
                            Err(at_fail(toks, c2, "expected closing angle"@))
                        } else {
                            Ok(
                                (
                                    TermCtxV {
                                        ctx: Context {
                                            start: toks[c1].start as usize,
                                            end: toks[c1].end as usize,
                                        },
                                        term: TermV::Compound(q, Box::new(t1), Box::new(t2)),
                                    },
                                    c2 + 1,
                                    toks[c2].end,
                                ),
                            )
                        }
                    }
                }
            }
        }
    }
    }
}

/// What parsing an abstraction from the opening bar at `pos` yields;
/// `qpos` stands on the qualifier or the opening bar.
pub open spec fn parse_abstraction_spec(toks: Seq<TokenV>, pos: int, qpos: int, q: Qualifier) -> Result<
    (TermCtxV, int, int),
    ParseFail,
>
    decreases toks.len() - qpos, 1int,
{
    let n = toks.len() as int;
    if !(0 <= qpos <= pos < n) {
        Err(eof_fail(toks))
    } else {
    match expect_ident_spec(toks, pos + 1) {
        Err(f) => Err(f),
        Ok((x, c1)) => {
            if c1 >= n {
                Err(eof_fail(toks))
            } else {
                let annotated = toks[c1].kind is Colon;
                let annot_res: Result<(Option<Type>, int), ParseFail> = if annotated {
                    match parse_typing_spec(toks, c1 + 1) {
                        Err(f) => Err(f),
                        Ok((ty, c2)) => Ok((Some(ty), adv(qpos, c2, n))),
                    }
                } else {
                    Ok((None, c1))
                };
                match annot_res {
                    Err(f) => Err(f),
                    Ok((annot, c2)) => {
                        if c2 >= n {
                            Err(eof_fail(toks))
                        } else if !(toks[c2].kind is Bar) {
                            Err(at_fail(toks, c2, "expected closing bar"@))
                        } else {
                            match parse_expr_spec(toks, c2 + 1) {
                                Err(f) => Err(f),
                                Ok((body, fin, _)) => Ok(
                                    (
                                        TermCtxV {
                                            ctx: Context {
                                                start: toks[qpos].start as usize,
                                                end: toks[c2].end as usize,
                                            },
                                            term: TermV::Abstraction(
                                                q,
                                                x,
                                                annot,
                                                Box::new(body),
                                            ),
                                        },
                                        fin,
                                        body.ctx.end as int,
                                    ),
                                ),
                            }
                        }
                    }
                }
            }
        }
    }
    }
}

/// What parsing `diff(e1, e2)` from the keyword at `pos` yields.
pub open spec fn parse_diff_spec(toks: Seq<TokenV>, pos: int, q: Qualifier) -> Result<
    (TermCtxV, int, int),
    ParseFail,
>
    decreases toks.len() - pos, 1int,
{
    let n = toks.len() as int;
    if !(0 <= pos) || pos + 1 >= n {
        Err(eof_fail(toks))
    } else if !(toks[pos + 1].kind is LParen) {
        Err(at_fail(toks, pos + 1, "expected opening parenthesis"@))
    } else {
        match parse_expr_spec(toks, pos + 2) {
            Err(f) => Err(f),
            Ok((t1, c1, _)) => {
                let c1 = adv(pos, c1, n);
                if c1 >= n {
                    Err(eof_fail(toks))
                } else if !(toks[c1].kind is Comma) {
                    Err(at_fail(toks, c1, "expected comma"@))
                } else {
                    match parse_expr_spec(toks, c1 + 1) {
                        Err(f) => Err(f),
                        Ok((t2, c2, _)) => {
                            let c2 = adv(pos, c2, n);
                            match expect_rparen_spec(toks, c2) {
                                Err(f) => Err(f),
                                Ok(c3) => Ok(
                                    (
                                        TermCtxV {
                                            ctx: Context {
                                                start: toks[pos].start as usize,
                                                end: toks[pos].end as usize,
                                            },
                                            term: TermV::Arith2(
                                                q,
                                                crate::syntax::ArithOp::Diff,
                                                Box::new(t1),
                                                Box::new(t2),
                                            ),
                                        },
                                        c3,
                                        toks[c2].end,
                                    ),
                                ),
                            }
                        }
                    }
                }
            }
        }
    }
}

/// What parsing `iszero(e)` from the keyword at `pos` yields.
pub open spec fn parse_iszero_spec(toks: Seq<TokenV>, pos: int, q: Qualifier) -> Result<
    (TermCtxV, int, int),
    ParseFail,
>
    decreases toks.len() - pos, 1int,
{
    let n = toks.len() as int;
    if !(0 <= pos) || pos + 1 >= n {
        Err(eof_fail(toks))
    } else if !(toks[pos + 1].kind is LParen) {
        Err(at_fail(toks, pos + 1, "expected opening parenthesis"@))
    } else {
        match parse_expr_spec(toks, pos + 2) {
            Err(f) => Err(f),
            Ok((t1, c1, _)) => {
                let c1 = adv(pos, c1, n);
                match expect_rparen_spec(toks, c1) {
                    Err(f) => Err(f),
                    Ok(c2) => Ok(
                        (
                            TermCtxV {
                                ctx: Context {
                                    start: toks[pos].start as usize,
                                    end: toks[pos].end as usize,
                                },
                                term: TermV::Arith1(
                                    q,
                                    crate::syntax::ArithOp::IsZero,
                                    Box::new(t1),
                                ),
                            },
                            c2,
                            toks[c1].end,
                        ),
                    ),
                }
            }
        }
    }
}

/// The right-associative arrow fold, in the order the atoms were read.
pub open spec fn fold_arrows_with(atoms: Seq<Type>, acc: Type) -> Type
    decreases atoms.len(),
{
    if atoms.len() == 0 {
        acc
    } else {
        fold_arrows_with(
            atoms.drop_last(),
            Type(Qualifier::Nop, Pretype::Function(Box::new(atoms.last()), Box::new(acc))),
        )
    }
}

/// Collects further arrow-separated type atoms.
pub open spec fn parse_typing_arrows(toks: Seq<TokenV>, atoms: Seq<Type>, cur: int) -> Result<
    (Seq<Type>, int),
    ParseFail,
>
    decreases toks.len() - cur, 4int,
{
    if 0 <= cur < toks.len() && toks[cur].kind is Arrow {
        match parse_typing0_spec(toks, cur + 1) {
            Err(f) => Err(f),
            Ok((next, c2)) => parse_typing_arrows(
                toks,
                atoms.push(next),
                adv(cur, c2, toks.len() as int),
            ),
        }
    } else {
        Ok((atoms, cur))
    }
}

/// What parsing a type expression from token `pos` yields.
pub open spec fn parse_typing_spec(toks: Seq<TokenV>, pos: int) -> Result<(Type, int), ParseFail>
    decreases toks.len() - pos, 2int,
{
    if !(0 <= pos < toks.len()) {
        Err(eof_fail(toks))
    } else {
    match parse_typing0_spec(toks, pos) {
        Err(f) => Err(f),
        Ok((first, c0)) => match parse_typing_arrows(
            toks,
            seq![first],
            adv(pos, c0, toks.len() as int),
        ) {
            Err(f) => Err(f),
            Ok((atoms, cur)) => Ok((fold_arrows_with(atoms.drop_last(), atoms.last()), cur)),
        },
    }
    }
}

/// What parsing one type atom from token `pos` yields.
pub open spec fn parse_typing0_spec(toks: Seq<TokenV>, pos: int) -> Result<(Type, int), ParseFail>
    decreases toks.len() - pos, 1int,
{
    let n = toks.len() as int;
    if pos >= n || pos < 0 {
        Err(eof_fail(toks))
    } else {
        let has_qual = toks[pos].kind is Dollar;
        let cur = if has_qual {
            pos + 1
        } else {
            pos
        };
        if cur >= n {
            Err(eof_fail(toks))
        } else {
            let inner_res: Result<(Type, int), ParseFail> = match toks[cur].kind {
                TokKindV::KwInt => Ok((Type(Qualifier::Nop, Pretype::Integer), cur + 1)),
                TokKindV::KwBool => Ok((Type(Qualifier::Nop, Pretype::Boolean), cur + 1)),
                TokKindV::LParen => match parse_typing_spec(toks, cur + 1) {
                    Err(f) => Err(f),
                    Ok((ty, c2)) => match expect_rparen_spec(toks, adv(pos, c2, n)) {
                        Err(f) => Err(f),
                        Ok(c3) => Ok((ty, c3)),
                    },
                },
                TokKindV::LAngle => match parse_typing_spec(toks, cur + 1) {
                    Err(f) => Err(f),
                    Ok((ty1, c2)) => {
                        let c2 = adv(pos, c2, n);
                        if c2 >= n {
                            Err(eof_fail(toks))
                        } else if !(toks[c2].kind is Comma) {
                            Err(at_fail(toks, c2, "expected comma"@))
                        } else {
                            match parse_typing_spec(toks, c2 + 1) {
                                Err(f) => Err(f),
                                Ok((ty2, c4)) => {
                                    let c4 = adv(pos, c4, n);
                                    if c4 >= n {
                                        Err(eof_fail(toks))
                                    } else if !(toks[c4].kind is RAngle) {
                                        Err(at_fail(toks, c4, "expected closing angle"@))
                                    } else {
                                        Ok(
                                            (
                                                Type(
                                                    Qualifier::Nop,
                                                    Pretype::Compound(
                                                        Box::new(ty1),
                                                        Box::new(ty2),
                                                    ),
                                                ),
                                                c4 + 1,
                                            ),
                                        )
                                    }
                                }
                            }
                        }
                    }
                },
                _ => Err(at_fail(toks, cur, "expected type"@)),
            };
            match inner_res {
                Err(f) => Err(f),
                Ok((inner, cur2)) => {
                    if has_qual {
                        match inner.0 {
                            Qualifier::Nop => Ok((Type(Qualifier::Linear, inner.1), cur2)),
                            Qualifier::Linear => Err(
                                ParseFail {
                                    start: toks[cur].start,
                                    end: toks[cur].end,
                                    message: "incompatible qualifiers"@,
                                },
                            ),
                        }
                    } else {
                        Ok((inner, cur2))
                    }
                }
            }
        }
    }
}

/// What parsing a whole program from its source characters yields.
pub open spec fn parse_spec(s: Seq<char>) -> Result<TermCtxV, ParseFail> {
    match tokenize_from(s, 0) {
        Err(f) => Err(f),
        Ok(toks) => {
            if toks.len() == 0 {
                Err(ParseFail { start: 0, end: 0, message: "empty program"@ })
            } else {
                match parse_expr_spec(toks, 0) {
                    Err(f) => Err(f),
                    Ok((t, cur, _)) => {
                        if cur < toks.len() {
                            Err(at_fail(toks, cur, "expected end of input"@))
                        } else {
                            Ok(t)
                        }
                    }
                }
            }
        }
    }
}

fn eof_err(toks: &Vec<Token>) -> (e: Error)
    ensures
        e is ParseError,
        parse_err_matches(e, eof_fail(token_views(toks@))),
{
    proof {
        if toks@.len() > 0 {
            assert(token_views(toks@)[toks@.len() - 1] == token_view(toks@[toks@.len() - 1]));
        }
        assert(token_views(toks@).len() == toks@.len());
    }
    let at = if toks.len() > 0 {
        toks[toks.len() - 1].end
    } else {
        0
    };
    parse_err("unexpected end of input", at, at)
}

fn expect_lbrace(toks: &Vec<Token>, pos: usize) -> (r: Result<usize, Error>)
    ensures
        r matches Ok(p) ==> p == pos + 1 && pos < toks.len(),
        r matches Err(e) ==> e is ParseError,
        ({
            let sres = expect_lbrace_spec(token_views(toks@), pos as int);
            match r {
                Ok(p) => sres matches Ok(q) && p as int == q,
                Err(e) => sres matches Err(f) && parse_err_matches(e, f),
            }
        }),
{
    proof {
        if pos < toks@.len() {
            assert(token_views(toks@)[pos as int] == token_view(toks@[pos as int]));
            lemma_token_kind_view_variant(toks@[pos as int].kind);
        }
    }
    if pos < toks.len() {
        match &toks[pos].kind {
            TokKind::LBrace => Ok(pos + 1),
            _ => Err(parse_err("expected opening brace", toks[pos].start, toks[pos].end)),
        }
    } else {
        Err(eof_err(toks))
    }
}

fn expect_rbrace(toks: &Vec<Token>, pos: usize) -> (r: Result<usize, Error>)
    ensures
        r matches Ok(p) ==> p == pos + 1 && pos < toks.len(),
        r matches Err(e) ==> e is ParseError,
        ({
            let sres = expect_rbrace_spec(token_views(toks@), pos as int);
            match r {
                Ok(p) => sres matches Ok(q) && p as int == q,
                Err(e) => sres matches Err(f) && parse_err_matches(e, f),
            }
        }),
{
    proof {
        if pos < toks@.len() {
            assert(token_views(toks@)[pos as int] == token_view(toks@[pos as int]));
            lemma_token_kind_view_variant(toks@[pos as int].kind);
        }
    }
    if pos < toks.len() {
        match &toks[pos].kind {
            TokKind::RBrace => Ok(pos + 1),
            _ => Err(parse_err("expected closing brace", toks[pos].start, toks[pos].end)),
        }
    } else {
        Err(eof_err(toks))
    }
}

fn expect_rparen(toks: &Vec<Token>, pos: usize) -> (r: Result<usize, Error>)
    ensures
        r matches Ok(p) ==> p == pos + 1 && pos < toks.len(),
        r matches Err(e) ==> e is ParseError,
        ({
            let sres = expect_rparen_spec(token_views(toks@), pos as int);
            match r {
                Ok(p) => sres matches Ok(q) && p as int == q,
                Err(e) => sres matches Err(f) && parse_err_matches(e, f),
            }
        }),
{
    proof {
        if pos < toks@.len() {
            assert(token_views(toks@)[pos as int] == token_view(toks@[pos as int]));
            lemma_token_kind_view_variant(toks@[pos as int].kind);
        }
    }
    if pos < toks.len() {
        match &toks[pos].kind {
            TokKind::RParen => Ok(pos + 1),
            _ => Err(parse_err("expected closing parenthesis", toks[pos].start, toks[pos].end)),
        }
    } else {
        Err(eof_err(toks))
    }
}

fn expect_ident(toks: &Vec<Token>, pos: usize) -> (r: Result<(String, usize), Error>)
    ensures
        r matches Ok(p) ==> p.1 == pos + 1 && pos < toks.len(),
        r matches Err(e) ==> e is ParseError,
        ({
            let sres = expect_ident_spec(token_views(toks@), pos as int);
            match r {
                Ok(p) => sres matches Ok(q) && p.0@ == q.0 && p.1 as int == q.1,
                Err(e) => sres matches Err(f) && parse_err_matches(e, f),
            }
        }),
{
    proof {
        if pos < toks@.len() {
            assert(token_views(toks@)[pos as int] == token_view(toks@[pos as int]));
            lemma_token_kind_view_variant(toks@[pos as int].kind);
        }
    }
    if pos < toks.len() {
        match &toks[pos].kind {
            TokKind::Ident(s) => Ok((s.clone(), pos + 1)),
            _ => Err(parse_err("expected identifier", toks[pos].start, toks[pos].end)),
        }
    } else {
        Err(eof_err(toks))
    }
}

fn at_lparen(toks: &Vec<Token>, cur: usize) -> (r: bool)
    ensures
        r ==> cur < toks.len(),
        r == (cur < toks.len() && token_views(toks@)[cur as int].kind is LParen),
{
    if cur >= toks.len() {
        return false;
    }
    proof {
        assert(token_views(toks@)[cur as int] == token_view(toks@[cur as int]));
        lemma_token_kind_view_variant(toks@[cur as int].kind);
    }
    match &toks[cur].kind {
        TokKind::LParen => true,
        _ => false,
    }
}

fn at_arrow(toks: &Vec<Token>, cur: usize) -> (r: bool)
    ensures
        r ==> cur < toks.len(),
        r == (cur < toks.len() && token_views(toks@)[cur as int].kind is Arrow),
{
    if cur >= toks.len() {
        return false;
    }
    proof {
        assert(token_views(toks@)[cur as int] == token_view(toks@[cur as int]));
        lemma_token_kind_view_variant(toks@[cur as int].kind);
    }
    match &toks[cur].kind {
        TokKind::Arrow => true,
        _ => false,
    }
}

/// Parses an expression: a primary followed by any number of parenthesized
/// application arguments. Returns the term, the next token position, and
/// the character position where the leading primary ends.
fn parse_expr(toks: &Vec<Token>, pos: usize) -> (r: Result<(TermCtx, usize, usize), Error>)
    requires
        token_order(toks@),
    ensures
        r matches Ok(p) ==> pos < p.1 <= toks.len() && toks@[pos as int].start <= p.0@.ctx.start
            && p.0@.ctx.end <= toks@[p.1 - 1].end && toks@[pos as int].start <= p.2 && p.2
            <= toks@[p.1 - 1].end && spans_bounded(p.0@, tok_max(toks@)),
        r matches Err(e) ==> e is ParseError,
        ({
            let sres = parse_expr_spec(token_views(toks@), pos as int);
            match r {
                Ok(p) => sres matches Ok(q) && p.0@ == q.0 && p.1 as int == q.1 && p.2 as int
                    == q.2,
                Err(e) => sres matches Err(f) && parse_err_matches(e, f),
            }
        }),
    decreases toks.len() - pos, 3int,
{
    if pos >= toks.len() {
        return Err(eof_err(toks));
    }
    let (first, cur0, prim_end) = match parse_primary(toks, pos) {
        Ok(p) => p,
        Err(e) => return Err(e),
    };
    let mut term1 = first;
    let mut cur = cur0;
    proof {
        assert(parse_expr_spec(token_views(toks@), pos as int) == parse_app_loop(
            token_views(toks@),
            term1@,
            cur as int,
            prim_end as int,
        ));
    }
    while at_lparen(toks, cur)
        invariant
            token_order(toks@),
            pos < cur <= toks.len(),
            toks@[pos as int].start <= term1@.ctx.start,
            term1@.ctx.end <= toks@[cur - 1].end,
            toks@[pos as int].start <= prim_end,
            prim_end <= toks@[cur - 1].end,
            spans_bounded(term1@, tok_max(toks@)),
            parse_expr_spec(token_views(toks@), pos as int) == parse_app_loop(
                token_views(toks@),
                term1@,
                cur as int,
                prim_end as int,
            ),
        decreases toks.len() - cur,
    {
        let (arg, cur2, _) = match parse_expr(toks, cur + 1) {
            Ok(p) => p,
            Err(e) => return Err(e),
        };
        let cur3 = match expect_rparen(toks, cur2) {
            Ok(p) => p,
            Err(e) => return Err(e),
        };
        let start = term1.0.start;
        let end = arg.0.end;
        proof {
            lemma_token_span(toks@, cur - 1, cur + 1);
            lemma_token_span(toks@, cur2 - 1, cur2 as int);
            lemma_token_span(toks@, cur2 as int, toks.len() - 1);
        }
        term1 = TermCtx(
            Context { start, end },
            Term::Application(Box::new(term1), Box::new(arg)),
        );
        cur = cur3;
    }
    Ok((term1, cur, prim_end))
}

/// Parses one primary form: a literal, a variable, a conditional, a
/// bracketed expression, an abstraction, `fix`, a binding form, or a
/// primitive operation.
#[verifier::rlimit(100)]
#[verifier::spinoff_prover]
fn parse_primary(toks: &Vec<Token>, pos: usize) -> (r: Result<(TermCtx, usize, usize), Error>)
    requires
        pos < toks.len(),
        token_order(toks@),
    ensures
        r matches Ok(p) ==> pos < p.1 <= toks.len() && toks@[pos as int].start <= p.0@.ctx.start
            && p.0@.ctx.end <= toks@[p.1 - 1].end && toks@[pos as int].start <= p.2 && p.2
            <= toks@[p.1 - 1].end && spans_bounded(p.0@, tok_max(toks@)),
        r matches Err(e) ==> e is ParseError,
        ({
            let sres = parse_primary_spec(token_views(toks@), pos as int);
            match r {
                Ok(p) => sres matches Ok(q) && p.0@ == q.0 && p.1 as int == q.1 && p.2 as int
                    == q.2,
                Err(e) => sres matches Err(f) && parse_err_matches(e, f),
            }
        }),
    decreases toks.len() - pos, 2int,
{
    proof {
        lemma_token_span(toks@, pos as int, pos as int);
        if pos + 1 < toks.len() {
            lemma_token_span(toks@, pos as int, pos + 1);
        }
        assert(token_views(toks@)[pos as int] == token_view(toks@[pos as int]));
        lemma_token_kind_view_variant(toks@[pos as int].kind);
        if pos + 1 < toks@.len() {
            assert(token_views(toks@)[pos + 1] == token_view(toks@[pos + 1]));
            lemma_token_kind_view_variant(toks@[pos + 1].kind);
        }
    }
    let tok_start = toks[pos].start;
    let tok_end = toks[pos].end;
    match &toks[pos].kind {
        TokKind::Ident(s) => Ok(
            (
                TermCtx(Context { start: tok_start, end: tok_end }, Term::Variable(s.clone())),
                pos + 1,
                tok_end,
            ),
        ),
        TokKind::True => Ok(
            (
                TermCtx(
                    Context { start: tok_start, end: tok_end },
                    Term::Boolean(Qualifier::Nop, true),
                ),
                pos + 1,
                tok_end,
            ),
        ),
        TokKind::False => Ok(
            (
                TermCtx(
                    Context { start: tok_start, end: tok_end },
                    Term::Boolean(Qualifier::Nop, false),
                ),
                pos + 1,
                tok_end,
            ),
        ),
        TokKind::Number(v) => Ok(
            (
                TermCtx(
                    Context { start: tok_start, end: tok_end },
                    Term::Integer(Qualifier::Nop, *v),
                ),
                pos + 1,
                tok_end,
            ),
        ),
        TokKind::LAngle => parse_compound(toks, pos, pos, Qualifier::Nop),
        TokKind::Dollar => {
            if pos + 1 >= toks.len() {
                return Err(eof_err(toks));
            }
            match &toks[pos + 1].kind {
                TokKind::True => Ok(
                    (
                        TermCtx(
                            Context { start: tok_start, end: toks[pos + 1].end },
                            Term::Boolean(Qualifier::Linear, true),
                        ),
                        pos + 2,
                        toks[pos + 1].end,
                    ),
                ),
                TokKind::False => Ok(
                    (
                        TermCtx(
                            Context { start: tok_start, end: toks[pos + 1].end },
                            Term::Boolean(Qualifier::Linear, false),
                        ),
                        pos + 2,
                        toks[pos + 1].end,
                    ),
                ),
                TokKind::Number(v) => Ok(
                    (
                        TermCtx(
                            Context { start: tok_start, end: toks[pos + 1].end },
                            Term::Integer(Qualifier::Linear, *v),
                        ),
                        pos + 2,
                        toks[pos + 1].end,
                    ),
                ),
                TokKind::LAngle => parse_compound(toks, pos + 1, pos, Qualifier::Linear),
                TokKind::Bar => parse_abstraction(toks, pos + 1, pos, Qualifier::Linear),
                TokKind::KwDiff => parse_diff(toks, pos + 1, Qualifier::Linear),
                TokKind::KwIszero => parse_iszero(toks, pos + 1, Qualifier::Linear),
                _ => Err(
                    parse_err(
                        "expected literal, abstraction or primitive after qualifier",
                        toks[pos + 1].start,
                        toks[pos + 1].end,
                    ),
                ),
            }
        }
        TokKind::Bar => parse_abstraction(toks, pos, pos, Qualifier::Nop),
        TokKind::KwDiff => parse_diff(toks, pos, Qualifier::Nop),
        TokKind::KwIszero => parse_iszero(toks, pos, Qualifier::Nop),
        TokKind::KwIf => parse_conditional_form(toks, pos),
        TokKind::LParen => parse_bracket_form(toks, pos),
        TokKind::KwFix => parse_fix_form(toks, pos),
        TokKind::KwLet => parse_let_form(toks, pos),
        _ => Err(parse_err("unexpected token", tok_start, tok_end)),
    }
}

/// Parses a conditional; the primary's `if` arm.
#[verifier::rlimit(100)]
#[verifier::spinoff_prover]
fn parse_conditional_form(toks: &Vec<Token>, pos: usize) -> (r: Result<(TermCtx, usize, usize), Error>)
    requires
        pos < toks.len(),
        token_order(toks@),
        token_views(toks@)[pos as int].kind is KwIf,
    ensures
        r matches Ok(p) ==> pos < p.1 <= toks.len() && toks@[pos as int].start <= p.0@.ctx.start
            && p.0@.ctx.end <= toks@[p.1 - 1].end && toks@[pos as int].start <= p.2 && p.2
            <= toks@[p.1 - 1].end && spans_bounded(p.0@, tok_max(toks@)),
        r matches Err(e) ==> e is ParseError,
        ({
            let sres = parse_primary_spec(token_views(toks@), pos as int);
            match r {
                Ok(p) => sres matches Ok(q) && p.0@ == q.0 && p.1 as int == q.1 && p.2 as int
                    == q.2,
                Err(e) => sres matches Err(f) && parse_err_matches(e, f),
            }
        }),
    decreases toks.len() - pos, 1int,
{
    proof {
        lemma_token_span(toks@, pos as int, pos as int);
        if pos + 1 < toks.len() {
            lemma_token_span(toks@, pos as int, pos + 1);
        }
        assert(token_views(toks@)[pos as int] == token_view(toks@[pos as int]));
        lemma_token_kind_view_variant(toks@[pos as int].kind);
        if pos + 1 < toks@.len() {
            assert(token_views(toks@)[pos + 1] == token_view(toks@[pos + 1]));
            lemma_token_kind_view_variant(toks@[pos + 1].kind);
        }
    }
    let tok_start = toks[pos].start;
    let tok_end = toks[pos].end;
    
            let (cond, c1, cond_prim_end) = match parse_expr(toks, pos + 1) {
                Ok(p) => p,
                Err(e) => return Err(e),
            };
            let c2 = match expect_lbrace(toks, c1) {
                Ok(p) => p,
                Err(e) => return Err(e),
            };
            let (then_t, c3, _) = match parse_expr(toks, c2) {
                Ok(p) => p,
                Err(e) => return Err(e),
            };
            let c4 = match expect_rbrace(toks, c3) {
                Ok(p) => p,
                Err(e) => return Err(e),
            };
            if c4 >= toks.len() {
                return Err(eof_err(toks));
            }
            let c5 = match &toks[c4].kind {
                TokKind::KwElse => c4 + 1,
                _ => {
                    return Err(parse_err("expected else", toks[c4].start, toks[c4].end));
                }
            };
            let c6 = match expect_lbrace(toks, c5) {
                Ok(p) => p,
                Err(e) => return Err(e),
            };
            let (else_t, c7, _) = match parse_expr(toks, c6) {
                Ok(p) => p,
                Err(e) => return Err(e),
            };
            let end_tok = if c7 < toks.len() {
                toks[c7].end
            } else {
                0
            };
            let c8 = match expect_rbrace(toks, c7) {
                Ok(p) => p,
                Err(e) => return Err(e),
            };
            proof {
                lemma_token_span(toks@, c1 - 1, c7 as int);
                lemma_token_span(toks@, pos as int, c7 as int);
                lemma_token_span(toks@, c7 as int, toks.len() - 1);
            }
            Ok(
                (
                    TermCtx(
                        Context { start: tok_start, end: cond_prim_end },
                        Term::Conditional(Box::new(cond), Box::new(then_t), Box::new(else_t)),
                    ),
                    c8,
                    end_tok,
                ),
            )
        
}

/// Parses a bracketed expression; the primary's opening-parenthesis arm.
#[verifier::rlimit(100)]
#[verifier::spinoff_prover]
fn parse_bracket_form(toks: &Vec<Token>, pos: usize) -> (r: Result<(TermCtx, usize, usize), Error>)
    requires
        pos < toks.len(),
        token_order(toks@),
        token_views(toks@)[pos as int].kind is LParen,
    ensures
        r matches Ok(p) ==> pos < p.1 <= toks.len() && toks@[pos as int].start <= p.0@.ctx.start
            && p.0@.ctx.end <= toks@[p.1 - 1].end && toks@[pos as int].start <= p.2 && p.2
            <= toks@[p.1 - 1].end && spans_bounded(p.0@, tok_max(toks@)),
        r matches Err(e) ==> e is ParseError,
        ({
            let sres = parse_primary_spec(token_views(toks@), pos as int);
            match r {
                Ok(p) => sres matches Ok(q) && p.0@ == q.0 && p.1 as int == q.1 && p.2 as int
                    == q.2,
                Err(e) => sres matches Err(f) && parse_err_matches(e, f),
            }
        }),
    decreases toks.len() - pos, 1int,
{
    proof {
        lemma_token_span(toks@, pos as int, pos as int);
        if pos + 1 < toks.len() {
            lemma_token_span(toks@, pos as int, pos + 1);
        }
        assert(token_views(toks@)[pos as int] == token_view(toks@[pos as int]));
        lemma_token_kind_view_variant(toks@[pos as int].kind);
        if pos + 1 < toks@.len() {
            assert(token_views(toks@)[pos + 1] == token_view(toks@[pos + 1]));
            lemma_token_kind_view_variant(toks@[pos + 1].kind);
        }
    }
    let tok_start = toks[pos].start;
    let tok_end = toks[pos].end;
    
            let (inner, c1, _) = match parse_expr(toks, pos + 1) {
                Ok(p) => p,
                Err(e) => return Err(e),
            };
            let end_tok = if c1 < toks.len() {
                toks[c1].end
            } else {
                0
            };
            let c2 = match expect_rparen(toks, c1) {
                Ok(p) => p,
                Err(e) => return Err(e),
            };
            proof {
                lemma_token_span(toks@, c1 - 1, c1 as int);
                lemma_token_span(toks@, pos as int, c1 as int);
            }
            Ok((inner, c2, end_tok))
        
}

/// Parses a `fix` form; the primary's `fix` arm.
#[verifier::rlimit(100)]
#[verifier::spinoff_prover]
fn parse_fix_form(toks: &Vec<Token>, pos: usize) -> (r: Result<(TermCtx, usize, usize), Error>)
    requires
        pos < toks.len(),
        token_order(toks@),
        token_views(toks@)[pos as int].kind is KwFix,
    ensures
        r matches Ok(p) ==> pos < p.1 <= toks.len() && toks@[pos as int].start <= p.0@.ctx.start
            && p.0@.ctx.end <= toks@[p.1 - 1].end && toks@[pos as int].start <= p.2 && p.2
            <= toks@[p.1 - 1].end && spans_bounded(p.0@, tok_max(toks@)),
        r matches Err(e) ==> e is ParseError,
        ({
            let sres = parse_primary_spec(token_views(toks@), pos as int);
            match r {
                Ok(p) => sres matches Ok(q) && p.0@ == q.0 && p.1 as int == q.1 && p.2 as int
                    == q.2,
                Err(e) => sres matches Err(f) && parse_err_matches(e, f),
            }
        }),
    decreases toks.len() - pos, 1int,
{
    proof {
        lemma_token_span(toks@, pos as int, pos as int);
        if pos + 1 < toks.len() {
            lemma_token_span(toks@, pos as int, pos + 1);
        }
        assert(token_views(toks@)[pos as int] == token_view(toks@[pos as int]));
        lemma_token_kind_view_variant(toks@[pos as int].kind);
        if pos + 1 < toks@.len() {
            assert(token_views(toks@)[pos + 1] == token_view(toks@[pos + 1]));
            lemma_token_kind_view_variant(toks@[pos + 1].kind);
        }
    }
    let tok_start = toks[pos].start;
    let tok_end = toks[pos].end;
    
            let (inner, c1, _) = match parse_expr(toks, pos + 1) {
                Ok(p) => p,
                Err(e) => return Err(e),
            };
            let end_ch = inner.0.end;
            proof {
                lemma_token_span(toks@, pos as int, c1 - 1);
                lemma_token_span(toks@, c1 - 1, toks.len() - 1);
            }
            Ok(
                (
                    TermCtx(
                        Context { start: tok_start, end: tok_end },
                        Term::Fix(Box::new(inner)),
                    ),
                    c1,
                    end_ch,
                ),
            )
        
}

/// Parses a `let` or destructuring `let`; the primary's `let` arm.
#[verifier::rlimit(100)]
#[verifier::spinoff_prover]
fn parse_let_form(toks: &Vec<Token>, pos: usize) -> (r: Result<(TermCtx, usize, usize), Error>)
    requires
        pos < toks.len(),
        token_order(toks@),
        token_views(toks@)[pos as int].kind is KwLet,
    ensures
        r matches Ok(p) ==> pos < p.1 <= toks.len() && toks@[pos as int].start <= p.0@.ctx.start
            && p.0@.ctx.end <= toks@[p.1 - 1].end && toks@[pos as int].start <= p.2 && p.2
            <= toks@[p.1 - 1].end && spans_bounded(p.0@, tok_max(toks@)),
        r matches Err(e) ==> e is ParseError,
        ({
            let sres = parse_primary_spec(token_views(toks@), pos as int);
            match r {
                Ok(p) => sres matches Ok(q) && p.0@ == q.0 && p.1 as int == q.1 && p.2 as int
                    == q.2,
                Err(e) => sres matches Err(f) && parse_err_matches(e, f),
            }
        }),
    decreases toks.len() - pos, 1int,
{
    proof {
        lemma_token_span(toks@, pos as int, pos as int);
        if pos + 1 < toks.len() {
            lemma_token_span(toks@, pos as int, pos + 1);
        }
        assert(token_views(toks@)[pos as int] == token_view(toks@[pos as int]));
        lemma_token_kind_view_variant(toks@[pos as int].kind);
        if pos + 1 < toks@.len() {
            assert(token_views(toks@)[pos + 1] == token_view(toks@[pos + 1]));
            lemma_token_kind_view_variant(toks@[pos + 1].kind);
        }
    }
    let tok_start = toks[pos].start;
    let tok_end = toks[pos].end;
    
            let is_letc = pos + 1 < toks.len() && match &toks[pos + 1].kind {
                TokKind::LAngle => true,
                _ => false,
            };
            if is_letc {
                let (x1, cur) = match expect_ident(toks, pos + 2) {
                    Ok(p) => p,
                    Err(e) => return Err(e),
                };
                if cur >= toks.len() {
                    return Err(eof_err(toks));
                }
                let cur = match &toks[cur].kind {
                    TokKind::Comma => cur + 1,
                    _ => {
                        return Err(parse_err("expected comma", toks[cur].start, toks[cur].end));
                    }
                };
                let (x2, cur) = match expect_ident(toks, cur) {
                    Ok(p) => p,
                    Err(e) => return Err(e),
                };
                if cur >= toks.len() {
                    return Err(eof_err(toks));
                }
                let cur = match &toks[cur].kind {
                    TokKind::RAngle => cur + 1,
                    _ => {
                        return Err(
                            parse_err("expected closing angle", toks[cur].start, toks[cur].end),
                        );
                    }
                };
                if cur >= toks.len() {
                    return Err(eof_err(toks));
                }
                let cur = match &toks[cur].kind {
                    TokKind::Equals => cur + 1,
                    _ => {
                        return Err(
                            parse_err("expected equals sign", toks[cur].start, toks[cur].end),
                        );
                    }
                };
                let (t1, cur, _) = match parse_expr(toks, cur) {
                    Ok(p) => p,
                    Err(e) => return Err(e),
                };
                if cur >= toks.len() {
                    return Err(eof_err(toks));
                }
                let t2_pos = match &toks[cur].kind {
                    TokKind::KwIn => cur + 1,
                    _ => {
                        return Err(parse_err("expected in", toks[cur].start, toks[cur].end));
                    }
                };
                let (t2, fin, _) = match parse_expr(toks, t2_pos) {
                    Ok(p) => p,
                    Err(e) => return Err(e),
                };
                let end_ch = t2.0.end;
                proof {
                    lemma_token_span(toks@, pos as int, t2_pos as int);
                    lemma_token_span(toks@, pos as int, fin - 1);
                    lemma_token_span(toks@, fin - 1, toks.len() - 1);
                }
                Ok(
                    (
                        TermCtx(
                            Context { start: tok_start, end: tok_end },
                            Term::Letc(x1, x2, Box::new(t1), Box::new(t2)),
                        ),
                        fin,
                        end_ch,
                    ),
                )
            } else {
                let (x, cur) = match expect_ident(toks, pos + 1) {
                    Ok(p) => p,
                    Err(e) => return Err(e),
                };
                if cur >= toks.len() {
                    return Err(eof_err(toks));
                }
                let cur = match &toks[cur].kind {
                    TokKind::Equals => cur + 1,
                    _ => {
                        return Err(
                            parse_err("expected equals sign", toks[cur].start, toks[cur].end),
                        );
                    }
                };
                let (t1, cur, _) = match parse_expr(toks, cur) {
                    Ok(p) => p,
                    Err(e) => return Err(e),
                };
                if cur >= toks.len() {
                    return Err(eof_err(toks));
                }
                let t2_pos = match &toks[cur].kind {
                    TokKind::KwIn => cur + 1,
                    _ => {
                        return Err(parse_err("expected in", toks[cur].start, toks[cur].end));
                    }
                };
                let (t2, fin, _) = match parse_expr(toks, t2_pos) {
                    Ok(p) => p,
                    Err(e) => return Err(e),
                };
                let end_ch = t2.0.end;
                proof {
                    lemma_token_span(toks@, pos as int, t2_pos as int);
                    lemma_token_span(toks@, pos as int, fin - 1);
                    lemma_token_span(toks@, fin - 1, toks.len() - 1);
                }
                Ok(
                    (
                        TermCtx(
                            Context { start: tok_start, end: tok_end },
                            Term::Let(x, Box::new(t1), Box::new(t2)),
                        ),
                        fin,
                        end_ch,
                    ),
                )
            }
        
}

/// Parses a compound literal `<e1, e2>`; `pos` stands on the opening
/// angle, `qpos` on the qualifier or the opening angle. The node's span is
/// the comma's, as the concrete syntax places it between the components.
fn parse_compound(toks: &Vec<Token>, pos: usize, qpos: usize, q: Qualifier) -> (r: Result<
    (TermCtx, usize, usize),
    Error,
>)
    requires
        qpos <= pos < toks.len(),
        token_order(toks@),
    ensures
        r matches Ok(p) ==> qpos < p.1 <= toks.len() && toks@[qpos as int].start <= p.0@.ctx.start
            && p.0@.ctx.end <= toks@[p.1 - 1].end && toks@[qpos as int].start <= p.2 && p.2
            <= toks@[p.1 - 1].end && spans_bounded(p.0@, tok_max(toks@)),
        r matches Err(e) ==> e is ParseError,
        ({
            let sres = parse_compound_spec(token_views(toks@), pos as int, qpos as int, q);
            match r {
                Ok(p) => sres matches Ok(qq) && p.0@ == qq.0 && p.1 as int == qq.1 && p.2 as int
                    == qq.2,
                Err(e) => sres matches Err(f) && parse_err_matches(e, f),
            }
        }),
    decreases toks.len() - qpos, 1int,
{
    let (t1, cur, _) = match parse_expr(toks, pos + 1) {
        Ok(p) => p,
        Err(e) => return Err(e),
    };
    if cur >= toks.len() {
        return Err(eof_err(toks));
    }
    let comma_start = toks[cur].start;
    let comma_end = toks[cur].end;
    let cur = match &toks[cur].kind {
        TokKind::Comma => cur + 1,
        _ => {
            return Err(parse_err("expected comma", toks[cur].start, toks[cur].end));
        }
    };
    let (t2, cur, _) = match parse_expr(toks, cur) {
        Ok(p) => p,
        Err(e) => return Err(e),
    };
    if cur >= toks.len() {
        return Err(eof_err(toks));
    }
    let end_tok = toks[cur].end;
    let cur = match &toks[cur].kind {
        TokKind::RAngle => cur + 1,
        _ => {
            return Err(parse_err("expected closing angle", toks[cur].start, toks[cur].end));
        }
    };
    Ok(
        (
            TermCtx(
                Context { start: comma_start, end: comma_end },
                Term::Compound(q, Box::new(t1), Box::new(t2)),
            ),
            cur,
            end_tok,
        ),
    )
}

/// Parses an abstraction `|x| body`, `|x: T| body`; `pos` stands on the
/// opening bar, `qpos` on the qualifier or the opening bar. The node's
/// span runs from the qualifier to the closing bar.
fn parse_abstraction(toks: &Vec<Token>, pos: usize, qpos: usize, q: Qualifier) -> (r: Result<
    (TermCtx, usize, usize),
    Error,
>)
    requires
        qpos <= pos < toks.len(),
        token_order(toks@),
    ensures
        r matches Ok(p) ==> qpos < p.1 <= toks.len() && toks@[qpos as int].start <= p.0@.ctx.start
            && p.0@.ctx.end <= toks@[p.1 - 1].end && toks@[qpos as int].start <= p.2 && p.2
            <= toks@[p.1 - 1].end && spans_bounded(p.0@, tok_max(toks@)),
        r matches Err(e) ==> e is ParseError,
        ({
            let sres = parse_abstraction_spec(token_views(toks@), pos as int, qpos as int, q);
            match r {
                Ok(p) => sres matches Ok(qq) && p.0@ == qq.0 && p.1 as int == qq.1 && p.2 as int
                    == qq.2,
                Err(e) => sres matches Err(f) && parse_err_matches(e, f),
            }
        }),
    decreases toks.len() - qpos, 1int,
{
    let start = toks[qpos].start;
    let (x, cur) = match expect_ident(toks, pos + 1) {
        Ok(p) => p,
        Err(e) => return Err(e),
    };
    if cur >= toks.len() {
        return Err(eof_err(toks));
    }
    proof {
        assert(token_views(toks@)[cur as int] == token_view(toks@[cur as int]));
        lemma_token_kind_view_variant(toks@[cur as int].kind);
    }
    let (annot, cur): (Option<Box<Type>>, usize) = match &toks[cur].kind {
        TokKind::Colon => {
            let (ty, cur2) = match parse_typing(toks, cur + 1) {
                Ok(p) => p,
                Err(e) => return Err(e),
            };
            (Some(Box::new(ty)), cur2)
        }
        _ => (None, cur),
    };
    if cur >= toks.len() {
        return Err(eof_err(toks));
    }
    proof {
        assert(token_views(toks@)[cur as int] == token_view(toks@[cur as int]));
        lemma_token_kind_view_variant(toks@[cur as int].kind);
    }
    let bar2_end = toks[cur].end;
    let cur = match &toks[cur].kind {
        TokKind::Bar => cur + 1,
        _ => {
            return Err(parse_err("expected closing bar", toks[cur].start, toks[cur].end));
        }
    };
    let (body, cur, _) = match parse_expr(toks, cur) {
        Ok(p) => p,
        Err(e) => return Err(e),
    };
    let end_ch = body.0.end;
    Ok(
        (
            TermCtx(
                Context { start, end: bar2_end },
                Term::Abstraction(q, x, annot, Box::new(body)),
            ),
            cur,
            end_ch,
        ),
    )
}

/// Parses `diff(e1, e2)`; `pos` stands on the keyword. The node's span is
/// the keyword's.
fn parse_diff(toks: &Vec<Token>, pos: usize, q: Qualifier) -> (r: Result<
    (TermCtx, usize, usize),
    Error,
>)
    requires
        pos < toks.len(),
        token_order(toks@),
    ensures
        r matches Ok(p) ==> pos < p.1 <= toks.len() && toks@[pos as int].start <= p.0@.ctx.start
            && p.0@.ctx.end <= toks@[p.1 - 1].end && toks@[pos as int].start <= p.2 && p.2
            <= toks@[p.1 - 1].end && spans_bounded(p.0@, tok_max(toks@)),
        r matches Err(e) ==> e is ParseError,
        ({
            let sres = parse_diff_spec(token_views(toks@), pos as int, q);
            match r {
                Ok(p) => sres matches Ok(qq) && p.0@ == qq.0 && p.1 as int == qq.1 && p.2 as int
                    == qq.2,
                Err(e) => sres matches Err(f) && parse_err_matches(e, f),
            }
        }),
    decreases toks.len() - pos, 1int,
{
    proof {
        if pos + 1 < toks@.len() {
            assert(token_views(toks@)[pos + 1] == token_view(toks@[pos + 1]));
            lemma_token_kind_view_variant(toks@[pos + 1].kind);
        }
    }
    let kw_start = toks[pos].start;
    let kw_end = toks[pos].end;
    if pos + 1 >= toks.len() {
        return Err(eof_err(toks));
    }
    let cur = match &toks[pos + 1].kind {
        TokKind::LParen => pos + 2,
        _ => {
            return Err(
                parse_err("expected opening parenthesis", toks[pos + 1].start, toks[pos + 1].end),
            );
        }
    };
    let (t1, cur, _) = match parse_expr(toks, cur) {
        Ok(p) => p,
        Err(e) => return Err(e),
    };
    if cur >= toks.len() {
        return Err(eof_err(toks));
    }
    proof {
        assert(token_views(toks@)[cur as int] == token_view(toks@[cur as int]));
        lemma_token_kind_view_variant(toks@[cur as int].kind);
    }
    let cur = match &toks[cur].kind {
        TokKind::Comma => cur + 1,
        _ => {
            return Err(parse_err("expected comma", toks[cur].start, toks[cur].end));
        }
    };
    let (t2, cur, _) = match parse_expr(toks, cur) {
        Ok(p) => p,
        Err(e) => return Err(e),
    };
    let end_tok = if cur < toks.len() {
        toks[cur].end
    } else {
        0
    };
    let cur = match expect_rparen(toks, cur) {
        Ok(p) => p,
        Err(e) => return Err(e),
    };
    Ok(
        (
            TermCtx(
                Context { start: kw_start, end: kw_end },
                Term::Arith2(q, crate::syntax::ArithOp::Diff, Box::new(t1), Box::new(t2)),
            ),
            cur,
            end_tok,
        ),
    )
}

/// Parses `iszero(e)`; `pos` stands on the keyword. The node's span is the
/// keyword's.
fn parse_iszero(toks: &Vec<Token>, pos: usize, q: Qualifier) -> (r: Result<
    (TermCtx, usize, usize),
    Error,
>)
    requires
        pos < toks.len(),
        token_order(toks@),
    ensures
        r matches Ok(p) ==> pos < p.1 <= toks.len() && toks@[pos as int].start <= p.0@.ctx.start
            && p.0@.ctx.end <= toks@[p.1 - 1].end && toks@[pos as int].start <= p.2 && p.2
            <= toks@[p.1 - 1].end && spans_bounded(p.0@, tok_max(toks@)),
        r matches Err(e) ==> e is ParseError,
        ({
            let sres = parse_iszero_spec(token_views(toks@), pos as int, q);
            match r {
                Ok(p) => sres matches Ok(qq) && p.0@ == qq.0 && p.1 as int == qq.1 && p.2 as int
                    == qq.2,
                Err(e) => sres matches Err(f) && parse_err_matches(e, f),
            }
        }),
    decreases toks.len() - pos, 1int,
{
    proof {
        if pos + 1 < toks@.len() {
            assert(token_views(toks@)[pos + 1] == token_view(toks@[pos + 1]));
            lemma_token_kind_view_variant(toks@[pos + 1].kind);
        }
    }
    let kw_start = toks[pos].start;
    let kw_end = toks[pos].end;
    if pos + 1 >= toks.len() {
        return Err(eof_err(toks));
    }
    let cur = match &toks[pos + 1].kind {
        TokKind::LParen => pos + 2,
        _ => {
            return Err(
                parse_err("expected opening parenthesis", toks[pos + 1].start, toks[pos + 1].end),
            );
        }
    };
    let (t1, cur, _) = match parse_expr(toks, cur) {
        Ok(p) => p,
        Err(e) => return Err(e),
    };
    let end_tok = if cur < toks.len() {
        toks[cur].end
    } else {
        0
    };
    let cur = match expect_rparen(toks, cur) {
        Ok(p) => p,
        Err(e) => return Err(e),
    };
    Ok(
        (
            TermCtx(
                Context { start: kw_start, end: kw_end },
                Term::Arith1(q, crate::syntax::ArithOp::IsZero, Box::new(t1)),
            ),
            cur,
            end_tok,
        ),
    )
}

/// Parses a type expression: atoms joined by right-associative arrows.
fn parse_typing(toks: &Vec<Token>, pos: usize) -> (r: Result<(Type, usize), Error>)
    requires
        token_order(toks@),
    ensures
        r matches Ok(p) ==> pos < p.1 <= toks.len(),
        r matches Err(e) ==> e is ParseError,
        ({
            let sres = parse_typing_spec(token_views(toks@), pos as int);
            match r {
                Ok(p) => sres matches Ok(q) && p.0 == q.0 && p.1 as int == q.1,
                Err(e) => sres matches Err(f) && parse_err_matches(e, f),
            }
        }),
    decreases toks.len() - pos, 2int,
{
    let (first, cur0) = match parse_typing0(toks, pos) {
        Ok(p) => p,
        Err(e) => {
            proof {
                assert(parse_typing_spec(token_views(toks@), pos as int) is Err);
            }
            return Err(e);
        }
    };
    let ghost first_v = first;
    let mut atoms: Vec<Type> = Vec::new();
    atoms.push(first);
    let mut cur = cur0;
    proof {
        assert(atoms@ =~= seq![first_v]);
    }
    while at_arrow(toks, cur)
        invariant
            token_order(toks@),
            pos < cur0 <= toks.len(),
            pos < cur <= toks.len(),
            atoms@.len() >= 1,
            parse_typing0_spec(token_views(toks@), pos as int) == Ok::<(Type, int), ParseFail>(
                (first_v, cur0 as int),
            ),
            parse_typing_arrows(token_views(toks@), seq![first_v], cur0 as int)
                == parse_typing_arrows(token_views(toks@), atoms@, cur as int),
        decreases toks.len() - cur,
    {
        let (next, cur2) = match parse_typing0(toks, cur + 1) {
            Ok(p) => p,
            Err(e) => {
                proof {
                    assert(token_views(toks@).len() == toks@.len());
                    assert(parse_typing_arrows(token_views(toks@), atoms@, cur as int) is Err);
                    assert(parse_typing_spec(token_views(toks@), pos as int) is Err);
                }
                return Err(e);
            }
        };
        atoms.push(next);
        cur = cur2;
    }
    let ghost all_atoms = atoms@;
    let mut result = match atoms.pop() {
        Some(t) => t,
        None => vstd::pervasive::unreached(),
    };
    proof {
        assert(atoms@ =~= all_atoms.drop_last());
    }
    while atoms.len() > 0
        invariant
            fold_arrows_with(all_atoms.drop_last(), all_atoms.last()) == fold_arrows_with(
                atoms@,
                result,
            ),
        decreases atoms@.len(),
    {
        let ghost before = atoms@;
        match atoms.pop() {
            Some(t) => {
                proof {
                    assert(atoms@ =~= before.drop_last());
                }
                result = Type(Qualifier::Nop, Pretype::Function(Box::new(t), Box::new(result)));
            }
            None => {}
        }
    }
    proof {
        assert(atoms@ =~= Seq::<Type>::empty());
        assert(fold_arrows_with(all_atoms.drop_last(), all_atoms.last()) == result);
        let tv = token_views(toks@);
        assert(parse_typing0_spec(tv, pos as int) matches Ok(q0) && q0.0 == first_v && q0.1
            == cur0 as int);
        assert(adv(pos as int, cur0 as int, tv.len() as int) == cur0 as int);
        assert(parse_typing_arrows(tv, seq![first_v], cur0 as int) == Ok::<
            (Seq<Type>, int),
            ParseFail,
        >((all_atoms, cur as int)));
        assert(parse_typing_spec(tv, pos as int) is Ok);
    }
    Ok((result, cur))
}

/// Parses one type atom: `int`, `bool`, a parenthesized type or a compound
/// type, with an optional qualifier prefix. A qualifier stacked directly
/// onto an already qualified type is rejected.
#[verifier::rlimit(100)]
#[verifier::spinoff_prover]
fn parse_typing0(toks: &Vec<Token>, pos: usize) -> (r: Result<(Type, usize), Error>)
    requires
        token_order(toks@),
    ensures
        r matches Ok(p) ==> pos < p.1 <= toks.len(),
        r matches Err(e) ==> e is ParseError,
        ({
            let sres = parse_typing0_spec(token_views(toks@), pos as int);
            match r {
                Ok(p) => sres matches Ok(q) && p.0 == q.0 && p.1 as int == q.1,
                Err(e) => sres matches Err(f) && parse_err_matches(e, f),
            }
        }),
    decreases toks.len() - pos, 1int,
{
    proof {
        if pos < toks@.len() {
            assert(token_views(toks@)[pos as int] == token_view(toks@[pos as int]));
            lemma_token_kind_view_variant(toks@[pos as int].kind);
        }
        if pos + 1 < toks@.len() {
            assert(token_views(toks@)[pos + 1] == token_view(toks@[pos + 1]));
            lemma_token_kind_view_variant(toks@[pos + 1].kind);
        }
    }
    if pos >= toks.len() {
        return Err(eof_err(toks));
    }
    let (has_qual, cur) = match &toks[pos].kind {
        TokKind::Dollar => (true, pos + 1),
        _ => (false, pos),
    };
    if cur >= toks.len() {
        return Err(eof_err(toks));
    }
    let atom_start = toks[cur].start;
    let atom_end = toks[cur].end;
    let (inner, cur): (Type, usize) = match &toks[cur].kind {
        TokKind::KwInt => (Type(Qualifier::Nop, Pretype::Integer), cur + 1),
        TokKind::KwBool => (Type(Qualifier::Nop, Pretype::Boolean), cur + 1),
        TokKind::LParen => {
            let (ty, cur2) = match parse_typing(toks, cur + 1) {
                Ok(p) => p,
                Err(e) => return Err(e),
            };
            let cur3 = match expect_rparen(toks, cur2) {
                Ok(p) => p,
                Err(e) => return Err(e),
            };
            (ty, cur3)
        }
        TokKind::LAngle => {
            let (ty1, cur2) = match parse_typing(toks, cur + 1) {
                Ok(p) => p,
                Err(e) => return Err(e),
            };
            if cur2 >= toks.len() {
                return Err(eof_err(toks));
            }
            let cur3 = match &toks[cur2].kind {
                TokKind::Comma => cur2 + 1,
                _ => {
                    return Err(parse_err("expected comma", toks[cur2].start, toks[cur2].end));
                }
            };
            let (ty2, cur4) = match parse_typing(toks, cur3) {
                Ok(p) => p,
                Err(e) => return Err(e),
            };
            if cur4 >= toks.len() {
                return Err(eof_err(toks));
            }
            let cur5 = match &toks[cur4].kind {
                TokKind::RAngle => cur4 + 1,
                _ => {
                    return Err(
                        parse_err("expected closing angle", toks[cur4].start, toks[cur4].end),
                    );
                }
            };
            (Type(Qualifier::Nop, Pretype::Compound(Box::new(ty1), Box::new(ty2))), cur5)
        }
        _ => {
            return Err(parse_err("expected type", toks[cur].start, toks[cur].end));
        }
    };
    if has_qual {
        let Type(q0, pt) = inner;
        match q0 {
            Qualifier::Nop => Ok((Type(Qualifier::Linear, pt), cur)),
            Qualifier::Linear => Err(parse_err("incompatible qualifiers", atom_start, atom_end)),
        }
    } else {
        Ok((inner, cur))
    }
}

/// Parses a whole program: one expression spanning the entire source. The
/// returned tree is exactly what `parse_spec` says the source parses to,
/// and every span in it lies within the input; a failure is exactly the
/// failure `parse_spec` reports. Spans and error positions are measured in
/// characters of the source, not bytes.
pub fn parse_program(input: &str) -> (r: Result<TermCtx, Error>)
    ensures
        r matches Ok(t) ==> parse_spec(input@) matches Ok(v) && t@ == v && spans_bounded(
            t@,
            input@.len(),
        ),
        r matches Err(e) ==> parse_spec(input@) matches Err(f) && parse_err_matches(e, f),
{
    let chars = str_to_chars(input);
    let toks = match tokenize(&chars) {
        Ok(t) => t,
        Err(e) => return Err(e),
    };
    proof {
        assert(token_views(toks@).len() == toks@.len());
    }
    if toks.len() == 0 {
        return Err(parse_err("empty program", 0, 0));
    }
    let (term, cur, _) = match parse_expr(&toks, 0) {
        Ok(p) => p,
        Err(e) => return Err(e),
    };
    if cur < toks.len() {
        proof {
            assert(token_views(toks@)[cur as int] == token_view(toks@[cur as int]));
        }
        return Err(parse_err("expected end of input", toks[cur].start, toks[cur].end));
    }
    proof {
        assert(toks@[toks@.len() - 1].end <= chars.len());
        lemma_spans_bounded_widen(term@, tok_max(toks@), input@.len());
    }
    Ok(term)
}

} // verus!
