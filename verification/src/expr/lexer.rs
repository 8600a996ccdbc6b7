//! Tokenizer of the expression language.

use vstd::prelude::*;
use crate::text::{
    alphabetic, alphanumeric, char_is_whitespace, is_alphabetic,
    is_alphanumeric, is_ascii_digit, is_ascii_hexdigit, is_whitespace, str_to_chars,
};

verus! {

/// Why an expression was rejected.
#[derive(Debug, Clone, Copy, PartialEq, Eq, Structural)]
pub enum ExprError {
    /// A hex, binary or decimal literal without digits or out of `i64` range.
    InvalidLiteral,
    /// A character that starts no token (a lone `=` among them).
    UnexpectedCharacter,
    /// A value (literal, identifier or parenthesized expression) was expected.
    ExpectedValue,
    /// An identifier that is neither a field, a named constant nor an alias.
    UnknownIdentifier,
    /// A specific operator token (`)`, `]` or `..`) was expected.
    ExpectedOperator,
    /// An integer literal was expected as a bit-slice bound.
    ExpectedInteger,
    /// A bit slice that is empty or does not lie within 32 bits.
    InvalidBitSlice,
    /// `signed` was expected after `:` in a bit slice.
    ExpectedSigned,
    /// Tokens remained after a complete expression.
    TrailingInput,
    /// Alias expansion nested too deeply (possibly a cycle).
    AliasTooDeep,
}

/// Operator and punctuation tokens.
#[derive(Debug, Clone, Copy, PartialEq, Eq, Structural)]
pub enum Op {
    EqEq,
    NotEq,
    LessEq,
    GreaterEq,
    AndAnd,
    OrOr,
    ShiftLeft,
    ShiftRight,
    DotDot,
    Plus,
    Minus,
    Star,
    Slash,
    Amp,
    Less,
    Greater,
    Bang,
    LParen,
    RParen,
    LBracket,
    RBracket,
    Colon,
}

/// A token as the parser sees it.
#[derive(Debug)]
pub enum Tok {
    Ident(Vec<char>),
    Int(i64),
    Op(Op),
}

/// Mathematical form of a token.
pub enum SpecTok {
    Ident(Seq<char>),
    Int(i64),
    Op(Op),
}

impl View for Tok {
    type V = SpecTok;

    open spec fn view(&self) -> SpecTok {
        match self {
            Tok::Ident(v) => SpecTok::Ident(v@),
            Tok::Int(v) => SpecTok::Int(*v),
            Tok::Op(o) => SpecTok::Op(*o),
        }
    }
}

pub open spec fn view_toks(v: Seq<Tok>) -> Seq<SpecTok> {
    v.map_values(|t: Tok| t@)
}

/// The operator spelled by two characters, longest match first.
pub open spec fn two_char_op(a: char, b: char) -> Option<Op> {
    if a == '=' && b == '=' {
        Some(Op::EqEq)
    } else if a == '!' && b == '=' {
        Some(Op::NotEq)
    } else if a == '<' && b == '=' {
        Some(Op::LessEq)
    } else if a == '>' && b == '=' {
        Some(Op::GreaterEq)
    } else if a == '&' && b == '&' {
        Some(Op::AndAnd)
    } else if a == '|' && b == '|' {
        Some(Op::OrOr)
    } else if a == '<' && b == '<' {
        Some(Op::ShiftLeft)
    } else if a == '>' && b == '>' {
        Some(Op::ShiftRight)
    } else if a == '.' && b == '.' {
        Some(Op::DotDot)
    } else {
        None
    }
}

/// The operator spelled by one character.
pub open spec fn one_char_op(c: char) -> Option<Op> {
    if c == '+' {
        Some(Op::Plus)
    } else if c == '-' {
        Some(Op::Minus)
    } else if c == '*' {
        Some(Op::Star)
    } else if c == '/' {
        Some(Op::Slash)
    } else if c == '&' {
        Some(Op::Amp)
    } else if c == '<' {
        Some(Op::Less)
    } else if c == '>' {
        Some(Op::Greater)
    } else if c == '!' {
        Some(Op::Bang)
    } else if c == '(' {
        Some(Op::LParen)
    } else if c == ')' {
        Some(Op::RParen)
    } else if c == '[' {
        Some(Op::LBracket)
    } else if c == ']' {
        Some(Op::RBracket)
    } else if c == ':' {
        Some(Op::Colon)
    } else {
        None
    }
}

pub open spec fn is_bin_digit(c: char) -> bool {
    c == '0' || c == '1'
}

pub open spec fn is_ident_char(c: char) -> bool {
    alphanumeric(c) || c == '_'
}

/// The character classes that make up multi-character tokens.
#[derive(Debug, Clone, Copy, PartialEq, Eq, Structural)]
pub enum Class {
    Hex,
    Bin,
    Dec,
    Ident,
}

pub open spec fn in_class(k: Class, c: char) -> bool {
    match k {
        Class::Hex => is_ascii_hexdigit(c),
        Class::Bin => is_bin_digit(c),
        Class::Dec => is_ascii_digit(c),
        Class::Ident => is_ident_char(c),
    }
}

/// Index just past the run of characters of class `k` starting at `j`.
pub open spec fn scan_while(c: Seq<char>, j: int, k: Class) -> int
    decreases c.len() - j,
{
    if 0 <= j < c.len() && in_class(k, c[j]) {
        scan_while(c, j + 1, k)
    } else {
        j
    }
}

pub proof fn lemma_scan_while(c: Seq<char>, j: int, k: Class)
    requires
        0 <= j,
    ensures
        j <= scan_while(c, j, k),
        j <= c.len() ==> scan_while(c, j, k) <= c.len(),
        forall|m: int| j <= m < scan_while(c, j, k) ==> in_class(k, #[trigger] c[m]),
    decreases c.len() - j,
{
    if 0 <= j < c.len() && in_class(k, c[j]) {
        lemma_scan_while(c, j + 1, k);
    }
}

/// Numeric value of a digit character.
pub open spec fn digit_value(c: char) -> int {
    if '0' <= c <= '9' {
        c as int - '0' as int
    } else if 'a' <= c <= 'f' {
        c as int - 'a' as int + 10
    } else {
        c as int - 'A' as int + 10
    }
}

/// Value of a digit string in the given radix.
pub open spec fn digits_value(s: Seq<char>, radix: int) -> int
    decreases s.len(),
{
    if s.len() == 0 {
        0
    } else {
        digits_value(s.drop_last(), radix) * radix + digit_value(s.last())
    }
}

/// A digit string as an `i64`, rejecting an empty string and overflow.
pub open spec fn parse_digits(s: Seq<char>, radix: int) -> Result<i64, ExprError> {
    if s.len() == 0 || digits_value(s, radix) > i64::MAX {
        Err(ExprError::InvalidLiteral)
    } else {
        Ok(digits_value(s, radix) as i64)
    }
}

pub open spec fn prepend_tok(t: SpecTok, r: Result<Seq<SpecTok>, ExprError>) -> Result<
    Seq<SpecTok>,
    ExprError,
> {
    match r {
        Ok(rest) => Ok(seq![t] + rest),
        Err(e) => Err(e),
    }
}

pub open spec fn prepend_all(p: Seq<SpecTok>, r: Result<Seq<SpecTok>, ExprError>) -> Result<
    Seq<SpecTok>,
    ExprError,
> {
    match r {
        Ok(rest) => Ok(p + rest),
        Err(e) => Err(e),
    }
}

/// A literal token of `radix` spelled by `c[start..end]`, followed by the
/// tokens `rest`.
pub open spec fn lex_number(
    c: Seq<char>,
    start: int,
    end: int,
    radix: int,
    rest: Result<Seq<SpecTok>, ExprError>,
) -> Result<Seq<SpecTok>, ExprError> {
    match parse_digits(c.subrange(start, end), radix) {
        Ok(v) => prepend_tok(SpecTok::Int(v), rest),
        Err(e) => Err(e),
    }
}

/// Tokens of `c` from index `i` on: whitespace is skipped; a digit starts a
/// number (`0x`/`0X` hex, `0b`/`0B` binary, else decimal); a letter or `_`
/// starts an identifier; otherwise the longest operator matches.
pub open spec fn spec_lex_from(c: Seq<char>, i: int) -> Result<Seq<SpecTok>, ExprError>
    decreases c.len() - i,
{
    if i < 0 || i >= c.len() {
        Ok(seq![])
    } else {
        let ch = c[i];
        if char_is_whitespace(ch) {
            spec_lex_from(c, i + 1)
        } else if is_ascii_digit(ch) {
            if ch == '0' && i + 1 < c.len() && (c[i + 1] == 'x' || c[i + 1] == 'X') {
                proof {
                    lemma_scan_while(c, i + 2, Class::Hex);
                }
                let e = scan_while(c, i + 2, Class::Hex);
                lex_number(c, i + 2, e, 16, spec_lex_from(c, e))
            } else if ch == '0' && i + 1 < c.len() && (c[i + 1] == 'b' || c[i + 1] == 'B') {
                proof {
                    lemma_scan_while(c, i + 2, Class::Bin);
                }
                let e = scan_while(c, i + 2, Class::Bin);
                lex_number(c, i + 2, e, 2, spec_lex_from(c, e))
            } else {
                proof {
                    lemma_scan_while(c, i + 1, Class::Dec);
                }
                let e = scan_while(c, i + 1, Class::Dec);
                lex_number(c, i, e, 10, spec_lex_from(c, e))
            }
        } else if alphabetic(ch) || ch == '_' {
            proof {
                lemma_scan_while(c, i + 1, Class::Ident);
            }
            let e = scan_while(c, i + 1, Class::Ident);
            prepend_tok(SpecTok::Ident(c.subrange(i, e)), spec_lex_from(c, e))
        } else if i + 1 < c.len() && two_char_op(ch, c[i + 1]) is Some {
            prepend_tok(SpecTok::Op(two_char_op(ch, c[i + 1])->0), spec_lex_from(c, i + 2))
        } else {
            match one_char_op(ch) {
                Some(op) => prepend_tok(SpecTok::Op(op), spec_lex_from(c, i + 1)),
                None => Err(ExprError::UnexpectedCharacter),
            }
        }
    }
}

/// Tokens of a whole expression text.
pub open spec fn spec_tokenize(c: Seq<char>) -> Result<Seq<SpecTok>, ExprError> {
    spec_lex_from(c, 0)
}

/// Every integer token is non-negative, as every literal is.
pub open spec fn toks_nonneg(t: Seq<SpecTok>) -> bool {
    forall|i: int| 0 <= i < t.len() ==> (#[trigger] t[i] matches SpecTok::Int(v) ==> v >= 0)
}

proof fn lemma_number_nonneg(c: Seq<char>, start: int, end: int, radix: int, k: Class)
    requires
        0 <= start <= end <= c.len(),
        radix_class(radix, k),
        forall|m: int| start <= m < end ==> in_class(k, #[trigger] c[m]),
    ensures
        parse_digits(c.subrange(start, end), radix) matches Ok(v) ==> v >= 0,
{
    let s = c.subrange(start, end);
    assert forall|m: int| 0 <= m < s.len() implies in_class(k, #[trigger] s[m]) by {
        assert(s[m] == c[start + m]);
    }
    lemma_digits_nonneg(s, radix, k);
}

proof fn lemma_prepend_nonneg(t: SpecTok, r: Result<Seq<SpecTok>, ExprError>)
    requires
        t matches SpecTok::Int(v) ==> v >= 0,
        r matches Ok(rest) ==> toks_nonneg(rest),
    ensures
        prepend_tok(t, r) matches Ok(all) ==> toks_nonneg(all),
{
    if let Ok(rest) = r {
        let all = seq![t] + rest;
        assert forall|i: int| 0 <= i < all.len() implies (#[trigger] all[i] matches SpecTok::Int(
            v,
        ) ==> v >= 0) by {
            if i > 0 {
                assert(all[i] == rest[i - 1]);
            }
        }
    }
}

proof fn lemma_lex_nonneg(c: Seq<char>, i: int)
    ensures
        spec_lex_from(c, i) matches Ok(t) ==> toks_nonneg(t),
    decreases c.len() - i,
{
    if i < 0 || i >= c.len() {
    } else {
        let ch = c[i];
        if char_is_whitespace(ch) {
            lemma_lex_nonneg(c, i + 1);
        } else if is_ascii_digit(ch) {
            let (start, from, k, radix) = if ch == '0' && i + 1 < c.len() && (c[i + 1] == 'x'
                || c[i + 1] == 'X') {
                (i + 2, i + 2, Class::Hex, 16int)
            } else if ch == '0' && i + 1 < c.len() && (c[i + 1] == 'b' || c[i + 1] == 'B') {
                (i + 2, i + 2, Class::Bin, 2int)
            } else {
                (i, i + 1, Class::Dec, 10int)
            };
            lemma_scan_while(c, from, k);
            let e = scan_while(c, from, k);
            lemma_lex_nonneg(c, e);
            lemma_number_nonneg(c, start, e, radix, k);
            if let Ok(v) = parse_digits(c.subrange(start, e), radix) {
                lemma_prepend_nonneg(SpecTok::Int(v), spec_lex_from(c, e));
            }
        } else if alphabetic(ch) || ch == '_' {
            lemma_scan_while(c, i + 1, Class::Ident);
            let e = scan_while(c, i + 1, Class::Ident);
            lemma_lex_nonneg(c, e);
            lemma_prepend_nonneg(SpecTok::Ident(c.subrange(i, e)), spec_lex_from(c, e));
        } else if i + 1 < c.len() && two_char_op(ch, c[i + 1]) is Some {
            lemma_lex_nonneg(c, i + 2);
            lemma_prepend_nonneg(SpecTok::Op(two_char_op(ch, c[i + 1])->0), spec_lex_from(c, i + 2));
        } else {
            lemma_lex_nonneg(c, i + 1);
            if let Some(op) = one_char_op(ch) {
                lemma_prepend_nonneg(SpecTok::Op(op), spec_lex_from(c, i + 1));
            }
        }
    }
}

/// The tokens of any text carry only non-negative integers.
pub proof fn lemma_tokens_nonneg(c: Seq<char>)
    ensures
        spec_tokenize(c) matches Ok(t) ==> toks_nonneg(t),
{
    lemma_lex_nonneg(c, 0);
}

fn two_char_op_exec(a: char, b: char) -> (r: Option<Op>)
    ensures
        r == two_char_op(a, b),
{
    if a == '=' && b == '=' {
        Some(Op::EqEq)
    } else if a == '!' && b == '=' {
        Some(Op::NotEq)
    } else if a == '<' && b == '=' {
        Some(Op::LessEq)
    } else if a == '>' && b == '=' {
        Some(Op::GreaterEq)
    } else if a == '&' && b == '&' {
        Some(Op::AndAnd)
    } else if a == '|' && b == '|' {
        Some(Op::OrOr)
    } else if a == '<' && b == '<' {
        Some(Op::ShiftLeft)
    } else if a == '>' && b == '>' {
        Some(Op::ShiftRight)
    } else if a == '.' && b == '.' {
        Some(Op::DotDot)
    } else {
        None
    }
}

fn one_char_op_exec(c: char) -> (r: Option<Op>)
    ensures
        r == one_char_op(c),
{
    if c == '+' {
        Some(Op::Plus)
    } else if c == '-' {
        Some(Op::Minus)
    } else if c == '*' {
        Some(Op::Star)
    } else if c == '/' {
        Some(Op::Slash)
    } else if c == '&' {
        Some(Op::Amp)
    } else if c == '<' {
        Some(Op::Less)
    } else if c == '>' {
        Some(Op::Greater)
    } else if c == '!' {
        Some(Op::Bang)
    } else if c == '(' {
        Some(Op::LParen)
    } else if c == ')' {
        Some(Op::RParen)
    } else if c == '[' {
        Some(Op::LBracket)
    } else if c == ']' {
        Some(Op::RBracket)
    } else if c == ':' {
        Some(Op::Colon)
    } else {
        None
    }
}

fn in_class_exec(k: Class, c: char) -> (r: bool)
    ensures
        r == in_class(k, c),
{
    match k {
        Class::Hex => ('0' <= c && c <= '9') || ('a' <= c && c <= 'f') || ('A' <= c && c <= 'F'),
        Class::Bin => c == '0' || c == '1',
        Class::Dec => '0' <= c && c <= '9',
        Class::Ident => is_alphanumeric(c) || c == '_',
    }
}

/// Index just past the run of class `k` that starts at `j`.
fn scan(c: &Vec<char>, j: usize, k: Class) -> (e: usize)
    requires
        j <= c.len(),
    ensures
        e == scan_while(c@, j as int, k),
        j <= e <= c.len(),
{
    let mut e = j;
    while e < c.len() && in_class_exec(k, c[e])
        invariant
            j <= e <= c.len(),
            scan_while(c@, j as int, k) == scan_while(c@, e as int, k),
        decreases c.len() - e,
    {
        e = e + 1;
    }
    proof {
        lemma_scan_while(c@, j as int, k);
    }
    e
}

fn digit_value_exec(c: char) -> (d: i64)
    requires
        is_ascii_hexdigit(c),
    ensures
        d == digit_value(c),
        0 <= d < 16,
{
    let u = c as u32;
    if '0' <= c && c <= '9' {
        (u - ('0' as u32)) as i64
    } else if 'a' <= c && c <= 'f' {
        (u - ('a' as u32) + 10) as i64
    } else {
        (u - ('A' as u32) + 10) as i64
    }
}

pub open spec fn radix_class(radix: int, k: Class) -> bool {
    (radix == 16 && k == Class::Hex) || (radix == 2 && k == Class::Bin) || (radix == 10 && k
        == Class::Dec)
}

proof fn lemma_digit_bound(radix: int, k: Class, ch: char)
    requires
        radix_class(radix, k),
        in_class(k, ch),
    ensures
        0 <= digit_value(ch) < radix,
{
}

proof fn lemma_digits_nonneg(s: Seq<char>, radix: int, k: Class)
    requires
        radix_class(radix, k),
        forall|m: int| 0 <= m < s.len() ==> in_class(k, #[trigger] s[m]),
    ensures
        digits_value(s, radix) >= 0,
    decreases s.len(),
{
    if s.len() > 0 {
        assert forall|m: int| 0 <= m < s.drop_last().len() implies in_class(
            k,
            #[trigger] s.drop_last()[m],
        ) by {
            assert(s.drop_last()[m] == s[m]);
        }
        lemma_digits_nonneg(s.drop_last(), radix, k);
        lemma_digit_bound(radix, k, s.last());
        let a = digits_value(s.drop_last(), radix);
        assert(a * radix >= 0) by (nonlinear_arith)
            requires
                a >= 0,
                radix >= 2,
        ;
    }
}

/// A longer digit string is worth at least as much as its prefix.
proof fn lemma_digits_monotone(s: Seq<char>, k1: int, radix: int, k: Class)
    requires
        radix_class(radix, k),
        0 <= k1 <= s.len(),
        forall|m: int| 0 <= m < s.len() ==> in_class(k, #[trigger] s[m]),
    ensures
        digits_value(s.subrange(0, k1), radix) <= digits_value(s, radix),
    decreases s.len() - k1,
{
    if k1 < s.len() {
        let t = s.subrange(0, k1 + 1);
        assert forall|m: int| 0 <= m < t.len() implies in_class(k, #[trigger] t[m]) by {
            assert(t[m] == s[m]);
        }
        lemma_digits_monotone_step(t, radix, k);
        assert(t.drop_last() =~= s.subrange(0, k1));
        lemma_digits_monotone(s, k1 + 1, radix, k);
        assert(s.subrange(0, s.len() as int) =~= s);
    } else {
        assert(s.subrange(0, k1) =~= s);
    }
}

proof fn lemma_digits_monotone_step(t: Seq<char>, radix: int, k: Class)
    requires
        radix_class(radix, k),
        t.len() > 0,
        forall|m: int| 0 <= m < t.len() ==> in_class(k, #[trigger] t[m]),
    ensures
        digits_value(t.drop_last(), radix) <= digits_value(t, radix),
{
    assert forall|m: int| 0 <= m < t.drop_last().len() implies in_class(
        k,
        #[trigger] t.drop_last()[m],
    ) by {
        assert(t.drop_last()[m] == t[m]);
    }
    lemma_digits_nonneg(t.drop_last(), radix, k);
    lemma_digit_bound(radix, k, t.last());
    let a = digits_value(t.drop_last(), radix);
    assert(a <= a * radix) by (nonlinear_arith)
        requires
            a >= 0,
            radix >= 2,
    ;
}

/// The value of the digits `c[start..end]` of class `k` in `radix`.
fn parse_digits_exec(c: &Vec<char>, start: usize, end: usize, radix: i64, k: Class) -> (r: Result<
    i64,
    ExprError,
>)
    requires
        start <= end <= c.len(),
        radix_class(radix as int, k),
        forall|m: int| start <= m < end ==> in_class(k, #[trigger] c@[m]),
    ensures
        r == parse_digits(c@.subrange(start as int, end as int), radix as int),
{
    let ghost s = c@.subrange(start as int, end as int);
    assert forall|m: int| 0 <= m < s.len() implies in_class(k, #[trigger] s[m]) by {
        assert(s[m] == c@[start + m]);
    }
    if start == end {
        return Err(ExprError::InvalidLiteral);
    }
    let mut acc: i64 = 0;
    let mut j: usize = start;
    while j < end
        invariant
            start <= j <= end <= c.len(),
            radix_class(radix as int, k),
            s == c@.subrange(start as int, end as int),
            forall|m: int| 0 <= m < s.len() ==> in_class(k, #[trigger] s[m]),
            acc as int == digits_value(s.subrange(0, j - start), radix as int),
            acc >= 0,
        decreases end - j,
    {
        let ghost t = s.subrange(0, j - start + 1);
        assert(t.drop_last() =~= s.subrange(0, j - start));
        assert(t.last() == c@[j as int]);
        proof {
            lemma_digit_bound(radix as int, k, c@[j as int]);
        }
        let d = digit_value_exec(c[j]);
        let next = match acc.checked_mul(radix) {
            Some(m) => m.checked_add(d),
            None => None,
        };
        match next {
            Some(v) => {
                acc = v;
            },
            None => {
                proof {
                    assert(acc * radix + d > i64::MAX) by (nonlinear_arith)
                        requires
                            acc >= 0,
                            radix >= 2,
                            0 <= d,
                            acc * radix > i64::MAX || acc * radix + d > i64::MAX,
                    ;
                    lemma_digits_monotone(s, j - start + 1, radix as int, k);
                }
                return Err(ExprError::InvalidLiteral);
            },
        }
        j = j + 1;
    }
    assert(s.subrange(0, end - start) =~= s);
    Ok(acc)
}

proof fn lemma_prepend_step(p: Seq<SpecTok>, t: SpecTok, r: Result<Seq<SpecTok>, ExprError>)
    ensures
        prepend_all(p, prepend_tok(t, r)) == prepend_all(p.push(t), r),
{
    match r {
        Ok(rest) => {
            assert(p + (seq![t] + rest) =~= p.push(t) + rest);
        },
        Err(_) => {},
    }
}

pub proof fn lemma_view_toks_len(v: Seq<Tok>)
    ensures
        view_toks(v).len() == v.len(),
{
}

proof fn lemma_view_toks_push(v: Seq<Tok>, t: Tok)
    ensures
        view_toks(v.push(t)) == view_toks(v).push(t@),
{
    assert(view_toks(v.push(t)) =~= view_toks(v).push(t@));
}

/// Splits an expression text into tokens.
pub fn tokenize(src: &str) -> (r: Result<Vec<Tok>, ExprError>)
    ensures
        match r {
            Ok(t) => spec_tokenize(src@) == Ok::<Seq<SpecTok>, ExprError>(view_toks(t@)),
            Err(e) => spec_tokenize(src@) == Err::<Seq<SpecTok>, ExprError>(e),
        },
{
    let chars = str_to_chars(src);
    let ghost c = chars@;
    let n = chars.len();
    let mut toks: Vec<Tok> = Vec::new();
    let mut i: usize = 0;
    assert(view_toks(toks@) =~= Seq::<SpecTok>::empty());
    assert(prepend_all(seq![], spec_lex_from(c, 0)) == spec_lex_from(c, 0)) by {
        match spec_lex_from(c, 0) {
            Ok(rest) => {
                assert(Seq::<SpecTok>::empty() + rest =~= rest);
            },
            Err(_) => {},
        }
    }
    while i < n
        invariant
            c == chars@,
            c == src@,
            n == c.len(),
            i <= n,
            spec_lex_from(c, 0) == prepend_all(view_toks(toks@), spec_lex_from(c, i as int)),
        decreases n - i,
    {
        let ch = chars[i];
        if is_whitespace(ch) {
            i = i + 1;
        } else if '0' <= ch && ch <= '9' {
            let hex = ch == '0' && i + 1 < n && (chars[i + 1] == 'x' || chars[i + 1] == 'X');
            let bin = ch == '0' && i + 1 < n && (chars[i + 1] == 'b' || chars[i + 1] == 'B');
            let (start, k, radix) = if hex {
                (i + 2, Class::Hex, 16i64)
            } else if bin {
                (i + 2, Class::Bin, 2i64)
            } else {
                (i, Class::Dec, 10i64)
            };
            let from = if hex || bin {
                i + 2
            } else {
                i + 1
            };
            let e = scan(&chars, from, k);
            proof {
                lemma_scan_while(c, from as int, k);
                if !hex && !bin {
                    assert(in_class(Class::Dec, c[i as int]));
                }
            }
            let v = parse_digits_exec(&chars, start, e, radix, k);
            match v {
                Ok(v) => {
                    proof {
                        lemma_prepend_step(
                            view_toks(toks@),
                            SpecTok::Int(v),
                            spec_lex_from(c, e as int),
                        );
                        lemma_view_toks_push(toks@, Tok::Int(v));
                    }
                    toks.push(Tok::Int(v));
                    i = e;
                },
                Err(err) => {
                    assert(spec_lex_from(c, i as int) == Err::<Seq<SpecTok>, ExprError>(err));
                    return Err(err);
                },
            }
        } else if is_alphabetic(ch) || ch == '_' {
            let e = scan(&chars, i + 1, Class::Ident);
            let mut word: Vec<char> = Vec::new();
            let mut j = i;
            while j < e
                invariant
                    i <= j <= e <= n,
                    n == chars@.len(),
                    word@ == chars@.subrange(i as int, j as int),
                decreases e - j,
            {
                word.push(chars[j]);
                j = j + 1;
            }
            proof {
                lemma_prepend_step(
                    view_toks(toks@),
                    SpecTok::Ident(word@),
                    spec_lex_from(c, e as int),
                );
                lemma_view_toks_push(toks@, Tok::Ident(word));
            }
            toks.push(Tok::Ident(word));
            i = e;
        } else {
            let two = if i + 1 < n {
                two_char_op_exec(ch, chars[i + 1])
            } else {
                None
            };
            match two {
                Some(op) => {
                    proof {
                        lemma_prepend_step(
                            view_toks(toks@),
                            SpecTok::Op(op),
                            spec_lex_from(c, i + 2),
                        );
                        lemma_view_toks_push(toks@, Tok::Op(op));
                    }
                    toks.push(Tok::Op(op));
                    i = i + 2;
                },
                None => {
                    match one_char_op_exec(ch) {
                        Some(op) => {
                            proof {
                                lemma_prepend_step(
                                    view_toks(toks@),
                                    SpecTok::Op(op),
                                    spec_lex_from(c, i + 1),
                                );
                                lemma_view_toks_push(toks@, Tok::Op(op));
                            }
                            toks.push(Tok::Op(op));
                            i = i + 1;
                        },
                        None => {
                            assert(spec_lex_from(c, i as int) == Err::<Seq<SpecTok>, ExprError>(
                                ExprError::UnexpectedCharacter,
                            ));
                            return Err(ExprError::UnexpectedCharacter);
                        },
                    }
                },
            }
        }
    }
    assert(prepend_all(view_toks(toks@), Ok(seq![])) == Ok::<Seq<SpecTok>, ExprError>(
        view_toks(toks@),
    )) by {
        assert(view_toks(toks@) + seq![] =~= view_toks(toks@));
    }
    Ok(toks)
}

} // verus!
