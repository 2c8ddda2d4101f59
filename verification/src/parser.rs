//! The parser of the source language.
//!
//! ```text
//! expr := 'let' name '=' expr ('in' | ';') expr
//!       | '\' name '->' expr
//!       | 'if' expr 'then' expr 'else' expr
//!       | atom atom* [expr that starts with 'let', '\' or 'if']
//! atom := integer | 'true' | 'false' | name | '(' expr ')'
//! ```
//!
//! Application is by juxtaposition and associates to the left. An integer
//! may start with `-`. A name is made of letters, digits, `_` and `'`, does
//! not start with a digit, and may end in `!`.

use crate::ast::{
    app, conditional, lam, let_in, lit, var, var_var, ExprInfo, LiteralGenerator, Term,
};
use crate::generator::compilable;
use std::sync::Arc;
use vstd::prelude::*;
use vstd::string::{StrSliceExecFns, StringExecFns};

verus! {

/// Why a source text is not a program.
#[derive(Clone, Copy, PartialEq, Eq, Structural, Debug)]
pub enum ParseError {
    /// A character that no token starts with, at the given position.
    UnexpectedCharacter(usize),
    /// An integer that does not fit in 64 bits, at the given position.
    IntegerTooLarge(usize),
    /// A token that cannot stand where it stands, by its number.
    UnexpectedToken(usize),
    /// The text ends where more is expected.
    UnexpectedEnd,
    /// The expressions are nested too deeply.
    TooDeep,
}

/// A token of the source language.
#[derive(Clone, Copy, PartialEq, Eq, Structural, Debug)]
pub enum Token {
    Let,
    /// `in` or `;`.
    In,
    If,
    Then,
    Else,
    True,
    False,
    Backslash,
    Arrow,
    Equals,
    LParen,
    RParen,
    /// An integer, with the positions of its first character and of the
    /// character after its last.
    Int { value: i64, start: usize, end: usize },
    /// A name, by the same positions.
    Name { start: usize, end: usize },
}

/// White space.
pub open spec fn is_space(c: char) -> bool {
    c == ' ' || c == '\n' || c == '\t' || c == '\r'
}

/// A decimal digit.
pub open spec fn is_digit(c: char) -> bool {
    '0' <= c <= '9'
}

/// A character that a name can start with.
pub open spec fn is_name_start(c: char) -> bool {
    ('a' <= c <= 'z') || ('A' <= c <= 'Z') || c == '_'
}

/// A character that a name can go on with.
pub open spec fn is_name_part(c: char) -> bool {
    is_name_start(c) || is_digit(c) || c == '\''
}

fn space(c: char) -> (b: bool)
    ensures
        b == is_space(c),
{
    c == ' ' || c == '\n' || c == '\t' || c == '\r'
}

fn digit(c: char) -> (b: bool)
    ensures
        b == is_digit(c),
{
    '0' <= c && c <= '9'
}

fn name_start(c: char) -> (b: bool)
    ensures
        b == is_name_start(c),
{
    ('a' <= c && c <= 'z') || ('A' <= c && c <= 'Z') || c == '_'
}

fn name_part(c: char) -> (b: bool)
    ensures
        b == is_name_part(c),
{
    name_start(c) || digit(c) || c == '\''
}

/// The characters of a text.
pub fn characters(source: &str) -> (chars: Vec<char>)
    ensures
        chars@ == source@,
{
    let n = source.unicode_len();
    let mut chars: Vec<char> = Vec::new();
    let mut i: usize = 0;
    while i < n
        invariant
            i <= n,
            n == source@.len(),
            chars@ == source@.take(i as int),
        decreases n - i,
    {
        chars.push(source.get_char(i));
        assert(source@.take(i as int + 1) =~= source@.take(i as int).push(source@[i as int]));
        i += 1;
    }
    assert(source@.take(n as int) =~= source@);
    chars
}

/// The number that the digits of `chars` from `start` to `end` spell.
pub open spec fn digits_value(chars: Seq<char>, start: int, end: int) -> int
    decreases end - start,
{
    if end <= start {
        0
    } else {
        digits_value(chars, start, end - 1) * 10 + (chars[end - 1] as int - '0' as int)
    }
}

/// The number that a sign and digits spell.
pub open spec fn signed_value(chars: Seq<char>, start: int, end: int, negative: bool) -> int {
    if negative {
        -digits_value(chars, start, end)
    } else {
        digits_value(chars, start, end)
    }
}

/// More digits do not spell a smaller number.
proof fn lemma_digits_grow(chars: Seq<char>, start: int, mid: int, end: int)
    requires
        0 <= start <= mid <= end <= chars.len(),
        forall|i: int| start <= i < end ==> is_digit(chars[i]),
    ensures
        0 <= digits_value(chars, start, mid) <= digits_value(chars, start, end),
    decreases end - mid,
{
    lemma_digits_positive(chars, start, mid);
    if mid < end {
        lemma_digits_grow(chars, start, mid, end - 1);
        lemma_digits_positive(chars, start, end - 1);
    }
}

/// Digits spell no negative number.
proof fn lemma_digits_positive(chars: Seq<char>, start: int, end: int)
    requires
        0 <= start <= chars.len(),
        end <= chars.len(),
        forall|i: int| start <= i < end ==> is_digit(chars[i]),
    ensures
        0 <= digits_value(chars, start, end),
    decreases end - start,
{
    if end > start {
        lemma_digits_positive(chars, start, end - 1);
    }
}

/// The value of the digits of `chars` from `start` to `end`, negated if
/// `negative`, if it fits in 64 bits.
fn integer(chars: &Vec<char>, start: usize, end: usize, negative: bool) -> (r: Option<i64>)
    requires
        start <= end <= chars@.len(),
        forall|i: int| start <= i < end ==> is_digit(chars@[i]),
    ensures
        r == (if i64::MIN <= signed_value(chars@, start as int, end as int, negative) <= i64::MAX {
            Some(signed_value(chars@, start as int, end as int, negative) as i64)
        } else {
            None
        }),
{
    let mut value: i64 = 0;
    let mut i: usize = start;
    while i < end
        invariant
            start <= i <= end <= chars@.len(),
            forall|k: int| start <= k < end ==> is_digit(chars@[k]),
            value == signed_value(chars@, start as int, i as int, negative),
        decreases end - i,
    {
        let d = (chars[i] as u32 - '0' as u32) as i64;
        proof {
            lemma_digits_positive(chars@, start as int, i as int);
            lemma_digits_grow(chars@, start as int, i as int + 1, end as int);
        }
        if negative {
            if value < (i64::MIN + d) / 10 {
                return None;
            }
            value = value * 10 - d;
        } else {
            if value > (i64::MAX - d) / 10 {
                return None;
            }
            value = value * 10 + d;
        }
        i += 1;
    }
    Some(value)
}

/// Whether the characters of `chars` from `start` to `end` are those of
/// `word`.
fn is_word(chars: &Vec<char>, start: usize, end: usize, word: &str) -> (b: bool)
    requires
        start <= end <= chars@.len(),
    ensures
        b == (chars@.subrange(start as int, end as int) == word@),
{
    let n = word.unicode_len();
    if end - start != n {
        return false;
    }
    let mut i: usize = 0;
    while i < n
        invariant
            i <= n,
            n == word@.len(),
            end - start == n,
            start <= end <= chars@.len(),
            forall|k: int| 0 <= k < i ==> chars@[start + k] == word@[k],
        decreases n - i,
    {
        if chars[start + i] != word.get_char(i) {
            assert(chars@.subrange(start as int, end as int)[i as int] != word@[i as int]);
            return false;
        }
        i += 1;
    }
    assert(chars@.subrange(start as int, end as int) =~= word@);
    true
}

/// The position after the digits that start at `from`.
pub open spec fn digits_end(chars: Seq<char>, from: int) -> int
    decreases chars.len() - from,
{
    if from < 0 || from >= chars.len() || !is_digit(chars[from]) {
        from
    } else {
        digits_end(chars, from + 1)
    }
}

/// The position after the letters, digits, `_` and `'` that start at `from`.
pub open spec fn name_end(chars: Seq<char>, from: int) -> int
    decreases chars.len() - from,
{
    if from < 0 || from >= chars.len() || !is_name_part(chars[from]) {
        from
    } else {
        name_end(chars, from + 1)
    }
}

/// The token that a word is: a keyword, or a name.
pub open spec fn word_token(chars: Seq<char>, start: int, end: int) -> Token {
    let word = chars.subrange(start, end);
    if word == "let"@ {
        Token::Let
    } else if word == "in"@ {
        Token::In
    } else if word == "if"@ {
        Token::If
    } else if word == "then"@ {
        Token::Then
    } else if word == "else"@ {
        Token::Else
    } else if word == "true"@ {
        Token::True
    } else if word == "false"@ {
        Token::False
    } else {
        Token::Name { start: start as usize, end: end as usize }
    }
}

/// What starts at position `i` of a text: white space, which yields no
/// token, or a token. With it comes the position after it. Nothing starts
/// with a character that is none of these, and an integer that does not fit
/// in 64 bits is no token.
pub open spec fn token_at(chars: Seq<char>, i: int) -> Option<(Option<Token>, int)> {
    let c = chars[i];
    if is_space(c) {
        Some((None, i + 1))
    } else if c == '(' {
        Some((Some(Token::LParen), i + 1))
    } else if c == ')' {
        Some((Some(Token::RParen), i + 1))
    } else if c == ';' {
        Some((Some(Token::In), i + 1))
    } else if c == '=' {
        Some((Some(Token::Equals), i + 1))
    } else if c == '\\' {
        Some((Some(Token::Backslash), i + 1))
    } else if c == '-' && i + 1 < chars.len() && chars[i + 1] == '>' {
        Some((Some(Token::Arrow), i + 2))
    } else if is_digit(c) || (c == '-' && i + 1 < chars.len() && is_digit(chars[i + 1])) {
        let first = if c == '-' {
            i + 1
        } else {
            i
        };
        let end = digits_end(chars, first);
        let value = signed_value(chars, first, end, c == '-');
        if i64::MIN <= value <= i64::MAX {
            Some((Some(Token::Int { value: value as i64, start: i as usize, end: end as usize }), end))
        } else {
            None
        }
    } else if is_name_start(c) {
        let stem = name_end(chars, i + 1);
        let end = if stem < chars.len() && chars[stem] == '!' {
            stem + 1
        } else {
            stem
        };
        Some((Some(word_token(chars, i, end)), end))
    } else {
        None
    }
}

/// The tokens of a text from position `i` on, after the tokens `before`.
pub open spec fn tokens_from(chars: Seq<char>, i: int, before: Seq<Token>) -> Option<Seq<Token>>
    decreases chars.len() - i,
{
    if i < 0 || i >= chars.len() {
        Some(before)
    } else {
        match token_at(chars, i) {
            None => None,
            Some((token, next)) => {
                if next <= i || next > chars.len() {
                    None
                } else {
                    tokens_from(
                        chars,
                        next,
                        match token {
                            Some(t) => before.push(t),
                            None => before,
                        },
                    )
                }
            },
        }
    }
}

/// The tokens of a text, if it is made of tokens and white space.
pub open spec fn tokens_of(chars: Seq<char>) -> Option<Seq<Token>> {
    tokens_from(chars, 0, Seq::empty())
}

/// Scans the digits that start at `from`.
fn scan_digits(chars: &Vec<char>, from: usize) -> (end: usize)
    requires
        from <= chars@.len(),
    ensures
        end == digits_end(chars@, from as int),
        from <= end <= chars@.len(),
        forall|k: int| from <= k < end ==> is_digit(chars@[k]),
{
    let mut j: usize = from;
    while j < chars.len() && digit(chars[j])
        invariant
            from <= j <= chars@.len(),
            digits_end(chars@, j as int) == digits_end(chars@, from as int),
            forall|k: int| from <= k < j ==> is_digit(chars@[k]),
        decreases chars@.len() - j,
    {
        j += 1;
    }
    j
}

/// Scans the characters of a name that start at `from`.
fn scan_name(chars: &Vec<char>, from: usize) -> (end: usize)
    requires
        from <= chars@.len(),
    ensures
        end == name_end(chars@, from as int),
        from <= end <= chars@.len(),
{
    let mut j: usize = from;
    while j < chars.len() && name_part(chars[j])
        invariant
            from <= j <= chars@.len(),
            name_end(chars@, j as int) == name_end(chars@, from as int),
        decreases chars@.len() - j,
    {
        j += 1;
    }
    j
}

/// The token that the word from `start` to `end` is.
fn word(chars: &Vec<char>, start: usize, end: usize) -> (token: Token)
    requires
        start <= end <= chars@.len(),
    ensures
        token == word_token(chars@, start as int, end as int),
{
    if is_word(chars, start, end, "let") {
        Token::Let
    } else if is_word(chars, start, end, "in") {
        Token::In
    } else if is_word(chars, start, end, "if") {
        Token::If
    } else if is_word(chars, start, end, "then") {
        Token::Then
    } else if is_word(chars, start, end, "else") {
        Token::Else
    } else if is_word(chars, start, end, "true") {
        Token::True
    } else if is_word(chars, start, end, "false") {
        Token::False
    } else {
        Token::Name { start, end }
    }
}

/// What starts at position `i` of the text.
fn scan_token(chars: &Vec<char>, i: usize) -> (r: Result<(Option<Token>, usize), ParseError>)
    requires
        i < chars@.len(),
    ensures
        match r {
            Ok((token, next)) => token_at(chars@, i as int) == Some((token, next as int)) && i
                < next <= chars@.len() && within(
                match token {
                    Some(t) => seq![t],
                    None => Seq::empty(),
                },
                chars@.len(),
            ),
            Err(_) => token_at(chars@, i as int) is None,
        },
{
    let n = chars.len();
    let c = chars[i];
    if space(c) {
        Ok((None, i + 1))
    } else if c == '(' {
        Ok((Some(Token::LParen), i + 1))
    } else if c == ')' {
        Ok((Some(Token::RParen), i + 1))
    } else if c == ';' {
        Ok((Some(Token::In), i + 1))
    } else if c == '=' {
        Ok((Some(Token::Equals), i + 1))
    } else if c == '\\' {
        Ok((Some(Token::Backslash), i + 1))
    } else if c == '-' && i + 1 < n && chars[i + 1] == '>' {
        Ok((Some(Token::Arrow), i + 2))
    } else if digit(c) || (c == '-' && i + 1 < n && digit(chars[i + 1])) {
        let negative = c == '-';
        let first = if negative {
            i + 1
        } else {
            i
        };
        assert(is_digit(chars@[first as int]));
        assert(digits_end(chars@, first as int) == digits_end(chars@, first as int + 1));
        let end = scan_digits(chars, first + 1);
        match integer(chars, first, end, negative) {
            Some(value) => {
                let token = Token::Int { value, start: i, end };
                assert(seq![token][0] == token);
                Ok((Some(token), end))
            },
            None => Err(ParseError::IntegerTooLarge(i)),
        }
    } else if name_start(c) {
        let stem = scan_name(chars, i + 1);
        let end = if stem < n && chars[stem] == '!' {
            stem + 1
        } else {
            stem
        };
        let token = word(chars, i, end);
        assert(seq![token][0] == token);
        Ok((Some(token), end))
    } else {
        Err(ParseError::UnexpectedCharacter(i))
    }
}

/// The tokens of a text. Every token lies within the text.
pub fn tokenize(chars: &Vec<char>) -> (r: Result<Vec<Token>, ParseError>)
    ensures
        match r {
            Ok(tokens) => tokens_of(chars@) == Some(tokens@) && within(tokens@, chars@.len()),
            Err(_) => tokens_of(chars@) is None,
        },
{
    let mut tokens: Vec<Token> = Vec::new();
    let n = chars.len();
    let mut i: usize = 0;
    while i < n
        invariant
            i <= n,
            n == chars@.len(),
            within(tokens@, chars@.len()),
            tokens_from(chars@, i as int, tokens@) == tokens_of(chars@),
        decreases n - i,
    {
        let (token, next) = scan_token(chars, i)?;
        match token {
            Some(t) => {
                let ghost before = tokens@;
                tokens.push(t);
                assert forall|k: int| 0 <= k < tokens@.len() implies match #[trigger] tokens@[k] {
                    Token::Int { value, start, end } => start <= end <= chars@.len(),
                    Token::Name { start, end } => start <= end <= chars@.len(),
                    _ => true,
                } by {
                    if k < before.len() {
                        assert(tokens@[k] == before[k]);
                    } else {
                        assert(tokens@[k] == seq![t][0]);
                    }
                }
            },
            None => {},
        }
        i = next;
    }
    Ok(tokens)
}

/// The tokens lie within a text of `n` characters.
pub open spec fn within(tokens: Seq<Token>, n: nat) -> bool {
    forall|i: int|
        0 <= i < tokens.len() ==> match #[trigger] tokens[i] {
            Token::Int { value, start, end } => start <= end <= n,
            Token::Name { start, end } => start <= end <= n,
            _ => true,
        }
}

/// The text from `start` to `end`, as a string.
fn slice(source: &str, start: usize, end: usize) -> (s: String)
    requires
        start <= end <= source@.len(),
    ensures
        s@ == source@.subrange(start as int, end as int),
{
    String::from_str(source.substring_char(start, end))
}

/// The deepest nesting of expressions that the parser follows.
pub const MAX_DEPTH: usize = 10000;

/// Whether an atom can start with the token.
pub open spec fn atom_start(token: Token) -> bool {
    token is Int || token is Name || token is True || token is False || token is LParen
}

/// The atom that starts at token `pos`, with the position after it.
pub open spec fn atom_at(source: Seq<char>, tokens: Seq<Token>, pos: int, depth: nat) -> Option<
    (Term, int),
>
    decreases depth, 0nat, 0nat,
{
    if pos < 0 || pos >= tokens.len() {
        None
    } else {
        match tokens[pos] {
            Token::Int { value, start, end } => Some(
                (
                    Term::Lit {
                        generator: LiteralGenerator::Int(value),
                        free_vars: Seq::empty(),
                        name: source.subrange(start as int, end as int),
                    },
                    pos + 1,
                ),
            ),
            Token::True => Some(
                (
                    Term::Lit {
                        generator: LiteralGenerator::Bool(true),
                        free_vars: Seq::empty(),
                        name: "true"@,
                    },
                    pos + 1,
                ),
            ),
            Token::False => Some(
                (
                    Term::Lit {
                        generator: LiteralGenerator::Bool(false),
                        free_vars: Seq::empty(),
                        name: "false"@,
                    },
                    pos + 1,
                ),
            ),
            Token::Name { start, end } => Some(
                (Term::Var { name: source.subrange(start as int, end as int), term: true }, pos + 1),
            ),
            Token::LParen => {
                if depth == 0 {
                    None
                } else {
                    match expr_at(source, tokens, pos + 1, (depth - 1) as nat) {
                        Some((e, next)) => {
                            if 0 <= next < tokens.len() && tokens[next] == Token::RParen {
                                Some((e, next + 1))
                            } else {
                                None
                            }
                        },
                        None => None,
                    }
                }
            },
            _ => None,
        }
    }
}

/// `head` applied to the atoms that start at token `pos`, one after the
/// other.
pub open spec fn args_at(
    source: Seq<char>,
    tokens: Seq<Token>,
    head: Term,
    pos: int,
    depth: nat,
) -> Option<(Term, int)>
    decreases depth, 1nat, tokens.len() - pos,
{
    if 0 <= pos < tokens.len() && atom_start(tokens[pos]) {
        match atom_at(source, tokens, pos, depth) {
            Some((arg, next)) => {
                if next <= pos || next > tokens.len() {
                    None
                } else {
                    args_at(source, tokens, Term::App(Box::new(head), Box::new(arg)), next, depth)
                }
            },
            None => None,
        }
    } else {
        Some((head, pos))
    }
}

/// The name at token `pos`.
pub open spec fn name_at(source: Seq<char>, tokens: Seq<Token>, pos: int) -> Option<Seq<char>> {
    if 0 <= pos < tokens.len() {
        match tokens[pos] {
            Token::Name { start, end } => Some(source.subrange(start as int, end as int)),
            _ => None,
        }
    } else {
        None
    }
}

/// Token `pos` is `token`.
pub open spec fn token_is(tokens: Seq<Token>, pos: int, token: Token) -> bool {
    0 <= pos < tokens.len() && tokens[pos] == token
}

/// The expression that starts at token `pos`, with the position after it.
/// Expressions nested more than `depth` deep are not followed.
pub open spec fn expr_at(source: Seq<char>, tokens: Seq<Token>, pos: int, depth: nat) -> Option<
    (Term, int),
>
    decreases depth, 2nat, 0nat,
{
    if pos < 0 || pos >= tokens.len() || depth == 0 {
        None
    } else {
        let inner = (depth - 1) as nat;
        match tokens[pos] {
            Token::Let => match name_at(source, tokens, pos + 1) {
                Some(name) => {
                    if token_is(tokens, pos + 2, Token::Equals) {
                        match expr_at(source, tokens, pos + 3, inner) {
                            Some((bound, after_bound)) => {
                                if token_is(tokens, after_bound, Token::In) {
                                    match expr_at(source, tokens, after_bound + 1, inner) {
                                        Some((body, next)) => Some(
                                            (Term::Let(name, Box::new(bound), Box::new(body)), next),
                                        ),
                                        None => None,
                                    }
                                } else {
                                    None
                                }
                            },
                            None => None,
                        }
                    } else {
                        None
                    }
                },
                None => None,
            },
            Token::Backslash => match name_at(source, tokens, pos + 1) {
                Some(name) => {
                    if token_is(tokens, pos + 2, Token::Arrow) {
                        match expr_at(source, tokens, pos + 3, inner) {
                            Some((body, next)) => Some((Term::Lam(name, Box::new(body)), next)),
                            None => None,
                        }
                    } else {
                        None
                    }
                },
                None => None,
            },
            Token::If => match expr_at(source, tokens, pos + 1, inner) {
                Some((cond, after_cond)) => {
                    if token_is(tokens, after_cond, Token::Then) {
                        match expr_at(source, tokens, after_cond + 1, inner) {
                            Some((then_expr, after_then)) => {
                                if token_is(tokens, after_then, Token::Else) {
                                    match expr_at(source, tokens, after_then + 1, inner) {
                                        Some((else_expr, next)) => Some(
                                            (
                                                Term::If(
                                                    Box::new(cond),
                                                    Box::new(then_expr),
                                                    Box::new(else_expr),
                                                ),
                                                next,
                                            ),
                                        ),
                                        None => None,
                                    }
                                } else {
                                    None
                                }
                            },
                            None => None,
                        }
                    } else {
                        None
                    }
                },
                None => None,
            },
            _ => match atom_at(source, tokens, pos, inner) {
                Some((first, after_first)) => match args_at(
                    source,
                    tokens,
                    first,
                    after_first,
                    inner,
                ) {
                    Some((e, next)) => {
                        if 0 <= next < tokens.len() && (tokens[next] is Let
                            || tokens[next] is Backslash || tokens[next] is If) {
                            match expr_at(source, tokens, next, inner) {
                                Some((arg, after_arg)) => Some(
                                    (Term::App(Box::new(e), Box::new(arg)), after_arg),
                                ),
                                None => None,
                            }
                        } else {
                            Some((e, next))
                        }
                    },
                    None => None,
                },
                None => None,
            },
        }
    }
}

/// The program that a text is, if it is one: the text is made of tokens,
/// and the tokens are one expression.
pub open spec fn program_of(source: Seq<char>) -> Option<Term> {
    match tokens_of(source) {
        Some(tokens) => match expr_at(source, tokens, 0, MAX_DEPTH as nat) {
            Some((e, next)) => {
                if next == tokens.len() {
                    Some(e)
                } else {
                    None
                }
            },
            None => None,
        },
        None => None,
    }
}

/// Parses an atom that starts at token `pos`.
fn parse_atom(source: &str, tokens: &Vec<Token>, pos: usize, depth: usize) -> (r: Result<
    (Arc<ExprInfo>, usize),
    ParseError,
>)
    requires
        within(tokens@, source@.len()),
    ensures
        match r {
            Ok(p) => atom_at(source@, tokens@, pos as int, depth as nat) == Some((p.0@, p.1 as int))
                && pos < p.1 <= tokens@.len() && compilable(p.0@),
            Err(_) => atom_at(source@, tokens@, pos as int, depth as nat) is None,
        },
    decreases depth, 0nat,
{
    if pos >= tokens.len() {
        return Err(ParseError::UnexpectedEnd);
    }
    match tokens[pos] {
        Token::Int { value, start, end } => {
            let names: Vec<String> = Vec::new();
            assert(crate::ast::names_of(names@) =~= Seq::<Seq<char>>::empty());
            Ok((lit(LiteralGenerator::Int(value), names, slice(source, start, end)), pos + 1))
        },
        Token::True => {
            let names: Vec<String> = Vec::new();
            assert(crate::ast::names_of(names@) =~= Seq::<Seq<char>>::empty());
            Ok((lit(LiteralGenerator::Bool(true), names, String::from_str("true")), pos + 1))
        },
        Token::False => {
            let names: Vec<String> = Vec::new();
            assert(crate::ast::names_of(names@) =~= Seq::<Seq<char>>::empty());
            Ok((lit(LiteralGenerator::Bool(false), names, String::from_str("false")), pos + 1))
        },
        Token::Name { start, end } => {
            let name = slice(source, start, end);
            Ok((var(name.as_str()), pos + 1))
        },
        Token::LParen => {
            if depth == 0 {
                return Err(ParseError::TooDeep);
            }
            let (e, next) = parse_expr(source, tokens, pos + 1, depth - 1)?;
            if next >= tokens.len() {
                return Err(ParseError::UnexpectedEnd);
            }
            match tokens[next] {
                Token::RParen => Ok((e, next + 1)),
                _ => Err(ParseError::UnexpectedToken(next)),
            }
        },
        _ => Err(ParseError::UnexpectedToken(pos)),
    }
}

/// The name at token `pos`.
fn parse_name(source: &str, tokens: &Vec<Token>, pos: usize) -> (r: Result<String, ParseError>)
    requires
        within(tokens@, source@.len()),
    ensures
        match r {
            Ok(name) => name_at(source@, tokens@, pos as int) == Some(name@) && pos < tokens@.len(),
            Err(_) => name_at(source@, tokens@, pos as int) is None,
        },
{
    if pos >= tokens.len() {
        return Err(ParseError::UnexpectedEnd);
    }
    match tokens[pos] {
        Token::Name { start, end } => Ok(slice(source, start, end)),
        _ => Err(ParseError::UnexpectedToken(pos)),
    }
}

/// Checks that token `pos` is `token`.
fn expect(tokens: &Vec<Token>, pos: usize, token: Token) -> (r: Result<(), ParseError>)
    ensures
        r is Ok == token_is(tokens@, pos as int, token),
{
    if pos >= tokens.len() {
        return Err(ParseError::UnexpectedEnd);
    }
    if tokens[pos] == token {
        Ok(())
    } else {
        Err(ParseError::UnexpectedToken(pos))
    }
}

/// Whether an atom can start with the token.
fn starts_atom(token: Token) -> (b: bool)
    ensures
        b == atom_start(token),
{
    match token {
        Token::Int { value, start, end } => true,
        Token::Name { start, end } => true,
        Token::True => true,
        Token::False => true,
        Token::LParen => true,
        _ => false,
    }
}

/// Applies `head` to the atoms that start at token `pos`.
fn parse_args(source: &str, tokens: &Vec<Token>, head: Arc<ExprInfo>, pos: usize, depth: usize) -> (r:
    Result<(Arc<ExprInfo>, usize), ParseError>)
    requires
        within(tokens@, source@.len()),
        compilable(head@),
        pos <= tokens@.len(),
    ensures
        match r {
            Ok(p) => args_at(source@, tokens@, head@, pos as int, depth as nat) == Some(
                (p.0@, p.1 as int),
            ) && pos <= p.1 <= tokens@.len() && compilable(p.0@),
            Err(_) => args_at(source@, tokens@, head@, pos as int, depth as nat) is None,
        },
    decreases depth, 1nat,
{
    let mut e = head;
    let mut next = pos;
    while next < tokens.len() && starts_atom(tokens[next])
        invariant
            pos <= next <= tokens@.len(),
            compilable(e@),
            within(tokens@, source@.len()),
            args_at(source@, tokens@, e@, next as int, depth as nat) == args_at(
                source@,
                tokens@,
                head@,
                pos as int,
                depth as nat,
            ),
        decreases tokens@.len() - next,
    {
        let (arg, after_arg) = parse_atom(source, tokens, next, depth)?;
        e = app(e, arg);
        next = after_arg;
    }
    Ok((e, next))
}

/// Parses an expression that starts at token `pos`.
fn parse_expr(source: &str, tokens: &Vec<Token>, pos: usize, depth: usize) -> (r: Result<
    (Arc<ExprInfo>, usize),
    ParseError,
>)
    requires
        within(tokens@, source@.len()),
    ensures
        match r {
            Ok(p) => expr_at(source@, tokens@, pos as int, depth as nat) == Some((p.0@, p.1 as int))
                && pos < p.1 <= tokens@.len() && compilable(p.0@),
            Err(_) => expr_at(source@, tokens@, pos as int, depth as nat) is None,
        },
    decreases depth, 2nat,
{
    if pos >= tokens.len() {
        return Err(ParseError::UnexpectedEnd);
    }
    if depth == 0 {
        return Err(ParseError::TooDeep);
    }
    match tokens[pos] {
        Token::Let => {
            let name = parse_name(source, tokens, pos + 1)?;
            expect(tokens, pos + 2, Token::Equals)?;
            let (bound, after_bound) = parse_expr(source, tokens, pos + 3, depth - 1)?;
            expect(tokens, after_bound, Token::In)?;
            let (body, next) = parse_expr(source, tokens, after_bound + 1, depth - 1)?;
            Ok((let_in(var_var(name.as_str()), bound, body), next))
        },
        Token::Backslash => {
            let name = parse_name(source, tokens, pos + 1)?;
            expect(tokens, pos + 2, Token::Arrow)?;
            let (body, next) = parse_expr(source, tokens, pos + 3, depth - 1)?;
            Ok((lam(var_var(name.as_str()), body), next))
        },
        Token::If => {
            let (cond, after_cond) = parse_expr(source, tokens, pos + 1, depth - 1)?;
            expect(tokens, after_cond, Token::Then)?;
            let (then_expr, after_then) = parse_expr(source, tokens, after_cond + 1, depth - 1)?;
            expect(tokens, after_then, Token::Else)?;
            let (else_expr, next) = parse_expr(source, tokens, after_then + 1, depth - 1)?;
            Ok((conditional(cond, then_expr, else_expr), next))
        },
        _ => {
            let (first, after_first) = parse_atom(source, tokens, pos, depth - 1)?;
            let (e, next) = parse_args(source, tokens, first, after_first, depth - 1)?;
            if next < tokens.len() {
                match tokens[next] {
                    Token::Let | Token::Backslash | Token::If => {
                        let (arg, after_arg) = parse_expr(source, tokens, next, depth - 1)?;
                        return Ok((app(e, arg), after_arg));
                    },
                    _ => {},
                }
            }
            Ok((e, next))
        },
    }
}

/// Parses a program. The whole text must be one expression.
///
/// The result is the program that the text is, and an error if and only if
/// the text is no program.
pub fn parse_source(source: &str) -> (r: Result<Arc<ExprInfo>, ParseError>)
    ensures
        match r {
            Ok(e) => program_of(source@) == Some(e@) && compilable(e@),
            Err(_) => program_of(source@) is None,
        },
{
    let chars = characters(source);
    let tokens = tokenize(&chars)?;
    let (e, next) = parse_expr(source, &tokens, 0, MAX_DEPTH)?;
    if next < tokens.len() {
        return Err(ParseError::UnexpectedToken(next));
    }
    Ok(e)
}

} // verus!
