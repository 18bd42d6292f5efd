//! Characters and words as the scanner tells them apart: what a character
//! announces, and which token a punctuation mark, an operator or a reserved
//! word stands for.

use vstd::prelude::*;
use vstd::string::StringSliceAdditionalSpecFns;
use vstd::utf8::{encode_utf8, encode_utf8_decode_utf8};
use crate::grammar::{is_alphabetic, is_digit, keyword, lead_given, operator, punctuation, Lead};
use crate::token::TokenType;

verus! {

/// `char::is_alphabetic` of the standard library: whether `c` has the Unicode
/// `Alphabetic` property. Nothing more is claimed than that the answer depends
/// on the character alone.
#[verifier::external_body]
pub(crate) fn char_is_alphabetic(c: char) -> (r: bool)
    ensures
        r == is_alphabetic(c),
{
    c.is_alphabetic()
}

/// Whether `c` is a decimal digit.
pub fn char_is_digit(c: char) -> (r: bool)
    ensures
        r == is_digit(c),
{
    '0' <= c && c <= '9'
}

/// Whether two texts hold the same characters, decided on their bytes.
fn same_text(a: &str, b: &str) -> (r: bool)
    ensures
        r == (a@ == b@),
{
    let x = a.as_bytes();
    let y = b.as_bytes();
    proof {
        // a text is what its bytes decode to, so equal bytes are equal texts
        encode_utf8_decode_utf8(a@);
        encode_utf8_decode_utf8(b@);
    }
    let n = x.len();
    if n != y.len() {
        return false;
    }
    let mut i: usize = 0;
    while i < n
        invariant
            x@ == encode_utf8(a@),
            y@ == encode_utf8(b@),
            n == x@.len(),
            n == y@.len(),
            i <= n,
            forall|j: int| 0 <= j < i ==> x@[j] == y@[j],
        decreases n - i,
    {
        if x[i] != y[i] {
            return false;
        }
        i += 1;
    }
    assert(x@ =~= y@);
    true
}

/// The reserved word that `text` spells, if any.
pub fn keyword_of(text: &str) -> (r: Option<TokenType<'static>>)
    ensures
        match r {
            Some(t) => keyword(text@) == Some(t@),
            None => keyword(text@) is None,
        },
{
    if same_text(text, "and") {
        Some(TokenType::And)
    } else if same_text(text, "class") {
        Some(TokenType::Class)
    } else if same_text(text, "else") {
        Some(TokenType::Else)
    } else if same_text(text, "false") {
        Some(TokenType::False)
    } else if same_text(text, "for") {
        Some(TokenType::For)
    } else if same_text(text, "fun") {
        Some(TokenType::Fun)
    } else if same_text(text, "if") {
        Some(TokenType::If)
    } else if same_text(text, "nil") {
        Some(TokenType::Nil)
    } else if same_text(text, "or") {
        Some(TokenType::Or)
    } else if same_text(text, "print") {
        Some(TokenType::Print)
    } else if same_text(text, "return") {
        Some(TokenType::Return)
    } else if same_text(text, "super") {
        Some(TokenType::Super)
    } else if same_text(text, "this") {
        Some(TokenType::This)
    } else if same_text(text, "true") {
        Some(TokenType::True)
    } else if same_text(text, "var") {
        Some(TokenType::Var)
    } else if same_text(text, "while") {
        Some(TokenType::While)
    } else {
        None
    }
}

/// The token that a single punctuation character stands for.
pub fn punctuation_of(c: char) -> (r: Option<TokenType<'static>>)
    ensures
        match r {
            Some(t) => punctuation(c) == Some(t@),
            None => punctuation(c) is None,
        },
{
    match c {
        '(' => Some(TokenType::LeftParen),
        ')' => Some(TokenType::RightParen),
        '{' => Some(TokenType::LeftBrace),
        '}' => Some(TokenType::RightBrace),
        ',' => Some(TokenType::Comma),
        '.' => Some(TokenType::Dot),
        '-' => Some(TokenType::Minus),
        '+' => Some(TokenType::Plus),
        ';' => Some(TokenType::Semicolon),
        '*' => Some(TokenType::Star),
        _ => None,
    }
}

/// The token that an operator character stands for, alone or followed by `=`.
pub fn operator_of(c: char, with_equal: bool) -> (r: Option<TokenType<'static>>)
    ensures
        match r {
            Some(t) => operator(c, with_equal) == Some(t@),
            None => operator(c, with_equal) is None,
        },
{
    match c {
        '!' => Some(if with_equal { TokenType::BangEqual } else { TokenType::Bang }),
        '=' => Some(if with_equal { TokenType::EqualEqual } else { TokenType::Equal }),
        '<' => Some(if with_equal { TokenType::LessEqual } else { TokenType::Less }),
        '>' => Some(if with_equal { TokenType::GreaterEqual } else { TokenType::Greater }),
        _ => None,
    }
}

/// What the character `c` announces at the start of a lexeme, given whether
/// it is alphabetic.
pub fn lead_of(c: char, alphabetic: bool) -> (r: Lead)
    ensures
        r == lead_given(c, alphabetic),
{
    match c {
        '!' | '=' | '<' | '>' => Lead::Operator,
        '(' | ')' | '{' | '}' | ',' | '.' | '-' | '+' | ';' | '*' => Lead::Punctuation,
        '/' => Lead::Slash,
        ' ' | '\r' | '\t' => Lead::Blank,
        '\n' => Lead::Newline,
        '"' => Lead::Quote,
        _ => {
            if char_is_digit(c) {
                Lead::Digit
            } else if alphabetic {
                Lead::Letter
            } else {
                Lead::Unexpected
            }
        },
    }
}

} // verus!
