//! The lexical grammar as mathematics: where each lexeme ends, what it yields,
//! and the token sequence that a whole source buffer stands for.

use vstd::prelude::*;
use crate::token::{TokenKind, TokenView};

verus! {

/// Whether `c` has the Unicode `Alphabetic` property, as `char::is_alphabetic`
/// of the standard library decides it.
pub uninterp spec fn is_alphabetic(c: char) -> bool;

/// Whether `c` is one of the ten decimal digits.
pub open spec fn is_digit(c: char) -> bool {
    '0' <= c && c <= '9'
}

/// Whether `c` is skipped without a token: space, carriage return or tab.
pub open spec fn is_blank(c: char) -> bool {
    c == ' ' || c == '\r' || c == '\t'
}

/// The token that a single punctuation character stands for.
pub open spec fn punctuation(c: char) -> Option<TokenKind> {
    if c == '(' {
        Some(TokenKind::LeftParen)
    } else if c == ')' {
        Some(TokenKind::RightParen)
    } else if c == '{' {
        Some(TokenKind::LeftBrace)
    } else if c == '}' {
        Some(TokenKind::RightBrace)
    } else if c == ',' {
        Some(TokenKind::Comma)
    } else if c == '.' {
        Some(TokenKind::Dot)
    } else if c == '-' {
        Some(TokenKind::Minus)
    } else if c == '+' {
        Some(TokenKind::Plus)
    } else if c == ';' {
        Some(TokenKind::Semicolon)
    } else if c == '*' {
        Some(TokenKind::Star)
    } else {
        None
    }
}

/// The token that an operator character stands for, alone or followed by `=`.
pub open spec fn operator(c: char, with_equal: bool) -> Option<TokenKind> {
    if c == '!' {
        Some(if with_equal { TokenKind::BangEqual } else { TokenKind::Bang })
    } else if c == '=' {
        Some(if with_equal { TokenKind::EqualEqual } else { TokenKind::Equal })
    } else if c == '<' {
        Some(if with_equal { TokenKind::LessEqual } else { TokenKind::Less })
    } else if c == '>' {
        Some(if with_equal { TokenKind::GreaterEqual } else { TokenKind::Greater })
    } else {
        None
    }
}

/// The reserved word that `text` spells, if it spells one. Case matters.
pub open spec fn keyword(text: Seq<char>) -> Option<TokenKind> {
    if text == "and"@ {
        Some(TokenKind::And)
    } else if text == "class"@ {
        Some(TokenKind::Class)
    } else if text == "else"@ {
        Some(TokenKind::Else)
    } else if text == "false"@ {
        Some(TokenKind::False)
    } else if text == "for"@ {
        Some(TokenKind::For)
    } else if text == "fun"@ {
        Some(TokenKind::Fun)
    } else if text == "if"@ {
        Some(TokenKind::If)
    } else if text == "nil"@ {
        Some(TokenKind::Nil)
    } else if text == "or"@ {
        Some(TokenKind::Or)
    } else if text == "print"@ {
        Some(TokenKind::Print)
    } else if text == "return"@ {
        Some(TokenKind::Return)
    } else if text == "super"@ {
        Some(TokenKind::Super)
    } else if text == "this"@ {
        Some(TokenKind::This)
    } else if text == "true"@ {
        Some(TokenKind::True)
    } else if text == "var"@ {
        Some(TokenKind::Var)
    } else if text == "while"@ {
        Some(TokenKind::While)
    } else {
        None
    }
}

/// The token of an identifier-shaped lexeme: its keyword, or `Identifier`.
pub open spec fn word(text: Seq<char>) -> TokenKind {
    match keyword(text) {
        Some(kind) => kind,
        None => TokenKind::Identifier,
    }
}

/// The sets of characters that a lexeme keeps consuming.
pub ghost enum CharClass {
    /// Decimal digits.
    Digit,
    /// Alphabetic characters.
    Letter,
    /// Anything but a newline: the body of a comment.
    CommentBody,
    /// Anything but a double quote: the body of a string literal.
    StringBody,
}

impl CharClass {
    /// Whether `c` belongs to the class.
    pub open spec fn holds(self, c: char) -> bool {
        match self {
            CharClass::Digit => is_digit(c),
            CharClass::Letter => is_alphabetic(c),
            CharClass::CommentBody => c != '\n',
            CharClass::StringBody => c != '"',
        }
    }
}

/// Whether the character at `pos` exists and is `c`.
pub open spec fn at(src: Seq<char>, pos: int, c: char) -> bool {
    0 <= pos < src.len() && src[pos] == c
}

/// The first position at or after `pos` that holds no character of `class`:
/// the end of the longest run of the class that starts at `pos`.
pub open spec fn run_end(src: Seq<char>, class: CharClass, pos: int) -> int
    decreases src.len() - pos,
{
    if 0 <= pos < src.len() && class.holds(src[pos]) {
        run_end(src, class, pos + 1)
    } else {
        pos
    }
}

/// The number of newline characters at the positions from `from` up to, not including, `to`.
pub open spec fn newlines_between(src: Seq<char>, from: int, to: int) -> nat
    decreases to - from,
{
    if from < to {
        newlines_between(src, from, to - 1) + if at(src, to - 1, '\n') { 1nat } else { 0nat }
    } else {
        0
    }
}

/// What the scanner makes of the text that starts at one position.
pub ghost struct Lexeme {
    /// The position just past the lexeme.
    pub end: int,
    /// The token it yields, if it yields one.
    pub kind: Option<TokenKind>,
    /// By how much it moves the line counter.
    pub newlines: nat,
    /// Whether it is a lexical error.
    pub error: bool,
}

/// What the first character of a lexeme announces.
#[derive(Clone, Copy, Debug, PartialEq, Eq)]
pub enum Lead {
    /// `!`, `=`, `<` or `>`: an operator of one or two characters.
    Operator,
    /// A punctuation character that is a token by itself.
    Punctuation,
    /// `/`: a division sign, or the start of a comment.
    Slash,
    /// Space, carriage return or tab.
    Blank,
    /// A newline.
    Newline,
    /// `"`: a string literal.
    Quote,
    /// A decimal digit: a number literal.
    Digit,
    /// An alphabetic character: an identifier or a keyword.
    Letter,
    /// Anything else: no lexeme starts with it.
    Unexpected,
}

/// What the character `c` announces at the start of a lexeme, given whether
/// it is alphabetic. Operators, punctuation, blanks and digits are recognized
/// first, whatever `alphabetic` says of them.
pub open spec fn lead_given(c: char, alphabetic: bool) -> Lead {
    if operator(c, false) is Some {
        Lead::Operator
    } else if punctuation(c) is Some {
        Lead::Punctuation
    } else if c == '/' {
        Lead::Slash
    } else if is_blank(c) {
        Lead::Blank
    } else if c == '\n' {
        Lead::Newline
    } else if c == '"' {
        Lead::Quote
    } else if is_digit(c) {
        Lead::Digit
    } else if alphabetic {
        Lead::Letter
    } else {
        Lead::Unexpected
    }
}

/// What the character `c` announces at the start of a lexeme.
pub open spec fn lead(c: char) -> Lead {
    lead_given(c, is_alphabetic(c))
}

/// Where the number literal that starts at `pos` ends: after its digits, and
/// after a fraction only if a digit follows the point.
pub open spec fn number_end(src: Seq<char>, pos: int) -> int {
    let whole = run_end(src, CharClass::Digit, pos + 1);
    if at(src, whole, '.') && whole + 1 < src.len() && is_digit(src[whole + 1]) {
        run_end(src, CharClass::Digit, whole + 2)
    } else {
        whole
    }
}

/// The lexeme that starts at `pos`, decided by the character there.
pub open spec fn lexeme_at(src: Seq<char>, pos: int) -> Lexeme
    recommends
        0 <= pos < src.len(),
{
    let c = src[pos];
    match lead(c) {
        Lead::Operator => {
            let with_equal = at(src, pos + 1, '=');
            Lexeme {
                end: if with_equal { pos + 2 } else { pos + 1 },
                kind: operator(c, with_equal),
                newlines: 0,
                error: false,
            }
        },
        Lead::Punctuation => Lexeme {
            end: pos + 1,
            kind: punctuation(c),
            newlines: 0,
            error: false,
        },
        Lead::Slash => if at(src, pos + 1, '/') {
            Lexeme {
                end: run_end(src, CharClass::CommentBody, pos + 2),
                kind: None,
                newlines: 0,
                error: false,
            }
        } else {
            Lexeme { end: pos + 1, kind: Some(TokenKind::Slash), newlines: 0, error: false }
        },
        Lead::Blank => Lexeme { end: pos + 1, kind: None, newlines: 0, error: false },
        Lead::Newline => Lexeme { end: pos + 1, kind: None, newlines: 1, error: false },
        Lead::Quote => {
            let close = run_end(src, CharClass::StringBody, pos + 1);
            let newlines = newlines_between(src, pos + 1, close);
            if close < src.len() {
                Lexeme {
                    end: close + 1,
                    kind: Some(TokenKind::String { value: src.subrange(pos + 1, close) }),
                    newlines,
                    error: false,
                }
            } else {
                Lexeme { end: close, kind: None, newlines, error: true }
            }
        },
        Lead::Digit => {
            let end = number_end(src, pos);
            Lexeme {
                end,
                kind: Some(TokenKind::Number { text: src.subrange(pos, end) }),
                newlines: 0,
                error: false,
            }
        },
        Lead::Letter => {
            let end = run_end(src, CharClass::Letter, pos + 1);
            Lexeme { end, kind: Some(word(src.subrange(pos, end))), newlines: 0, error: false }
        },
        Lead::Unexpected => Lexeme { end: pos + 1, kind: None, newlines: 0, error: true },
    }
}

/// The tokens of the text from `pos` on, with the line counter at `line`,
/// closed by the end-of-input token.
pub open spec fn tokens_from(src: Seq<char>, pos: int, line: nat) -> Seq<TokenView>
    decreases src.len() - pos,
    via tokens_from_decreases
{
    if 0 <= pos < src.len() {
        let lexeme = lexeme_at(src, pos);
        let rest = tokens_from(src, lexeme.end, line + lexeme.newlines);
        match lexeme.kind {
            Some(kind) => seq![TokenView { kind, lexeme: src.subrange(pos, lexeme.end), line }]
                + rest,
            None => rest,
        }
    } else {
        seq![TokenView { kind: TokenKind::Eof, lexeme: Seq::empty(), line }]
    }
}

#[via_fn]
proof fn tokens_from_decreases(src: Seq<char>, pos: int, line: nat) {
    if 0 <= pos < src.len() {
        lemma_lexeme_bounds(src, pos);
    }
}

/// Whether some lexeme of the text from `pos` on is a lexical error.
pub open spec fn errors_from(src: Seq<char>, pos: int) -> bool
    decreases src.len() - pos,
    via errors_from_decreases
{
    if 0 <= pos < src.len() {
        lexeme_at(src, pos).error || errors_from(src, lexeme_at(src, pos).end)
    } else {
        false
    }
}

#[via_fn]
proof fn errors_from_decreases(src: Seq<char>, pos: int) {
    if 0 <= pos < src.len() {
        lemma_lexeme_bounds(src, pos);
    }
}

/// The token sequence that the source text `src` stands for.
pub open spec fn scan(src: Seq<char>) -> Seq<TokenView> {
    tokens_from(src, 0, 1)
}

/// Whether the source text `src` holds a lexical error.
pub open spec fn has_errors(src: Seq<char>) -> bool {
    errors_from(src, 0)
}

/// A run ends at or after its start and inside the text, every character of it
/// is of the class, and the character after it, if there is one, is not.
pub proof fn lemma_run_end(src: Seq<char>, class: CharClass, pos: int)
    requires
        0 <= pos <= src.len(),
    ensures
        pos <= run_end(src, class, pos) <= src.len(),
        forall|i: int| pos <= i < run_end(src, class, pos) ==> class.holds(#[trigger] src[i]),
        run_end(src, class, pos) < src.len() ==> !class.holds(src[run_end(src, class, pos)]),
    decreases src.len() - pos,
{
    if pos < src.len() && class.holds(src[pos]) {
        lemma_run_end(src, class, pos + 1);
    }
}

/// At most one newline per position.
pub proof fn lemma_newlines_bound(src: Seq<char>, from: int, to: int)
    ensures
        newlines_between(src, from, to) <= if from < to { to - from } else { 0 },
    decreases to - from,
{
    if from < to {
        lemma_newlines_bound(src, from, to - 1);
    }
}

/// A lexeme is not empty, ends inside the text, and moves the line counter by
/// no more than its length.
pub proof fn lemma_lexeme_bounds(src: Seq<char>, pos: int)
    requires
        0 <= pos < src.len(),
    ensures
        pos < lexeme_at(src, pos).end <= src.len(),
        lexeme_at(src, pos).newlines <= lexeme_at(src, pos).end - pos,
        lexeme_at(src, pos).kind != Some(TokenKind::Eof),
{
    lemma_run_end(src, CharClass::CommentBody, pos + 1);
    lemma_run_end(src, CharClass::StringBody, pos + 1);
    lemma_run_end(src, CharClass::Digit, pos + 1);
    lemma_run_end(src, CharClass::Letter, pos + 1);
    if pos + 2 <= src.len() {
        lemma_run_end(src, CharClass::CommentBody, pos + 2);
    }
    let whole = run_end(src, CharClass::Digit, pos + 1);
    if whole + 2 <= src.len() {
        lemma_run_end(src, CharClass::Digit, whole + 2);
    }
    lemma_newlines_bound(src, pos + 1, run_end(src, CharClass::StringBody, pos + 1));
}

/// The text from `pos` on, put together again from the tokens of a scan and
/// from what the scan discarded: a lexeme that yields a token gives the lexeme
/// of the next token of `tokens`, any other lexeme (blanks, newlines, comments,
/// rejected characters, an unterminated string) gives the span it covers.
pub open spec fn reassembled(src: Seq<char>, pos: int, tokens: Seq<TokenView>) -> Seq<char>
    decreases src.len() - pos,
    via reassembled_decreases
{
    if 0 <= pos < src.len() {
        let lexeme = lexeme_at(src, pos);
        if lexeme.kind is Some {
            tokens.first().lexeme + reassembled(src, lexeme.end, tokens.drop_first())
        } else {
            src.subrange(pos, lexeme.end) + reassembled(src, lexeme.end, tokens)
        }
    } else {
        Seq::empty()
    }
}

#[via_fn]
proof fn reassembled_decreases(src: Seq<char>, pos: int, tokens: Seq<TokenView>) {
    if 0 <= pos < src.len() {
        lemma_lexeme_bounds(src, pos);
    }
}

/// The positions at which the tokens of the text from `pos` on begin, one for
/// each token; the end-of-input token begins where the text ends.
pub open spec fn starts_from(src: Seq<char>, pos: int) -> Seq<int>
    decreases src.len() - pos,
    via starts_from_decreases
{
    if 0 <= pos < src.len() {
        let lexeme = lexeme_at(src, pos);
        let rest = starts_from(src, lexeme.end);
        if lexeme.kind is Some {
            seq![pos] + rest
        } else {
            rest
        }
    } else {
        seq![src.len() as int]
    }
}

#[via_fn]
proof fn starts_from_decreases(src: Seq<char>, pos: int) {
    if 0 <= pos < src.len() {
        lemma_lexeme_bounds(src, pos);
    }
}

/// Whether the token `tokens[i]` lies in `src` at the position `starts[i]`, not
/// before `pos`: its lexeme is the slice of the text that begins there, and if
/// it is not the last token, it is not empty and ends before the next begins.
pub open spec fn lies_at(
    src: Seq<char>,
    pos: int,
    tokens: Seq<TokenView>,
    starts: Seq<int>,
    i: int,
) -> bool {
    let text = tokens[i].lexeme;
    &&& pos <= starts[i]
    &&& starts[i] + text.len() <= src.len()
    &&& src.subrange(starts[i], starts[i] + text.len()) == text
    &&& i + 1 < tokens.len() ==> text.len() > 0 && starts[i] + text.len() <= starts[i + 1]
}

/// Whether `tokens` lie in `src` at the positions `starts`, none before `pos`,
/// in order and without overlap.
pub open spec fn lie_in_order(
    src: Seq<char>,
    pos: int,
    tokens: Seq<TokenView>,
    starts: Seq<int>,
) -> bool {
    &&& starts.len() == tokens.len()
    &&& forall|i: int| 0 <= i < tokens.len() ==> #[trigger] lies_at(src, pos, tokens, starts, i)
}

/// The tokens from any position on lie in the text, in order and without
/// overlap, at the positions that `starts_from` gives.
pub proof fn lemma_slices_from(src: Seq<char>, pos: int, line: nat)
    requires
        0 <= pos <= src.len(),
    ensures
        lie_in_order(src, pos, tokens_from(src, pos, line), starts_from(src, pos)),
    decreases src.len() - pos,
{
    let tokens = tokens_from(src, pos, line);
    let starts = starts_from(src, pos);
    if pos < src.len() {
        lemma_lexeme_bounds(src, pos);
        let lexeme = lexeme_at(src, pos);
        let rest = tokens_from(src, lexeme.end, line + lexeme.newlines);
        let rest_starts = starts_from(src, lexeme.end);
        lemma_slices_from(src, lexeme.end, line + lexeme.newlines);
        lemma_eof_from(src, lexeme.end, line + lexeme.newlines);
        if lexeme.kind is Some {
            let head = TokenView {
                kind: lexeme.kind->0,
                lexeme: src.subrange(pos, lexeme.end),
                line,
            };
            assert(tokens =~= seq![head] + rest);
            assert(starts =~= seq![pos] + rest_starts);
            assert forall|i: int| 0 <= i < tokens.len() implies #[trigger] lies_at(
                src,
                pos,
                tokens,
                starts,
                i,
            ) by {
                if i == 0 {
                    assert(lies_at(src, lexeme.end, rest, rest_starts, 0));
                    assert(tokens[0] == head);
                    assert(starts[1] == rest_starts[0]);
                } else {
                    assert(lies_at(src, lexeme.end, rest, rest_starts, i - 1));
                    assert(tokens[i] == rest[i - 1]);
                    assert(starts[i] == rest_starts[i - 1]);
                    if i + 1 < tokens.len() {
                        assert(starts[i + 1] == rest_starts[i]);
                    }
                }
            }
        } else {
            assert forall|i: int| 0 <= i < tokens.len() implies #[trigger] lies_at(
                src,
                pos,
                tokens,
                starts,
                i,
            ) by {
                assert(lies_at(src, lexeme.end, rest, rest_starts, i));
            }
        }
    } else {
        assert(src.subrange(pos, pos) =~= Seq::<char>::empty());
        assert(lies_at(src, pos, tokens, starts, 0));
    }
}

/// Whether every character of `text` belongs to `class`.
pub open spec fn all_in(text: Seq<char>, class: CharClass) -> bool {
    forall|i: int| 0 <= i < text.len() ==> class.holds(#[trigger] text[i])
}

/// Whether `text` is a numeral: one digit or more, then optionally a point and
/// one digit or more.
pub open spec fn is_numeral(text: Seq<char>) -> bool {
    ||| text.len() > 0 && all_in(text, CharClass::Digit)
    ||| exists|point: int|
        {
            &&& 0 < point < text.len() - 1
            &&& #[trigger] text[point] == '.'
            &&& all_in(text.subrange(0, point), CharClass::Digit)
            &&& all_in(text.subrange(point + 1, text.len() as int), CharClass::Digit)
        }
}

/// Whether `kind` is the category that the lexeme `text` spells, with the
/// payload that the lexeme holds.
pub open spec fn spells(text: Seq<char>, kind: TokenKind) -> bool {
    match kind {
        TokenKind::Eof => text.len() == 0,
        TokenKind::String { value } => {
            &&& text == seq!['"'] + value + seq!['"']
            &&& all_in(value, CharClass::StringBody)
        },
        TokenKind::Number { text: numeral } => numeral == text && is_numeral(text),
        TokenKind::Identifier => {
            &&& text.len() > 0
            &&& all_in(text, CharClass::Letter)
            &&& keyword(text) is None
        },
        TokenKind::Slash => text == seq!['/'],
        _ => {
            ||| text.len() == 1 && punctuation(text[0]) == Some(kind)
            ||| text.len() == 1 && operator(text[0], false) == Some(kind)
            ||| text.len() == 2 && text[1] == '=' && operator(text[0], true) == Some(kind)
            ||| text.len() > 0 && all_in(text, CharClass::Letter) && keyword(text) == Some(kind)
        },
    }
}

/// The token of a lexeme is the one that its text spells.
pub proof fn lemma_lexeme_spells(src: Seq<char>, pos: int)
    requires
        0 <= pos < src.len(),
        lexeme_at(src, pos).kind is Some,
    ensures
        spells(src.subrange(pos, lexeme_at(src, pos).end), lexeme_at(src, pos).kind->0),
{
    lemma_lexeme_bounds(src, pos);
    let c = src[pos];
    let lexeme = lexeme_at(src, pos);
    let text = src.subrange(pos, lexeme.end);
    assert(text[0] == c);
    match lead(c) {
        Lead::Operator => {
            if at(src, pos + 1, '=') {
                assert(text[1] == '=');
            }
        },
        Lead::Slash => {
            assert(text =~= seq!['/']);
        },
        Lead::Quote => {
            let close = run_end(src, CharClass::StringBody, pos + 1);
            let value = src.subrange(pos + 1, close);
            lemma_run_end(src, CharClass::StringBody, pos + 1);
            assert(text =~= seq!['"'] + value + seq!['"']);
            assert forall|i: int| 0 <= i < value.len() implies CharClass::StringBody.holds(
                #[trigger] value[i],
            ) by {
                assert(value[i] == src[pos + 1 + i]);
            }
        },
        Lead::Digit => {
            let whole = run_end(src, CharClass::Digit, pos + 1);
            lemma_run_end(src, CharClass::Digit, pos + 1);
            if lexeme.end == whole {
                assert forall|i: int| 0 <= i < text.len() implies CharClass::Digit.holds(
                    #[trigger] text[i],
                ) by {
                    assert(text[i] == src[pos + i]);
                }
            } else {
                lemma_run_end(src, CharClass::Digit, whole + 2);
                let point = whole - pos;
                let before = text.subrange(0, point);
                let after = text.subrange(point + 1, text.len() as int);
                assert(text[point] == '.');
                assert forall|i: int| 0 <= i < before.len() implies CharClass::Digit.holds(
                    #[trigger] before[i],
                ) by {
                    assert(before[i] == src[pos + i]);
                }
                assert forall|i: int| 0 <= i < after.len() implies CharClass::Digit.holds(
                    #[trigger] after[i],
                ) by {
                    assert(after[i] == src[whole + 1 + i]);
                }
            }
        },
        Lead::Letter => {
            lemma_run_end(src, CharClass::Letter, pos + 1);
            assert forall|i: int| 0 <= i < text.len() implies CharClass::Letter.holds(
                #[trigger] text[i],
            ) by {
                assert(text[i] == src[pos + i]);
            }
        },
        _ => {},
    }
}

/// Each token from any position on is the one that its lexeme spells.
pub proof fn lemma_spelling_from(src: Seq<char>, pos: int, line: nat)
    requires
        0 <= pos <= src.len(),
    ensures
        forall|i: int|
            0 <= i < tokens_from(src, pos, line).len() ==> spells(
                (#[trigger] tokens_from(src, pos, line)[i]).lexeme,
                tokens_from(src, pos, line)[i].kind,
            ),
    decreases src.len() - pos,
{
    if pos < src.len() {
        lemma_lexeme_bounds(src, pos);
        let lexeme = lexeme_at(src, pos);
        lemma_spelling_from(src, lexeme.end, line + lexeme.newlines);
        if lexeme.kind is Some {
            lemma_lexeme_spells(src, pos);
        }
    }
}

/// The tokens from any position on end with the end-of-input token, whose
/// lexeme is empty, and hold no other end-of-input token.
pub proof fn lemma_eof_from(src: Seq<char>, pos: int, line: nat)
    ensures
        tokens_from(src, pos, line).len() >= 1,
        tokens_from(src, pos, line).last().kind == TokenKind::Eof,
        tokens_from(src, pos, line).last().lexeme == Seq::<char>::empty(),
        forall|i: int|
            0 <= i < tokens_from(src, pos, line).len() - 1 ==> (#[trigger] tokens_from(
                src,
                pos,
                line,
            )[i]).kind != TokenKind::Eof,
    decreases src.len() - pos,
{
    if 0 <= pos < src.len() {
        lemma_lexeme_bounds(src, pos);
        let lexeme = lexeme_at(src, pos);
        lemma_eof_from(src, lexeme.end, line + lexeme.newlines);
    }
}

/// The tokens from any position on carry line numbers that start at the line
/// counter or above and never decrease.
pub proof fn lemma_lines_from(src: Seq<char>, pos: int, line: nat)
    ensures
        forall|i: int|
            0 <= i < tokens_from(src, pos, line).len() ==> (#[trigger] tokens_from(
                src,
                pos,
                line,
            )[i]).line >= line,
        forall|i: int, j: int|
            0 <= i <= j < tokens_from(src, pos, line).len() ==> (#[trigger] tokens_from(
                src,
                pos,
                line,
            )[i]).line <= (#[trigger] tokens_from(src, pos, line)[j]).line,
    decreases src.len() - pos,
{
    if 0 <= pos < src.len() {
        lemma_lexeme_bounds(src, pos);
        let lexeme = lexeme_at(src, pos);
        lemma_lines_from(src, lexeme.end, line + lexeme.newlines);
    }
}

/// Put together again from its own tokens, the text from any position on is
/// the text itself.
pub proof fn lemma_reassembled_from(src: Seq<char>, pos: int, line: nat)
    requires
        0 <= pos <= src.len(),
    ensures
        reassembled(src, pos, tokens_from(src, pos, line)) == src.subrange(pos, src.len() as int),
    decreases src.len() - pos,
{
    if pos < src.len() {
        lemma_lexeme_bounds(src, pos);
        let lexeme = lexeme_at(src, pos);
        let rest = tokens_from(src, lexeme.end, line + lexeme.newlines);
        lemma_reassembled_from(src, lexeme.end, line + lexeme.newlines);
        if lexeme.kind is Some {
            assert(tokens_from(src, pos, line).drop_first() =~= rest);
        }
        assert(src.subrange(pos, lexeme.end) + src.subrange(lexeme.end, src.len() as int)
            =~= src.subrange(pos, src.len() as int));
    } else {
        assert(src.subrange(pos, src.len() as int) =~= Seq::<char>::empty());
    }
}

/// Every scan ends with exactly one end-of-input token: the last token is the
/// end-of-input token, and no token before it is.
pub proof fn lemma_scan_ends_in_eof(src: Seq<char>)
    ensures
        scan(src).len() >= 1,
        scan(src).last().kind == TokenKind::Eof,
        scan(src).last().lexeme == Seq::<char>::empty(),
        forall|i: int| 0 <= i < scan(src).len() - 1 ==> (#[trigger] scan(src)[i]).kind != TokenKind::Eof,
{
    lemma_eof_from(src, 0, 1);
}

/// Line numbers start at 1 and never decrease along the tokens of a scan.
pub proof fn lemma_scan_lines_ascend(src: Seq<char>)
    ensures
        forall|i: int| 0 <= i < scan(src).len() ==> (#[trigger] scan(src)[i]).line >= 1,
        forall|i: int, j: int|
            0 <= i <= j < scan(src).len() ==> (#[trigger] scan(src)[i]).line <= (#[trigger] scan(
                src,
            )[j]).line,
{
    lemma_lines_from(src, 0, 1);
}

/// Nothing of the source is lost: the lexemes of the tokens of a scan, in
/// order, together with the spans that the scan discarded, give the source back.
pub proof fn lemma_scan_covers_source(src: Seq<char>)
    ensures
        reassembled(src, 0, scan(src)) == src,
{
    lemma_reassembled_from(src, 0, 1);
    assert(src.subrange(0, src.len() as int) =~= src);
}

/// Every lexeme of a scan is a slice of the source: the tokens lie in the
/// source in their order, none empty but the last, none overlapping another.
pub proof fn lemma_scan_lexemes_are_slices(src: Seq<char>)
    ensures
        lie_in_order(src, 0, scan(src), starts_from(src, 0)),
{
    lemma_slices_from(src, 0, 1);
}

/// Each token of a scan is the one that its lexeme spells: a keyword for a
/// reserved word, an identifier for any other run of letters, a number whose
/// text is a numeral, a string whose value is the lexeme without its quotes.
pub proof fn lemma_scan_spells(src: Seq<char>)
    ensures
        forall|i: int|
            0 <= i < scan(src).len() ==> spells((#[trigger] scan(src)[i]).lexeme, scan(src)[i].kind),
{
    lemma_spelling_from(src, 0, 1);
}

} // verus!
