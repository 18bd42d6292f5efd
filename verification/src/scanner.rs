//! The scanner: one pass over a source buffer that cuts it into tokens.

use vstd::prelude::*;
use vstd::string::StrSliceExecFns;
use crate::chars::{
    char_is_alphabetic, char_is_digit, keyword_of, lead_of, operator_of, punctuation_of,
};
use crate::error::ErrorReporter;
use crate::grammar::{
    at, errors_from, has_errors, lead, lemma_lexeme_bounds, lemma_newlines_bound,
    lemma_scan_covers_source, lemma_scan_ends_in_eof, lemma_scan_lines_ascend, lexeme_at,
    newlines_between, number_end, reassembled, run_end, scan, tokens_from, CharClass, Lead, Lexeme,
};
use crate::token::{token_views, Token, TokenKind, TokenType, TokenView};

verus! {

/// A scan of one source buffer: the buffer, the cursor into it, and the tokens
/// found so far. Positions count characters.
#[derive(Debug)]
pub struct Scanner<'a> {
    source: &'a str,
    length: usize,
    tokens: Vec<Token<'a>>,
    start: usize,
    current: usize,
    line: usize,
}

impl<'a> Scanner<'a> {
    /// The source buffer as a sequence of characters.
    pub closed spec fn source(&self) -> Seq<char> {
        self.source@
    }

    /// The tokens found so far.
    pub closed spec fn emitted(&self) -> Seq<TokenView> {
        token_views(self.tokens@)
    }

    /// Where the lexeme that is being scanned begins, counted in characters.
    pub closed spec fn start(&self) -> nat {
        self.start as nat
    }

    /// The cursor: the position of the next character to consume.
    pub closed spec fn current(&self) -> nat {
        self.current as nat
    }

    /// The line counter: the 1-based line that the cursor is on.
    pub closed spec fn line(&self) -> nat {
        self.line as nat
    }

    /// Whether the scanner stands at the start of its buffer, on line 1, with
    /// no token found.
    pub open spec fn at_start(&self) -> bool {
        &&& self.start() == 0
        &&& self.current() == 0
        &&& self.line() == 1
        &&& self.emitted() == Seq::<TokenView>::empty()
    }

    /// The scanner knows the length of its buffer, which leaves room for every
    /// line number; the cursor is inside the buffer, not before the start of
    /// the current lexeme; and no more lines were counted than characters
    /// consumed.
    pub closed spec fn wf(&self) -> bool {
        &&& self.length == self.source@.len()
        &&& self.length < usize::MAX
        &&& self.start <= self.current <= self.length
        &&& 1 <= self.line <= self.current + 1
    }

    /// `self` came out of `pre` by moving the cursor and the line counter only.
    spec fn moved_from(&self, pre: &Self) -> bool {
        &&& self.wf()
        &&& self.source == pre.source
        &&& self.length == pre.length
        &&& self.start == pre.start
        &&& self.tokens@ == pre.tokens@
    }

    /// `self` came out of `pre` by consuming `lexeme`, which starts where the
    /// cursor of `pre` marked the start.
    spec fn took(&self, pre: &Self, lexeme: Lexeme) -> bool {
        &&& self.wf()
        &&& self.source == pre.source
        &&& self.length == pre.length
        &&& self.start == pre.start
        &&& self.current == lexeme.end
        &&& self.line == pre.line + lexeme.newlines
        &&& self.emitted() == match lexeme.kind {
            Some(kind) => pre.emitted().push(
                TokenView {
                    kind,
                    lexeme: pre.source@.subrange(pre.start as int, lexeme.end),
                    line: pre.line as nat,
                },
            ),
            None => pre.emitted(),
        }
    }

    /// A scanner at the start of `source`, with no token found yet. The buffer
    /// must hold fewer than `usize::MAX` characters, so that every line number
    /// fits its type.
    pub fn from(source: &'a str) -> (s: Self)
        requires
            source@.len() < usize::MAX,
        ensures
            s.wf(),
            s.source() == source@,
            s.at_start(),
            s.start() == 0,
            s.current() == 0,
            s.line() == 1,
            s.emitted() == Seq::<TokenView>::empty(),
    {
        let s = Self {
            source,
            length: source.unicode_len(),
            tokens: vec![],
            start: 0,
            current: 0,
            line: 1,
        };
        assert(s.emitted() =~= Seq::<TokenView>::empty());
        s
    }

    /// Appends a token of the given category and line whose text is the current lexeme.
    fn add_token(&mut self, token: TokenType<'a>, line: usize)
        requires
            old(self).wf(),
        ensures
            final(self).wf(),
            final(self).source == old(self).source,
            final(self).length == old(self).length,
            final(self).start == old(self).start,
            final(self).current == old(self).current,
            final(self).line == old(self).line,
            final(self).emitted() == old(self).emitted().push(
                TokenView {
                    kind: token@,
                    lexeme: old(self).source@.subrange(
                        old(self).start as int,
                        old(self).current as int,
                    ),
                    line: line as nat,
                },
            ),
    {
        let txt = self.source.substring_char(self.start, self.current);
        self.tokens.push(Token::new(token, txt, line));
        assert(final(self).emitted() =~= old(self).emitted().push(
            TokenView {
                kind: token@,
                lexeme: old(self).source@.subrange(old(self).start as int, old(self).current as int),
                line: line as nat,
            },
        ));
    }

    /// Consumes the next character if it is `expected`, and says whether it did.
    fn compare_char(&mut self, expected: char) -> (r: bool)
        requires
            old(self).wf(),
        ensures
            final(self).moved_from(old(self)),
            final(self).line == old(self).line,
            r == at(old(self).source@, old(self).current as int, expected),
            final(self).current == old(self).current + if r { 1int } else { 0int },
    {
        if self.is_at_end() || self.source.get_char(self.current) != expected {
            false
        } else {
            self.current += 1;
            true
        }
    }

    /// Consumes the next character and returns it.
    fn advance(&mut self) -> (c: char)
        requires
            old(self).wf(),
            old(self).current < old(self).length,
        ensures
            final(self).moved_from(old(self)),
            final(self).line == old(self).line,
            final(self).current == old(self).current + 1,
            c == old(self).source@[old(self).current as int],
    {
        let ret = self.source.get_char(self.current);
        self.current += 1;
        ret
    }

    /// The next character, or NUL at the end of the buffer.
    fn peek(&self) -> (c: char)
        requires
            self.wf(),
        ensures
            c == if self.current < self.length {
                self.source@[self.current as int]
            } else {
                '\0'
            },
    {
        if self.is_at_end() {
            '\0'
        } else {
            self.source.get_char(self.current)
        }
    }

    /// The character after the next, or NUL where the buffer ends before it.
    fn peek_next(&self) -> (c: char)
        requires
            self.wf(),
        ensures
            c == if self.current + 1 < self.length {
                self.source@[self.current + 1]
            } else {
                '\0'
            },
    {
        if self.current + 1 >= self.length {
            '\0'
        } else {
            self.source.get_char(self.current + 1)
        }
    }

    /// Consumes the rest of a number literal, whose first digit is behind the
    /// cursor, and appends its token.
    fn number(&mut self)
        requires
            old(self).wf(),
            old(self).start + 1 == old(self).current,
            lead(old(self).source@[old(self).start as int]) == Lead::Digit,
        ensures
            final(self).took(old(self), lexeme_at(old(self).source@, old(self).start as int)),
    {
        let ghost src = self.source@;
        let ghost first = self.start + 1;
        while !self.is_at_end() && char_is_digit(self.peek())
            invariant
                src == self.source@,
                self.moved_from(old(self)),
                self.line == old(self).line,
                first <= self.current,
                run_end(src, CharClass::Digit, self.current as int) == run_end(
                    src,
                    CharClass::Digit,
                    first,
                ),
            decreases self.length - self.current,
        {
            self.advance();
        }
        let ghost whole = self.current as int;

        // fractional part
        if self.peek() == '.' && char_is_digit(self.peek_next()) {
            // consume '.'
            self.advance();

            while !self.is_at_end() && char_is_digit(self.peek())
                invariant
                    src == self.source@,
                    self.moved_from(old(self)),
                    self.line == old(self).line,
                    whole + 1 <= self.current,
                    run_end(src, CharClass::Digit, self.current as int) == run_end(
                        src,
                        CharClass::Digit,
                        whole + 2,
                    ),
                decreases self.length - self.current,
            {
                self.advance();
            }
        }
        assert(self.current == number_end(src, self.start as int));

        let literal = self.source.substring_char(self.start, self.current);
        self.add_token(TokenType::Number { literal }, self.line);
    }

    /// Consumes the rest of an identifier or keyword, whose first character is
    /// behind the cursor, and appends its token.
    fn identifier(&mut self)
        requires
            old(self).wf(),
            old(self).start + 1 == old(self).current,
            lead(old(self).source@[old(self).start as int]) == Lead::Letter,
        ensures
            final(self).took(old(self), lexeme_at(old(self).source@, old(self).start as int)),
    {
        let ghost src = self.source@;
        let ghost first = self.start + 1;
        while !self.is_at_end() && char_is_alphabetic(self.peek())
            invariant
                src == self.source@,
                self.moved_from(old(self)),
                self.line == old(self).line,
                first <= self.current,
                run_end(src, CharClass::Letter, self.current as int) == run_end(
                    src,
                    CharClass::Letter,
                    first,
                ),
            decreases self.length - self.current,
        {
            self.advance();
        }

        let txt = self.source.substring_char(self.start, self.current);
        let tk = match keyword_of(txt) {
            Some(reserved) => reserved,
            None => TokenType::Identifier,
        };

        self.add_token(tk, self.line);
    }

    /// Consumes the rest of a string literal, whose opening quote is behind the
    /// cursor. Appends its token, or reports that the buffer ended first.
    fn string(&mut self, reporter: &mut ErrorReporter)
        requires
            old(self).wf(),
            old(self).start + 1 == old(self).current,
            lead(old(self).source@[old(self).start as int]) == Lead::Quote,
        ensures
            final(self).took(old(self), lexeme_at(old(self).source@, old(self).start as int)),
            final(reporter)@ == (old(reporter)@ || lexeme_at(
                old(self).source@,
                old(self).start as int,
            ).error),
    {
        let ghost src = self.source@;
        let ghost first = self.start + 1;
        let first_line = self.line;
        while !self.is_at_end() && self.peek() != '"'
            invariant
                src == self.source@,
                self.moved_from(old(self)),
                first <= self.current,
                self.line == first_line + newlines_between(src, first, self.current as int),
                first_line == old(self).line,
                run_end(src, CharClass::StringBody, self.current as int) == run_end(
                    src,
                    CharClass::StringBody,
                    first,
                ),
            decreases self.length - self.current,
        {
            proof {
                lemma_newlines_bound(src, first, self.current as int);
            }
            if self.advance() == '\n' {
                self.line += 1;
            }
        }
        proof {
            lemma_newlines_bound(src, first, self.current as int);
        }

        if self.is_at_end() {
            reporter.report();
            return ;
        }
        // the closing quote

        self.advance();

        let val = self.source.substring_char(self.start + 1, self.current - 1);
        self.add_token(TokenType::String { literal: val }, first_line);
    }

    /// Consumes one lexeme, which starts at the cursor, and appends its token if
    /// it has one. A character that starts no lexeme is reported and skipped.
    fn scan_token(&mut self, reporter: &mut ErrorReporter)
        requires
            old(self).wf(),
            old(self).start == old(self).current,
            old(self).current < old(self).length,
        ensures
            final(self).took(old(self), lexeme_at(old(self).source@, old(self).start as int)),
            final(reporter)@ == (old(reporter)@ || lexeme_at(
                old(self).source@,
                old(self).start as int,
            ).error),
    {
        let ghost src = self.source@;
        let c = self.advance();
        match lead_of(c, char_is_alphabetic(c)) {
            Lead::Operator => {
                let with_equal = self.compare_char('=');
                if let Some(tok) = operator_of(c, with_equal) {
                    self.add_token(tok, self.line);
                }
            },
            Lead::Punctuation => {
                if let Some(tok) = punctuation_of(c) {
                    self.add_token(tok, self.line);
                }
            },
            Lead::Slash => {
                if self.compare_char('/') {
                    // a comment runs to the end of the line
                    while !self.is_at_end() && self.peek() != '\n'
                        invariant
                            src == self.source@,
                            self.moved_from(old(self)),
                            self.line == old(self).line,
                            old(self).start + 2 <= self.current,
                            run_end(src, CharClass::CommentBody, self.current as int) == run_end(
                                src,
                                CharClass::CommentBody,
                                old(self).start + 2,
                            ),
                        decreases self.length - self.current,
                    {
                        self.advance();
                    }
                } else {
                    self.add_token(TokenType::Slash, self.line);
                }
            },
            Lead::Blank => (),
            Lead::Newline => self.line += 1,
            Lead::Quote => self.string(reporter),
            Lead::Digit => self.number(),
            Lead::Letter => self.identifier(),
            Lead::Unexpected => reporter.report(),
        };
    }

    /// Scans the whole buffer from its start and returns its tokens, the last of
    /// them the end-of-input token. Every lexical error is reported to
    /// `reporter`, and the scan goes on after it. The scan begins at the first
    /// character on line 1 wherever the cursor stood, and leaves the cursor at
    /// the end of the buffer, on the line of the end-of-input token.
    pub fn scan_tokens(&mut self, reporter: &mut ErrorReporter) -> (tokens: &Vec<Token<'a>>)
        requires
            old(self).wf(),
        ensures
            final(self).wf(),
            final(self).source() == old(self).source(),
            final(self).emitted() == scan(old(self).source()),
            final(self).current() == old(self).source().len(),
            final(self).start() <= final(self).current(),
            final(self).line() == scan(old(self).source()).last().line,
            token_views(tokens@) == scan(old(self).source()),
            final(reporter)@ == (old(reporter)@ || has_errors(old(self).source())),
            tokens@.len() >= 1,
            tokens@.last()@.kind == TokenKind::Eof,
            forall|i: int|
                0 <= i < tokens@.len() - 1 ==> (#[trigger] tokens@[i])@.kind != TokenKind::Eof,
            forall|i: int, j: int|
                0 <= i <= j < tokens@.len() ==> (#[trigger] tokens@[i]).line <= (
                #[trigger] tokens@[j]).line,
            reassembled(old(self).source(), 0, token_views(tokens@)) == old(self).source(),
    {
        let ghost src = self.source@;
        self.tokens.clear();
        self.start = 0;
        self.current = 0;
        self.line = 1;
        assert(self.emitted() =~= Seq::<TokenView>::empty());
        while !self.is_at_end()
            invariant
                self.wf(),
                self.source == old(self).source,
                src == self.source@,
                self.emitted() + tokens_from(src, self.current as int, self.line as nat) =~= scan(
                    src,
                ),
                (reporter@ || errors_from(src, self.current as int)) == (old(reporter)@
                    || has_errors(src)),
            decreases self.length - self.current,
        {
            self.start = self.current;
            proof {
                lemma_lexeme_bounds(src, self.current as int);
            }
            self.scan_token(reporter);
        }

        let ghost found = self.emitted();
        let ghost last = TokenView {
            kind: TokenKind::Eof,
            lexeme: Seq::empty(),
            line: self.line as nat,
        };
        proof {
            reveal_strlit("");
            assert(tokens_from(src, self.current as int, self.line as nat) =~= seq![last]);
        }
        self.tokens.push(Token::new(TokenType::Eof, "", self.line));
        assert(""@ =~= Seq::<char>::empty());
        assert(self.emitted() =~= found.push(last));
        assert(found.push(last) =~= found + seq![last]);
        proof {
            let views = token_views(self.tokens@);
            lemma_scan_ends_in_eof(src);
            lemma_scan_lines_ascend(src);
            lemma_scan_covers_source(src);
            assert(views.last() == self.tokens@.last()@);
            assert forall|i: int| 0 <= i < self.tokens@.len() - 1 implies (
            #[trigger] self.tokens@[i])@.kind != TokenKind::Eof by {
                assert(views[i] == self.tokens@[i]@);
            }
            assert forall|i: int, j: int| 0 <= i <= j < self.tokens@.len() implies (
            #[trigger] self.tokens@[i]).line <= (#[trigger] self.tokens@[j]).line by {
                assert(views[i] == self.tokens@[i]@);
                assert(views[j] == self.tokens@[j]@);
            }
        }

        &self.tokens
    }

    /// Gives up the scanner for the tokens it has found.
    pub fn into_tokens(self) -> (tokens: Vec<Token<'a>>)
        ensures
            token_views(tokens@) == self.emitted(),
    {
        self.tokens
    }

    /// Whether the cursor has reached the end of the buffer.
    fn is_at_end(&self) -> (r: bool)
        requires
            self.wf(),
        ensures
            r == (self.current >= self.length),
    {
        self.current >= self.length
    }
}

} // verus!
