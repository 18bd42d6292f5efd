//! Lexical front end of a small scripting language: source text in, tokens out.
//!
//! [`scanner::Scanner`] cuts a source buffer into [`token::Token`]s and reports
//! lexical errors to an [`error::ErrorReporter`]; [`grammar`] says, as
//! mathematics, which tokens a buffer stands for, and [`chars`] holds the
//! tables from characters and words to tokens. [`Lox`] ties a reporter to
//! successive scans.

pub mod chars;
pub mod error;
pub mod grammar;
pub mod scanner;
pub mod token;

use vstd::prelude::*;
use crate::error::ErrorReporter;
use crate::grammar::{has_errors, scan};
use crate::scanner::Scanner;
use crate::token::{token_views, Token};

verus! {

/// An interpreter session: the error state that outlives single scans.
pub struct Lox {
    /// Whether a scan of this session met a lexical error since the last clearing.
    pub error_reporter: ErrorReporter,
}

impl Lox {
    /// A session with no error recorded.
    pub fn new() -> (r: Self)
        ensures
            !r.error_reporter@,
    {
        Self { error_reporter: ErrorReporter::new() }
    }

    /// Scans `source` and returns its tokens. An error recorded earlier stays
    /// recorded; a lexical error in `source` is recorded. The buffer must hold
    /// fewer than `usize::MAX` characters.
    pub fn run<'a>(&mut self, source: &'a str) -> (tokens: Vec<Token<'a>>)
        requires
            source@.len() < usize::MAX,
        ensures
            token_views(tokens@) == scan(source@),
            final(self).error_reporter@ == (old(self).error_reporter@ || has_errors(source@)),
    {
        let mut scanner = Scanner::from(source);
        scanner.scan_tokens(&mut self.error_reporter);
        scanner.into_tokens()
    }
}

} // verus!
