use rlox_interpreter::error::ErrorReporter;
use rlox_interpreter::scanner::Scanner;
use rlox_interpreter::token::{Token, TokenType};
use rlox_interpreter::Lox;

/// Scans `source` with a fresh reporter; returns category, lexeme and line of
/// each token, and whether an error was reported.
fn lex(source: &str) -> (Vec<(TokenType<'_>, &str, usize)>, bool) {
    let mut reporter = ErrorReporter::new();
    let mut scanner = Scanner::from(source);
    let out = scanner
        .scan_tokens(&mut reporter)
        .iter()
        .map(|t| (t.token_type, t.lexeme, t.line))
        .collect();
    (out, reporter.happened())
}

fn kinds(source: &str) -> Vec<TokenType<'_>> {
    lex(source).0.into_iter().map(|t| t.0).collect()
}

#[test]
fn empty_source_is_just_eof() {
    let (tokens, failed) = lex("");
    assert_eq!(tokens, vec![(TokenType::Eof, "", 1)]);
    assert!(!failed);
}

#[test]
fn bang_equal_is_one_token() {
    let (tokens, failed) = lex("!=");
    assert_eq!(tokens, vec![(TokenType::BangEqual, "!=", 1), (TokenType::Eof, "", 1)]);
    assert!(!failed);
}

#[test]
fn bang_at_end_of_buffer() {
    let (tokens, failed) = lex("!");
    assert_eq!(tokens, vec![(TokenType::Bang, "!", 1), (TokenType::Eof, "", 1)]);
    assert!(!failed);
}

#[test]
fn operators_of_one_and_two_characters() {
    assert_eq!(
        kinds("! != = == > >= < <="),
        vec![
            TokenType::Bang,
            TokenType::BangEqual,
            TokenType::Equal,
            TokenType::EqualEqual,
            TokenType::Greater,
            TokenType::GreaterEqual,
            TokenType::Less,
            TokenType::LessEqual,
            TokenType::Eof,
        ]
    );
}

#[test]
fn operators_take_the_longest_match_from_the_left() {
    let (tokens, _) = lex("===!<==>");
    assert_eq!(
        tokens,
        vec![
            (TokenType::EqualEqual, "==", 1),
            (TokenType::Equal, "=", 1),
            (TokenType::Bang, "!", 1),
            (TokenType::LessEqual, "<=", 1),
            (TokenType::Equal, "=", 1),
            (TokenType::Greater, ">", 1),
            (TokenType::Eof, "", 1),
        ]
    );
}

#[test]
fn punctuation_tokens() {
    let (tokens, failed) = lex("(){},.-+;*/");
    assert_eq!(
        tokens,
        vec![
            (TokenType::LeftParen, "(", 1),
            (TokenType::RightParen, ")", 1),
            (TokenType::LeftBrace, "{", 1),
            (TokenType::RightBrace, "}", 1),
            (TokenType::Comma, ",", 1),
            (TokenType::Dot, ".", 1),
            (TokenType::Minus, "-", 1),
            (TokenType::Plus, "+", 1),
            (TokenType::Semicolon, ";", 1),
            (TokenType::Star, "*", 1),
            (TokenType::Slash, "/", 1),
            (TokenType::Eof, "", 1),
        ]
    );
    assert!(!failed);
}

#[test]
fn classic_is_an_identifier() {
    let (tokens, failed) = lex("classic");
    assert_eq!(tokens, vec![(TokenType::Identifier, "classic", 1), (TokenType::Eof, "", 1)]);
    assert!(!failed);
}

#[test]
fn class_is_a_keyword() {
    let (tokens, failed) = lex("class");
    assert_eq!(tokens, vec![(TokenType::Class, "class", 1), (TokenType::Eof, "", 1)]);
    assert!(!failed);
}

#[test]
fn every_keyword() {
    assert_eq!(
        kinds("and class else false for fun if nil or print return super this true var while"),
        vec![
            TokenType::And,
            TokenType::Class,
            TokenType::Else,
            TokenType::False,
            TokenType::For,
            TokenType::Fun,
            TokenType::If,
            TokenType::Nil,
            TokenType::Or,
            TokenType::Print,
            TokenType::Return,
            TokenType::Super,
            TokenType::This,
            TokenType::True,
            TokenType::Var,
            TokenType::While,
            TokenType::Eof,
        ]
    );
}

#[test]
fn keywords_are_case_sensitive() {
    assert_eq!(
        kinds("Class AND nIl"),
        vec![TokenType::Identifier, TokenType::Identifier, TokenType::Identifier, TokenType::Eof]
    );
}

#[test]
fn words_that_start_like_or() {
    let (tokens, failed) = lex("or orchid o");
    assert_eq!(
        tokens,
        vec![
            (TokenType::Or, "or", 1),
            (TokenType::Identifier, "orchid", 1),
            (TokenType::Identifier, "o", 1),
            (TokenType::Eof, "", 1),
        ]
    );
    assert!(!failed);
}

#[test]
fn letters_beyond_ascii_make_identifiers() {
    let (tokens, failed) = lex("été = 京");
    assert_eq!(
        tokens,
        vec![
            (TokenType::Identifier, "été", 1),
            (TokenType::Equal, "=", 1),
            (TokenType::Identifier, "京", 1),
            (TokenType::Eof, "", 1),
        ]
    );
    assert!(!failed);
}

#[test]
fn underscore_is_no_letter() {
    let (tokens, failed) = lex("a_b");
    assert_eq!(
        tokens,
        vec![
            (TokenType::Identifier, "a", 1),
            (TokenType::Identifier, "b", 1),
            (TokenType::Eof, "", 1),
        ]
    );
    assert!(failed);
}

#[test]
fn digits_end_an_identifier() {
    let (tokens, failed) = lex("x1");
    assert_eq!(
        tokens,
        vec![
            (TokenType::Identifier, "x", 1),
            (TokenType::Number { literal: "1" }, "1", 1),
            (TokenType::Eof, "", 1),
        ]
    );
    assert!(!failed);
}

#[test]
fn number_with_fraction() {
    let (tokens, failed) = lex("123.45");
    assert_eq!(
        tokens,
        vec![(TokenType::Number { literal: "123.45" }, "123.45", 1), (TokenType::Eof, "", 1)]
    );
    assert!(!failed);
    match tokens[0].0 {
        TokenType::Number { literal } => assert_eq!(literal.parse::<f64>().unwrap(), 123.45),
        _ => unreachable!(),
    }
}

#[test]
fn trailing_dot_is_left_for_the_next_lexeme() {
    let (tokens, failed) = lex("123.");
    assert_eq!(
        tokens,
        vec![
            (TokenType::Number { literal: "123" }, "123", 1),
            (TokenType::Dot, ".", 1),
            (TokenType::Eof, "", 1),
        ]
    );
    assert!(!failed);
    match tokens[0].0 {
        TokenType::Number { literal } => assert_eq!(literal.parse::<f64>().unwrap(), 123.0),
        _ => unreachable!(),
    }
}

#[test]
fn number_takes_one_fraction_only() {
    let (tokens, _) = lex("1.2.3");
    assert_eq!(
        tokens,
        vec![
            (TokenType::Number { literal: "1.2" }, "1.2", 1),
            (TokenType::Dot, ".", 1),
            (TokenType::Number { literal: "3" }, "3", 1),
            (TokenType::Eof, "", 1),
        ]
    );
}

#[test]
fn leading_dot_and_minus_are_tokens_of_their_own() {
    let (tokens, _) = lex("-.5");
    assert_eq!(
        tokens,
        vec![
            (TokenType::Minus, "-", 1),
            (TokenType::Dot, ".", 1),
            (TokenType::Number { literal: "5" }, "5", 1),
            (TokenType::Eof, "", 1),
        ]
    );
}

#[test]
fn dot_before_a_letter_ends_the_number() {
    let (tokens, _) = lex("7.x");
    assert_eq!(
        tokens,
        vec![
            (TokenType::Number { literal: "7" }, "7", 1),
            (TokenType::Dot, ".", 1),
            (TokenType::Identifier, "x", 1),
            (TokenType::Eof, "", 1),
        ]
    );
}

#[test]
fn string_spanning_lines() {
    let (tokens, failed) = lex("\"a\nb\"");
    assert_eq!(
        tokens,
        vec![(TokenType::String { literal: "a\nb" }, "\"a\nb\"", 1), (TokenType::Eof, "", 2)]
    );
    assert!(!failed);
}

#[test]
fn string_has_no_escapes() {
    let (tokens, failed) = lex("\"a\\\" b");
    assert_eq!(
        tokens,
        vec![
            (TokenType::String { literal: "a\\" }, "\"a\\\"", 1),
            (TokenType::Identifier, "b", 1),
            (TokenType::Eof, "", 1),
        ]
    );
    assert!(!failed);
}

#[test]
fn empty_string_literal() {
    let (tokens, failed) = lex("\"\"");
    assert_eq!(tokens, vec![(TokenType::String { literal: "" }, "\"\"", 1), (TokenType::Eof, "", 1)]);
    assert!(!failed);
}

#[test]
fn unterminated_string() {
    let (tokens, failed) = lex("\"abc");
    assert_eq!(tokens, vec![(TokenType::Eof, "", 1)]);
    assert!(failed);
}

#[test]
fn unterminated_string_counts_its_lines() {
    let (tokens, failed) = lex("x \"abc\n\ndef");
    assert_eq!(tokens, vec![(TokenType::Identifier, "x", 1), (TokenType::Eof, "", 3)]);
    assert!(failed);
}

#[test]
fn unexpected_character_is_skipped() {
    let (tokens, failed) = lex("@1");
    assert_eq!(tokens, vec![(TokenType::Number { literal: "1" }, "1", 1), (TokenType::Eof, "", 1)]);
    assert!(failed);
}

#[test]
fn scan_goes_on_after_several_errors() {
    let (tokens, failed) = lex("#a$\n%b");
    assert_eq!(
        tokens,
        vec![
            (TokenType::Identifier, "a", 1),
            (TokenType::Identifier, "b", 2),
            (TokenType::Eof, "", 2),
        ]
    );
    assert!(failed);
}

#[test]
fn nul_character_is_unexpected() {
    let (tokens, failed) = lex("1\0\"a\0\"");
    assert_eq!(
        tokens,
        vec![
            (TokenType::Number { literal: "1" }, "1", 1),
            (TokenType::String { literal: "a\0" }, "\"a\0\"", 1),
            (TokenType::Eof, "", 1),
        ]
    );
    assert!(failed);
}

#[test]
fn comment_runs_to_the_end_of_the_line() {
    let (tokens, failed) = lex("a // b + \"c\n+ d");
    assert_eq!(
        tokens,
        vec![
            (TokenType::Identifier, "a", 1),
            (TokenType::Plus, "+", 2),
            (TokenType::Identifier, "d", 2),
            (TokenType::Eof, "", 2),
        ]
    );
    assert!(!failed);
}

#[test]
fn comment_at_the_end_of_the_buffer() {
    let (tokens, failed) = lex("1 / 2 // half");
    assert_eq!(
        tokens,
        vec![
            (TokenType::Number { literal: "1" }, "1", 1),
            (TokenType::Slash, "/", 1),
            (TokenType::Number { literal: "2" }, "2", 1),
            (TokenType::Eof, "", 1),
        ]
    );
    assert!(!failed);
}

#[test]
fn blanks_yield_nothing() {
    let (tokens, failed) = lex(" \t\r\n \r\n");
    assert_eq!(tokens, vec![(TokenType::Eof, "", 3)]);
    assert!(!failed);
}

#[test]
fn token_line_is_where_its_lexeme_begins() {
    let (tokens, _) = lex("a\n\"x\ny\" b\nc");
    assert_eq!(
        tokens,
        vec![
            (TokenType::Identifier, "a", 1),
            (TokenType::String { literal: "x\ny" }, "\"x\ny\"", 2),
            (TokenType::Identifier, "b", 3),
            (TokenType::Identifier, "c", 4),
            (TokenType::Eof, "", 4),
        ]
    );
}

const SAMPLES: [&str; 8] = [
    "",
    "var x = 1.5; // set\nprint x;",
    "fun f(a, b) {\n  return a <= b;\n}\n",
    "\"one\ntwo\" @ # \"open\n\n",
    "!===<=>=!",
    "// only a comment",
    "1.2.3.x.y\n\n\n",
    "\u{e9}t\u{e9} \u{4eac}\t\"\u{1f49d}\" 😀",
];

#[test]
fn every_scan_ends_in_exactly_one_eof() {
    for source in SAMPLES {
        let all = kinds(source);
        assert_eq!(all.last(), Some(&TokenType::Eof));
        assert_eq!(all.iter().filter(|k| **k == TokenType::Eof).count(), 1);
    }
}

#[test]
fn lines_never_decrease() {
    for source in SAMPLES {
        let (tokens, _) = lex(source);
        assert!(tokens[0].2 >= 1);
        for pair in tokens.windows(2) {
            assert!(pair[0].2 <= pair[1].2);
        }
    }
}

#[test]
fn eof_line_counts_every_newline() {
    for source in SAMPLES {
        let (tokens, _) = lex(source);
        let newlines = source.chars().filter(|c| *c == '\n').count();
        assert_eq!(tokens.last().unwrap().2, 1 + newlines);
    }
}

#[test]
fn lexemes_are_disjoint_slices_in_source_order() {
    for source in SAMPLES {
        let (tokens, _) = lex(source);
        let base = source.as_ptr() as usize;
        let mut covered = 0;
        for (kind, lexeme, _) in &tokens[..tokens.len() - 1] {
            let from = lexeme.as_ptr() as usize - base;
            assert!(from >= covered);
            assert!(!lexeme.is_empty());
            assert_eq!(&source[from..from + lexeme.len()], *lexeme);
            // what lies between two tokens yields none by itself
            assert_eq!(
                kinds(&source[covered..from]).into_iter().filter(|k| *k != TokenType::Eof).count(),
                0
            );
            covered = from + lexeme.len();
            assert_ne!(*kind, TokenType::Eof);
        }
        assert!(covered <= source.len());
    }
}

#[test]
fn lexemes_and_blanks_give_the_source_back() {
    let source = "var  x=\t12.5 ;\r\nprint x ;";
    let (tokens, failed) = lex(source);
    assert!(!failed);
    let lexemes: Vec<&str> = tokens.iter().map(|t| t.1).collect();
    assert_eq!(lexemes, vec!["var", "x", "=", "12.5", ";", "print", "x", ";", ""]);
    let gaps = ["", "  ", "", "\t", " ", "\r\n", " ", " ", ""];
    let mut rebuilt = String::new();
    for (gap, lexeme) in gaps.iter().zip(lexemes.iter()) {
        rebuilt.push_str(gap);
        rebuilt.push_str(lexeme);
    }
    assert_eq!(rebuilt, source);
}

#[test]
fn a_small_program() {
    let (tokens, failed) = lex("fun add(a, b) {\n  return a + b; // sum\n}\nprint add(1, 2.5) >= 3;");
    let expected = vec![
        (TokenType::Fun, "fun", 1),
        (TokenType::Identifier, "add", 1),
        (TokenType::LeftParen, "(", 1),
        (TokenType::Identifier, "a", 1),
        (TokenType::Comma, ",", 1),
        (TokenType::Identifier, "b", 1),
        (TokenType::RightParen, ")", 1),
        (TokenType::LeftBrace, "{", 1),
        (TokenType::Return, "return", 2),
        (TokenType::Identifier, "a", 2),
        (TokenType::Plus, "+", 2),
        (TokenType::Identifier, "b", 2),
        (TokenType::Semicolon, ";", 2),
        (TokenType::RightBrace, "}", 3),
        (TokenType::Print, "print", 4),
        (TokenType::Identifier, "add", 4),
        (TokenType::LeftParen, "(", 4),
        (TokenType::Number { literal: "1" }, "1", 4),
        (TokenType::Comma, ",", 4),
        (TokenType::Number { literal: "2.5" }, "2.5", 4),
        (TokenType::RightParen, ")", 4),
        (TokenType::GreaterEqual, ">=", 4),
        (TokenType::Number { literal: "3" }, "3", 4),
        (TokenType::Semicolon, ";", 4),
        (TokenType::Eof, "", 4),
    ];
    assert_eq!(tokens, expected);
    assert!(!failed);
}

#[test]
fn scanning_twice_gives_the_same_tokens() {
    let mut reporter = ErrorReporter::new();
    let mut scanner = Scanner::from("a ! 1");
    let first: Vec<(TokenType, &str, usize)> =
        scanner.scan_tokens(&mut reporter).iter().map(|t| (t.token_type, t.lexeme, t.line)).collect();
    let second: Vec<(TokenType, &str, usize)> =
        scanner.scan_tokens(&mut reporter).iter().map(|t| (t.token_type, t.lexeme, t.line)).collect();
    assert_eq!(first, second);
    assert_eq!(second.len(), 4);
    let owned = scanner.into_tokens();
    assert_eq!(owned.len(), 4);
    assert_eq!(owned[1].token_type, TokenType::Bang);
}

#[test]
fn scan_keeps_an_earlier_error() {
    let mut reporter = ErrorReporter::new();
    reporter.report();
    let mut scanner = Scanner::from("fine");
    scanner.scan_tokens(&mut reporter);
    assert!(reporter.happened());
}

#[test]
fn token_new_keeps_its_parts() {
    let t = Token::new(TokenType::String { literal: "s" }, "\"s\"", 7);
    assert_eq!(t.token_type, TokenType::String { literal: "s" });
    assert_eq!(t.lexeme, "\"s\"");
    assert_eq!(t.line, 7);
}

#[test]
fn reporter_starts_clear() {
    let mut reporter = ErrorReporter::new();
    assert!(!reporter.happened());
}

#[test]
fn report_then_clear() {
    let mut reporter = ErrorReporter::new();
    reporter.report();
    assert!(reporter.happened());
    reporter.report();
    assert!(reporter.happened());
    reporter.clear();
    assert!(!reporter.happened());
}

#[test]
fn clear_when_already_clear() {
    let mut reporter = ErrorReporter::new();
    reporter.clear();
    assert!(!reporter.happened());
    reporter.clear();
    assert!(!reporter.happened());
}

#[test]
fn happened_does_not_consume_the_error() {
    let mut reporter = ErrorReporter::new();
    reporter.report();
    assert!(reporter.happened());
    assert!(reporter.happened());
}

#[test]
fn session_records_and_clears_errors() {
    let mut lox = Lox::new();
    assert!(!lox.error_reporter.happened());
    let tokens = lox.run("print 1;");
    assert_eq!(tokens.len(), 4);
    assert_eq!(tokens[0].token_type, TokenType::Print);
    assert!(!lox.error_reporter.happened());
    let tokens = lox.run("print ?;");
    assert_eq!(tokens.len(), 3);
    assert!(lox.error_reporter.happened());
    let tokens = lox.run("nil");
    assert_eq!(tokens.len(), 2);
    assert!(lox.error_reporter.happened());
    lox.error_reporter.clear();
    assert!(!lox.error_reporter.happened());
}

#[test]
fn payloads_are_what_the_lexemes_hold() {
    for source in SAMPLES {
        let (tokens, _) = lex(source);
        for (kind, lexeme, _) in tokens {
            match kind {
                TokenType::String { literal } => {
                    assert_eq!(format!("\"{}\"", literal), lexeme);
                    assert!(!literal.contains('"'));
                }
                TokenType::Number { literal } => {
                    assert_eq!(literal, lexeme);
                    assert!(literal.parse::<f64>().is_ok());
                    assert!(literal.starts_with(|c: char| c.is_ascii_digit()));
                    assert!(literal.ends_with(|c: char| c.is_ascii_digit()));
                }
                TokenType::Identifier => {
                    assert!(!lexeme.is_empty());
                    assert!(lexeme.chars().all(|c| c.is_alphabetic()));
                }
                TokenType::Eof => assert_eq!(lexeme, ""),
                _ => assert!(!lexeme.is_empty()),
            }
        }
    }
}
