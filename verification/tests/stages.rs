//! The stages one by one: scanning, the keyword table, parsing failures,
//! and the diagnostic text.

use linescript::errors::Errors;
use linescript::eval::Eval;
use linescript::eval::Value;
use linescript::laws::run_source;
use linescript::lexer::Lexer;
use linescript::lexer::Pos;
use linescript::lexer::Reader;
use linescript::token::Token;
use linescript::token::TokenType;

fn run(source: &str, inputs: &[&str]) -> (Vec<u8>, Result<linescript::eval::Value, Errors>) {
    let ins: Vec<Vec<u8>> = inputs.iter().map(|s| s.as_bytes().to_vec()).collect();
    run_source(source.as_bytes().to_vec(), ins)
}

#[test]
fn keyword_table_maps_each_word() {
    assert!(matches!(TokenType::from_str("write"), Some(TokenType::Write)));
    assert!(matches!(TokenType::from_str("pow"), Some(TokenType::ToThe)));
    assert!(matches!(TokenType::from_str("tothe"), Some(TokenType::ToThe)));
    assert!(matches!(TokenType::from_str("atmost"), Some(TokenType::AtMost)));
    assert!(matches!(TokenType::from_str("note"), Some(TokenType::Note)));
    assert!(matches!(TokenType::from_str("banana"), None));
    assert!(matches!(TokenType::from_str("Write"), None));
}

#[test]
fn token_from_str_carries_the_position() {
    let t = Token::from_str("run", Pos(4, 7)).unwrap();
    assert!(matches!(t.token_type, TokenType::Run));
    assert_eq!(t.location, Pos(4, 7));
    assert!(Token::from_str("zebra", Pos(1, 1)).is_none());
}

#[test]
fn lexer_scans_a_small_line() {
    let reader = Reader::new(b"x be 12\n".to_vec());
    let mut lexer = Lexer::new(reader);
    let tokens = lexer.lex().unwrap();
    assert_eq!(tokens.len(), 5);
    assert!(matches!(&tokens[0].token_type, TokenType::Id(n) if n == b"x"));
    assert!(matches!(tokens[1].token_type, TokenType::Be));
    assert!(matches!(tokens[2].token_type, TokenType::Number(12)));
    assert!(matches!(tokens[3].token_type, TokenType::Lf));
    assert!(matches!(tokens[4].token_type, TokenType::Eof));
    assert_eq!(tokens[2].location, Pos(1, 6));
}

#[test]
fn lexer_reports_a_weird_symbol() {
    let reader = Reader::new(b"write 1 # 2\n".to_vec());
    let mut lexer = Lexer::new(reader);
    match lexer.lex() {
        Err(Errors::SyntaxError(msg, pos, line)) => {
            assert_eq!(msg, b"WEIRD SYMBOL: #".to_vec());
            assert_eq!(pos, Pos(1, 9));
            assert_eq!(line, b"write 1 # 2".to_vec());
        },
        other => panic!("expected a syntax error, got {:?}", other),
    }
}

#[test]
fn unterminated_string_is_reported() {
    let (_, res) = run("write \"oops\nwrite 1", &[]);
    match res {
        Err(Errors::SyntaxError(msg, _, line)) => {
            assert_eq!(msg, b"MISSING QUOTE".to_vec());
            assert_eq!(line, b"write \"oops".to_vec());
        },
        other => panic!("expected a syntax error, got {:?}", other),
    }
}

#[test]
fn lone_carriage_return_is_reported() {
    let (_, res) = run("write 1\rwrite 2", &[]);
    assert!(matches!(res, Err(Errors::SyntaxError(..))));
}

#[test]
fn crlf_lines_scan_fine() {
    let (out, res) = run("write 1\r\nwrite 2", &[]);
    assert!(res.is_ok());
    assert_eq!(out, b"1\n2\n");
}

#[test]
fn oversized_integer_literal_is_reported() {
    let (_, res) = run("write 340282366920938463463374607431768211455", &[]);
    match res {
        Err(Errors::SyntaxError(msg, _, _)) => {
            assert_eq!(msg, b"NUMBER TOO LARGE".to_vec());
        },
        other => panic!("expected a syntax error, got {:?}", other),
    }
}

#[test]
fn largest_integer_literal_is_kept_exactly() {
    let (out, res) = run("write 170141183460469231731687303715884105727", &[]);
    assert!(res.is_ok());
    assert_eq!(out, b"170141183460469231731687303715884105727\n");
}

#[test]
fn trailing_junk_after_a_statement_is_reported() {
    let (_, res) = run("write 1 2", &[]);
    match res {
        Err(Errors::SyntaxError(msg, _, _)) => {
            assert_eq!(msg, b"WHY THIS HERE".to_vec());
        },
        other => panic!("expected a syntax error, got {:?}", other),
    }
}

#[test]
fn assignment_needs_a_name_on_the_left() {
    let (_, res) = run("5 be 4", &[]);
    match res {
        Err(Errors::SyntaxError(msg, _, _)) => {
            assert_eq!(msg, b"WHERE IDENTIFIER".to_vec());
        },
        other => panic!("expected a syntax error, got {:?}", other),
    }
}

#[test]
fn open_needs_close() {
    let (_, res) = run("write (1 plus 2", &[]);
    match res {
        Err(Errors::SyntaxError(msg, _, _)) => {
            assert_eq!(msg, b"NEED CLOSE".to_vec());
        },
        other => panic!("expected a syntax error, got {:?}", other),
    }
}

#[test]
fn a_decimal_needs_integers_on_both_sides() {
    let (_, res) = run("write yes dot 5", &[]);
    match res {
        Err(Errors::SyntaxError(msg, _, _)) => {
            assert_eq!(msg, b"INVALID DECIMAL".to_vec());
        },
        other => panic!("expected a syntax error, got {:?}", other),
    }
}

#[test]
fn rendered_diagnostic_quotes_the_line_and_points() {
    let (_, res) = run("x be 1\nwrite ghost", &[]);
    let e = res.err().unwrap();
    let text = String::from_utf8(e.render()).unwrap();
    assert!(text.contains("--------- ERROR ---------"));
    assert!(text.contains("VARIABLE ghost NOT FOUND"));
    assert!(text.contains("IN LINE: 2, COL: 7"));
    assert!(text.contains("--> write ghost"));
    assert!(text.contains("^-- SEE"));
}

#[test]
fn rendered_typo_banner_for_syntax_errors() {
    let (_, res) = run("write )", &[]);
    let e = res.err().unwrap();
    let text = String::from_utf8(e.render()).unwrap();
    assert!(text.contains("--------- TYPO ---------"));
    assert!(text.contains("NEED VALUE"));
}

#[test]
fn get_line_recovers_raw_text() {
    let reader = Reader::new(b"one\ntwo\nthree".to_vec());
    let mut lexer = Lexer::new(reader);
    // scanning records the newline offsets
    let _ = lexer.lex();
    let reader = lexer.into_reader();
    assert_eq!(reader.get_line(1), b"one".to_vec());
    assert_eq!(reader.get_line(2), b"two".to_vec());
    assert_eq!(reader.get_line(3), b"three".to_vec());
}

#[test]
fn lossy_text_decodes_plain_ascii() {
    assert_eq!(Lexer::to_string_lossy(b"plain words"), "plain words");
}

#[test]
fn display_quotes_text_values() {
    assert_eq!(Eval::display(&Value::Text(b"ab".to_vec())), b"\"ab\"".to_vec());
    assert_eq!(Eval::display(&Value::Int(-3)), b"-3".to_vec());
    assert_eq!(Eval::display(&Value::Choice(true)), b"yes".to_vec());
    assert_eq!(Eval::display(&Value::Nothing), b"nothing".to_vec());
    assert_eq!(Eval::display(&Value::Float(2.5f64.to_bits())), b"2.5".to_vec());
}

#[test]
fn double_specials_render_like_the_hardware() {
    let (out, _) = run("write 1.0 over 0.0", &[]);
    assert_eq!(out, format!("{}\n", 1.0f64 / 0.0f64).into_bytes());
    let (out, _) = run("write 0.0 over 0.0", &[]);
    assert_eq!(out, format!("{}\n", 0.0f64 / 0.0f64).into_bytes());
    let (out, _) = run("write neg 1.0 over 0.0", &[]);
    assert_eq!(out, format!("{}\n", -1.0f64 / 0.0f64).into_bytes());
}

#[test]
fn double_remainder_matches_the_hardware() {
    let (out, _) = run("write 7.5 mod 2.25", &[]);
    assert_eq!(out, format!("{}\n", 7.5f64 % 2.25f64).into_bytes());
}

#[test]
fn conversion_of_large_integers_rounds_like_a_cast() {
    let (out, _) = run("write 170141183460469231731687303715884105727 plus 0.5", &[]);
    assert_eq!(out, format!("{}\n", (i128::MAX as f64) + 0.5f64).into_bytes());
}
