use math_interpreter::eval::{evaluate, EvalError, Rational};
use math_interpreter::lexer::{tokenize, Lexer};
use math_interpreter::parser::{parse, Parser};
use math_interpreter::token::{Expectation, LexError, Lexeme, LexemeKind, ParseError};

fn eval_str(source: &str) -> Result<Rational, EvalError> {
    let lexemes = tokenize(source).expect("tokenize failed");
    let ast = parse(lexemes).expect("parse failed");
    evaluate(&ast)
}

fn kinds_of(lexemes: &[Lexeme]) -> Vec<LexemeKind> {
    lexemes.iter().map(|l| l.kind).collect()
}

#[test]
fn tokenize_simple_expression() {
    let lexemes = tokenize("1+2*3").unwrap();
    assert_eq!(
        lexemes,
        vec![
            Lexeme { integral_value: 1, kind: LexemeKind::NUMBER },
            Lexeme { integral_value: 0, kind: LexemeKind::PLUS },
            Lexeme { integral_value: 2, kind: LexemeKind::NUMBER },
            Lexeme { integral_value: 0, kind: LexemeKind::MUL },
            Lexeme { integral_value: 3, kind: LexemeKind::NUMBER },
        ]
    );
}

#[test]
fn multi_digit_number_is_one_token() {
    let lexemes = tokenize("1234").unwrap();
    assert_eq!(lexemes.len(), 1);
    assert_eq!(lexemes[0].kind, LexemeKind::NUMBER);
    assert_eq!(lexemes[0].integral_value, 1234);
}

#[test]
fn digits_merge_across_skipped_whitespace() {
    // Whitespace is skipped entirely, so the digit after it still merges
    // into the most recently emitted NUMBER token.
    let lexemes = tokenize("12 34").unwrap();
    assert_eq!(lexemes.len(), 1);
    assert_eq!(lexemes[0].integral_value, 1234);
}

#[test]
fn paren_depths_are_recorded() {
    let lexemes = tokenize("((1))").unwrap();
    assert_eq!(
        kinds_of(&lexemes),
        vec![
            LexemeKind::LPAREN,
            LexemeKind::LPAREN,
            LexemeKind::NUMBER,
            LexemeKind::RPAREN,
            LexemeKind::RPAREN,
        ]
    );
    assert_eq!(lexemes[0].integral_value, 0);
    assert_eq!(lexemes[1].integral_value, 1);
    assert_eq!(lexemes[3].integral_value, 1);
    assert_eq!(lexemes[4].integral_value, 0);
}

#[test]
fn all_four_operators_tokenize() {
    let lexemes = tokenize("1+2-3*4/5").unwrap();
    assert_eq!(
        kinds_of(&lexemes),
        vec![
            LexemeKind::NUMBER,
            LexemeKind::PLUS,
            LexemeKind::NUMBER,
            LexemeKind::MINUS,
            LexemeKind::NUMBER,
            LexemeKind::MUL,
            LexemeKind::NUMBER,
            LexemeKind::DIV,
            LexemeKind::NUMBER,
        ]
    );
    for l in &lexemes {
        if l.kind != LexemeKind::NUMBER {
            assert_eq!(l.integral_value, 0);
        }
    }
}

#[test]
fn empty_input_tokenizes_to_nothing() {
    let lexemes = tokenize("").unwrap();
    assert!(lexemes.is_empty());
}

#[test]
fn unexpected_char_is_reported_with_position() {
    let err = tokenize("1@2").unwrap_err();
    assert_eq!(err, LexError::UnexpectedChar { ch: '@', position: 1 });
}

#[test]
fn unmatched_close_paren_fails_at_the_lexer() {
    let err = tokenize("1)").unwrap_err();
    assert_eq!(err, LexError::UnmatchedCloseParen { position: 1 });
}

#[test]
fn oversized_number_is_rejected() {
    // Twenty nines: the twentieth digit pushes the value past the 64-bit
    // token payload.
    let err = tokenize("99999999999999999999").unwrap_err();
    assert_eq!(err, LexError::NumberTooLarge { position: 19 });
}

#[test]
fn number_at_the_payload_limit_is_accepted() {
    let lexemes = tokenize("18446744073709551615").unwrap();
    assert_eq!(lexemes.len(), 1);
    assert_eq!(lexemes[0].integral_value, u64::MAX);
}

#[test]
fn number_just_past_the_payload_limit_is_rejected() {
    let err = tokenize("18446744073709551616").unwrap_err();
    assert_eq!(err, LexError::NumberTooLarge { position: 19 });
}

#[test]
fn whitespace_only_input_tokenizes_to_nothing() {
    let lexemes = tokenize(" \t \n ").unwrap();
    assert!(lexemes.is_empty());
}

#[test]
fn multiplication_binds_tighter_than_addition() {
    let r = eval_str("1+2*3").unwrap();
    assert_eq!(r, Rational { num: 7, den: 1 });
}

#[test]
fn parentheses_override_precedence() {
    let r = eval_str("(1+2)*3").unwrap();
    assert_eq!(r, Rational { num: 9, den: 1 });
}

#[test]
fn same_precedence_operators_group_left() {
    let r = eval_str("1-2-3").unwrap();
    assert_eq!(r, Rational { num: -4, den: 1 });
}

#[test]
fn nested_expression_evaluates() {
    let r = eval_str("2*(3+4)-5").unwrap();
    assert_eq!(r, Rational { num: 9, den: 1 });
}

#[test]
fn division_is_exact() {
    let r = eval_str("7/2").unwrap();
    assert_eq!(r, Rational { num: 7, den: 2 });
}

#[test]
fn division_by_zero_is_an_error() {
    let r = eval_str("1/0");
    assert_eq!(r, Err(EvalError::DivisionByZero));
}

#[test]
fn division_by_zero_inside_a_divisor_is_an_error() {
    let r = eval_str("1/(2/0)");
    assert_eq!(r, Err(EvalError::DivisionByZero));
}

#[test]
fn unmatched_open_paren_fails_at_the_parser() {
    let lexemes = tokenize("(1+2").unwrap();
    let err = parse(lexemes).unwrap_err();
    assert_eq!(
        err,
        ParseError::UnexpectedToken {
            found: LexemeKind::Nil,
            expected: Expectation::Kind(LexemeKind::RPAREN),
        }
    );
}

#[test]
fn empty_input_fails_at_the_parser() {
    let lexemes = tokenize("").unwrap();
    let err = parse(lexemes).unwrap_err();
    assert_eq!(
        err,
        ParseError::UnexpectedToken {
            found: LexemeKind::Nil,
            expected: Expectation::NumberOrLParen,
        }
    );
}

#[test]
fn missing_operand_fails_at_the_parser() {
    let lexemes = tokenize("1+").unwrap();
    let err = parse(lexemes).unwrap_err();
    assert_eq!(
        err,
        ParseError::UnexpectedToken {
            found: LexemeKind::Nil,
            expected: Expectation::NumberOrLParen,
        }
    );
}

#[test]
fn trailing_tokens_are_rejected() {
    let lexemes = tokenize("(1)2").unwrap();
    let err = parse(lexemes).unwrap_err();
    assert_eq!(
        err,
        ParseError::UnexpectedToken {
            found: LexemeKind::NUMBER,
            expected: Expectation::Kind(LexemeKind::Nil),
        }
    );
}

#[test]
fn evaluating_the_same_tree_twice_gives_identical_results() {
    let lexemes = tokenize("2*(3+4)-5/2").unwrap();
    let ast = parse(lexemes).unwrap();
    let first = evaluate(&ast);
    let second = evaluate(&ast);
    assert_eq!(first, second);
    assert_eq!(first.unwrap(), Rational { num: 23, den: 2 });
}

#[test]
fn lexer_appends_and_reports_errors_in_place() {
    let mut lexer = Lexer { lexemes: Vec::new() };
    assert_eq!(lexer.lex("1+"), None);
    assert_eq!(lexer.lexemes.len(), 2);
    // A second run keeps appending to the same buffer.
    assert_eq!(lexer.lex("2"), None);
    assert_eq!(kinds_of(&lexer.lexemes), vec![
        LexemeKind::NUMBER,
        LexemeKind::PLUS,
        LexemeKind::NUMBER,
    ]);
    let err = lexer.lex("#");
    assert_eq!(err, Some(LexError::UnexpectedChar { ch: '#', position: 0 }));
}

#[test]
fn parser_appends_the_sentinel_once() {
    let lexemes = tokenize("4*5").unwrap();
    let mut parser = Parser {
        lexer: Lexer { lexemes },
        curr_lexeme: Lexeme::nil(),
        curr_index: 0,
    };
    let ast = parser.parse().unwrap();
    assert_eq!(parser.lexer.lexemes.len(), 4);
    assert_eq!(parser.lexer.lexemes[3].kind, LexemeKind::Nil);
    assert_eq!(evaluate(&ast), Ok(Rational { num: 20, den: 1 }));
}

#[test]
fn whitespace_variants_are_skipped() {
    let r = eval_str(" 1 +\t2\u{00A0}*\n3 ").unwrap();
    assert_eq!(r, Rational { num: 7, den: 1 });
}
