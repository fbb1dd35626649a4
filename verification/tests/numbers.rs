use rjlox::chars::{belongs, is_alpha, is_alpha_numeric, is_digit, measure_run, same_text};
use rjlox::keywords::keyword_kind;
use rjlox::lexis::Run;
use rjlox::numeral::fits_double_text;
use rjlox::scanner::Scanner;
use rjlox::token::{Literal, TokenType};
use rjlox::utils::errors::{decimal_text, handle_error, report, ErrorSink, LexicalError, Report};

const LIMIT: &str = "179769313486231580793728971405303415079934132710037826936173778980444968292764750946649017977587207096330286416692887910946555547851940402630657488671505820681908902000708383676273854845817711531764475730270069855571366959622842914819860834936475292719074168444365510704342711559699508093042880177904174497792";

fn below_limit() -> String {
    let mut text = LIMIT.to_string();
    text.pop();
    text.push('1');
    text
}

#[test]
fn finite_numerals_fit() {
    let below = below_limit();
    let with_fraction = format!("{}.999", below);
    let padded = format!("000{}", below);
    for numeral in ["0", "1", "123.45", "000", "0.5", below.as_str(), with_fraction.as_str(), padded.as_str()] {
        assert!(fits_double_text(numeral), "{}", numeral);
        assert!(numeral.parse::<f64>().unwrap().is_finite(), "{}", numeral);
    }
}

#[test]
fn numerals_at_and_above_the_limit_do_not_fit() {
    let longer = format!("{}0", LIMIT);
    let with_fraction = format!("{}.0", LIMIT);
    let padded = format!("0{}", LIMIT);
    let nines = "9".repeat(309);
    for numeral in [LIMIT, longer.as_str(), with_fraction.as_str(), padded.as_str(), nines.as_str()] {
        assert!(!fits_double_text(numeral), "{}", numeral);
        assert!(numeral.parse::<f64>().unwrap().is_infinite(), "{}", numeral);
    }
}

#[test]
fn the_largest_double_fits() {
    let max = format!("{:.0}", f64::MAX);
    assert_eq!(max.len(), 309);
    assert!(fits_double_text(&max));
    assert_eq!(max.parse::<f64>().unwrap(), f64::MAX);
}

#[test]
fn number_beyond_the_range_is_reported() {
    let source = format!("x\n{} y", LIMIT);
    let mut scanner = Scanner::new(source);
    let tokens = scanner.scan_tokens().clone();
    let kinds: Vec<TokenType> = tokens.iter().map(|t| t.token_type).collect();
    assert_eq!(kinds, vec![TokenType::Identifier, TokenType::Identifier, TokenType::EOF]);
    assert_eq!(tokens[1].lexeme, "y");
    assert_eq!(tokens[1].line, 2);
    let errors = scanner.errors();
    assert!(errors.had_error);
    assert_eq!(
        errors.reports,
        vec![Report { line: 2, location: String::new(), message: "Invalid number.".to_string() }]
    );
}

#[test]
fn number_just_inside_the_range_is_a_token() {
    let below = below_limit();
    let mut scanner = Scanner::new(below.clone());
    let tokens = scanner.scan_tokens().clone();
    assert_eq!(tokens.len(), 2);
    assert_eq!(tokens[0].token_type, TokenType::Number);
    assert_eq!(tokens[0].literal, Literal::Number(below));
    assert!(!scanner.errors().had_error);
}

#[test]
fn character_classes_are_ascii_only() {
    for c in ['0', '5', '9'] {
        assert!(is_digit(c) && is_alpha_numeric(c) && !is_alpha(c));
    }
    for c in ['a', 'z', 'A', 'Z', '_', 'm'] {
        assert!(is_alpha(c) && is_alpha_numeric(c) && !is_digit(c));
    }
    for c in ['/', ':', '@', '[', '`', '{', 'é', '٣', ' ', '\0'] {
        assert!(!is_alpha(c) && !is_digit(c) && !is_alpha_numeric(c));
    }
}

#[test]
fn runs_are_maximal() {
    assert_eq!(measure_run("123ab", 0, Run::Digits), 3);
    assert_eq!(measure_run("123ab", 1, Run::Digits), 2);
    assert_eq!(measure_run("123ab", 3, Run::Digits), 0);
    assert_eq!(measure_run("123ab", 5, Run::Digits), 0);
    assert_eq!(measure_run("ab_1 c", 0, Run::Word), 4);
    assert_eq!(measure_run("0012", 0, Run::Zeros), 2);
    assert_eq!(measure_run("ab\ncd", 0, Run::Comment), 2);
    assert_eq!(measure_run("ab\ncd", 3, Run::Comment), 2);
    assert_eq!(measure_run("a\nb\"c", 0, Run::Quoted), 3);
    assert!(belongs(Run::Comment, '"') && !belongs(Run::Comment, '\n'));
    assert!(belongs(Run::Quoted, '\n') && !belongs(Run::Quoted, '"'));
}

#[test]
fn texts_compare_character_for_character() {
    assert!(same_text("", ""));
    assert!(same_text("héllo", "héllo"));
    assert!(!same_text("abc", "abd"));
    assert!(!same_text("abc", "ab"));
    assert!(!same_text("ab", "abc"));
}

#[test]
fn keyword_lookup_is_exact() {
    assert_eq!(keyword_kind("class"), Some(TokenType::Class));
    assert_eq!(keyword_kind("while"), Some(TokenType::While));
    assert_eq!(keyword_kind("for"), Some(TokenType::For));
    assert_eq!(keyword_kind("fun"), Some(TokenType::Fun));
    assert_eq!(keyword_kind("classic"), None);
    assert_eq!(keyword_kind("clas"), None);
    assert_eq!(keyword_kind("Class"), None);
    assert_eq!(keyword_kind(""), None);
}

#[test]
fn kind_names() {
    assert_eq!(TokenType::LeftParen.name(), "LeftParen");
    assert_eq!(TokenType::BangEqual.name(), "BangEqual");
    assert_eq!(TokenType::String.name(), "String");
    assert_eq!(TokenType::While.name(), "While");
    assert_eq!(TokenType::EOF.name(), "EOF");
}

#[test]
fn error_messages() {
    assert_eq!(LexicalError::UnexpectedCharacter.message(), "Unexpected character.");
    assert_eq!(LexicalError::UnterminatedString.message(), "Unterminated string.");
    assert_eq!(LexicalError::InvalidNumber.message(), "Invalid number.");
}

#[test]
fn decimal_text_of_numbers() {
    assert_eq!(decimal_text(0), "0");
    assert_eq!(decimal_text(7), "7");
    assert_eq!(decimal_text(10), "10");
    assert_eq!(decimal_text(1203), "1203");
    assert_eq!(decimal_text(u64::MAX), "18446744073709551615");
}

#[test]
fn handle_error_records_and_raises_the_flag() {
    let mut sink = ErrorSink::new();
    assert!(!sink.had_error);
    handle_error(&mut sink, "Unexpected character.", 3);
    assert!(sink.had_error);
    report(&mut sink, 12, " at end", "Expect expression.");
    assert_eq!(sink.reports.len(), 2);
    assert_eq!(sink.reports[0].render(), "[line 3] Error: Unexpected character.");
    assert_eq!(sink.reports[1].render(), "[line 12] Error at end: Expect expression.");
}
