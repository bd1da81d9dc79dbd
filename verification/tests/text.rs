use syntax::text::{int_literal, same_text};
use syntax::token::copy_tokens;
use syntax::{operand, Category, ErrorKind, Operand, ParseError, Token, TokenType};

#[test]
fn operator_table_maps_each_symbol() {
    assert_eq!(operand("*"), Some((Operand::Mul, 1)));
    assert_eq!(operand("/"), Some((Operand::Div, 1)));
    assert_eq!(operand("+"), Some((Operand::Plus, 2)));
    assert_eq!(operand("-"), Some((Operand::Minus, 2)));
    assert_eq!(operand("=="), Some((Operand::Equals, 3)));
    assert_eq!(operand("!="), Some((Operand::NEquals, 3)));
    assert_eq!(operand("<"), Some((Operand::Lt, 4)));
    assert_eq!(operand(">"), Some((Operand::Gt, 4)));
    assert_eq!(operand("<="), Some((Operand::LtEquals, 4)));
    assert_eq!(operand(">="), Some((Operand::GtEquals, 4)));
}

#[test]
fn operator_table_knows_no_other_text() {
    assert_eq!(operand(""), None);
    assert_eq!(operand("="), None);
    assert_eq!(operand("**"), None);
    assert_eq!(operand("("), None);
    assert_eq!(operand("< "), None);
    assert_eq!(operand("and"), None);
}

#[test]
fn same_text_compares_character_by_character() {
    assert!(same_text("", ""));
    assert!(same_text("else", "else"));
    assert!(!same_text("else", "els"));
    assert!(!same_text("els", "else"));
    assert!(!same_text("else", "elsa"));
    assert!(same_text("né", "né"));
    assert!(!same_text("né", "ne"));
}

#[test]
fn int_literal_reads_decimal_digits() {
    assert_eq!(int_literal("0"), Some(0));
    assert_eq!(int_literal("5"), Some(5));
    assert_eq!(int_literal("42"), Some(42));
    assert_eq!(int_literal("007"), Some(7));
    assert_eq!(int_literal("1234567890"), Some(1234567890));
}

#[test]
fn int_literal_reads_a_sign() {
    assert_eq!(int_literal("-7"), Some(-7));
    assert_eq!(int_literal("+7"), Some(7));
    assert_eq!(int_literal("-0"), Some(0));
}

#[test]
fn int_literal_reads_the_limits_of_64_bits() {
    assert_eq!(int_literal("9223372036854775807"), Some(i64::MAX));
    assert_eq!(int_literal("-9223372036854775808"), Some(i64::MIN));
    assert_eq!(int_literal("9223372036854775808"), None);
    assert_eq!(int_literal("-9223372036854775809"), None);
    assert_eq!(int_literal("99999999999999999999999999"), None);
    assert_eq!(int_literal("00000000000000000000000001"), Some(1));
}

#[test]
fn int_literal_refuses_what_is_no_number() {
    assert_eq!(int_literal(""), None);
    assert_eq!(int_literal("-"), None);
    assert_eq!(int_literal("+"), None);
    assert_eq!(int_literal("12a"), None);
    assert_eq!(int_literal("a12"), None);
    assert_eq!(int_literal("1 2"), None);
    assert_eq!(int_literal("--1"), None);
    assert_eq!(int_literal("1-"), None);
    assert_eq!(int_literal("1.5"), None);
    assert_eq!(int_literal("٣"), None);
    assert_eq!(int_literal("1é"), None);
}

#[test]
fn int_literal_agrees_with_the_standard_reading() {
    let samples = [
        "0", "1", "-1", "+1", "10", "0010", "-0010", "9223372036854775807",
        "9223372036854775808", "-9223372036854775808", "-9223372036854775809",
        "18446744073709551616", "", "+", "-", "+-1", "1+", "x", "1x", " 1", "1 ", "1_000",
        "0x10", "١٢", "12345678901234567890123",
    ];
    for sample in samples {
        assert_eq!(int_literal(sample), sample.parse::<i64>().ok(), "{:?}", sample);
    }
}

#[test]
fn category_names_read_as_in_diagnostics() {
    assert_eq!(Category::Identifier.name(), "identifier");
    assert_eq!(Category::Keyword.name(), "keyword");
    assert_eq!(Category::Operator.name(), "operator");
    assert_eq!(Category::Symbol.name(), "symbol");
    assert_eq!(Category::IntLiteral.name(), "integer literal");
    assert_eq!(Category::FloatLiteral.name(), "float literal");
    assert_eq!(Category::BoolLiteral.name(), "boolean literal");
    assert_eq!(Category::StringLiteral.name(), "string literal");
    assert_eq!(Category::CharLiteral.name(), "character literal");
    assert_eq!(Category::Block.name(), "block");
}

#[test]
fn token_type_has_the_category_of_its_variant() {
    assert_eq!(TokenType::Identifier.category(), Category::Identifier);
    assert_eq!(TokenType::Operator.category(), Category::Operator);
    assert_eq!(TokenType::CharLiteral.category(), Category::CharLiteral);
    let block = TokenType::Block(vec![Token::new(TokenType::Symbol, "(".to_string())]);
    assert_eq!(block.category(), Category::Block);
}

#[test]
fn token_keeps_its_type_and_text() {
    let token = Token::new(TokenType::Keyword, "if".to_string());
    assert_eq!(token.token_type, TokenType::Keyword);
    assert_eq!(token.content(), "if");
}

#[test]
fn copied_tokens_equal_their_source_in_depth() {
    let inner = vec![
        Token::new(TokenType::Identifier, "a".to_string()),
        Token::new(
            TokenType::Block(vec![Token::new(TokenType::IntLiteral, "1".to_string())]),
            "{".to_string(),
        ),
    ];
    let tokens = vec![
        Token::new(TokenType::Keyword, "if".to_string()),
        Token::new(TokenType::Block(inner), "{".to_string()),
    ];
    assert_eq!(copy_tokens(&tokens), tokens);
    assert_eq!(tokens[1].clone(), tokens[1]);
    assert_eq!(copy_tokens(&Vec::new()), Vec::new());
}

#[test]
fn error_message_names_what_was_expected_and_found() {
    let error = ParseError::new(ErrorKind::UnexpectedText, 3, ")", "x");
    assert_eq!(error.position, 3);
    assert_eq!(error.message(), "expected ')', found 'x'");
    let error = ParseError::new(ErrorKind::UnexpectedCategory, 1, "identifier", "5");
    assert_eq!(error.message(), "expected 'identifier', found '5'");
    let error = ParseError::new(ErrorKind::Unrecognized, 0, "statement", "kill");
    assert_eq!(error.message(), "expected 'statement', found 'kill'");
    let error = ParseError::new(ErrorKind::PrematureEnd, 4, ")", "");
    assert_eq!(error.message(), "expected ')', found end of source >:(");
    let error = ParseError::new(ErrorKind::TooDeep, 7, "expression", "(");
    assert_eq!(error.message(), "nesting too deep at '('");
}

#[test]
fn error_within_a_block_records_the_block() {
    let error = ParseError::new(ErrorKind::UnexpectedText, 3, ")", "x");
    assert_eq!(error.path, Vec::<usize>::new());
    let error = error.within(5);
    assert_eq!(error.position, 3);
    assert_eq!(error.path, vec![5]);
    let error = error.within(2);
    assert_eq!(error.path, vec![5, 2]);
    assert_eq!(error.expected, ")");
    assert_eq!(error.found, "x");
    assert_eq!(error.kind, ErrorKind::UnexpectedText);
}

#[test]
fn cloned_error_equals_its_source() {
    let error = ParseError::new(ErrorKind::PrematureEnd, 4, ")", "").within(9);
    assert_eq!(error.clone(), error);
}
