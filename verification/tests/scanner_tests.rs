//! End-to-end scans: token values, kinds and exact line/column
//! coordinates.

use tokenizer::grammar::TokenType;
use tokenizer::scanner::tokenize;
use tokenizer::token::{Location, Token};

fn tok(line: usize, col: usize, token_type: TokenType, value: &str) -> Token {
    Token {
        location: Location {
            filename: "TODO".to_string(),
            line,
            col,
        },
        token_type,
        value: value.to_string(),
    }
}

#[test]
fn simple_string() {
    let expected_tokens: Vec<Token> = vec![
        tok(1, 1, TokenType::Identifier, "if"),
        tok(1, 5, TokenType::IntLiteral, "3"),
        tok(2, 1, TokenType::Identifier, "while"),
        tok(2, 7, TokenType::Identifier, "_var_nameconst"),
    ];

    let tokens: Vec<Token> = tokenize("if  3\nwhile _var_nameconst ".to_string());
    assert_eq!(expected_tokens[0], tokens[0]);
    assert_eq!(expected_tokens[1], tokens[1]);
    assert_eq!(expected_tokens[2], tokens[2]);
    assert_eq!(expected_tokens[3], tokens[3]);
}

#[test]
fn longer_string() {
    let expected_tokens: Vec<Token> = vec![
        tok(1, 1, TokenType::IntLiteral, "12334"),
        tok(2, 2, TokenType::Identifier, "const"),
        tok(2, 8, TokenType::Identifier, "variable_name"),
        tok(2, 22, TokenType::Identifier, "true"),
        tok(3, 1, TokenType::Identifier, "while"),
        tok(6, 1, TokenType::Identifier, "unit"),
        tok(6, 6, TokenType::Identifier, "if"),
        tok(6, 9, TokenType::Identifier, "else"),
    ];

    let tokens: Vec<Token> = tokenize(
        "12334 // This is a comment var const if else \n const variable_name true\nwhile    \n\n\nunit if else "
            .to_string(),
    );
    assert_eq!(expected_tokens[0], tokens[0]);
    assert_eq!(expected_tokens[1], tokens[1]);
    assert_eq!(expected_tokens[2], tokens[2]);
    assert_eq!(expected_tokens[3], tokens[3]);
    assert_eq!(expected_tokens[4], tokens[4]);
    assert_eq!(expected_tokens[5], tokens[5]);
    assert_eq!(expected_tokens[6], tokens[6]);
    assert_eq!(expected_tokens[7], tokens[7]);
}

#[test]
fn test_punctuation_and_operators() {
    let expected_tokens: Vec<Token> = vec![
        tok(1, 1, TokenType::Operator, "+"),
        tok(1, 3, TokenType::Operator, "-"),
        tok(1, 5, TokenType::Operator, "*"),
        tok(1, 7, TokenType::Operator, "/"),
        tok(1, 9, TokenType::Operator, "="),
        tok(1, 11, TokenType::Punctuation, "("),
        tok(1, 13, TokenType::Operator, "=="),
        tok(1, 16, TokenType::Punctuation, ")"),
        tok(1, 18, TokenType::Operator, "!="),
        tok(1, 21, TokenType::Punctuation, "{"),
        tok(1, 23, TokenType::Operator, "<"),
        tok(1, 25, TokenType::Punctuation, "}"),
        tok(1, 27, TokenType::Operator, "<="),
        tok(1, 30, TokenType::Punctuation, ","),
        tok(1, 32, TokenType::Operator, ">"),
        tok(1, 34, TokenType::Punctuation, ";"),
        tok(1, 36, TokenType::Operator, ">="),
    ];
    let tokens: Vec<Token> = tokenize(r"+ - * / = ( == ) != { < } <= , > ; >=".to_string());
    assert_eq!(tokens.len(), 17);
    assert_eq!(expected_tokens[0], tokens[0]);
    assert_eq!(expected_tokens[1], tokens[1]);
    assert_eq!(expected_tokens[2], tokens[2]);
    assert_eq!(expected_tokens[3], tokens[3]);
    assert_eq!(expected_tokens[4], tokens[4]);
    assert_eq!(expected_tokens[5], tokens[5]);
    assert_eq!(expected_tokens[6], tokens[6]);
    assert_eq!(expected_tokens[7], tokens[7]);
    assert_eq!(expected_tokens[8], tokens[8]);
    assert_eq!(expected_tokens[9], tokens[9]);
    assert_eq!(expected_tokens[10], tokens[10]);
    assert_eq!(expected_tokens[11], tokens[11]);
    assert_eq!(expected_tokens[12], tokens[12]);
    assert_eq!(expected_tokens[13], tokens[13]);
    assert_eq!(expected_tokens[14], tokens[14]);
    assert_eq!(expected_tokens[15], tokens[15]);
    assert_eq!(expected_tokens[16], tokens[16]);
}

#[test]
fn scanning_twice_yields_identical_tokens() {
    let source = "var x = 41 ;\nwhile x <= 99 { x = x + 1 ; } // bump\n";
    let first: Vec<Token> = tokenize(source.to_string());
    let second: Vec<Token> = tokenize(source.to_string());
    assert_eq!(first, second);
}

#[test]
fn trivia_only_input_scans_empty() {
    let tokens: Vec<Token> = tokenize("   \n\t".to_string());
    assert_eq!(tokens.len(), 0);
}

#[test]
fn empty_input_scans_empty() {
    let tokens: Vec<Token> = tokenize(String::new());
    assert_eq!(tokens.len(), 0);
}

#[test]
fn comment_only_input_scans_empty() {
    let tokens: Vec<Token> = tokenize("// nothing but commentary here\n".to_string());
    assert_eq!(tokens.len(), 0);
}

#[test]
fn comment_consumes_rest_of_line() {
    let tokens: Vec<Token> = tokenize("12334 // comment var const if else \n".to_string());
    assert_eq!(tokens.len(), 1);
    assert_eq!(tokens[0], tok(1, 1, TokenType::IntLiteral, "12334"));
}

#[test]
fn keyword_prefix_stays_one_identifier() {
    let tokens: Vec<Token> = tokenize("ifx ".to_string());
    assert_eq!(tokens.len(), 1);
    assert_eq!(tokens[0], tok(1, 1, TokenType::Identifier, "ifx"));
}

#[test]
fn less_equal_is_one_operator() {
    let tokens: Vec<Token> = tokenize("<=".to_string());
    assert_eq!(tokens.len(), 1);
    assert_eq!(tokens[0], tok(1, 1, TokenType::Operator, "<="));
}

#[test]
fn two_char_operator_matches_without_boundary() {
    let tokens: Vec<Token> = tokenize("<=3 ".to_string());
    assert_eq!(tokens.len(), 2);
    assert_eq!(tokens[0], tok(1, 1, TokenType::Operator, "<="));
    assert_eq!(tokens[1], tok(1, 3, TokenType::IntLiteral, "3"));
}

#[test]
fn newline_advances_line_and_resets_column() {
    let tokens: Vec<Token> = tokenize("a\nb ".to_string());
    assert_eq!(tokens.len(), 2);
    assert_eq!(tokens[0], tok(1, 1, TokenType::Identifier, "a"));
    assert_eq!(tokens[1], tok(2, 1, TokenType::Identifier, "b"));
}

#[test]
fn comment_advances_one_line() {
    let tokens: Vec<Token> = tokenize("// heading\nx ".to_string());
    assert_eq!(tokens.len(), 1);
    assert_eq!(tokens[0], tok(2, 1, TokenType::Identifier, "x"));
}

#[test]
fn trailing_unmatched_span_is_absorbed() {
    let tokens: Vec<Token> = tokenize("if ?after ".to_string());
    assert_eq!(tokens.len(), 1);
    assert_eq!(tokens[0], tok(1, 1, TokenType::Identifier, "if"));
}

#[test]
fn boolean_literals_are_identifiers() {
    let tokens: Vec<Token> = tokenize("true false ".to_string());
    assert_eq!(tokens.len(), 2);
    assert_eq!(tokens[0], tok(1, 1, TokenType::Identifier, "true"));
    assert_eq!(tokens[1], tok(1, 6, TokenType::Identifier, "false"));
}

#[test]
fn columns_grow_within_a_line() {
    let tokens: Vec<Token> = tokenize("var total = 9000 ;\n".to_string());
    for pair in tokens.windows(2) {
        if pair[0].location.line == pair[1].location.line {
            assert!(
                pair[1].location.col
                    >= pair[0].location.col + pair[0].value.chars().count()
            );
        }
    }
    assert_eq!(tokens.len(), 5);
}
