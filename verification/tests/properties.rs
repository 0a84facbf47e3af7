use scanner::lexer::Lexer;
use scanner::token::{match_literal_to_kind, Token, TokenKind};

fn lex_all(input: &str) -> Vec<Token> {
    let mut lexer = Lexer::new(input.chars().collect());
    let mut tokens = Vec::new();
    loop {
        let token = lexer.next_token();
        let done = token.kind == TokenKind::Eof;
        tokens.push(token);
        if done {
            break;
        }
    }
    tokens
}

fn assert_tokens(input: &str, expected: &[(TokenKind, &str)]) {
    let got = lex_all(input);
    assert_eq!(
        got.len(),
        expected.len(),
        "input {:?}: expected {} tokens, got {:?}",
        input,
        expected.len(),
        got
    );
    for (idx, (kind, literal)) in expected.iter().enumerate() {
        assert_eq!(got[idx].kind, *kind, "input {:?}, token {}", input, idx);
        assert_eq!(got[idx].literal, *literal, "input {:?}, token {}", input, idx);
    }
}

#[test]
fn consumed_characters_total_input_length() {
    for input in [
        "let five = 5;",
        "  5 == 7 ;\t\r\n!= <= >= @ foo_bar 42  ",
        "",
        "   ",
        "fn(x,y){x+y;}",
    ] {
        let literal_total: usize = lex_all(input).iter().map(|t| t.literal.len()).sum();
        let whitespace_total = input
            .chars()
            .filter(|c| *c == ' ' || *c == '\t' || *c == '\n' || *c == '\r')
            .count();
        assert_eq!(
            literal_total + whitespace_total,
            input.chars().count(),
            "input {:?}",
            input
        );
    }
}

#[test]
fn end_of_input_is_idempotent() {
    for input in ["", "x", "let five = 5;", "   "] {
        let mut lexer = Lexer::new(input.chars().collect());
        loop {
            if lexer.next_token().kind == TokenKind::Eof {
                break;
            }
        }
        for _ in 0..5 {
            let token = lexer.next_token();
            assert_eq!(token.kind, TokenKind::Eof, "input {:?}", input);
            assert_eq!(token.literal, "", "input {:?}", input);
        }
    }
}

#[test]
fn maximal_munch_keeps_keyword_prefix_inside_identifier() {
    assert_tokens("letx", &[(TokenKind::Ident, "letx"), (TokenKind::Eof, "")]);
    assert_tokens("fnord", &[(TokenKind::Ident, "fnord"), (TokenKind::Eof, "")]);
    assert_tokens(
        "let letx",
        &[
            (TokenKind::Let, "let"),
            (TokenKind::Ident, "letx"),
            (TokenKind::Eof, ""),
        ],
    );
    assert_tokens("1234", &[(TokenKind::Int, "1234"), (TokenKind::Eof, "")]);
}

#[test]
fn two_char_operators_take_priority() {
    assert_tokens("==", &[(TokenKind::Eq, "=="), (TokenKind::Eof, "")]);
    assert_tokens(
        "=a",
        &[
            (TokenKind::Assign, "="),
            (TokenKind::Ident, "a"),
            (TokenKind::Eof, ""),
        ],
    );
    assert_tokens(
        "!==",
        &[
            (TokenKind::NotEq, "!="),
            (TokenKind::Assign, "="),
            (TokenKind::Eof, ""),
        ],
    );
    assert_tokens(
        "<= >=",
        &[
            (TokenKind::LtEq, "<="),
            (TokenKind::GtEq, ">="),
            (TokenKind::Eof, ""),
        ],
    );
}

#[test]
fn operator_literals_are_canonical_spellings() {
    let expected = [
        (TokenKind::Assign, "="),
        (TokenKind::Plus, "+"),
        (TokenKind::Minus, "-"),
        (TokenKind::Asterisk, "*"),
        (TokenKind::Slash, "/"),
        (TokenKind::Eq, "=="),
        (TokenKind::NotEq, "!="),
        (TokenKind::Bang, "!"),
        (TokenKind::Lt, "<"),
        (TokenKind::Gt, ">"),
        (TokenKind::LtEq, "<="),
        (TokenKind::GtEq, ">="),
        (TokenKind::Comma, ","),
        (TokenKind::Semicolon, ";"),
        (TokenKind::Lparen, "("),
        (TokenKind::Rparen, ")"),
        (TokenKind::Lbrace, "{"),
        (TokenKind::Rbrace, "}"),
        (TokenKind::Eof, ""),
    ];
    assert_tokens("= + - * / == != ! < > <= >= , ; ( ) { }", &expected);
}

#[test]
fn scenario_punctuation_run() {
    assert_tokens(
        "=+(),{};",
        &[
            (TokenKind::Assign, "="),
            (TokenKind::Plus, "+"),
            (TokenKind::Lparen, "("),
            (TokenKind::Rparen, ")"),
            (TokenKind::Comma, ","),
            (TokenKind::Lbrace, "{"),
            (TokenKind::Rbrace, "}"),
            (TokenKind::Semicolon, ";"),
            (TokenKind::Eof, ""),
        ],
    );
}

#[test]
fn scenario_let_binding() {
    assert_tokens(
        "let five = 5;",
        &[
            (TokenKind::Let, "let"),
            (TokenKind::Ident, "five"),
            (TokenKind::Assign, "="),
            (TokenKind::Int, "5"),
            (TokenKind::Semicolon, ";"),
            (TokenKind::Eof, ""),
        ],
    );
}

#[test]
fn scenario_comparisons() {
    assert_tokens(
        "5 == 7; 7 != 8;",
        &[
            (TokenKind::Int, "5"),
            (TokenKind::Eq, "=="),
            (TokenKind::Int, "7"),
            (TokenKind::Semicolon, ";"),
            (TokenKind::Int, "7"),
            (TokenKind::NotEq, "!="),
            (TokenKind::Int, "8"),
            (TokenKind::Semicolon, ";"),
            (TokenKind::Eof, ""),
        ],
    );
}

#[test]
fn scenario_function_literal() {
    assert_tokens(
        "fn(x,y){x+y;}",
        &[
            (TokenKind::Fn, "fn"),
            (TokenKind::Lparen, "("),
            (TokenKind::Ident, "x"),
            (TokenKind::Comma, ","),
            (TokenKind::Ident, "y"),
            (TokenKind::Rparen, ")"),
            (TokenKind::Lbrace, "{"),
            (TokenKind::Ident, "x"),
            (TokenKind::Plus, "+"),
            (TokenKind::Ident, "y"),
            (TokenKind::Semicolon, ";"),
            (TokenKind::Rbrace, "}"),
            (TokenKind::Eof, ""),
        ],
    );
}

#[test]
fn scenario_illegal_character() {
    assert_tokens("@", &[(TokenKind::Illegal, "@"), (TokenKind::Eof, "")]);
}

#[test]
fn scenario_empty_input() {
    let mut lexer = Lexer::new(Vec::new());
    let token = lexer.next_token();
    assert_eq!(token.kind, TokenKind::Eof);
    assert_eq!(token.literal, "");
    let again = lexer.next_token();
    assert_eq!(again.kind, TokenKind::Eof);
    assert_eq!(again.literal, "");
}

#[test]
fn illegal_characters_consume_one_each() {
    assert_tokens(
        "@#$",
        &[
            (TokenKind::Illegal, "@"),
            (TokenKind::Illegal, "#"),
            (TokenKind::Illegal, "$"),
            (TokenKind::Eof, ""),
        ],
    );
}

#[test]
fn digit_run_stops_before_letter() {
    assert_tokens(
        "3x",
        &[
            (TokenKind::Int, "3"),
            (TokenKind::Ident, "x"),
            (TokenKind::Eof, ""),
        ],
    );
}

#[test]
fn underscore_starts_identifier() {
    assert_tokens(
        "_foo_bar baz_",
        &[
            (TokenKind::Ident, "_foo_bar"),
            (TokenKind::Ident, "baz_"),
            (TokenKind::Eof, ""),
        ],
    );
}

#[test]
fn unicode_letters_continue_identifiers() {
    assert_tokens(
        "a\u{e9}",
        &[(TokenKind::Ident, "a\u{e9}"), (TokenKind::Eof, "")],
    );
    assert_tokens(
        "caf\u{e9} \u{3b1}\u{3b2}",
        &[
            (TokenKind::Ident, "caf\u{e9}"),
            (TokenKind::Ident, "\u{3b1}\u{3b2}"),
            (TokenKind::Eof, ""),
        ],
    );
}

#[test]
fn non_decimal_digit_is_illegal() {
    assert_tokens(
        "\u{663}",
        &[(TokenKind::Illegal, "\u{663}"), (TokenKind::Eof, "")],
    );
}

#[test]
fn keyword_classification() {
    assert_eq!(match_literal_to_kind("fn"), TokenKind::Fn);
    assert_eq!(match_literal_to_kind("let"), TokenKind::Let);
    assert_eq!(match_literal_to_kind("fnx"), TokenKind::Ident);
    assert_eq!(match_literal_to_kind("le"), TokenKind::Ident);
    assert_eq!(match_literal_to_kind("lets"), TokenKind::Ident);
    assert_eq!(match_literal_to_kind(""), TokenKind::Ident);
}

#[test]
fn whitespace_only_input_yields_end_of_input() {
    assert_tokens(" \t\r\n", &[(TokenKind::Eof, "")]);
}
