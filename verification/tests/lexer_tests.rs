use monkey_lexer::lexer::Lexer;
use monkey_lexer::token::{lookup_identifier, Token, TokenType};

/// Feeds `input` to a fresh scanner and checks the whole token stream,
/// category and literal both.
fn check(input: &str, expects: &[(TokenType, &str)]) {
    let mut l = Lexer::new(input.to_string());
    for (token_type, literal) in expects {
        let t = l.next_token();
        assert_eq!(t.token_type, *token_type);
        assert_eq!(t.literal, literal.to_string());
    }
}

#[test]
fn test_lexer() {
    let input = "
            let five = 5;
            let ten = 10;

            let add = fn(x, y) {
                x + y;
            };
            let result = add(five, ten);

            !-/*5;
            5 < 10 > 5;

            if (5 < 10) {
                return true;
            } else {
                return false;
            }

            10 == 10;
            10 != 9;
        "
    .to_string();
    let mut l = Lexer::new(input);
    let expects = vec![
        (TokenType::LET, "let".to_string()),
        (TokenType::IDENT, "five".to_string()),
        (TokenType::ASSIGN, "=".to_string()),
        (TokenType::INT, "5".to_string()),
        (TokenType::SEMICOLON, ";".to_string()),
        (TokenType::LET, "let".to_string()),
        (TokenType::IDENT, "ten".to_string()),
        (TokenType::ASSIGN, "=".to_string()),
        (TokenType::INT, "10".to_string()),
        (TokenType::SEMICOLON, ";".to_string()),
        (TokenType::LET, "let".to_string()),
        (TokenType::IDENT, "add".to_string()),
        (TokenType::ASSIGN, "=".to_string()),
        (TokenType::FUNCTION, "fn".to_string()),
        (TokenType::LPAREN, "(".to_string()),
        (TokenType::IDENT, "x".to_string()),
        (TokenType::COMMA, ",".to_string()),
        (TokenType::IDENT, "y".to_string()),
        (TokenType::RPAREN, ")".to_string()),
        (TokenType::LBRACE, "{".to_string()),
        (TokenType::IDENT, "x".to_string()),
        (TokenType::PLUS, "+".to_string()),
        (TokenType::IDENT, "y".to_string()),
        (TokenType::SEMICOLON, ";".to_string()),
        (TokenType::RBRACE, "}".to_string()),
        (TokenType::SEMICOLON, ";".to_string()),
        (TokenType::LET, "let".to_string()),
        (TokenType::IDENT, "result".to_string()),
        (TokenType::ASSIGN, "=".to_string()),
        (TokenType::IDENT, "add".to_string()),
        (TokenType::LPAREN, "(".to_string()),
        (TokenType::IDENT, "five".to_string()),
        (TokenType::COMMA, ",".to_string()),
        (TokenType::IDENT, "ten".to_string()),
        (TokenType::RPAREN, ")".to_string()),
        (TokenType::SEMICOLON, ";".to_string()),
        (TokenType::BANG, "!".to_string()),
        (TokenType::MINUS, "-".to_string()),
        (TokenType::SLASH, "/".to_string()),
        (TokenType::ASTERISK, "*".to_string()),
        (TokenType::INT, "5".to_string()),
        (TokenType::SEMICOLON, ";".to_string()),
        (TokenType::INT, "5".to_string()),
        (TokenType::LT, "<".to_string()),
        (TokenType::INT, "10".to_string()),
        (TokenType::GT, ">".to_string()),
        (TokenType::INT, "5".to_string()),
        (TokenType::SEMICOLON, ";".to_string()),
        (TokenType::IF, "if".to_string()),
        (TokenType::LPAREN, "(".to_string()),
        (TokenType::INT, "5".to_string()),
        (TokenType::LT, "<".to_string()),
        (TokenType::INT, "10".to_string()),
        (TokenType::RPAREN, ")".to_string()),
        (TokenType::LBRACE, "{".to_string()),
        (TokenType::RETURN, "return".to_string()),
        (TokenType::TRUE, "true".to_string()),
        (TokenType::SEMICOLON, ";".to_string()),
        (TokenType::RBRACE, "}".to_string()),
        (TokenType::ELSE, "else".to_string()),
        (TokenType::LBRACE, "{".to_string()),
        (TokenType::RETURN, "return".to_string()),
        (TokenType::FALSE, "false".to_string()),
        (TokenType::SEMICOLON, ";".to_string()),
        (TokenType::RBRACE, "}".to_string()),
        (TokenType::INT, "10".to_string()),
        (TokenType::EQ, "==".to_string()),
        (TokenType::INT, "10".to_string()),
        (TokenType::SEMICOLON, ";".to_string()),
        (TokenType::INT, "10".to_string()),
        (TokenType::NOT_EQ, "!=".to_string()),
        (TokenType::INT, "9".to_string()),
        (TokenType::SEMICOLON, ";".to_string()),
        (TokenType::EOF, "".to_string()),
    ];

    for (token_type, literal) in expects {
        let t = l.next_token();
        assert_eq!(t.token_type, token_type);
        assert_eq!(t.literal, literal);
    }
}

#[test]
fn test_symbol_sequence() {
    check(
        "=+(){},;",
        &[
            (TokenType::ASSIGN, "="),
            (TokenType::PLUS, "+"),
            (TokenType::LPAREN, "("),
            (TokenType::RPAREN, ")"),
            (TokenType::LBRACE, "{"),
            (TokenType::RBRACE, "}"),
            (TokenType::COMMA, ","),
            (TokenType::SEMICOLON, ";"),
            (TokenType::EOF, ""),
        ],
    );
}

#[test]
fn test_two_char_operators() {
    check(
        "10 == 10;",
        &[
            (TokenType::INT, "10"),
            (TokenType::EQ, "=="),
            (TokenType::INT, "10"),
            (TokenType::SEMICOLON, ";"),
            (TokenType::EOF, ""),
        ],
    );
    check(
        "10 != 9;",
        &[
            (TokenType::INT, "10"),
            (TokenType::NOT_EQ, "!="),
            (TokenType::INT, "9"),
            (TokenType::SEMICOLON, ";"),
            (TokenType::EOF, ""),
        ],
    );
    check(
        "=5",
        &[(TokenType::ASSIGN, "="), (TokenType::INT, "5"), (TokenType::EOF, "")],
    );
    check(
        "!x",
        &[(TokenType::BANG, "!"), (TokenType::IDENT, "x"), (TokenType::EOF, "")],
    );
    check("=", &[(TokenType::ASSIGN, "="), (TokenType::EOF, "")]);
    check("!", &[(TokenType::BANG, "!"), (TokenType::EOF, "")]);
    check("==", &[(TokenType::EQ, "=="), (TokenType::EOF, "")]);
    check("!=", &[(TokenType::NOT_EQ, "!="), (TokenType::EOF, "")]);
}

#[test]
fn test_keyword_lookup() {
    assert_eq!(lookup_identifier("let"), TokenType::LET);
    assert_eq!(lookup_identifier("fn"), TokenType::FUNCTION);
    assert_eq!(lookup_identifier("true"), TokenType::TRUE);
    assert_eq!(lookup_identifier("false"), TokenType::FALSE);
    assert_eq!(lookup_identifier("if"), TokenType::IF);
    assert_eq!(lookup_identifier("else"), TokenType::ELSE);
    assert_eq!(lookup_identifier("return"), TokenType::RETURN);
    assert_eq!(lookup_identifier("five"), TokenType::IDENT);
    assert_eq!(lookup_identifier("result"), TokenType::IDENT);
    assert_eq!(lookup_identifier("x"), TokenType::IDENT);
    assert_eq!(lookup_identifier("lets"), TokenType::IDENT);
    assert_eq!(lookup_identifier("Let"), TokenType::IDENT);
    assert_eq!(lookup_identifier(""), TokenType::IDENT);
}

#[test]
fn test_keyword_discrimination_in_stream() {
    check(
        "let fn true false if else return five result x",
        &[
            (TokenType::LET, "let"),
            (TokenType::FUNCTION, "fn"),
            (TokenType::TRUE, "true"),
            (TokenType::FALSE, "false"),
            (TokenType::IF, "if"),
            (TokenType::ELSE, "else"),
            (TokenType::RETURN, "return"),
            (TokenType::IDENT, "five"),
            (TokenType::IDENT, "result"),
            (TokenType::IDENT, "x"),
            (TokenType::EOF, ""),
        ],
    );
}

#[test]
fn test_digit_runs() {
    check("5", &[(TokenType::INT, "5"), (TokenType::EOF, "")]);
    check("10", &[(TokenType::INT, "10"), (TokenType::EOF, "")]);
    check("123", &[(TokenType::INT, "123"), (TokenType::EOF, "")]);
    // A digit run is never split and never merged with adjacent letters.
    check(
        "123abc",
        &[(TokenType::INT, "123"), (TokenType::IDENT, "abc"), (TokenType::EOF, "")],
    );
    check(
        "abc123",
        &[(TokenType::IDENT, "abc"), (TokenType::INT, "123"), (TokenType::EOF, "")],
    );
}

#[test]
fn test_idempotent_tail() {
    let mut l = Lexer::new("x".to_string());
    let t = l.next_token();
    assert_eq!(t.token_type, TokenType::IDENT);
    for _ in 0..5 {
        let t = l.next_token();
        assert_eq!(t.token_type, TokenType::EOF);
        assert_eq!(t.literal, "".to_string());
    }
}

#[test]
fn test_idempotent_tail_empty_input() {
    let mut l = Lexer::new(String::new());
    for _ in 0..3 {
        let t = l.next_token();
        assert_eq!(t.token_type, TokenType::EOF);
        assert_eq!(t.literal, "".to_string());
    }
}

#[test]
fn test_whitespace_never_tokenized() {
    check(
        " \t\r\n x \t y \n ",
        &[(TokenType::IDENT, "x"), (TokenType::IDENT, "y"), (TokenType::EOF, "")],
    );
    check("   \t\n\r   ", &[(TokenType::EOF, "")]);
}

#[test]
fn test_illegal_byte_recovery() {
    check(
        "let@5;",
        &[
            (TokenType::LET, "let"),
            (TokenType::ILLEGAL, "@"),
            (TokenType::INT, "5"),
            (TokenType::SEMICOLON, ";"),
            (TokenType::EOF, ""),
        ],
    );
    check(
        "a # b",
        &[
            (TokenType::IDENT, "a"),
            (TokenType::ILLEGAL, "#"),
            (TokenType::IDENT, "b"),
            (TokenType::EOF, ""),
        ],
    );
    check("@", &[(TokenType::ILLEGAL, "@"), (TokenType::EOF, "")]);
}

#[test]
fn test_end_to_end_let_statement() {
    check(
        "let five = 5;",
        &[
            (TokenType::LET, "let"),
            (TokenType::IDENT, "five"),
            (TokenType::ASSIGN, "="),
            (TokenType::INT, "5"),
            (TokenType::SEMICOLON, ";"),
            (TokenType::EOF, ""),
        ],
    );
}

#[test]
fn test_token_new() {
    let t = Token::new(TokenType::ASSIGN, "=".to_string());
    assert_eq!(t.token_type, TokenType::ASSIGN);
    assert_eq!(t.literal, "=".to_string());
}

#[test]
fn test_token_equality_is_structural() {
    let a = Token::new(TokenType::IDENT, "five".to_string());
    let b = Token::new(TokenType::IDENT, "five".to_string());
    let c = Token::new(TokenType::IDENT, "ten".to_string());
    let d = Token::new(TokenType::LET, "five".to_string());
    assert!(a == b);
    assert!(a != c);
    assert!(a != d);
}
