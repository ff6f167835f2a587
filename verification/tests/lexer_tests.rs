use mn_lang::lexer::Lexer;
use mn_lang::token::{Token, TokenKind};

fn compare(expected: Vec<Token>, input: &str) {
    let mut lexer = Lexer::new(input);
    let mut count: usize = 0;
    let count_exp = expected.len();
    for (idx, exp_token) in expected.into_iter().enumerate() {
        count += 1;
        let recv_token = lexer.next_token();
        assert_eq!(
            exp_token.kind, recv_token.kind,
            "Wrong kind given at idx {} for kind expected {:?} and actual {:?}",
            idx, exp_token.kind, recv_token.kind
        );
        assert_eq!(
            exp_token.literal, recv_token.literal,
            "Wrong literal given at idx {} for literal expected {:?} and actual {:?}",
            idx, exp_token.literal, recv_token.literal
        );
    }
    assert_eq!(count_exp, count, "Count of tokens not equal");
}

fn tok(kind: TokenKind, literal: &str) -> Token {
    Token {
        kind,
        literal: literal.to_string(),
    }
}

fn get_ident(ident: &str, val: &str) -> Vec<Token> {
    vec![
        tok(TokenKind::Let, "let"),
        tok(TokenKind::Ident, val),
        tok(TokenKind::Assign, "="),
        tok(TokenKind::Int, ident),
        tok(TokenKind::Semicolon, ";"),
    ]
}

#[test]
fn test_next_token() {
    let input = "=+(){},;";

    let expected: Vec<Token> = vec![
        tok(TokenKind::Assign, "="),
        tok(TokenKind::Plus, "+"),
        tok(TokenKind::Lparen, "("),
        tok(TokenKind::Rparen, ")"),
        tok(TokenKind::Lbrace, "{"),
        tok(TokenKind::Rbrace, "}"),
        tok(TokenKind::Comma, ","),
        tok(TokenKind::Semicolon, ";"),
        tok(TokenKind::Eof, "\0"),
    ];
    compare(expected, input);
}

#[test]
fn test_mn_lang() {
    let input = r#"
      let five = 5;
      let ten = 10;
      
      let add = fn (x , y) {
        x + y;
      }

      let result = add(five, ten);
      "#;

    let mut five_ident = get_ident("5", "five");
    let mut ten_ident = get_ident("10", "ten");
    five_ident.append(&mut ten_ident);
    let mut expected = vec![
        tok(TokenKind::Let, "let"),
        tok(TokenKind::Ident, "add"),
        tok(TokenKind::Assign, "="),
        tok(TokenKind::Function, "fn"),
        tok(TokenKind::Lparen, "("),
        tok(TokenKind::Ident, "x"),
        tok(TokenKind::Comma, ","),
        tok(TokenKind::Ident, "y"),
        tok(TokenKind::Rparen, ")"),
        tok(TokenKind::Lbrace, "{"),
        tok(TokenKind::Ident, "x"),
        tok(TokenKind::Plus, "+"),
        tok(TokenKind::Ident, "y"),
        tok(TokenKind::Semicolon, ";"),
        tok(TokenKind::Rbrace, "}"),
        tok(TokenKind::Let, "let"),
        tok(TokenKind::Ident, "result"),
        tok(TokenKind::Assign, "="),
        tok(TokenKind::Ident, "add"),
        tok(TokenKind::Lparen, "("),
        tok(TokenKind::Ident, "five"),
        tok(TokenKind::Comma, ","),
        tok(TokenKind::Ident, "ten"),
        tok(TokenKind::Rparen, ")"),
        tok(TokenKind::Semicolon, ";"),
    ];
    five_ident.append(&mut expected);
    compare(five_ident, input);
}

#[test]
fn two_char_operators() {
    compare(
        vec![tok(TokenKind::Eq, "=="), tok(TokenKind::Eof, "\0")],
        "==",
    );
    compare(
        vec![tok(TokenKind::NotEq, "!="), tok(TokenKind::Eof, "\0")],
        "!=",
    );
    compare(
        vec![
            tok(TokenKind::Assign, "="),
            tok(TokenKind::Bang, "!"),
            tok(TokenKind::Eof, "\0"),
        ],
        "= !",
    );
}

#[test]
fn eof_is_terminal_and_idempotent() {
    let mut lexer = Lexer::new("x");
    assert_eq!(lexer.next_token(), tok(TokenKind::Ident, "x"));
    assert_eq!(lexer.next_token(), tok(TokenKind::Eof, "\0"));
    assert_eq!(lexer.next_token(), tok(TokenKind::Eof, "\0"));
    assert_eq!(lexer.next_token(), tok(TokenKind::Eof, "\0"));
}

#[test]
fn every_character_maps_to_a_kind() {
    compare(
        vec![
            tok(TokenKind::Illegal, "@"),
            tok(TokenKind::Illegal, "#"),
            tok(TokenKind::Lt, "<"),
            tok(TokenKind::Gt, ">"),
            tok(TokenKind::Minus, "-"),
            tok(TokenKind::Slash, "/"),
            tok(TokenKind::Asterisk, "*"),
            tok(TokenKind::Eof, "\0"),
        ],
        "@# < > - / *",
    );
}

#[test]
fn maximal_munch_runs() {
    compare(
        vec![
            tok(TokenKind::Int, "123"),
            tok(TokenKind::Int, "45"),
            tok(TokenKind::Ident, "foo_bar"),
            tok(TokenKind::Ident, "xyz"),
            tok(TokenKind::Eof, "\0"),
        ],
        "123 45 foo_bar\txyz",
    );
}

#[test]
fn keywords_classify() {
    assert_eq!(TokenKind::lookup_ident("fn"), TokenKind::Function);
    assert_eq!(TokenKind::lookup_ident("let"), TokenKind::Let);
    assert_eq!(TokenKind::lookup_ident("if"), TokenKind::If);
    assert_eq!(TokenKind::lookup_ident("else"), TokenKind::Else);
    assert_eq!(TokenKind::lookup_ident("return"), TokenKind::Return);
    assert_eq!(TokenKind::lookup_ident("true"), TokenKind::True);
    assert_eq!(TokenKind::lookup_ident("false"), TokenKind::False);
    assert_eq!(TokenKind::lookup_ident("truthy"), TokenKind::Ident);
    assert_eq!(TokenKind::lookup_ident("letter"), TokenKind::Ident);
}

#[test]
fn kind_tables() {
    assert_eq!(TokenKind::to_tok("=", "="), TokenKind::Eq);
    assert_eq!(TokenKind::to_tok("=", "5"), TokenKind::Assign);
    assert_eq!(TokenKind::to_tok("!", "="), TokenKind::NotEq);
    assert_eq!(TokenKind::to_tok("!", "x"), TokenKind::Bang);
    assert_eq!(TokenKind::to_tok("+", ""), TokenKind::Plus);
    assert_eq!(TokenKind::to_tok("\0", ""), TokenKind::Eof);
    assert_eq!(TokenKind::to_tok("?", ""), TokenKind::Illegal);
    assert_eq!(TokenKind::Eq.to_literal('='), "==".to_string());
    assert_eq!(TokenKind::NotEq.to_literal('!'), "!=".to_string());
    assert_eq!(TokenKind::Plus.to_literal('+'), "+".to_string());
}
