use mn_lang::ast::{ExpressionNode, Node, Program, StatementNode};
use mn_lang::lexer::Lexer;
use mn_lang::parser::{ParseError, Parser};
use mn_lang::token::TokenKind;

fn parse(input: &str) -> Program {
    let lexer = Lexer::new(input);
    let mut parser = Parser::new(lexer);
    match parser.parse_program() {
        Some(prog) => prog,
        None => panic!(
            "expected a program for {:?} but got errors {:?}",
            input,
            parser.errors()
        ),
    }
}

fn parse_errors(input: &str) -> Vec<ParseError> {
    let lexer = Lexer::new(input);
    let mut parser = Parser::new(lexer);
    let program = parser.parse_program();
    assert!(
        program.is_none(),
        "expected errors for {:?} but the parse succeeded",
        input
    );
    parser.errors().clone()
}

fn first_expression(prog: &Program) -> &ExpressionNode {
    match &prog.statements[0] {
        StatementNode::Expression(es) => &es.expression,
        other => panic!("expected an expression statement, got {:?}", other),
    }
}

fn test_let_statement(stmt: &StatementNode, expected: &str) {
    assert_eq!(stmt.token_literal(), "let", "Token literal not let");
    match stmt {
        StatementNode::Let(let_stmt) => {
            assert_eq!(let_stmt.name.value, expected, "Name not {}", expected);
        }
        _ => panic!("Statement is not let statement"),
    }
}

#[test]
fn test_let_statements() {
    let input = r#"
    let x = 5;
    let y = 10;
    let foobar = 939393;
    "#;
    let lexer = Lexer::new(input);
    let mut parser = Parser::new(lexer);
    let program = parser.parse_program();
    match program {
        Some(prog) => {
            assert_eq!(prog.statements.len(), 3);

            let expected = vec!["x", "y", "foobar"];

            for (idx, exp) in expected.into_iter().enumerate() {
                let stmt = &prog.statements[idx];
                test_let_statement(stmt, exp);
            }
        }
        None => panic!("Expected a program but got None"),
    }
}

#[test]
fn let_statement_renders_canonically() {
    let prog = parse("let five = 5;");
    assert_eq!(prog.statements.len(), 1);
    match &prog.statements[0] {
        StatementNode::Let(ls) => {
            assert_eq!(ls.name.value, "five");
            match &ls.value {
                ExpressionNode::IntegerLiteralNode(il) => assert_eq!(il.value, 5),
                other => panic!("expected an integer literal, got {:?}", other),
            }
        }
        other => panic!("expected a let statement, got {:?}", other),
    }
    assert_eq!(prog.print_string(), "let five = 5;".to_string());
}

#[test]
fn product_binds_tighter_than_sum() {
    let prog = parse("1 + 2 * 3");
    assert_eq!(prog.print_string(), "(1 + (2 * 3))".to_string());
}

#[test]
fn operator_precedence_rendering() {
    let cases = vec![
        ("-a * b", "((-a) * b)"),
        ("!-a", "(!(-a))"),
        ("a + b + c", "((a + b) + c)"),
        ("a + b - c", "((a + b) - c)"),
        ("a * b * c", "((a * b) * c)"),
        ("a + b / c", "(a + (b / c))"),
        ("3 + 4; -5 * 5", "(3 + 4)((-5) * 5)"),
        ("5 < 4 != 3 > 4", "((5 < 4) != (3 > 4))"),
        ("3 + 4 * 5 == 3 * 1 + 4 * 5", "((3 + (4 * 5)) == ((3 * 1) + (4 * 5)))"),
        ("true", "true"),
        ("false", "false"),
        ("3 > 5 == false", "((3 > 5) == false)"),
        ("1 + (2 + 3) + 4", "((1 + (2 + 3)) + 4)"),
        ("(5 + 5) * 2", "((5 + 5) * 2)"),
        ("2 / (5 + 5)", "(2 / (5 + 5))"),
        ("-(5 + 5)", "(-(5 + 5))"),
        ("!(true == true)", "(!(true == true))"),
        ("a + add(b * c) + d", "((a + add((b * c))) + d)"),
        (
            "add(a, b, 1, 2 * 3, 4 + 5, add(6, 7 * 8))",
            "add(a, b, 1, (2 * 3), (4 + 5), add(6, (7 * 8)))",
        ),
        ("add(a + b + c * d / f + g)", "add((((a + b) + ((c * d) / f)) + g))"),
    ];
    for (input, expected) in cases {
        let prog = parse(input);
        assert_eq!(prog.print_string(), expected.to_string(), "for input {:?}", input);
    }
}

#[test]
fn if_else_expression() {
    let prog = parse("if (x < y) { x } else { y }");
    assert_eq!(prog.statements.len(), 1);
    let expr = first_expression(&prog);
    match expr {
        ExpressionNode::IfNode(f) => {
            assert_eq!(f.condition.print_string(), "(x < y)".to_string());
            assert_eq!(f.consequence.statements.len(), 1);
            match &f.consequence.statements[0] {
                StatementNode::Expression(es) => {
                    assert_eq!(es.expression.print_string(), "x".to_string());
                }
                other => panic!("expected an expression statement, got {:?}", other),
            }
            let alt = f.alternative.as_ref().expect("expected an else block");
            assert_eq!(alt.statements.len(), 1);
            match &alt.statements[0] {
                StatementNode::Expression(es) => {
                    assert_eq!(es.expression.print_string(), "y".to_string());
                }
                other => panic!("expected an expression statement, got {:?}", other),
            }
        }
        other => panic!("expected an if expression, got {:?}", other),
    }
}

#[test]
fn missing_identifier_recovers_with_one_error() {
    let errors = parse_errors("let = 5;");
    assert_eq!(errors.len(), 1);
    assert_eq!(
        errors[0],
        ParseError::Expected {
            position: 1,
            expected: TokenKind::Ident,
            found: TokenKind::Assign,
        }
    );
    assert_eq!(errors[0].message(), "expected Ident, found Assign".to_string());

    // Parsing resumes at the statement boundary: the following statement
    // raises no further error.
    let errors = parse_errors("let = 5; let y = 10;");
    assert_eq!(errors.len(), 1);
    assert_eq!(errors[0].message(), "expected Ident, found Assign".to_string());
}

#[test]
fn each_failed_statement_reports_once() {
    let errors = parse_errors("let = 1; let 2 = 3;");
    assert_eq!(errors.len(), 2);
    assert_eq!(errors[0].message(), "expected Ident, found Assign".to_string());
    assert_eq!(errors[1].message(), "expected Ident, found Int".to_string());
}

#[test]
fn return_statement() {
    let prog = parse("return 5;");
    assert_eq!(prog.statements.len(), 1);
    match &prog.statements[0] {
        StatementNode::Return(rs) => {
            assert_eq!(rs.token.literal, "return");
            match &rs.value {
                ExpressionNode::IntegerLiteralNode(il) => assert_eq!(il.value, 5),
                other => panic!("expected an integer literal, got {:?}", other),
            }
        }
        other => panic!("expected a return statement, got {:?}", other),
    }
    assert_eq!(prog.print_string(), "return 5;".to_string());
}

#[test]
fn function_literal_and_call() {
    let prog = parse("fn(x, y) { x + y; }");
    let expr = first_expression(&prog);
    match expr {
        ExpressionNode::FunctionNode(fl) => {
            assert_eq!(fl.parameters.len(), 2);
            assert_eq!(fl.parameters[0].value, "x");
            assert_eq!(fl.parameters[1].value, "y");
            assert_eq!(fl.body.statements.len(), 1);
        }
        other => panic!("expected a function literal, got {:?}", other),
    }
    assert_eq!(prog.print_string(), "fn(x, y) { (x + y) }".to_string());

    let prog = parse("add(1, 2 * 3, 4 + 5);");
    let expr = first_expression(&prog);
    match expr {
        ExpressionNode::CallNode(c) => {
            assert_eq!(c.function.print_string(), "add".to_string());
            assert_eq!(c.arguments.len(), 3);
            assert_eq!(c.arguments[1].print_string(), "(2 * 3)".to_string());
        }
        other => panic!("expected a call expression, got {:?}", other),
    }

    let prog = parse("fn() { 1 } ");
    assert_eq!(prog.print_string(), "fn() { 1 }".to_string());
}

#[test]
fn boolean_literals() {
    let prog = parse("true; false;");
    assert_eq!(prog.statements.len(), 2);
    match first_expression(&prog) {
        ExpressionNode::BooleanNode(b) => assert!(b.value),
        other => panic!("expected a boolean literal, got {:?}", other),
    }
}

#[test]
fn integer_bounds() {
    let prog = parse("18446744073709551615");
    match first_expression(&prog) {
        ExpressionNode::IntegerLiteralNode(il) => {
            assert_eq!(il.value, u64::MAX);
            assert_eq!(il.token.literal, "18446744073709551615");
        }
        other => panic!("expected an integer literal, got {:?}", other),
    }

    let errors = parse_errors("18446744073709551616");
    assert_eq!(errors.len(), 1);
    assert_eq!(errors[0], ParseError::InvalidInteger { position: 0 });
    assert_eq!(errors[0].message(), "invalid integer literal".to_string());
}

#[test]
fn token_without_prefix_rule() {
    let errors = parse_errors("+ 5;");
    assert_eq!(errors.len(), 1);
    assert_eq!(
        errors[0],
        ParseError::NoPrefixRule {
            position: 0,
            found: TokenKind::Plus,
        }
    );
    assert_eq!(errors[0].message(), "no prefix parse rule for Plus".to_string());
}

#[test]
fn unterminated_constructs() {
    let errors = parse_errors("(1 + 2");
    assert_eq!(errors[0].message(), "expected Rparen, found Eof".to_string());

    let errors = parse_errors("if (x) { y");
    assert_eq!(errors[0].message(), "expected Rbrace, found Eof".to_string());
}

#[test]
fn program_token_literal() {
    let prog = parse("let x = 1;");
    assert_eq!(prog.token_literal(), "let".to_string());
    let empty = parse("");
    assert_eq!(empty.statements.len(), 0);
    assert_eq!(empty.token_literal(), "".to_string());
    assert_eq!(empty.print_string(), "".to_string());
}

#[test]
fn reparsing_the_render_is_stable() {
    // Re-lexing and re-parsing a canonical render reproduces the expression.
    let cases = vec![
        "1 + 2 * 3",
        "!true",
        "-15",
        "add(1, 2 * 3, 4 + 5)",
        "a * (b + c) / d",
    ];
    for input in cases {
        let first = parse(input);
        let rendered = first.print_string();
        let second = parse(&rendered);
        assert_eq!(
            first_expression(&first),
            first_expression(&second),
            "round trip changed the AST for {:?}",
            input
        );
        assert_eq!(second.print_string(), rendered, "render is not stable for {:?}", input);
    }

    // Statement and block forms keep a stable render through the round trip.
    let cases = vec![
        "let x = 1 + 2;",
        "return 2 * 2;",
        "if (x < y) { x } else { y }",
        "fn(a, b) { a + b; }",
    ];
    for input in cases {
        let first = parse(input);
        let rendered = first.print_string();
        let second = parse(&rendered);
        assert_eq!(second.print_string(), rendered, "render is not stable for {:?}", input);
    }
}
