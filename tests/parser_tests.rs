use monkey::ast::{Expression, ExpressionStatement, Identifier, Node, Statement};
use monkey::lexer::Lexer;
use monkey::parser::{parse, precedence_of, Parser, ParserError, Precedence};
use monkey::token::{Token, TokenType};

fn render(input: &str) -> String {
    let (program, errors) = parse(input);
    assert!(errors.is_empty(), "unexpected errors: {:?}", errors);
    program.as_string()
}

#[test]
fn test_let_statements() {
    let input = "
        let x = 5;
        let y = 10;
        let z = 838383;";

    let lexer = Lexer::new(input);
    let mut parser = Parser::new(lexer);

    let program = parser.parse_program();
    assert!(parser.errors.is_empty());

    assert_eq!(3, program.statements.len());

    let expected = [("x", "5"), ("y", "10"), ("z", "838383")];
    for (stmt, (name_text, value_text)) in program.statements.iter().zip(expected.iter()) {
        assert_eq!(String::from("let"), stmt.token_literal());
        if let Statement::Let(l) = stmt {
            assert_eq!(String::from(*name_text), l.name.token_literal());
            let value = l.value.as_ref().expect("let statement holds its value");
            assert_eq!(String::from(*value_text), value.as_string());
        } else {
            panic!("expected let statement");
        }
    }
}

#[test]
fn test_return_statements() {
    let input = "
        return 5;
        return 10;
        return 987235;";

    let lexer = Lexer::new(input);
    let mut parser = Parser::new(lexer);

    let program = parser.parse_program();
    assert!(parser.errors.is_empty());

    assert_eq!(3, program.statements.len());

    let first_statement = program.statements.first().expect("should contain a statement");
    assert_eq!(String::from("return"), first_statement.token_literal());
    if let Statement::Return(r) = first_statement {
        let value = r.value.as_ref().expect("return statement holds its value");
        assert_eq!(String::from("5"), value.as_string());
    } else {
        panic!("expected return statement");
    }
}

#[test]
fn test_identifier_expression() {
    let input = "foobar;";

    let lexer = Lexer::new(input);
    let mut parser = Parser::new(lexer);

    let program = parser.parse_program();
    assert!(parser.errors.is_empty());

    assert_eq!(1, program.statements.len());

    let stmt = &program.statements[0];
    let ident = Statement::Expression(ExpressionStatement {
        token: Token::new(TokenType::Ident, "foobar".to_string()),
        expression: Expression::Identifier(Identifier::new(
            Token::new(TokenType::Ident, "foobar".to_string()),
            "foobar".to_string(),
        )),
    });
    assert_eq!(*stmt, ident);
    assert_eq!(stmt.token_literal(), "foobar".to_string());
}

#[test]
fn whitespace_only_gives_empty_program() {
    for input in ["", " ", "\t\n\r  \n", "   \r\n\t"] {
        let (program, errors) = parse(input);
        assert!(program.statements.is_empty());
        assert!(errors.is_empty());
        assert_eq!(program.token_literal(), "");
    }
}

#[test]
fn rendering_reparses_to_the_same_tree() {
    let inputs = [
        "let x = 5 * (2 + y);",
        "return -a * !b;",
        "a + b * c - d / e;",
        "a == b != c < d > e;",
        "fn(x, y) { x + y; }(1, 2);",
        "if (a < b) { a } else { b };",
        "let f = fn() { return add(1, 2 * 3, g(4)); };",
        "if x { y };",
        "true; false; !true;",
    ];
    for input in inputs {
        let (first, errors) = parse(input);
        assert!(errors.is_empty(), "{}: {:?}", input, errors);
        let text = first.as_string();
        let (second, errors) = parse(&text);
        assert!(errors.is_empty(), "{}: {:?}", text, errors);
        assert_eq!(second.as_string(), text);
        assert_eq!(first.statements.len(), second.statements.len());
    }
}

#[test]
fn minus_is_left_associative() {
    assert_eq!(render("a - b - c;"), "((a - b) - c);");
}

#[test]
fn product_binds_tighter_than_sum() {
    assert_eq!(render("a + b * c;"), "(a + (b * c));");
    assert_eq!(render("-a * b;"), "((-a) * b);");
}

#[test]
fn precedence_table() {
    assert_eq!(render("a + b + c;"), "((a + b) + c);");
    assert_eq!(render("a * b / c;"), "((a * b) / c);");
    assert_eq!(render("!-a;"), "(!(-a));");
    assert_eq!(render("5 > 4 == 3 < 4;"), "((5 > 4) == (3 < 4));");
    assert_eq!(render("3 + 4 * 5 == 3 * 1 + 4 * 5;"), "((3 + (4 * 5)) == ((3 * 1) + (4 * 5)));");
    assert_eq!(render("a + add(b * c) + d;"), "((a + add((b * c))) + d);");
    assert_eq!(render("-add(1);"), "(-add(1));");
}

#[test]
fn grouping_overrides_precedence() {
    assert_eq!(render("(5 + 5) * 2;"), "((5 + 5) * 2);");
    assert_eq!(render("-(5 + 5);"), "(-(5 + 5));");
}

#[test]
fn let_without_assign_is_one_error() {
    let (program, errors) = parse("let x 5;");
    assert_eq!(errors.iter().filter(|e| **e == ParserError::AssignExpected).count(), 1);
    assert_eq!(errors[0], ParserError::AssignExpected);
    assert!(program.statements.iter().all(|s| !matches!(s, Statement::Let(_))));
}

#[test]
fn let_without_name_is_ident_expected() {
    let (_, errors) = parse("let = 5;");
    assert_eq!(errors[0], ParserError::IdentExpected);
}

#[test]
fn function_literal_parameters_and_body() {
    let (program, errors) = parse("fn(x, y) { x + y; };");
    assert!(errors.is_empty());
    assert_eq!(program.statements.len(), 1);
    match &program.statements[0] {
        Statement::Expression(es) => match &es.expression {
            Expression::FunctionLiteral { parameters, body, .. } => {
                let names: Vec<String> = parameters.iter().map(|p| p.token_literal()).collect();
                assert_eq!(names, vec!["x".to_string(), "y".to_string()]);
                assert_eq!(body.statements.len(), 1);
                assert_eq!(body.statements[0].as_string(), "(x + y);");
            }
            other => panic!("expected a function literal, got {:?}", other),
        },
        other => panic!("expected an expression statement, got {:?}", other),
    }
}

#[test]
fn empty_parameter_list() {
    let (program, errors) = parse("fn() { 1 };");
    assert!(errors.is_empty());
    assert_eq!(program.as_string(), "fn() { 1; };");
}

#[test]
fn call_arguments() {
    let (program, errors) = parse("add(1, 2 * 3, 4 + 5);");
    assert!(errors.is_empty());
    match &program.statements[0] {
        Statement::Expression(es) => match &es.expression {
            Expression::Call { function, arguments, .. } => {
                assert_eq!(function.as_string(), "add");
                assert_eq!(arguments.len(), 3);
                assert_eq!(arguments[0].as_string(), "1");
                assert_eq!(arguments[1].as_string(), "(2 * 3)");
                assert_eq!(arguments[2].as_string(), "(4 + 5)");
            }
            other => panic!("expected a call, got {:?}", other),
        },
        other => panic!("expected an expression statement, got {:?}", other),
    }
    assert_eq!(render("f();"), "f();");
}

#[test]
fn if_without_brace_is_incorrect_if() {
    let (_, errors) = parse("if (x) y;");
    assert!(errors.contains(&ParserError::IncorrectIfStatement));
    let (_, errors) = parse("if (x) { y } else z;");
    assert!(errors.contains(&ParserError::IncorrectIfStatement));
    let (_, errors) = parse("if (x) { y } else");
    assert!(errors.contains(&ParserError::IncorrectIfStatement));
}

#[test]
fn if_else_renders() {
    assert_eq!(render("if (x < y) { x } else { y }"), "if (x < y) { x; } else { y; };");
    assert_eq!(render("if (x < y) { x }"), "if (x < y) { x; };");
}

#[test]
fn unterminated_group_is_reported() {
    let (_, errors) = parse("(1 + 2;");
    assert_eq!(errors[0], ParserError::GroupExpressionParsingFailed);
}

#[test]
fn unrecognized_token_is_reported() {
    let (_, errors) = parse(";");
    assert_eq!(errors, vec![ParserError::TokenUnrecognized]);
    let (_, errors) = parse("@");
    assert_eq!(errors, vec![ParserError::TokenUnrecognized]);
}

#[test]
fn integer_too_large_is_reported() {
    let (_, errors) = parse("9223372036854775808");
    assert_eq!(errors, vec![ParserError::IntegerParsingFailed]);
    // recovery skips one token only, so the `;` is reported as well
    let (_, errors) = parse("9223372036854775808;");
    assert_eq!(
        errors,
        vec![ParserError::IntegerParsingFailed, ParserError::TokenUnrecognized]
    );
    let (program, errors) = parse("9223372036854775807;");
    assert!(errors.is_empty());
    match &program.statements[0] {
        Statement::Expression(es) => match &es.expression {
            Expression::IntegerLiteral { value, .. } => assert_eq!(*value, i64::MAX),
            other => panic!("expected an integer, got {:?}", other),
        },
        other => panic!("expected an expression statement, got {:?}", other),
    }
}

#[test]
fn function_without_paren_is_incorrect_declaration() {
    let (_, errors) = parse("fn x { 1 };");
    assert_eq!(errors[0], ParserError::IncorrectFunctionDeclaration);
    let (_, errors) = parse("fn(x) 1;");
    assert_eq!(errors[0], ParserError::IncorrectFunctionDeclaration);
}

#[test]
fn errors_are_collected_and_parsing_goes_on() {
    let (program, errors) = parse("let x 5; let = 1; a + b;");
    assert_eq!(errors[0], ParserError::AssignExpected);
    assert!(errors.contains(&ParserError::IdentExpected));
    assert_eq!(program.statements.last().unwrap().as_string(), "(a + b);");
}

#[test]
fn booleans_and_statements_without_semicolon() {
    assert_eq!(render("true\nfalse"), "true;false;");
    assert_eq!(render("let b = !true"), "let b = (!true);");
}

#[test]
fn precedence_ranks() {
    assert_eq!(precedence_of(TokenType::Plus), Precedence::Sum);
    assert_eq!(precedence_of(TokenType::LParen), Precedence::Call);
    assert_eq!(precedence_of(TokenType::Semicolon), Precedence::Lowest);
    assert_eq!(Precedence::Lowest.rank(), 0);
    assert_eq!(Precedence::Call.rank(), 6);
}

#[test]
fn statement_accessors() {
    let (program, errors) = parse("let x = 5 + 1; return y;");
    assert!(errors.is_empty());
    match &program.statements[0] {
        Statement::Let(l) => {
            assert_eq!(l.name(), "x");
            assert_eq!(l.value(), Some("+".to_string()));
        }
        other => panic!("expected let statement, got {:?}", other),
    }
    match &program.statements[1] {
        Statement::Return(r) => {
            assert_eq!(r.name(), "");
            assert_eq!(r.value(), Some("y".to_string()));
        }
        other => panic!("expected return statement, got {:?}", other),
    }
    assert_eq!(program.token_literal(), "let");
}
