use monkey::object::Object;
use monkey::parser::parse;
use monkey::ast::{Expression, Statement};

#[test]
fn inspect_scalars() {
    assert_eq!(Object::Integer { value: 42 }.inspect(), "42");
    assert_eq!(Object::Integer { value: 0 }.inspect(), "0");
    assert_eq!(Object::Integer { value: -7 }.inspect(), "-7");
    assert_eq!(Object::Integer { value: i64::MIN }.inspect(), "-9223372036854775808");
    assert_eq!(Object::Boolean { value: true }.inspect(), "true");
    assert_eq!(Object::Boolean { value: false }.inspect(), "false");
    assert_eq!(Object::Null.inspect(), "null");
    assert_eq!(Object::Error { value: "bad".to_string() }.inspect(), "ERROR: bad");
    let inner = Object::Integer { value: 10 };
    assert_eq!(Object::ReturnValue { value: Box::new(inner) }.inspect(), "10");
}

#[test]
fn inspect_function() {
    let (mut program, errors) = parse("fn(x, y) { x + y; }");
    assert!(errors.is_empty());
    let stmt = program.statements.remove(0);
    let (parameters, body) = match stmt {
        Statement::Expression(es) => match es.expression {
            Expression::FunctionLiteral { parameters, body, .. } => (parameters, body),
            other => panic!("expected a function literal, got {:?}", other),
        },
        other => panic!("expected an expression statement, got {:?}", other),
    };
    let f = Object::Function { parameters, body };
    assert_eq!(f.inspect(), "fn(x, y) {\n(x + y);\n}");
    assert_eq!(f.name(), "FUNCTION");
}

#[test]
fn names() {
    assert_eq!(Object::Integer { value: 1 }.name(), "INTEGER");
    assert_eq!(Object::Boolean { value: true }.name(), "BOOLEAN");
    assert_eq!(Object::ReturnValue { value: Box::new(Object::Null) }.name(), "RETURN_VALUE");
    assert_eq!(Object::Error { value: String::new() }.name(), "ERROR");
    assert_eq!(Object::Null.name(), "NULL");
}
