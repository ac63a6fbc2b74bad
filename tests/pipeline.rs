use minilang::ast::Expression;
use minilang::ast::Operator;
use minilang::ast::Statement;
use minilang::check;
use minilang::compile;
use minilang::error::ErrorType;
use minilang::interpreter::Flow;
use minilang::interpreter::Interpreter;
use minilang::parse;
use minilang::position::Position;
use minilang::resolver::TypeResolver;
use minilang::token::TokenType;
use minilang::types::Type;
use minilang::value::Value;

fn run(source: &str) -> Interpreter {
    let (interpreter, result) = compile(source.to_string());
    result.unwrap();
    interpreter
}

fn run_error(source: &str) -> minilang::error::Error {
    compile(source.to_string()).1.unwrap_err()
}

fn variable(interpreter: &Interpreter, name: &str) -> Option<Value> {
    interpreter.variables().get(&name.to_string()).cloned()
}

#[test]
fn let_addition_resolves_and_evaluates_to_three() {
    let statements = check("let x = 1 + 2".to_string()).unwrap();
    match &statements[0] {
        Statement::Let { ty, .. } => assert_eq!(*ty, Type::Integer),
        other => panic!("unexpected statement {:?}", other),
    }
    let interpreter = run("let x = 1 + 2");
    assert_eq!(variable(&interpreter, "x"), Some(Value::Integer(3)));
}

#[test]
fn declared_string_given_integer_is_type_mismatch() {
    let error = check("let x: String = 1".to_string()).unwrap_err();
    match error.error_type {
        ErrorType::TypeMismatch(declared, inferred) => {
            assert_eq!(declared, Type::String);
            assert_eq!(inferred, Type::Integer);
        },
        other => panic!("unexpected error {:?}", other),
    }
}

#[test]
fn redeclaration_fails_only_when_run() {
    let source = "let x = 5 \n let x = 6";
    assert!(check(source.to_string()).is_ok());
    let error = run_error(source);
    match error.error_type {
        ErrorType::VariableAlreadyDeclared(name) => assert_eq!(name, "x"),
        other => panic!("unexpected error {:?}", other),
    }
    assert_eq!(error.position, Position::new(6, 1));
}

#[test]
fn print_accepts_any_and_writes_its_argument() {
    let statements = check("print(5)".to_string()).unwrap();
    let expression = match &statements[0] {
        Statement::Expression(e) => e,
        other => panic!("unexpected statement {:?}", other),
    };
    assert_eq!(expression.ty(), Type::Void);
    let mut interpreter = Interpreter::new();
    let value = interpreter.visit_expression(expression).unwrap();
    assert_eq!(value, Value::Void);
    assert_eq!(interpreter.output(), &vec!["5".to_string()]);

    let interpreter = run("print(5)");
    assert_eq!(interpreter.output(), &vec!["5".to_string()]);
}

#[test]
fn multiplying_strings_concatenates() {
    assert!(check("let x = \"a\" * \"b\"".to_string()).is_ok());
    let interpreter = run("let x = \"a\" * \"b\"");
    assert_eq!(variable(&interpreter, "x"), Some(Value::String("ab".to_string())));
}

#[test]
fn unknown_variable_fails_in_resolver() {
    let error = check("return y".to_string()).unwrap_err();
    match error.error_type {
        ErrorType::UnknownVariable(name) => assert_eq!(name, "y"),
        other => panic!("unexpected error {:?}", other),
    }
    let error = run_error("return y");
    assert!(matches!(error.error_type, ErrorType::UnknownVariable(_)));
}

#[test]
fn return_halts_the_run_without_error() {
    let source = "let a = 1\nreturn a\nlet a = 2\nprint(a)";
    let interpreter = run(source);
    assert_eq!(variable(&interpreter, "a"), Some(Value::Integer(1)));
    assert!(interpreter.output().is_empty());

    let statements = check(source.to_string()).unwrap();
    let mut interpreter = Interpreter::new();
    match interpreter.visit_statements(statements).unwrap() {
        Flow::Returned(Some(value)) => assert_eq!(value, Value::Integer(1)),
        other => panic!("unexpected flow {:?}", other),
    }
}

#[test]
fn operators_group_to_the_right() {
    let statements = parse("1 - 2 - 3".to_string()).unwrap();
    match &statements[0] {
        Statement::Expression(Expression::BinaryOperation { left, operator, right, .. }) => {
            assert!(matches!(**left, Expression::IntegerLiteral(1)));
            assert_eq!(*operator, Operator::Subtract);
            assert!(matches!(
                **right,
                Expression::BinaryOperation { operator: Operator::Subtract, .. }
            ));
        },
        other => panic!("unexpected statement {:?}", other),
    }
    let interpreter = run("let x = 10 - 4 - 3");
    assert_eq!(variable(&interpreter, "x"), Some(Value::Integer(9)));
}

#[test]
fn integer_arithmetic() {
    let interpreter =
        run("let a = 6 * 7\nlet b = 7 / 2\nlet c = 5 - 8\nlet d = 2 + 3 * 4");
    assert_eq!(variable(&interpreter, "a"), Some(Value::Integer(42)));
    assert_eq!(variable(&interpreter, "b"), Some(Value::Integer(3)));
    assert_eq!(variable(&interpreter, "c"), Some(Value::Integer(-3)));
    assert_eq!(variable(&interpreter, "d"), Some(Value::Integer(14)));
}

#[test]
fn print_writes_negative_numbers_and_strings() {
    let interpreter = run("print(5 - 8)\nprint(\"hi\")\nprint(print(1))");
    assert_eq!(
        interpreter.output(),
        &vec![
            "-3".to_string(),
            "hi".to_string(),
            "1".to_string(),
            "void".to_string()
        ]
    );
}

#[test]
fn declared_integer_and_variable_reference() {
    let interpreter = run("let a: Integer = 4\nlet b = a * a");
    assert_eq!(variable(&interpreter, "b"), Some(Value::Integer(16)));
}

#[test]
fn division_by_zero_is_invalid_operation() {
    let error = run_error("let x = 1 / 0");
    match error.error_type {
        ErrorType::InvalidBinaryOperation(left, operator, right) => {
            assert_eq!(left, Value::Integer(1));
            assert_eq!(operator, Operator::Divide);
            assert_eq!(right, Value::Integer(0));
        },
        other => panic!("unexpected error {:?}", other),
    }
}

#[test]
fn overflow_is_invalid_operation() {
    let error = run_error("let x = 2147483647 + 1");
    assert!(matches!(error.error_type, ErrorType::InvalidBinaryOperation(..)));
}

#[test]
fn operands_of_different_types_mismatch() {
    let error = check("let x = 1 + \"a\"".to_string()).unwrap_err();
    match error.error_type {
        ErrorType::TypeMismatch(left, right) => {
            assert_eq!(left, Type::Integer);
            assert_eq!(right, Type::String);
        },
        other => panic!("unexpected error {:?}", other),
    }
}

#[test]
fn unknown_type_name_is_refused() {
    let error = check("let x: Foo = 1".to_string()).unwrap_err();
    match error.error_type {
        ErrorType::UnableToResolveType(name) => assert_eq!(name, "Foo"),
        other => panic!("unexpected error {:?}", other),
    }
}

#[test]
fn unknown_function_is_refused() {
    let error = check("foo(1)".to_string()).unwrap_err();
    match error.error_type {
        ErrorType::UnknownFunction(name) => assert_eq!(name, "foo"),
        other => panic!("unexpected error {:?}", other),
    }
}

#[test]
fn wrong_number_of_arguments() {
    let error = check("print(1, 2)".to_string()).unwrap_err();
    assert!(matches!(error.error_type, ErrorType::InvalidNumberOfArguments(1, 2)));
    let error = check("print()".to_string()).unwrap_err();
    assert!(matches!(error.error_type, ErrorType::InvalidNumberOfArguments(1, 0)));
}

#[test]
fn let_without_identifier() {
    let error = parse("let = 5".to_string()).unwrap_err();
    assert!(matches!(error.error_type, ErrorType::ExpectedAnyIdentifier));
    assert_eq!(error.position, Position::new(5, 0));
}

#[test]
fn let_at_end_of_input() {
    let error = parse("let x".to_string()).unwrap_err();
    assert!(matches!(error.error_type, ErrorType::UnexpectedEOF));
    assert_eq!(error.position, Position::new(5, 0));
}

#[test]
fn let_type_without_equals() {
    let error = parse("let x: Integer 5".to_string()).unwrap_err();
    assert!(matches!(error.error_type, ErrorType::ExpectedToken(TokenType::Equals)));
}

#[test]
fn let_with_unexpected_token() {
    let error = parse("let x 5".to_string()).unwrap_err();
    assert!(matches!(error.error_type, ErrorType::UnexpectedToken(TokenType::IntegerLiteral(5))));
}

#[test]
fn expression_cannot_start_with_operator() {
    let error = parse("+ 1".to_string()).unwrap_err();
    assert!(matches!(error.error_type, ErrorType::UnexpectedToken(TokenType::Plus)));
}

#[test]
fn missing_right_operand() {
    let error = parse("1 +".to_string()).unwrap_err();
    assert!(matches!(error.error_type, ErrorType::UnexpectedEOF));
}

#[test]
fn return_without_value() {
    let statements = parse("return".to_string()).unwrap();
    assert!(matches!(statements[0], Statement::Return { value: None, .. }));
    let interpreter = run("return\nlet x = 1");
    assert_eq!(variable(&interpreter, "x"), None);
}

#[test]
fn return_before_keyword_has_no_value() {
    let statements = parse("return let x = 1".to_string()).unwrap();
    assert_eq!(statements.len(), 2);
    assert!(matches!(statements[0], Statement::Return { value: None, .. }));
    assert!(matches!(statements[1], Statement::Let { .. }));
}

#[test]
fn call_arguments_with_commas() {
    let statements = parse("print(1, \"a\", x)".to_string()).unwrap();
    match &statements[0] {
        Statement::Expression(Expression::FunctionCall { identifier, arguments, .. }) => {
            assert_eq!(identifier.name, "print");
            assert_eq!(arguments.len(), 3);
        },
        other => panic!("unexpected statement {:?}", other),
    }
}

#[test]
fn unclosed_call_is_refused() {
    let error = parse("print(1".to_string()).unwrap_err();
    assert!(matches!(error.error_type, ErrorType::UnexpectedEOF));
}

#[test]
fn lexical_error_stops_parse() {
    let error = parse("let x = @".to_string()).unwrap_err();
    assert!(matches!(error.error_type, ErrorType::UnexpectedCharacter('@')));
}

#[test]
fn lines_written_before_a_failure_are_kept() {
    let (interpreter, result) = compile("print(1)\nlet x = 1\nlet x = 2".to_string());
    assert!(matches!(result.unwrap_err().error_type, ErrorType::VariableAlreadyDeclared(_)));
    assert_eq!(interpreter.output(), &vec!["1".to_string()]);
    assert_eq!(variable(&interpreter, "x"), Some(Value::Integer(1)));
}

#[test]
fn failed_declaration_records_nothing() {
    let mut resolver = TypeResolver::new();
    let error = resolver.visit_statements(parse("let x: String = 1".to_string()).unwrap()).unwrap_err();
    assert!(matches!(error.error_type, ErrorType::TypeMismatch(Type::String, Type::Integer)));
    let error = resolver.visit_statements(parse("x".to_string()).unwrap()).unwrap_err();
    match error.error_type {
        ErrorType::UnknownVariable(name) => assert_eq!(name, "x"),
        other => panic!("unexpected error {:?}", other),
    }
}
