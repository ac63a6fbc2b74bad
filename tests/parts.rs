use minilang::ast::Identifier;
use minilang::ast::Operator;
use minilang::environment::Environment;
use minilang::position::Position;
use minilang::stream::Stream;
use minilang::types::Type;
use minilang::value::Value;

#[test]
fn position_moves() {
    let mut p = Position::new(2, 3);
    p.next_char();
    assert_eq!(p, Position::new(3, 3));
    p.next_line();
    assert_eq!(p, Position::new(0, 4));
    p.previous_char();
    assert_eq!(p, Position::new(0, 4));
    assert_eq!(Position::new(5, 1).as_previous(), Position::new(4, 1));
}

#[test]
fn stream_consume_then_unconsume_is_no_op() {
    let mut s = Stream::new(vec!['a', 'b']);
    assert_eq!(s.peek(), Some('a'));
    assert_eq!(s.consume(), Some('a'));
    assert_eq!(s.visual_index(), 1);
    s.unconsume();
    assert_eq!(s.visual_index(), 0);
    assert_eq!(s.peek(), Some('a'));
}

#[test]
fn stream_ends_and_starts() {
    let mut s = Stream::new(vec![1u8]);
    s.unconsume();
    assert_eq!(s.peek(), Some(1));
    assert_eq!(s.consume(), Some(1));
    assert_eq!(s.consume(), None);
    assert_eq!(s.peek(), None);
    assert_eq!(s.visual_index(), 1);
    s.reset_visual_index();
    assert_eq!(s.visual_index(), 0);
}

#[test]
fn value_operations() {
    assert_eq!(Value::Integer(2).add(Value::Integer(3)), Some(Value::Integer(5)));
    assert_eq!(Value::Integer(2).sub(Value::Integer(3)), Some(Value::Integer(-1)));
    assert_eq!(Value::Integer(2).multiply(Value::Integer(3)), Some(Value::Integer(6)));
    assert_eq!(Value::Integer(-7).divide(Value::Integer(2)), Some(Value::Integer(-3)));
    assert_eq!(Value::Integer(1).divide(Value::Integer(0)), None);
    assert_eq!(Value::Integer(i32::MIN).divide(Value::Integer(-1)), None);
    let a = Value::String("a".to_string());
    let b = Value::String("b".to_string());
    for op in [Operator::Add, Operator::Subtract, Operator::Multiply, Operator::Divide] {
        assert_eq!(a.binary_operation(op, b.clone()), Some(Value::String("ab".to_string())));
    }
    assert_eq!(Value::Integer(1).add(a.clone()), None);
    assert_eq!(Value::Void.add(Value::Void), None);
}

#[test]
fn value_display() {
    assert_eq!(Value::Integer(-12).display(), "-12");
    assert_eq!(Value::String("x y".to_string()).display(), "x y");
    assert_eq!(Value::Void.display(), "void");
}

#[test]
fn environment_lookup_by_name() {
    let mut env: Environment<Value> = Environment::new();
    let x = "x".to_string();
    assert!(env.get(&x).is_none());
    env.insert(Identifier::new(x.clone(), Position::new(1, 0)), Value::Integer(1));
    env.insert(Identifier::new(x.clone(), Position::new(9, 9)), Value::Integer(2));
    assert!(env.contains(&x));
    assert_eq!(env.get(&x), Some(&Value::Integer(2)));
    assert!(!env.contains(&"y".to_string()));
}

#[test]
fn identifiers_compare_by_name() {
    let a = Identifier::new("n".to_string(), Position::new(1, 1));
    let b = Identifier::new("n".to_string(), Position::new(7, 2));
    let c = Identifier::new("m".to_string(), Position::new(1, 1));
    assert!(a == b);
    assert!(a != c);
}

#[test]
fn type_default_is_inferred() {
    assert_eq!(Type::default(), Type::Unresolved(None));
    assert!(Type::Unresolved(Some("A".to_string())) != Type::Unresolved(Some("B".to_string())));
}

#[test]
fn stream_step_back_after_end_is_no_op() {
    let mut s = Stream::new(vec!['a']);
    assert_eq!(s.consume(), Some('a'));
    assert_eq!(s.consume(), None);
    s.unconsume();
    assert_eq!(s.peek(), None);
    assert_eq!(s.visual_index(), 1);
    s.unconsume();
    assert_eq!(s.peek(), Some('a'));
    assert_eq!(s.visual_index(), 0);
}
