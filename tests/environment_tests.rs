use rlox::{ErrorKind, Number, ScopeEnvironment, Value};

fn num(scaled: i128) -> Value {
    Value::Number(Number::from_scaled(scaled))
}

fn number_of(v: Option<&Value>) -> Option<i128> {
    match v {
        Some(Value::Number(n)) => Some(n.scaled),
        _ => None,
    }
}

#[test]
fn it_puts_and_returns_variable_on_single_scope() {
    let mut s = ScopeEnvironment::new_root();
    s.declare(&"test".to_string(), num(1_100_000_000)).expect("failed to declare");
    let r = s.get(&"test".to_string());
    assert_eq!(Some(1_100_000_000), number_of(r));
}

#[test]
fn it_puts_on_root_and_gets_from_child() {
    let mut s = ScopeEnvironment::new_root();
    s.declare(&"test".to_string(), num(1_100_000_000)).expect("failed to declare");
    s.new_child();
    let r = s.get(&"test".to_string());
    assert_eq!(Some(1_100_000_000), number_of(r));
}

#[test]
fn redeclaring_in_same_scope_fails() {
    let mut s = ScopeEnvironment::new_root();
    let a = "a".to_string();
    s.declare(&a, num(1)).unwrap();
    let err = s.declare(&a, num(2)).unwrap_err();
    assert_eq!(ErrorKind::AlreadyDeclared, err.kind());
    assert_eq!(Some(1), number_of(s.get(&a)));
}

#[test]
fn redeclaring_in_child_scope_shadows() {
    let mut s = ScopeEnvironment::new_root();
    let a = "a".to_string();
    s.declare(&a, num(1)).unwrap();
    let prev = s.new_child();
    s.declare(&a, num(2)).unwrap();
    assert_eq!(Some(2), number_of(s.get(&a)));
    s.pop_scope(prev);
    assert_eq!(Some(1), number_of(s.get(&a)));
}

#[test]
fn assigning_undeclared_name_fails() {
    let mut s = ScopeEnvironment::new_root();
    let err = s.assign(&"nope".to_string(), num(1)).unwrap_err();
    assert_eq!(ErrorKind::UndefinedVariable, err.kind());
    assert!(s.get(&"nope".to_string()).is_none());
}

#[test]
fn assign_after_declare_is_visible_here_and_in_child() {
    let mut s = ScopeEnvironment::new_root();
    let a = "a".to_string();
    s.declare(&a, num(1)).unwrap();
    s.assign(&a, num(5)).unwrap();
    assert_eq!(Some(5), number_of(s.get(&a)));
    s.new_child();
    assert_eq!(Some(5), number_of(s.get(&a)));
}

#[test]
fn assign_from_child_updates_outer_binding() {
    let mut s = ScopeEnvironment::new_root();
    let a = "a".to_string();
    s.declare(&a, num(1)).unwrap();
    let prev = s.new_child();
    s.assign(&a, num(7)).unwrap();
    s.pop_scope(prev);
    assert_eq!(Some(7), number_of(s.get(&a)));
}

#[test]
fn released_scope_handle_is_reused_only_when_not_captured() {
    let mut s = ScopeEnvironment::new_root();
    let prev = s.new_child();
    assert_eq!(2, s.scope_count());
    s.pop_scope(prev);
    assert_eq!(1, s.scope_count());
    let prev = s.new_child();
    s.capture_current();
    s.pop_scope(prev);
    assert_eq!(2, s.scope_count());
    assert_eq!(0, s.current());
}
