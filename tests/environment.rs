use sk::env::Environment;
use sk::value::Value;

fn read(env: &Environment, name: &str) -> String {
    match env.get(name) {
        Ok(v) => v.to_display(),
        Err(m) => m,
    }
}

#[test]
fn shadowing_does_not_reach_enclosing_scope() {
    let mut root = Environment::new();
    root.define("x".to_string(), Value::Number(1));
    let mut inner = Environment::new_enclosed(root);
    inner.define("x".to_string(), Value::Number(2));
    assert_eq!(read(&inner, "x"), "2");
    let root = inner.into_enclosing().unwrap();
    assert_eq!(read(&root, "x"), "1");
}

#[test]
fn lookup_walks_outward() {
    let mut root = Environment::new();
    root.define("y".to_string(), Value::Number(9));
    let inner = Environment::new_enclosed(root);
    assert_eq!(read(&inner, "y"), "9");
}

#[test]
fn undefined_read_fails() {
    let env = Environment::new();
    assert_eq!(read(&env, "q"), "Use of undefined variable 'q'.");
}

#[test]
fn assign_to_absent_name_fails() {
    let root = Environment::new();
    let mut inner = Environment::new_enclosed(root);
    let r = inner.assign("missing", Value::Number(1));
    assert_eq!(r, Err("Undefined variable 'missing'.".to_string()));
    assert_eq!(read(&inner, "missing"), "Use of undefined variable 'missing'.");
}

#[test]
fn assign_overwrites_the_outer_binding() {
    let mut root = Environment::new();
    root.define("z".to_string(), Value::Number(1));
    let mut inner = Environment::new_enclosed(root);
    assert_eq!(inner.assign("z", Value::Number(5)), Ok(()));
    assert_eq!(read(&inner, "z"), "5");
    let root = inner.into_enclosing().unwrap();
    assert_eq!(read(&root, "z"), "5");
}

#[test]
fn define_overwrites_in_the_same_scope() {
    let mut env = Environment::new();
    env.define("a".to_string(), Value::Number(1));
    env.define("a".to_string(), Value::Number(2));
    assert_eq!(read(&env, "a"), "2");
    assert!(env.into_enclosing().is_none());
}
