use shell_core::pattern_match::match_pattern;
use shell_core::pattern_match::Pattern;
use shell_core::span::Span;
use shell_core::value::Value;

fn at() -> Span {
    Span::new(1, 2, 0)
}

fn elsewhere() -> Span {
    Span::new(30, 40, 2)
}

fn num(val: i64) -> Value {
    Value::Int { val, span: at() }
}

fn list(vals: Vec<Value>) -> Value {
    Value::List { vals, span: at() }
}

fn bind(name: &str) -> Pattern {
    Pattern::Bind { name: name.to_string() }
}

fn record(cols: Vec<(&str, Value)>) -> Value {
    let mut r = Value::new_record(at());
    for (name, value) in cols {
        assert!(r.insert_column(name, value));
    }
    r
}

fn int_of(v: &Value) -> i64 {
    match v {
        Value::Int { val, .. } => *val,
        _ => panic!("no integer"),
    }
}

#[test]
fn head_and_rest_of_a_list() {
    let pattern = Pattern::List { items: vec![bind("a")], rest: Some("rest".to_string()) };
    let found = match_pattern(&pattern, &list(vec![num(1), num(2), num(3)])).expect("matches");
    assert_eq!(found.len(), 2);
    assert_eq!(found[0].0, "a");
    assert_eq!(int_of(&found[0].1), 1);
    assert_eq!(found[1].0, "rest");
    match &found[1].1 {
        Value::List { vals, span } => {
            assert_eq!(vals.len(), 2);
            assert_eq!(int_of(&vals[0]), 2);
            assert_eq!(int_of(&vals[1]), 3);
            assert_eq!(*span, at());
        }
        _ => panic!("the rest is no list"),
    }
}

#[test]
fn head_and_rest_do_not_match_the_empty_list() {
    let pattern = Pattern::List { items: vec![bind("a")], rest: Some("rest".to_string()) };
    assert!(match_pattern(&pattern, &list(vec![])).is_none());
}

#[test]
fn the_rest_of_a_list_may_be_empty() {
    let pattern = Pattern::List { items: vec![bind("a")], rest: Some("rest".to_string()) };
    let found = match_pattern(&pattern, &list(vec![num(1)])).expect("matches");
    assert_eq!(found.len(), 2);
    match &found[1].1 {
        Value::List { vals, .. } => assert!(vals.is_empty()),
        _ => panic!("the rest is no list"),
    }
}

#[test]
fn a_list_pattern_without_rest_wants_the_same_length() {
    let pattern = Pattern::List { items: vec![bind("a"), bind("b")], rest: None };
    assert!(match_pattern(&pattern, &list(vec![num(1)])).is_none());
    assert!(match_pattern(&pattern, &list(vec![num(1), num(2), num(3)])).is_none());
    let found = match_pattern(&pattern, &list(vec![num(1), num(2)])).expect("matches");
    assert_eq!(found.len(), 2);
    assert_eq!(found[0].0, "a");
    assert_eq!(int_of(&found[0].1), 1);
    assert_eq!(found[1].0, "b");
    assert_eq!(int_of(&found[1].1), 2);
    assert!(match_pattern(&pattern, &num(1)).is_none());
}

#[test]
fn a_literal_matches_by_type_and_content_whatever_the_span() {
    let pattern = Pattern::Literal { value: Value::Int { val: 5, span: elsewhere() } };
    let found = match_pattern(&pattern, &num(5)).expect("matches");
    assert!(found.is_empty());
    assert!(match_pattern(&pattern, &num(6)).is_none());
    let text = Value::String { val: "5".to_string(), span: at() };
    assert!(match_pattern(&pattern, &text).is_none());
    let pattern = Pattern::Literal { value: list(vec![num(1), text.clone()]) };
    assert!(match_pattern(&pattern, &list(vec![num(1), text.clone()])).is_some());
    assert!(match_pattern(&pattern, &list(vec![num(1)])).is_none());
}

#[test]
fn a_binding_matches_everything() {
    let found = match_pattern(&bind("x"), &Value::Nothing { span: at() }).expect("matches");
    assert_eq!(found.len(), 1);
    assert_eq!(found[0].0, "x");
    assert!(matches!(found[0].1, Value::Nothing { .. }));
}

#[test]
fn a_mismatch_deep_inside_gives_no_bindings_at_all() {
    let pattern = Pattern::List {
        items: vec![
            bind("a"),
            Pattern::List { items: vec![bind("b"), Pattern::Literal { value: num(9) }], rest: None },
        ],
        rest: None,
    };
    let good = list(vec![num(1), list(vec![num(2), num(9)])]);
    let found = match_pattern(&pattern, &good).expect("matches");
    assert_eq!(found.len(), 2);
    assert_eq!(found[0].0, "a");
    assert_eq!(found[1].0, "b");
    assert_eq!(int_of(&found[1].1), 2);
    let bad = list(vec![num(1), list(vec![num(2), num(8)])]);
    assert!(match_pattern(&pattern, &bad).is_none());
}

#[test]
fn a_record_pattern_takes_the_fields_it_names() {
    let target = record(vec![("name", num(1)), ("size", num(2)), ("kind", num(3))]);
    let pattern = Pattern::Record {
        fields: vec![("size".to_string(), bind("s")), ("name".to_string(), bind("n"))],
        exhaustive: false,
    };
    let found = match_pattern(&pattern, &target).expect("matches");
    assert_eq!(found.len(), 2);
    assert_eq!(found[0].0, "s");
    assert_eq!(int_of(&found[0].1), 2);
    assert_eq!(found[1].0, "n");
    assert_eq!(int_of(&found[1].1), 1);
}

#[test]
fn a_record_pattern_does_not_match_without_one_of_its_fields() {
    let target = record(vec![("name", num(1))]);
    let pattern = Pattern::Record {
        fields: vec![("name".to_string(), bind("n")), ("size".to_string(), bind("s"))],
        exhaustive: false,
    };
    assert!(match_pattern(&pattern, &target).is_none());
    assert!(match_pattern(&pattern, &list(vec![])).is_none());
}

#[test]
fn an_exhaustive_record_pattern_allows_no_other_field() {
    let pattern = Pattern::Record {
        fields: vec![("name".to_string(), bind("n")), ("size".to_string(), Pattern::Literal { value: num(2) })],
        exhaustive: true,
    };
    let exact = record(vec![("size", num(2)), ("name", num(1))]);
    let found = match_pattern(&pattern, &exact).expect("matches");
    assert_eq!(found.len(), 1);
    assert_eq!(int_of(&found[0].1), 1);
    let more = record(vec![("size", num(2)), ("name", num(1)), ("kind", num(3))]);
    assert!(match_pattern(&pattern, &more).is_none());
    let other = record(vec![("size", num(3)), ("name", num(1))]);
    assert!(match_pattern(&pattern, &other).is_none());
}
