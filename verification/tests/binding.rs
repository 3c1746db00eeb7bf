use shell_core::call::coerce;
use shell_core::call::Arg;
use shell_core::call::Call;
use shell_core::error::ErrorKind;
use shell_core::error::ShellError;
use shell_core::signature::Signature;
use shell_core::signature::SyntaxShape;
use shell_core::span::Span;
use shell_core::value::Value;

fn head() -> Span {
    Span::new(0, 3, 7)
}

fn at(n: usize) -> Span {
    Span::new(10 * n, 10 * n + 5, 7)
}

fn int_at(val: i64, n: usize) -> Value {
    Value::Int { val, span: at(n) }
}

fn text_at(s: &str, n: usize) -> Value {
    Value::String { val: s.to_string(), span: at(n) }
}

fn pos(value: Value) -> Arg {
    Arg::Positional { value }
}

fn long(name: &str, value: Option<Value>, n: usize) -> Arg {
    Arg::Long { name: name.to_string(), value, span: at(n) }
}

fn short(c: char, value: Option<Value>, n: usize) -> Arg {
    Arg::Short { short: c, value, span: at(n) }
}

fn two_slots() -> Signature {
    Signature::build("take")
        .required("count", SyntaxShape::Int, "how many")
        .optional("label", SyntaxShape::String, "what to call them")
}

fn with_flags() -> Signature {
    Signature::build("fetch")
        .usage("fetches things")
        .switch("verbose", "say more", Some('v'))
        .named("depth", SyntaxShape::Int, "how deep", Some('d'))
        .named("tag", SyntaxShape::Any, "a tag", None)
        .required("url", SyntaxShape::String, "where from")
}

fn int_of(v: &Option<Value>) -> i64 {
    match v {
        Some(Value::Int { val, .. }) => *val,
        _ => panic!("no integer"),
    }
}

fn string_of(v: &Option<Value>) -> String {
    match v {
        Some(Value::String { val, .. }) => val.clone(),
        _ => panic!("no string"),
    }
}

#[test]
fn only_the_required_argument_leaves_the_optional_slot_empty() {
    let call = Call::bind(&two_slots(), head(), &vec![pos(int_at(3, 1))]).expect("binds");
    assert_eq!(call.head, head());
    assert_eq!(call.positional.len(), 2);
    assert_eq!(int_of(&call.positional[0]), 3);
    assert!(call.positional[1].is_none());
    assert!(call.rest.is_empty());
    assert!(call.named.is_empty());
    assert_eq!(int_of(&call.opt(0)), 3);
    assert!(call.opt(1).is_none());
    assert!(call.opt(2).is_none());
}

#[test]
fn both_arguments_are_bound_in_order() {
    let args = vec![pos(int_at(3, 1)), pos(text_at("apples", 2))];
    let call = Call::bind(&two_slots(), head(), &args).expect("binds");
    assert_eq!(call.positional.len(), 2);
    assert_eq!(int_of(&call.positional[0]), 3);
    assert_eq!(string_of(&call.positional[1]), "apples");
    assert!(call.rest.is_empty());
    assert_eq!(string_of(&call.opt(1)), "apples");
}

#[test]
fn an_empty_string_is_given_and_not_absent() {
    let args = vec![pos(int_at(0, 1)), pos(text_at("", 2))];
    let call = Call::bind(&two_slots(), head(), &args).expect("binds");
    assert_eq!(int_of(&call.positional[0]), 0);
    assert_eq!(string_of(&call.positional[1]), "");
}

#[test]
fn a_switch_with_an_attached_value_does_not_bind() {
    let args = vec![long("verbose", Some(int_at(1, 2)), 1), pos(text_at("here", 3))];
    match Call::bind(&with_flags(), head(), &args) {
        Err(e) => {
            assert_eq!(e.kind(), ErrorKind::ArgumentBinding);
            assert_eq!(e.span(), at(1));
            match e {
                ShellError::UnexpectedFlagValue { name, .. } => assert_eq!(name, "verbose"),
                _ => panic!("another failure"),
            }
        }
        Ok(_) => panic!("the call binds"),
    }
    let args = vec![pos(text_at("here", 3)), short('v', Some(text_at("yes", 2)), 1)];
    match Call::bind(&with_flags(), head(), &args) {
        Err(ShellError::UnexpectedFlagValue { name, span }) => {
            assert_eq!(name, "verbose");
            assert_eq!(span, at(1));
        }
        _ => panic!("the call binds or fails otherwise"),
    }
}

#[test]
fn an_unknown_flag_does_not_bind() {
    let args = vec![pos(text_at("here", 1)), long("quiet", None, 2)];
    match Call::bind(&with_flags(), head(), &args) {
        Err(ShellError::UnknownFlag { name, span }) => {
            assert_eq!(name, "quiet");
            assert_eq!(span, at(2));
        }
        _ => panic!("the call binds or fails otherwise"),
    }
    let args = vec![short('x', None, 4)];
    match Call::bind(&with_flags(), head(), &args) {
        Err(e) => {
            assert_eq!(e.kind(), ErrorKind::ArgumentBinding);
            match e {
                ShellError::UnknownFlag { name, span } => {
                    assert_eq!(name, "x");
                    assert_eq!(span, at(4));
                }
                _ => panic!("another failure"),
            }
        }
        Ok(_) => panic!("the call binds"),
    }
}

#[test]
fn a_missing_required_argument_does_not_bind() {
    match Call::bind(&with_flags(), head(), &vec![long("verbose", None, 1)]) {
        Err(ShellError::MissingArgument { name, span }) => {
            assert_eq!(name, "url");
            assert_eq!(span, head());
        }
        _ => panic!("the call binds or fails otherwise"),
    }
    match Call::bind(&two_slots(), head(), &vec![]) {
        Err(e) => assert_eq!(e.kind(), ErrorKind::ArgumentBinding),
        Ok(_) => panic!("the call binds"),
    }
}

#[test]
fn an_extra_argument_does_not_bind_without_a_rest_argument() {
    let args = vec![pos(int_at(1, 1)), pos(text_at("a", 2)), pos(text_at("b", 3)), pos(int_at(4, 4))];
    match Call::bind(&two_slots(), head(), &args) {
        Err(ShellError::ExtraArgument { span }) => assert_eq!(span, at(3)),
        _ => panic!("the call binds or fails otherwise"),
    }
    match Call::bind(&two_slots(), head(), &args) {
        Err(e) => assert_eq!(e.kind(), ErrorKind::ArgumentBinding),
        Ok(_) => panic!("the call binds"),
    }
}

#[test]
fn the_rest_argument_takes_what_is_past_the_slots() {
    let sig = two_slots().rest("more", SyntaxShape::Int, "what else");
    let args = vec![pos(int_at(1, 1)), pos(text_at("a", 2)), pos(int_at(7, 3)), pos(text_at("8", 4))];
    let call = Call::bind(&sig, head(), &args).expect("binds");
    assert_eq!(call.positional.len(), 2);
    assert_eq!(call.rest.len(), 2);
    assert_eq!(int_of(&Some(call.rest[0].clone())), 7);
    assert_eq!(int_of(&Some(call.rest[1].clone())), 8);
    assert_eq!(int_of(&call.opt(2)), 7);
    assert_eq!(int_of(&call.opt(3)), 8);
    assert!(call.opt(4).is_none());
    let call = Call::bind(&sig, head(), &vec![pos(int_at(1, 1))]).expect("binds");
    assert!(call.rest.is_empty());
    assert!(call.positional[1].is_none());
}

#[test]
fn a_flag_takes_its_value_attached_or_from_what_follows() {
    let args = vec![
        long("depth", Some(int_at(2, 2)), 1),
        pos(text_at("here", 3)),
        long("tag", None, 4),
        pos(int_at(9, 5)),
        short('v', None, 6),
    ];
    let call = Call::bind(&with_flags(), head(), &args).expect("binds");
    assert_eq!(call.positional.len(), 1);
    assert_eq!(string_of(&call.positional[0]), "here");
    assert_eq!(call.named.len(), 3);
    assert_eq!(call.named[0].0, "depth");
    assert_eq!(call.named[1].0, "tag");
    assert_eq!(call.named[2].0, "verbose");
    assert!(call.named[2].1.is_none());
    assert!(call.has_flag("depth"));
    assert!(call.has_flag("tag"));
    assert!(call.has_flag("verbose"));
    assert!(!call.has_flag("v"));
    assert!(!call.has_flag("other"));
    assert_eq!(int_of(&call.get_flag("depth")), 2);
    assert_eq!(int_of(&call.get_flag("tag")), 9);
    assert!(call.get_flag("verbose").is_none());
    assert!(call.get_flag("other").is_none());
}

#[test]
fn a_flag_given_twice_has_its_first_value() {
    let args = vec![
        short('d', Some(int_at(1, 2)), 1),
        long("depth", Some(int_at(2, 4)), 3),
        pos(text_at("here", 5)),
    ];
    let call = Call::bind(&with_flags(), head(), &args).expect("binds");
    assert_eq!(call.named.len(), 2);
    assert_eq!(int_of(&call.get_flag("depth")), 1);
}

#[test]
fn a_flag_that_takes_a_value_must_have_one() {
    let args = vec![pos(text_at("here", 1)), long("depth", None, 2)];
    match Call::bind(&with_flags(), head(), &args) {
        Err(ShellError::MissingFlagValue { name, span }) => {
            assert_eq!(name, "depth");
            assert_eq!(span, at(2));
        }
        _ => panic!("the call binds or fails otherwise"),
    }
    let args = vec![short('d', None, 2), long("verbose", None, 3), pos(text_at("here", 1))];
    match Call::bind(&with_flags(), head(), &args) {
        Err(e) => {
            assert_eq!(e.kind(), ErrorKind::ArgumentBinding);
            assert_eq!(e.span(), at(2));
        }
        Ok(_) => panic!("the call binds"),
    }
}

#[test]
fn values_are_converted_to_the_shape_of_their_place() {
    let args = vec![pos(text_at("-12", 1))];
    let sig = with_flags().optional("n", SyntaxShape::Int, "a number");
    let args2 = vec![pos(text_at("here", 0)), pos(text_at("-12", 1)), long("depth", Some(text_at("+7", 3)), 2)];
    let call = Call::bind(&sig, head(), &args2).expect("binds");
    assert_eq!(int_of(&call.positional[1]), -12);
    match &call.positional[1] {
        Some(v) => assert_eq!(v.span(), at(1)),
        None => panic!("no value"),
    }
    assert_eq!(int_of(&call.get_flag("depth")), 7);
    match Call::bind(&two_slots(), head(), &args) {
        Ok(call) => assert_eq!(int_of(&call.positional[0]), -12),
        Err(_) => panic!("the call does not bind"),
    }
}

#[test]
fn a_value_that_cannot_be_converted_does_not_bind() {
    let args = vec![pos(text_at("abc", 1))];
    match Call::bind(&two_slots(), head(), &args) {
        Err(ShellError::CantConvert { to_type, from_type, span, help }) => {
            assert_eq!(to_type, "int");
            assert_eq!(from_type, "string");
            assert_eq!(span, at(1));
            assert_eq!(help, Some("string \"abc\" does not represent a valid integer".to_string()));
        }
        _ => panic!("the call binds or fails otherwise"),
    }
    let args = vec![pos(int_at(1, 1)), pos(int_at(2, 2))];
    match Call::bind(&two_slots(), head(), &args) {
        Err(e) => {
            assert_eq!(e.kind(), ErrorKind::TypeConversion);
            assert_eq!(e.span(), at(2));
            assert_eq!(e.help(), None);
            match e {
                ShellError::CantConvert { to_type, from_type, .. } => {
                    assert_eq!(to_type, "string");
                    assert_eq!(from_type, "int");
                }
                _ => panic!("another failure"),
            }
        }
        Ok(_) => panic!("the call binds"),
    }
}

#[test]
fn positional_values_are_converted_before_the_values_of_flags() {
    let args = vec![long("depth", Some(text_at("deep", 1)), 0), pos(int_at(5, 2))];
    match Call::bind(&with_flags(), head(), &args) {
        Err(e) => assert_eq!(e.span(), at(2)),
        Ok(_) => panic!("the call binds"),
    }
    let args = vec![long("depth", Some(text_at("deep", 1)), 0), pos(text_at("here", 2))];
    match Call::bind(&with_flags(), head(), &args) {
        Err(e) => {
            assert_eq!(e.kind(), ErrorKind::TypeConversion);
            assert_eq!(e.span(), at(1));
        }
        Ok(_) => panic!("the call binds"),
    }
}

#[test]
fn binding_fails_before_conversion_does() {
    let args = vec![pos(text_at("abc", 1)), long("nope", None, 2)];
    match Call::bind(&two_slots(), head(), &args) {
        Err(e) => assert_eq!(e.kind(), ErrorKind::ArgumentBinding),
        Ok(_) => panic!("the call binds"),
    }
}

#[test]
fn coerce_keeps_what_has_the_shape_and_reads_integers_from_strings() {
    match coerce(&int_at(5, 1), SyntaxShape::Any) {
        Ok(Value::Int { val, span }) => {
            assert_eq!(val, 5);
            assert_eq!(span, at(1));
        }
        _ => panic!("not kept"),
    }
    match coerce(&text_at("9223372036854775807", 2), SyntaxShape::Int) {
        Ok(Value::Int { val, span }) => {
            assert_eq!(val, i64::MAX);
            assert_eq!(span, at(2));
        }
        _ => panic!("not read"),
    }
    assert!(coerce(&text_at("9223372036854775808", 2), SyntaxShape::Int).is_err());
    assert!(coerce(&int_at(1, 1), SyntaxShape::Bool).is_err());
    assert!(coerce(&Value::Bool { val: true, span: at(1) }, SyntaxShape::Bool).is_ok());
    assert!(coerce(&Value::Nothing { span: at(1) }, SyntaxShape::Nothing).is_ok());
    assert!(coerce(&Value::Nothing { span: at(1) }, SyntaxShape::List).is_err());
}

#[test]
fn a_signature_finds_its_flags_by_either_name() {
    let sig = with_flags();
    assert_eq!(sig.usage, "fetches things");
    assert_eq!(sig.get_long_flag("verbose"), Some(0));
    assert_eq!(sig.get_long_flag("depth"), Some(1));
    assert_eq!(sig.get_long_flag("tag"), Some(2));
    assert_eq!(sig.get_long_flag("d"), None);
    assert_eq!(sig.get_short_flag('v'), Some(0));
    assert_eq!(sig.get_short_flag('d'), Some(1));
    assert_eq!(sig.get_short_flag('t'), None);
    assert_eq!(sig.shape_at(0), SyntaxShape::String);
    assert_eq!(sig.shape_at(1), SyntaxShape::Any);
    let sig = two_slots().rest("more", SyntaxShape::Bool, "what else");
    assert_eq!(sig.shape_at(0), SyntaxShape::Int);
    assert_eq!(sig.shape_at(1), SyntaxShape::String);
    assert_eq!(sig.shape_at(2), SyntaxShape::Bool);
    assert_eq!(sig.shape_at(9), SyntaxShape::Bool);
}
