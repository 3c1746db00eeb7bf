use shell_core::command::Command;
use shell_core::call::Arg;
use shell_core::call::Call;
use shell_core::commandline::Commandline;
use shell_core::engine_state::EngineState;
use shell_core::error::ErrorKind;
use shell_core::error::ShellError;
use shell_core::pipeline::PipelineData;
use shell_core::repl_state::ReplState;
use shell_core::signature::Category;
use shell_core::signature::SyntaxShape;
use shell_core::span::Span;
use shell_core::stack::Stack;
use shell_core::value::Type;
use shell_core::value::Value;

fn head() -> Span {
    Span::new(0, 11, 0)
}

fn text(s: &str) -> Arg {
    Arg::Positional {
        value: Value::String { val: s.to_string(), span: Span::new(12, 12 + s.len(), 0) },
    }
}

fn flag(name: &str) -> Arg {
    Arg::Long { name: name.to_string(), value: None, span: Span::new(12, 14 + name.len(), 0) }
}

fn short(c: char) -> Arg {
    Arg::Short { short: c, value: None, span: Span::new(12, 14, 0) }
}

fn run(engine_state: &EngineState, args: Vec<Arg>) -> Result<PipelineData, ShellError> {
    let mut stack = Stack::new();
    let call = Call::bind(&Commandline.signature(), head(), &args).expect("the arguments bind");
    Commandline.run(engine_state, &mut stack, &call, PipelineData::Empty)
}

fn string_of(r: Result<PipelineData, ShellError>) -> String {
    match r {
        Ok(PipelineData::Value(Value::String { val, span })) => {
            assert_eq!(span, head());
            val
        }
        _ => panic!("the command gave no string"),
    }
}

fn nothing(r: Result<PipelineData, ShellError>) {
    match r {
        Ok(PipelineData::Value(Value::Nothing { span })) => assert_eq!(span, head()),
        _ => panic!("the command did not give the nothing value"),
    }
}

#[test]
fn replace_then_read_gives_the_text_and_the_cursor_at_its_end() {
    let engine_state = EngineState::new();
    nothing(run(&engine_state, vec![text("hello")]));
    assert_eq!(string_of(run(&engine_state, vec![])), "hello");
    assert_eq!(string_of(run(&engine_state, vec![flag("cursor")])), "5");
}

#[test]
fn replace_flag_replaces_as_no_flag_does() {
    let engine_state = EngineState::new();
    nothing(run(&engine_state, vec![text("first")]));
    nothing(run(&engine_state, vec![flag("replace"), text("second one")]));
    assert_eq!(string_of(run(&engine_state, vec![])), "second one");
    assert_eq!(string_of(run(&engine_state, vec![short('c')])), "10");
}

#[test]
fn an_empty_buffer_has_the_cursor_at_zero() {
    let engine_state = EngineState::new();
    assert_eq!(string_of(run(&engine_state, vec![])), "");
    assert_eq!(string_of(run(&engine_state, vec![flag("cursor")])), "0");
}

#[test]
fn cursor_that_is_no_integer_cannot_be_converted() {
    let engine_state = EngineState::new();
    nothing(run(&engine_state, vec![text("hello")]));
    match run(&engine_state, vec![flag("cursor"), text("abc")]) {
        Err(ShellError::CantConvert { to_type, from_type, span, help }) => {
            assert_eq!(to_type, "int");
            assert_eq!(from_type, "string");
            assert_eq!(span, Span::new(12, 15, 0));
            assert_eq!(help, Some("string \"abc\" does not represent a valid integer".to_string()));
        }
        _ => panic!("the command did not fail with a conversion"),
    }
    match run(&engine_state, vec![flag("cursor"), text("abc")]) {
        Err(e) => assert_eq!(e.kind(), ErrorKind::TypeConversion),
        Ok(_) => panic!("the command did not fail"),
    }
    assert_eq!(string_of(run(&engine_state, vec![])), "hello");
    assert_eq!(string_of(run(&engine_state, vec![flag("cursor")])), "5");
}

#[test]
fn negative_cursor_clamps_to_the_start() {
    let engine_state = EngineState::new();
    nothing(run(&engine_state, vec![text("hello")]));
    nothing(run(&engine_state, vec![flag("cursor"), text("-5")]));
    assert_eq!(string_of(run(&engine_state, vec![flag("cursor")])), "0");
    nothing(run(&engine_state, vec![flag("cursor"), text("3")]));
    nothing(run(&engine_state, vec![flag("cursor"), text("0")]));
    assert_eq!(string_of(run(&engine_state, vec![flag("cursor")])), "0");
}

#[test]
fn cursor_past_the_end_clamps_to_the_end() {
    let engine_state = EngineState::new();
    nothing(run(&engine_state, vec![text("hello")]));
    nothing(run(&engine_state, vec![flag("cursor"), text("2")]));
    assert_eq!(string_of(run(&engine_state, vec![flag("cursor")])), "2");
    nothing(run(&engine_state, vec![flag("cursor"), text("99")]));
    assert_eq!(string_of(run(&engine_state, vec![flag("cursor")])), "5");
    nothing(run(&engine_state, vec![flag("cursor"), text("5")]));
    assert_eq!(string_of(run(&engine_state, vec![flag("cursor")])), "5");
}

#[test]
fn append_adds_at_the_end_and_keeps_the_cursor() {
    let engine_state = EngineState::new();
    nothing(run(&engine_state, vec![text("hello")]));
    nothing(run(&engine_state, vec![flag("cursor"), text("1")]));
    nothing(run(&engine_state, vec![flag("append"), text(" world")]));
    assert_eq!(string_of(run(&engine_state, vec![])), "hello world");
    assert_eq!(string_of(run(&engine_state, vec![flag("cursor")])), "1");
}

#[test]
fn insert_puts_the_text_at_the_cursor_and_moves_it_past_the_text() {
    let engine_state = EngineState::new();
    nothing(run(&engine_state, vec![text("held")]));
    nothing(run(&engine_state, vec![flag("cursor"), text("2")]));
    nothing(run(&engine_state, vec![short('i'), text("llo wor")]));
    assert_eq!(string_of(run(&engine_state, vec![])), "hello world");
    assert_eq!(string_of(run(&engine_state, vec![flag("cursor")])), "9");
}

#[test]
fn the_cursor_counts_grapheme_clusters_not_bytes() {
    let engine_state = EngineState::new();
    // three clusters in eleven bytes, then a line break that is one cluster
    nothing(run(&engine_state, vec![text("a\u{310}e\u{301}o\u{308}\u{332}\r\n")]));
    assert_eq!(string_of(run(&engine_state, vec![flag("cursor")])), "4");
    nothing(run(&engine_state, vec![flag("cursor"), text("1")]));
    assert_eq!(string_of(run(&engine_state, vec![flag("cursor")])), "1");
    nothing(run(&engine_state, vec![flag("insert"), text("X")]));
    assert_eq!(string_of(run(&engine_state, vec![])), "a\u{310}Xe\u{301}o\u{308}\u{332}\r\n");
    assert_eq!(string_of(run(&engine_state, vec![flag("cursor")])), "2");
    nothing(run(&engine_state, vec![flag("cursor"), text("4")]));
    assert_eq!(string_of(run(&engine_state, vec![flag("cursor")])), "4");
    nothing(run(&engine_state, vec![flag("cursor"), text("5")]));
    assert_eq!(string_of(run(&engine_state, vec![flag("cursor")])), "5");
    nothing(run(&engine_state, vec![flag("cursor"), text("6")]));
    assert_eq!(string_of(run(&engine_state, vec![flag("cursor")])), "5");
}

#[test]
fn a_cursor_inside_a_cluster_has_no_position() {
    let engine_state = EngineState::new();
    // a combining mark alone is a cluster; a letter inserted before it joins it
    nothing(run(&engine_state, vec![text("\u{301}")]));
    nothing(run(&engine_state, vec![flag("cursor"), text("0")]));
    nothing(run(&engine_state, vec![flag("insert"), text("e")]));
    assert_eq!(string_of(run(&engine_state, vec![])), "e\u{301}");
    match run(&engine_state, vec![flag("cursor")]) {
        Err(ShellError::Downstream { msg, span }) => {
            assert_eq!(msg, "Cursor position isn't on a grapheme boundary");
            assert_eq!(span, head());
        }
        _ => panic!("the cursor has a position"),
    }
}

#[test]
fn run_on_works_on_the_buffer_it_is_given() {
    let mut repl = ReplState::new();
    let sig = Commandline.signature();
    let call = Call::bind(&sig, head(), &vec![text("abc")]).expect("the arguments bind");
    nothing(Commandline::run_on(&mut repl, &call));
    assert_eq!(repl.buffer(), "abc");
    assert_eq!(repl.cursor_offset(), 3);
    let call = Call::bind(&sig, head(), &vec![]).expect("the arguments bind");
    assert_eq!(string_of(Commandline::run_on(&mut repl, &call)), "abc");
}

#[test]
fn an_argument_that_is_no_string_cannot_be_converted() {
    let mut repl = ReplState::new();
    let at = Span::new(12, 14, 0);
    let call = Call {
        head: head(),
        positional: vec![Some(Value::Int { val: 42, span: at })],
        rest: vec![],
        named: vec![],
    };
    match Commandline::run_on(&mut repl, &call) {
        Err(ShellError::CantConvert { to_type, from_type, span, help }) => {
            assert_eq!(to_type, "string");
            assert_eq!(from_type, "int");
            assert_eq!(span, at);
            assert_eq!(help, None);
        }
        _ => panic!("the command did not fail with a conversion"),
    }
    assert_eq!(repl.buffer(), "");
}

#[test]
fn the_signature_declares_four_switches_and_one_optional_string() {
    let sig = Commandline.signature();
    assert_eq!(sig.name, "commandline");
    assert_eq!(sig.input_output_types, vec![(Type::Nothing, Type::Nothing)]);
    assert_eq!(sig.category, Category::Core);
    let flags: Vec<(String, Option<char>, Option<SyntaxShape>)> =
        sig.named.iter().map(|f| (f.long.clone(), f.short, f.arg)).collect();
    assert_eq!(
        flags,
        vec![
            ("cursor".to_string(), Some('c'), None),
            ("append".to_string(), Some('a'), None),
            ("insert".to_string(), Some('i'), None),
            ("replace".to_string(), Some('r'), None),
        ]
    );
    assert_eq!(sig.named[0].desc, "Set or get the current cursor position");
    assert_eq!(sig.named[1].desc, "appends the string to the end of the buffer");
    assert_eq!(sig.named[2].desc, "inserts the string into the buffer at the cursor position");
    assert_eq!(sig.named[3].desc, "replaces the current contents of the buffer (default)");
    assert!(sig.required_positional.is_empty());
    assert_eq!(sig.optional_positional.len(), 1);
    assert_eq!(sig.optional_positional[0].name, "cmd");
    assert_eq!(sig.optional_positional[0].shape, SyntaxShape::String);
    assert_eq!(sig.optional_positional[0].desc, "the string to perform the operation with");
    assert!(sig.rest_positional.is_none());
}

#[test]
fn the_command_says_what_it_is() {
    assert_eq!(Commandline.name(), "commandline");
    assert_eq!(Commandline.usage(), "View or modify the current command line input buffer.");
    assert_eq!(Commandline.search_terms(), vec!["repl", "interactive"]);
}

#[test]
fn the_command_leaves_the_stack_as_it_is() {
    let engine_state = EngineState::new();
    let mut stack = Stack::new();
    stack.add_var("x", Value::Int { val: 1, span: head() });
    let call = Call::bind(&Commandline.signature(), head(), &vec![text("hi")]).expect("binds");
    nothing(Commandline.run(&engine_state, &mut stack, &call, PipelineData::Empty));
    assert_eq!(stack.depth(), 1);
    match stack.get_var(&engine_state.overlays, "x", head()) {
        Ok(Value::Int { val, .. }) => assert_eq!(val, 1),
        _ => panic!("the variable is gone"),
    }
}
