use shell_core::call::Arg;
use shell_core::commandline::Commandline;
use shell_core::engine_state::EngineState;
use shell_core::error::ErrorKind;
use shell_core::error::ShellError;
use shell_core::overlay::Overlay;
use shell_core::pipeline::PipelineData;
use shell_core::registry::Registry;
use shell_core::span::Span;
use shell_core::stack::Stack;
use shell_core::value::Value;

fn head() -> Span {
    Span::new(0, 11, 0)
}

fn text(s: &str) -> Arg {
    Arg::Positional { value: Value::String { val: s.to_string(), span: Span::new(12, 20, 0) } }
}

fn shell() -> (Registry, EngineState, Stack) {
    let mut registry = Registry::new();
    let id = registry.add_decl(Box::new(Commandline));
    assert_eq!(id, 0);
    let mut core = Overlay::new("core", 0);
    core.add_decl("commandline", id);
    core.add_decl("ghost", 5);
    let mut engine_state = EngineState::new();
    let overlay = engine_state.add_overlay(core);
    let mut stack = Stack::new();
    stack.activate_overlay(overlay);
    (registry, engine_state, stack)
}

#[test]
fn a_call_by_name_runs_the_command() {
    let (registry, engine_state, mut stack) = shell();
    let done = registry.call(
        &engine_state,
        &mut stack,
        "commandline",
        head(),
        &vec![text("ls -la")],
        PipelineData::Empty,
    );
    assert!(matches!(done, Ok(PipelineData::Value(Value::Nothing { .. }))));
    let read = registry.call(&engine_state, &mut stack, "commandline", head(), &vec![], PipelineData::Empty);
    match read {
        Ok(PipelineData::Value(Value::String { val, .. })) => assert_eq!(val, "ls -la"),
        _ => panic!("the buffer was not read"),
    }
}

#[test]
fn a_name_that_no_active_overlay_declares_is_not_found() {
    let (registry, engine_state, mut stack) = shell();
    match registry.call(&engine_state, &mut stack, "nope", head(), &vec![], PipelineData::Empty) {
        Err(ShellError::VariableNotFound { name, span }) => {
            assert_eq!(name, "nope");
            assert_eq!(span, head());
        }
        _ => panic!("the command was found"),
    }
    // a declaration without a command behind it
    match registry.call(&engine_state, &mut stack, "ghost", head(), &vec![], PipelineData::Empty) {
        Err(e) => assert_eq!(e.kind(), ErrorKind::VariableResolution),
        Ok(_) => panic!("the command was found"),
    }
    stack.deactivate_overlay(0);
    match registry.call(&engine_state, &mut stack, "commandline", head(), &vec![], PipelineData::Empty) {
        Err(e) => assert_eq!(e.kind(), ErrorKind::VariableResolution),
        Ok(_) => panic!("the command was found"),
    }
}

#[test]
fn arguments_that_do_not_bind_stop_the_call_before_the_command_starts() {
    let (registry, engine_state, mut stack) = shell();
    let args = vec![text("one"), text("two")];
    match registry.call(&engine_state, &mut stack, "commandline", head(), &args, PipelineData::Empty) {
        Err(e) => assert_eq!(e.kind(), ErrorKind::ArgumentBinding),
        Ok(_) => panic!("the call was bound"),
    }
    let args = vec![Arg::Long {
        name: "cursor".to_string(),
        value: Some(Value::Int { val: 1, span: head() }),
        span: head(),
    }];
    match registry.call(&engine_state, &mut stack, "commandline", head(), &args, PipelineData::Empty) {
        Err(ShellError::UnexpectedFlagValue { name, .. }) => assert_eq!(name, "cursor"),
        _ => panic!("the call was bound"),
    }
    let read = registry.call(&engine_state, &mut stack, "commandline", head(), &vec![], PipelineData::Empty);
    match read {
        Ok(PipelineData::Value(Value::String { val, .. })) => assert_eq!(val, ""),
        _ => panic!("the buffer was not read"),
    }
    assert!(registry.get_decl(0).is_some());
    assert!(registry.get_decl(1).is_none());
}

struct Echo;

impl shell_core::command::Command for Echo {
    fn name(&self) -> &str {
        "echo"
    }

    fn signature(&self) -> shell_core::signature::Signature {
        shell_core::signature::Signature::build("echo").rest(
            "rest",
            shell_core::signature::SyntaxShape::Any,
            "what to give back",
        )
    }

    fn usage(&self) -> &str {
        "Gives its arguments back."
    }

    fn search_terms(&self) -> Vec<&str> {
        vec![]
    }

    fn run(
        &self,
        _engine_state: &EngineState,
        _stack: &mut Stack,
        call: &shell_core::call::Call,
        _input: PipelineData,
    ) -> Result<PipelineData, ShellError> {
        Ok(PipelineData::Value(Value::List { vals: call.rest.clone(), span: call.head }))
    }
}

#[test]
fn a_command_of_the_user_runs_like_a_built_in_one() {
    let (mut registry, mut engine_state, mut stack) = shell();
    let id = registry.add_decl(Box::new(Echo));
    let mut user = Overlay::new("user", 1);
    user.add_decl("echo", id);
    user.add_decl("commandline", id);
    let overlay = engine_state.add_overlay(user);
    stack.activate_overlay(overlay);
    let args = vec![text("a"), text("b")];
    match registry.call(&engine_state, &mut stack, "echo", head(), &args, PipelineData::Empty) {
        Ok(PipelineData::Value(Value::List { vals, span })) => {
            assert_eq!(vals.len(), 2);
            assert_eq!(span, head());
        }
        _ => panic!("the command did not run"),
    }
    // the overlay of the user hides the built-in command of the same name
    match registry.call(&engine_state, &mut stack, "commandline", head(), &args, PipelineData::Empty) {
        Ok(PipelineData::Value(Value::List { vals, .. })) => assert_eq!(vals.len(), 2),
        _ => panic!("the built-in command ran"),
    }
    stack.deactivate_overlay(overlay);
    match registry.call(&engine_state, &mut stack, "commandline", head(), &vec![], PipelineData::Empty) {
        Ok(PipelineData::Value(Value::String { val, .. })) => assert_eq!(val, ""),
        _ => panic!("the built-in command did not run"),
    }
}
