use shell_core::capture_block::Block;
use shell_core::engine_state::EngineState;
use shell_core::error::ErrorKind;
use shell_core::error::ShellError;
use shell_core::overlay::Overlay;
use shell_core::span::Span;
use shell_core::stack::Stack;
use shell_core::capture_block::CaptureBlock;
use shell_core::value::Value;

fn at() -> Span {
    Span::new(3, 4, 1)
}

fn num(val: i64) -> Value {
    Value::Int { val, span: at() }
}

fn get(stack: &Stack, overlays: &Vec<Overlay>, name: &str) -> Option<i64> {
    match stack.get_var(overlays, name, at()) {
        Ok(Value::Int { val, .. }) => Some(val),
        Ok(_) => panic!("no integer"),
        Err(ShellError::VariableNotFound { name: missing, span }) => {
            assert_eq!(missing, name);
            assert_eq!(span, at());
            None
        }
        Err(_) => panic!("another failure"),
    }
}

#[test]
fn a_variable_of_a_frame_is_gone_when_the_frame_is_closed() {
    let none: Vec<Overlay> = Vec::new();
    let mut stack = Stack::new();
    assert_eq!(stack.depth(), 1);
    stack.push_frame();
    assert_eq!(stack.depth(), 2);
    stack.add_var("inner", num(5));
    assert_eq!(get(&stack, &none, "inner"), Some(5));
    assert!(stack.pop_frame());
    assert_eq!(stack.depth(), 1);
    assert_eq!(get(&stack, &none, "inner"), None);
    match stack.get_var(&none, "inner", at()) {
        Err(e) => assert_eq!(e.kind(), ErrorKind::VariableResolution),
        Ok(_) => panic!("the variable is still there"),
    }
}

#[test]
fn a_variable_of_an_outer_frame_stays_visible() {
    let none: Vec<Overlay> = Vec::new();
    let mut stack = Stack::new();
    stack.add_var("outer", num(1));
    stack.push_frame();
    stack.add_var("other", num(2));
    assert_eq!(get(&stack, &none, "outer"), Some(1));
    assert!(stack.pop_frame());
    assert_eq!(get(&stack, &none, "outer"), Some(1));
    assert_eq!(get(&stack, &none, "other"), None);
}

#[test]
fn an_inner_binding_shadows_an_outer_one_until_its_frame_is_closed() {
    let none: Vec<Overlay> = Vec::new();
    let mut stack = Stack::new();
    stack.add_var("x", num(1));
    stack.push_frame();
    stack.add_var("x", num(2));
    assert_eq!(get(&stack, &none, "x"), Some(2));
    stack.push_frame();
    assert_eq!(get(&stack, &none, "x"), Some(2));
    assert!(stack.pop_frame());
    assert!(stack.pop_frame());
    assert_eq!(get(&stack, &none, "x"), Some(1));
}

#[test]
fn the_outermost_frame_is_never_closed() {
    let none: Vec<Overlay> = Vec::new();
    let mut stack = Stack::new();
    stack.add_var("x", num(1));
    assert!(!stack.pop_frame());
    assert_eq!(stack.depth(), 1);
    assert_eq!(get(&stack, &none, "x"), Some(1));
}

#[test]
fn binding_a_name_again_in_one_frame_replaces_its_value() {
    let none: Vec<Overlay> = Vec::new();
    let mut stack = Stack::new();
    stack.add_var("x", num(1));
    stack.add_var("y", num(10));
    stack.add_var("x", num(2));
    assert_eq!(get(&stack, &none, "x"), Some(2));
    assert_eq!(get(&stack, &none, "y"), Some(10));
}

#[test]
fn set_var_changes_only_what_the_innermost_frame_binds() {
    let none: Vec<Overlay> = Vec::new();
    let mut stack = Stack::new();
    stack.add_var("x", num(1));
    assert!(stack.set_var("x", num(2), at()).is_ok());
    assert_eq!(get(&stack, &none, "x"), Some(2));
    stack.push_frame();
    match stack.set_var("x", num(3), at()) {
        Err(ShellError::VariableNotFound { name, span }) => {
            assert_eq!(name, "x");
            assert_eq!(span, at());
        }
        _ => panic!("the outer variable was changed"),
    }
    assert_eq!(get(&stack, &none, "x"), Some(2));
}

#[test]
fn a_closure_sees_the_value_that_its_variable_had_when_it_was_made() {
    let none: Vec<Overlay> = Vec::new();
    let mut stack = Stack::new();
    stack.add_var("x", num(1));
    let block = Block { block_id: 4, free_vars: vec!["x".to_string(), "later".to_string()] };
    let closure = CaptureBlock::new(&block, &stack, &none);
    assert_eq!(closure.block_id, 4);
    assert_eq!(closure.captures.len(), 1);
    assert_eq!(closure.captures[0].0, "x");
    assert!(stack.set_var("x", num(2), at()).is_ok());
    stack.add_var("later", num(7));
    assert_eq!(get(&stack, &none, "x"), Some(2));
    match closure.resolve(&stack, &none, "x", at()) {
        Ok(Value::Int { val, .. }) => assert_eq!(val, 1),
        _ => panic!("the closure does not know the variable"),
    }
    // what was not there to capture is looked up when the closure runs
    match closure.resolve(&stack, &none, "later", at()) {
        Ok(Value::Int { val, .. }) => assert_eq!(val, 7),
        _ => panic!("the closure does not fall back to the stack"),
    }
    match closure.resolve(&stack, &none, "never", at()) {
        Err(e) => assert_eq!(e.kind(), ErrorKind::VariableResolution),
        Ok(_) => panic!("the closure knows a variable that nobody bound"),
    }
}

#[test]
fn a_closure_runs_on_another_stack_with_its_own_snapshot() {
    let none: Vec<Overlay> = Vec::new();
    let mut made_on = Stack::new();
    made_on.push_frame();
    made_on.add_var("x", Value::List { vals: vec![num(1), num(2)], span: at() });
    let block = Block { block_id: 0, free_vars: vec!["x".to_string()] };
    let closure = CaptureBlock::new(&block, &made_on, &none);
    assert!(made_on.pop_frame());
    let run_on = Stack::new();
    match closure.resolve(&run_on, &none, "x", at()) {
        Ok(Value::List { vals, .. }) => assert_eq!(vals.len(), 2),
        _ => panic!("the snapshot is gone"),
    }
}

fn two_overlays() -> (EngineState, usize, usize) {
    let mut engine_state = EngineState::new();
    let mut a = Overlay::new("a", 0);
    a.add_decl("foo", 10);
    a.add_decl("only-a", 11);
    a.add_var("answer", num(1));
    let mut b = Overlay::new("b", 0);
    b.add_decl("foo", 20);
    b.add_var("answer", num(2));
    b.add_var("extra", num(3));
    let a = engine_state.add_overlay(a);
    let b = engine_state.add_overlay(b);
    (engine_state, a, b)
}

#[test]
fn the_overlay_switched_on_last_decides_and_gives_way_when_switched_off() {
    let (engine_state, a, b) = two_overlays();
    let mut stack = Stack::new();
    assert_eq!(engine_state.find_decl(&stack, "foo"), None);
    stack.activate_overlay(a);
    assert_eq!(engine_state.find_decl(&stack, "foo"), Some(10));
    stack.activate_overlay(b);
    assert_eq!(stack.active_overlays(), vec![a, b]);
    assert_eq!(engine_state.find_decl(&stack, "foo"), Some(20));
    assert_eq!(engine_state.find_decl(&stack, "only-a"), Some(11));
    stack.deactivate_overlay(b);
    assert_eq!(stack.active_overlays(), vec![a]);
    assert_eq!(engine_state.find_decl(&stack, "foo"), Some(10));
    stack.deactivate_overlay(a);
    assert_eq!(engine_state.find_decl(&stack, "foo"), None);
}

#[test]
fn switching_an_active_overlay_on_again_makes_it_the_innermost() {
    let (engine_state, a, b) = two_overlays();
    let mut stack = Stack::new();
    stack.activate_overlay(a);
    stack.activate_overlay(b);
    stack.activate_overlay(a);
    assert_eq!(stack.active_overlays(), vec![b, a]);
    assert_eq!(stack.find_decl(&engine_state.overlays, "foo"), Some(10));
    stack.deactivate_overlay(7);
    assert_eq!(stack.active_overlays(), vec![b, a]);
}

#[test]
fn frames_are_asked_before_overlays() {
    let (engine_state, a, b) = two_overlays();
    let mut stack = Stack::new();
    stack.activate_overlay(a);
    stack.activate_overlay(b);
    assert_eq!(get(&stack, &engine_state.overlays, "answer"), Some(2));
    assert_eq!(get(&stack, &engine_state.overlays, "extra"), Some(3));
    stack.add_var("answer", num(42));
    stack.push_frame();
    assert_eq!(get(&stack, &engine_state.overlays, "answer"), Some(42));
    stack.deactivate_overlay(b);
    assert_eq!(get(&stack, &engine_state.overlays, "extra"), None);
    assert!(stack.pop_frame());
    assert_eq!(get(&stack, &engine_state.overlays, "answer"), Some(42));
}

#[test]
fn an_overlay_knows_what_it_declares() {
    let mut overlay = Overlay::new("tools", 3);
    assert_eq!(overlay.name, "tools");
    assert_eq!(overlay.generation, 3);
    assert_eq!(overlay.get_decl("foo"), None);
    overlay.add_decl("foo", 1);
    overlay.add_decl("bar", 2);
    overlay.add_decl("foo", 3);
    assert_eq!(overlay.get_decl("foo"), Some(3));
    assert_eq!(overlay.get_decl("bar"), Some(2));
    overlay.add_var("v", num(1));
    overlay.add_var("v", num(2));
    assert_eq!(overlay.vars.len(), 1);
    match overlay.get_var("v") {
        Some(Value::Int { val, .. }) => assert_eq!(val, 2),
        _ => panic!("no default value"),
    }
    assert!(overlay.get_var("w").is_none());
}

#[test]
fn the_environment_keeps_one_value_for_each_name() {
    let mut engine_state = EngineState::new();
    assert!(engine_state.get_env_var("PATH").is_none());
    engine_state.add_env_var("PATH", num(1));
    engine_state.add_env_var("HOME", num(2));
    engine_state.add_env_var("PATH", num(3));
    assert_eq!(engine_state.env_vars.len(), 2);
    match engine_state.get_env_var("PATH") {
        Some(Value::Int { val, .. }) => assert_eq!(val, 3),
        _ => panic!("no value"),
    }
}
