//! The commands that the process knows, each under an id.

use vstd::prelude::*;
use crate::call::args_view;
use crate::call::bind_spec;
use crate::call::Arg;
use crate::call::Call;
use crate::command::Command;
use crate::engine_state::EngineState;
use crate::error::ShellError;
use crate::error::ShellErrorView;
use crate::pipeline::PipelineData;
use crate::signature::Signature;
use crate::span::Span;
use crate::stack::overlays_view;
use crate::stack::Stack;

verus! {

/// The commands that the process knows. An overlay declares a command by
/// the id that the registry gave it. The registry stands beside the engine
/// state, not in it: a command receives the engine state when it runs.
pub struct Registry {
    pub decls: Vec<Box<dyn Command>>,
}

/// The failure that says that no active overlay declares the command `name`.
pub open spec fn command_not_found(name: Seq<char>, span: Span) -> ShellErrorView {
    ShellErrorView::VariableNotFound { name, span }
}

impl Registry {
    /// A registry without commands.
    pub fn new() -> (registry: Registry)
        ensures
            registry.decls.len() == 0,
    {
        Registry { decls: Vec::new() }
    }

    /// Registers a command and gives the id under which the registry holds it.
    pub fn add_decl(&mut self, decl: Box<dyn Command>) -> (decl_id: usize)
        ensures
            decl_id == old(self).decls.len(),
            final(self).decls@ == old(self).decls@.push(decl),
    {
        let decl_id = self.decls.len();
        self.decls.push(decl);
        decl_id
    }

    /// Whether an id is one under which the registry holds a command.
    pub open spec fn holds(&self, decl_id: Option<usize>) -> bool {
        decl_id matches Some(id) && id < self.decls.len()
    }

    /// The command with the id `decl_id`, if the registry holds one.
    pub fn get_decl(&self, decl_id: usize) -> (decl: Option<&Box<dyn Command>>)
        ensures
            decl is Some <==> decl_id < self.decls.len(),
            decl matches Some(d) ==> *d == self.decls[decl_id as int],
    {
        if decl_id < self.decls.len() {
            Some(&self.decls[decl_id])
        } else {
            None
        }
    }

    /// Runs a command on the arguments as the caller wrote them, given the
    /// signature that the command declares. Arguments that do not bind
    /// against the signature fail before the command starts: the stack then
    /// stays as it was, and the failure is that of the binding.
    pub fn run_bound(
        decl: &Box<dyn Command>,
        sig: &Signature,
        engine_state: &EngineState,
        stack: &mut Stack,
        head: Span,
        args: &Vec<Arg>,
        input: PipelineData,
    ) -> (r: Result<PipelineData, ShellError>)
        requires
            old(stack)@.wf(),
        ensures
            final(stack)@.wf(),
            bind_spec(sig@, head, args_view(*args)) matches Err(failure) ==> final(stack)@ == old(
                stack,
            )@ && (r matches Err(e) && e@ == failure),
    {
        match Call::bind(sig, head, args) {
            Ok(call) => decl.run(engine_state, stack, &call, input),
            Err(e) => Err(e),
        }
    }

    /// Calls the command `name` with the arguments as the caller wrote
    /// them. The name is resolved through the overlays that the stack has
    /// switched on, and the arguments are bound against the signature that
    /// the command declares, as `run_bound` says. A name that resolves to
    /// no command fails before anything starts: the stack then stays as it
    /// was.
    pub fn call(
        &self,
        engine_state: &EngineState,
        stack: &mut Stack,
        name: &str,
        head: Span,
        args: &Vec<Arg>,
        input: PipelineData,
    ) -> (r: Result<PipelineData, ShellError>)
        requires
            old(stack)@.wf(),
        ensures
            final(stack)@.wf(),
            !self.holds(old(stack)@.find_decl(overlays_view(engine_state.overlays), name@))
                ==> final(stack)@ == old(stack)@ && (r matches Err(e) && e@ == command_not_found(
                name@,
                head,
            )),
    {
        let held = match engine_state.find_decl(stack, name) {
            Some(decl_id) => self.get_decl(decl_id),
            None => None,
        };
        match held {
            Some(decl) => {
                let sig = decl.signature();
                Registry::run_bound(decl, &sig, engine_state, stack, head, args, input)
            },
            None => Err(ShellError::VariableNotFound { name: String::from_str(name), span: head }),
        }
    }
}

} // verus!
