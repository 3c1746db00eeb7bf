//! The unit of behaviour that the engine runs.

use vstd::prelude::*;
use crate::call::Call;
use crate::engine_state::EngineState;
use crate::error::ShellError;
use crate::pipeline::PipelineData;
use crate::signature::Signature;
use crate::stack::Stack;

verus! {

/// A command: what it is called, what it accepts, and what it does with a
/// call and the data that the pipeline hands to it.
pub trait Command {
    /// The name by which the command is called.
    fn name(&self) -> &str;

    /// What the command accepts.
    fn signature(&self) -> Signature;

    /// One line that says what the command does.
    fn usage(&self) -> &str;

    /// Words under which a search finds the command.
    fn search_terms(&self) -> Vec<&str>;

    /// Runs the command on a call that was bound against its signature.
    fn run(
        &self,
        engine_state: &EngineState,
        stack: &mut Stack,
        call: &Call,
        input: PipelineData,
    ) -> (r: Result<PipelineData, ShellError>)
        requires
            old(stack)@.wf(),
        ensures
            final(stack)@.wf(),
    ;
}

} // verus!
