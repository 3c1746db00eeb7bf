//! What the whole process shares: the overlays, the environment, and the
//! line buffer behind its lock.

use vstd::prelude::*;
use vstd::rwlock::RwLock;
use vstd::rwlock::RwLockPredicate;
use crate::bindings::bind_value;
use crate::bindings::lookup;
use crate::bindings::lookup_value;
use crate::bindings::with_binding;
use crate::overlay::Overlay;
use crate::overlay::OverlayView;
use crate::repl_state::ReplState;
use crate::signals::Signals;
use crate::stack::overlays_view;
use crate::stack::Stack;
use crate::value::bindings_view;
use crate::value::opt_value_view;
use crate::value::Value;
use crate::value::ValueView;

verus! {

/// What the lock of the line buffer keeps true of the buffer: its cursor
/// stands inside the text or at its end, between two characters.
pub struct ReplStateInv;

impl RwLockPredicate<ReplState> for ReplStateInv {
    open spec fn inv(self, v: ReplState) -> bool {
        v@.wf()
    }
}

/// The state that every command of the process sees. Overlays and
/// environment change through `&mut`; the line buffer has a lock of its
/// own, so that commands that hold only `&` can read and edit it.
pub struct EngineState {
    pub overlays: Vec<Overlay>,
    pub env_vars: Vec<(String, Value)>,
    pub repl_state: RwLock<ReplState, ReplStateInv>,
    pub signals: Signals,
}

impl EngineState {
    /// A state without overlays or environment, with an empty
    /// line buffer and a cancellation flag that is not set.
    pub fn new() -> (engine_state: EngineState)
        ensures
            overlays_view(engine_state.overlays) == Seq::<OverlayView>::empty(),
            bindings_view(engine_state.env_vars) == Seq::<
                (Seq<char>, ValueView),
            >::empty(),
            engine_state.signals.can_cancel(),
    {
        let engine_state = EngineState {
            overlays: Vec::new(),
            env_vars: Vec::new(),
            repl_state: RwLock::new(ReplState::new(), Ghost(ReplStateInv)),
            signals: Signals::new(),
        };
        assert(overlays_view(engine_state.overlays) =~= Seq::empty());
        assert(bindings_view(engine_state.env_vars) =~= Seq::empty());
        engine_state
    }

    /// Registers an overlay and gives the id under which a stack switches
    /// it on and off.
    pub fn add_overlay(&mut self, overlay: Overlay) -> (overlay_id: usize)
        ensures
            overlay_id == old(self).overlays.len(),
            overlays_view(final(self).overlays) == overlays_view(old(self).overlays).push(
                overlay@,
            ),
            final(self).env_vars == old(self).env_vars,
    {
        let overlay_id = self.overlays.len();
        self.overlays.push(overlay);
        assert(overlays_view(self.overlays) =~= overlays_view(old(self).overlays).push(
            overlay@,
        ));
        overlay_id
    }

    /// The id of the command `name`, as the overlays that `stack` has
    /// switched on declare it.
    pub fn find_decl(&self, stack: &Stack, name: &str) -> (decl_id: Option<usize>)
        ensures
            decl_id == stack@.find_decl(overlays_view(self.overlays), name@),
    {
        stack.find_decl(&self.overlays, name)
    }

    /// Sets the environment variable `name`.
    pub fn add_env_var(&mut self, name: &str, value: Value)
        ensures
            bindings_view(final(self).env_vars) == with_binding(
                bindings_view(old(self).env_vars),
                name@,
                value@,
            ),
            final(self).overlays == old(self).overlays,
    {
        bind_value(&mut self.env_vars, name, value);
    }

    /// The value of the environment variable `name`.
    pub fn get_env_var(&self, name: &str) -> (value: Option<Value>)
        ensures
            opt_value_view(value) == lookup(bindings_view(self.env_vars), name@),
    {
        lookup_value(&self.env_vars, name)
    }
}

} // verus!
