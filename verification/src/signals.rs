//! The cancellation signal that streaming work polls.

use vstd::prelude::*;
use std::sync::atomic::AtomicBool;
use std::sync::Arc;

verus! {

/// A handle on the shared cancellation flag. A handle without a flag
/// never reports cancellation.
pub struct Signals {
    flag: Option<Arc<AtomicBool>>,
}

impl Signals {
    /// Whether this handle holds a flag, so that cancellation can reach it.
    pub closed spec fn can_cancel(&self) -> bool {
        self.flag is Some
    }

    /// A handle that never reports cancellation.
    pub fn empty() -> (signals: Signals)
        ensures
            !signals.can_cancel(),
    {
        Signals { flag: None }
    }

    /// A handle on a new flag that is not set.
    pub fn new() -> (signals: Signals)
        ensures
            signals.can_cancel(),
    {
        Signals { flag: Some(Arc::new(AtomicBool::new(false))) }
    }

    /// Another handle on the same flag.
    pub fn share(&self) -> (signals: Signals)
        ensures
            signals.can_cancel() == self.can_cancel(),
    {
        match &self.flag {
            Some(flag) => Signals { flag: Some(flag.clone()) },
            None => Signals { flag: None },
        }
    }

    /// Sets the flag: every handle on it reports cancellation from now on.
    pub fn trigger(&self) {
        match &self.flag {
            Some(flag) => {
                flag.store(true, core::sync::atomic::Ordering::Relaxed);
            },
            None => {},
        }
    }

    /// Whether the flag is set. The flag is shared, so two reads may differ;
    /// a handle without a flag reads `false`.
    pub fn cancelled(&self) -> (set: bool)
        ensures
            set ==> self.can_cancel(),
    {
        match &self.flag {
            Some(flag) => flag.load(core::sync::atomic::Ordering::Relaxed),
            None => false,
        }
    }
}

} // verus!
