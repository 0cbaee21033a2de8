//! Process-wide run state: the mutually exclusive running mode, set once
//! per run before any evaluation begins, and the registry of outstanding
//! asynchronous effects. The process may exit only once that registry has
//! drained; the host polls for that instead of terminating right after
//! the entry call returns.

use vstd::prelude::*;

verus! {

/// The three mutually exclusive running modes.
#[derive(Clone, Copy, PartialEq, Eq, Structural)]
pub enum CliRunningMode {
    Eval,
    Js,
    Ir,
}

/// The run's mode and its count of outstanding asynchronous effects.
pub struct EffectsState {
    mode: CliRunningMode,
    pending: u64,
}

impl EffectsState {
    /// The current running mode.
    pub closed spec fn mode_of(&self) -> CliRunningMode {
        self.mode
    }

    /// How many asynchronous effects are outstanding.
    pub closed spec fn pending_of(&self) -> nat {
        self.pending as nat
    }

    /// A fresh state: direct interpretation, nothing outstanding.
    pub fn init_effects_states() -> (r: EffectsState)
        ensures
            r.mode_of() == CliRunningMode::Eval,
            r.pending_of() == 0,
    {
        EffectsState { mode: CliRunningMode::Eval, pending: 0 }
    }

    /// Selects the running mode for this run; outstanding effects are
    /// untouched.
    pub fn modify_cli_running_mode(&mut self, mode: CliRunningMode)
        ensures
            final(self).mode_of() == mode,
            final(self).pending_of() == old(self).pending_of(),
    {
        self.mode = mode;
    }

    /// The current running mode.
    pub fn running_mode(&self) -> (r: CliRunningMode)
        ensures
            r == self.mode_of(),
    {
        self.mode
    }

    /// Registers one scheduled asynchronous effect.
    pub fn track_async_task(&mut self)
        requires
            old(self).pending_of() < 0xffff_ffff_ffff_ffff,
        ensures
            final(self).pending_of() == old(self).pending_of() + 1,
            final(self).mode_of() == old(self).mode_of(),
    {
        self.pending = self.pending + 1;
    }

    /// Marks one scheduled asynchronous effect as finished.
    pub fn mark_async_task_done(&mut self)
        requires
            old(self).pending_of() > 0,
        ensures
            final(self).pending_of() == old(self).pending_of() - 1,
            final(self).mode_of() == old(self).mode_of(),
    {
        self.pending = self.pending - 1;
    }

    /// Whether the process may exit: true exactly when every registered
    /// effect has finished.
    pub fn exit_when_cleared(&self) -> (r: bool)
        ensures
            r == (self.pending_of() == 0),
    {
        self.pending == 0
    }
}

} // verus!
