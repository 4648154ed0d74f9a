//! The shutdown sequencer: graceful signal, forced kill, OS-level
//! sweep — in that order, unconditionally.
//!
//! The plan is computed from the lifecycle record before any step
//! runs, and the record is cleared in the same operation, so a
//! concurrent caller finds it empty. The caller performs the steps in
//! order, ignoring every failure: one step's failure never blocks the
//! next, and shutdown never raises.

use vstd::prelude::*;
use crate::lifecycle::{BackendHandle, ProcessKind};

verus! {

/// Timeout of the graceful shutdown request, in milliseconds.
pub const GRACEFUL_TIMEOUT_MS: u32 = 3000;

/// The grace period slept after the graceful signal, in milliseconds.
pub const GRACE_SLEEP_MS: u32 = 1000;

/// One step of the shutdown sequence.
#[derive(Clone, Copy, PartialEq, Eq, Structural, Debug)]
pub enum ShutdownAction {
    /// Post the shutdown signal to the recorded port with a short
    /// timeout, ignoring any failure, then sleep the grace period.
    Graceful { port: u16 },
    /// Kill the recorded process; when the kind requires it, also
    /// wait for its exit. Failures are ignored.
    Kill { kind: ProcessKind },
    /// Terminate any process carrying the backend's executable name,
    /// ignoring errors — guards against orphans of a prior crashed
    /// run that no recorded reference can reach.
    Sweep,
}

/// The ordered plan for record `h`: the graceful signal when a port
/// is recorded, the kill when a process is recorded, and always the
/// sweep, last.
pub open spec fn spec_shutdown_plan(h: BackendHandle) -> Seq<ShutdownAction> {
    (match h.port {
        Some(p) => seq![ShutdownAction::Graceful { port: p }],
        None => Seq::empty(),
    }) + (match h.process {
        Some(k) => seq![ShutdownAction::Kill { kind: k }],
        None => Seq::empty(),
    }) + seq![ShutdownAction::Sweep]
}

/// Computes the shutdown plan and clears the record: the process
/// reference first, then the port. Idempotent: a second call finds
/// an empty record and plans only the sweep.
pub fn shutdown_plan(h: &mut BackendHandle) -> (plan: Vec<ShutdownAction>)
    ensures
        plan@ == spec_shutdown_plan(*old(h)),
        final(h).port is None,
        final(h).process is None,
{
    let mut plan: Vec<ShutdownAction> = Vec::new();
    match h.port {
        Some(p) => plan.push(ShutdownAction::Graceful { port: p }),
        None => {},
    }
    match h.take_process() {
        Some(k) => plan.push(ShutdownAction::Kill { kind: k }),
        None => {},
    }
    h.clear_port();
    plan.push(ShutdownAction::Sweep);
    proof {
        assert(plan@ =~= spec_shutdown_plan(*old(h)));
    }
    plan
}

/// Law: shutdown with no backend ever started makes no network and
/// no process call — the plan is the sweep alone.
pub proof fn lemma_shutdown_plan_empty(h: BackendHandle)
    requires
        h.port is None,
        h.process is None,
    ensures
        spec_shutdown_plan(h) == seq![ShutdownAction::Sweep],
{
    assert(spec_shutdown_plan(h) =~= seq![ShutdownAction::Sweep]);
}

/// Law: the graceful signal always stands before the kill, the kill
/// is planned exactly when a process is recorded, and the sweep is
/// always last. The plan is fixed before any step runs and each
/// step's failure is ignored, so a failing or timed-out graceful
/// call cannot remove or reorder the kill.
pub proof fn lemma_shutdown_order(h: BackendHandle)
    ensures
        spec_shutdown_plan(h) == (match (h.port, h.process) {
            (None, None) => seq![ShutdownAction::Sweep],
            (Some(p), None) => seq![ShutdownAction::Graceful { port: p }, ShutdownAction::Sweep],
            (None, Some(k)) => seq![ShutdownAction::Kill { kind: k }, ShutdownAction::Sweep],
            (Some(p), Some(k)) => seq![
                ShutdownAction::Graceful { port: p },
                ShutdownAction::Kill { kind: k },
                ShutdownAction::Sweep,
            ],
        }),
{
    match (h.port, h.process) {
        (None, None) => {
            assert(spec_shutdown_plan(h) =~= seq![ShutdownAction::Sweep]);
        },
        (Some(p), None) => {
            assert(spec_shutdown_plan(h) =~= seq![
                ShutdownAction::Graceful { port: p },
                ShutdownAction::Sweep,
            ]);
        },
        (None, Some(k)) => {
            assert(spec_shutdown_plan(h) =~= seq![
                ShutdownAction::Kill { kind: k },
                ShutdownAction::Sweep,
            ]);
        },
        (Some(p), Some(k)) => {
            assert(spec_shutdown_plan(h) =~= seq![
                ShutdownAction::Graceful { port: p },
                ShutdownAction::Kill { kind: k },
                ShutdownAction::Sweep,
            ]);
        },
    }
}

} // verus!
