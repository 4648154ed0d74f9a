//! The shared lifecycle record of the supervised backend: which port
//! it was given and what kind of process reference is held for it.
//!
//! Exactly one record exists per application run. The launcher fills
//! it, every proxy or stream call reads it, and the shutdown sequencer
//! clears it. Callers keep their critical sections to a value copy or
//! replace around these operations; nothing here blocks.

use vstd::prelude::*;
use crate::errors::BackendError;

verus! {

/// How the backend is launched: from the source tree during
/// development, or as a packaged companion executable in production.
#[derive(Clone, Copy, PartialEq, Eq, Structural, Debug)]
pub enum LaunchMode {
    Development,
    Production,
}

/// The capability class of the recorded process reference. A direct
/// child is owned here and must be reaped (waited on) after a kill; a
/// managed sidecar is reaped by its supervising runtime, so a kill
/// alone suffices.
#[derive(Clone, Copy, PartialEq, Eq, Structural, Debug)]
pub enum ProcessKind {
    DirectChild,
    ManagedSidecar,
}

impl ProcessKind {
    /// True when a kill must be followed by a wait for exit.
    pub fn needs_wait(&self) -> (r: bool)
        ensures
            r == (*self is DirectChild),
    {
        match self {
            ProcessKind::DirectChild => true,
            ProcessKind::ManagedSidecar => false,
        }
    }
}

/// The process kind that each launch mode produces: a development
/// launch spawns a direct child, a production launch a sidecar.
pub fn kind_for_mode(mode: LaunchMode) -> (r: ProcessKind)
    ensures
        r == (match mode {
            LaunchMode::Development => ProcessKind::DirectChild,
            LaunchMode::Production => ProcessKind::ManagedSidecar,
        }),
{
    match mode {
        LaunchMode::Development => ProcessKind::DirectChild,
        LaunchMode::Production => ProcessKind::ManagedSidecar,
    }
}

/// The lifecycle record: the backend's port once allocated, and the
/// kind of process reference still held. Created empty at application
/// start.
#[derive(Clone, Copy, PartialEq, Eq, Structural, Debug)]
pub struct BackendHandle {
    pub port: Option<u16>,
    pub process: Option<ProcessKind>,
}

impl BackendHandle {
    /// The empty record: no port, no process.
    pub fn new() -> (h: BackendHandle)
        ensures
            h.port is None,
            h.process is None,
    {
        BackendHandle { port: None, process: None }
    }

    /// Records the allocated port. The port is assigned at most once
    /// between a launch and the following shutdown, so the slot must
    /// be empty.
    pub fn record_port(&mut self, port: u16)
        requires
            old(self).port is None,
        ensures
            final(self).port == Some(port),
            final(self).process == old(self).process,
    {
        self.port = Some(port);
    }

    /// Records the spawned process, written immediately after a
    /// successful spawn — before readiness is confirmed — so a
    /// concurrent shutdown can still locate and kill it.
    pub fn record_process(&mut self, kind: ProcessKind)
        requires
            old(self).process is None,
        ensures
            final(self).process == Some(kind),
            final(self).port == old(self).port,
    {
        self.process = Some(kind);
    }

    /// Removes and returns the process reference, leaving the port.
    pub fn take_process(&mut self) -> (r: Option<ProcessKind>)
        ensures
            r == old(self).process,
            final(self).process is None,
            final(self).port == old(self).port,
    {
        let r = self.process;
        self.process = None;
        r
    }

    /// Clears the port, the last step of a shutdown.
    pub fn clear_port(&mut self)
        ensures
            final(self).port is None,
            final(self).process == old(self).process,
    {
        self.port = None;
    }
}

/// Classifies the outcome of a port pick: a port, or the failure that
/// stands for "no free port exists".
pub fn port_or_error(picked: Option<u16>) -> (r: Result<u16, BackendError>)
    ensures
        r == (match picked {
            Some(p) => Ok::<u16, BackendError>(p),
            None => Err::<u16, BackendError>(BackendError::ResourceExhausted),
        }),
{
    match picked {
        Some(p) => Ok(p),
        None => Err(BackendError::ResourceExhausted),
    }
}

/// Relies on portpicker::pick_unused_port: probes random and then
/// OS-assigned local ports and returns one that was free on TCP and
/// UDP at probe time, or `None` when ten tries of each failed. The
/// result depends on the machine's state at the call, so nothing is
/// promised of its value.
#[verifier::external_body]
fn pick_unused_port() -> (r: Option<u16>) {
    portpicker::pick_unused_port()
}

/// Picks an unused local TCP port for the backend. Fails with
/// `ResourceExhausted` exactly when the picker found no free port.
pub fn allocate_port() -> (r: Result<u16, BackendError>)
    ensures
        r matches Err(e) ==> e is ResourceExhausted,
{
    port_or_error(pick_unused_port())
}

/// One mutation of the lifecycle record, as the model of who may
/// write it: the launcher records, the shutdown sequencer clears.
pub enum HandleOp {
    RecordPort(u16),
    RecordProcess(ProcessKind),
    TakeProcess,
    ClearPort,
}

/// The record after `op`. A record of an occupied slot leaves the
/// record unchanged: the operations above refuse it.
pub open spec fn apply_op(h: BackendHandle, op: HandleOp) -> BackendHandle {
    match op {
        HandleOp::RecordPort(p) => if h.port is None {
            BackendHandle { port: Some(p), ..h }
        } else {
            h
        },
        HandleOp::RecordProcess(k) => if h.process is None {
            BackendHandle { process: Some(k), ..h }
        } else {
            h
        },
        HandleOp::TakeProcess => BackendHandle { process: None, ..h },
        HandleOp::ClearPort => BackendHandle { port: None, ..h },
    }
}

/// The record after a sequence of mutations, first to last.
pub open spec fn apply_ops(h: BackendHandle, ops: Seq<HandleOp>) -> BackendHandle
    decreases ops.len(),
{
    if ops.len() == 0 {
        h
    } else {
        apply_ops(apply_op(h, ops[0]), ops.skip(1))
    }
}

/// Law: once a launch has assigned the port, no sequence of record
/// or process-clearing operations changes it; only the shutdown
/// step that clears the port does. The port is therefore assigned at
/// most once between a launch and the following shutdown.
pub proof fn lemma_port_stable_until_shutdown(h: BackendHandle, ops: Seq<HandleOp>, p: u16)
    requires
        h.port == Some(p),
        forall|i: int| 0 <= i < ops.len() ==> !(#[trigger] ops[i] is ClearPort),
    ensures
        apply_ops(h, ops).port == Some(p),
    decreases ops.len(),
{
    if ops.len() > 0 {
        let h1 = apply_op(h, ops[0]);
        assert(h1.port == Some(p));
        assert(forall|i: int| 0 <= i < ops.skip(1).len() ==> !(#[trigger] ops.skip(1)[i]
            is ClearPort));
        lemma_port_stable_until_shutdown(h1, ops.skip(1), p);
    }
}

} // verus!
