//! Failure taxonomy of the bridge, and the rendering of each failure
//! as a descriptive message.
//!
//! Startup failures (`ResourceExhausted`, `LaunchFailure`,
//! `StartupTimeout`) are reported once by the caller that launches the
//! backend; per-call failures (`NotReady`, `Transport`, `Upstream`)
//! return synchronously from the proxy. Shutdown never raises.

use vstd::prelude::*;
use vstd::string::StringSliceAdditionalSpecFns;
use crate::text::{dec_u16, spec_dec};

verus! {

/// One failure of the bridge. `Transport` and `LaunchFailure` carry
/// the underlying error text; `Upstream` carries the non-2xx status
/// and the response body.
#[derive(Debug, PartialEq, Eq)]
pub enum BackendError {
    /// No free local port could be found.
    ResourceExhausted,
    /// The backend process could not be spawned.
    LaunchFailure(Vec<u8>),
    /// The readiness poll exhausted its attempts.
    StartupTimeout,
    /// A call was made before a port was recorded.
    NotReady,
    /// The request failed below HTTP: refused, reset, or timed out.
    Transport(Vec<u8>),
    /// The backend answered with a non-2xx status.
    Upstream { status: u16, body: Vec<u8> },
}

/// The rendered message of `e`, byte for byte.
pub open spec fn spec_message(e: BackendError) -> Seq<u8> {
    match e {
        BackendError::ResourceExhausted => "No free port found".spec_bytes(),
        BackendError::LaunchFailure(m) => "Failed to spawn backend: ".spec_bytes() + m@,
        BackendError::StartupTimeout => "Backend failed to start in time".spec_bytes(),
        BackendError::NotReady => "Backend not ready".spec_bytes(),
        BackendError::Transport(m) => m@,
        BackendError::Upstream { status, body } => "Request failed with status ".spec_bytes()
            + spec_dec(status as nat) + ": ".spec_bytes() + body@,
    }
}

impl BackendError {
    /// Renders the failure as a descriptive message.
    pub fn message(&self) -> (r: Vec<u8>)
        ensures
            r@ == spec_message(*self),
    {
        match self {
            BackendError::ResourceExhausted => {
                vstd::slice::slice_to_vec("No free port found".as_bytes())
            },
            BackendError::LaunchFailure(m) => {
                let mut r = vstd::slice::slice_to_vec("Failed to spawn backend: ".as_bytes());
                crate::text::push_all(&mut r, m.as_slice());
                r
            },
            BackendError::StartupTimeout => {
                vstd::slice::slice_to_vec("Backend failed to start in time".as_bytes())
            },
            BackendError::NotReady => vstd::slice::slice_to_vec("Backend not ready".as_bytes()),
            BackendError::Transport(m) => vstd::slice::slice_to_vec(m.as_slice()),
            BackendError::Upstream { status, body } => {
                let mut r = vstd::slice::slice_to_vec("Request failed with status ".as_bytes());
                let digits = dec_u16(*status);
                crate::text::push_all(&mut r, digits.as_slice());
                crate::text::push_all(&mut r, ": ".as_bytes());
                crate::text::push_all(&mut r, body.as_slice());
                r
            },
        }
    }
}

} // verus!
