//! The sandbox service, which is a contract still without a runtime.

use vstd::prelude::*;

use crate::status;
use crate::status::{Code, Status};

verus! {

/// The sandbox service.
#[derive(Clone, Copy, Debug)]
pub struct SandboxServiceImpl;

impl SandboxServiceImpl {
    /// A service.
    pub fn new() -> (res: Self)
        ensures
            res == SandboxServiceImpl,
    {
        SandboxServiceImpl
    }

    /// Refuses to run a sandbox: no request is answered as if it had been run.
    pub fn run_sandbox(&self) -> (res: Status)
        ensures
            res@ == status::status(
                Code::Unimplemented,
                "sandbox execution is not implemented yet; use zone/run/exec commands or see docs/sandbox-runtime.md"@,
            ),
            refuses_to_run(res@),
    {
        Status::new(
            Code::Unimplemented,
            "sandbox execution is not implemented yet; use zone/run/exec commands or see docs/sandbox-runtime.md".to_owned(),
        )
    }
}

impl Default for SandboxServiceImpl {
    fn default() -> (res: Self)
        ensures
            res == SandboxServiceImpl,
    {
        SandboxServiceImpl::new()
    }
}

/// The status that refuses to run a sandbox.
pub open spec fn refuses_to_run(s: status::StatusText) -> bool {
    s == status::status(
        Code::Unimplemented,
        "sandbox execution is not implemented yet; use zone/run/exec commands or see docs/sandbox-runtime.md"@,
    )
}

/// A sandbox is refused as something that is not there yet, never as a success or as a failure of
/// the task, in words that name what to use in its place.
pub proof fn law_sandbox_is_not_there_yet(s: status::StatusText)
    requires
        refuses_to_run(s),
    ensures
        s.code is Unimplemented,
        s.message
            == "sandbox execution is not implemented yet; use zone/run/exec commands or see docs/sandbox-runtime.md"@,
{
}

} // verus!
