//! The names of events. A name that has been released keeps its meaning.

use vstd::prelude::*;

verus! {

pub const ZONE_FILE_DENIED: &'static str = "zone.file.denied";

pub const ZONE_FILE_ALLOWED: &'static str = "zone.file.allowed";

pub const ZONE_EXEC_DENIED: &'static str = "zone.exec.denied";

pub const ZONE_PTRACE_DENIED: &'static str = "zone.ptrace.denied";

pub const ZONE_SIGNAL_DENIED: &'static str = "zone.signal.denied";

pub const ZONE_MOUNT_DENIED: &'static str = "zone.mount.denied";

pub const ZONE_IPC_DENIED: &'static str = "zone.ipc.denied";

pub const ZONE_ESCAPE_CGROUP_ATTACH: &'static str = "zone.escape.cgroup_attach";

pub const ZONE_NET_DENIED: &'static str = "zone.net.denied";

pub const ZONE_PROC_FILTERED: &'static str = "zone.proc.filtered";

pub const ZONE_CREATED: &'static str = "zone.created";

pub const ZONE_STARTED: &'static str = "zone.started";

pub const ZONE_STOPPED: &'static str = "zone.stopped";

pub const ZONE_DELETED: &'static str = "zone.deleted";

pub const ZONE_VERIFY_PASSED: &'static str = "zone.verify.passed";

pub const ZONE_VERIFY_FAILED: &'static str = "zone.verify.failed";

pub const POLICY_LOADED: &'static str = "policy.loaded";

pub const POLICY_REJECTED: &'static str = "policy.rejected";

pub const CONTAINER_STARTED: &'static str = "container.started";

pub const CONTAINER_EXITED: &'static str = "container.exited";

pub const IMAGE_PULLED: &'static str = "image.pulled";

pub const TASK_STARTED: &'static str = "task.started";

pub const TASK_SUCCEEDED: &'static str = "task.succeeded";

pub const TASK_FAILED: &'static str = "task.failed";

pub const RINGBUF_DROP: &'static str = "ringbuf.drop";

pub const PIPELINE_SHED: &'static str = "pipeline.shed";

/// The names are released, and stay what they are.
pub proof fn law_names_are_released()
    ensures
        ZONE_FILE_DENIED@ == "zone.file.denied"@,
        ZONE_FILE_ALLOWED@ == "zone.file.allowed"@,
        ZONE_EXEC_DENIED@ == "zone.exec.denied"@,
        ZONE_PTRACE_DENIED@ == "zone.ptrace.denied"@,
        ZONE_SIGNAL_DENIED@ == "zone.signal.denied"@,
        ZONE_MOUNT_DENIED@ == "zone.mount.denied"@,
        ZONE_IPC_DENIED@ == "zone.ipc.denied"@,
        ZONE_ESCAPE_CGROUP_ATTACH@ == "zone.escape.cgroup_attach"@,
        ZONE_NET_DENIED@ == "zone.net.denied"@,
        ZONE_PROC_FILTERED@ == "zone.proc.filtered"@,
        ZONE_CREATED@ == "zone.created"@,
        ZONE_STARTED@ == "zone.started"@,
        ZONE_STOPPED@ == "zone.stopped"@,
        ZONE_DELETED@ == "zone.deleted"@,
        ZONE_VERIFY_PASSED@ == "zone.verify.passed"@,
        ZONE_VERIFY_FAILED@ == "zone.verify.failed"@,
        POLICY_LOADED@ == "policy.loaded"@,
        POLICY_REJECTED@ == "policy.rejected"@,
        CONTAINER_STARTED@ == "container.started"@,
        CONTAINER_EXITED@ == "container.exited"@,
        IMAGE_PULLED@ == "image.pulled"@,
        TASK_STARTED@ == "task.started"@,
        TASK_SUCCEEDED@ == "task.succeeded"@,
        TASK_FAILED@ == "task.failed"@,
        RINGBUF_DROP@ == "ringbuf.drop"@,
        PIPELINE_SHED@ == "pipeline.shed"@,
{
}

} // verus!
