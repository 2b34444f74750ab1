//! Offsets for checking the eBPF sources alone, as `pahole` gave them on Linux
//! 6.19.9. Objects that are meant to run are compiled with the offsets of the
//! kernel they run on, and the sidecar beside them says which.

use vstd::prelude::*;

verus! {

pub const TASK_CGROUPS: usize = 3920;

pub const CSS_SET_DFL_CGRP: usize = 136;

pub const CGROUP_KN: usize = 256;

pub const KERNFS_NODE_ID: usize = 96;

pub const FILE_F_INODE: usize = 32;

pub const INODE_I_INO: usize = 64;

/// The binary's `file`, which recent kernels know as `executable`.
pub const BPRM_FILE: usize = 48;

/// The offsets are those of one kernel, and differ from struct to struct.
pub proof fn law_defaults_are_of_one_kernel()
    ensures
        TASK_CGROUPS == 3920,
        CSS_SET_DFL_CGRP == 136,
        CGROUP_KN == 256,
        KERNFS_NODE_ID == 96,
        FILE_F_INODE == 32,
        INODE_I_INO == 64,
        BPRM_FILE == 48,
{
}

} // verus!
