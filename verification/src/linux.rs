//! What the Linux backend decides: where its eBPF object is looked for, what its
//! programs can enforce, and how it answers for a zone.

use vstd::prelude::*;
use vstd::string::StringExecFns;

use crate::enforcement;
use crate::enforcement::{
    append_unsupported, first_unsupported_rule, hook_name, Capabilities, EnforcementPolicy,
    EnforcementStats, EnforcerError, Hook, HookSet, VerifyDiscrepancy, VerifyDiscrepancyKind,
    VerifyReport, ZoneEnforcement, ZoneId,
};
use crate::paths;
use crate::paths::{join_path, parent_exists, parent_of};
use crate::status::{ErrorKind, RauhaError};
use crate::text;

verus! {

/// Where the eBPF object is looked for: below the daemon's root, where packages
/// install it, and in the build tree that `manifest_dir` is part of.
pub open spec fn object_places(root: Seq<char>, manifest_dir: Seq<char>) -> Seq<Seq<char>> {
    let project = if paths::has_parent(manifest_dir) {
        paths::parent(manifest_dir)
    } else {
        "."@
    };
    seq![
        paths::join(root, "rauha-ebpf"@),
        "/usr/lib/rauha/rauha-ebpf"@,
        paths::join(project, "rauha-ebpf/target/bpfel-unknown-none/debug/rauha-ebpf"@),
        paths::join(project, "rauha-ebpf/target/bpfel-unknown-none/release/rauha-ebpf"@),
    ]
}

/// Where the eBPF object is looked for, in order.
pub fn ebpf_candidates(root: &str, manifest_dir: &str) -> (res: Vec<String>)
    ensures
        text::texts(res@) == object_places(root@, manifest_dir@),
{
    let project = if parent_exists(manifest_dir) {
        parent_of(manifest_dir)
    } else {
        ".".to_owned()
    };
    let mut out: Vec<String> = Vec::new();
    out.push(join_path(root, "rauha-ebpf"));
    out.push("/usr/lib/rauha/rauha-ebpf".to_owned());
    out.push(
        join_path(
            project.as_str(),
            "rauha-ebpf/target/bpfel-unknown-none/debug/rauha-ebpf",
        ),
    );
    out.push(
        join_path(
            project.as_str(),
            "rauha-ebpf/target/bpfel-unknown-none/release/rauha-ebpf",
        ),
    );
    assert(text::texts(out@) == object_places(root@, manifest_dir@));
    out
}

/// The first of the places that holds an object; `there` says which do.
pub open spec fn first_there(places: Seq<Seq<char>>, there: Seq<bool>) -> Option<Seq<char>>
    decreases places.len(),
{
    if places.len() == 0 || there.len() == 0 {
        None
    } else if there[0] {
        Some(places[0])
    } else {
        first_there(places.skip(1), there.skip(1))
    }
}

/// A failure of the eBPF side: how it failed, and what to do.
#[derive(Clone, Debug, PartialEq, Eq)]
pub struct EbpfFault {
    pub message: String,
    pub hint: String,
}

/// Whether a failure says this.
pub open spec fn says(fault: EbpfFault, message: Seq<char>, hint: Seq<char>) -> bool {
    fault.message@ == message && fault.hint@ == hint
}

fn ebpf_fault(message: String, hint: &str) -> (res: EbpfFault)
    ensures
        says(res, message@, hint@),
{
    EbpfFault { message, hint: hint.to_owned() }
}

/// The object to load: the first candidate that is there.
pub fn choose_object(candidates: &Vec<String>, there: &Vec<bool>) -> (res: Result<
    String,
    EbpfFault,
>)
    ensures
        match res {
            Ok(path) => first_there(text::texts(candidates@), there@) == Some(path@),
            Err(e) => first_there(text::texts(candidates@), there@) is None && says(
                e,
                "eBPF object not found in any known location"@,
                "run `cargo xtask build-ebpf` to compile eBPF programs"@,
            ),
        },
{
    let ghost all = text::texts(candidates@);
    let mut i: usize = 0;
    assert(all.skip(0) == all && there@.skip(0) == there@);
    while i < candidates.len() && i < there.len()
        invariant
            i <= candidates@.len(),
            i <= there@.len(),
            all == text::texts(candidates@),
            first_there(all, there@) == first_there(all.skip(i as int), there@.skip(i as int)),
        decreases candidates@.len() - i,
    {
        assert(all[i as int] == candidates@[i as int]@);
        if there[i] {
            return Ok(candidates[i].clone());
        }
        assert(all.skip(i as int).skip(1) == all.skip(i + 1));
        assert(there@.skip(i as int).skip(1) == there@.skip(i + 1));
        i = i + 1;
    }
    Err(
        ebpf_fault(
            "eBPF object not found in any known location".to_owned(),
            "run `cargo xtask build-ebpf` to compile eBPF programs",
        ),
    )
}

/// The failure for an object whose event ring buffer cannot be taken.
pub fn ring_buffer_fault(reason: &str) -> (res: EbpfFault)
    ensures
        says(
            res,
            "enforcement event ring buffer not available: "@ + reason@,
            "check the ENFORCEMENT_EVENTS ring buffer map was created"@,
        ),
        lacks_ring(res, reason@),
{
    let mut message = "enforcement event ring buffer not available: ".to_owned();
    message.append(reason);
    ebpf_fault(message, "check the ENFORCEMENT_EVENTS ring buffer map was created")
}

/// What is done with the loaded programs.
#[derive(Clone, Copy, Debug, PartialEq, Eq, Structural)]
pub enum Operation {
    SetZonePolicy,
    HotReloadPolicy,
    ApplyZoneEnforcement,
    AddZoneMember,
    RemoveZoneMember,
    RemoveZonePolicy,
    InsertInodes,
    RemoveInodes,
    AllowZoneComm,
    DenyZoneComm,
    HealthCheck,
    ReadCounters,
}

/// Where in its work an operation is when the programs are gone.
pub open spec fn operation_text(operation: Operation) -> Seq<char> {
    match operation {
        Operation::SetZonePolicy => "during policy enforcement"@,
        Operation::HotReloadPolicy => "during policy hot reload"@,
        Operation::ApplyZoneEnforcement => "during zone enforcement"@,
        Operation::AddZoneMember => "during zone membership"@,
        Operation::RemoveZoneMember => "during zone membership cleanup"@,
        Operation::RemoveZonePolicy => "during zone policy cleanup"@,
        Operation::InsertInodes => "during rootfs inode registration"@,
        Operation::RemoveInodes => "during rootfs inode cleanup"@,
        Operation::AllowZoneComm => "during allowed zone communication"@,
        Operation::DenyZoneComm => "during allowed zone communication cleanup"@,
        Operation::HealthCheck => "during health check"@,
        Operation::ReadCounters => "while reading counters"@,
    }
}

fn operation_label(operation: Operation) -> (res: &'static str)
    ensures
        res@ == operation_text(operation),
{
    match operation {
        Operation::SetZonePolicy => "during policy enforcement",
        Operation::HotReloadPolicy => "during policy hot reload",
        Operation::ApplyZoneEnforcement => "during zone enforcement",
        Operation::AddZoneMember => "during zone membership",
        Operation::RemoveZoneMember => "during zone membership cleanup",
        Operation::RemoveZonePolicy => "during zone policy cleanup",
        Operation::InsertInodes => "during rootfs inode registration",
        Operation::RemoveInodes => "during rootfs inode cleanup",
        Operation::AllowZoneComm => "during allowed zone communication",
        Operation::DenyZoneComm => "during allowed zone communication cleanup",
        Operation::HealthCheck => "during health check",
        Operation::ReadCounters => "while reading counters",
    }
}

/// The failure of an operation that finds no programs loaded.
pub fn unavailable(operation: Operation) -> (res: EbpfFault)
    ensures
        says(
            res,
            "eBPF manager not available "@ + operation_text(operation),
            "restart rauhad after restoring eBPF LSM support"@,
        ),
        finds_none(res, operation),
{
    let mut message = "eBPF manager not available ".to_owned();
    message.append(operation_label(operation));
    ebpf_fault(message, "restart rauhad after restoring eBPF LSM support")
}

/// What the backend finds where its programs are kept.
#[derive(Clone, Copy, Debug, PartialEq, Eq, Structural)]
pub enum Slot {
    /// The lock around them is poisoned.
    Poisoned,
    /// No programs.
    Vacant,
    /// The programs.
    Loaded,
}

/// Whether an error is the one for a poisoned lock.
pub open spec fn is_poisoned(e: EnforcerError) -> bool {
    e matches EnforcerError::Verifier(reason) && reason@ == "linux enforcer mutex poisoned"@
}

fn poisoned() -> (res: EnforcerError)
    ensures
        is_poisoned(res),
{
    EnforcerError::Verifier("linux enforcer mutex poisoned".to_owned())
}

/// Whether `load` has to load the programs.
pub fn needs_load(slot: Slot) -> (res: Result<bool, EnforcerError>)
    ensures
        match res {
            Ok(needed) => slot != Slot::Poisoned && needed == (slot == Slot::Vacant),
            Err(e) => slot == Slot::Poisoned && is_poisoned(e),
        },
{
    match slot {
        Slot::Poisoned => Err(poisoned()),
        Slot::Vacant => Ok(true),
        Slot::Loaded => Ok(false),
    }
}

/// Whether `shutdown` has programs to clean up.
pub fn needs_cleanup(slot: Slot) -> (res: Result<bool, EnforcerError>)
    ensures
        match res {
            Ok(needed) => slot != Slot::Poisoned && needed == (slot == Slot::Loaded),
            Err(e) => slot == Slot::Poisoned && is_poisoned(e),
        },
{
    match slot {
        Slot::Poisoned => Err(poisoned()),
        Slot::Vacant => Ok(false),
        Slot::Loaded => Ok(true),
    }
}

/// The answer to a zone's creation or deletion, for which nothing is done but to
/// see that the programs are there.
pub fn require_loaded(slot: Slot) -> (res: Result<(), EnforcerError>)
    ensures
        match res {
            Ok(_) => slot == Slot::Loaded,
            Err(e) => if slot == Slot::Poisoned {
                is_poisoned(e)
            } else {
                slot == Slot::Vacant && e is NotLoaded
            },
        },
{
    match slot {
        Slot::Poisoned => Err(poisoned()),
        Slot::Vacant => Err(EnforcerError::NotLoaded),
        Slot::Loaded => Ok(()),
    }
}

/// Whether capabilities are those of the Linux backend: everything, at every hook.
pub open spec fn can_all(caps: Capabilities) -> bool {
    &&& caps.kernel_enforcement
    &&& caps.event_stream
    &&& caps.counters
    &&& forall|hook: Hook| #[trigger] caps.hooks@.contains(hook)
}

/// What the backend can do.
pub fn capabilities_static() -> (res: Capabilities)
    ensures
        can_all(res),
        enforcement::ranked(res.hooks@),
{
    let mut hooks: Vec<Hook> = Vec::new();
    hooks.push(Hook::FileOpen);
    hooks.push(Hook::BprmCheck);
    hooks.push(Hook::SocketConnect);
    hooks.push(Hook::PtraceAccess);
    hooks.push(Hook::Signal);
    hooks.push(Hook::CgroupAttach);
    assert forall|hook: Hook| hooks@.contains(hook) by {
        assert(hooks@[enforcement::rank(hook)] == hook);
    }
    Capabilities {
        kernel_enforcement: true,
        hooks: HookSet::from_hooks(hooks),
        event_stream: true,
        counters: true,
    }
}

/// The Linux backend supports every rule; so it refuses none that a policy has.
pub proof fn law_linux_supports_every_rule(
    caps: Capabilities,
    rules: Seq<enforcement::EnforcementRule>,
)
    requires
        can_all(caps),
    ensures
        enforcement::first_unsupported(caps, rules) is None,
{
    assert forall|i: int| 0 <= i < rules.len() implies enforcement::supports(
        caps,
        #[trigger] rules[i],
    ) by {
        assert(caps.hooks@.contains(rules[i].hook));
    }
    enforcement::law_unsupported_is_found(caps, rules, Seq::empty());
}

/// What is written for a zone: the key of its record, and what is enforced zone-wide.
#[derive(Clone, Copy, Debug, PartialEq, Eq, Structural)]
pub struct ZoneRecord {
    pub zone_id: u32,
    pub zone: ZoneEnforcement,
}

/// The key of a zone's record: the low half of the zone's number.
pub open spec fn key_of(zone: ZoneId) -> u32 {
    (zone.0 % 0x1_0000_0000) as u32
}

/// The key of a zone's record.
pub fn record_key(zone: ZoneId) -> (res: u32)
    ensures
        res == key_of(zone),
{
    (zone.0 % 0x1_0000_0000) as u32
}

/// The record that a policy gives a zone.
pub open spec fn record_for(zone: ZoneId, enforced: ZoneEnforcement) -> ZoneRecord {
    ZoneRecord { zone_id: key_of(zone), zone: enforced }
}

/// What has to be written to apply a policy to a zone.
pub fn plan_policy(slot: Slot, zone: ZoneId, policy: &EnforcementPolicy) -> (res: Result<
    ZoneRecord,
    EnforcerError,
>)
    ensures
        match res {
            Ok(record) => slot == Slot::Loaded && record == record_for(zone, policy.zone),
            Err(e) => if slot == Slot::Poisoned {
                is_poisoned(e)
            } else {
                slot == Slot::Vacant && e is NotLoaded
            },
        },
{
    match require_loaded(slot) {
        Ok(_) => {},
        Err(e) => {
            return Err(e);
        },
    }
    let capabilities = capabilities_static();
    proof {
        law_linux_supports_every_rule(capabilities, policy.rules@);
    }
    match first_unsupported_rule(&capabilities, &policy.rules) {
        Some(i) => {
            let mut reason = "unsupported hook ".to_owned();
            reason.append(hook_name(policy.rules[i].hook));
            return Err(
                EnforcerError::PolicyUnenforceable { zone, rule: policy.rules[i].id, reason },
            );
        },
        None => {},
    }
    Ok(ZoneRecord { zone_id: record_key(zone), zone: policy.zone })
}

/// How often one program decided what.
#[derive(Clone, Copy, Debug, PartialEq, Eq, Structural)]
pub struct Counters {
    pub allow: u64,
    pub deny: u64,
    pub error: u64,
}

/// The sum of what `part` reads off the counters.
pub open spec fn total(counters: Seq<Counters>, part: spec_fn(Counters) -> u64) -> nat
    decreases counters.len(),
{
    if counters.len() == 0 {
        0
    } else {
        total(counters.drop_last(), part) + part(counters.last()) as nat
    }
}

pub open spec fn allows() -> spec_fn(Counters) -> u64 {
    |c: Counters| c.allow
}

pub open spec fn denies() -> spec_fn(Counters) -> u64 {
    |c: Counters| c.deny
}

pub open spec fn errors() -> spec_fn(Counters) -> u64 {
    |c: Counters| c.error
}

/// A sum only grows.
proof fn lemma_total_grows(counters: Seq<Counters>, n: int, part: spec_fn(Counters) -> u64)
    requires
        0 <= n <= counters.len(),
    ensures
        total(counters.take(n), part) <= total(counters, part),
    decreases counters.len() - n,
{
    if n < counters.len() {
        assert(counters.take(n + 1).drop_last() == counters.take(n));
        lemma_total_grows(counters, n + 1, part);
    } else {
        assert(counters.take(n) == counters);
    }
}

/// How often the programs decided what, together; `None` where a sum has no room
/// in 64 bits.
pub fn sum_counters(counters: &Vec<Counters>) -> (res: Option<EnforcementStats>)
    ensures
        match res {
            Some(stats) => stats.allowed == total(counters@, allows()) && stats.denied == total(
                counters@,
                denies(),
            ) && stats.errors == total(counters@, errors()),
            None => total(counters@, allows()) > u64::MAX || total(counters@, denies()) > u64::MAX
                || total(counters@, errors()) > u64::MAX,
        },
{
    let mut stats = EnforcementStats::default();
    let mut i: usize = 0;
    assert(counters@.take(0) == Seq::<Counters>::empty());
    while i < counters.len()
        invariant
            i <= counters@.len(),
            stats.allowed == total(counters@.take(i as int), allows()),
            stats.denied == total(counters@.take(i as int), denies()),
            stats.errors == total(counters@.take(i as int), errors()),
        decreases counters@.len() - i,
    {
        let c = counters[i];
        proof {
            assert(counters@.take(i + 1).drop_last() == counters@.take(i as int));
            lemma_total_grows(counters@, i + 1, allows());
            lemma_total_grows(counters@, i + 1, denies());
            lemma_total_grows(counters@, i + 1, errors());
        }
        match (
            stats.allowed.checked_add(c.allow),
            stats.denied.checked_add(c.deny),
            stats.errors.checked_add(c.error),
        ) {
            (Some(allowed), Some(denied), Some(errors)) => {
                stats = EnforcementStats { allowed, denied, errors };
            },
            _ => {
                return None;
            },
        }
        i = i + 1;
    }
    assert(counters@.take(counters@.len() as int) == counters@);
    Some(stats)
}

/// What the kernel says of one program.
#[derive(Clone, Debug, PartialEq, Eq)]
pub struct ProgramStatus {
    pub name: String,
    pub loaded: bool,
    pub attached: bool,
}

/// What is found of the programs that are not at work, in their order.
pub open spec fn inactive(statuses: Seq<ProgramStatus>) -> Seq<enforcement::Finding>
    decreases statuses.len(),
{
    if statuses.len() == 0 {
        Seq::empty()
    } else {
        let front = inactive(statuses.drop_last());
        let last = statuses.last();
        if last.loaded && last.attached {
            front
        } else {
            front.push(
                enforcement::Finding {
                    kind: VerifyDiscrepancyKind::HookInactive,
                    rule: None,
                    message: "program "@ + last.name@ + " is not loaded and attached"@,
                },
            )
        }
    }
}

/// What is found where what is loaded for a zone is not what is intended for it:
/// nothing is loaded, or something else.
pub open spec fn drift(loaded: Option<ZoneEnforcement>, intended: ZoneEnforcement) -> Seq<
    enforcement::Finding,
> {
    match loaded {
        None => seq![
            enforcement::Finding {
                kind: VerifyDiscrepancyKind::PolicyMissing,
                rule: None,
                message: "no policy is loaded for the zone"@,
            },
        ],
        Some(zone) => if zone == intended {
            Seq::empty()
        } else {
            seq![
                enforcement::Finding {
                    kind: VerifyDiscrepancyKind::PolicyMismatch,
                    rule: None,
                    message: "the policy loaded for the zone differs from the intended one"@,
                },
            ]
        },
    }
}

/// Drift is found exactly where what is loaded for a zone is not what is intended.
pub proof fn law_drift_is_found(loaded: Option<ZoneEnforcement>, intended: ZoneEnforcement)
    ensures
        drift(loaded, intended).len() == 0 <==> loaded == Some(intended),
{
}

/// A zone whose record is the one that a policy gives it has not drifted from the
/// policy; so with all programs at work nothing is found.
pub proof fn law_applied_policy_verifies(
    statuses: Seq<ProgramStatus>,
    zone: ZoneId,
    intended: ZoneEnforcement,
)
    requires
        forall|i: int|
            0 <= i < statuses.len() ==> (#[trigger] statuses[i]).loaded && statuses[i].attached,
    ensures
        inactive(statuses) + drift(Some(record_for(zone, intended).zone), intended) == Seq::<
            enforcement::Finding,
        >::empty(),
    decreases statuses.len(),
{
    if statuses.len() > 0 {
        let front = statuses.drop_last();
        assert forall|i: int| 0 <= i < front.len() implies (#[trigger] front[i]).loaded
            && front[i].attached by {
            assert(front[i] == statuses[i]);
        }
        law_applied_policy_verifies(front, zone, intended);
        assert(inactive(front).len() == 0);
        assert(statuses[statuses.len() - 1].loaded);
    }
}

/// Adds a finding that is about no rule.
fn add_finding(out: &mut Vec<VerifyDiscrepancy>, kind: VerifyDiscrepancyKind, message: String)
    ensures
        enforcement::found(final(out)@) == enforcement::found(old(out)@).push(
            enforcement::Finding { kind, rule: None, message: message@ },
        ),
{
    let finding = VerifyDiscrepancy { kind, rule: None, message };
    out.push(finding);
    assert(enforcement::found(out@) == enforcement::found(old(out)@).push(finding@));
}

/// Holds a zone against the policy intended for it: whether the programs are at
/// work, and whether what is loaded for the zone is what the policy asks for.
/// `loaded` is what the zone's record holds, where there is one.
pub fn verify(
    statuses: &Vec<ProgramStatus>,
    loaded: Option<ZoneEnforcement>,
    policy: &EnforcementPolicy,
) -> (res: VerifyReport)
    ensures
        enforcement::found(res.discrepancies@) == inactive(statuses@) + drift(loaded, policy.zone),
        enforcement::found(res.discrepancies@) == held_against(statuses@, loaded, policy.zone),
        res.ok == (res.discrepancies@.len() == 0),
{
    let mut discrepancies: Vec<VerifyDiscrepancy> = Vec::new();
    let mut i: usize = 0;
    assert(statuses@.take(0) == Seq::<ProgramStatus>::empty());
    assert(enforcement::found(discrepancies@) == Seq::<enforcement::Finding>::empty());
    while i < statuses.len()
        invariant
            i <= statuses@.len(),
            enforcement::found(discrepancies@) == inactive(statuses@.take(i as int)),
        decreases statuses@.len() - i,
    {
        let status = &statuses[i];
        assert(statuses@.take(i + 1).drop_last() == statuses@.take(i as int));
        if !status.loaded || !status.attached {
            let mut message = "program ".to_owned();
            message.append(status.name.as_str());
            message.append(" is not loaded and attached");
            add_finding(&mut discrepancies, VerifyDiscrepancyKind::HookInactive, message);
        }
        i = i + 1;
    }
    assert(statuses@.take(statuses@.len() as int) == statuses@);
    let capabilities = capabilities_static();
    append_unsupported(&mut discrepancies, &capabilities, &policy.rules, " is unsupported");
    proof {
        law_linux_supports_every_rule(capabilities, policy.rules@);
        enforcement::law_unsupported_is_found(capabilities, policy.rules@, " is unsupported"@);
    }
    assert(enforcement::found(discrepancies@) == inactive(statuses@));
    match loaded {
        None => {
            add_finding(
                &mut discrepancies,
                VerifyDiscrepancyKind::PolicyMissing,
                "no policy is loaded for the zone".to_owned(),
            );
        },
        Some(zone) => {
            if zone != policy.zone {
                add_finding(
                    &mut discrepancies,
                    VerifyDiscrepancyKind::PolicyMismatch,
                    "the policy loaded for the zone differs from the intended one".to_owned(),
                );
            }
        },
    }
    VerifyReport { ok: discrepancies.len() == 0, discrepancies }
}

/// What a backend says of an error of the daemon.
pub open spec fn verifier_reason(error: RauhaError) -> Seq<char> {
    match error.kind {
        ErrorKind::Ebpf { message, .. } => message@,
        ErrorKind::ZoneNotFound(name) => "zone not found in Rauha metadata: "@ + name@,
        ErrorKind::Backend(message) => message@,
        _ => error.display@,
    }
}

/// The backend's error for an error of the daemon.
pub fn to_enforcer_error(error: RauhaError) -> (res: EnforcerError)
    ensures
        res matches EnforcerError::Verifier(reason) && reason@ == verifier_reason(error),
{
    match error.kind {
        ErrorKind::Ebpf { message, .. } => EnforcerError::Verifier(message),
        ErrorKind::ZoneNotFound(name) => {
            let mut reason = "zone not found in Rauha metadata: ".to_owned();
            reason.append(name.as_str());
            EnforcerError::Verifier(reason)
        },
        ErrorKind::Backend(message) => EnforcerError::Verifier(message),
        _ => EnforcerError::Verifier(error.display),
    }
}

/// Whether a failure is that of an operation that finds no programs loaded.
pub open spec fn finds_none(fault: EbpfFault, operation: Operation) -> bool {
    says(
        fault,
        "eBPF manager not available "@ + operation_text(operation),
        "restart rauhad after restoring eBPF LSM support"@,
    )
}

/// An operation that finds no programs loaded says which operation it is: each in words of
/// its own.
pub proof fn law_operations_are_told_apart(fault: EbpfFault, operation: Operation)
    requires
        finds_none(fault, operation),
    ensures
        operation is SetZonePolicy ==> says(
            fault,
            "eBPF manager not available "@ + "during policy enforcement"@,
            "restart rauhad after restoring eBPF LSM support"@,
        ),
        operation is HotReloadPolicy ==> says(
            fault,
            "eBPF manager not available "@ + "during policy hot reload"@,
            "restart rauhad after restoring eBPF LSM support"@,
        ),
        operation is ApplyZoneEnforcement ==> says(
            fault,
            "eBPF manager not available "@ + "during zone enforcement"@,
            "restart rauhad after restoring eBPF LSM support"@,
        ),
        operation is AddZoneMember ==> says(
            fault,
            "eBPF manager not available "@ + "during zone membership"@,
            "restart rauhad after restoring eBPF LSM support"@,
        ),
        operation is RemoveZoneMember ==> says(
            fault,
            "eBPF manager not available "@ + "during zone membership cleanup"@,
            "restart rauhad after restoring eBPF LSM support"@,
        ),
        operation is RemoveZonePolicy ==> says(
            fault,
            "eBPF manager not available "@ + "during zone policy cleanup"@,
            "restart rauhad after restoring eBPF LSM support"@,
        ),
        operation is InsertInodes ==> says(
            fault,
            "eBPF manager not available "@ + "during rootfs inode registration"@,
            "restart rauhad after restoring eBPF LSM support"@,
        ),
        operation is RemoveInodes ==> says(
            fault,
            "eBPF manager not available "@ + "during rootfs inode cleanup"@,
            "restart rauhad after restoring eBPF LSM support"@,
        ),
        operation is AllowZoneComm ==> says(
            fault,
            "eBPF manager not available "@ + "during allowed zone communication"@,
            "restart rauhad after restoring eBPF LSM support"@,
        ),
        operation is DenyZoneComm ==> says(
            fault,
            "eBPF manager not available "@ + "during allowed zone communication cleanup"@,
            "restart rauhad after restoring eBPF LSM support"@,
        ),
        operation is HealthCheck ==> says(
            fault,
            "eBPF manager not available "@ + "during health check"@,
            "restart rauhad after restoring eBPF LSM support"@,
        ),
        operation is ReadCounters ==> says(
            fault,
            "eBPF manager not available "@ + "while reading counters"@,
            "restart rauhad after restoring eBPF LSM support"@,
        ),
{
}

/// The object is looked for below the daemon's root first, then where packages install it,
/// and only then in the build tree, where a debug build comes before a release.
pub proof fn law_objects_are_looked_for_in_order(root: Seq<char>, manifest_dir: Seq<char>)
    ensures
        object_places(root, manifest_dir).len() == 4,
        object_places(root, manifest_dir)[0] == paths::join(root, "rauha-ebpf"@),
        object_places(root, manifest_dir)[1] == "/usr/lib/rauha/rauha-ebpf"@,
        paths::has_parent(manifest_dir) ==> {
            &&& object_places(root, manifest_dir)[2] == paths::join(
                paths::parent(manifest_dir),
                "rauha-ebpf/target/bpfel-unknown-none/debug/rauha-ebpf"@,
            )
            &&& object_places(root, manifest_dir)[3] == paths::join(
                paths::parent(manifest_dir),
                "rauha-ebpf/target/bpfel-unknown-none/release/rauha-ebpf"@,
            )
        },
{
}

/// The object that is chosen is there, and none before it is.
pub proof fn law_first_object_is_chosen(places: Seq<Seq<char>>, there: Seq<bool>, k: int)
    requires
        places.len() == there.len(),
        0 <= k < there.len(),
        there[k],
        forall|j: int| 0 <= j < k ==> !#[trigger] there[j],
    ensures
        first_there(places, there) == Some(places[k]),
    decreases k,
{
    if k > 0 {
        let rest = there.skip(1);
        assert(!there[0]);
        assert forall|j: int| 0 <= j < k - 1 implies !#[trigger] rest[j] by {
            assert(!there[j + 1]);
        }
        law_first_object_is_chosen(places.skip(1), rest, k - 1);
    }
}

/// No object is chosen where none is there.
pub proof fn law_no_object_is_made_up(places: Seq<Seq<char>>, there: Seq<bool>)
    requires
        forall|j: int| 0 <= j < there.len() ==> !#[trigger] there[j],
    ensures
        first_there(places, there) is None,
    decreases places.len(),
{
    if places.len() > 0 && there.len() > 0 {
        let rest = there.skip(1);
        assert forall|j: int| 0 <= j < rest.len() implies !#[trigger] rest[j] by {
            assert(!there[j + 1]);
        }
        assert(!there[0]);
        law_no_object_is_made_up(places.skip(1), rest);
    }
}

/// A policy's record has the whole of what the policy asks for zone-wide, under the low half
/// of the zone's number; zones whose numbers fit in 32 bits never share a record.
pub proof fn law_record_is_the_policys(zone: ZoneId, other: ZoneId, enforced: ZoneEnforcement)
    ensures
        record_for(zone, enforced).zone.caps_mask == enforced.caps_mask,
        record_for(zone, enforced).zone.allow_ptrace == enforced.allow_ptrace,
        record_for(zone, enforced).zone.allow_host_net == enforced.allow_host_net,
        zone.0 <= u32::MAX ==> record_for(zone, enforced).zone_id == zone.0,
        zone.0 <= u32::MAX && other.0 <= u32::MAX && key_of(zone) == key_of(other) ==> zone.0
            == other.0,
{
}

/// What one program counted more is counted more in the sum, and in the same sum: what was
/// allowed among the allowed, what was denied among the denied, what failed among the errors.
pub proof fn law_counters_add_up(counters: Seq<Counters>, more: Counters)
    ensures
        total(counters.push(more), allows()) == total(counters, allows()) + more.allow,
        total(counters.push(more), denies()) == total(counters, denies()) + more.deny,
        total(counters.push(more), errors()) == total(counters, errors()) + more.error,
        total(Seq::empty(), allows()) == 0,
        total(Seq::empty(), denies()) == 0,
        total(Seq::empty(), errors()) == 0,
{
    assert(counters.push(more).drop_last() == counters);
}

/// A program is found to be inactive exactly where it is not both loaded and attached, and it
/// is named; programs at work leave no finding.
pub proof fn law_inactive_programs_are_named(statuses: Seq<ProgramStatus>, more: ProgramStatus)
    ensures
        more.loaded && more.attached ==> inactive(statuses.push(more)) == inactive(statuses),
        !(more.loaded && more.attached) ==> {
            let findings = inactive(statuses.push(more));
            &&& findings.len() == inactive(statuses).len() + 1
            &&& findings.drop_last() == inactive(statuses)
            &&& findings.last().kind is HookInactive
            &&& findings.last().rule is None
            &&& findings.last().message == "program "@ + more.name@
                + " is not loaded and attached"@
        },
        inactive(Seq::empty()).len() == 0,
{
    assert(statuses.push(more).drop_last() == statuses);
}

/// A zone that nothing is loaded for lacks its policy, one for which something else is loaded
/// has another policy, and these two are told apart in words as well.
pub proof fn law_drift_is_told(loaded: Option<ZoneEnforcement>, intended: ZoneEnforcement)
    ensures
        loaded is None ==> drift(loaded, intended).len() == 1 && drift(loaded, intended)[0].kind
            is PolicyMissing && drift(loaded, intended)[0].rule is None && drift(
            loaded,
            intended,
        )[0].message == "no policy is loaded for the zone"@,
        loaded matches Some(zone) ==> (zone != intended ==> drift(loaded, intended).len() == 1
            && drift(loaded, intended)[0].kind is PolicyMismatch && drift(
            loaded,
            intended,
        )[0].rule is None && drift(loaded, intended)[0].message
            == "the policy loaded for the zone differs from the intended one"@),
        loaded == Some(intended) ==> drift(loaded, intended).len() == 0,
{
}

/// The backend says of an error what the error says: the eBPF side's and the backend's own
/// message as they are, of a zone that is not there its name, and of anything else the error in
/// words; the eBPF side's hint is not part of it.
pub proof fn law_errors_keep_their_words(error: RauhaError)
    ensures
        error.kind matches ErrorKind::Ebpf { message, hint } ==> verifier_reason(error) == message@,
        error.kind matches ErrorKind::ZoneNotFound(name) ==> verifier_reason(error)
            == "zone not found in Rauha metadata: "@ + name@,
        error.kind matches ErrorKind::Backend(message) ==> verifier_reason(error) == message@,
        !(error.kind is Ebpf) && !(error.kind is ZoneNotFound) && !(error.kind is Backend)
            ==> verifier_reason(error) == error.display@,
{
}

/// Whether a failure is that of an object whose ring buffer cannot be taken.
pub open spec fn lacks_ring(fault: EbpfFault, reason: Seq<char>) -> bool {
    says(
        fault,
        "enforcement event ring buffer not available: "@ + reason,
        "check the ENFORCEMENT_EVENTS ring buffer map was created"@,
    )
}

/// An object without its ring buffer is told with the reason, and with the map to look for.
pub proof fn law_missing_ring_is_told(fault: EbpfFault, reason: Seq<char>)
    requires
        lacks_ring(fault, reason),
    ensures
        fault.message@ == "enforcement event ring buffer not available: "@ + reason,
        fault.hint@ == "check the ENFORCEMENT_EVENTS ring buffer map was created"@,
{
}

/// The error for a poisoned lock says so, as a failure of the verifier.
pub proof fn law_poisoned_lock_is_told(e: EnforcerError)
    requires
        is_poisoned(e),
    ensures
        e.text() == "verifier failed: "@ + "linux enforcer mutex poisoned"@,
{
}

/// The Linux backend has the kernel enforce, at each of the six hooks, streams what was decided,
/// and counts it.
pub proof fn law_linux_can_do_all(caps: Capabilities)
    requires
        can_all(caps),
    ensures
        caps.kernel_enforcement,
        caps.event_stream,
        caps.counters,
        caps.hooks@.contains(Hook::FileOpen),
        caps.hooks@.contains(Hook::BprmCheck),
        caps.hooks@.contains(Hook::SocketConnect),
        caps.hooks@.contains(Hook::PtraceAccess),
        caps.hooks@.contains(Hook::Signal),
        caps.hooks@.contains(Hook::CgroupAttach),
{
    assert(caps.hooks@.contains(Hook::FileOpen));
}

/// What is found when a zone is held against a policy: first of the programs, then of the zone.
pub open spec fn held_against(
    statuses: Seq<ProgramStatus>,
    loaded: Option<ZoneEnforcement>,
    intended: ZoneEnforcement,
) -> Seq<enforcement::Finding> {
    inactive(statuses) + drift(loaded, intended)
}

/// What is found of the programs comes first, whatever is found of the zone; and what is found of
/// the zone comes last, whatever is found of the programs.
pub proof fn law_programs_are_reported_first(
    statuses: Seq<ProgramStatus>,
    loaded: Option<ZoneEnforcement>,
    intended: ZoneEnforcement,
)
    ensures
        held_against(statuses, loaded, intended).take(inactive(statuses).len() as int) == inactive(
            statuses,
        ),
        loaded is None ==> held_against(statuses, loaded, intended).last().kind is PolicyMissing,
        loaded matches Some(zone) ==> (zone != intended ==> held_against(
            statuses,
            loaded,
            intended,
        ).last().kind is PolicyMismatch),
        loaded == Some(intended) ==> held_against(statuses, loaded, intended) == inactive(statuses),
{
}

} // verus!
