//! From the kernel's records to evidence: what the eBPF programs put in their ring
//! buffer is read, and told as canonical events.

use vstd::prelude::*;
use vstd::string::StringExecFns;

use crate::evidence::bounds;
use crate::evidence::builder;
use crate::evidence::builder::{pipeline_shed_event, FalseEventBuilder};
use crate::evidence::event;
use crate::evidence::event::{
    FalseEvent, FieldValue, ResourceAttrs, Severity, BACKEND_LINUX_EBPF,
};
use crate::evidence::event_name;
use crate::evidence::narrative;
use crate::number;
use crate::number::decimal_of;
use crate::ordered;
use crate::text;
use crate::text::same;

verus! {

/// The numbers that the eBPF programs write for hooks and decisions.
#[derive(Clone, Copy, Debug, PartialEq, Eq, Structural)]
pub struct KernelCodes {
    pub hook_file_open: u8,
    pub hook_bprm_check: u8,
    pub hook_ptrace_check: u8,
    pub hook_task_kill: u8,
    pub hook_cgroup_attach: u8,
    pub hook_socket_connect: u8,
    pub hook_capable: u8,
    pub decision_allow: u8,
    pub decision_deny: u8,
    pub decision_error: u8,
}

/// One record of the kernel.
#[derive(Clone, Copy, Debug, PartialEq, Eq, Structural)]
pub struct KernelEvent {
    pub timestamp_ns: u64,
    pub pid: u32,
    pub hook: u8,
    pub decision: u8,
    pub caller_zone: u32,
    pub target_zone: u32,
    /// What was acted on, as the hook numbers it.
    pub context: u64,
}

/// Where a record's fields stand in its bytes, and how many bytes it has.
#[derive(Clone, Copy, Debug, PartialEq, Eq, Structural)]
pub struct RecordLayout {
    pub size: usize,
    pub timestamp_ns: usize,
    pub pid: usize,
    pub hook: usize,
    pub decision: usize,
    pub caller_zone: usize,
    pub target_zone: usize,
    pub context: usize,
    /// Whether a number's highest byte comes first, as it does on some machines.
    pub big_endian: bool,
}

impl RecordLayout {
    /// Whether every field is within the record.
    pub open spec fn fits(self) -> bool {
        &&& self.timestamp_ns + 8 <= self.size
        &&& self.pid + 4 <= self.size
        &&& self.hook + 1 <= self.size
        &&& self.decision + 1 <= self.size
        &&& self.caller_zone + 4 <= self.size
        &&& self.target_zone + 4 <= self.size
        &&& self.context + 8 <= self.size
    }

    /// Whether every field is within the record.
    pub fn is_sound(&self) -> (res: bool)
        ensures
            res == self.fits(),
    {
        self.size >= 8 && self.timestamp_ns <= self.size - 8 && self.pid <= self.size - 4
            && self.hook <= self.size - 1 && self.decision <= self.size - 1 && self.caller_zone
            <= self.size - 4 && self.target_zone <= self.size - 4 && self.context <= self.size - 8
    }
}

/// The number in `n` bytes from `at`, the lowest byte first.
pub open spec fn little_endian(bytes: Seq<u8>, at: int, n: nat) -> nat
    decreases n,
{
    if n == 0 {
        0
    } else {
        bytes[at] as nat + 256 * little_endian(bytes, at + 1, (n - 1) as nat)
    }
}

/// The number in `n` bytes from `at`, the highest byte first.
pub open spec fn big_endian(bytes: Seq<u8>, at: int, n: nat) -> nat
    decreases n,
{
    if n == 0 {
        0
    } else {
        256 * big_endian(bytes, at, (n - 1) as nat) + bytes[at + n - 1] as nat
    }
}

/// The number in `n` bytes from `at`, in the order that the machine has them.
pub open spec fn number_at(bytes: Seq<u8>, at: int, n: nat, big: bool) -> nat {
    if big {
        big_endian(bytes, at, n)
    } else {
        little_endian(bytes, at, n)
    }
}

/// The record in bytes.
pub open spec fn record_in(bytes: Seq<u8>, layout: RecordLayout) -> KernelEvent {
    KernelEvent {
        timestamp_ns: number_at(bytes, layout.timestamp_ns as int, 8, layout.big_endian) as u64,
        pid: number_at(bytes, layout.pid as int, 4, layout.big_endian) as u32,
        hook: bytes[layout.hook as int],
        decision: bytes[layout.decision as int],
        caller_zone: number_at(bytes, layout.caller_zone as int, 4, layout.big_endian) as u32,
        target_zone: number_at(bytes, layout.target_zone as int, 4, layout.big_endian) as u32,
        context: number_at(bytes, layout.context as int, 8, layout.big_endian) as u64,
    }
}

fn read_u32(bytes: &[u8], at: usize, big: bool) -> (res: u32)
    requires
        at + 4 <= bytes@.len(),
    ensures
        res == number_at(bytes@, at as int, 4, big),
{
    proof {
        reveal_with_fuel(little_endian, 5);
        reveal_with_fuel(big_endian, 5);
    }
    let total: usize = bytes.len();
    assert(at + 4 <= total);
    let (b0, b1, b2, b3) = if big {
        (bytes[at + 3], bytes[at + 2], bytes[at + 1], bytes[at])
    } else {
        (bytes[at], bytes[at + 1], bytes[at + 2], bytes[at + 3])
    };
    b0 as u32 + 0x100 * (b1 as u32) + 0x1_0000 * (b2 as u32) + 0x100_0000 * (b3 as u32)
}

/// Four bytes are half of eight.
proof fn lemma_halves(bytes: Seq<u8>, at: int)
    ensures
        little_endian(bytes, at, 8) == little_endian(bytes, at, 4) + 0x1_0000_0000 * little_endian(
            bytes,
            at + 4,
            4,
        ),
        big_endian(bytes, at, 8) == 0x1_0000_0000 * big_endian(bytes, at, 4) + big_endian(
            bytes,
            at + 4,
            4,
        ),
{
    reveal_with_fuel(little_endian, 9);
    reveal_with_fuel(big_endian, 9);
}

fn read_u64(bytes: &[u8], at: usize, big: bool) -> (res: u64)
    requires
        at + 8 <= bytes@.len(),
    ensures
        res == number_at(bytes@, at as int, 8, big),
{
    proof {
        lemma_halves(bytes@, at as int);
    }
    let total: usize = bytes.len();
    assert(at + 8 <= total);
    let front: u32 = read_u32(bytes, at, big);
    let back: u32 = read_u32(bytes, at + 4, big);
    if big {
        0x1_0000_0000 * (front as u64) + back as u64
    } else {
        front as u64 + 0x1_0000_0000 * (back as u64)
    }
}

/// Reads a record. `None` where there are too few bytes; bytes behind the record
/// are of no account.
pub fn read_record(bytes: &[u8], layout: &RecordLayout) -> (res: Option<KernelEvent>)
    requires
        layout.fits(),
    ensures
        res == (if bytes@.len() < layout.size {
            None
        } else {
            Some(record_in(bytes@, *layout))
        }),
{
    if bytes.len() < layout.size {
        return None;
    }
    Some(
        KernelEvent {
            timestamp_ns: read_u64(bytes, layout.timestamp_ns, layout.big_endian),
            pid: read_u32(bytes, layout.pid, layout.big_endian),
            hook: bytes[layout.hook],
            decision: bytes[layout.decision],
            caller_zone: read_u32(bytes, layout.caller_zone, layout.big_endian),
            target_zone: read_u32(bytes, layout.target_zone, layout.big_endian),
            context: read_u64(bytes, layout.context, layout.big_endian),
        },
    )
}

/// The name of a hook, by its place in the table of hooks.
pub open spec fn hook_text(hook: u8) -> Seq<char> {
    match hook {
        0u8 => "file_open"@,
        1u8 => "bprm_check"@,
        2u8 => "ptrace_access_check"@,
        3u8 => "task_kill"@,
        4u8 => "cgroup_attach_task"@,
        5u8 => "capable"@,
        6u8 => "socket_connect"@,
        _ => "unknown"@,
    }
}

/// The name of a hook.
pub fn hook_name(hook: u8) -> (res: &'static str)
    ensures
        res@ == hook_text(hook),
{
    match hook {
        0u8 => "file_open",
        1u8 => "bprm_check",
        2u8 => "ptrace_access_check",
        3u8 => "task_kill",
        4u8 => "cgroup_attach_task",
        5u8 => "capable",
        6u8 => "socket_connect",
        _ => "unknown",
    }
}

/// The name of the event that a record is told as. What a program could not
/// decide, or nothing is known of, is told as shed.
pub open spec fn name_for(codes: KernelCodes, hook: u8, decision: u8) -> Seq<char> {
    if decision == codes.decision_error {
        event_name::PIPELINE_SHED@
    } else if hook == codes.hook_file_open {
        event_name::ZONE_FILE_DENIED@
    } else if hook == codes.hook_bprm_check {
        event_name::ZONE_EXEC_DENIED@
    } else if hook == codes.hook_ptrace_check {
        event_name::ZONE_PTRACE_DENIED@
    } else if hook == codes.hook_task_kill {
        event_name::ZONE_SIGNAL_DENIED@
    } else if hook == codes.hook_cgroup_attach {
        event_name::ZONE_ESCAPE_CGROUP_ATTACH@
    } else if hook == codes.hook_socket_connect {
        event_name::ZONE_NET_DENIED@
    } else if hook == codes.hook_capable {
        event_name::ZONE_MOUNT_DENIED@
    } else {
        event_name::PIPELINE_SHED@
    }
}

/// The name of the event that a record is told as.
pub fn event_name_for(codes: &KernelCodes, hook: u8, decision: u8) -> (res: &'static str)
    ensures
        res@ == name_for(*codes, hook, decision),
{
    if decision == codes.decision_error {
        event_name::PIPELINE_SHED
    } else if hook == codes.hook_file_open {
        event_name::ZONE_FILE_DENIED
    } else if hook == codes.hook_bprm_check {
        event_name::ZONE_EXEC_DENIED
    } else if hook == codes.hook_ptrace_check {
        event_name::ZONE_PTRACE_DENIED
    } else if hook == codes.hook_task_kill {
        event_name::ZONE_SIGNAL_DENIED
    } else if hook == codes.hook_cgroup_attach {
        event_name::ZONE_ESCAPE_CGROUP_ATTACH
    } else if hook == codes.hook_socket_connect {
        event_name::ZONE_NET_DENIED
    } else if hook == codes.hook_capable {
        event_name::ZONE_MOUNT_DENIED
    } else {
        event_name::PIPELINE_SHED
    }
}

/// How grave an event of the kernel is.
pub open spec fn event_severity(name: Seq<char>) -> Severity {
    if name == event_name::ZONE_ESCAPE_CGROUP_ATTACH@ {
        Severity::Error
    } else if name == event_name::ZONE_FILE_DENIED@ || name == event_name::ZONE_EXEC_DENIED@
        || name == event_name::ZONE_PTRACE_DENIED@ || name == event_name::ZONE_SIGNAL_DENIED@
        || name == event_name::ZONE_MOUNT_DENIED@ || name == event_name::ZONE_IPC_DENIED@ || name
        == event_name::ZONE_NET_DENIED@ {
        Severity::Warn
    } else {
        Severity::Info
    }
}

/// How grave an event of the kernel is.
pub fn severity_for_event(name: &str) -> (res: Severity)
    ensures
        res == event_severity(name@),
{
    if same(name, event_name::ZONE_ESCAPE_CGROUP_ATTACH) {
        Severity::Error
    } else if same(name, event_name::ZONE_FILE_DENIED) || same(name, event_name::ZONE_EXEC_DENIED)
        || same(name, event_name::ZONE_PTRACE_DENIED) || same(
        name,
        event_name::ZONE_SIGNAL_DENIED,
    ) || same(name, event_name::ZONE_MOUNT_DENIED) || same(name, event_name::ZONE_IPC_DENIED)
        || same(name, event_name::ZONE_NET_DENIED) {
        Severity::Warn
    } else {
        Severity::Info
    }
}

/// What was acted on.
pub open spec fn resource_text(codes: KernelCodes, hook: u8, context: u64) -> Seq<char> {
    if hook == codes.hook_file_open || hook == codes.hook_bprm_check {
        "inode:"@ + number::decimal(context as nat)
    } else if hook == codes.hook_cgroup_attach {
        "cgroup:"@ + number::decimal(context as nat)
    } else if hook == codes.hook_socket_connect {
        "socket:"@ + number::decimal(context as nat)
    } else {
        "kernel-object:unknown"@
    }
}

/// What was acted on.
pub fn resource_for(codes: &KernelCodes, hook: u8, context: u64) -> (res: String)
    ensures
        res@ == resource_text(*codes, hook, context),
{
    if hook == codes.hook_file_open || hook == codes.hook_bprm_check {
        let mut out = "inode:".to_owned();
        out.append(decimal_of(context).as_str());
        out
    } else if hook == codes.hook_cgroup_attach {
        let mut out = "cgroup:".to_owned();
        out.append(decimal_of(context).as_str());
        out
    } else if hook == codes.hook_socket_connect {
        let mut out = "socket:".to_owned();
        out.append(decimal_of(context).as_str());
        out
    } else {
        "kernel-object:unknown".to_owned()
    }
}

/// The name of a decision.
pub open spec fn decision_text(codes: KernelCodes, decision: u8) -> Seq<char> {
    if decision == codes.decision_allow {
        "allow"@
    } else if decision == codes.decision_deny {
        "deny"@
    } else if decision == codes.decision_error {
        "error"@
    } else {
        "unknown"@
    }
}

/// The name of a decision.
pub fn decision_name(codes: &KernelCodes, decision: u8) -> (res: &'static str)
    ensures
        res@ == decision_text(*codes, decision),
{
    if decision == codes.decision_allow {
        "allow"
    } else if decision == codes.decision_deny {
        "deny"
    } else if decision == codes.decision_error {
        "error"
    } else {
        "unknown"
    }
}

/// The zone that a record is about.
pub open spec fn zone_text(caller_zone: u32) -> Seq<char> {
    if caller_zone == 0 {
        "zone-unassigned"@
    } else {
        "zone-"@ + number::decimal(caller_zone as nat)
    }
}

/// The fields that a record is told with, by name.
pub open spec fn record_fields(codes: KernelCodes, e: KernelEvent) -> Seq<
    (Seq<char>, event::FieldText),
> {
    seq![
        ("caller_zone"@, event::FieldText::U64(e.caller_zone as u64)),
        ("context"@, event::FieldText::U64(e.context)),
        ("decision"@, event::FieldText::Text(decision_text(codes, e.decision))),
        ("hook"@, event::FieldText::Text(hook_text(e.hook))),
        ("pid"@, event::FieldText::U64(e.pid as u64)),
        ("source_timestamp_ns"@, event::FieldText::U64(e.timestamp_ns)),
        ("target_zone"@, event::FieldText::U64(e.target_zone as u64)),
    ]
}

/// The draft of the event that a record is told as.
pub open spec fn record_draft(
    codes: KernelCodes,
    e: KernelEvent,
    host: Option<Seq<char>>,
) -> builder::Draft {
    builder::Draft {
        event: Some(name_for(codes, e.hook, e.decision)),
        level: Some(
            if e.decision == codes.decision_error {
                Severity::Error
            } else {
                event_severity(name_for(codes, e.hook, e.decision))
            },
        ),
        zone: Some(event::ZoneText { id: zone_text(e.caller_zone), name: None }),
        actor: Some(
            event::ActorText {
                id: "pid:"@ + number::decimal(e.pid as nat),
                delegation: Seq::empty(),
            },
        ),
        resource: Some(resource_text(codes, e.hook, e.context)),
        attributes: Some(builder::plain_attributes(BACKEND_LINUX_EBPF@, host)),
        trace_id: None,
        fields: record_fields(codes, e),
    }
}

/// The draft of the event that tells of a record with too few bytes.
pub open spec fn undersized_draft(len: nat, host: Option<Seq<char>>) -> builder::Draft {
    builder::Draft {
        event: Some(event_name::PIPELINE_SHED@),
        level: Some(Severity::Warn),
        zone: Some(event::ZoneText { id: "zone-unknown"@, name: None }),
        attributes: Some(builder::plain_attributes(BACKEND_LINUX_EBPF@, host)),
        fields: seq![
            ("bytes"@, event::FieldText::U64(len as u64)),
            ("reason"@, event::FieldText::Text("undersized_enforcement_event"@)),
        ],
        ..builder::blank()
    }
}

/// What the kernel names is never taken for a secret.
proof fn lemma_resource_is_kept(codes: KernelCodes, hook: u8, context: u64)
    ensures
        bounds::redact(resource_text(codes, hook, context)) == resource_text(codes, hook, context),
{
    let n = number::decimal(context as nat);
    let whole = resource_text(codes, hook, context);
    let small = text::ascii_lower(whole);
    number::lemma_decimal_is_short(context as nat);
    number::lemma_decimal_digits(context as nat);
    reveal_strlit("secret");
    reveal_strlit("password");
    reveal_strlit("token");
    reveal_strlit("inode:");
    reveal_strlit("cgroup:");
    reveal_strlit("socket:");
    reveal_strlit("kernel-object:unknown");
    assert("secret"@[0] == 's' && "secret"@[3] == 'r');
    assert("password"@[2] == 's' && "password"@[0] == 'p');
    assert("token"@[0] == 't' && "token"@[1] == 'o' && "token"@[4] == 'n');
    if hook == codes.hook_file_open || hook == codes.hook_bprm_check {
        assert forall|i: int| 0 <= i < small.len() implies #[trigger] small[i] != 's' && small[i]
            != 't' by {
            if i >= 6 {
                assert(number::is_digit(n[i - 6]));
            }
        }
        bounds::lemma_lacks(small, "secret"@, 's');
        bounds::lemma_lacks(small, "password"@, 's');
        bounds::lemma_lacks(small, "token"@, 't');
    } else if hook == codes.hook_cgroup_attach {
        assert forall|i: int| 0 <= i < small.len() implies #[trigger] small[i] != 's' && small[i]
            != 't' by {
            if i >= 7 {
                assert(number::is_digit(n[i - 7]));
            }
        }
        bounds::lemma_lacks(small, "secret"@, 's');
        bounds::lemma_lacks(small, "password"@, 's');
        bounds::lemma_lacks(small, "token"@, 't');
    } else if hook == codes.hook_socket_connect {
        assert forall|i: int| 0 <= i < small.len() implies #[trigger] small[i] != 'r' && small[i]
            != 'p' && small[i] != 'n' by {
            if i >= 7 {
                assert(number::is_digit(n[i - 7]));
            }
        }
        bounds::lemma_lacks(small, "secret"@, 'r');
        bounds::lemma_lacks(small, "password"@, 'p');
        bounds::lemma_lacks(small, "token"@, 'n');
    } else {
        assert forall|i: int| 0 <= i < small.len() implies #[trigger] small[i] != 's' && small[i]
            != 'p' by {}
        bounds::lemma_lacks(small, "secret"@, 's');
        bounds::lemma_lacks(small, "password"@, 'p');
        if text::has_text(small, "token"@) {
            let at = choose|i: int|
                0 <= i <= small.len() - "token"@.len() && #[trigger] small.subrange(
                    i,
                    i + "token"@.len(),
                ) == "token"@;
            let part = small.subrange(at, at + "token"@.len());
            assert(part[0] == small[at] && part[1] == small[at + 1]);
        }
    }
}

proof fn lemma_actor_is_kept(pid: u32)
    ensures
        bounds::bound("pid:"@ + number::decimal(pid as nat)) == "pid:"@ + number::decimal(
            pid as nat,
        ),
{
    reveal_strlit("pid:");
    number::lemma_decimal_is_short(pid as nat);
}

/// The names of hooks and decisions are short.
proof fn lemma_names_are_kept(codes: KernelCodes, hook: u8, decision: u8)
    ensures
        bounds::bound(hook_text(hook)) == hook_text(hook),
        bounds::bound(decision_text(codes, decision)) == decision_text(codes, decision),
{
    reveal_strlit("file_open");
    reveal_strlit("bprm_check");
    reveal_strlit("ptrace_access_check");
    reveal_strlit("task_kill");
    reveal_strlit("cgroup_attach_task");
    reveal_strlit("capable");
    reveal_strlit("socket_connect");
    reveal_strlit("unknown");
    reveal_strlit("allow");
    reveal_strlit("deny");
    reveal_strlit("error");
}

/// A field that comes before the first of some fields is put in front of them.
proof fn lemma_put_first(
    fields: Seq<(Seq<char>, event::FieldText)>,
    key: Seq<char>,
    value: event::FieldText,
)
    requires
        fields.len() > 0 ==> fields[0].0 != key && text::precedes(key, fields[0].0),
    ensures
        ordered::put(fields, key, value) == seq![(key, value)] + fields,
{
}

/// The fields of a record, put one after another, are in order.
proof fn lemma_fields_in_order(codes: KernelCodes, e: KernelEvent)
    ensures
        ({
            let none = Seq::<(Seq<char>, event::FieldText)>::empty();
            let a = ordered::put(none, "pid"@, event::FieldText::U64(e.pid as u64));
            let b = ordered::put(a, "hook"@, event::FieldText::Text(hook_text(e.hook)));
            let c = ordered::put(
                b,
                "decision"@,
                event::FieldText::Text(decision_text(codes, e.decision)),
            );
            let d = ordered::put(
                c,
                "caller_zone"@,
                event::FieldText::U64(e.caller_zone as u64),
            );
            let f = ordered::put(
                d,
                "target_zone"@,
                event::FieldText::U64(e.target_zone as u64),
            );
            let g = ordered::put(
                f,
                "source_timestamp_ns"@,
                event::FieldText::U64(e.timestamp_ns),
            );
            ordered::put(g, "context"@, event::FieldText::U64(e.context)) == record_fields(codes, e)
        }),
{
    reveal_strlit("caller_zone");
    reveal_strlit("context");
    reveal_strlit("decision");
    reveal_strlit("hook");
    reveal_strlit("pid");
    reveal_strlit("source_timestamp_ns");
    reveal_strlit("target_zone");
    assert("caller_zone"@.skip(1)[0] == 'a' && "context"@.skip(1)[0] == 'o');
    assert(!text::precedes("context"@, "caller_zone"@)) by {
        reveal_with_fuel(text::precedes, 2);
    }
    assert("caller_zone"@[1] == 'a' && "context"@[1] == 'o');
    assert("caller_zone"@[0] == 'c' && "context"@[0] == 'c' && "decision"@[0] == 'd' && "hook"@[0]
        == 'h' && "pid"@[0] == 'p' && "source_timestamp_ns"@[0] == 's' && "target_zone"@[0] == 't');
    let pid = ("pid"@, event::FieldText::U64(e.pid as u64));
    let hook = ("hook"@, event::FieldText::Text(hook_text(e.hook)));
    let decision = ("decision"@, event::FieldText::Text(decision_text(codes, e.decision)));
    let caller = ("caller_zone"@, event::FieldText::U64(e.caller_zone as u64));
    let target = ("target_zone"@, event::FieldText::U64(e.target_zone as u64));
    let source = ("source_timestamp_ns"@, event::FieldText::U64(e.timestamp_ns));
    let context = ("context"@, event::FieldText::U64(e.context));
    let none = Seq::<(Seq<char>, event::FieldText)>::empty();
    let a = ordered::put(none, pid.0, pid.1);
    assert(a == seq![pid]);
    let b = ordered::put(a, hook.0, hook.1);
    lemma_put_first(a, hook.0, hook.1);
    assert(b == seq![hook, pid]);
    let c = ordered::put(b, decision.0, decision.1);
    lemma_put_first(b, decision.0, decision.1);
    assert(c == seq![decision, hook, pid]);
    let d = ordered::put(c, caller.0, caller.1);
    lemma_put_first(c, caller.0, caller.1);
    assert(d == seq![caller, decision, hook, pid]);
    let f = ordered::put(d, target.0, target.1);
    ordered::lemma_put_passes(d, 4, target.0, target.1);
    assert(d.skip(4) == none && d.take(4) == d);
    assert(f == seq![caller, decision, hook, pid, target]);
    let g = ordered::put(f, source.0, source.1);
    ordered::lemma_put_passes(f, 4, source.0, source.1);
    lemma_put_first(f.skip(4), source.0, source.1);
    assert(g == seq![caller, decision, hook, pid, source, target]);
    ordered::lemma_put_passes(g, 1, context.0, context.1);
    lemma_put_first(g.skip(1), context.0, context.1);
    assert(ordered::put(g, context.0, context.1) == record_fields(codes, e));
}

/// Gathers what a record says.
fn record_builder(codes: &KernelCodes, e: &KernelEvent, host: Option<String>) -> (res:
    FalseEventBuilder)
    ensures
        res@ == record_draft(*codes, *e, text::text_in(host)),
{
    let name = event_name_for(codes, e.hook, e.decision);
    let level = if e.decision == codes.decision_error {
        Severity::Error
    } else {
        severity_for_event(name)
    };
    let zone_id = if e.caller_zone == 0 {
        "zone-unassigned".to_owned()
    } else {
        let mut zone_id = "zone-".to_owned();
        zone_id.append(decimal_of(e.caller_zone as u64).as_str());
        zone_id
    };
    let resource = resource_for(codes, e.hook, e.context);
    let mut actor = "pid:".to_owned();
    actor.append(decimal_of(e.pid as u64).as_str());
    let ghost known = text::text_in(host);
    let draft = FalseEventBuilder::new(name).level(level).zone(zone_id.as_str(), None).actor(
        actor.as_str(),
        Vec::new(),
    ).resource(resource.as_str()).resource_attributes(
        ResourceAttrs::new(BACKEND_LINUX_EBPF, host),
    ).field("pid", FieldValue::U64(e.pid as u64)).field(
        "hook",
        FieldValue::String(hook_name(e.hook).to_owned()),
    ).field("decision", FieldValue::String(decision_name(codes, e.decision).to_owned())).field(
        "caller_zone",
        FieldValue::U64(e.caller_zone as u64),
    ).field("target_zone", FieldValue::U64(e.target_zone as u64)).field(
        "source_timestamp_ns",
        FieldValue::U64(e.timestamp_ns),
    ).field("context", FieldValue::U64(e.context));
    proof {
        lemma_resource_is_kept(*codes, e.hook, e.context);
        lemma_actor_is_kept(e.pid);
        lemma_names_are_kept(*codes, e.hook, e.decision);
        lemma_fields_in_order(*codes, *e);
        assert(text::texts(Seq::<String>::empty()) == Seq::<Seq<char>>::empty());
        assert(bounds::bound_all(Seq::<Seq<char>>::empty()) == Seq::<Seq<char>>::empty());
        assert(draft@.actor == record_draft(*codes, *e, known).actor);
        assert(draft@ == record_draft(*codes, *e, known));
    }
    draft
}

/// Gathers what is told of a record with too few bytes.
fn undersized_builder(len: usize, host: Option<String>) -> (res: FalseEventBuilder)
    ensures
        res@ == undersized_draft(len as nat, text::text_in(host)),
{
    let ghost known = text::text_in(host);
    let draft = FalseEventBuilder::new(event_name::PIPELINE_SHED).level(Severity::Warn).zone(
        "zone-unknown",
        None,
    ).resource_attributes(ResourceAttrs::new(BACKEND_LINUX_EBPF, host)).field(
        "reason",
        FieldValue::String("undersized_enforcement_event".to_owned()),
    ).field("bytes", FieldValue::U64(len as u64));
    proof {
        reveal_strlit("undersized_enforcement_event");
        reveal_strlit("reason");
        reveal_strlit("bytes");
        assert("bytes"@[0] == 'b' && "reason"@[0] == 'r');
        let reason = ("reason"@, event::FieldText::Text("undersized_enforcement_event"@));
        let none = Seq::<(Seq<char>, event::FieldText)>::empty();
        assert(ordered::put(none, reason.0, reason.1) == seq![reason]);
        lemma_put_first(seq![reason], "bytes"@, event::FieldText::U64(len as u64));
        assert(draft@.fields == undersized_draft(len as nat, known).fields);
    }
    draft
}

/// The draft of the event that the bytes of a record are told as.
pub open spec fn told_as(
    codes: KernelCodes,
    layout: RecordLayout,
    bytes: Seq<u8>,
    host: Option<Seq<char>>,
) -> builder::Draft {
    if bytes.len() < layout.size {
        undersized_draft(bytes.len(), host)
    } else {
        record_draft(codes, record_in(bytes, layout), host)
    }
}

/// Whether an event is what a draft gives, at the event's own time.
pub open spec fn tells(e: event::EventText, draft: builder::Draft) -> bool {
    builder::built(draft, None, e.ts) == Ok::<event::EventText, Seq<char>>(e)
}

/// The canonical event of a record, at a time.
pub fn normalize_at(codes: &KernelCodes, e: &KernelEvent, host: Option<String>, ts: String) -> (res:
    FalseEvent)
    ensures
        res.ts@ == ts@,
        tells(res@, record_draft(*codes, *e, text::text_in(host))),
        builder::tidy_event(res@),
{
    let spare = host.clone();
    match record_builder(codes, e, host).build_at(None, ts) {
        Ok(evidence) => evidence,
        Err(_) => pipeline_shed_event("normalization_failed", BACKEND_LINUX_EBPF, spare),
    }
}

/// The canonical event of a record, now. Nothing that it needs can be missing, so
/// a record is never lost on the way.
pub fn normalize_enforcement_event(codes: &KernelCodes, e: &KernelEvent, host: Option<String>) -> (
res: FalseEvent)
    ensures
        tells(res@, record_draft(*codes, *e, text::text_in(host))),
        builder::tidy_event(res@),
        builder::stamped(res.ts@),
{
    let spare = host.clone();
    match record_builder(codes, e, host).build(None) {
        Ok(evidence) => evidence,
        Err(_) => pipeline_shed_event("normalization_failed", BACKEND_LINUX_EBPF, spare),
    }
}

/// The canonical event that the bytes of a record are told as, at a time. Bytes
/// that are no record are told as shed.
pub fn tell_record_at(
    codes: &KernelCodes,
    layout: &RecordLayout,
    bytes: &[u8],
    host: Option<String>,
    ts: String,
) -> (res: FalseEvent)
    requires
        layout.fits(),
    ensures
        res.ts@ == ts@,
        tells(res@, told_as(*codes, *layout, bytes@, text::text_in(host))),
        builder::tidy_event(res@),
{
    match read_record(bytes, layout) {
        Some(e) => normalize_at(codes, &e, host, ts),
        None => {
            let spare = host.clone();
            match undersized_builder(bytes.len(), host).build_at(None, ts) {
                Ok(evidence) => evidence,
                Err(_) => pipeline_shed_event(
                    "undersized_enforcement_event",
                    BACKEND_LINUX_EBPF,
                    spare,
                ),
            }
        },
    }
}

/// The canonical event that the bytes of a record are told as, now.
pub fn tell_record(
    codes: &KernelCodes,
    layout: &RecordLayout,
    bytes: &[u8],
    host: Option<String>,
) -> (res: FalseEvent)
    requires
        layout.fits(),
    ensures
        tells(res@, told_as(*codes, *layout, bytes@, text::text_in(host))),
        builder::tidy_event(res@),
        builder::stamped(res.ts@),
{
    match read_record(bytes, layout) {
        Some(e) => normalize_enforcement_event(codes, &e, host),
        None => {
            let spare = host.clone();
            match undersized_builder(bytes.len(), host).build(None) {
                Ok(evidence) => evidence,
                Err(_) => pipeline_shed_event(
                    "undersized_enforcement_event",
                    BACKEND_LINUX_EBPF,
                    spare,
                ),
            }
        },
    }
}

/// Whether a hook is one that the programs have.
pub open spec fn known_hook(codes: KernelCodes, hook: u8) -> bool {
    ||| hook == codes.hook_file_open
    ||| hook == codes.hook_bprm_check
    ||| hook == codes.hook_ptrace_check
    ||| hook == codes.hook_task_kill
    ||| hook == codes.hook_cgroup_attach
    ||| hook == codes.hook_socket_connect
    ||| hook == codes.hook_capable
}

/// Every run of bytes in the ring buffer is told as an event: none is dropped
/// silently.
pub proof fn law_no_record_is_silent(
    codes: KernelCodes,
    layout: RecordLayout,
    bytes: Seq<u8>,
    host: Option<Seq<char>>,
    ts: Seq<char>,
)
    ensures
        builder::built(told_as(codes, layout, bytes, host), None, ts) is Ok,
{
}

/// What a program could not decide is told as an error of the pipeline, at
/// whichever hook it was.
pub proof fn law_undecided_is_an_error(
    codes: KernelCodes,
    e: KernelEvent,
    host: Option<Seq<char>>,
)
    requires
        e.decision == codes.decision_error,
    ensures
        record_draft(codes, e, host).event == Some(event_name::PIPELINE_SHED@),
        record_draft(codes, e, host).level == Some(Severity::Error),
{
}

/// What a program decided at one of its hooks is told as a denial, as grave as
/// such an event usually is.
pub proof fn law_decided_is_a_denial(codes: KernelCodes, e: KernelEvent, host: Option<Seq<char>>)
    requires
        e.decision != codes.decision_error,
        known_hook(codes, e.hook),
    ensures
        ({
            let name = name_for(codes, e.hook, e.decision);
            &&& record_draft(codes, e, host).event == Some(name)
            &&& record_draft(codes, e, host).level == Some(narrative::usual_severity(name))
            &&& narrative::is_denial(name)
        }),
{
    reveal_strlit("zone.file.denied");
    reveal_strlit("zone.exec.denied");
    reveal_strlit("zone.ptrace.denied");
    reveal_strlit("zone.signal.denied");
    reveal_strlit("zone.mount.denied");
    reveal_strlit("zone.net.denied");
    reveal_strlit("zone.escape.cgroup_attach");
    reveal_strlit("ringbuf.drop");
    assert("ringbuf.drop"@[0] == 'r');
    assert("zone.file.denied"@[0] == 'z' && "zone.file.denied"@[6] == 'i');
    assert("zone.exec.denied"@[0] == 'z' && "zone.exec.denied"@[6] == 'x');
    assert("zone.ptrace.denied"@[0] == 'z' && "zone.ptrace.denied"@[6] == 't');
    assert("zone.signal.denied"@[0] == 'z' && "zone.signal.denied"@[6] == 'i');
    assert("zone.mount.denied"@[0] == 'z' && "zone.mount.denied"@[6] == 'o');
    assert("zone.net.denied"@[0] == 'z' && "zone.net.denied"@[6] == 'e');
    assert("zone.escape.cgroup_attach"@[0] == 'z' && "zone.escape.cgroup_attach"@[6] == 's');
}

/// Whether an event has this value under this name.
pub open spec fn field_said(told: event::EventText, name: Seq<char>, value: event::FieldText) -> bool {
    ordered::lookup(told.fields, name) == Some(value)
}

/// Whether an event says that it comes from the hook of this name.
pub open spec fn told_hook(told: event::EventText, name: Seq<char>) -> bool {
    field_said(told, "hook"@, event::FieldText::Text(name))
}

/// Whether the programs number their hooks and decisions in the order of the table
/// of hooks.
pub open spec fn numbered_in_order(codes: KernelCodes) -> bool {
    &&& codes.hook_file_open == 0
    &&& codes.hook_bprm_check == 1
    &&& codes.hook_ptrace_check == 2
    &&& codes.hook_task_kill == 3
    &&& codes.hook_cgroup_attach == 4
    &&& codes.hook_capable == 5
    &&& codes.hook_socket_connect == 6
}

/// The names of a record's fields differ, and rise.
proof fn lemma_field_names()
    ensures
        "caller_zone"@[0] == 'c' && "caller_zone"@[1] == 'a',
        "context"@[0] == 'c' && "context"@[1] == 'o',
        "decision"@[0] == 'd',
        "hook"@[0] == 'h',
        "pid"@[0] == 'p',
        "source_timestamp_ns"@[0] == 's',
        "target_zone"@[0] == 't',
{
    reveal_strlit("caller_zone");
    reveal_strlit("context");
    reveal_strlit("decision");
    reveal_strlit("hook");
    reveal_strlit("pid");
    reveal_strlit("source_timestamp_ns");
    reveal_strlit("target_zone");
}

/// Whatever a record says is told under the name of what it is: each number of the
/// record is found again in the event, under that name and no other, and the names of
/// the hook and of the decision are those of their numbers.
pub proof fn law_record_is_told(
    codes: KernelCodes,
    e: KernelEvent,
    host: Option<Seq<char>>,
    told: event::EventText,
)
    requires
        tells(told, record_draft(codes, e, host)),
    ensures
        field_said(told, "pid"@, event::FieldText::U64(e.pid as u64)),
        field_said(told, "caller_zone"@, event::FieldText::U64(e.caller_zone as u64)),
        field_said(told, "target_zone"@, event::FieldText::U64(e.target_zone as u64)),
        field_said(told, "source_timestamp_ns"@, event::FieldText::U64(e.timestamp_ns)),
        field_said(told, "context"@, event::FieldText::U64(e.context)),
        told.fields.len() == 7,
        e.hook == 0 ==> field_said(told, "hook"@, event::FieldText::Text("file_open"@)),
        e.hook == 1 ==> field_said(told, "hook"@, event::FieldText::Text("bprm_check"@)),
        e.hook == 2 ==> field_said(told, "hook"@, event::FieldText::Text("ptrace_access_check"@)),
        e.hook == 3 ==> field_said(told, "hook"@, event::FieldText::Text("task_kill"@)),
        e.hook == 4 ==> field_said(told, "hook"@, event::FieldText::Text("cgroup_attach_task"@)),
        e.hook == 5 ==> field_said(told, "hook"@, event::FieldText::Text("capable"@)),
        e.hook == 6 ==> field_said(told, "hook"@, event::FieldText::Text("socket_connect"@)),
        e.hook > 6 ==> field_said(told, "hook"@, event::FieldText::Text("unknown"@)),
        e.decision == codes.decision_allow ==> field_said(
            told,
            "decision"@,
            event::FieldText::Text("allow"@),
        ),
        e.decision == codes.decision_deny && codes.decision_deny != codes.decision_allow
            ==> field_said(told, "decision"@, event::FieldText::Text("deny"@)),
        e.decision == codes.decision_error && codes.decision_error != codes.decision_allow
            && codes.decision_error != codes.decision_deny ==> field_said(
            told,
            "decision"@,
            event::FieldText::Text("error"@),
        ),
        e.decision != codes.decision_allow && e.decision != codes.decision_deny && e.decision
            != codes.decision_error ==> field_said(
            told,
            "decision"@,
            event::FieldText::Text("unknown"@),
        ),
        told.zone.name is None,
        e.caller_zone == 0 ==> told.zone.id == "zone-unassigned"@,
        e.caller_zone != 0 ==> told.zone.id == "zone-"@ + number::decimal(e.caller_zone as nat),
        told.actor matches Some(actor) && actor.id == "pid:"@ + number::decimal(e.pid as nat)
            && actor.delegation.len() == 0,
        told.trace_id is None,
        told.backend == "linux-ebpf"@,
        told.attributes.backend == "linux-ebpf"@,
        told.attributes.host == host,
        told.attributes.node is None,
        told.attributes.container_id is None,
        told.attributes.kernel_version is None,
        told.otel.log_body == told.event,
        told.otel.event_attributes.len() == 7,
{
    lemma_field_names();
    let fields = record_fields(codes, e);
    assert(told.fields == fields);
    ordered::lemma_first_is_looked_up(fields, 0);
    ordered::lemma_first_is_looked_up(fields, 1);
    ordered::lemma_first_is_looked_up(fields, 2);
    ordered::lemma_first_is_looked_up(fields, 3);
    ordered::lemma_first_is_looked_up(fields, 4);
    ordered::lemma_first_is_looked_up(fields, 5);
    ordered::lemma_first_is_looked_up(fields, 6);
}

/// The name of an event and the name of the hook that it says it comes from agree:
/// what was refused at a hook is told as that hook's denial, under that hook's name.
pub proof fn law_hook_agrees_with_event(
    codes: KernelCodes,
    e: KernelEvent,
    host: Option<Seq<char>>,
    told: event::EventText,
)
    requires
        tells(told, record_draft(codes, e, host)),
        numbered_in_order(codes),
        e.decision != codes.decision_error,
    ensures
        e.hook == 0 ==> told.event == "zone.file.denied"@ && told_hook(told, "file_open"@),
        e.hook == 1 ==> told.event == "zone.exec.denied"@ && told_hook(told, "bprm_check"@),
        e.hook == 2 ==> told.event == "zone.ptrace.denied"@ && told_hook(told, "ptrace_access_check"@),
        e.hook == 3 ==> told.event == "zone.signal.denied"@ && told_hook(told, "task_kill"@),
        e.hook == 4 ==> told.event == "zone.escape.cgroup_attach"@ && told_hook(told, "cgroup_attach_task"@),
        e.hook == 5 ==> told.event == "zone.mount.denied"@ && told_hook(told, "capable"@),
        e.hook == 6 ==> told.event == "zone.net.denied"@ && told_hook(told, "socket_connect"@),
        e.hook > 6 ==> told.event == "pipeline.shed"@ && told_hook(told, "unknown"@),
{
    law_record_is_told(codes, e, host, told);
}

/// What was acted on is told as what the hook acts on: an inode where a file is opened
/// or run, a control group where a task is moved, a socket where one is connected, and
/// as unknown elsewhere.
pub proof fn law_resource_is_what_the_hook_acts_on(
    codes: KernelCodes,
    e: KernelEvent,
    host: Option<Seq<char>>,
    told: event::EventText,
)
    requires
        tells(told, record_draft(codes, e, host)),
        numbered_in_order(codes),
    ensures
        e.hook == 0 || e.hook == 1 ==> told.resource == Some(
            "inode:"@ + number::decimal(e.context as nat),
        ),
        e.hook == 4 ==> told.resource == Some("cgroup:"@ + number::decimal(e.context as nat)),
        e.hook == 6 ==> told.resource == Some("socket:"@ + number::decimal(e.context as nat)),
        e.hook == 2 || e.hook == 3 || e.hook == 5 || e.hook > 6 ==> told.resource == Some(
            "kernel-object:unknown"@,
        ),
{
}

/// How grave a record is told to be: an error where the program could not decide or a
/// task was about to leave its control group, a warning for every other denial, and a
/// mere note where nothing is known of the hook.
pub proof fn law_record_is_as_grave_as_its_hook(
    codes: KernelCodes,
    e: KernelEvent,
    host: Option<Seq<char>>,
    told: event::EventText,
)
    requires
        tells(told, record_draft(codes, e, host)),
        numbered_in_order(codes),
    ensures
        e.decision == codes.decision_error ==> told.event == "pipeline.shed"@ && told.level
            is Error,
        e.decision != codes.decision_error ==> {
            &&& e.hook == 4 ==> told.level is Error
            &&& e.hook <= 6 && e.hook != 4 ==> told.level is Warn
            &&& e.hook > 6 ==> told.level is Info
        },
{
    reveal_strlit("zone.file.denied");
    reveal_strlit("zone.exec.denied");
    reveal_strlit("zone.ptrace.denied");
    reveal_strlit("zone.signal.denied");
    reveal_strlit("zone.mount.denied");
    reveal_strlit("zone.ipc.denied");
    reveal_strlit("zone.net.denied");
    reveal_strlit("zone.escape.cgroup_attach");
    reveal_strlit("pipeline.shed");
    assert("pipeline.shed"@[0] == 'p');
    assert("zone.file.denied"@[0] == 'z' && "zone.file.denied"@[6] == 'i');
    assert("zone.exec.denied"@[0] == 'z' && "zone.exec.denied"@[6] == 'x');
    assert("zone.ptrace.denied"@[0] == 'z' && "zone.ptrace.denied"@[6] == 't');
    assert("zone.signal.denied"@[0] == 'z' && "zone.signal.denied"@[6] == 'i');
    assert("zone.mount.denied"@[0] == 'z' && "zone.mount.denied"@[6] == 'o');
    assert("zone.net.denied"@[0] == 'z' && "zone.net.denied"@[6] == 'e');
    assert("zone.ipc.denied"@[0] == 'z' && "zone.ipc.denied"@[6] == 'p');
    assert("zone.escape.cgroup_attach"@[0] == 'z' && "zone.escape.cgroup_attach"@[6] == 's');
}

/// Bytes that are no record are told as a warning of the pipeline that says how many
/// bytes there were, and of no zone.
pub proof fn law_short_record_is_told(
    codes: KernelCodes,
    layout: RecordLayout,
    bytes: Seq<u8>,
    host: Option<Seq<char>>,
    told: event::EventText,
)
    requires
        tells(told, told_as(codes, layout, bytes, host)),
        bytes.len() < layout.size,
    ensures
        told.event == "pipeline.shed"@,
        told.level is Warn,
        told.zone.id == "zone-unknown"@,
        told.zone.name is None,
        told.actor is None,
        told.resource is None,
        told.trace_id is None,
        told.backend == "linux-ebpf"@,
        told.attributes.host == host,
        told.fields.len() == 2,
        field_said(told, "bytes"@, event::FieldText::U64(bytes.len() as u64)),
        field_said(
            told,
            "reason"@,
            event::FieldText::Text("undersized_enforcement_event"@),
        ),
{
    reveal_strlit("reason");
    reveal_strlit("bytes");
    assert("bytes"@[0] == 'b' && "reason"@[0] == 'r');
    ordered::lemma_first_is_looked_up(told.fields, 0);
    ordered::lemma_first_is_looked_up(told.fields, 1);
}

/// The four bytes from `at`, the lowest first.
pub open spec fn four_bytes(b: Seq<u8>, at: int) -> int {
    b[at] + 0x100 * b[at + 1] + 0x1_0000 * b[at + 2] + 0x100_0000 * b[at + 3]
}

/// The four bytes from `at`, the highest first.
pub open spec fn four_bytes_back(b: Seq<u8>, at: int) -> int {
    0x100_0000 * b[at] + 0x1_0000 * b[at + 1] + 0x100 * b[at + 2] + b[at + 3]
}

/// A record that is long enough is told by what its bytes hold at the places that the
/// layout gives: each number out of its own bytes, in the machine's order.
pub proof fn law_record_is_read_where_it_stands(
    codes: KernelCodes,
    layout: RecordLayout,
    bytes: Seq<u8>,
    host: Option<Seq<char>>,
    told: event::EventText,
    e: KernelEvent,
)
    requires
        tells(told, told_as(codes, layout, bytes, host)),
        bytes.len() >= layout.size,
        e == record_in(bytes, layout),
    ensures
        tells(told, record_draft(codes, e, host)),
        e.hook == bytes[layout.hook as int],
        e.decision == bytes[layout.decision as int],
        !layout.big_endian ==> {
            &&& e.pid == four_bytes(bytes, layout.pid as int)
            &&& e.caller_zone == four_bytes(bytes, layout.caller_zone as int)
            &&& e.target_zone == four_bytes(bytes, layout.target_zone as int)
            &&& e.timestamp_ns == four_bytes(bytes, layout.timestamp_ns as int) + 0x1_0000_0000
                * four_bytes(bytes, layout.timestamp_ns + 4)
            &&& e.context == four_bytes(bytes, layout.context as int) + 0x1_0000_0000 * four_bytes(
                bytes,
                layout.context + 4,
            )
        },
        layout.big_endian ==> {
            &&& e.pid == four_bytes_back(bytes, layout.pid as int)
            &&& e.caller_zone == four_bytes_back(bytes, layout.caller_zone as int)
            &&& e.target_zone == four_bytes_back(bytes, layout.target_zone as int)
            &&& e.timestamp_ns == 0x1_0000_0000 * four_bytes_back(
                bytes,
                layout.timestamp_ns as int,
            ) + four_bytes_back(bytes, layout.timestamp_ns + 4)
            &&& e.context == 0x1_0000_0000 * four_bytes_back(bytes, layout.context as int)
                + four_bytes_back(bytes, layout.context + 4)
        },
{
    lemma_four(bytes, layout.pid as int);
    lemma_four(bytes, layout.caller_zone as int);
    lemma_four(bytes, layout.target_zone as int);
    lemma_four(bytes, layout.timestamp_ns as int);
    lemma_four(bytes, layout.timestamp_ns + 4);
    lemma_four(bytes, layout.context as int);
    lemma_four(bytes, layout.context + 4);
    lemma_halves(bytes, layout.timestamp_ns as int);
    lemma_halves(bytes, layout.context as int);
}

/// Four bytes, either way round.
proof fn lemma_four(bytes: Seq<u8>, at: int)
    ensures
        little_endian(bytes, at, 4) == four_bytes(bytes, at),
        big_endian(bytes, at, 4) == four_bytes_back(bytes, at),
        0 <= four_bytes(bytes, at) < 0x1_0000_0000,
        0 <= four_bytes_back(bytes, at) < 0x1_0000_0000,
{
    reveal_with_fuel(little_endian, 5);
    reveal_with_fuel(big_endian, 5);
    lemma_byte(bytes[at]);
    lemma_byte(bytes[at + 1]);
    lemma_byte(bytes[at + 2]);
    lemma_byte(bytes[at + 3]);
}

/// A byte is under 256.
proof fn lemma_byte(b: u8)
    ensures
        0 <= b < 256,
{
}

} // verus!
