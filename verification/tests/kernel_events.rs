use rauha::evidence::event::{FieldValue, Severity};
use rauha::kernel_events::{
    normalize_at, normalize_enforcement_event, read_record, tell_record, tell_record_at,
    KernelCodes, KernelEvent, RecordLayout,
};

const CODES: KernelCodes = KernelCodes {
    hook_file_open: 0,
    hook_bprm_check: 1,
    hook_ptrace_check: 2,
    hook_task_kill: 3,
    hook_cgroup_attach: 4,
    hook_capable: 5,
    hook_socket_connect: 6,
    decision_allow: 0,
    decision_deny: 1,
    decision_error: 2,
};

const LAYOUT: RecordLayout = RecordLayout {
    size: 40,
    timestamp_ns: 0,
    pid: 8,
    hook: 12,
    decision: 13,
    caller_zone: 16,
    target_zone: 20,
    context: 24,
    big_endian: false,
};

const TS: &str = "2026-06-22T01:02:03.004Z";

fn record(hook: u8, decision: u8) -> KernelEvent {
    KernelEvent {
        timestamp_ns: 5,
        pid: 42,
        hook,
        decision,
        caller_zone: 7,
        target_zone: 8,
        context: 99,
    }
}

#[test]
fn records_are_read_byte_by_byte() {
    let mut bytes: Vec<u8> = Vec::new();
    bytes.extend_from_slice(&0x0102030405060708u64.to_le_bytes());
    bytes.extend_from_slice(&0xdeadbeefu32.to_le_bytes());
    bytes.extend_from_slice(&[6, 1, 0xaa, 0xbb]);
    bytes.extend_from_slice(&7u32.to_le_bytes());
    bytes.extend_from_slice(&u32::MAX.to_le_bytes());
    bytes.extend_from_slice(&u64::MAX.to_le_bytes());
    bytes.extend_from_slice(&[0; 8]);
    let e = read_record(&bytes, &LAYOUT).unwrap();
    assert_eq!(
        e,
        KernelEvent {
            timestamp_ns: 0x0102030405060708,
            pid: 0xdeadbeef,
            hook: 6,
            decision: 1,
            caller_zone: 7,
            target_zone: u32::MAX,
            context: u64::MAX,
        }
    );
    assert_eq!(read_record(&bytes[..39], &LAYOUT), None);
    bytes.push(1);
    assert!(read_record(&bytes, &LAYOUT).is_some());
}

#[test]
fn records_are_read_in_the_order_of_the_machine() {
    let mut bytes: Vec<u8> = Vec::new();
    bytes.extend_from_slice(&0x0102030405060708u64.to_be_bytes());
    bytes.extend_from_slice(&0xdeadbeefu32.to_be_bytes());
    bytes.extend_from_slice(&[6, 1, 0xaa, 0xbb]);
    bytes.extend_from_slice(&7u32.to_be_bytes());
    bytes.extend_from_slice(&0x01020304u32.to_be_bytes());
    bytes.extend_from_slice(&u64::MAX.to_be_bytes());
    bytes.extend_from_slice(&[0; 8]);
    let e = read_record(&bytes, &RecordLayout { big_endian: true, ..LAYOUT }).unwrap();
    assert_eq!(e.timestamp_ns, 0x0102030405060708);
    assert_eq!(e.pid, 0xdeadbeef);
    assert_eq!((e.hook, e.decision), (6, 1));
    assert_eq!((e.caller_zone, e.target_zone), (7, 0x01020304));
    assert_eq!(e.context, u64::MAX);
}

#[test]
fn denials_are_told_with_all_they_say() {
    let event = normalize_at(&CODES, &record(0, 1), Some("host".into()), TS.to_string());
    assert_eq!(event.event, "zone.file.denied");
    assert_eq!(event.level, Severity::Warn);
    assert_eq!(event.zone.id, "zone-7");
    assert_eq!(event.actor.as_ref().unwrap().id, "pid:42");
    assert_eq!(event.resource.as_deref(), Some("inode:99"));
    assert_eq!(event.backend, "linux-ebpf");
    assert_eq!(event.resource_attributes.host.as_deref(), Some("host"));
    assert_eq!(
        event.fields.keys(),
        vec!["caller_zone", "context", "decision", "hook", "pid", "source_timestamp_ns", "target_zone"]
    );
    assert_eq!(event.fields.get("decision"), Some(&FieldValue::String("deny".into())));
    assert_eq!(event.fields.get("hook"), Some(&FieldValue::String("file_open".into())));
    assert_eq!(event.fields.get("source_timestamp_ns"), Some(&FieldValue::U64(5)));
}

#[test]
fn hooks_have_their_events() {
    let told = |hook: u8, decision: u8| {
        let e = normalize_enforcement_event(&CODES, &record(hook, decision), None);
        (e.event, e.level, e.resource.unwrap())
    };
    let unknown = "kernel-object:unknown".to_string();
    assert_eq!(told(1, 1), ("zone.exec.denied".into(), Severity::Warn, "inode:99".into()));
    assert_eq!(told(2, 1), ("zone.ptrace.denied".into(), Severity::Warn, unknown.clone()));
    assert_eq!(told(3, 1), ("zone.signal.denied".into(), Severity::Warn, unknown.clone()));
    assert_eq!(told(4, 1), ("zone.escape.cgroup_attach".into(), Severity::Error, "cgroup:99".into()));
    assert_eq!(told(5, 1), ("zone.mount.denied".into(), Severity::Warn, unknown.clone()));
    assert_eq!(told(6, 1), ("zone.net.denied".into(), Severity::Warn, "socket:99".into()));
    assert_eq!(told(9, 1), ("pipeline.shed".into(), Severity::Info, unknown));
    assert_eq!(told(0, 2), ("pipeline.shed".into(), Severity::Error, "inode:99".into()));
}

#[test]
fn what_has_no_name_is_unknown() {
    let mut e = record(7, 9);
    e.caller_zone = 0;
    let event = normalize_at(&CODES, &e, None, TS.to_string());
    assert_eq!(event.zone.id, "zone-unassigned");
    assert_eq!(event.fields.get("hook"), Some(&FieldValue::String("unknown".into())));
    assert_eq!(event.fields.get("decision"), Some(&FieldValue::String("unknown".into())));
}

#[test]
fn bytes_that_are_no_record_are_told_as_shed() {
    let event = tell_record_at(&CODES, &LAYOUT, &[1, 2, 3], None, TS.to_string());
    assert_eq!(event.event, "pipeline.shed");
    assert_eq!(event.level, Severity::Warn);
    assert_eq!(event.zone.id, "zone-unknown");
    assert_eq!(event.fields.get("bytes"), Some(&FieldValue::U64(3)));
    assert_eq!(
        event.fields.get("reason"),
        Some(&FieldValue::String("undersized_enforcement_event".into()))
    );
    let event = tell_record(&CODES, &LAYOUT, &[0; 40], None);
    assert_eq!(event.event, "zone.file.denied");
    assert_eq!(event.zone.id, "zone-unassigned");
    assert_eq!(tell_record(&CODES, &LAYOUT, &[], None).event, "pipeline.shed");
}

#[test]
fn layouts_are_checked() {
    assert!(LAYOUT.is_sound());
    assert!(!RecordLayout { size: 31, ..LAYOUT }.is_sound());
    assert!(RecordLayout { size: 32, ..LAYOUT }.is_sound());
    assert!(!RecordLayout { size: 0, ..LAYOUT }.is_sound());
    assert!(!RecordLayout { pid: 37, ..LAYOUT }.is_sound());
    assert!(!RecordLayout { hook: usize::MAX, ..LAYOUT }.is_sound());
}
