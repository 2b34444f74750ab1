use rauha::evidence::bounds::{bound_string, redact_and_bound};
use rauha::evidence::builder::{
    pipeline_shed_event, pipeline_shed_event_at, FalseEventBuilder,
};
use rauha::evidence::error::EvidenceError;
use rauha::evidence::event::{
    display_field, FalseEvent, FieldValue, ResourceAttrs, Severity, BACKEND_LINUX_EBPF,
    BACKEND_MACOS_VM,
};
use rauha::evidence::event_name;
use rauha::evidence::labels::{metric_label_set, validate_metric_labels};
use rauha::evidence::narrative::{default_severity, narrative_for};
use rauha::evidence::sinks::{OtlpSink, SinkError, StdoutSink};

const TS: &str = "2026-06-22T01:02:03.004Z";

fn sample() -> FalseEvent {
    FalseEventBuilder::new(event_name::ZONE_FILE_DENIED)
        .zone("zone-7", None)
        .actor("pid:42", vec!["svc:builder".into()])
        .resource("inode:99")
        .resource_attributes(ResourceAttrs::new(BACKEND_LINUX_EBPF, Some("h\"1".to_string())))
        .field("pid", FieldValue::U64(42))
        .field("inode", FieldValue::U64(99))
        .build_at(None, TS.to_string())
        .unwrap()
}

#[test]
fn metric_labels_reject_high_cardinality() {
    assert!(validate_metric_labels(&["event", "zone.bucket"]).is_ok());
    assert!(validate_metric_labels(&["event", "zone.id"]).is_err());
}

#[test]
fn renders_machine_and_human_projection() {
    let event = FalseEventBuilder::new(event_name::ZONE_FILE_DENIED)
        .zone("zone-7", None)
        .actor("pid:42", vec!["svc:builder".into()])
        .resource("inode:99")
        .resource_attributes(ResourceAttrs::new(BACKEND_LINUX_EBPF, None))
        .field("pid", FieldValue::U64(42))
        .field("inode", FieldValue::U64(99))
        .build(None)
        .unwrap();

    assert!(event.machine_json().unwrap().contains("zone.file.denied"));
    assert!(event.compact_human().contains("zone.file.denied"));
    assert!(event.expanded_human().contains("delegation"));
}

#[test]
fn events_are_written_as_json_in_the_order_of_the_schema() {
    let mut text = String::new();
    text.push_str(r#"{"ts":"2026-06-22T01:02:03.004Z","level":"WARN","event":"zone.file.denied","#);
    text.push_str(r#""zone":{"id":"zone-7"},"actor":{"id":"pid:42","delegation":["svc:builder"]},"#);
    text.push_str(r#""resource":"inode:99","backend":"linux-ebpf","what_failed":"cross-zone file_open","#);
    text.push_str(r#""why_it_matters":"file inode belongs to a different zone than the caller","#);
    text.push_str(r#""possible_causes":["policy drift","mislabeled mount","escape attempt"],"#);
    text.push_str(r#""resource_attributes":{"backend":"linux-ebpf","host":"h\"1"},"#);
    text.push_str(r#""fields":{"inode":99,"pid":42},"otel":{"log_body":"zone.file.denied","#);
    text.push_str(r#""severity_text":"WARN","resource_attributes":["service.name=rauhad","backend","#);
    text.push_str(r#""host","node","container.id","kernel.version"],"event_attributes":["inode","pid"]}}"#);
    assert_eq!(sample().machine_json().unwrap(), text);
}

#[test]
fn json_that_is_written_is_json() {
    let event = FalseEventBuilder::new("a\u{1}\\\"\n\u{e9}\u{7f}")
        .level(Severity::Trace)
        .zone("z", Some("name".to_string()))
        .trace_id("t")
        .field("s", FieldValue::String("\t\u{8}\u{c}\r\u{1f}".to_string()))
        .field("i", FieldValue::I64(-5))
        .field("b", FieldValue::Bool(true))
        .field("l", FieldValue::StringList(vec!["x".to_string(), "y,".to_string()]))
        .build_at(Some("host".to_string()), TS.to_string())
        .unwrap();
    let json = event.machine_json().unwrap();
    let value: serde_json::Value = serde_json::from_str(&json).unwrap();
    assert_eq!(value["event"], "a\u{1}\\\"\n\u{e9}\u{7f}");
    assert_eq!(value["level"], "TRACE");
    assert_eq!(value["zone"]["name"], "name");
    assert_eq!(value["trace_id"], "t");
    assert_eq!(value["fields"]["s"], "\t\u{8}\u{c}\r\u{1f}");
    assert_eq!(value["fields"]["i"], -5);
    assert_eq!(value["fields"]["b"], true);
    assert_eq!(value["fields"]["l"][1], "y,");
    assert_eq!(value["resource_attributes"]["host"], "host");
    assert!(value.get("actor").is_none());
    assert!(value.get("resource").is_none());
    assert!(json.contains("\\u0001"));
    assert!(json.contains("\\u001f"));
    assert!(!json.contains('\n'));
    assert_eq!(StdoutSink.emit(&event).unwrap().lines().count(), 1);
}

#[test]
fn people_are_told_in_short() {
    assert_eq!(
        sample().compact_human(),
        "01:02:03  WARN   zone.file.denied           zone-7/pid:42 -> inode:99\n                cross-zone file_open · file inode belongs to a different zone than the caller"
    );
    let bare = FalseEventBuilder::new("a.name.that.is.longer.than.its.column")
        .zone("z", None)
        .build_at(None, "short".to_string())
        .unwrap();
    assert_eq!(
        bare.compact_human(),
        "short  INFO   a.name.that.is.longer.than.its.column z/unknown-actor -> -\n                a name that is longer than its column · event records a zone lifecycle or evidence state transition"
    );
}

#[test]
fn people_are_told_in_full() {
    assert_eq!(
        sample().expanded_human(),
        "01:02:03  WARN  zone.file.denied\n  zone          zone-7\n  actor         pid:42\n  delegation    svc:builder\n  resource      inode:99   backend  linux-ebpf\n  why           file inode belongs to a different zone than the caller\n  inode         99\n  pid           42\n"
    );
    let bare = FalseEventBuilder::new(event_name::ZONE_CREATED)
        .zone("z", None)
        .actor("me", vec![])
        .field("a.long.field.name", FieldValue::StringList(vec!["x".into(), "y".into()]))
        .build_at(None, TS.to_string())
        .unwrap();
    assert_eq!(
        bare.expanded_human(),
        "01:02:03  INFO  zone.created\n  zone          z\n  actor         me\n  backend       linux-ebpf\n  why           event records a zone lifecycle or evidence state transition\n  a.long.field.name x,y\n"
    );
}

#[test]
fn the_time_of_day_is_cut_out_by_bytes() {
    let at = |ts: &str| {
        FalseEventBuilder::new("e")
            .zone("z", None)
            .build_at(None, ts.to_string())
            .unwrap()
            .compact_human()
    };
    assert!(at("0123456789\u{e9}12345678").starts_with("0123456789\u{e9}12345678  INFO"));
    assert!(at("012345678\u{e9}12345678x").starts_with("12345678  INFO"));
    assert!(at("0123456789-12345678").starts_with("12345678  INFO"));
    assert!(at("0123456789-1234567").starts_with("0123456789-1234567  INFO"));
}

#[test]
fn events_are_stamped_when_they_are_built() {
    let event = FalseEventBuilder::new("e").zone("z", None).build(None).unwrap();
    assert_eq!(event.ts.len(), 24);
    assert!(event.ts.ends_with('Z'));
    assert_eq!(&event.ts[10..11], "T");
    assert!(event.ts.as_str() > "2024-01-01T00:00:00.000Z");
    let shed = pipeline_shed_event("slow", BACKEND_MACOS_VM, None);
    assert_eq!(shed.ts.len(), 24);
    assert_eq!(shed.backend, "macos-vm");
}

#[test]
fn an_event_needs_a_name_and_a_zone() {
    let missing = FalseEventBuilder::default().zone("z", None).build_at(None, TS.to_string());
    assert_eq!(missing.unwrap_err(), EvidenceError::MissingField("event"));
    let missing = FalseEventBuilder::new("e").build(None);
    assert_eq!(missing.as_ref().unwrap_err(), &EvidenceError::MissingField("zone"));
    assert_eq!(missing.unwrap_err().message(), "missing evidence field: zone");
}

#[test]
fn what_is_not_said_is_what_is_usual() {
    let event = FalseEventBuilder::new(event_name::RINGBUF_DROP)
        .zone("z", None)
        .build_at(Some("box".to_string()), TS.to_string())
        .unwrap();
    assert_eq!(event.level, Severity::Error);
    assert_eq!(event.backend, "linux-ebpf");
    assert_eq!(event.resource_attributes.host.as_deref(), Some("box"));
    assert_eq!(event.otel.log_body, "ringbuf.drop");
    assert_eq!(event.otel.severity_text, "ERROR");
    assert_eq!(event.possible_causes, vec!["burst exceeded ring buffer", "userspace reader lagged"]);
}

#[test]
fn a_field_is_replaced_by_the_next_of_its_name() {
    let event = FalseEventBuilder::new("e")
        .zone("z", None)
        .field("k", FieldValue::U64(1))
        .field("k", FieldValue::Bool(false))
        .build_at(None, TS.to_string())
        .unwrap();
    assert_eq!(event.fields.len(), 1);
    assert_eq!(event.fields.get("k"), Some(&FieldValue::Bool(false)));
    assert_eq!(event.otel.event_attributes, vec!["k"]);
}

#[test]
fn long_texts_are_cut() {
    let long = "\u{e9}".repeat(4097);
    let cut = bound_string(&long);
    assert_eq!(cut, format!("{}...[truncated]", "\u{e9}".repeat(4096)));
    assert_eq!(bound_string(&"x".repeat(4096)), "x".repeat(4096));
    let event = FalseEventBuilder::new("e")
        .zone("z", Some(long.clone()))
        .actor(&long, vec![long.clone()])
        .resource(&long)
        .trace_id(&long)
        .field("f", FieldValue::String(long.clone()))
        .field("l", FieldValue::StringList(vec![long.clone()]))
        .build_at(None, TS.to_string())
        .unwrap();
    assert_eq!(event.zone.name.unwrap(), cut);
    let actor = event.actor.unwrap();
    assert_eq!(actor.id, cut);
    assert_eq!(actor.delegation, vec![cut.clone()]);
    assert_eq!(event.resource.unwrap(), cut);
    assert_eq!(event.trace_id.unwrap(), cut);
    assert_eq!(event.fields.get("f"), Some(&FieldValue::String(cut.clone())));
    assert_eq!(event.fields.get("l"), Some(&FieldValue::StringList(vec![cut])));
}

#[test]
fn what_speaks_of_a_secret_is_replaced() {
    for s in ["/run/Secrets/x", "my PASSWORD", "apitOkEn", &"a".repeat(5000).replace('a', "token")] {
        assert_eq!(redact_and_bound(s), "[redacted]");
    }
    assert_eq!(redact_and_bound("inode:7"), "inode:7");
    let event = FalseEventBuilder::new("e")
        .zone("z", None)
        .resource("file:/etc/token")
        .build_at(None, TS.to_string())
        .unwrap();
    assert_eq!(event.resource.as_deref(), Some("[redacted]"));
}

#[test]
fn fields_are_shown() {
    assert_eq!(display_field(&FieldValue::String("s".into())), "s");
    assert_eq!(display_field(&FieldValue::U64(7)), "7");
    assert_eq!(display_field(&FieldValue::I64(-7)), "-7");
    assert_eq!(display_field(&FieldValue::Bool(true)), "true");
    assert_eq!(display_field(&FieldValue::Bool(false)), "false");
    assert_eq!(display_field(&FieldValue::StringList(vec![])), "");
    assert_eq!(
        display_field(&FieldValue::StringList(vec!["a".into(), "b".into(), "c".into()])),
        "a,b,c"
    );
}

#[test]
fn every_name_has_its_narrative() {
    let what = |name: &str| narrative_for(name).what_failed;
    assert_eq!(what(event_name::ZONE_FILE_DENIED), "cross-zone file_open");
    assert_eq!(what(event_name::ZONE_EXEC_DENIED), "cross-zone exec");
    assert_eq!(what(event_name::ZONE_PTRACE_DENIED), "cross-zone ptrace");
    assert_eq!(what(event_name::ZONE_SIGNAL_DENIED), "cross-zone signal");
    assert_eq!(what(event_name::ZONE_ESCAPE_CGROUP_ATTACH), "cross-zone cgroup attach");
    assert_eq!(what(event_name::ZONE_NET_DENIED), "cross-zone network access");
    assert_eq!(what(event_name::ZONE_MOUNT_DENIED), "zone mount denied");
    assert_eq!(what(event_name::ZONE_IPC_DENIED), "cross-zone IPC denied");
    assert_eq!(what(event_name::ZONE_PROC_FILTERED), "proc entry filtered");
    assert_eq!(what(event_name::RINGBUF_DROP), "ring buffer event dropped");
    assert_eq!(what(event_name::PIPELINE_SHED), "evidence pipeline shed event");
    assert_eq!(what(event_name::TASK_SUCCEEDED), "task succeeded");
    assert_eq!(
        narrative_for(event_name::ZONE_PTRACE_DENIED).possible_causes,
        vec!["debug tool in wrong zone", "credential misuse", "escape attempt"]
    );
}

#[test]
fn every_name_has_its_severity() {
    assert_eq!(default_severity(event_name::ZONE_ESCAPE_CGROUP_ATTACH), Severity::Error);
    assert_eq!(default_severity(event_name::PIPELINE_SHED), Severity::Warn);
    assert_eq!(default_severity(event_name::ZONE_NET_DENIED), Severity::Warn);
    assert_eq!(default_severity(event_name::ZONE_FILE_ALLOWED), Severity::Trace);
    assert_eq!(default_severity(event_name::POLICY_LOADED), Severity::Info);
    assert_eq!(Severity::Trace.as_str(), "TRACE");
    assert_eq!(Severity::Info.as_str(), "INFO");
}

#[test]
fn shed_events_say_why() {
    let event = pipeline_shed_event_at("queue full", BACKEND_LINUX_EBPF, None, TS.to_string());
    assert_eq!(event.event, "pipeline.shed");
    assert_eq!(event.level, Severity::Warn);
    assert_eq!(event.zone.id, "zone-unknown");
    assert_eq!(event.fields.get("reason"), Some(&FieldValue::String("queue full".into())));
    assert_eq!(event.otel.event_attributes, vec!["reason"]);
}

#[test]
fn the_log_is_told_who_acted() {
    let record = sample().emit_tracing();
    assert_eq!(record.level, Severity::Warn);
    assert_eq!(record.actor_id, "pid:42");
    assert_eq!(record.zone_id, "zone-7");
    assert_eq!(record.message, "rauha.evidence");
    let shed = pipeline_shed_event_at("r", "b", None, TS.to_string());
    assert_eq!(shed.emit_tracing().actor_id, "");
}

#[test]
fn labels_are_gathered_in_order() {
    let set = metric_label_set(&["event", "backend", "event"]).unwrap();
    assert_eq!(set.to_vec(), vec!["backend", "event"]);
    for label in ["zone.id", "container.id", "actor.id", "inode", "pid", "connection.id", "trace_id"] {
        let error = metric_label_set(&["event", label, "pid"]).unwrap_err();
        assert_eq!(error, EvidenceError::HighCardinalityMetricLabel(label.to_string()));
        assert_eq!(
            error.message(),
            format!("high-cardinality field is forbidden as a metric label: {label}")
        );
    }
}

#[test]
fn sinks_take_or_refuse_events() {
    let line = StdoutSink.emit(&sample()).unwrap();
    assert!(line.ends_with("}\n"));
    assert_eq!(line.trim_end(), sample().machine_json().unwrap());
    let error = OtlpSink.emit(&sample()).unwrap_err();
    assert_eq!(
        error.message(),
        "sink unsupported: OTLP transport is declared but not wired in this observe-only pass"
    );
    assert!(OtlpSink.flush().is_ok());
    assert_eq!(SinkError::Io("x".into()).message(), "I/O error: x");
    assert_eq!(SinkError::Serialize("x".into()).message(), "serialization error: x");
    assert_eq!(SinkError::Poisoned.message(), "sink lock poisoned");
    assert_eq!(
        SinkError::Evidence(EvidenceError::Serialize("x".into())).message(),
        "evidence error: serialization error: x"
    );
}
