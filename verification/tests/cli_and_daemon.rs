use rauha::cli::{
    event_line, event_line_with, events_banner, events_zone, format_timestamp, handle_events,
    handle_top, handle_trace, read_sandbox_args, sandbox_answer, sandbox_request, EventsArgs, EventsTodo,
    OutputMode, SandboxArgs, StreamItem, StreamedEvent, TopArgs, TraceArgs,
};
use rauha::daemon::{
    create_backend, daemon_layout, daemon_root, default_filter, host_id, host_name, panic_location,
    panic_payload, resolve_format, shutdown_outcome, LogFormat, Outcome, SourcePlace,
};
use rauha::evidence::event::Severity;
use rauha::service::sandbox::SandboxServiceImpl;
use rauha::status::ErrorKind;

fn parse(words: &[&str]) -> Result<SandboxArgs, String> {
    SandboxArgs::try_parse_from(&words.iter().map(|s| s.to_string()).collect())
}

fn streamed(message: &str) -> StreamedEvent {
    StreamedEvent {
        zone_name: "web".to_string(),
        event_type: "zone.created".to_string(),
        message: message.to_string(),
        timestamp: "1234567890".to_string(),
    }
}

#[test]
fn parses_image_and_trailing_command() {
    let args = parse(&[
        "sandbox",
        "--image",
        "alpine:latest",
        "--",
        "echo",
        "hello",
    ])
    .expect("parse");
    assert_eq!(args.image, "alpine:latest");
    assert_eq!(args.command, vec!["echo".to_string(), "hello".to_string()]);
    assert_eq!(args.timeout, 0);
    assert!(!args.keep_zone);
    assert!(args.name.is_none());
}

#[test]
fn parses_optional_flags() {
    let args = parse(&[
        "sandbox",
        "--image",
        "python:3.12",
        "--name",
        "task-1",
        "--repo",
        ".",
        "--workdir",
        "/workspace",
        "--keep-zone",
        "--timeout",
        "300",
        "--",
        "pytest",
        "tests/",
    ])
    .expect("parse");
    assert_eq!(args.image, "python:3.12");
    assert_eq!(args.name.as_deref(), Some("task-1"));
    assert_eq!(args.repo.as_deref(), Some("."));
    assert_eq!(args.workdir.as_deref(), Some("/workspace"));
    assert!(args.keep_zone);
    assert_eq!(args.timeout, 300);
    assert_eq!(args.command, vec!["pytest".to_string(), "tests/".to_string()]);
}

#[test]
fn rejects_missing_command() {
    let result = parse(&["sandbox", "--image", "alpine:latest"]);
    assert!(result.is_err(), "command should be required");
}

#[test]
fn rejects_missing_image() {
    let result = parse(&["sandbox", "--", "echo", "hello"]);
    assert!(result.is_err(), "image should be required");
}

#[test]
fn command_lines_are_read_to_their_end() {
    let args = parse(&["sandbox", "--image=a", "run", "--image", "b", "--", "-x"]).unwrap();
    assert_eq!(args.image, "a");
    assert_eq!(args.command, vec!["run", "--image", "b", "--", "-x"]);
    assert_eq!(parse(&["sandbox", "--image", "a", "--timeout=+7", "c"]).unwrap().timeout, 7);
    assert_eq!(parse(&["sandbox", "--image", "a", "--timeout=-0", "c"]).unwrap().timeout, 0);
    assert_eq!(
        parse(&["sandbox", "--image", "a", "--timeout", "4294967295", "c"]).unwrap().timeout,
        4294967295
    );
    for words in [
        vec!["sandbox", "--image", "a", "--timeout", "x", "c"],
        vec!["sandbox", "--image", "a", "--timeout", "4294967296", "c"],
        vec!["sandbox", "--image", "a", "--image", "b", "c"],
        vec!["sandbox", "--nothing", "c"],
        vec![],
    ] {
        assert!(parse(&words).is_err(), "{words:?}");
    }
    let error = parse(&["sandbox", "--image", "a", "--timeout", "x", "c"]).unwrap_err();
    assert!(error.contains("invalid digit found in string"), "{error}");
}

#[test]
fn command_lines_that_are_refused_are_told_how_to_be() {
    assert_eq!(
        parse(&["sandbox", "--image", "a"]).unwrap_err(),
        "error: the following required arguments were not provided:\n  <COMMAND>...\n\nUsage: sandbox --image <IMAGE> <COMMAND>...\n\nFor more information, try '--help'.\n"
    );
    let help = parse(&["sandbox", "--help"]).unwrap_err();
    for line in [
        "Task command. Use `--` before it to disambiguate from sandbox flags",
        "--image <IMAGE>",
        "Container image to run the task in",
        "--name <NAME>",
        "--keep-zone",
        "--timeout <TIMEOUT>",
        "Soft timeout in seconds. 0 means no timeout [default: 0]",
    ] {
        assert!(help.contains(line), "{line} is not in {help}");
    }
    assert!(!help.contains("KEEP_ZONE"));
}

#[test]
fn refusals_are_shown_by_their_message_alone() {
    let refusal = SandboxServiceImpl::new().run_sandbox();
    assert_eq!(
        sandbox_answer(Err(refusal)),
        Err("sandbox execution is not implemented yet; use zone/run/exec commands or see docs/sandbox-runtime.md".to_string())
    );
    assert_eq!(sandbox_answer(Ok(())), Ok(()));
}

#[test]
fn arguments_are_read_off_what_was_found() {
    let owned = |v: Vec<&str>| v.iter().map(|s| s.to_string()).collect::<Vec<String>>();
    let found = vec![
        owned(vec!["img"]),
        owned(vec![]),
        owned(vec!["r"]),
        owned(vec![]),
        owned(vec!["true"]),
        owned(vec!["12"]),
        owned(vec!["a", "b"]),
    ];
    let args = read_sandbox_args(Ok(found)).unwrap();
    assert_eq!(args.image, "img");
    assert_eq!(args.name, None);
    assert_eq!(args.repo.as_deref(), Some("r"));
    assert!(args.keep_zone);
    assert_eq!(args.timeout, 12);
    assert_eq!(args.command, vec!["a", "b"]);
    assert_eq!(read_sandbox_args(Err("no".to_string())), Err("no".to_string()));
}

#[test]
fn sandboxes_are_asked_for() {
    let args = parse(&["sandbox", "--image", "a", "--repo", "/r", "c"]).unwrap();
    let request = sandbox_request(args);
    assert_eq!(request.image, "a");
    assert_eq!(request.command, vec!["c"]);
    assert_eq!(request.name, "");
    assert_eq!(request.repo_path, "/r");
    assert_eq!(request.workdir, "");
    assert!(!request.keep_zone);
    assert_eq!(request.timeout_seconds, 0);
    assert!(request.env.is_empty());
}

#[test]
fn trace_and_top_print_a_line() {
    let args = TraceArgs { zone: "w\"eb".to_string() };
    assert_eq!(
        handle_trace(&args, OutputMode::Human),
        "Tracing zone w\"eb... (not yet implemented)"
    );
    assert_eq!(
        handle_trace(&args, OutputMode::Json),
        r#"{"ok":false,"zone":"w\"eb","status":"not_implemented"}"#
    );
    assert_eq!(
        handle_top(&TopArgs { zone: None }),
        "Per-zone resource monitoring (not yet implemented)"
    );
}

#[test]
fn times_are_shown_in_seconds() {
    assert_eq!(format_timestamp("0"), "     0.000");
    assert_eq!(format_timestamp("1234567890"), "     1.234");
    assert_eq!(format_timestamp("18446744073709551615"), "18446744073.709");
    assert_eq!(format_timestamp("18446744073709551616"), "18446744073709551616");
    assert_eq!(format_timestamp("2026-06-22T00:00:00Z"), "2026-06-22T00:00:00Z");
}

#[test]
fn events_are_printed() {
    assert_eq!(
        event_line(&streamed("hello"), OutputMode::Human),
        "     1.234  zone.created  hello"
    );
    assert_eq!(
        event_line(&streamed(r#"{ "b": 1, "a": [true] }"#), OutputMode::Json),
        r#"{"timestamp":"1234567890","zone_name":"web","event_type":"zone.created","event":{"a":[true],"b":1}}"#
    );
    assert_eq!(
        event_line(&streamed("no \"json\""), OutputMode::Json),
        r#"{"timestamp":"1234567890","zone_name":"web","event_type":"zone.created","event":{"message":"no \"json\""}}"#
    );
    assert_eq!(
        event_line_with(&streamed("m"), Some("7".to_string()), OutputMode::Json),
        r#"{"timestamp":"1234567890","zone_name":"web","event_type":"zone.created","event":7}"#
    );
}

#[test]
fn the_stream_of_events_is_followed_to_its_end() {
    match handle_events(StreamItem::Event(streamed("m")), OutputMode::Human) {
        EventsTodo::Print(line) => assert_eq!(line, "     1.234  zone.created  m"),
        other => panic!("{other:?}"),
    }
    assert_eq!(
        handle_events(StreamItem::Failed("broken".to_string()), OutputMode::Json),
        EventsTodo::Complain("stream error: broken".to_string())
    );
    assert_eq!(handle_events(StreamItem::Ended, OutputMode::Json), EventsTodo::Stop);
    assert_eq!(events_zone(EventsArgs { zone: None }), "");
    assert_eq!(events_zone(EventsArgs { zone: Some("z".to_string()) }), "z");
    assert_eq!(
        events_banner(OutputMode::Human),
        Some("streaming enforcement events (Ctrl+C to stop)...\n")
    );
    assert_eq!(events_banner(OutputMode::Json), None);
}

#[test]
fn the_log_has_a_format() {
    assert_eq!(resolve_format(LogFormat::Auto, true), LogFormat::Text);
    assert_eq!(resolve_format(LogFormat::Auto, false), LogFormat::Json);
    assert_eq!(resolve_format(LogFormat::Json, true), LogFormat::Json);
    assert_eq!(resolve_format(LogFormat::Text, false), LogFormat::Text);
    assert_eq!(default_filter("debug"), "rauhad=debug");
}

#[test]
fn the_host_has_a_name() {
    assert_eq!(host_name(None), "unknown");
    assert_eq!(host_name(Some("")), "unknown");
    assert_eq!(host_name(Some("box")), "box");
    assert_eq!(host_id(Some(" id1\n"), Some("id2"), Some("box")), "id1");
    assert_eq!(host_id(None, Some("id2\n"), Some("box")), "id2");
    assert_eq!(host_id(Some("\n"), Some("id2"), Some("box")), "box");
    assert_eq!(host_id(None, None, None), "unknown");
}

#[test]
fn the_daemon_has_its_places() {
    assert_eq!(daemon_root(None, false), "/var/lib/rauha");
    assert_eq!(daemon_root(None, true), "/tmp/rauha");
    assert_eq!(daemon_root(Some("/x"), true), "/x");
    let layout = daemon_layout("/x");
    assert_eq!(layout.metadata, "/x/metadata");
    assert_eq!(layout.zones, "/x/zones");
    assert_eq!(layout.content, "/x/content");
    assert_eq!(layout.database, "/x/metadata/rauha.redb");
}

#[test]
fn the_daemon_comes_up_on_linux_alone() {
    assert_eq!(create_backend("linux"), Ok(()));
    assert_eq!(
        create_backend("macos"),
        Err(ErrorKind::UnsupportedPlatform("macos".to_string()))
    );
    assert_eq!(shutdown_outcome(true), (Outcome::Succeeded, Severity::Info));
    assert_eq!(shutdown_outcome(false), (Outcome::Failed, Severity::Error));
}

#[test]
fn panics_are_put_in_words() {
    let place = SourcePlace { file: "src/main.rs".to_string(), line: 12, column: 5 };
    assert_eq!(panic_location(Some(place)), "src/main.rs:12:5");
    assert_eq!(panic_location(None), "unknown");
    assert_eq!(panic_payload(Some("boom".to_string())), "boom");
    assert_eq!(panic_payload(None), "panic payload is not a string");
}
