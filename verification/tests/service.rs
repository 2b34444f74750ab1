use rauha::evidence::builder::FalseEventBuilder;
use rauha::evidence::error::EvidenceError;
use rauha::evidence::event::FalseEvent;
use rauha::service::containers::{
    container_created, container_info, container_spec, list_containers, zone_filter,
    ContainerRecord, ContainerServiceImpl, CreateContainerRequest,
};
use rauha::service::ids::{accept_container_id, parse_container_id, Timestamp};
use rauha::service::images::{
    image_info, inspected, list_images, pull_failed, ImageInspection, ImageRecord,
    ImageServiceImpl,
};
use rauha::service::relay::{
    forward_output, handle_input, Input, InputTodo, ReadOutcome,
};
use rauha::service::sandbox::SandboxServiceImpl;
use rauha::service::session::{
    advance, open, route, Endpoint, ExecStart, FirstMessage, Happened, Kind, PtyResizeTarget,
    ShimRequest, ShimResponse, Stage, Todo,
};
use rauha::service::watch::{is_wanted, project, watch_step, Received, WatchTodo};
use rauha::service::zones::{
    list_zones, policy_refused, zone_created, zone_info, zone_type_of, PolicySource, ZoneRecord,
    ZoneServiceImpl, ZoneType,
};
use rauha::status::{to_status, Code, ErrorKind, RauhaError, Status};

const ID: u128 = 0x550e8400e29b41d4a716446655440000;
const ID_TEXT: &str = "550e8400-e29b-41d4-a716-446655440000";

fn status(code: Code, message: &str) -> Status {
    Status { code, message: message.to_string() }
}

fn moment(secs: i64, nanos: u32) -> Timestamp {
    Timestamp::from_unix(secs, nanos).unwrap()
}

fn zone() -> ZoneRecord {
    ZoneRecord {
        id: ID,
        name: "web".to_string(),
        zone_type: ZoneType::NonGlobal,
        state: "Ready".to_string(),
        created_at: moment(0, 0),
    }
}

fn container() -> ContainerRecord {
    ContainerRecord {
        id: ID,
        name: "c".to_string(),
        zone_id: 1,
        image: "alpine".to_string(),
        state: "Running".to_string(),
        pid: Some(42),
        created_at: moment(1, 500_000_000),
        started_at: Some(moment(2, 0)),
    }
}

fn start(id: &str) -> FirstMessage {
    FirstMessage::Exec(ExecStart {
        container_id: id.to_string(),
        command: vec!["sh".to_string()],
        env: vec![("K".to_string(), "V=1".to_string())],
        tty: true,
    })
}

fn event(zone: &str, name: Option<&str>) -> FalseEvent {
    FalseEventBuilder::new("zone.created")
        .zone(zone, name.map(|s| s.to_string()))
        .build_at(None, "2026-06-22T01:02:03.004Z".to_string())
        .unwrap()
}

#[test]
fn sandbox_service_returns_unimplemented_contract() {
    let service = SandboxServiceImpl::new();

    let status = service.run_sandbox();

    assert_eq!(status.code, Code::Unimplemented);
    assert_eq!(
        status.message,
        "sandbox execution is not implemented yet; use zone/run/exec commands or see docs/sandbox-runtime.md"
    );
}

#[test]
fn errors_keep_their_code_and_their_words() {
    let code = |kind: ErrorKind| {
        let status = to_status(RauhaError { kind, display: "words".to_string() });
        assert_eq!(status.message, "words");
        status.code
    };
    assert_eq!(code(ErrorKind::ZoneNotFound("z".into())), Code::NotFound);
    assert_eq!(code(ErrorKind::ContainerNotFound), Code::NotFound);
    assert_eq!(code(ErrorKind::ImageNotFound), Code::NotFound);
    assert_eq!(code(ErrorKind::ZoneAlreadyExists), Code::AlreadyExists);
    assert_eq!(code(ErrorKind::ContainerAlreadyExists), Code::AlreadyExists);
    assert_eq!(code(ErrorKind::InvalidInput), Code::InvalidArgument);
    assert_eq!(code(ErrorKind::InvalidPolicy), Code::InvalidArgument);
    assert_eq!(code(ErrorKind::PermissionDenied), Code::PermissionDenied);
    assert_eq!(code(ErrorKind::CrossZoneAccessDenied), Code::PermissionDenied);
    assert_eq!(code(ErrorKind::ZoneNotEmpty), Code::FailedPrecondition);
    assert_eq!(code(ErrorKind::Backend("b".into())), Code::Internal);
    assert_eq!(code(ErrorKind::UnsupportedPlatform("x".into())), Code::Internal);
    assert_eq!(code(ErrorKind::Other), Code::Internal);
}

#[test]
fn identifiers_are_read_and_written() {
    assert_eq!(parse_container_id(ID_TEXT), Ok(ID));
    assert_eq!(parse_container_id("550E8400e29b41d4a716446655440000"), Ok(ID));
    let refused = parse_container_id("nope").unwrap_err();
    assert_eq!(refused.code, Code::InvalidArgument);
    assert!(refused.message.starts_with("invalid container ID: "), "{}", refused.message);
    assert_eq!(
        accept_container_id(Err("why".to_string())),
        Err(status(Code::InvalidArgument, "invalid container ID: why"))
    );
    assert_eq!(zone_created(zone()).zone_id, ID_TEXT);
    assert_eq!(parse_container_id(&zone_created(zone()).zone_id), Ok(ID));
}

#[test]
fn moments_are_dates() {
    assert_eq!(moment(0, 0).to_text(), "1970-01-01T00:00:00+00:00");
    assert_eq!(moment(1, 500_000_000).to_text(), "1970-01-01T00:00:01.500+00:00");
    assert!(Timestamp::from_unix(i64::MAX, 0).is_none());
}

#[test]
fn zones_are_planned() {
    let service = ZoneServiceImpl::<u8, u8>::new(1, "/var/lib/rauha".to_string(), None);
    let plan = service.plan_create_zone("web".into(), "privileged", String::new()).unwrap();
    assert_eq!(plan.name, "web");
    assert_eq!(plan.zone_type, ZoneType::Privileged);
    assert_eq!(plan.policy, PolicySource::Default);
    let plan = service.plan_create_zone("web".into(), "odd", "[zone]".into()).unwrap();
    assert_eq!(plan.zone_type, ZoneType::NonGlobal);
    let source =
        PolicySource::Toml { toml: "[zone]".into(), root: "/var/lib/rauha".into() };
    assert_eq!(plan.policy, source);
    assert_eq!(zone_type_of("global"), ZoneType::Global);
    assert_eq!(
        service.plan_apply_policy(String::new()).unwrap(),
        PolicySource::Toml { toml: "".into(), root: "/var/lib/rauha".into() }
    );
    assert_eq!(policy_refused("bad"), status(Code::InvalidArgument, "bad"));
}

#[test]
fn large_policies_are_refused_by_their_bytes() {
    let service = ZoneServiceImpl::<u8, u8>::new(1, "/".to_string(), Some(2));
    let refusal =
        status(Code::InvalidArgument, "policy_toml exceeds maximum size of 65536 bytes");
    assert!(service.plan_apply_policy("x".repeat(65536)).is_ok());
    assert_eq!(service.plan_apply_policy("x".repeat(65537)), Err(refusal.clone()));
    assert_eq!(service.plan_apply_policy("\u{e9}".repeat(32769)), Err(refusal.clone()));
    assert_eq!(
        service.plan_create_zone("w".into(), "global", "x".repeat(65537)),
        Err(refusal)
    );
    assert_eq!((service.registry, service.event_tx), (1, Some(2)));
}

#[test]
fn zones_are_told() {
    let info = zone_info(zone(), 3);
    assert_eq!(info.id, ID_TEXT);
    assert_eq!(info.name, "web");
    assert_eq!(info.zone_type, "NonGlobal");
    assert_eq!(info.state, "Ready");
    assert_eq!(info.container_count, 3);
    assert_eq!(info.created_at, "1970-01-01T00:00:00+00:00");
    assert_eq!(zone_info(zone(), 0x1_0000_0002).container_count, 2);
    let infos = list_zones(vec![(zone(), Some(2)), (zone(), None)]);
    assert_eq!(infos.len(), 2);
    assert_eq!(infos[0].container_count, 2);
    assert_eq!(infos[1].container_count, 0);
}

#[test]
fn containers_are_asked_for() {
    let request = |dir: &str| CreateContainerRequest {
        zone_name: "web".into(),
        name: "c".into(),
        image: "alpine".into(),
        command: vec!["sh".into()],
        env: vec![("A".into(), "1".into())],
        working_dir: dir.into(),
    };
    let spec = container_spec(request(""));
    assert_eq!(spec.working_dir, None);
    assert_eq!(spec.env, vec![("A".to_string(), "1".to_string())]);
    assert_eq!(spec.rootfs_path, None);
    assert_eq!(spec.overlay_layers, None);
    assert_eq!(container_spec(request("/w")).working_dir.as_deref(), Some("/w"));
    assert_eq!(container_created(container()).container_id, ID_TEXT);
    assert_eq!(ContainerServiceImpl::new(5).registry, 5);
    assert_eq!(
        ContainerServiceImpl::new(()).exec_in_container(),
        status(
            Code::Unimplemented,
            "exec_in_container: use ExecStream for interactive exec"
        )
    );
}

#[test]
fn containers_are_told() {
    let info = container_info(container(), Some("web".into())).unwrap();
    assert_eq!(info.id, ID_TEXT);
    assert_eq!(info.zone_id, "00000000-0000-0000-0000-000000000001");
    assert_eq!(info.zone_name, "web");
    assert_eq!(info.pid, 42);
    assert_eq!(info.created_at, "1970-01-01T00:00:01.500+00:00");
    assert_eq!(info.started_at, "1970-01-01T00:00:02+00:00");
    let idle = ContainerRecord { pid: None, started_at: None, ..container() };
    let info = container_info(idle, Some("web".into())).unwrap();
    assert_eq!(info.pid, 0);
    assert_eq!(info.started_at, "");
    let gone = status(Code::Internal, "zone not found for container");
    assert_eq!(container_info(container(), None), Err(gone.clone()));
    let listed = list_containers(vec![(container(), Some("a".into())), (container(), Some("b".into()))]);
    assert_eq!(listed.unwrap()[1].zone_name, "b");
    let listed = list_containers(vec![(container(), Some("a".into())), (container(), None)]);
    assert_eq!(listed, Err(gone));
    assert_eq!(zone_filter(""), None);
    assert_eq!(zone_filter("z").as_deref(), Some("z"));
}

#[test]
fn images_are_told() {
    let record = ImageRecord { reference: "alpine:3".into(), digest: "sha256:x".into(), size: 7 };
    let info = image_info(record.clone());
    assert_eq!(info.tags, vec!["alpine:3"]);
    assert_eq!(info.size, 7);
    assert_eq!(info.created_at, "");
    assert_eq!(list_images(vec![record.clone(), record]).len(), 2);
    let full = ImageInspection {
        digest: "d".into(),
        size: 1,
        config_json: "{}".into(),
        layers: vec!["l".into()],
    };
    let response = inspected("r".into(), full);
    assert_eq!(response.tags, vec!["r"]);
    assert_eq!(response.layers, vec!["l"]);
    assert_eq!(pull_failed("net".into()), status(Code::Internal, "net"));
    assert_eq!(ImageServiceImpl::new("s").image_service, "s");
}

#[test]
fn sessions_start_with_their_own_message() {
    let opened = open(Kind::Exec, start(ID_TEXT)).unwrap();
    assert_eq!(opened.id, ID);
    assert_eq!(
        opened.request,
        ShimRequest::Exec {
            id: ID_TEXT.to_string(),
            command: vec!["sh".to_string()],
            env: vec!["K=V=1".to_string()],
            pty: true,
        }
    );
    let opened = open(Kind::Attach, FirstMessage::Attach(ID_TEXT.to_string())).unwrap();
    assert_eq!(opened.request, ShimRequest::Attach { id: ID_TEXT.to_string(), pty: true });
    let refused = |kind, first| open(kind, first).unwrap_err();
    assert_eq!(
        refused(Kind::Exec, FirstMessage::Missing),
        status(Code::InvalidArgument, "empty stream")
    );
    assert_eq!(
        refused(Kind::Exec, FirstMessage::Other),
        status(Code::InvalidArgument, "first message must be ExecStreamStart")
    );
    assert_eq!(
        refused(Kind::Attach, start(ID_TEXT)),
        status(Code::InvalidArgument, "first message must be AttachStart")
    );
    assert_eq!(refused(Kind::Exec, start("x")).code, Code::InvalidArgument);
}

#[test]
fn shims_say_where_the_stream_is() {
    let ready = |socket: Option<&str>, port: Option<u32>| ShimResponse::ExecReady {
        session_id: Some("s".to_string()),
        socket_path: socket.map(|s| s.to_string()),
        vsock_port: port,
    };
    let endpoint = |kind, response| route(kind, response).unwrap().endpoint;
    assert_eq!(
        endpoint(Kind::Exec, ready(Some("/a"), Some(1))),
        Endpoint::ExecSocket("/a".to_string())
    );
    assert_eq!(endpoint(Kind::Exec, ready(None, Some(1))), Endpoint::ExecVsock(1));
    let attach = ShimResponse::AttachReady { socket_path: "/b".to_string(), session_id: None };
    assert_eq!(endpoint(Kind::Exec, attach.clone()), Endpoint::AttachSocket("/b".to_string()));
    assert_eq!(endpoint(Kind::Attach, attach), Endpoint::AttachSocket("/b".to_string()));
    let refused = |kind, response| route(kind, response).unwrap_err();
    let unexpected = status(Code::Internal, "unexpected shim response");
    assert_eq!(refused(Kind::Exec, ready(None, None)), unexpected);
    assert_eq!(refused(Kind::Attach, ready(Some("/a"), None)), unexpected);
    assert_eq!(refused(Kind::Exec, ShimResponse::Done), unexpected);
    let error = || ShimResponse::Error { message: "m".to_string() };
    assert_eq!(refused(Kind::Exec, error()), status(Code::Internal, "exec failed: m"));
    assert_eq!(refused(Kind::Attach, error()), status(Code::Internal, "attach failed: m"));
}

#[test]
fn sessions_go_from_stage_to_stage() {
    let (stage, todo) = advance(Kind::Exec, Stage::Starting, Happened::First(start(ID_TEXT)));
    assert_eq!(todo, Todo::FindContainer(ID));
    let (stage, todo) = advance(Kind::Exec, stage, Happened::Container(Ok(())));
    assert_eq!(todo, Todo::FindZone);
    let (stage, todo) = advance(Kind::Exec, stage, Happened::Zone(Some("web".to_string())));
    match todo {
        Todo::AskShim { zone_name, request } => {
            assert_eq!(zone_name, "web");
            assert!(matches!(request, ShimRequest::Exec { .. }));
        }
        other => panic!("{other:?}"),
    }
    let answer = ShimResponse::ExecReady {
        session_id: Some("s1".to_string()),
        socket_path: Some("/run/x".to_string()),
        vsock_port: None,
    };
    let (stage, todo) = advance(Kind::Exec, stage, Happened::Answer(Ok(answer)));
    assert_eq!(todo, Todo::Connect(Endpoint::ExecSocket("/run/x".to_string())));
    let (stage, todo) = advance(Kind::Exec, stage, Happened::Connection(Ok(())));
    assert_eq!(
        todo,
        Todo::Relay(PtyResizeTarget {
            zone_name: "web".to_string(),
            container_id: ID_TEXT.to_string(),
            session_id: Some("s1".to_string()),
        })
    );
    assert_eq!(stage, Stage::Ended);
}

#[test]
fn sessions_are_refused_at_every_stage() {
    let refusal = |kind, stage, happened| match advance(kind, stage, happened) {
        (Stage::Ended, Todo::Refuse(status)) => status,
        other => panic!("{other:?}"),
    };
    let opened = || open(Kind::Exec, start(ID_TEXT)).unwrap();
    let error = RauhaError { kind: ErrorKind::ContainerNotFound, display: "gone".to_string() };
    assert_eq!(
        refusal(Kind::Exec, Stage::Finding(opened()), Happened::Container(Err(error))),
        status(Code::NotFound, "gone")
    );
    assert_eq!(
        refusal(Kind::Exec, Stage::Placing(opened()), Happened::Zone(None)),
        status(Code::Internal, "zone not found for container")
    );
    let asking = || Stage::Asking { id: ID, zone_name: "web".to_string() };
    assert_eq!(
        refusal(Kind::Exec, asking(), Happened::Answer(Err("e".to_string()))),
        status(Code::Internal, "shim exec failed: e")
    );
    assert_eq!(
        refusal(Kind::Attach, asking(), Happened::Answer(Err("e".to_string()))),
        status(Code::Internal, "shim attach failed: e")
    );
    let connecting = |response| Stage::Connecting {
        id: ID,
        zone_name: "web".to_string(),
        route: route(Kind::Exec, response).unwrap(),
    };
    let unreachable = || Happened::Connection(Err("refused".to_string()));
    let ready = |socket: Option<String>| ShimResponse::ExecReady {
        session_id: None,
        socket_path: socket,
        vsock_port: Some(9),
    };
    assert_eq!(
        refusal(Kind::Exec, connecting(ready(Some("/a".to_string()))), unreachable()),
        status(Code::Internal, "failed to connect to exec socket: refused")
    );
    assert_eq!(
        refusal(Kind::Exec, connecting(ready(None)), unreachable()),
        status(Code::Internal, "failed to connect exec vsock: refused")
    );
    let attach = ShimResponse::AttachReady { socket_path: "/b".to_string(), session_id: None };
    assert_eq!(
        refusal(Kind::Attach, connecting(attach), unreachable()),
        status(Code::Internal, "failed to connect to attach socket: refused")
    );
}

#[test]
fn output_is_relayed_until_it_ends() {
    let buffer = [1u8, 2, 3, 4];
    assert_eq!(forward_output(ReadOutcome::Read(3), &buffer), Some(vec![1, 2, 3]));
    assert_eq!(forward_output(ReadOutcome::Read(4), &buffer), Some(vec![1, 2, 3, 4]));
    assert_eq!(forward_output(ReadOutcome::Read(0), &buffer), None);
    assert_eq!(forward_output(ReadOutcome::Failed, &buffer), None);
}

#[test]
fn input_is_relayed_and_sizes_are_told() {
    let target = Some(PtyResizeTarget {
        zone_name: "web".to_string(),
        container_id: ID_TEXT.to_string(),
        session_id: Some("s".to_string()),
    });
    let resize = || Input::Resize { rows: 24, cols: 80 };
    assert_eq!(handle_input(Input::Data(vec![7]), &target), InputTodo::Write(vec![7]));
    assert_eq!(
        handle_input(resize(), &target),
        InputTodo::Tell(ShimRequest::ResizePty {
            id: ID_TEXT.to_string(),
            session_id: Some("s".to_string()),
            rows: 24,
            cols: 80,
        })
    );
    assert_eq!(handle_input(resize(), &None), InputTodo::Ignore);
    assert_eq!(handle_input(Input::Other, &target), InputTodo::Ignore);
    assert_eq!(handle_input(Input::Ended, &target), InputTodo::Stop);
}

#[test]
fn sizes_that_are_not_taken_are_logged() {
    assert_eq!(PtyResizeTarget::judge(Ok(ShimResponse::Done)), None);
    let warning = PtyResizeTarget::judge(Ok(ShimResponse::Error { message: "m".into() })).unwrap();
    assert_eq!((warning.message, warning.error.as_deref()), ("PTY resize failed", Some("m")));
    assert_eq!(warning.response, None);
    let other = || ShimResponse::Other("Pong".to_string());
    let warning = PtyResizeTarget::judge(Ok(other())).unwrap();
    assert_eq!((warning.message, warning.error), ("unexpected PTY resize response", None));
    assert_eq!(warning.response, Some(other()));
    let warning = PtyResizeTarget::judge(Err("e".into())).unwrap();
    assert_eq!((warning.message, warning.error.as_deref()), ("PTY resize request failed", Some("e")));
}

#[test]
fn watchers_are_sent_their_own_zone() {
    assert!(is_wanted("", &event("zone-1", None)));
    assert!(is_wanted("zone-1", &event("zone-1", Some("web"))));
    assert!(is_wanted("web", &event("zone-1", Some("web"))));
    assert!(!is_wanted("db", &event("zone-1", Some("web"))));
    assert!(!is_wanted("web", &event("zone-1", None)));
    match watch_step("", Received::Event(event("zone-1", None)), None) {
        WatchTodo::Send { event: sent, log } => {
            assert_eq!(sent.zone_name, "zone-1");
            assert_eq!(sent.event_type, "zone.created");
            assert_eq!(sent.timestamp, "2026-06-22T01:02:03.004Z");
            assert_eq!(sent.message, event("zone-1", None).machine_json().unwrap());
            assert_eq!(log, None);
        }
        other => panic!("{other:?}"),
    }
    match watch_step("web", Received::Event(event("zone-1", Some("web"))), None) {
        WatchTodo::Send { event: sent, .. } => assert_eq!(sent.zone_name, "web"),
        other => panic!("{other:?}"),
    }
    assert_eq!(watch_step("db", Received::Event(event("zone-1", None)), None), WatchTodo::Skip);
    assert_eq!(watch_step("db", Received::Closed, None), WatchTodo::Stop);
}

#[test]
fn watchers_that_lag_are_told_so() {
    match watch_step("web", Received::Lagged(17), Some("host".into())) {
        WatchTodo::Send { event: sent, log } => {
            assert_eq!(sent.zone_name, "web");
            assert_eq!(sent.event_type, "pipeline.shed");
            assert!(sent.message.contains(r#""fields":{"reason":"watch_subscriber_lagged","shed_events":17}"#));
            assert!(sent.message.contains(r#""level":"WARN""#));
            assert_eq!(log.unwrap().event, "pipeline.shed");
        }
        other => panic!("{other:?}"),
    }
    match watch_step("", Received::Lagged(1), None) {
        WatchTodo::Send { event: sent, .. } => assert_eq!(sent.zone_name, "zone-unknown"),
        other => panic!("{other:?}"),
    }
}

#[test]
fn events_that_cannot_be_written_are_sent_all_the_same() {
    let sent = project(&event("z", None), Err(EvidenceError::Serialize("x".into())));
    assert_eq!(
        sent.message,
        r#"{"event":"zone.created","serialization_error":"serialization error: x"}"#
    );
}
