use rauha::shim::handshake::{
    cgroup_path, child_next, parent_next, ChildNext, ChildOutcome, ChildStep, ParentNext,
    ParentOutcome, ParentStep,
};
use rauha::shim::launch::{
    cstring_vec, fork_and_exec, parse_workload, plan_launch, rootfs_candidates, OciProcess, OciSpec,
};
use rauha::shim::process::{order_signal, raw_pid, send_signal, try_wait, SignalOrder, WaitOutcome};

const SPEC: &str = r#"{
    "ociVersion": "1.0.2",
    "process": {
        "user": {"uid": 0, "gid": 0},
        "args": ["/bin/sh", "-c", "true"],
        "env": ["A=1"],
        "cwd": "/work"
    },
    "hostname": "box"
}"#;

fn spec(args: Option<Vec<&str>>, env: Option<Vec<&str>>, cwd: &str) -> Result<OciSpec, String> {
    let owned = |v: Vec<&str>| v.iter().map(|s| s.to_string()).collect::<Vec<String>>();
    Ok(OciSpec {
        process: Some(OciProcess {
            args: args.map(owned),
            env: env.map(owned),
            cwd: cwd.to_string(),
        }),
        hostname: None,
    })
}

fn failed(reason: &str) -> ChildOutcome {
    ChildOutcome::Failed(reason.to_string())
}

#[test]
fn rejects_interior_nul_in_process_args() {
    let err = cstring_vec(&vec!["/bin/sh\0bad".to_string()], "process.args")
        .expect_err("interior NUL must be rejected");

    assert!(err.to_string().contains("process.args[0]"));
}

#[test]
fn texts_become_c_strings() {
    let values = vec!["a".to_string(), "".to_string(), "\u{e9}".to_string()];
    assert_eq!(
        cstring_vec(&values, "f").unwrap(),
        vec![vec![b'a', 0], vec![0], vec![0xc3, 0xa9, 0]]
    );
    let values = vec!["a".to_string(), "b\0".to_string(), "\0".to_string()];
    assert_eq!(
        cstring_vec(&values, "process.env").unwrap_err(),
        "process.env[1] contains an interior NUL byte"
    );
}

#[test]
fn specs_are_read() {
    let workload = parse_workload(SPEC).unwrap();
    assert_eq!(workload.args, vec!["/bin/sh", "-c", "true"]);
    assert_eq!(workload.env, vec!["A=1"]);
    assert_eq!(workload.cwd, "/work");
    assert_eq!(workload.hostname.as_deref(), Some("box"));
    assert_eq!(parse_workload("{}").unwrap_err(), "spec missing process");
    let error = parse_workload("not json").unwrap_err();
    assert!(error.contains("line 1"), "{error}");
}

#[test]
fn launches_are_refused_in_order() {
    let refused = |linux, spec, merged, legacy| {
        plan_launch(linux, "c1", spec, "/root", merged, legacy).unwrap_err()
    };
    let good = || spec(Some(vec!["sh"]), None, "/");
    assert_eq!(refused(false, good(), true, true), "fork_and_exec is only supported on Linux");
    assert_eq!(refused(true, Err("bad".to_string()), true, true), "bad");
    assert_eq!(
        refused(true, Ok(OciSpec { process: None, hostname: None }), true, true),
        "spec missing process"
    );
    assert_eq!(refused(true, spec(None, None, "/"), false, false), "spec missing process.args");
    assert_eq!(refused(true, spec(Some(vec![]), None, "/"), false, false), "process.args is empty");
    assert_eq!(
        refused(true, good(), false, false),
        "rootfs not found: checked /root/containers/c1/merged and /root/containers/c1/rootfs"
    );
}

#[test]
fn launches_find_their_files() {
    let candidates = rootfs_candidates("/root", "c1");
    assert_eq!(candidates.merged, "/root/containers/c1/merged");
    assert_eq!(candidates.legacy, "/root/containers/c1/rootfs");
    let launch = fork_and_exec(true, "c1", SPEC, "/root", true, true).unwrap();
    assert_eq!(launch.rootfs, "/root/containers/c1/merged");
    assert_eq!(launch.old_root, "/root/containers/c1/merged/.pivot_old");
    assert_eq!(launch.log_dir, "/run/rauha/containers/c1");
    assert_eq!(launch.stdout_log, "/run/rauha/containers/c1/stdout.log");
    assert_eq!(launch.stderr_log, "/run/rauha/containers/c1/stderr.log");
    let launch = fork_and_exec(true, "c1", SPEC, "/root", false, true).unwrap();
    assert_eq!(launch.rootfs, "/root/containers/c1/rootfs");
    let plan = launch.exec_plan().unwrap();
    assert_eq!(plan.args[0], b"/bin/sh\0");
    assert_eq!(plan.env, vec![b"A=1\0".to_vec()]);
    assert_eq!(plan.cwd, b"/work\0");
    assert_eq!(plan.stdout_log, b"/run/rauha/containers/c1/stdout.log\0");
}

#[test]
fn workloads_with_zero_bytes_are_refused() {
    let refused = |s| plan_launch(true, "c", s, "/", true, false).unwrap().exec_plan().unwrap_err();
    assert_eq!(
        refused(spec(Some(vec!["a", "b\0c"]), Some(vec!["\0"]), "/\0")),
        "process.args[1] contains an interior NUL byte"
    );
    assert_eq!(
        refused(spec(Some(vec!["a"]), Some(vec!["\0"]), "/\0")),
        "process.env[0] contains an interior NUL byte"
    );
    assert_eq!(
        refused(spec(Some(vec!["a"]), None, "/\u{e9}\0x\0")),
        "nul byte found in provided data at position: 3"
    );
    let plan = plan_launch(true, "c\0d", spec(Some(vec!["a"]), None, "/"), "/", true, false)
        .unwrap()
        .exec_plan()
        .unwrap();
    assert_eq!(plan.stderr_log, vec![0]);
    assert!(plan.env.is_empty());
}

#[test]
fn a_child_goes_through_its_steps() {
    let mut step = ChildStep::NewSession;
    let mut walked = vec![step];
    while step != ChildStep::Exec {
        match child_next(step, &ChildOutcome::Done) {
            ChildNext::Go(next) => step = next,
            ChildNext::Exit { .. } => panic!("exit"),
        }
        walked.push(step);
    }
    assert_eq!(walked.len(), 11);
    assert_eq!(walked[7], ChildStep::AwaitGo);
}

#[test]
fn a_child_that_fails_does_not_run_the_workload() {
    let exit = |step, outcome| match child_next(step, &outcome) {
        ChildNext::Exit { code, message } => (code, message),
        ChildNext::Go(_) => panic!("went on"),
    };
    assert_eq!(
        exit(ChildStep::Unshare, failed("EPERM")),
        (1, "unshare(CLONE_NEWNS) failed: EPERM\n".to_string())
    );
    assert_eq!(
        exit(ChildStep::MakePrivate, failed("EPERM")),
        (1, "mount(MS_PRIVATE) failed: EPERM\n".to_string())
    );
    assert_eq!(
        exit(ChildStep::PivotRoot, failed("EBUSY")),
        (1, "pivot_root failed: EBUSY\n".to_string())
    );
    assert_eq!(
        exit(ChildStep::AwaitGo, failed("")),
        (125, "cgroup enrollment failed; refusing to start workload unenforced\n".to_string())
    );
    assert_eq!(
        exit(ChildStep::Exec, failed("ENOENT")),
        (127, "execvp failed: ENOENT\n".to_string())
    );
    assert_eq!(
        child_next(ChildStep::SetHostname, &failed("EPERM")),
        ChildNext::Go(ChildStep::SignalSetup)
    );
}

#[test]
fn a_parent_enrolls_before_it_gives_the_word() {
    let next = |step, outcome| parent_next(step, &outcome, "c1", "web");
    assert_eq!(next(ParentStep::AwaitSetup, ParentOutcome::Done), ParentNext::Go(ParentStep::Enroll));
    assert_eq!(next(ParentStep::Enroll, ParentOutcome::Done), ParentNext::Go(ParentStep::SignalGo));
    assert_eq!(next(ParentStep::SignalGo, ParentOutcome::Done), ParentNext::Started);
    assert_eq!(
        next(ParentStep::AwaitSetup, ParentOutcome::Failed("eof".into())),
        ParentNext::Abandon {
            kill: false,
            error: "container c1 failed during pre-enrollment setup (see container stderr)".into(),
        }
    );
    assert_eq!(
        next(ParentStep::Enroll, ParentOutcome::Failed("ENOENT".into())),
        ParentNext::Abandon {
            kill: true,
            error: "failed to enroll container c1 in zone cgroup /sys/fs/cgroup/rauha.slice/zone-web/cgroup.procs: ENOENT; refusing to start workload unenforced".into(),
        }
    );
    assert_eq!(cgroup_path("web"), "/sys/fs/cgroup/rauha.slice/zone-web/cgroup.procs");
}

#[test]
fn signals_are_checked() {
    assert_eq!(send_signal(true, 42, 15), Ok(SignalOrder { pid: 42, signal: 15 }));
    assert_eq!(send_signal(true, 42, 9).unwrap().signal, 9);
    for signal in (1..=31).filter(|s| *s != 7) {
        assert_eq!(send_signal(true, 42, signal), Ok(SignalOrder { pid: 42, signal }));
    }
    assert!(send_signal(true, 42, 32).is_err());
    assert_eq!(send_signal(true, 42, 0), Err("EINVAL: Invalid argument".to_string()));
    assert_eq!(send_signal(true, 42, 4000), Err("EINVAL: Invalid argument".to_string()));
    assert_eq!(send_signal(true, 42, -1), Err("EINVAL: Invalid argument".to_string()));
    assert_eq!(
        send_signal(false, 42, 15),
        Err("signal not supported on this platform".to_string())
    );
    assert_eq!(order_signal(7, Ok(1)), Ok(SignalOrder { pid: 7, signal: 1 }));
    assert_eq!(order_signal(7, Err("no".to_string())), Err("no".to_string()));
    assert_eq!(raw_pid(u32::MAX), -1);
    assert_eq!(raw_pid(0x8000_0000), i32::MIN);
    assert_eq!(raw_pid(0x7fff_ffff), i32::MAX);
}

#[test]
fn ends_have_codes() {
    assert_eq!(try_wait(WaitOutcome::Exited(3)), Some(3));
    assert_eq!(try_wait(WaitOutcome::Signaled(9)), Some(137));
    assert_eq!(try_wait(WaitOutcome::Other), None);
}
