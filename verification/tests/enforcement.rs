use std::cell::RefCell;

use rauha::conformance::{next_step, run_basic_conformance, walk, Answer, Step};
use rauha::enforcement::{
    Capabilities, Decision, EnforcementPolicy, EnforcementRule, EnforcementStats, EnforcerError,
    Hook, HookSet, Matcher, RuleId, VerifyDiscrepancyKind, VerifyReport, ZoneEnforcement, ZoneId,
};
use rauha::linux;
use rauha::linux::{Counters, ProgramStatus, Slot};
use rauha::noop::NoopEnforcer;
use rauha::status::{ErrorKind, RauhaError};

fn kernel_rule() -> EnforcementRule {
    EnforcementRule {
        id: RuleId(1),
        hook: Hook::BprmCheck,
        matcher: Matcher::Any,
        decision: Decision::Deny,
        requires_kernel: true,
    }
}

fn loaded_with(zone: ZoneId) -> NoopEnforcer {
    let mut enforcer = NoopEnforcer::new();
    enforcer.load().unwrap();
    enforcer.create_zone(zone).unwrap();
    enforcer
}

#[test]
fn noop_passes_basic_conformance() {
    assert_eq!(run_basic_conformance(&mut NoopEnforcer::new()), Ok(()));
}

#[test]
fn noop_rejects_kernel_required_policy() {
    let zone = ZoneId(1);
    let mut enforcer = loaded_with(zone);

    let err = enforcer
        .apply_policy(
            zone,
            &EnforcementPolicy {
                rules: vec![kernel_rule()],
                ..Default::default()
            },
        )
        .unwrap_err();

    assert!(matches!(
        err,
        EnforcerError::PolicyUnenforceable {
            zone: ZoneId(1),
            rule: RuleId(1),
            ..
        }
    ));
    assert_eq!(
        err.message(),
        "policy rule RuleId(1) cannot be enforced for zone ZoneId(1): backend has no kernel enforcement"
    );
}

#[test]
fn noop_verify_reports_unsupported_rules() {
    let zone = ZoneId(1);
    let mut enforcer = loaded_with(zone);

    let report = enforcer
        .verify(
            zone,
            &EnforcementPolicy {
                rules: vec![kernel_rule()],
                ..Default::default()
            },
        )
        .unwrap();

    assert!(!report.ok);
    assert_eq!(report.discrepancies.len(), 1);
    assert_eq!(
        report.discrepancies[0].kind,
        VerifyDiscrepancyKind::RuleUnsupported
    );
    assert_eq!(report.discrepancies[0].rule, Some(RuleId(1)));
    assert_eq!(
        report.discrepancies[0].message,
        "rule RuleId(1) is unsupported by noop enforcer"
    );
}

#[test]
fn noop_requires_load_before_zone_operations() {
    let mut enforcer = NoopEnforcer::new();
    let err = enforcer.create_zone(ZoneId(1)).unwrap_err();
    assert!(matches!(err, EnforcerError::NotLoaded));
}

#[test]
fn zone_enforcement_default_is_most_restrictive() {
    let z = ZoneEnforcement::default();
    assert_eq!(z.caps_mask, 0);
    assert!(!z.allow_ptrace);
    assert!(!z.allow_host_net);
}

#[test]
fn enforcement_policy_carries_zone_state() {
    let policy = EnforcementPolicy {
        zone: ZoneEnforcement {
            caps_mask: 0b101,
            allow_ptrace: true,
            allow_host_net: false,
        },
        rules: Vec::new(),
    };
    assert_eq!(policy.zone.caps_mask, 0b101);
    assert!(policy.zone.allow_ptrace);
    assert_eq!(EnforcementPolicy::default().zone, ZoneEnforcement::default());
}

#[test]
fn noop_accepts_zone_flags_without_enforcing_them() {
    let zone = ZoneId(1);
    let mut enforcer = loaded_with(zone);
    let policy = EnforcementPolicy {
        zone: ZoneEnforcement {
            caps_mask: 0xff,
            allow_ptrace: true,
            allow_host_net: true,
        },
        rules: Vec::new(),
    };
    enforcer.apply_policy(zone, &policy).unwrap();
    assert!(!enforcer.capabilities().kernel_enforcement);
}

#[test]
fn noop_zones_come_and_go() {
    let zone = ZoneId(9);
    let mut enforcer = loaded_with(zone);
    assert_eq!(enforcer.stats(zone).unwrap(), EnforcementStats::default());
    enforcer.delete_zone(zone).unwrap();
    let err = enforcer.delete_zone(zone).unwrap_err();
    assert!(matches!(err, EnforcerError::ZoneNotFound(ZoneId(9))));
    assert_eq!(err.message(), "zone not found: ZoneId(9)");
    assert!(matches!(enforcer.stats(zone), Err(EnforcerError::ZoneNotFound(_))));
    let report = enforcer.verify(zone, &EnforcementPolicy::default()).unwrap();
    assert_eq!(report.discrepancies[0].kind, VerifyDiscrepancyKind::ZoneMissing);
    assert_eq!(report.discrepancies[0].message, "zone ZoneId(9) is not registered");
    enforcer.create_zone(zone).unwrap();
    enforcer.shutdown().unwrap();
    let report = enforcer.verify(zone, &EnforcementPolicy::default()).unwrap();
    assert_eq!(report.discrepancies[0].kind, VerifyDiscrepancyKind::BackendUnloaded);
    assert_eq!(report.discrepancies[0].message, "noop enforcer is not loaded");
    enforcer.load().unwrap();
    assert!(matches!(
        enforcer.apply_policy(zone, &EnforcementPolicy::default()),
        Err(EnforcerError::ZoneNotFound(_))
    ));
}

#[test]
fn noop_refuses_a_rule_without_the_kernel_by_its_hook() {
    let zone = ZoneId(2);
    let mut enforcer = loaded_with(zone);
    let rule = EnforcementRule { requires_kernel: false, hook: Hook::Signal, ..kernel_rule() };
    let policy = EnforcementPolicy { rules: vec![rule], ..Default::default() };
    assert_eq!(
        enforcer.apply_policy(zone, &policy).unwrap_err().message(),
        "policy rule RuleId(1) cannot be enforced for zone ZoneId(2): backend does not support hook Signal"
    );
}

#[test]
fn errors_are_put_in_words() {
    assert_eq!(EnforcerError::NotLoaded.message(), "enforcer is not loaded");
    assert_eq!(EnforcerError::Verifier("x".to_string()).message(), "verifier failed: x");
    assert_eq!(EnforcerError::Kernel("y".to_string()).message(), "kernel error: y");
}

#[test]
fn hook_sets_are_in_order_without_repeats() {
    let set = HookSet::from_hooks(vec![Hook::Signal, Hook::FileOpen, Hook::Signal, Hook::BprmCheck]);
    assert_eq!(set.iter(), vec![Hook::FileOpen, Hook::BprmCheck, Hook::Signal]);
    assert!(set.contains(Hook::Signal));
    assert!(!set.contains(Hook::CgroupAttach));
    assert_eq!(set.clone(), set);
    assert_eq!(HookSet::none().iter(), vec![]);
    assert_eq!(HookSet::default(), HookSet::none());
}

#[test]
fn capabilities_decide_over_rules() {
    let rule = kernel_rule();
    assert!(!Capabilities::noop().supports_rule(&rule));
    let without_kernel = Capabilities {
        hooks: HookSet::from_hooks(vec![Hook::BprmCheck]),
        ..Capabilities::noop()
    };
    assert!(!without_kernel.supports_rule(&rule));
    let soft = EnforcementRule { requires_kernel: false, ..kernel_rule() };
    assert!(without_kernel.supports_rule(&soft));
    assert!(linux::capabilities_static().supports_rule(&rule));
    assert!(!VerifyReport::default().ok);
}

#[test]
fn conformance_stops_at_what_is_not_as_expected() {
    let failed = || Answer::Failed("NotLoaded".to_string());
    assert_eq!(next_step(Step::Load, failed()), Err("load backend: NotLoaded".to_string()));
    assert_eq!(
        next_step(Step::Stats, failed()),
        Err("stats for registered zone: NotLoaded".to_string())
    );
    assert_eq!(
        next_step(Step::Verify, Answer::Unclean("r".to_string())),
        Err("empty policy should verify cleanly: r".to_string())
    );
    assert_eq!(next_step(Step::Verify, Answer::Succeeded), Ok(Step::DeleteZone));
    assert_eq!(next_step(Step::Shutdown, Answer::Succeeded), Ok(Step::Done));
}

#[test]
fn every_backend_is_walked_through_all_steps_in_order() {
    let asked = RefCell::new(Vec::new());
    let good = |step: Step| {
        asked.borrow_mut().push(step);
        Answer::Succeeded
    };
    assert_eq!(walk(&good), Ok(()));
    assert_eq!(
        asked.borrow().as_slice(),
        &[
            Step::Load,
            Step::CreateZone,
            Step::ApplyPolicy,
            Step::Stats,
            Step::Verify,
            Step::DeleteZone,
            Step::Shutdown,
        ]
    );
    asked.borrow_mut().clear();
    let unclean = |step: Step| {
        asked.borrow_mut().push(step);
        match step {
            Step::Verify => Answer::Unclean("drift".to_string()),
            _ => Answer::Succeeded,
        }
    };
    assert_eq!(walk(&unclean), Err("empty policy should verify cleanly: drift".to_string()));
    assert_eq!(asked.borrow().len(), 5);
}

#[test]
fn linux_objects_are_looked_for_in_order() {
    let candidates = linux::ebpf_candidates("/var/lib/rauha", "/src/rauha/rauhad");
    assert_eq!(
        candidates,
        vec![
            "/var/lib/rauha/rauha-ebpf",
            "/usr/lib/rauha/rauha-ebpf",
            "/src/rauha/rauha-ebpf/target/bpfel-unknown-none/debug/rauha-ebpf",
            "/src/rauha/rauha-ebpf/target/bpfel-unknown-none/release/rauha-ebpf",
        ]
    );
    assert_eq!(
        linux::ebpf_candidates("r", "/")[2],
        "./rauha-ebpf/target/bpfel-unknown-none/debug/rauha-ebpf"
    );
    let found = linux::choose_object(&candidates, &vec![false, true, true, false]);
    assert_eq!(found.unwrap(), "/usr/lib/rauha/rauha-ebpf");
    let fault = linux::choose_object(&candidates, &vec![false; 4]).unwrap_err();
    assert_eq!(fault.message, "eBPF object not found in any known location");
    assert_eq!(fault.hint, "run `cargo xtask build-ebpf` to compile eBPF programs");
}

#[test]
fn linux_faults_are_put_in_words() {
    let fault = linux::ring_buffer_fault("gone");
    assert_eq!(fault.message, "enforcement event ring buffer not available: gone");
    let fault = linux::unavailable(linux::Operation::InsertInodes);
    assert_eq!(fault.message, "eBPF manager not available during rootfs inode registration");
    let fault = linux::unavailable(linux::Operation::ReadCounters);
    assert_eq!(fault.message, "eBPF manager not available while reading counters");
}

#[test]
fn linux_waits_for_its_programs() {
    assert!(linux::needs_load(Slot::Vacant).unwrap());
    assert!(!linux::needs_load(Slot::Loaded).unwrap());
    assert!(linux::needs_cleanup(Slot::Loaded).unwrap());
    assert!(!linux::needs_cleanup(Slot::Vacant).unwrap());
    assert_eq!(
        linux::needs_load(Slot::Poisoned).unwrap_err().message(),
        "verifier failed: linux enforcer mutex poisoned"
    );
    assert!(matches!(linux::require_loaded(Slot::Vacant), Err(EnforcerError::NotLoaded)));
    assert!(linux::require_loaded(Slot::Loaded).is_ok());
    assert!(linux::needs_cleanup(Slot::Poisoned).is_err());
}

#[test]
fn linux_writes_a_zone_by_the_low_half_of_its_number() {
    let policy = EnforcementPolicy {
        zone: ZoneEnforcement { caps_mask: 3, allow_ptrace: false, allow_host_net: true },
        rules: vec![kernel_rule()],
    };
    let record = linux::plan_policy(Slot::Loaded, ZoneId(0x1_0000_0007), &policy).unwrap();
    assert_eq!(record.zone_id, 7);
    assert_eq!(record.zone, policy.zone);
    assert!(matches!(
        linux::plan_policy(Slot::Vacant, ZoneId(1), &policy),
        Err(EnforcerError::NotLoaded)
    ));
}

#[test]
fn linux_adds_counters_up() {
    let counters = vec![
        Counters { allow: 1, deny: 2, error: 3 },
        Counters { allow: 10, deny: 20, error: 30 },
    ];
    let stats = linux::sum_counters(&counters).unwrap();
    assert_eq!((stats.allowed, stats.denied, stats.errors), (11, 22, 33));
    assert_eq!(linux::sum_counters(&vec![]), Some(EnforcementStats::default()));
    let too_many = vec![
        Counters { allow: u64::MAX, deny: 0, error: 0 },
        Counters { allow: 1, deny: 0, error: 0 },
    ];
    assert_eq!(linux::sum_counters(&too_many), None);
}

#[test]
fn linux_reports_programs_that_are_not_at_work() {
    let status = |name: &str, loaded: bool, attached: bool| ProgramStatus {
        name: name.to_string(),
        loaded,
        attached,
    };
    let policy = EnforcementPolicy { rules: vec![kernel_rule()], ..Default::default() };
    let good = linux::verify(&vec![status("file_open", true, true)], Some(policy.zone), &policy);
    assert!(good.ok);
    let bad = linux::verify(
        &vec![status("a", true, true), status("b", true, false), status("c", false, true)],
        Some(policy.zone),
        &policy,
    );
    assert!(!bad.ok);
    assert_eq!(bad.discrepancies.len(), 2);
    assert_eq!(bad.discrepancies[0].kind, VerifyDiscrepancyKind::HookInactive);
    assert_eq!(bad.discrepancies[0].message, "program b is not loaded and attached");
    assert_eq!(bad.discrepancies[1].rule, None);
}

#[test]
fn linux_reports_zones_that_have_drifted() {
    let policy = EnforcementPolicy {
        zone: ZoneEnforcement { caps_mask: 3, allow_ptrace: false, allow_host_net: true },
        rules: vec![],
    };
    let kinds = |loaded: Option<ZoneEnforcement>| {
        let report = linux::verify(&vec![], loaded, &policy);
        assert_eq!(report.ok, report.discrepancies.is_empty());
        report.discrepancies.into_iter().map(|d| d.kind).collect::<Vec<_>>()
    };
    let record = linux::plan_policy(Slot::Loaded, ZoneId(7), &policy).unwrap();
    assert_eq!(record.zone_id, linux::record_key(ZoneId(7)));
    assert_eq!(kinds(Some(record.zone)), vec![]);
    assert_eq!(kinds(None), vec![VerifyDiscrepancyKind::PolicyMissing]);
    for other in [
        ZoneEnforcement { caps_mask: 2, ..policy.zone },
        ZoneEnforcement { allow_ptrace: true, ..policy.zone },
        ZoneEnforcement { allow_host_net: false, ..policy.zone },
    ] {
        assert_eq!(kinds(Some(other)), vec![VerifyDiscrepancyKind::PolicyMismatch]);
    }
}

#[test]
fn linux_turns_errors_into_its_own() {
    let reason = |kind: ErrorKind| {
        linux::to_enforcer_error(RauhaError { kind, display: "shown".to_string() }).message()
    };
    let ebpf = ErrorKind::Ebpf { message: "m".to_string(), hint: "h".to_string() };
    assert_eq!(reason(ebpf), "verifier failed: m");
    assert_eq!(
        reason(ErrorKind::ZoneNotFound("z".to_string())),
        "verifier failed: zone not found in Rauha metadata: z"
    );
    assert_eq!(reason(ErrorKind::Backend("b".to_string())), "verifier failed: b");
    assert_eq!(reason(ErrorKind::InvalidInput), "verifier failed: shown");
}

#[test]
fn sets_of_hooks_are_the_same_however_they_are_given() {
    let one = HookSet::from_hooks(vec![Hook::Signal, Hook::FileOpen, Hook::CgroupAttach]);
    let other = HookSet::from_hooks(vec![
        Hook::CgroupAttach,
        Hook::Signal,
        Hook::FileOpen,
        Hook::Signal,
    ]);
    assert_eq!(one, other);
    assert_eq!(one.iter(), vec![Hook::FileOpen, Hook::Signal, Hook::CgroupAttach]);
}
