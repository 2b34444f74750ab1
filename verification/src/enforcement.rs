//! The seam between policy and what enforces it: the enforcement vocabulary, what a
//! backend says it can do, how it fails, and what it reports.

use vstd::prelude::*;
use vstd::string::StringExecFns;

use crate::number;
use crate::number::decimal_of;

verus! {

/// A zone, as backends know it.
#[derive(Clone, Copy, PartialEq, Eq, Hash, Debug, Structural)]
pub struct ZoneId(pub u64);

/// A rule of a policy.
#[derive(Clone, Copy, PartialEq, Eq, Hash, Debug, Structural)]
pub struct RuleId(pub u64);

/// What is enforced zone-wide: a mask of the Linux capabilities that the zone
/// may use, and coarse allowances.
#[derive(Clone, Copy, Debug, PartialEq, Eq, Structural)]
pub struct ZoneEnforcement {
    /// The capabilities that the zone may use, a bit each.
    pub caps_mask: u64,
    /// Whether `ptrace` is allowed inside the zone.
    pub allow_ptrace: bool,
    /// Whether the zone may use the host's network.
    pub allow_host_net: bool,
}

impl Default for ZoneEnforcement {
    /// The most restrictive state: no capability, nothing allowed.
    fn default() -> (res: Self)
        ensures
            res == (ZoneEnforcement { caps_mask: 0, allow_ptrace: false, allow_host_net: false }),
    {
        ZoneEnforcement { caps_mask: 0, allow_ptrace: false, allow_host_net: false }
    }
}

/// What a rule decides.
#[derive(Clone, Copy, Debug, PartialEq, Eq, Structural)]
pub enum Decision {
    Allow,
    Deny,
}

/// Where enforcement takes hold.
#[derive(Clone, Copy, Debug, PartialEq, Eq, PartialOrd, Ord, Hash, Structural)]
pub enum Hook {
    FileOpen,
    BprmCheck,
    SocketConnect,
    PtraceAccess,
    Signal,
    CgroupAttach,
}

/// What a rule applies to, as its backend reads it.
#[derive(Clone, Debug, PartialEq, Eq)]
pub enum Matcher {
    Any,
    Raw(Vec<u8>),
}

/// One rule of a policy.
#[derive(Clone, Debug, PartialEq, Eq)]
pub struct EnforcementRule {
    pub id: RuleId,
    pub hook: Hook,
    pub matcher: Matcher,
    pub decision: Decision,
    /// Whether the rule is only enforced where the kernel enforces it. A backend
    /// that has no kernel to do so rejects such a rule.
    pub requires_kernel: bool,
}

/// The whole policy of one zone.
#[derive(Clone, Debug, PartialEq, Eq)]
pub struct EnforcementPolicy {
    /// What is enforced zone-wide.
    pub zone: ZoneEnforcement,
    /// The rules, hook by hook.
    pub rules: Vec<EnforcementRule>,
}

impl Default for EnforcementPolicy {
    /// The most restrictive zone, and no rules.
    fn default() -> (res: Self)
        ensures
            res.zone == (ZoneEnforcement {
                caps_mask: 0,
                allow_ptrace: false,
                allow_host_net: false,
            }),
            res.rules@.len() == 0,
    {
        EnforcementPolicy { zone: ZoneEnforcement::default(), rules: Vec::new() }
    }
}

/// What a backend reports of one decision.
#[derive(Clone, Debug, PartialEq, Eq)]
pub struct EnforcementEvent {
    pub zone: ZoneId,
    pub rule: RuleId,
    pub hook: Hook,
    pub decision: Decision,
    pub pid: u32,
    pub ts_ns: u64,
    pub target: Vec<u8>,
}

/// The place of a hook in the order of hooks.
pub open spec fn rank(hook: Hook) -> int {
    match hook {
        Hook::FileOpen => 0,
        Hook::BprmCheck => 1,
        Hook::SocketConnect => 2,
        Hook::PtraceAccess => 3,
        Hook::Signal => 4,
        Hook::CgroupAttach => 5,
    }
}

/// The name of a hook.
pub open spec fn hook_text(hook: Hook) -> Seq<char> {
    match hook {
        Hook::FileOpen => "FileOpen"@,
        Hook::BprmCheck => "BprmCheck"@,
        Hook::SocketConnect => "SocketConnect"@,
        Hook::PtraceAccess => "PtraceAccess"@,
        Hook::Signal => "Signal"@,
        Hook::CgroupAttach => "CgroupAttach"@,
    }
}

fn rank_of(hook: Hook) -> (res: u8)
    ensures
        res == rank(hook),
{
    match hook {
        Hook::FileOpen => 0,
        Hook::BprmCheck => 1,
        Hook::SocketConnect => 2,
        Hook::PtraceAccess => 3,
        Hook::Signal => 4,
        Hook::CgroupAttach => 5,
    }
}

/// The name of a hook.
pub fn hook_name(hook: Hook) -> (res: &'static str)
    ensures
        res@ == hook_text(hook),
{
    match hook {
        Hook::FileOpen => "FileOpen",
        Hook::BprmCheck => "BprmCheck",
        Hook::SocketConnect => "SocketConnect",
        Hook::PtraceAccess => "PtraceAccess",
        Hook::Signal => "Signal",
        Hook::CgroupAttach => "CgroupAttach",
    }
}

/// Whether hooks stand in their order, each at most once.
pub open spec fn ranked(hooks: Seq<Hook>) -> bool {
    forall|i: int, j: int|
        0 <= i < j < hooks.len() ==> rank(#[trigger] hooks[i]) < rank(#[trigger] hooks[j])
}

/// Hooks in their order are determined by which they are; so a set of hooks is the
/// same however it was given.
pub proof fn law_hooks_decide_the_set(a: Seq<Hook>, b: Seq<Hook>)
    requires
        ranked(a),
        ranked(b),
        forall|h: Hook| #[trigger] a.contains(h) <==> b.contains(h),
    ensures
        a == b,
    decreases a.len(),
{
    if a.len() == 0 {
        if b.len() > 0 {
            assert(b.contains(b[0]));
            assert(a.contains(b[0]));
        }
    } else {
        assert(a.contains(a.last()));
        let at = choose|i: int| 0 <= i < b.len() && b[i] == a.last();
        assert(b.contains(b.last()));
        assert(a.contains(b.last()));
        let back = choose|i: int| 0 <= i < a.len() && a[i] == b.last();
        assert(at == b.len() - 1 && back == a.len() - 1);
        let p = a.drop_last();
        let q = b.drop_last();
        assert forall|h: Hook| #[trigger] p.contains(h) <==> q.contains(h) by {
            if p.contains(h) {
                let i = choose|i: int| 0 <= i < p.len() && p[i] == h;
                assert(a.contains(a[i]));
                let j = choose|j: int| 0 <= j < b.len() && b[j] == h;
                assert(a[i] != a.last());
                assert(q[j] == h);
            }
            if q.contains(h) {
                let j = choose|j: int| 0 <= j < q.len() && q[j] == h;
                assert(b.contains(b[j]));
                assert(a.contains(h));
                let i = choose|i: int| 0 <= i < a.len() && a[i] == h;
                assert(b[j] != b.last());
                assert(p[i] == h);
            }
        }
        law_hooks_decide_the_set(p, q);
        assert(a == p.push(a.last()) && b == q.push(b.last()));
    }
}

/// A set of hooks.
#[derive(Debug, PartialEq, Eq)]
pub struct HookSet {
    hooks: Vec<Hook>,
}

impl View for HookSet {
    type V = Seq<Hook>;

    closed spec fn view(&self) -> Seq<Hook> {
        self.hooks@
    }
}

impl HookSet {
    #[verifier::type_invariant]
    spec fn in_order(self) -> bool {
        ranked(self.hooks@)
    }

    /// The empty set.
    pub fn none() -> (res: Self)
        ensures
            res@ == Seq::<Hook>::empty(),
    {
        HookSet { hooks: Vec::new() }
    }

    /// The set of the hooks given, in the order of hooks, each once.
    pub fn from_hooks(hooks: Vec<Hook>) -> (res: Self)
        ensures
            ranked(res@),
            forall|h: Hook| res@.contains(h) <==> hooks@.contains(h),
    {
        let mut set: Vec<Hook> = Vec::new();
        let mut i: usize = 0;
        while i < hooks.len()
            invariant
                i <= hooks@.len(),
                ranked(set@),
                forall|h: Hook| #[trigger] set@.contains(h) <==> hooks@.take(i as int).contains(h),
            decreases hooks@.len() - i,
        {
            let hook = hooks[i];
            assert(hooks@.take(i + 1) == hooks@.take(i as int).push(hook));
            insert_ranked(&mut set, hook);
            assert forall|h: Hook| #[trigger] set@.contains(h) <==> hooks@.take(i + 1).contains(
                h,
            ) by {
                let taken = hooks@.take(i as int);
                if taken.contains(h) {
                    let k = choose|k: int| 0 <= k < taken.len() && taken[k] == h;
                    assert(taken.push(hook)[k] == h);
                }
                assert(taken.push(hook)[taken.len() as int] == hook);
            }
            i = i + 1;
        }
        assert(hooks@.take(hooks@.len() as int) == hooks@);
        HookSet { hooks: set }
    }

    /// Whether a hook is in the set.
    pub fn contains(&self, hook: Hook) -> (res: bool)
        ensures
            res == self@.contains(hook),
    {
        let mut i: usize = 0;
        while i < self.hooks.len()
            invariant
                i <= self.hooks@.len(),
                self@ == self.hooks@,
                forall|j: int| 0 <= j < i ==> self.hooks@[j] != hook,
            decreases self.hooks@.len() - i,
        {
            if self.hooks[i] == hook {
                return true;
            }
            i = i + 1;
        }
        false
    }

    /// The hooks of the set, in their order.
    pub fn iter(&self) -> (res: Vec<Hook>)
        ensures
            res@ == self@,
            ranked(res@),
    {
        proof {
            use_type_invariant(self);
        }
        copied(&self.hooks)
    }
}

impl Default for HookSet {
    fn default() -> (res: Self)
        ensures
            res@ == Seq::<Hook>::empty(),
    {
        HookSet::none()
    }
}

impl Clone for HookSet {
    fn clone(&self) -> (res: Self)
        ensures
            res@ == self@,
    {
        proof {
            use_type_invariant(self);
        }
        let hooks = copied(&self.hooks);
        HookSet { hooks }
    }
}

fn copied(hooks: &Vec<Hook>) -> (res: Vec<Hook>)
    ensures
        res@ == hooks@,
{
    let mut out: Vec<Hook> = Vec::new();
    let mut i: usize = 0;
    while i < hooks.len()
        invariant
            i <= hooks@.len(),
            out@ == hooks@.take(i as int),
        decreases hooks@.len() - i,
    {
        out.push(hooks[i]);
        i = i + 1;
    }
    assert(hooks@.take(hooks@.len() as int) == hooks@);
    out
}

/// Puts a hook where it belongs, unless it is there.
fn insert_ranked(set: &mut Vec<Hook>, hook: Hook)
    requires
        ranked(old(set)@),
    ensures
        ranked(final(set)@),
        forall|h: Hook| #[trigger]
            final(set)@.contains(h) <==> old(set)@.contains(h) || h == hook,
{
    let wanted: u8 = rank_of(hook);
    let ghost start = set@;
    let mut i: usize = 0;
    while i < set.len() && rank_of(set[i]) < wanted
        invariant
            i <= set@.len(),
            set@ == start,
            wanted == rank(hook),
            forall|j: int| 0 <= j < i ==> rank(#[trigger] set@[j]) < wanted,
        decreases set@.len() - i,
    {
        i = i + 1;
    }
    if i < set.len() && rank_of(set[i]) == wanted {
        assert(set@[i as int] == hook);
        return;
    }
    set.insert(i, hook);
    assert forall|h: Hook| #[trigger] set@.contains(h) <==> start.contains(h) || h == hook by {
        if start.contains(h) {
            let k = choose|k: int| 0 <= k < start.len() && start[k] == h;
            if k < i {
                assert(set@[k] == h);
            } else {
                assert(set@[k + 1] == h);
            }
        }
        assert(set@[i as int] == hook);
        if set@.contains(h) && h != hook {
            let k = choose|k: int| 0 <= k < set@.len() && set@[k] == h;
            if k < i {
                assert(start[k] == h);
            } else {
                assert(start[k - 1] == h);
            }
        }
    }
    assert forall|a: int, b: int| 0 <= a < b < set@.len() implies rank(#[trigger] set@[a]) < rank(
        #[trigger] set@[b],
    ) by {
        let left = if a < i {
            a
        } else {
            a - 1
        };
        let right = if b < i {
            b
        } else {
            b - 1
        };
        if a == i {
            assert(rank(start[i as int]) <= rank(start[right]));
        } else if b == i {
            assert(set@[a] == start[a]);
        } else {
            assert(set@[a] == start[left] && set@[b] == start[right]);
        }
    }
}

/// What a backend can do.
#[derive(Clone, Debug, PartialEq, Eq)]
pub struct Capabilities {
    /// Whether the kernel enforces the rules.
    pub kernel_enforcement: bool,
    /// The hooks that rules can be for.
    pub hooks: HookSet,
    /// Whether there are events to watch.
    pub event_stream: bool,
    /// Whether decisions are counted.
    pub counters: bool,
}

/// Whether a backend that can do as `caps` says enforces a rule.
pub open spec fn supports(caps: Capabilities, rule: EnforcementRule) -> bool {
    &&& rule.requires_kernel ==> caps.kernel_enforcement
    &&& caps.hooks@.contains(rule.hook)
}

impl Capabilities {
    /// What a backend can do that can do nothing.
    pub fn noop() -> (res: Self)
        ensures
            !res.kernel_enforcement,
            res.hooks@ == Seq::<Hook>::empty(),
            !res.event_stream,
            !res.counters,
    {
        Capabilities {
            kernel_enforcement: false,
            hooks: HookSet::none(),
            event_stream: false,
            counters: false,
        }
    }

    /// Whether the backend enforces a rule.
    pub fn supports_rule(&self, rule: &EnforcementRule) -> (res: bool)
        ensures
            res == supports(*self, *rule),
    {
        if rule.requires_kernel && !self.kernel_enforcement {
            return false;
        }
        self.hooks.contains(rule.hook)
    }
}

/// Why a backend did not do what it was asked.
#[derive(Clone, Debug)]
pub enum EnforcerError {
    NotLoaded,
    ZoneNotFound(ZoneId),
    PolicyUnenforceable { zone: ZoneId, rule: RuleId, reason: String },
    Verifier(String),
    /// The kernel refused, for the reason given.
    Kernel(String),
}

/// A zone's number under its type's name.
pub open spec fn zone_text(zone: ZoneId) -> Seq<char> {
    "ZoneId("@ + number::decimal(zone.0 as nat) + ")"@
}

/// A rule's number under its type's name.
pub open spec fn rule_text(rule: RuleId) -> Seq<char> {
    "RuleId("@ + number::decimal(rule.0 as nat) + ")"@
}

/// A zone's number under its type's name.
pub fn zone_label(zone: ZoneId) -> (res: String)
    ensures
        res@ == zone_text(zone),
{
    let mut out = "ZoneId(".to_owned();
    out.append(decimal_of(zone.0).as_str());
    out.append(")");
    out
}

/// A rule's number under its type's name.
pub fn rule_label(rule: RuleId) -> (res: String)
    ensures
        res@ == rule_text(rule),
{
    let mut out = "RuleId(".to_owned();
    out.append(decimal_of(rule.0).as_str());
    out.append(")");
    out
}

impl EnforcerError {
    /// What `message` says.
    pub open spec fn text(self) -> Seq<char> {
        match self {
            EnforcerError::NotLoaded => "enforcer is not loaded"@,
            EnforcerError::ZoneNotFound(zone) => "zone not found: "@ + zone_text(zone),
            EnforcerError::PolicyUnenforceable { zone, rule, reason } => "policy rule "@
                + rule_text(rule) + " cannot be enforced for zone "@ + zone_text(zone) + ": "@
                + reason@,
            EnforcerError::Verifier(reason) => "verifier failed: "@ + reason@,
            EnforcerError::Kernel(reason) => "kernel error: "@ + reason@,
        }
    }

    /// The error in words.
    pub fn message(&self) -> (res: String)
        ensures
            res@ == self.text(),
    {
        match self {
            EnforcerError::NotLoaded => "enforcer is not loaded".to_owned(),
            EnforcerError::ZoneNotFound(zone) => {
                let mut out = "zone not found: ".to_owned();
                out.append(zone_label(*zone).as_str());
                out
            },
            EnforcerError::PolicyUnenforceable { zone, rule, reason } => {
                let mut out = "policy rule ".to_owned();
                out.append(rule_label(*rule).as_str());
                out.append(" cannot be enforced for zone ");
                out.append(zone_label(*zone).as_str());
                out.append(": ");
                out.append(reason.as_str());
                out
            },
            EnforcerError::Verifier(reason) => {
                let mut out = "verifier failed: ".to_owned();
                out.append(reason.as_str());
                out
            },
            EnforcerError::Kernel(reason) => {
                let mut out = "kernel error: ".to_owned();
                out.append(reason.as_str());
                out
            },
        }
    }
}

/// How often a backend decided what.
#[derive(Clone, Copy, Debug, PartialEq, Eq, Structural)]
pub struct EnforcementStats {
    pub allowed: u64,
    pub denied: u64,
    pub errors: u64,
}

impl Default for EnforcementStats {
    fn default() -> (res: Self)
        ensures
            res == (EnforcementStats { allowed: 0, denied: 0, errors: 0 }),
    {
        EnforcementStats { allowed: 0, denied: 0, errors: 0 }
    }
}

/// In what way a zone's enforcement is not what its policy asks for.
#[derive(Clone, Copy, Debug, PartialEq, Eq, Structural)]
pub enum VerifyDiscrepancyKind {
    ZoneMissing,
    PolicyMissing,
    PolicyMismatch,
    RuleUnsupported,
    HookInactive,
    EventStreamUnhealthy,
    CounterUnhealthy,
    BackendUnloaded,
}

/// One thing in which a zone's enforcement is not what its policy asks for.
#[derive(Clone, Debug, PartialEq, Eq)]
pub struct VerifyDiscrepancy {
    pub kind: VerifyDiscrepancyKind,
    pub rule: Option<RuleId>,
    pub message: String,
}

/// What a discrepancy says.
pub struct Finding {
    pub kind: VerifyDiscrepancyKind,
    pub rule: Option<RuleId>,
    pub message: Seq<char>,
}

impl View for VerifyDiscrepancy {
    type V = Finding;

    open spec fn view(&self) -> Finding {
        Finding { kind: self.kind, rule: self.rule, message: self.message@ }
    }
}

/// What was found when a zone's enforcement was held against its policy.
#[derive(Clone, Debug, PartialEq, Eq)]
pub struct VerifyReport {
    /// Whether nothing was found.
    pub ok: bool,
    /// What was found.
    pub discrepancies: Vec<VerifyDiscrepancy>,
}

impl Default for VerifyReport {
    fn default() -> (res: Self)
        ensures
            !res.ok,
            res.discrepancies@.len() == 0,
    {
        VerifyReport { ok: false, discrepancies: Vec::new() }
    }
}

/// What discrepancies say.
pub open spec fn found(discrepancies: Seq<VerifyDiscrepancy>) -> Seq<Finding> {
    discrepancies.map_values(|d: VerifyDiscrepancy| d@)
}

/// What is found of the rules that a backend does not support, in their order;
/// `verdict` ends each message.
pub open spec fn unsupported(
    caps: Capabilities,
    rules: Seq<EnforcementRule>,
    verdict: Seq<char>,
) -> Seq<Finding>
    decreases rules.len(),
{
    if rules.len() == 0 {
        Seq::empty()
    } else {
        let front = unsupported(caps, rules.drop_last(), verdict);
        let rule = rules.last();
        if supports(caps, rule) {
            front
        } else {
            front.push(
                Finding {
                    kind: VerifyDiscrepancyKind::RuleUnsupported,
                    rule: Some(rule.id),
                    message: "rule "@ + rule_text(rule.id) + verdict,
                },
            )
        }
    }
}

/// Appends what is found of the rules that a backend does not support.
pub fn append_unsupported(
    out: &mut Vec<VerifyDiscrepancy>,
    caps: &Capabilities,
    rules: &Vec<EnforcementRule>,
    verdict: &str,
)
    ensures
        found(final(out)@) == found(old(out)@) + unsupported(*caps, rules@, verdict@),
{
    let ghost start = found(out@);
    let mut i: usize = 0;
    assert(rules@.take(0) == Seq::<EnforcementRule>::empty());
    while i < rules.len()
        invariant
            i <= rules@.len(),
            found(out@) == start + unsupported(*caps, rules@.take(i as int), verdict@),
        decreases rules@.len() - i,
    {
        let rule = &rules[i];
        assert(rules@.take(i + 1).drop_last() == rules@.take(i as int));
        if !caps.supports_rule(rule) {
            let mut message = "rule ".to_owned();
            message.append(rule_label(rule.id).as_str());
            message.append(verdict);
            let ghost had = out@;
            let finding = VerifyDiscrepancy {
                kind: VerifyDiscrepancyKind::RuleUnsupported,
                rule: Some(rule.id),
                message,
            };
            out.push(finding);
            assert(found(out@) == found(had).push(finding@));
        }
        i = i + 1;
    }
    assert(rules@.take(rules@.len() as int) == rules@);
}

/// Where the first rule stands that a backend does not support.
pub open spec fn first_unsupported(caps: Capabilities, rules: Seq<EnforcementRule>) -> Option<int>
    decreases rules.len(),
{
    if rules.len() == 0 {
        None
    } else if !supports(caps, rules[0]) {
        Some(0)
    } else {
        match first_unsupported(caps, rules.skip(1)) {
            Some(i) => Some(i + 1),
            None => None,
        }
    }
}

/// Where the first rule stands that a backend does not support.
pub fn first_unsupported_rule(caps: &Capabilities, rules: &Vec<EnforcementRule>) -> (res: Option<
    usize,
>)
    ensures
        match res {
            Some(i) => i < rules@.len() && first_unsupported(*caps, rules@) == Some(i as int),
            None => first_unsupported(*caps, rules@) is None,
        },
{
    let mut i: usize = 0;
    assert(rules@.skip(0) == rules@);
    while i < rules.len()
        invariant
            i <= rules@.len(),
            first_unsupported(*caps, rules@) == (match first_unsupported(
                *caps,
                rules@.skip(i as int),
            ) {
                Some(k) => Some(k + i),
                None => None,
            }),
        decreases rules@.len() - i,
    {
        if !caps.supports_rule(&rules[i]) {
            return Some(i);
        }
        assert(rules@.skip(i as int).skip(1) == rules@.skip(i + 1));
        i = i + 1;
    }
    None
}

/// A policy has an unsupported rule exactly where verifying finds one.
pub proof fn law_unsupported_is_found(
    caps: Capabilities,
    rules: Seq<EnforcementRule>,
    verdict: Seq<char>,
)
    ensures
        first_unsupported(caps, rules) is None <==> unsupported(caps, rules, verdict).len() == 0,
        first_unsupported(caps, rules) is None <==> forall|i: int|
            0 <= i < rules.len() ==> supports(caps, #[trigger] rules[i]),
{
    lemma_first_unsupported(caps, rules);
    lemma_unsupported(caps, rules, verdict);
}

proof fn lemma_first_unsupported(caps: Capabilities, rules: Seq<EnforcementRule>)
    ensures
        first_unsupported(caps, rules) is None <==> forall|i: int|
            0 <= i < rules.len() ==> supports(caps, #[trigger] rules[i]),
    decreases rules.len(),
{
    if rules.len() > 0 {
        let rest = rules.skip(1);
        lemma_first_unsupported(caps, rest);
        if supports(caps, rules[0]) && first_unsupported(caps, rest) is None {
            assert forall|i: int| 0 <= i < rules.len() implies supports(
                caps,
                #[trigger] rules[i],
            ) by {
                if i > 0 {
                    assert(supports(caps, rest[i - 1]));
                }
            }
        } else if supports(caps, rules[0]) {
            let i = choose|i: int| 0 <= i < rest.len() && !supports(caps, #[trigger] rest[i]);
            assert(rules[i + 1] == rest[i]);
        }
    }
}

proof fn lemma_unsupported(caps: Capabilities, rules: Seq<EnforcementRule>, verdict: Seq<char>)
    ensures
        unsupported(caps, rules, verdict).len() == 0 <==> forall|i: int|
            0 <= i < rules.len() ==> supports(caps, #[trigger] rules[i]),
    decreases rules.len(),
{
    if rules.len() > 0 {
        let front = rules.drop_last();
        lemma_unsupported(caps, front, verdict);
        if unsupported(caps, rules, verdict).len() == 0 {
            assert forall|i: int| 0 <= i < rules.len() implies supports(
                caps,
                #[trigger] rules[i],
            ) by {
                if i < rules.len() - 1 {
                    assert(supports(caps, front[i]));
                }
            }
        } else if forall|i: int| 0 <= i < rules.len() ==> supports(caps, #[trigger] rules[i]) {
            assert(supports(caps, rules[rules.len() - 1]));
            assert forall|i: int| 0 <= i < front.len() implies supports(
                caps,
                #[trigger] front[i],
            ) by {
                assert(supports(caps, rules[i]));
            }
        }
    }
}

/// A hook is called by its own name.
pub proof fn law_hooks_have_their_names(hook: Hook)
    ensures
        hook is FileOpen ==> hook_text(hook) == "FileOpen"@,
        hook is BprmCheck ==> hook_text(hook) == "BprmCheck"@,
        hook is SocketConnect ==> hook_text(hook) == "SocketConnect"@,
        hook is PtraceAccess ==> hook_text(hook) == "PtraceAccess"@,
        hook is Signal ==> hook_text(hook) == "Signal"@,
        hook is CgroupAttach ==> hook_text(hook) == "CgroupAttach"@,
{
}

/// In a set of hooks files come before programs, these before sockets, these before tracing,
/// this before signals, and control groups come last.
pub proof fn law_hooks_stand_in_order(hooks: Seq<Hook>, i: int, j: int)
    requires
        ranked(hooks),
        0 <= i < j < hooks.len(),
    ensures
        !(hooks[j] is FileOpen),
        hooks[j] is BprmCheck ==> hooks[i] is FileOpen,
        hooks[j] is SocketConnect ==> hooks[i] is FileOpen || hooks[i] is BprmCheck,
        hooks[i] is PtraceAccess ==> hooks[j] is Signal || hooks[j] is CgroupAttach,
        hooks[i] is Signal ==> hooks[j] is CgroupAttach,
        !(hooks[i] is CgroupAttach),
{
}

/// A rule is supported exactly where its hook is, and the kernel enforces where the rule needs
/// the kernel; what more a backend can do takes no rule away.
pub proof fn law_support_is_by_hook_and_kernel(
    caps: Capabilities,
    more: Capabilities,
    rule: EnforcementRule,
)
    ensures
        supports(caps, rule) ==> caps.hooks@.contains(rule.hook),
        supports(caps, rule) && rule.requires_kernel ==> caps.kernel_enforcement,
        caps.hooks@.contains(rule.hook) && !rule.requires_kernel ==> supports(caps, rule),
        caps.hooks@.contains(rule.hook) && caps.kernel_enforcement ==> supports(caps, rule),
        supports(caps, rule) && more.hooks@.contains(rule.hook) && (caps.kernel_enforcement
            ==> more.kernel_enforcement) ==> supports(more, rule),
{
}

/// An error says what it is about: the zone under the zone's label, the rule under the rule's,
/// and the reason last.
pub proof fn law_errors_say_what_they_are_about(zone: ZoneId, rule: RuleId, reason: String)
    ensures
        (EnforcerError::NotLoaded).text() == "enforcer is not loaded"@,
        EnforcerError::ZoneNotFound(zone).text() == "zone not found: "@ + ("ZoneId("@
            + number::decimal(zone.0 as nat) + ")"@),
        (EnforcerError::PolicyUnenforceable { zone, rule, reason }).text() == "policy rule "@ + (
        "RuleId("@ + number::decimal(rule.0 as nat) + ")"@) + " cannot be enforced for zone "@ + (
        "ZoneId("@ + number::decimal(zone.0 as nat) + ")"@) + ": "@ + reason@,
        EnforcerError::Verifier(reason).text() == "verifier failed: "@ + reason@,
        EnforcerError::Kernel(reason).text() == "kernel error: "@ + reason@,
{
}

/// Each rule that is not supported is reported once, by its own number, behind those before it,
/// and a rule that is supported is not reported.
pub proof fn law_unsupported_rules_are_reported(
    caps: Capabilities,
    rules: Seq<EnforcementRule>,
    more: EnforcementRule,
    verdict: Seq<char>,
)
    ensures
        supports(caps, more) ==> unsupported(caps, rules.push(more), verdict) == unsupported(
            caps,
            rules,
            verdict,
        ),
        !supports(caps, more) ==> {
            let findings = unsupported(caps, rules.push(more), verdict);
            &&& findings.len() == unsupported(caps, rules, verdict).len() + 1
            &&& findings.drop_last() == unsupported(caps, rules, verdict)
            &&& findings.last().kind is RuleUnsupported
            &&& findings.last().rule == Some(more.id)
            &&& findings.last().message == "rule "@ + ("RuleId("@ + number::decimal(
                more.id.0 as nat,
            ) + ")"@) + verdict
        },
{
    assert(rules.push(more).drop_last() == rules);
}

/// The rule that a refusal names is not supported, and every rule before it is.
pub proof fn law_first_unsupported_is_the_first(caps: Capabilities, rules: Seq<EnforcementRule>)
    ensures
        first_unsupported(caps, rules) matches Some(k) ==> 0 <= k < rules.len() && !supports(
            caps,
            rules[k],
        ) && forall|j: int| 0 <= j < k ==> supports(caps, #[trigger] rules[j]),
    decreases rules.len(),
{
    if rules.len() > 0 && supports(caps, rules[0]) {
        let rest = rules.skip(1);
        law_first_unsupported_is_the_first(caps, rest);
        if let Some(k) = first_unsupported(caps, rest) {
            assert(rules[k + 1] == rest[k]);
            assert forall|j: int| 0 <= j < k + 1 implies supports(caps, #[trigger] rules[j]) by {
                if j > 0 {
                    assert(supports(caps, rest[j - 1]));
                }
            }
        }
    }
}

} // verus!
