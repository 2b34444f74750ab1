//! A backend that enforces nothing, and is honest about it: a policy without
//! rules is fine, a rule is refused.

use std::collections::HashSet;

use vstd::prelude::*;
use vstd::string::StringExecFns;

use crate::enforcement;
use crate::enforcement::{
    append_unsupported, first_unsupported_rule, hook_name, zone_label, Capabilities,
    EnforcementPolicy, EnforcementRule, EnforcementStats, EnforcerError, VerifyDiscrepancy,
    VerifyDiscrepancyKind, VerifyReport, ZoneEnforcement, ZoneId,
};

verus! {

broadcast use vstd::std_specs::hash::group_hash_axioms;

/// What a policy asks for.
pub struct PolicyText {
    pub zone: ZoneEnforcement,
    pub rules: Seq<EnforcementRule>,
}

/// What a policy asks for.
pub open spec fn asked_by(policy: EnforcementPolicy) -> PolicyText {
    PolicyText { zone: policy.zone, rules: policy.rules@ }
}

/// What a backend is called to do.
pub enum Call {
    Load,
    Shutdown,
    CreateZone(ZoneId),
    DeleteZone(ZoneId),
    ApplyPolicy(ZoneId, PolicyText),
    Stats(ZoneId),
    Verify(ZoneId, PolicyText),
}

/// A backend without kernel enforcement.
pub struct NoopEnforcer {
    loaded: bool,
    zones: HashSet<u64>,
    calls: Ghost<Seq<Call>>,
}

/// What a `NoopEnforcer` knows: whether it is loaded, and its zones.
pub struct NoopState {
    pub loaded: bool,
    pub zones: Set<u64>,
}

impl View for NoopEnforcer {
    type V = NoopState;

    closed spec fn view(&self) -> NoopState {
        NoopState { loaded: self.loaded, zones: self.zones@ }
    }
}

/// The state with a zone more.
pub open spec fn with_zone(state: NoopState, zone: ZoneId) -> NoopState {
    NoopState { loaded: state.loaded, zones: state.zones.insert(zone.0) }
}

/// The state without a zone.
pub open spec fn without_zone(state: NoopState, zone: ZoneId) -> NoopState {
    NoopState { loaded: state.loaded, zones: state.zones.remove(zone.0) }
}

/// Deleting a zone undoes its creation, and a zone is there from the one to the other.
pub proof fn law_deleting_undoes_creating(state: NoopState, zone: ZoneId)
    requires
        !state.zones.contains(zone.0),
    ensures
        with_zone(state, zone).zones.contains(zone.0),
        without_zone(with_zone(state, zone), zone) == state,
{
    assert(state.zones.insert(zone.0).remove(zone.0) == state.zones);
}

/// Why a rule is refused.
pub open spec fn refusal(rule: EnforcementRule) -> Seq<char> {
    if rule.requires_kernel {
        "backend has no kernel enforcement"@
    } else {
        "backend does not support hook "@ + enforcement::hook_text(rule.hook)
    }
}

/// Whether a policy with these rules can be applied to a zone.
pub open spec fn accepts(state: NoopState, zone: ZoneId, rules: Seq<EnforcementRule>) -> bool {
    state.loaded && state.zones.contains(zone.0) && rules.len() == 0
}

/// What is found when a zone is held against a policy with these rules.
pub open spec fn findings(
    state: NoopState,
    zone: ZoneId,
    rules: Seq<EnforcementRule>,
) -> Seq<enforcement::Finding> {
    if !state.loaded {
        seq![
            enforcement::Finding {
                kind: VerifyDiscrepancyKind::BackendUnloaded,
                rule: None,
                message: "noop enforcer is not loaded"@,
            },
        ]
    } else if !state.zones.contains(zone.0) {
        seq![
            enforcement::Finding {
                kind: VerifyDiscrepancyKind::ZoneMissing,
                rule: None,
                message: "zone "@ + enforcement::zone_text(zone) + " is not registered"@,
            },
        ]
    } else {
        rules.map_values(
            |rule: EnforcementRule|
                enforcement::Finding {
                    kind: VerifyDiscrepancyKind::RuleUnsupported,
                    rule: Some(rule.id),
                    message: "rule "@ + enforcement::rule_text(rule.id)
                        + " is unsupported by noop enforcer"@,
                },
        )
    }
}

/// A backend that can do nothing supports no rule, whether the rule needs the
/// kernel or not.
pub proof fn law_noop_supports_no_rule(caps: Capabilities, rule: EnforcementRule)
    requires
        caps.hooks@.len() == 0,
    ensures
        !enforcement::supports(caps, rule),
{
}

/// A policy can be applied exactly where holding the zone against it finds nothing.
pub proof fn law_accepted_is_verified(
    state: NoopState,
    zone: ZoneId,
    rules: Seq<EnforcementRule>,
)
    ensures
        accepts(state, zone, rules) <==> findings(state, zone, rules).len() == 0,
{
}

/// A rule that needs the kernel is never accepted.
pub proof fn law_kernel_rule_is_refused(
    state: NoopState,
    zone: ZoneId,
    rules: Seq<EnforcementRule>,
)
    requires
        exists|i: int| 0 <= i < rules.len() && (#[trigger] rules[i]).requires_kernel,
    ensures
        !accepts(state, zone, rules),
{
}

proof fn lemma_all_unsupported(
    caps: Capabilities,
    rules: Seq<EnforcementRule>,
    state: NoopState,
    zone: ZoneId,
)
    requires
        caps.hooks@.len() == 0,
        state.loaded,
        state.zones.contains(zone.0),
    ensures
        enforcement::unsupported(caps, rules, " is unsupported by noop enforcer"@) == findings(
            state,
            zone,
            rules,
        ),
    decreases rules.len(),
{
    if rules.len() > 0 {
        lemma_all_unsupported(caps, rules.drop_last(), state, zone);
        law_noop_supports_no_rule(caps, rules.last());
    }
}

impl NoopEnforcer {
    /// What the backend has been called to do, in order, whether it did it or not.
    pub closed spec fn calls(&self) -> Seq<Call> {
        self.calls@
    }

    /// A backend that is not loaded, has no zones, and has not been called.
    pub fn new() -> (res: Self)
        ensures
            res@ == (NoopState { loaded: false, zones: Set::empty() }),
            res.calls() == Seq::<Call>::empty(),
    {
        NoopEnforcer { loaded: false, zones: HashSet::new(), calls: Ghost(Seq::empty()) }
    }

    fn ensure_loaded(&self) -> (res: Result<(), EnforcerError>)
        ensures
            match res {
                Ok(_) => self@.loaded,
                Err(e) => !self@.loaded && e is NotLoaded,
            },
    {
        if self.loaded {
            Ok(())
        } else {
            Err(EnforcerError::NotLoaded)
        }
    }

    fn ensure_zone(&self, zone: ZoneId) -> (res: Result<(), EnforcerError>)
        ensures
            match res {
                Ok(_) => self@.zones.contains(zone.0),
                Err(e) => !self@.zones.contains(zone.0) && e == EnforcerError::ZoneNotFound(zone),
            },
    {
        if self.zones.contains(&zone.0) {
            Ok(())
        } else {
            Err(EnforcerError::ZoneNotFound(zone))
        }
    }

    fn unsupported_rule(zone: ZoneId, rule: &EnforcementRule) -> (res: EnforcerError)
        ensures
            res matches EnforcerError::PolicyUnenforceable { zone: z, rule: r, reason } && z == zone
                && r == rule.id && reason@ == refusal(*rule),
    {
        let reason = if rule.requires_kernel {
            "backend has no kernel enforcement".to_owned()
        } else {
            let mut reason = "backend does not support hook ".to_owned();
            reason.append(hook_name(rule.hook));
            reason
        };
        EnforcerError::PolicyUnenforceable { zone, rule: rule.id, reason }
    }

    /// What the backend can do: nothing.
    pub fn capabilities(&self) -> (res: Capabilities)
        ensures
            !res.kernel_enforcement,
            res.hooks@ == Seq::<enforcement::Hook>::empty(),
            !res.event_stream,
            !res.counters,
    {
        Capabilities::noop()
    }

    /// Makes the backend ready.
    pub fn load(&mut self) -> (res: Result<(), EnforcerError>)
        ensures
            res is Ok,
            final(self)@ == (NoopState { loaded: true, zones: old(self)@.zones }),
            final(self).calls() == old(self).calls().push(Call::Load),
    {
        self.calls = Ghost(self.calls@.push(Call::Load));
        self.loaded = true;
        Ok(())
    }

    /// Ends the backend's work: its zones are gone, and nothing is done before the
    /// next `load`.
    pub fn shutdown(&mut self) -> (res: Result<(), EnforcerError>)
        ensures
            res is Ok,
            final(self)@ == (NoopState { loaded: false, zones: Set::empty() }),
            final(self).calls() == old(self).calls().push(Call::Shutdown),
    {
        self.calls = Ghost(self.calls@.push(Call::Shutdown));
        self.loaded = false;
        self.zones.clear();
        Ok(())
    }

    /// Registers a zone.
    pub fn create_zone(&mut self, zone: ZoneId) -> (res: Result<(), EnforcerError>)
        ensures
            match res {
                Ok(_) => old(self)@.loaded && final(self)@ == with_zone(old(self)@, zone),
                Err(e) => !old(self)@.loaded && e is NotLoaded && final(self)@ == old(self)@,
            },
            final(self).calls() == old(self).calls().push(Call::CreateZone(zone)),
    {
        self.calls = Ghost(self.calls@.push(Call::CreateZone(zone)));
        match self.ensure_loaded() {
            Ok(_) => {},
            Err(e) => {
                return Err(e);
            },
        }
        self.zones.insert(zone.0);
        Ok(())
    }

    /// Forgets a zone.
    pub fn delete_zone(&mut self, zone: ZoneId) -> (res: Result<(), EnforcerError>)
        ensures
            match res {
                Ok(_) => old(self)@.loaded && old(self)@.zones.contains(zone.0) && final(self)@
                    == without_zone(old(self)@, zone),
                Err(e) => final(self)@ == old(self)@ && if old(self)@.loaded {
                    !old(self)@.zones.contains(zone.0) && e == EnforcerError::ZoneNotFound(zone)
                } else {
                    e is NotLoaded
                },
            },
            final(self).calls() == old(self).calls().push(Call::DeleteZone(zone)),
            res matches Err(e) ==> refuses_zone(old(self)@, zone, e),
    {
        self.calls = Ghost(self.calls@.push(Call::DeleteZone(zone)));
        match self.ensure_loaded() {
            Ok(_) => {},
            Err(e) => {
                return Err(e);
            },
        }
        if self.zones.remove(&zone.0) {
            Ok(())
        } else {
            assert(self@.zones == old(self)@.zones);
            Err(EnforcerError::ZoneNotFound(zone))
        }
    }

    /// Applies a policy to a zone. What the policy asks for zone-wide is neither
    /// enforced nor refused; a rule is refused.
    pub fn apply_policy(&mut self, zone: ZoneId, policy: &EnforcementPolicy) -> (res: Result<
        (),
        EnforcerError,
    >)
        ensures
            final(self)@ == old(self)@,
            final(self).calls() == old(self).calls().push(
                Call::ApplyPolicy(zone, asked_by(*policy)),
            ),
            match res {
                Ok(_) => accepts(old(self)@, zone, policy.rules@),
                Err(e) => if !old(self)@.loaded {
                    e is NotLoaded
                } else if !old(self)@.zones.contains(zone.0) {
                    e == EnforcerError::ZoneNotFound(zone)
                } else {
                    &&& policy.rules@.len() > 0
                    &&& e matches EnforcerError::PolicyUnenforceable { zone: z, rule, reason }
                    &&& z == zone
                    &&& rule == policy.rules@[0].id
                    &&& reason@ == refusal(policy.rules@[0])
                },
            },
            res matches Err(e) ==> refuses_zone(old(self)@, zone, e) || policy.rules@.len() > 0,
            !old(self)@.loaded || !old(self)@.zones.contains(zone.0) ==> (res matches Err(e)
                && refuses_zone(old(self)@, zone, e)),
    {
        self.calls = Ghost(self.calls@.push(Call::ApplyPolicy(zone, asked_by(*policy))));
        match self.ensure_loaded() {
            Ok(_) => {},
            Err(e) => {
                return Err(e);
            },
        }
        match self.ensure_zone(zone) {
            Ok(_) => {},
            Err(e) => {
                return Err(e);
            },
        }
        let capabilities = self.capabilities();
        match first_unsupported_rule(&capabilities, &policy.rules) {
            Some(i) => {
                proof {
                    law_noop_supports_no_rule(capabilities, policy.rules@[0]);
                }
                Err(NoopEnforcer::unsupported_rule(zone, &policy.rules[i]))
            },
            None => {
                proof {
                    if policy.rules@.len() > 0 {
                        law_noop_supports_no_rule(capabilities, policy.rules@[0]);
                    }
                }
                Ok(())
            },
        }
    }

    /// How often the backend decided what in a zone: it never decides.
    pub fn stats(&mut self, zone: ZoneId) -> (res: Result<EnforcementStats, EnforcerError>)
        ensures
            final(self)@ == old(self)@,
            final(self).calls() == old(self).calls().push(Call::Stats(zone)),
            match res {
                Ok(stats) => old(self)@.loaded && old(self)@.zones.contains(zone.0) && stats == (
                EnforcementStats { allowed: 0, denied: 0, errors: 0 }),
                Err(e) => if old(self)@.loaded {
                    !old(self)@.zones.contains(zone.0) && e == EnforcerError::ZoneNotFound(zone)
                } else {
                    e is NotLoaded
                },
            },
            res matches Err(e) ==> refuses_zone(old(self)@, zone, e),
    {
        self.calls = Ghost(self.calls@.push(Call::Stats(zone)));
        match self.ensure_loaded() {
            Ok(_) => {},
            Err(e) => {
                return Err(e);
            },
        }
        match self.ensure_zone(zone) {
            Ok(_) => {},
            Err(e) => {
                return Err(e);
            },
        }
        Ok(EnforcementStats::default())
    }

    /// Holds a zone against a policy.
    pub fn verify(&mut self, zone: ZoneId, policy: &EnforcementPolicy) -> (res: Result<
        VerifyReport,
        EnforcerError,
    >)
        ensures
            final(self)@ == old(self)@,
            final(self).calls() == old(self).calls().push(Call::Verify(zone, asked_by(*policy))),
            res matches Ok(report) && enforcement::found(report.discrepancies@) == findings(
                old(self)@,
                zone,
                policy.rules@,
            ) && report.ok == (report.discrepancies@.len() == 0),
    {
        self.calls = Ghost(self.calls@.push(Call::Verify(zone, asked_by(*policy))));
        let mut discrepancies: Vec<VerifyDiscrepancy> = Vec::new();
        if !self.loaded {
            discrepancies.push(
                VerifyDiscrepancy {
                    kind: VerifyDiscrepancyKind::BackendUnloaded,
                    rule: None,
                    message: "noop enforcer is not loaded".to_owned(),
                },
            );
            assert(enforcement::found(discrepancies@) == findings(self@, zone, policy.rules@));
            return Ok(VerifyReport { ok: false, discrepancies });
        }
        if !self.zones.contains(&zone.0) {
            let mut message = "zone ".to_owned();
            message.append(zone_label(zone).as_str());
            message.append(" is not registered");
            discrepancies.push(
                VerifyDiscrepancy {
                    kind: VerifyDiscrepancyKind::ZoneMissing,
                    rule: None,
                    message,
                },
            );
            assert(enforcement::found(discrepancies@) == findings(self@, zone, policy.rules@));
            return Ok(VerifyReport { ok: false, discrepancies });
        }
        let capabilities = self.capabilities();
        append_unsupported(
            &mut discrepancies,
            &capabilities,
            &policy.rules,
            " is unsupported by noop enforcer",
        );
        proof {
            lemma_all_unsupported(capabilities, policy.rules@, self@, zone);
        }
        assert(enforcement::found(discrepancies@) == findings(self@, zone, policy.rules@));
        Ok(VerifyReport { ok: discrepancies.len() == 0, discrepancies })
    }
}

impl Default for NoopEnforcer {
    fn default() -> (res: Self)
        ensures
            res@ == (NoopState { loaded: false, zones: Set::empty() }),
            res.calls() == Seq::<Call>::empty(),
    {
        NoopEnforcer::new()
    }
}

/// A rule is refused for want of a kernel where it needs one, and else for its hook, which is
/// named.
pub proof fn law_refusal_says_what_is_missing(rule: EnforcementRule)
    ensures
        rule.requires_kernel ==> refusal(rule) == "backend has no kernel enforcement"@,
        !rule.requires_kernel ==> refusal(rule) == "backend does not support hook "@
            + enforcement::hook_text(rule.hook),
{
}

/// What is found says in order what is wrong: a backend that is not loaded before all else, a
/// zone that is not there before any rule, and else every rule of the policy, by its number and
/// in the policy's order.
pub proof fn law_findings_say_what_is_wrong(
    state: NoopState,
    zone: ZoneId,
    rules: Seq<EnforcementRule>,
    i: int,
)
    ensures
        !state.loaded ==> {
            let all = findings(state, zone, rules);
            &&& all.len() == 1
            &&& all[0].kind is BackendUnloaded
            &&& all[0].rule is None
            &&& all[0].message == "noop enforcer is not loaded"@
        },
        state.loaded && !state.zones.contains(zone.0) ==> {
            let all = findings(state, zone, rules);
            &&& all.len() == 1
            &&& all[0].kind is ZoneMissing
            &&& all[0].rule is None
            &&& all[0].message == "zone "@ + enforcement::zone_text(zone) + " is not registered"@
        },
        state.loaded && state.zones.contains(zone.0) ==> {
            let all = findings(state, zone, rules);
            &&& all.len() == rules.len()
            &&& 0 <= i < rules.len() ==> all[i].kind is RuleUnsupported && all[i].rule == Some(
                rules[i].id,
            ) && all[i].message == "rule "@ + enforcement::rule_text(rules[i].id)
                + " is unsupported by noop enforcer"@
        },
{
}

/// Creating or deleting a zone touches no other zone, and loads or unloads nothing.
pub proof fn law_other_zones_are_untouched(state: NoopState, zone: ZoneId, other: ZoneId)
    ensures
        with_zone(state, zone).zones.contains(zone.0),
        !without_zone(state, zone).zones.contains(zone.0),
        other.0 != zone.0 ==> with_zone(state, zone).zones.contains(other.0)
            == state.zones.contains(other.0),
        other.0 != zone.0 ==> without_zone(state, zone).zones.contains(other.0)
            == state.zones.contains(other.0),
        with_zone(state, zone).loaded == state.loaded,
        without_zone(state, zone).loaded == state.loaded,
{
}

/// Whether an error is the one for a zone that cannot be asked about: the backend is not loaded, or
/// it does not know the zone.
pub open spec fn refuses_zone(state: NoopState, zone: ZoneId, e: EnforcerError) -> bool {
    if state.loaded {
        !state.zones.contains(zone.0) && e == EnforcerError::ZoneNotFound(zone)
    } else {
        e is NotLoaded
    }
}

/// A backend that is not loaded says so before it says anything of a zone, and one that is loaded
/// names the zone that it does not know.
pub proof fn law_unloaded_comes_first(state: NoopState, zone: ZoneId, e: EnforcerError)
    requires
        refuses_zone(state, zone, e),
    ensures
        !state.loaded <==> e is NotLoaded,
        state.loaded ==> (e matches EnforcerError::ZoneNotFound(z) && z == zone),
        state.loaded ==> !state.zones.contains(zone.0),
{
}

/// A policy is asked for as it is: what it enforces zone-wide, and its rules.
pub proof fn law_policy_is_asked_for_whole(policy: EnforcementPolicy)
    ensures
        asked_by(policy).zone.caps_mask == policy.zone.caps_mask,
        asked_by(policy).zone.allow_ptrace == policy.zone.allow_ptrace,
        asked_by(policy).zone.allow_host_net == policy.zone.allow_host_net,
        asked_by(policy).rules == policy.rules@,
{
}

/// A policy is accepted by a backend that is loaded, for a zone that it knows, and without a rule;
/// what the policy asks for zone-wide makes no difference.
pub proof fn law_only_rules_are_refused(
    state: NoopState,
    zone: ZoneId,
    rules: Seq<EnforcementRule>,
)
    ensures
        accepts(state, zone, rules) <==> state.loaded && state.zones.contains(zone.0) && rules.len()
            == 0,
{
}

} // verus!
