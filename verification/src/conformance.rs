//! What every backend must do, as a walk: load, register a zone, apply and verify
//! the empty policy, and clean up.

use vstd::prelude::*;
use vstd::string::StringExecFns;

use crate::enforcement;
use crate::enforcement::{EnforcementPolicy, EnforcerError, VerifyReport, ZoneEnforcement, ZoneId};
use crate::noop;
use crate::noop::NoopEnforcer;
use crate::text;
use crate::text::join;

verus! {

/// The zone that the walk uses.
pub const ZONE: u64 = 7;

/// What the walk asks of the backend next.
#[derive(Clone, Copy, Debug, PartialEq, Eq, Structural)]
pub enum Step {
    Load,
    CreateZone,
    /// Apply the empty policy.
    ApplyPolicy,
    Stats,
    /// Hold the zone against the empty policy.
    Verify,
    DeleteZone,
    Shutdown,
    /// Nothing: the backend conforms.
    Done,
}

/// How the backend answered.
#[derive(Clone, Debug, PartialEq, Eq)]
pub enum Answer {
    /// With this error.
    Failed(String),
    /// With success, and with a clean report where one was asked for.
    Succeeded,
    /// With this report, which is not clean.
    Unclean(String),
}

/// The place of a step in the walk.
pub open spec fn place(step: Step) -> int {
    match step {
        Step::Load => 0,
        Step::CreateZone => 1,
        Step::ApplyPolicy => 2,
        Step::Stats => 3,
        Step::Verify => 4,
        Step::DeleteZone => 5,
        Step::Shutdown => 6,
        Step::Done => 7,
    }
}

/// The step behind a step.
pub open spec fn next(step: Step) -> Step {
    match step {
        Step::Load => Step::CreateZone,
        Step::CreateZone => Step::ApplyPolicy,
        Step::ApplyPolicy => Step::Stats,
        Step::Stats => Step::Verify,
        Step::Verify => Step::DeleteZone,
        Step::DeleteZone => Step::Shutdown,
        Step::Shutdown => Step::Done,
        Step::Done => Step::Done,
    }
}

/// What a step expects of the backend.
pub open spec fn expected(step: Step) -> Seq<char> {
    match step {
        Step::Load => "load backend"@,
        Step::CreateZone => "create zone"@,
        Step::ApplyPolicy => "empty policy is enforceable"@,
        Step::Stats => "stats for registered zone"@,
        Step::Verify => "verify registered zone"@,
        Step::DeleteZone => "delete zone"@,
        Step::Shutdown => "shutdown backend"@,
        Step::Done => ""@,
    }
}

/// Where the walk goes from a step and its answer, or what was expected and what
/// was the case instead.
pub open spec fn advance(step: Step, answer: Answer) -> Result<Step, Seq<char>> {
    match answer {
        Answer::Failed(error) => Err(expected(step) + ": "@ + error@),
        Answer::Succeeded => Ok(next(step)),
        Answer::Unclean(report) => Err("empty policy should verify cleanly: "@ + report@),
    }
}

/// What a step expects of the backend.
pub fn expectation(step: Step) -> (res: &'static str)
    ensures
        res@ == expected(step),
{
    match step {
        Step::Load => "load backend",
        Step::CreateZone => "create zone",
        Step::ApplyPolicy => "empty policy is enforceable",
        Step::Stats => "stats for registered zone",
        Step::Verify => "verify registered zone",
        Step::DeleteZone => "delete zone",
        Step::Shutdown => "shutdown backend",
        Step::Done => "",
    }
}

/// What was expected, and what was the case instead.
fn told(expectation: &str, instead: &str) -> (res: String)
    ensures
        res@ == expectation@ + ": "@ + instead@,
{
    let mut out = expectation.to_owned();
    out.append(": ");
    out.append(instead);
    out
}

/// Where the walk goes from a step and its answer.
pub fn next_step(step: Step, answer: Answer) -> (res: Result<Step, String>)
    ensures
        match res {
            Ok(s) => advance(step, answer) == Ok::<Step, Seq<char>>(s),
            Err(e) => advance(step, answer) == Err::<Step, Seq<char>>(e@),
        },
{
    match answer {
        Answer::Failed(error) => Err(told(expectation(step), error.as_str())),
        Answer::Unclean(report) => {
            let mut out = "empty policy should verify cleanly: ".to_owned();
            out.append(report.as_str());
            Err(out)
        },
        Answer::Succeeded => Ok(
            match step {
                Step::Load => Step::CreateZone,
                Step::CreateZone => Step::ApplyPolicy,
                Step::ApplyPolicy => Step::Stats,
                Step::Stats => Step::Verify,
                Step::Verify => Step::DeleteZone,
                Step::DeleteZone => Step::Shutdown,
                Step::Shutdown => Step::Done,
                Step::Done => Step::Done,
            },
        ),
    }
}

/// A walk moves on by one step at a time, and only past a step that the backend
/// answered as expected: so a walk that is done has had every step answered so.
pub proof fn law_no_step_is_skipped(step: Step, answer: Answer)
    requires
        step != Step::Done,
    ensures
        advance(step, answer) matches Ok(after) ==> place(after) == place(step) + 1,
        advance(step, answer) is Ok <==> answer is Succeeded,
{
}

/// Whether a step that is asked for can be answered as expected.
pub open spec fn passes<F: Fn(Step) -> Answer>(ask: F, step: Step) -> bool {
    exists|answer: Answer| #[trigger]
        call_ensures(ask, (step,), answer) && advance(step, answer) is Ok
}

/// Whether a step that is asked for can be answered so that the walk ends in this error.
pub open spec fn fails<F: Fn(Step) -> Answer>(ask: F, step: Step, error: Seq<char>) -> bool {
    exists|answer: Answer| #[trigger]
        call_ensures(ask, (step,), answer) && advance(step, answer) == Err::<Step, Seq<char>>(error)
}

/// Whether a walk can end in this error at a step: all steps before are answered as
/// expected, and this one is not.
pub open spec fn ends_at<F: Fn(Step) -> Answer>(ask: F, step: Step, error: Seq<char>) -> bool {
    &&& step != Step::Done
    &&& fails(ask, step, error)
    &&& forall|before: Step| place(before) < place(step) ==> #[trigger] passes(ask, before)
}

/// Whether every step can be answered as expected.
pub open spec fn all_pass<F: Fn(Step) -> Answer>(ask: F) -> bool {
    forall|step: Step| step != Step::Done ==> #[trigger] passes(ask, step)
}

/// Whether a walk can end in this error.
pub open spec fn ends_in<F: Fn(Step) -> Answer>(ask: F, error: Seq<char>) -> bool {
    exists|step: Step| #[trigger] ends_at(ask, step, error)
}

/// Walks any backend through the steps; `ask` does what a step asks of the backend,
/// and says how that was answered. The walk succeeds where every step is answered as
/// expected, and ends at the first that is not.
pub fn walk<F: Fn(Step) -> Answer>(ask: &F) -> (res: Result<(), String>)
    requires
        forall|step: Step| #[trigger] call_requires(*ask, (step,)),
    ensures
        match res {
            Ok(_) => all_pass(*ask),
            Err(e) => ends_in(*ask, e@),
        },
{
    let mut step = Step::Load;
    while !matches!(step, Step::Done)
        invariant
            forall|s: Step| #[trigger] call_requires(*ask, (s,)),
            forall|before: Step| place(before) < place(step) ==> #[trigger] passes(*ask, before),
        decreases 7 - place(step),
    {
        let answer = ask(step);
        assert(call_ensures(*ask, (step,), answer));
        let ghost given = answer;
        match next_step(step, answer) {
            Ok(after) => {
                assert(passes(*ask, step));
                assert forall|before: Step| place(before) < place(after) implies #[trigger] passes(
                    *ask,
                    before,
                ) by {
                    if place(before) == place(step) {
                        assert(before == step);
                    }
                }
                step = after;
            },
            Err(why) => {
                assert(advance(step, given) == Err::<Step, Seq<char>>(why@));
                assert(fails(*ask, step, why@));
                assert(ends_at(*ask, step, why@));
                return Err(why);
            },
        }
    }
    Ok(())
}

/// The policy that the walk applies: the most restrictive zone, and no rules.
pub open spec fn empty_policy() -> noop::PolicyText {
    noop::PolicyText {
        zone: ZoneEnforcement { caps_mask: 0, allow_ptrace: false, allow_host_net: false },
        rules: Seq::empty(),
    }
}

/// What the walk calls a backend to do, in order.
pub open spec fn walk_calls() -> Seq<noop::Call> {
    let zone = ZoneId(ZONE);
    seq![
        noop::Call::Load,
        noop::Call::CreateZone(zone),
        noop::Call::ApplyPolicy(zone, empty_policy()),
        noop::Call::Stats(zone),
        noop::Call::Verify(zone, empty_policy()),
        noop::Call::DeleteZone(zone),
        noop::Call::Shutdown,
    ]
}

fn answered(done: Result<(), EnforcerError>) -> (res: Answer)
    ensures
        res is Succeeded <==> done is Ok,
{
    match done {
        Ok(_) => Answer::Succeeded,
        Err(e) => Answer::Failed(e.message()),
    }
}

/// The messages of findings.
pub open spec fn messages(findings: Seq<enforcement::Finding>) -> Seq<Seq<char>> {
    findings.map_values(|f: enforcement::Finding| f.message)
}

fn reported(report: VerifyReport) -> (res: Answer)
    ensures
        if report.ok {
            res is Succeeded
        } else {
            res matches Answer::Unclean(words) && words@ == text::joined(
                messages(enforcement::found(report.discrepancies@)),
                "; "@,
            )
        },
{
    if report.ok {
        return Answer::Succeeded;
    }
    let ghost all = messages(enforcement::found(report.discrepancies@));
    let mut listed: Vec<String> = Vec::new();
    let mut i: usize = 0;
    while i < report.discrepancies.len()
        invariant
            i <= report.discrepancies@.len(),
            all == messages(enforcement::found(report.discrepancies@)),
            text::texts(listed@) == all.take(i as int),
        decreases report.discrepancies@.len() - i,
    {
        let ghost had = text::texts(listed@);
        let message = report.discrepancies[i].message.clone();
        listed.push(message);
        assert(text::texts(listed@) == had.push(message@));
        assert(all.take(i + 1) == had.push(message@));
        i = i + 1;
    }
    assert(all.take(all.len() as int) == all);
    Answer::Unclean(join(&listed, "; "))
}

/// Walks a `NoopEnforcer` through the steps: it is called to do each, in order. It
/// conforms, whatever it was before, and ends shut down.
pub fn run_basic_conformance(backend: &mut NoopEnforcer) -> (res: Result<(), String>)
    ensures
        res is Ok,
        final(backend).calls() == old(backend).calls() + walk_calls(),
        !final(backend)@.loaded,
        final(backend)@.zones == Set::<u64>::empty(),
{
    let zone = ZoneId(ZONE);
    let empty = EnforcementPolicy::default();
    let ghost before = backend.calls();
    let mut step = Step::Load;
    assert(walk_calls().take(0) == Seq::<noop::Call>::empty());
    assert(noop::asked_by(empty) == empty_policy()) by {
        assert(empty.rules@ == Seq::<enforcement::EnforcementRule>::empty());
    }
    while !matches!(step, Step::Done)
        invariant
            zone.0 == ZONE,
            empty.rules@.len() == 0,
            noop::asked_by(empty) == empty_policy(),
            backend.calls() == before + walk_calls().take(place(step)),
            place(step) >= 1 && place(step) < 7 ==> backend@.loaded,
            place(step) >= 2 && place(step) < 6 ==> backend@.zones.contains(zone.0),
            step is Done ==> !backend@.loaded && backend@.zones == Set::<u64>::empty(),
        decreases 7 - place(step),
    {
        let ghost made = walk_calls()[place(step)];
        let answer = match step {
            Step::Load => answered(backend.load()),
            Step::CreateZone => answered(backend.create_zone(zone)),
            Step::ApplyPolicy => answered(backend.apply_policy(zone, &empty)),
            Step::Stats => match backend.stats(zone) {
                Ok(_) => Answer::Succeeded,
                Err(e) => Answer::Failed(e.message()),
            },
            Step::Verify => match backend.verify(zone, &empty) {
                Ok(report) => {
                    assert(report.discrepancies@.len() == enforcement::found(
                        report.discrepancies@,
                    ).len());
                    reported(report)
                },
                Err(e) => Answer::Failed(e.message()),
            },
            Step::DeleteZone => answered(backend.delete_zone(zone)),
            Step::Shutdown => answered(backend.shutdown()),
            Step::Done => Answer::Succeeded,
        };
        proof {
            assert(backend.calls() == (before + walk_calls().take(place(step))).push(made));
            assert(walk_calls().take(place(step) + 1) == walk_calls().take(place(step)).push(made));
            assert(backend.calls() == before + walk_calls().take(place(step) + 1));
        }
        match next_step(step, answer) {
            Ok(after) => {
                step = after;
            },
            Err(why) => {
                return Err(why);
            },
        }
    }
    assert(walk_calls().take(7) == walk_calls());
    Ok(())
}

/// The steps come in one order: a backend is loaded before it has a zone, the zone is there
/// while a policy is applied, counted and verified, and it is gone before the backend is shut
/// down.
pub proof fn law_steps_come_in_order(step: Step, answer: Answer)
    requires
        answer is Succeeded,
    ensures
        advance(step, answer) is Ok,
        step is Load ==> advance(step, answer)->Ok_0 is CreateZone,
        step is CreateZone ==> advance(step, answer)->Ok_0 is ApplyPolicy,
        step is ApplyPolicy ==> advance(step, answer)->Ok_0 is Stats,
        step is Stats ==> advance(step, answer)->Ok_0 is Verify,
        step is Verify ==> advance(step, answer)->Ok_0 is DeleteZone,
        step is DeleteZone ==> advance(step, answer)->Ok_0 is Shutdown,
        step is Shutdown || step is Done ==> advance(step, answer)->Ok_0 is Done,
{
}

/// What a walk ends in names the step that was not answered as expected, in that step's own
/// words, and what was the case instead.
pub proof fn law_end_names_its_step(step: Step, instead: String)
    ensures
        step is Load ==> advance(step, Answer::Failed(instead)) == Err::<Step, Seq<char>>(
            "load backend"@ + ": "@ + instead@,
        ),
        step is CreateZone ==> advance(step, Answer::Failed(instead)) == Err::<Step, Seq<char>>(
            "create zone"@ + ": "@ + instead@,
        ),
        step is ApplyPolicy ==> advance(step, Answer::Failed(instead)) == Err::<Step, Seq<char>>(
            "empty policy is enforceable"@ + ": "@ + instead@,
        ),
        step is Stats ==> advance(step, Answer::Failed(instead)) == Err::<Step, Seq<char>>(
            "stats for registered zone"@ + ": "@ + instead@,
        ),
        step is Verify ==> advance(step, Answer::Failed(instead)) == Err::<Step, Seq<char>>(
            "verify registered zone"@ + ": "@ + instead@,
        ),
        step is DeleteZone ==> advance(step, Answer::Failed(instead)) == Err::<Step, Seq<char>>(
            "delete zone"@ + ": "@ + instead@,
        ),
        step is Shutdown ==> advance(step, Answer::Failed(instead)) == Err::<Step, Seq<char>>(
            "shutdown backend"@ + ": "@ + instead@,
        ),
        advance(step, Answer::Unclean(instead)) == Err::<Step, Seq<char>>(
            "empty policy should verify cleanly: "@ + instead@,
        ),
{
}

/// A walk makes each call once, in the order of the steps, all of one zone, with the most
/// restrictive policy and no rule.
pub proof fn law_walk_uses_one_zone()
    ensures
        walk_calls().len() == 7,
        walk_calls()[0] is Load,
        walk_calls()[1] == noop::Call::CreateZone(ZoneId(7)),
        walk_calls()[2] matches noop::Call::ApplyPolicy(zone, asked) && zone == ZoneId(7)
            && asked.rules.len() == 0 && asked.zone.caps_mask == 0 && !asked.zone.allow_ptrace
            && !asked.zone.allow_host_net,
        walk_calls()[3] == noop::Call::Stats(ZoneId(7)),
        walk_calls()[4] matches noop::Call::Verify(zone, asked) && zone == ZoneId(7)
            && asked.rules.len() == 0 && asked.zone.caps_mask == 0 && !asked.zone.allow_ptrace
            && !asked.zone.allow_host_net,
        walk_calls()[5] == noop::Call::DeleteZone(ZoneId(7)),
        walk_calls()[6] is Shutdown,
{
}

} // verus!
