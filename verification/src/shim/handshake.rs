//! The handshake between the shim and the workload that it starts.
//!
//! The child sets up its file system while it is still outside the zone, tells the
//! parent, and waits. The parent enrolls it in the zone's control group, and only
//! then lets it go on to run the image's code. Where anything fails before that,
//! the image's code is not run.

use vstd::prelude::*;
use vstd::string::StringExecFns;

verus! {

/// What the child does, in this order.
#[derive(Clone, Copy, Debug, PartialEq, Eq, Structural)]
pub enum ChildStep {
    NewSession,
    RedirectOutput,
    /// Enter a mount namespace of its own.
    Unshare,
    /// Make all mounts private.
    MakePrivate,
    PivotRoot,
    SetHostname,
    /// Tell the parent that the set-up is done.
    SignalSetup,
    /// Wait for the parent's word that the child is enrolled.
    AwaitGo,
    SetEnvironment,
    ChangeDirectory,
    /// Replace the process by the workload. It does not return but with an error.
    Exec,
}

/// How a step of the child went.
#[derive(Clone, Debug, PartialEq, Eq)]
pub enum ChildOutcome {
    /// It was done; of a wait: the word came.
    Done,
    /// It failed, for the reason given; of a wait: the word did not come.
    Failed(String),
}

/// What the child does after a step.
#[derive(Clone, Debug, PartialEq, Eq)]
pub enum ChildNext {
    Go(ChildStep),
    /// Write this to its error output, and exit with this code.
    Exit { code: i32, message: String },
}

/// The place of a step of the child.
pub open spec fn child_place(step: ChildStep) -> int {
    match step {
        ChildStep::NewSession => 0,
        ChildStep::RedirectOutput => 1,
        ChildStep::Unshare => 2,
        ChildStep::MakePrivate => 3,
        ChildStep::PivotRoot => 4,
        ChildStep::SetHostname => 5,
        ChildStep::SignalSetup => 6,
        ChildStep::AwaitGo => 7,
        ChildStep::SetEnvironment => 8,
        ChildStep::ChangeDirectory => 9,
        ChildStep::Exec => 10,
    }
}

/// The step of the child behind a step.
pub open spec fn child_behind(step: ChildStep) -> ChildStep {
    match step {
        ChildStep::NewSession => ChildStep::RedirectOutput,
        ChildStep::RedirectOutput => ChildStep::Unshare,
        ChildStep::Unshare => ChildStep::MakePrivate,
        ChildStep::MakePrivate => ChildStep::PivotRoot,
        ChildStep::PivotRoot => ChildStep::SetHostname,
        ChildStep::SetHostname => ChildStep::SignalSetup,
        ChildStep::SignalSetup => ChildStep::AwaitGo,
        ChildStep::AwaitGo => ChildStep::SetEnvironment,
        ChildStep::SetEnvironment => ChildStep::ChangeDirectory,
        ChildStep::ChangeDirectory => ChildStep::Exec,
        ChildStep::Exec => ChildStep::Exec,
    }
}

/// The code and the message that the child exits with where a step fails that it
/// cannot do without.
pub open spec fn child_exit(step: ChildStep, reason: Seq<char>) -> Option<(int, Seq<char>)> {
    match step {
        ChildStep::Unshare => Some((1, "unshare(CLONE_NEWNS) failed: "@ + reason + "\n"@)),
        ChildStep::MakePrivate => Some((1, "mount(MS_PRIVATE) failed: "@ + reason + "\n"@)),
        ChildStep::PivotRoot => Some((1, "pivot_root failed: "@ + reason + "\n"@)),
        ChildStep::AwaitGo => Some(
            (125, "cgroup enrollment failed; refusing to start workload unenforced\n"@),
        ),
        ChildStep::Exec => Some((127, "execvp failed: "@ + reason + "\n"@)),
        _ => None,
    }
}

/// Whether this is what the child does after a step. A step that fails and can be
/// done without counts as done.
pub open spec fn child_after(step: ChildStep, outcome: ChildOutcome, next: ChildNext) -> bool {
    match outcome {
        ChildOutcome::Done => next == ChildNext::Go(child_behind(step)),
        ChildOutcome::Failed(reason) => match child_exit(step, reason@) {
            Some((code, message)) => next matches ChildNext::Exit { code: c, message: m } && c
                == code && m@ == message,
            None => next == ChildNext::Go(child_behind(step)),
        },
    }
}

fn step_behind(step: ChildStep) -> (res: ChildStep)
    ensures
        res == child_behind(step),
{
    match step {
        ChildStep::NewSession => ChildStep::RedirectOutput,
        ChildStep::RedirectOutput => ChildStep::Unshare,
        ChildStep::Unshare => ChildStep::MakePrivate,
        ChildStep::MakePrivate => ChildStep::PivotRoot,
        ChildStep::PivotRoot => ChildStep::SetHostname,
        ChildStep::SetHostname => ChildStep::SignalSetup,
        ChildStep::SignalSetup => ChildStep::AwaitGo,
        ChildStep::AwaitGo => ChildStep::SetEnvironment,
        ChildStep::SetEnvironment => ChildStep::ChangeDirectory,
        ChildStep::ChangeDirectory => ChildStep::Exec,
        ChildStep::Exec => ChildStep::Exec,
    }
}

fn failure(front: &str, reason: &str) -> (res: String)
    ensures
        res@ == front@ + reason@ + "\n"@,
{
    let mut out = front.to_owned();
    out.append(reason);
    out.append("\n");
    out
}

/// What the child does after a step. While all goes well nothing is allocated.
pub fn child_next(step: ChildStep, outcome: &ChildOutcome) -> (res: ChildNext)
    ensures
        child_after(step, *outcome, res),
{
    let reason = match outcome {
        ChildOutcome::Done => {
            return ChildNext::Go(step_behind(step));
        },
        ChildOutcome::Failed(reason) => reason,
    };
    match step {
        ChildStep::Unshare => ChildNext::Exit {
            code: 1,
            message: failure("unshare(CLONE_NEWNS) failed: ", reason.as_str()),
        },
        ChildStep::MakePrivate => ChildNext::Exit {
            code: 1,
            message: failure("mount(MS_PRIVATE) failed: ", reason.as_str()),
        },
        ChildStep::PivotRoot => ChildNext::Exit {
            code: 1,
            message: failure("pivot_root failed: ", reason.as_str()),
        },
        ChildStep::AwaitGo => ChildNext::Exit {
            code: 125,
            message: "cgroup enrollment failed; refusing to start workload unenforced\n".to_owned(),
        },
        ChildStep::Exec => ChildNext::Exit {
            code: 127,
            message: failure("execvp failed: ", reason.as_str()),
        },
        _ => ChildNext::Go(step_behind(step)),
    }
}

/// What the parent does, in this order.
#[derive(Clone, Copy, Debug, PartialEq, Eq, Structural)]
pub enum ParentStep {
    /// Wait for the child's word that its set-up is done.
    AwaitSetup,
    /// Put the child in the zone's control group.
    Enroll,
    /// Let the child go on.
    SignalGo,
}

/// How a step of the parent went.
#[derive(Clone, Debug, PartialEq, Eq)]
pub enum ParentOutcome {
    Done,
    /// It failed, for the reason given; of a wait: the word did not come.
    Failed(String),
}

/// What the parent does after a step.
#[derive(Clone, Debug, PartialEq, Eq)]
pub enum ParentNext {
    Go(ParentStep),
    /// Report that the workload was started.
    Started,
    /// Kill the child if so said, wait for its end, and report this error. The
    /// child never gets the word.
    Abandon { kill: bool, error: String },
}

/// The file through which processes enter a zone's control group.
pub open spec fn cgroup_procs(zone: Seq<char>) -> Seq<char> {
    "/sys/fs/cgroup/rauha.slice/zone-"@ + zone + "/cgroup.procs"@
}

/// The file through which processes enter a zone's control group.
pub fn cgroup_path(zone_name: &str) -> (res: String)
    ensures
        res@ == cgroup_procs(zone_name@),
{
    let mut out = "/sys/fs/cgroup/rauha.slice/zone-".to_owned();
    out.append(zone_name);
    out.append("/cgroup.procs");
    out
}

/// What is said of a child that ended before it could be enrolled.
pub open spec fn setup_error(container: Seq<char>) -> Seq<char> {
    "container "@ + container + " failed during pre-enrollment setup (see container stderr)"@
}

/// What is said of a child that could not be enrolled.
pub open spec fn enroll_error(
    container: Seq<char>,
    zone: Seq<char>,
    reason: Seq<char>,
) -> Seq<char> {
    "failed to enroll container "@ + container + " in zone cgroup "@ + cgroup_procs(zone) + ": "@
        + reason + "; refusing to start workload unenforced"@
}

/// Whether this is what the parent does after a step.
pub open spec fn parent_after(
    step: ParentStep,
    outcome: ParentOutcome,
    container: Seq<char>,
    zone: Seq<char>,
    next: ParentNext,
) -> bool {
    match (step, outcome) {
        (ParentStep::AwaitSetup, ParentOutcome::Done) => next == ParentNext::Go(ParentStep::Enroll),
        (ParentStep::AwaitSetup, ParentOutcome::Failed(_)) => next matches ParentNext::Abandon {
            kill,
            error,
        } && !kill && error@ == setup_error(container),
        (ParentStep::Enroll, ParentOutcome::Done) => next == ParentNext::Go(ParentStep::SignalGo),
        (ParentStep::Enroll, ParentOutcome::Failed(reason)) => next matches ParentNext::Abandon {
            kill,
            error,
        } && kill && error@ == enroll_error(container, zone, reason@),
        (ParentStep::SignalGo, _) => next == ParentNext::Started,
    }
}

/// What the parent does after a step.
pub fn parent_next(
    step: ParentStep,
    outcome: &ParentOutcome,
    container_id: &str,
    zone_name: &str,
) -> (res: ParentNext)
    ensures
        parent_after(step, *outcome, container_id@, zone_name@, res),
{
    match (step, outcome) {
        (ParentStep::AwaitSetup, ParentOutcome::Done) => ParentNext::Go(ParentStep::Enroll),
        (ParentStep::AwaitSetup, ParentOutcome::Failed(_)) => {
            let mut error = "container ".to_owned();
            error.append(container_id);
            error.append(" failed during pre-enrollment setup (see container stderr)");
            ParentNext::Abandon { kill: false, error }
        },
        (ParentStep::Enroll, ParentOutcome::Done) => ParentNext::Go(ParentStep::SignalGo),
        (ParentStep::Enroll, ParentOutcome::Failed(reason)) => {
            let mut error = "failed to enroll container ".to_owned();
            error.append(container_id);
            error.append(" in zone cgroup ");
            error.append(cgroup_path(zone_name).as_str());
            error.append(": ");
            error.append(reason.as_str());
            error.append("; refusing to start workload unenforced");
            ParentNext::Abandon { kill: true, error }
        },
        (ParentStep::SignalGo, _) => ParentNext::Started,
    }
}

/// Whether a child went from step `i` to the next by what became of it.
pub open spec fn child_moved(
    steps: Seq<ChildStep>,
    outcomes: Seq<ChildOutcome>,
    i: int,
) -> bool {
    child_after(steps[i], outcomes[i], ChildNext::Go(steps[i + 1]))
}

/// Whether a parent went from step `i` to the next by what became of it.
pub open spec fn parent_moved(
    steps: Seq<ParentStep>,
    outcomes: Seq<ParentOutcome>,
    container: Seq<char>,
    zone: Seq<char>,
    i: int,
) -> bool {
    parent_after(steps[i], outcomes[i], container, zone, ParentNext::Go(steps[i + 1]))
}

/// Whether `steps` are the steps of a child, from the first, with these outcomes;
/// the last step may still be under way.
pub open spec fn child_walk(steps: Seq<ChildStep>, outcomes: Seq<ChildOutcome>) -> bool {
    &&& steps.len() > 0
    &&& steps[0] == ChildStep::NewSession
    &&& outcomes.len() >= steps.len() - 1
    &&& forall|i: int| 0 <= i < steps.len() - 1 ==> #[trigger] child_moved(steps, outcomes, i)
}

/// Whether `steps` are the steps of a parent, from the first, with these outcomes;
/// the last step may still be under way.
pub open spec fn parent_walk(
    steps: Seq<ParentStep>,
    outcomes: Seq<ParentOutcome>,
    container: Seq<char>,
    zone: Seq<char>,
) -> bool {
    &&& steps.len() > 0
    &&& steps[0] == ParentStep::AwaitSetup
    &&& outcomes.len() >= steps.len() - 1
    &&& forall|i: int|
        0 <= i < steps.len() - 1 ==> #[trigger] parent_moved(steps, outcomes, container, zone, i)
}

/// Before the last step a walk of the child stands at step `i` at place `i`.
proof fn lemma_child_place(steps: Seq<ChildStep>, outcomes: Seq<ChildOutcome>, i: int)
    requires
        child_walk(steps, outcomes),
        0 <= i < steps.len(),
        forall|j: int| 0 <= j < i ==> #[trigger] steps[j] != ChildStep::Exec,
    ensures
        child_place(steps[i]) == i,
    decreases i,
{
    if i > 0 {
        lemma_child_place(steps, outcomes, i - 1);
        assert(child_moved(steps, outcomes, i - 1));
        assert(steps[i - 1] != ChildStep::Exec);
    }
}

/// A child that gets to run the workload was given the word to go on, and had set
/// up its file system before.
pub proof fn law_workload_runs_only_on_word(
    steps: Seq<ChildStep>,
    outcomes: Seq<ChildOutcome>,
)
    requires
        child_walk(steps, outcomes),
        steps.last() == ChildStep::Exec,
        forall|i: int| 0 <= i < steps.len() - 1 ==> #[trigger] steps[i] != ChildStep::Exec,
    ensures
        steps.len() == 11,
        steps[child_place(ChildStep::AwaitGo)] == ChildStep::AwaitGo,
        outcomes[child_place(ChildStep::AwaitGo)] is Done,
        outcomes[child_place(ChildStep::Unshare)] is Done,
        outcomes[child_place(ChildStep::MakePrivate)] is Done,
        outcomes[child_place(ChildStep::PivotRoot)] is Done,
        steps[2] == ChildStep::Unshare && outcomes[2] is Done,
        steps[3] == ChildStep::MakePrivate && outcomes[3] is Done,
        steps[4] == ChildStep::PivotRoot && outcomes[4] is Done,
        steps[7] == ChildStep::AwaitGo && outcomes[7] is Done,
{
    lemma_child_place(steps, outcomes, steps.len() - 1);
    lemma_child_passed(steps, outcomes, 2);
    lemma_child_passed(steps, outcomes, 3);
    lemma_child_passed(steps, outcomes, 4);
    lemma_child_passed(steps, outcomes, 7);
}

/// A walk that went past a step that the child cannot do without had it done.
proof fn lemma_child_passed(steps: Seq<ChildStep>, outcomes: Seq<ChildOutcome>, i: int)
    requires
        child_walk(steps, outcomes),
        0 <= i < steps.len() - 1,
        forall|j: int| 0 <= j < steps.len() - 1 ==> #[trigger] steps[j] != ChildStep::Exec,
    ensures
        child_place(steps[i]) == i,
        child_exit(steps[i], Seq::empty()) is Some ==> outcomes[i] is Done,
{
    lemma_child_place(steps, outcomes, i);
    assert(child_moved(steps, outcomes, i));
}

/// A parent that gets to give the word has enrolled the child, after the child's
/// set-up was done.
pub proof fn law_word_is_given_only_when_enrolled(
    steps: Seq<ParentStep>,
    outcomes: Seq<ParentOutcome>,
    container: Seq<char>,
    zone: Seq<char>,
)
    requires
        parent_walk(steps, outcomes, container, zone),
        steps.last() == ParentStep::SignalGo,
    ensures
        steps.len() == 3,
        outcomes[0] is Done,
        steps[1] == ParentStep::Enroll,
        outcomes[1] is Done,
{
    let n = steps.len();
    if n == 1 {
        assert(steps.last() == steps[0]);
    } else {
        assert(parent_moved(steps, outcomes, container, zone, 0));
        if n == 2 {
            assert(steps.last() == steps[1]);
        } else {
            assert(parent_moved(steps, outcomes, container, zone, 1));
            if n > 3 {
                assert(parent_moved(steps, outcomes, container, zone, 2));
            }
        }
    }
}

/// The workload is never run outside its zone: given that the child gets the word
/// only from a parent that gives it, a child that runs the workload has been
/// enrolled.
pub proof fn law_workload_is_enforced(
    child: Seq<ChildStep>,
    child_outcomes: Seq<ChildOutcome>,
    parent: Seq<ParentStep>,
    parent_outcomes: Seq<ParentOutcome>,
    container: Seq<char>,
    zone: Seq<char>,
)
    requires
        child_walk(child, child_outcomes),
        forall|i: int| 0 <= i < child.len() - 1 ==> #[trigger] child[i] != ChildStep::Exec,
        parent_walk(parent, parent_outcomes, container, zone),
        child_outcomes[child_place(ChildStep::AwaitGo)] is Done ==> parent.last()
            == ParentStep::SignalGo,
    ensures
        child.last() == ChildStep::Exec ==> parent[1] == ParentStep::Enroll
            && parent_outcomes[1] is Done,
{
    if child.last() == ChildStep::Exec {
        law_workload_runs_only_on_word(child, child_outcomes);
        law_word_is_given_only_when_enrolled(parent, parent_outcomes, container, zone);
    }
}

/// The child does its steps in one order: whichever step a walk has at a place, it
/// is the one that stands here beside that place.
pub proof fn law_child_goes_in_order(
    steps: Seq<ChildStep>,
    outcomes: Seq<ChildOutcome>,
    i: int,
)
    requires
        child_walk(steps, outcomes),
        0 <= i < steps.len(),
        forall|j: int| 0 <= j < i ==> #[trigger] steps[j] != ChildStep::Exec,
    ensures
        i <= 10,
        i == 0 <==> steps[i] == ChildStep::NewSession,
        i == 1 <==> steps[i] == ChildStep::RedirectOutput,
        i == 2 <==> steps[i] == ChildStep::Unshare,
        i == 3 <==> steps[i] == ChildStep::MakePrivate,
        i == 4 <==> steps[i] == ChildStep::PivotRoot,
        i == 5 <==> steps[i] == ChildStep::SetHostname,
        i == 6 <==> steps[i] == ChildStep::SignalSetup,
        i == 7 <==> steps[i] == ChildStep::AwaitGo,
        i == 8 <==> steps[i] == ChildStep::SetEnvironment,
        i == 9 <==> steps[i] == ChildStep::ChangeDirectory,
        i == 10 <==> steps[i] == ChildStep::Exec,
{
    lemma_child_place(steps, outcomes, i);
}

/// Whether a step is part of the set-up that a child does outside its zone.
pub open spec fn is_setup(step: ChildStep) -> bool {
    step is Unshare || step is MakePrivate || step is PivotRoot || step is SetHostname
}

/// The child has its file system and its host name before it says that its set-up
/// is done, opens its output while it still sees the host's files, and touches its
/// environment and its directory only when it was let go.
pub proof fn law_child_sets_up_before_it_waits(
    steps: Seq<ChildStep>,
    outcomes: Seq<ChildOutcome>,
    i: int,
    j: int,
)
    requires
        child_walk(steps, outcomes),
        0 <= i < steps.len(),
        0 <= j < steps.len(),
        forall|k: int| 0 <= k < steps.len() - 1 ==> #[trigger] steps[k] != ChildStep::Exec,
    ensures
        is_setup(steps[i]) && steps[j] is SignalSetup ==> i < j,
        steps[i] is RedirectOutput && steps[j] is PivotRoot ==> i < j,
        steps[i] is Unshare && steps[j] is MakePrivate ==> i < j,
        steps[i] is MakePrivate && steps[j] is PivotRoot ==> i < j,
        steps[i] is SignalSetup && steps[j] is AwaitGo ==> i < j,
        steps[i] is AwaitGo && (steps[j] is SetEnvironment || steps[j] is ChangeDirectory) ==> i
            < j,
        steps[i] is SetEnvironment && steps[j] is ChangeDirectory ==> i < j,
        steps[i] == steps[j] ==> i == j,
        steps[j] is Exec ==> i <= j,
{
    law_child_goes_in_order(steps, outcomes, i);
    law_child_goes_in_order(steps, outcomes, j);
}

/// A child gives up over a step that failed exactly where it cannot do without that
/// step. Its exit code tells a set-up that failed, a word that did not come and a
/// program that could not be run apart, and what it writes ends with the reason.
pub proof fn law_child_gives_up(step: ChildStep, reason: String, next: ChildNext)
    requires
        child_after(step, ChildOutcome::Failed(reason), next),
    ensures
        next is Exit <==> (step is Unshare || step is MakePrivate || step is PivotRoot
            || step is AwaitGo || step is Exec),
        next is Go ==> child_after(step, ChildOutcome::Done, next),
        next matches ChildNext::Exit { code, message } ==> {
            &&& code == 1 <==> step is Unshare || step is MakePrivate || step is PivotRoot
            &&& code == 125 <==> step is AwaitGo
            &&& code == 127 <==> step is Exec
            &&& step is Unshare ==> message@ == "unshare(CLONE_NEWNS) failed: "@ + reason@ + "\n"@
            &&& step is MakePrivate ==> message@ == "mount(MS_PRIVATE) failed: "@ + reason@
                + "\n"@
            &&& step is PivotRoot ==> message@ == "pivot_root failed: "@ + reason@ + "\n"@
            &&& step is Exec ==> message@ == "execvp failed: "@ + reason@ + "\n"@
            &&& step is AwaitGo ==> message@
                == "cgroup enrollment failed; refusing to start workload unenforced\n"@
        },
{
}

/// A child whose step was done goes on, and never ends by itself.
pub proof fn law_child_goes_on(step: ChildStep, next: ChildNext)
    requires
        child_after(step, ChildOutcome::Done, next),
    ensures
        next is Go,
{
}

/// The parent waits for the set-up, enrolls the child and lets it go, in this order
/// and with no other step; what stops it is the set-up or the enrollment, and it
/// kills the child exactly where the child waits for a word that will not come.
pub proof fn law_parent_goes_in_order(
    step: ParentStep,
    outcome: ParentOutcome,
    container: Seq<char>,
    zone: Seq<char>,
    next: ParentNext,
)
    requires
        parent_after(step, outcome, container, zone, next),
    ensures
        next == ParentNext::Go(ParentStep::Enroll) <==> step is AwaitSetup && outcome is Done,
        next == ParentNext::Go(ParentStep::SignalGo) <==> step is Enroll && outcome is Done,
        next != ParentNext::Go(ParentStep::AwaitSetup),
        next is Started <==> step is SignalGo,
        next is Abandon <==> step !is SignalGo && outcome is Failed,
        next matches ParentNext::Abandon { kill, error } ==> {
            &&& kill <==> step is Enroll
            &&& step is AwaitSetup ==> error@ == "container "@ + container
                + " failed during pre-enrollment setup (see container stderr)"@
            &&& outcome matches ParentOutcome::Failed(reason) ==> (step is Enroll ==> error@
                == "failed to enroll container "@ + container + " in zone cgroup "@ + (
            "/sys/fs/cgroup/rauha.slice/zone-"@ + zone + "/cgroup.procs"@) + ": "@ + reason@
                + "; refusing to start workload unenforced"@)
        },
{
}

/// A zone's control group is entered through a file under the slice that all zones
/// share, in a directory that no other zone has.
pub proof fn law_zones_have_their_own_cgroup(a: Seq<char>, b: Seq<char>)
    ensures
        cgroup_procs(a) == "/sys/fs/cgroup/rauha.slice/zone-"@ + a + "/cgroup.procs"@,
        cgroup_procs(a) == cgroup_procs(b) ==> a == b,
{
    let front = "/sys/fs/cgroup/rauha.slice/zone-"@;
    let back = "/cgroup.procs"@;
    if cgroup_procs(a) == cgroup_procs(b) {
        assert(cgroup_procs(a).len() == front.len() + a.len() + back.len());
        assert(cgroup_procs(b).len() == front.len() + b.len() + back.len());
        assert(cgroup_procs(a).skip(front.len() as int).take(a.len() as int) == a);
        assert(cgroup_procs(b).skip(front.len() as int).take(b.len() as int) == b);
    }
}

} // verus!
