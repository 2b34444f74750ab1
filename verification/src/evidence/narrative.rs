//! What an event means, by its name: what failed, why it matters, what may have
//! caused it, and how grave it is.

use vstd::prelude::*;

use crate::evidence::event;
use crate::evidence::event::{FalseNarrative, Severity};
use crate::evidence::event_name;
use crate::text;
use crate::text::{same, swapped};

verus! {

/// A narrative.
pub open spec fn tale(what: Seq<char>, why: Seq<char>, causes: Seq<Seq<char>>) -> event::NarrativeText {
    event::NarrativeText { what_failed: what, why_it_matters: why, possible_causes: causes }
}

/// What an event means. Events that are not about a failure tell their own name.
pub open spec fn narrative(name: Seq<char>) -> event::NarrativeText {
    if name == event_name::ZONE_FILE_DENIED@ {
        tale(
            "cross-zone file_open"@,
            "file inode belongs to a different zone than the caller"@,
            seq!["policy drift"@, "mislabeled mount"@, "escape attempt"@],
        )
    } else if name == event_name::ZONE_EXEC_DENIED@ {
        tale(
            "cross-zone exec"@,
            "executable inode belongs to a different zone than the caller"@,
            seq!["policy drift"@, "mislabeled image layer"@, "escape attempt"@],
        )
    } else if name == event_name::ZONE_PTRACE_DENIED@ {
        tale(
            "cross-zone ptrace"@,
            "caller attempted to inspect or control a process outside its zone"@,
            seq!["debug tool in wrong zone"@, "credential misuse"@, "escape attempt"@],
        )
    } else if name == event_name::ZONE_SIGNAL_DENIED@ {
        tale(
            "cross-zone signal"@,
            "caller attempted to signal a process outside its zone"@,
            seq!["stale process target"@, "orchestrator drift"@, "escape attempt"@],
        )
    } else if name == event_name::ZONE_ESCAPE_CGROUP_ATTACH@ {
        tale(
            "cross-zone cgroup attach"@,
            "moving tasks across zone cgroups would break the isolation boundary"@,
            seq!["runtime bug"@, "manual cgroup mutation"@, "escape attempt"@],
        )
    } else if name == event_name::ZONE_NET_DENIED@ {
        tale(
            "cross-zone network access"@,
            "network policy does not allow this zone-to-zone path"@,
            seq!["policy drift"@, "unexpected service dependency"@, "escape attempt"@],
        )
    } else if name == event_name::ZONE_MOUNT_DENIED@ {
        tale(
            "zone mount denied"@,
            "mount operations can change the filesystem boundary"@,
            seq!["unexpected privilege"@, "bad OCI spec"@, "escape attempt"@],
        )
    } else if name == event_name::ZONE_IPC_DENIED@ {
        tale(
            "cross-zone IPC denied"@,
            "IPC target belongs to a different zone than the caller"@,
            seq!["shared namespace drift"@, "bad workload placement"@, "escape attempt"@],
        )
    } else if name == event_name::ZONE_PROC_FILTERED@ {
        tale(
            "proc entry filtered"@,
            "process listing was restricted to preserve zone visibility"@,
            seq!["normal isolation behavior"@],
        )
    } else if name == event_name::RINGBUF_DROP@ {
        tale(
            "ring buffer event dropped"@,
            "evidence may be incomplete for the affected interval"@,
            seq!["burst exceeded ring buffer"@, "userspace reader lagged"@],
        )
    } else if name == event_name::PIPELINE_SHED@ {
        tale(
            "evidence pipeline shed event"@,
            "downstream consumers may be missing telemetry"@,
            seq!["slow sink"@, "subscriber lag"@, "bounded queue full"@],
        )
    } else {
        tale(
            text::swap_char(name, '.', ' '),
            "event records a zone lifecycle or evidence state transition"@,
            seq!["normal runtime activity"@],
        )
    }
}

/// How grave an event is, unless it is said otherwise.
pub open spec fn usual_severity(name: Seq<char>) -> Severity {
    if name == event_name::ZONE_ESCAPE_CGROUP_ATTACH@ || name == event_name::RINGBUF_DROP@ {
        Severity::Error
    } else if name == event_name::ZONE_FILE_DENIED@ || name == event_name::ZONE_EXEC_DENIED@
        || name == event_name::ZONE_PTRACE_DENIED@ || name == event_name::ZONE_SIGNAL_DENIED@
        || name == event_name::ZONE_MOUNT_DENIED@ || name == event_name::ZONE_IPC_DENIED@ || name
        == event_name::ZONE_NET_DENIED@ || name == event_name::PIPELINE_SHED@ {
        Severity::Warn
    } else if name == event_name::ZONE_FILE_ALLOWED@ || name == event_name::ZONE_PROC_FILTERED@ {
        Severity::Trace
    } else {
        Severity::Info
    }
}

/// Whether an event tells of something that was refused.
pub open spec fn is_denial(name: Seq<char>) -> bool {
    ||| name == event_name::ZONE_FILE_DENIED@
    ||| name == event_name::ZONE_EXEC_DENIED@
    ||| name == event_name::ZONE_PTRACE_DENIED@
    ||| name == event_name::ZONE_SIGNAL_DENIED@
    ||| name == event_name::ZONE_MOUNT_DENIED@
    ||| name == event_name::ZONE_IPC_DENIED@
    ||| name == event_name::ZONE_NET_DENIED@
    ||| name == event_name::ZONE_ESCAPE_CGROUP_ATTACH@
}

fn causes(values: Vec<&str>) -> (res: Vec<String>)
    ensures
        text::texts(res@) == values@.map_values(|s: &str| s@),
{
    let mut out: Vec<String> = Vec::new();
    let ghost all = values@.map_values(|s: &str| s@);
    let mut i: usize = 0;
    while i < values.len()
        invariant
            i <= values@.len(),
            all == values@.map_values(|s: &str| s@),
            text::texts(out@) == all.take(i as int),
        decreases values@.len() - i,
    {
        let ghost had = text::texts(out@);
        out.push(values[i].to_owned());
        assert(text::texts(out@) == had.push(values@[i as int]@));
        assert(all.take(i + 1) == all.take(i as int).push(values@[i as int]@));
        i = i + 1;
    }
    assert(all.take(all.len() as int) == all);
    out
}

fn told(what: &str, why: &str, values: Vec<&str>) -> (res: FalseNarrative)
    ensures
        res@ == tale(what@, why@, values@.map_values(|s: &str| s@)),
{
    FalseNarrative {
        what_failed: what.to_owned(),
        why_it_matters: why.to_owned(),
        possible_causes: causes(values),
    }
}

/// What an event means.
pub fn narrative_for(name: &str) -> (res: FalseNarrative)
    ensures
        res@ == narrative(name@),
{
    if same(name, event_name::ZONE_FILE_DENIED) {
        let because = vec!["policy drift", "mislabeled mount", "escape attempt"];
        assert(because@.map_values(|s: &str| s@) == narrative(name@).possible_causes);
        told(
            "cross-zone file_open",
            "file inode belongs to a different zone than the caller",
            because,
        )
    } else if same(name, event_name::ZONE_EXEC_DENIED) {
        let because = vec!["policy drift", "mislabeled image layer", "escape attempt"];
        assert(because@.map_values(|s: &str| s@) == narrative(name@).possible_causes);
        told(
            "cross-zone exec",
            "executable inode belongs to a different zone than the caller",
            because,
        )
    } else if same(name, event_name::ZONE_PTRACE_DENIED) {
        let because = vec!["debug tool in wrong zone", "credential misuse", "escape attempt"];
        assert(because@.map_values(|s: &str| s@) == narrative(name@).possible_causes);
        told(
            "cross-zone ptrace",
            "caller attempted to inspect or control a process outside its zone",
            because,
        )
    } else if same(name, event_name::ZONE_SIGNAL_DENIED) {
        let because = vec!["stale process target", "orchestrator drift", "escape attempt"];
        assert(because@.map_values(|s: &str| s@) == narrative(name@).possible_causes);
        told(
            "cross-zone signal",
            "caller attempted to signal a process outside its zone",
            because,
        )
    } else if same(name, event_name::ZONE_ESCAPE_CGROUP_ATTACH) {
        let because = vec!["runtime bug", "manual cgroup mutation", "escape attempt"];
        assert(because@.map_values(|s: &str| s@) == narrative(name@).possible_causes);
        told(
            "cross-zone cgroup attach",
            "moving tasks across zone cgroups would break the isolation boundary",
            because,
        )
    } else if same(name, event_name::ZONE_NET_DENIED) {
        let because = vec!["policy drift", "unexpected service dependency", "escape attempt"];
        assert(because@.map_values(|s: &str| s@) == narrative(name@).possible_causes);
        told(
            "cross-zone network access",
            "network policy does not allow this zone-to-zone path",
            because,
        )
    } else if same(name, event_name::ZONE_MOUNT_DENIED) {
        let because = vec!["unexpected privilege", "bad OCI spec", "escape attempt"];
        assert(because@.map_values(|s: &str| s@) == narrative(name@).possible_causes);
        told(
            "zone mount denied",
            "mount operations can change the filesystem boundary",
            because,
        )
    } else if same(name, event_name::ZONE_IPC_DENIED) {
        let because = vec!["shared namespace drift", "bad workload placement", "escape attempt"];
        assert(because@.map_values(|s: &str| s@) == narrative(name@).possible_causes);
        told(
            "cross-zone IPC denied",
            "IPC target belongs to a different zone than the caller",
            because,
        )
    } else if same(name, event_name::ZONE_PROC_FILTERED) {
        let because = vec!["normal isolation behavior"];
        assert(because@.map_values(|s: &str| s@) == narrative(name@).possible_causes);
        told(
            "proc entry filtered",
            "process listing was restricted to preserve zone visibility",
            because,
        )
    } else if same(name, event_name::RINGBUF_DROP) {
        let because = vec!["burst exceeded ring buffer", "userspace reader lagged"];
        assert(because@.map_values(|s: &str| s@) == narrative(name@).possible_causes);
        told(
            "ring buffer event dropped",
            "evidence may be incomplete for the affected interval",
            because,
        )
    } else if same(name, event_name::PIPELINE_SHED) {
        let because = vec!["slow sink", "subscriber lag", "bounded queue full"];
        assert(because@.map_values(|s: &str| s@) == narrative(name@).possible_causes);
        told(
            "evidence pipeline shed event",
            "downstream consumers may be missing telemetry",
            because,
        )
    } else {
        let because = vec!["normal runtime activity"];
        assert(because@.map_values(|s: &str| s@) == narrative(name@).possible_causes);
        let own = swapped(name, '.', ' ');
        told(
            own.as_str(),
            "event records a zone lifecycle or evidence state transition",
            because,
        )
    }
}

/// How grave an event is, unless it is said otherwise.
pub fn default_severity(name: &str) -> (res: Severity)
    ensures
        res == usual_severity(name@),
{
    if same(name, event_name::ZONE_ESCAPE_CGROUP_ATTACH) || same(name, event_name::RINGBUF_DROP) {
        Severity::Error
    } else if same(name, event_name::ZONE_FILE_DENIED) || same(name, event_name::ZONE_EXEC_DENIED)
        || same(name, event_name::ZONE_PTRACE_DENIED) || same(
        name,
        event_name::ZONE_SIGNAL_DENIED,
    ) || same(name, event_name::ZONE_MOUNT_DENIED) || same(name, event_name::ZONE_IPC_DENIED)
        || same(name, event_name::ZONE_NET_DENIED) || same(name, event_name::PIPELINE_SHED) {
        Severity::Warn
    } else if same(name, event_name::ZONE_FILE_ALLOWED) || same(
        name,
        event_name::ZONE_PROC_FILTERED,
    ) {
        Severity::Trace
    } else {
        Severity::Info
    }
}

/// Every event has a possible cause.
pub proof fn law_every_event_has_a_cause(name: Seq<char>)
    ensures
        narrative(name).possible_causes.len() > 0,
{
}

/// A denial is at least a warning, and never passes for mere misconfiguration: an
/// escape attempt is among its possible causes.
pub proof fn law_denials_are_grave(name: Seq<char>)
    requires
        is_denial(name),
    ensures
        usual_severity(name) is Warn || usual_severity(name) is Error,
        narrative(name).possible_causes.contains("escape attempt"@),
{
    reveal_strlit("zone.file.denied");
    reveal_strlit("zone.exec.denied");
    reveal_strlit("zone.ptrace.denied");
    reveal_strlit("zone.signal.denied");
    reveal_strlit("zone.mount.denied");
    reveal_strlit("zone.ipc.denied");
    reveal_strlit("zone.net.denied");
    reveal_strlit("zone.escape.cgroup_attach");
    reveal_strlit("zone.proc.filtered");
    reveal_strlit("ringbuf.drop");
    reveal_strlit("pipeline.shed");
    assert(narrative(name).possible_causes[2] == "escape attempt"@);
}

/// Whether an event has a narrative of its own.
pub open spec fn has_own_tale(name: Seq<char>) -> bool {
    ||| name == "zone.file.denied"@
    ||| name == "zone.exec.denied"@
    ||| name == "zone.ptrace.denied"@
    ||| name == "zone.signal.denied"@
    ||| name == "zone.escape.cgroup_attach"@
    ||| name == "zone.net.denied"@
    ||| name == "zone.mount.denied"@
    ||| name == "zone.ipc.denied"@
    ||| name == "zone.proc.filtered"@
    ||| name == "ringbuf.drop"@
    ||| name == "pipeline.shed"@
}

/// The names of the events with narratives of their own differ.
proof fn lemma_names_differ()
    ensures
        "zone.file.denied"@.len() == 16 && "zone.file.denied"@[0] == 'z' && "zone.file.denied"@[5] == 'f' && "zone.file.denied"@[6] == 'i',
        "zone.exec.denied"@.len() == 16 && "zone.exec.denied"@[0] == 'z' && "zone.exec.denied"@[5] == 'e' && "zone.exec.denied"@[6] == 'x',
        "zone.ptrace.denied"@.len() == 18 && "zone.ptrace.denied"@[0] == 'z' && "zone.ptrace.denied"@[5] == 'p' && "zone.ptrace.denied"@[6] == 't',
        "zone.signal.denied"@.len() == 18 && "zone.signal.denied"@[0] == 'z' && "zone.signal.denied"@[5] == 's' && "zone.signal.denied"@[6] == 'i',
        "zone.escape.cgroup_attach"@.len() == 25 && "zone.escape.cgroup_attach"@[0] == 'z' && "zone.escape.cgroup_attach"@[5] == 'e' && "zone.escape.cgroup_attach"@[6] == 's',
        "zone.net.denied"@.len() == 15 && "zone.net.denied"@[0] == 'z' && "zone.net.denied"@[5] == 'n' && "zone.net.denied"@[6] == 'e',
        "zone.mount.denied"@.len() == 17 && "zone.mount.denied"@[0] == 'z' && "zone.mount.denied"@[5] == 'm' && "zone.mount.denied"@[6] == 'o',
        "zone.ipc.denied"@.len() == 15 && "zone.ipc.denied"@[0] == 'z' && "zone.ipc.denied"@[5] == 'i' && "zone.ipc.denied"@[6] == 'p',
        "zone.proc.filtered"@.len() == 18 && "zone.proc.filtered"@[0] == 'z' && "zone.proc.filtered"@[5] == 'p' && "zone.proc.filtered"@[6] == 'r',
        "ringbuf.drop"@.len() == 12 && "ringbuf.drop"@[0] == 'r' && "ringbuf.drop"@[5] == 'u' && "ringbuf.drop"@[6] == 'f',
        "pipeline.shed"@.len() == 13 && "pipeline.shed"@[0] == 'p' && "pipeline.shed"@[5] == 'i' && "pipeline.shed"@[6] == 'n',
        "zone.file.allowed"@.len() == 17 && "zone.file.allowed"@[0] == 'z' && "zone.file.allowed"@[5] == 'f' && "zone.file.allowed"@[6] == 'i',
{
    reveal_strlit("zone.file.denied");
    reveal_strlit("zone.exec.denied");
    reveal_strlit("zone.ptrace.denied");
    reveal_strlit("zone.signal.denied");
    reveal_strlit("zone.escape.cgroup_attach");
    reveal_strlit("zone.net.denied");
    reveal_strlit("zone.mount.denied");
    reveal_strlit("zone.ipc.denied");
    reveal_strlit("zone.proc.filtered");
    reveal_strlit("ringbuf.drop");
    reveal_strlit("pipeline.shed");
    reveal_strlit("zone.file.allowed");
}

/// Each event has the narrative that belongs to it: what failed, why that matters and what
/// may have caused it are those of the event of that name, and an event without a narrative
/// of its own tells its name in words.
pub proof fn law_narrative_is_the_events_own(name: Seq<char>)
    ensures
        name == "zone.file.denied"@ ==> {
            &&& narrative(name).what_failed == "cross-zone file_open"@
            &&& narrative(name).why_it_matters
                == "file inode belongs to a different zone than the caller"@
            &&& narrative(name).possible_causes == seq!["policy drift"@, "mislabeled mount"@, "escape attempt"@]
        },
        name == "zone.exec.denied"@ ==> {
            &&& narrative(name).what_failed == "cross-zone exec"@
            &&& narrative(name).why_it_matters
                == "executable inode belongs to a different zone than the caller"@
            &&& narrative(name).possible_causes == seq!["policy drift"@, "mislabeled image layer"@, "escape attempt"@]
        },
        name == "zone.ptrace.denied"@ ==> {
            &&& narrative(name).what_failed == "cross-zone ptrace"@
            &&& narrative(name).why_it_matters
                == "caller attempted to inspect or control a process outside its zone"@
            &&& narrative(name).possible_causes == seq!["debug tool in wrong zone"@, "credential misuse"@, "escape attempt"@]
        },
        name == "zone.signal.denied"@ ==> {
            &&& narrative(name).what_failed == "cross-zone signal"@
            &&& narrative(name).why_it_matters
                == "caller attempted to signal a process outside its zone"@
            &&& narrative(name).possible_causes == seq!["stale process target"@, "orchestrator drift"@, "escape attempt"@]
        },
        name == "zone.escape.cgroup_attach"@ ==> {
            &&& narrative(name).what_failed == "cross-zone cgroup attach"@
            &&& narrative(name).why_it_matters
                == "moving tasks across zone cgroups would break the isolation boundary"@
            &&& narrative(name).possible_causes == seq!["runtime bug"@, "manual cgroup mutation"@, "escape attempt"@]
        },
        name == "zone.net.denied"@ ==> {
            &&& narrative(name).what_failed == "cross-zone network access"@
            &&& narrative(name).why_it_matters
                == "network policy does not allow this zone-to-zone path"@
            &&& narrative(name).possible_causes == seq!["policy drift"@, "unexpected service dependency"@, "escape attempt"@]
        },
        name == "zone.mount.denied"@ ==> {
            &&& narrative(name).what_failed == "zone mount denied"@
            &&& narrative(name).why_it_matters
                == "mount operations can change the filesystem boundary"@
            &&& narrative(name).possible_causes == seq!["unexpected privilege"@, "bad OCI spec"@, "escape attempt"@]
        },
        name == "zone.ipc.denied"@ ==> {
            &&& narrative(name).what_failed == "cross-zone IPC denied"@
            &&& narrative(name).why_it_matters
                == "IPC target belongs to a different zone than the caller"@
            &&& narrative(name).possible_causes == seq!["shared namespace drift"@, "bad workload placement"@, "escape attempt"@]
        },
        name == "zone.proc.filtered"@ ==> {
            &&& narrative(name).what_failed == "proc entry filtered"@
            &&& narrative(name).why_it_matters
                == "process listing was restricted to preserve zone visibility"@
            &&& narrative(name).possible_causes == seq!["normal isolation behavior"@]
        },
        name == "ringbuf.drop"@ ==> {
            &&& narrative(name).what_failed == "ring buffer event dropped"@
            &&& narrative(name).why_it_matters
                == "evidence may be incomplete for the affected interval"@
            &&& narrative(name).possible_causes == seq!["burst exceeded ring buffer"@, "userspace reader lagged"@]
        },
        name == "pipeline.shed"@ ==> {
            &&& narrative(name).what_failed == "evidence pipeline shed event"@
            &&& narrative(name).why_it_matters
                == "downstream consumers may be missing telemetry"@
            &&& narrative(name).possible_causes == seq!["slow sink"@, "subscriber lag"@, "bounded queue full"@]
        },
        !has_own_tale(name) ==> {
            &&& narrative(name).what_failed == text::swap_char(name, '.', ' ')
            &&& narrative(name).why_it_matters
                == "event records a zone lifecycle or evidence state transition"@
            &&& narrative(name).possible_causes == seq!["normal runtime activity"@]
        },
{
    lemma_names_differ();
}

/// How grave an event is: an error where a boundary is about to break or evidence is lost, a
/// warning where something was refused or shed, a trace where all went as it should, and else
/// a note.
pub proof fn law_severity_is_the_events_own(name: Seq<char>)
    ensures
        usual_severity(name) is Error <==> name == "zone.escape.cgroup_attach"@ || name
            == "ringbuf.drop"@,
        usual_severity(name) is Warn <==> (name == "zone.file.denied"@ || name == "zone.exec.denied"@ || name == "zone.ptrace.denied"@ || name == "zone.signal.denied"@ || name == "zone.mount.denied"@ || name == "zone.ipc.denied"@ || name == "zone.net.denied"@ || name == "pipeline.shed"@),
        usual_severity(name) is Trace <==> name == "zone.file.allowed"@ || name
            == "zone.proc.filtered"@,
{
    lemma_names_differ();
}

} // verus!
