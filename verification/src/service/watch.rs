//! Watching events: which events a client is sent, and what it is told when it
//! could not keep up.

use vstd::prelude::*;
use vstd::string::StringExecFns;

use crate::evidence::builder;
use crate::evidence::builder::{pipeline_shed_event, FalseEventBuilder};
use crate::evidence::error::EvidenceError;
use crate::evidence::event;
use crate::evidence::event::{
    FalseEvent, FieldValue, ResourceAttrs, Severity, BACKEND_LINUX_EBPF,
};
use crate::evidence::event_name;
use crate::evidence::render;
use crate::evidence::render::TraceRecord;
use crate::ordered;
use crate::text;
use crate::text::same;

verus! {

/// Whether a client that watches a zone is sent an event: one of the zone, by its
/// name or its identifier. A client that names no zone is sent every event.
pub open spec fn wanted(filter: Seq<char>, e: event::EventText) -> bool {
    filter.len() == 0 || e.zone.name == Some(filter) || e.zone.id == filter
}

/// Whether a client that watches a zone is sent an event.
pub fn is_wanted(zone_filter: &str, e: &FalseEvent) -> (res: bool)
    ensures
        res == wanted(zone_filter@, e@),
{
    if zone_filter.is_empty() {
        return true;
    }
    match &e.zone.name {
        Some(name) => {
            if same(name.as_str(), zone_filter) {
                return true;
            }
        },
        None => {},
    }
    same(e.zone.id.as_str(), zone_filter)
}

/// What a client is sent of an event.
#[derive(Clone, Debug, PartialEq, Eq)]
pub struct ZoneEvent {
    pub zone_name: String,
    pub event_type: String,
    pub message: String,
    pub timestamp: String,
}

/// What is sent in place of an event that cannot be written as JSON.
pub open spec fn unwritable(name: Seq<char>, error: Seq<char>) -> Seq<char> {
    "{\"event\":\""@ + name + "\",\"serialization_error\":\""@ + error + "\"}"@
}

/// The message for an event, by what came of writing it as JSON.
pub open spec fn message_for(e: event::EventText, written: Result<String, EvidenceError>) -> Seq<
    char,
> {
    match written {
        Ok(json) => json@,
        Err(error) => unwritable(e.event, error.text()),
    }
}

/// Whether this is what a client is sent of an event, with this message. The zone
/// is named by its identifier where it has no name.
pub open spec fn projects(sent: ZoneEvent, e: event::EventText, message: Seq<char>) -> bool {
    &&& sent.zone_name@ == (match e.zone.name {
        Some(name) => name,
        None => e.zone.id,
    })
    &&& sent.event_type@ == e.event
    &&& sent.message@ == message
    &&& sent.timestamp@ == e.ts
}

/// What a client is sent of an event, once it was tried to write it as JSON.
pub fn project(e: &FalseEvent, written: Result<String, EvidenceError>) -> (res: ZoneEvent)
    ensures
        projects(res, e@, message_for(e@, written)),
{
    let message = match written {
        Ok(json) => json,
        Err(error) => {
            let mut out = "{\"event\":\"".to_owned();
            out.append(e.event.as_str());
            out.append("\",\"serialization_error\":\"");
            out.append(error.message().as_str());
            out.append("\"}");
            out
        },
    };
    ZoneEvent {
        zone_name: match &e.zone.name {
            Some(name) => name.clone(),
            None => e.zone.id.clone(),
        },
        event_type: e.event.clone(),
        message,
        timestamp: e.ts.clone(),
    }
}

/// What a client is sent of an event.
pub fn zone_event(e: &FalseEvent) -> (res: ZoneEvent)
    ensures
        projects(res, e@, render::event_json(e@)),
{
    project(e, e.machine_json())
}

/// The draft of the event that tells a client how many events it missed.
pub open spec fn lag_draft(
    filter: Seq<char>,
    missed: u64,
    host: Option<Seq<char>>,
) -> builder::Draft {
    builder::Draft {
        event: Some(event_name::PIPELINE_SHED@),
        level: Some(Severity::Warn),
        zone: Some(
            event::ZoneText {
                id: if filter.len() == 0 {
                    "zone-unknown"@
                } else {
                    filter
                },
                name: None,
            },
        ),
        attributes: Some(builder::plain_attributes(BACKEND_LINUX_EBPF@, host)),
        fields: seq![
            ("reason"@, event::FieldText::Text("watch_subscriber_lagged"@)),
            ("shed_events"@, event::FieldText::U64(missed)),
        ],
        ..builder::blank()
    }
}

/// Gathers what tells a client how many events it missed.
fn lag_builder(zone_filter: &str, missed: u64, host: Option<String>) -> (res: FalseEventBuilder)
    ensures
        res@ == lag_draft(zone_filter@, missed, text::text_in(host)),
{
    let ghost known = text::text_in(host);
    let zone = if zone_filter.is_empty() {
        "zone-unknown"
    } else {
        zone_filter
    };
    let draft = FalseEventBuilder::new(event_name::PIPELINE_SHED).level(Severity::Warn).zone(
        zone,
        None,
    ).resource_attributes(ResourceAttrs::new(BACKEND_LINUX_EBPF, host)).field(
        "shed_events",
        FieldValue::U64(missed),
    ).field("reason", FieldValue::String("watch_subscriber_lagged".to_owned()));
    proof {
        reveal_strlit("watch_subscriber_lagged");
        reveal_strlit("reason");
        reveal_strlit("shed_events");
        assert("reason"@[0] == 'r' && "shed_events"@[0] == 's');
        let shed = ("shed_events"@, event::FieldText::U64(missed));
        let reason = ("reason"@, event::FieldText::Text("watch_subscriber_lagged"@));
        let none = Seq::<(Seq<char>, event::FieldText)>::empty();
        assert(ordered::put(none, shed.0, shed.1) == seq![shed]);
        assert(ordered::put(seq![shed], reason.0, reason.1) == seq![reason, shed]);
        assert(draft@.fields == lag_draft(zone_filter@, missed, known).fields);
    }
    draft
}

/// What a subscription to events gives.
#[derive(Clone, Debug, PartialEq, Eq)]
pub enum Received {
    Event(FalseEvent),
    /// So many events were dropped, for the client was too slow.
    Lagged(u64),
    Closed,
}

/// What is done with what a subscription gave.
#[derive(Clone, Debug, PartialEq, Eq)]
pub enum WatchTodo {
    /// Nothing: the client does not watch this.
    Skip,
    /// Send this; watching ends where the client is gone. What is to be logged goes
    /// to the log before.
    Send { event: ZoneEvent, log: Option<TraceRecord> },
    /// End: there will be no more events.
    Stop,
}

/// Whether a record is what an event leaves in the log.
pub open spec fn logs(record: TraceRecord, e: event::EventText) -> bool {
    &&& record.level == e.level
    &&& record.event@ == e.event
    &&& record.zone_id@ == e.zone.id
    &&& record.actor_id@ == (match e.actor {
        Some(actor) => actor.id,
        None => ""@,
    })
    &&& record.backend@ == e.backend
    &&& record.what_failed@ == e.narrative.what_failed
    &&& record.why_it_matters@ == e.narrative.why_it_matters
    &&& record.message@ == "rauha.evidence"@
}

/// Whether an event tells of missed events, at its own time.
pub open spec fn tells_lag(
    e: event::EventText,
    filter: Seq<char>,
    missed: u64,
    host: Option<Seq<char>>,
) -> bool {
    builder::built(lag_draft(filter, missed, host), None, e.ts) == Ok::<
        event::EventText,
        Seq<char>,
    >(e)
}

/// Whether this is what is done with what a subscription gave.
pub open spec fn watches(
    filter: Seq<char>,
    received: Received,
    host: Option<Seq<char>>,
    todo: WatchTodo,
) -> bool {
    match received {
        Received::Event(e) => if wanted(filter, e@) {
            todo matches WatchTodo::Send { event: sent, log } && log is None && projects(
                sent,
                e@,
                render::event_json(e@),
            )
        } else {
            todo is Skip
        },
        Received::Lagged(missed) => todo matches WatchTodo::Send { event: sent, log } && exists|
            shed: event::EventText,
        | #[trigger]
            tells_lag(shed, filter, missed, host) && projects(sent, shed, render::event_json(shed))
                && (log matches Some(record) && logs(record, shed)),
        Received::Closed => todo is Stop,
    }
}

/// What is done with what a subscription gave.
pub fn watch_step(zone_filter: &str, received: Received, host: Option<String>) -> (res: WatchTodo)
    ensures
        watches(zone_filter@, received, text::text_in(host), res),
{
    match received {
        Received::Event(e) => {
            if !is_wanted(zone_filter, &e) {
                return WatchTodo::Skip;
            }
            WatchTodo::Send { event: zone_event(&e), log: None }
        },
        Received::Lagged(missed) => {
            let ghost known = text::text_in(host);
            let spare = host.clone();
            let shed = match lag_builder(zone_filter, missed, host).build(None) {
                Ok(shed) => shed,
                Err(_) => pipeline_shed_event("watch_subscriber_lagged", BACKEND_LINUX_EBPF, spare),
            };
            let log = shed.emit_tracing();
            let event = zone_event(&shed);
            assert(tells_lag(shed@, zone_filter@, missed, known));
            WatchTodo::Send { event, log: Some(log) }
        },
        Received::Closed => WatchTodo::Stop,
    }
}

/// No drop is silent: a client that missed events is always told so, and how many,
/// whichever zone it watches.
pub proof fn law_lag_is_told(
    filter: Seq<char>,
    missed: u64,
    host: Option<Seq<char>>,
    todo: WatchTodo,
)
    requires
        watches(filter, Received::Lagged(missed), host, todo),
    ensures
        todo matches WatchTodo::Send { event, log } && event.event_type@
            == event_name::PIPELINE_SHED@ && log is Some,
        lag_draft(filter, missed, host).fields.contains(
            ("shed_events"@, event::FieldText::U64(missed)),
        ),
{
    assert(lag_draft(filter, missed, host).fields[1] == (
        "shed_events"@,
        event::FieldText::U64(missed),
    ));
}

/// A client that watches a zone is sent no event of another zone, and every event of
/// its own.
pub proof fn law_filter_is_exact(filter: Seq<char>, e: FalseEvent, host: Option<Seq<char>>, todo: WatchTodo)
    requires
        watches(filter, Received::Event(e), host, todo),
        filter.len() > 0,
    ensures
        todo is Send <==> e@.zone.id == filter || e@.zone.name == Some(filter),
        todo is Send || todo is Skip,
{
}

/// What a client is sent of an event is the event's own: its name under the type, its time
/// under the time, its JSON for the message, and its zone by name, or by identifier where
/// it has no name.
pub proof fn law_event_is_sent_as_it_is(
    filter: Seq<char>,
    e: FalseEvent,
    host: Option<Seq<char>>,
    todo: WatchTodo,
)
    requires
        watches(filter, Received::Event(e), host, todo),
        todo is Send,
    ensures
        todo matches WatchTodo::Send { event: sent, log } && {
            &&& log is None
            &&& sent.event_type@ == e.event@
            &&& sent.timestamp@ == e.ts@
            &&& sent.message@ == render::event_json(e@)
            &&& e.zone.name matches Some(name) ==> sent.zone_name@ == name@
            &&& e.zone.name is None ==> sent.zone_name@ == e.zone.id@
        },
{
}

/// A client that names no zone is sent every event, one that names a zone only that zone's,
/// and watching ends exactly where there will be no more events.
pub proof fn law_watching_goes_on_to_the_end(
    filter: Seq<char>,
    received: Received,
    host: Option<Seq<char>>,
    todo: WatchTodo,
)
    requires
        watches(filter, received, host, todo),
    ensures
        todo is Stop <==> received is Closed,
        received is Event && filter.len() == 0 ==> todo is Send,
        received is Lagged ==> todo is Send,
{
}

/// A client that could not keep up is told, under the zone that it watches, how many events
/// it missed and why, as a warning; and the log says the same of the same zone.
pub proof fn law_lag_is_told_in_full(
    filter: Seq<char>,
    missed: u64,
    host: Option<Seq<char>>,
    todo: WatchTodo,
) -> (shed: event::EventText)
    requires
        watches(filter, Received::Lagged(missed), host, todo),
    ensures
        todo matches WatchTodo::Send { event: sent, log } && {
            &&& sent.event_type@ == "pipeline.shed"@
            &&& filter.len() > 0 ==> sent.zone_name@ == filter
            &&& filter.len() == 0 ==> sent.zone_name@ == "zone-unknown"@
            &&& sent.timestamp@ == shed.ts
            &&& sent.message@ == render::event_json(shed)
            &&& log matches Some(record)
            &&& record.level is Warn
            &&& record.event@ == "pipeline.shed"@
            &&& record.zone_id@ == sent.zone_name@
            &&& record.actor_id@ == ""@
            &&& record.backend@ == "linux-ebpf"@
            &&& record.what_failed@ == "evidence pipeline shed event"@
            &&& record.why_it_matters@ == "downstream consumers may be missing telemetry"@
            &&& record.message@ == "rauha.evidence"@
        },
        shed.event == "pipeline.shed"@,
        shed.level is Warn,
        shed.zone.name is None,
        shed.attributes.host == host,
        shed.backend == "linux-ebpf"@,
        shed.fields.len() == 2,
        ordered::lookup(shed.fields, "shed_events"@) == Some(event::FieldText::U64(missed)),
        ordered::lookup(shed.fields, "reason"@) == Some(
            event::FieldText::Text("watch_subscriber_lagged"@),
        ),
{
    reveal_strlit("reason");
    reveal_strlit("shed_events");
    assert("reason"@[0] == 'r' && "shed_events"@[0] == 's');
    reveal_strlit("pipeline.shed");
    reveal_strlit("zone.file.denied");
    reveal_strlit("zone.exec.denied");
    reveal_strlit("zone.ptrace.denied");
    reveal_strlit("zone.signal.denied");
    reveal_strlit("zone.mount.denied");
    reveal_strlit("zone.ipc.denied");
    reveal_strlit("zone.net.denied");
    reveal_strlit("zone.escape.cgroup_attach");
    reveal_strlit("zone.proc.filtered");
    reveal_strlit("ringbuf.drop");
    assert("pipeline.shed"@[0] == 'p' && "zone.file.denied"@[0] == 'z' && "zone.exec.denied"@[0]
        == 'z' && "zone.ptrace.denied"@[0] == 'z' && "zone.signal.denied"@[0] == 'z'
        && "zone.mount.denied"@[0] == 'z' && "zone.ipc.denied"@[0] == 'z' && "zone.net.denied"@[0]
        == 'z' && "zone.escape.cgroup_attach"@[0] == 'z' && "zone.proc.filtered"@[0] == 'z'
        && "ringbuf.drop"@[0] == 'r');
    let sent = todo->Send_event;
    let log = todo->Send_log;
    let shed = choose|shed: event::EventText| #[trigger]
        tells_lag(shed, filter, missed, host) && projects(sent, shed, render::event_json(shed))
            && (log matches Some(record) && logs(record, shed));
    assert(shed.fields == lag_draft(filter, missed, host).fields);
    ordered::lemma_first_is_looked_up(shed.fields, 0);
    ordered::lemma_first_is_looked_up(shed.fields, 1);
    shed
}

/// An event that cannot be written is sent with its name and the error, in place of its
/// JSON; nothing else of what is sent changes.
pub proof fn law_unwritable_event_is_still_sent(
    sent: ZoneEvent,
    e: event::EventText,
    error: EvidenceError,
)
    requires
        projects(sent, e, message_for(e, Err(error))),
    ensures
        sent.message@ == "{\"event\":\""@ + e.event + "\",\"serialization_error\":\""@
            + error.text() + "\"}"@,
        sent.event_type@ == e.event,
        sent.timestamp@ == e.ts,
{
}

} // verus!
