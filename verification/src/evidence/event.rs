//! The canonical event, and what it is made of.

use vstd::prelude::*;

use crate::evidence::bounds;
use crate::evidence::bounds::{bound_string, bound_strings};
use crate::number;
use crate::number::{decimal_of, signed_decimal_of};
use crate::ordered;
use crate::ordered::OrderedMap;
use crate::text;
use crate::text::join;

verus! {

/// The backend that enforces by eBPF programs.
pub const BACKEND_LINUX_EBPF: &'static str = "linux-ebpf";

/// The backend that isolates by virtual machines.
pub const BACKEND_MACOS_VM: &'static str = "macos-vm";

/// How grave an event is.
#[derive(Clone, Copy, Debug, PartialEq, Eq, Structural)]
pub enum Severity {
    Trace,
    Info,
    Warn,
    Error,
}

impl Severity {
    /// What `as_str` gives.
    pub open spec fn text(self) -> Seq<char> {
        match self {
            Severity::Trace => "TRACE"@,
            Severity::Info => "INFO"@,
            Severity::Warn => "WARN"@,
            Severity::Error => "ERROR"@,
        }
    }

    /// The severity in capitals.
    pub fn as_str(self) -> (res: &'static str)
        ensures
            res@ == self.text(),
    {
        match self {
            Severity::Trace => "TRACE",
            Severity::Info => "INFO",
            Severity::Warn => "WARN",
            Severity::Error => "ERROR",
        }
    }
}

/// The zone that an event is about.
#[derive(Clone, Debug, PartialEq, Eq)]
pub struct ZoneIdentity {
    pub id: String,
    pub name: Option<String>,
}

/// Who acted, and on whose behalf.
#[derive(Clone, Debug, PartialEq, Eq)]
pub struct ActorIdentity {
    pub id: String,
    pub delegation: Vec<String>,
}

/// Where an event comes from.
#[derive(Clone, Debug, PartialEq, Eq)]
pub struct ResourceAttrs {
    pub backend: String,
    pub host: Option<String>,
    pub node: Option<String>,
    pub container_id: Option<String>,
    pub kernel_version: Option<String>,
}

/// What an event means.
#[derive(Clone, Debug, PartialEq, Eq)]
pub struct FalseNarrative {
    pub what_failed: String,
    pub why_it_matters: String,
    pub possible_causes: Vec<String>,
}

/// How an event maps to an OpenTelemetry log record.
#[derive(Clone, Debug, PartialEq, Eq)]
pub struct OTelMapping {
    pub log_body: String,
    pub severity_text: String,
    pub resource_attributes: Vec<String>,
    pub event_attributes: Vec<String>,
}

/// The value of one of an event's fields.
#[derive(Clone, Debug, PartialEq, Eq)]
pub enum FieldValue {
    String(String),
    U64(u64),
    I64(i64),
    Bool(bool),
    StringList(Vec<String>),
}

/// The canonical event.
#[derive(Clone, Debug, PartialEq, Eq)]
pub struct FalseEvent {
    /// When it happened, in RFC 3339.
    pub ts: String,
    pub level: Severity,
    /// Its name.
    pub event: String,
    pub zone: ZoneIdentity,
    pub actor: Option<ActorIdentity>,
    /// What was acted on.
    pub resource: Option<String>,
    pub backend: String,
    pub trace_id: Option<String>,
    pub what_failed: String,
    pub why_it_matters: String,
    pub possible_causes: Vec<String>,
    pub resource_attributes: ResourceAttrs,
    /// What varies from event to event, by name.
    pub fields: OrderedMap<FieldValue>,
    pub otel: OTelMapping,
}

/// What a `ZoneIdentity` says.
pub struct ZoneText {
    pub id: Seq<char>,
    pub name: Option<Seq<char>>,
}

impl View for ZoneIdentity {
    type V = ZoneText;

    open spec fn view(&self) -> ZoneText {
        ZoneText { id: self.id@, name: text::text_in(self.name) }
    }
}

/// What an `ActorIdentity` says.
pub struct ActorText {
    pub id: Seq<char>,
    pub delegation: Seq<Seq<char>>,
}

impl View for ActorIdentity {
    type V = ActorText;

    open spec fn view(&self) -> ActorText {
        ActorText { id: self.id@, delegation: text::texts(self.delegation@) }
    }
}

/// What an actor that may be there says.
pub open spec fn actor_in(o: Option<ActorIdentity>) -> Option<ActorText> {
    match o {
        Some(a) => Some(a@),
        None => None,
    }
}

/// What `ResourceAttrs` say.
pub struct AttrsText {
    pub backend: Seq<char>,
    pub host: Option<Seq<char>>,
    pub node: Option<Seq<char>>,
    pub container_id: Option<Seq<char>>,
    pub kernel_version: Option<Seq<char>>,
}

impl View for ResourceAttrs {
    type V = AttrsText;

    open spec fn view(&self) -> AttrsText {
        AttrsText {
            backend: self.backend@,
            host: text::text_in(self.host),
            node: text::text_in(self.node),
            container_id: text::text_in(self.container_id),
            kernel_version: text::text_in(self.kernel_version),
        }
    }
}

/// What a `FalseNarrative` says.
pub struct NarrativeText {
    pub what_failed: Seq<char>,
    pub why_it_matters: Seq<char>,
    pub possible_causes: Seq<Seq<char>>,
}

impl View for FalseNarrative {
    type V = NarrativeText;

    open spec fn view(&self) -> NarrativeText {
        NarrativeText {
            what_failed: self.what_failed@,
            why_it_matters: self.why_it_matters@,
            possible_causes: text::texts(self.possible_causes@),
        }
    }
}

/// What an `OTelMapping` says.
pub struct OTelText {
    pub log_body: Seq<char>,
    pub severity_text: Seq<char>,
    pub resource_attributes: Seq<Seq<char>>,
    pub event_attributes: Seq<Seq<char>>,
}

impl View for OTelMapping {
    type V = OTelText;

    open spec fn view(&self) -> OTelText {
        OTelText {
            log_body: self.log_body@,
            severity_text: self.severity_text@,
            resource_attributes: text::texts(self.resource_attributes@),
            event_attributes: text::texts(self.event_attributes@),
        }
    }
}

/// What a `FieldValue` says.
pub enum FieldText {
    Text(Seq<char>),
    U64(u64),
    I64(i64),
    Bool(bool),
    List(Seq<Seq<char>>),
}

impl View for FieldValue {
    type V = FieldText;

    open spec fn view(&self) -> FieldText {
        match self {
            FieldValue::String(s) => FieldText::Text(s@),
            FieldValue::U64(n) => FieldText::U64(*n),
            FieldValue::I64(n) => FieldText::I64(*n),
            FieldValue::Bool(b) => FieldText::Bool(*b),
            FieldValue::StringList(list) => FieldText::List(text::texts(list@)),
        }
    }
}

/// Reads a field's value.
pub open spec fn reading() -> spec_fn(FieldValue) -> FieldText {
    |v: FieldValue| v@
}

/// What fields say, by name.
pub open spec fn field_texts(fields: Seq<(Seq<char>, FieldValue)>) -> Seq<(Seq<char>, FieldText)> {
    ordered::read_values(fields, reading())
}

/// What a `FalseEvent` says.
pub struct EventText {
    pub ts: Seq<char>,
    pub level: Severity,
    pub event: Seq<char>,
    pub zone: ZoneText,
    pub actor: Option<ActorText>,
    pub resource: Option<Seq<char>>,
    pub backend: Seq<char>,
    pub trace_id: Option<Seq<char>>,
    pub narrative: NarrativeText,
    pub attributes: AttrsText,
    pub fields: Seq<(Seq<char>, FieldText)>,
    pub otel: OTelText,
}

impl View for FalseEvent {
    type V = EventText;

    open spec fn view(&self) -> EventText {
        EventText {
            ts: self.ts@,
            level: self.level,
            event: self.event@,
            zone: self.zone@,
            actor: actor_in(self.actor),
            resource: text::text_in(self.resource),
            backend: self.backend@,
            trace_id: text::text_in(self.trace_id),
            narrative: NarrativeText {
                what_failed: self.what_failed@,
                why_it_matters: self.why_it_matters@,
                possible_causes: text::texts(self.possible_causes@),
            },
            attributes: self.resource_attributes@,
            fields: field_texts(self.fields@),
            otel: self.otel@,
        }
    }
}

/// A field's value with its texts cut where they are too long.
pub open spec fn bounded_field(value: FieldText) -> FieldText {
    match value {
        FieldText::Text(s) => FieldText::Text(bounds::bound(s)),
        FieldText::List(list) => FieldText::List(bounds::bound_all(list)),
        other => other,
    }
}

/// A field's value as people read it.
pub open spec fn shown_field(value: FieldText) -> Seq<char> {
    match value {
        FieldText::Text(s) => s,
        FieldText::U64(n) => number::decimal(n as nat),
        FieldText::I64(n) => number::signed_decimal(n as int),
        FieldText::Bool(b) => if b {
            "true"@
        } else {
            "false"@
        },
        FieldText::List(list) => text::joined(list, ","@),
    }
}

impl FieldValue {
    /// The value with its texts cut where they are too long.
    pub fn bounded(self) -> (res: Self)
        ensures
            res@ == bounded_field(self@),
    {
        match self {
            FieldValue::String(s) => FieldValue::String(bound_string(s.as_str())),
            FieldValue::StringList(values) => FieldValue::StringList(bound_strings(&values)),
            other => other,
        }
    }
}

/// A field's value as people read it.
pub fn display_field(value: &FieldValue) -> (res: String)
    ensures
        res@ == shown_field(value@),
{
    match value {
        FieldValue::String(value) => value.clone(),
        FieldValue::U64(value) => decimal_of(*value),
        FieldValue::I64(value) => signed_decimal_of(*value),
        FieldValue::Bool(value) => if *value {
            "true".to_owned()
        } else {
            "false".to_owned()
        },
        FieldValue::StringList(values) => join(values, ","),
    }
}

impl ResourceAttrs {
    /// The attributes of a backend on a host.
    pub fn new(backend: &str, host: Option<String>) -> (res: Self)
        ensures
            res@ == (AttrsText {
                backend: backend@,
                host: text::text_in(host),
                node: None,
                container_id: None,
                kernel_version: None,
            }),
    {
        ResourceAttrs {
            backend: backend.to_owned(),
            host,
            node: None,
            container_id: None,
            kernel_version: None,
        }
    }
}

/// A severity is told by its own name, and the backends by theirs.
pub proof fn law_severities_have_their_names(level: Severity)
    ensures
        level is Trace ==> level.text() == "TRACE"@,
        level is Info ==> level.text() == "INFO"@,
        level is Warn ==> level.text() == "WARN"@,
        level is Error ==> level.text() == "ERROR"@,
        BACKEND_LINUX_EBPF@ == "linux-ebpf"@,
        BACKEND_MACOS_VM@ == "macos-vm"@,
{
}

/// A field stays of its kind when it is cut: numbers and truths are kept as they are, and of
/// texts each is cut by itself.
pub proof fn law_fields_keep_their_kind(value: FieldText)
    ensures
        value matches FieldText::U64(n) ==> bounded_field(value) == FieldText::U64(n)
            && shown_field(value) == number::decimal(n as nat),
        value matches FieldText::I64(n) ==> bounded_field(value) == FieldText::I64(n)
            && shown_field(value) == number::signed_decimal(n as int),
        value matches FieldText::Bool(b) ==> bounded_field(value) == FieldText::Bool(b)
            && shown_field(value) == (if b {
            "true"@
        } else {
            "false"@
        }),
        value matches FieldText::Text(s) ==> bounded_field(value) == FieldText::Text(
            bounds::bound(s),
        ) && shown_field(value) == s,
        value matches FieldText::List(list) ==> (bounded_field(value) matches FieldText::List(cut)
            && cut.len() == list.len() && forall|i: int|
            0 <= i < list.len() ==> #[trigger] cut[i] == bounds::bound(list[i])),
        value matches FieldText::List(list) ==> shown_field(value) == text::joined(list, ","@),
{
}

/// What is said of an event is said of its own parts: each word of what it says is read off the
/// part of that name.
pub proof fn law_event_is_read_off_its_parts(e: FalseEvent)
    ensures
        e@.ts == e.ts@,
        e@.level == e.level,
        e@.event == e.event@,
        e@.zone.id == e.zone.id@,
        e@.zone.name == text::text_in(e.zone.name),
        e.actor matches Some(actor) ==> (e@.actor matches Some(a) && a.id == actor.id@
            && a.delegation == text::texts(actor.delegation@)),
        e.actor is None ==> e@.actor is None,
        e@.resource == text::text_in(e.resource),
        e@.backend == e.backend@,
        e@.trace_id == text::text_in(e.trace_id),
        e@.narrative.what_failed == e.what_failed@,
        e@.narrative.why_it_matters == e.why_it_matters@,
        e@.narrative.possible_causes == text::texts(e.possible_causes@),
        e@.attributes.backend == e.resource_attributes.backend@,
        e@.attributes.host == text::text_in(e.resource_attributes.host),
        e@.attributes.node == text::text_in(e.resource_attributes.node),
        e@.attributes.container_id == text::text_in(e.resource_attributes.container_id),
        e@.attributes.kernel_version == text::text_in(e.resource_attributes.kernel_version),
        e@.otel.log_body == e.otel.log_body@,
        e@.otel.severity_text == e.otel.severity_text@,
        e@.otel.resource_attributes == text::texts(e.otel.resource_attributes@),
        e@.otel.event_attributes == text::texts(e.otel.event_attributes@),
{
}

/// A narrative is read off its parts in the same way, and a field's value off its kind.
pub proof fn law_narrative_is_read_off_its_parts(told: FalseNarrative, value: FieldValue)
    ensures
        told@.what_failed == told.what_failed@,
        told@.why_it_matters == told.why_it_matters@,
        told@.possible_causes == text::texts(told.possible_causes@),
        value matches FieldValue::String(s) ==> value@ == FieldText::Text(s@),
        value matches FieldValue::U64(n) ==> value@ == FieldText::U64(n),
        value matches FieldValue::I64(n) ==> value@ == FieldText::I64(n),
        value matches FieldValue::Bool(b) ==> value@ == FieldText::Bool(b),
        value matches FieldValue::StringList(list) ==> value@ == FieldText::List(
            text::texts(list@),
        ),
{
}

} // verus!
