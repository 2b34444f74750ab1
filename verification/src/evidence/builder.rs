//! Building canonical events.

use vstd::prelude::*;

use crate::evidence::bounds;
use crate::evidence::bounds::{bound_string, bound_strings, redact_and_bound};
use crate::evidence::error::EvidenceError;
use crate::evidence::event;
use crate::evidence::event::{
    ActorIdentity, FalseEvent, FieldValue, OTelMapping, ResourceAttrs, Severity, ZoneIdentity,
    BACKEND_LINUX_EBPF,
};
use crate::evidence::event_name;
use crate::evidence::narrative;
use crate::evidence::narrative::{default_severity, narrative_for};
use crate::ordered;
use crate::ordered::OrderedMap;
use crate::text;

verus! {

/// Whether a text is such as a time in UTC, to the millisecond, is written: ASCII,
/// with room for a date and a time, and a `Z` at its end.
pub open spec fn stamped(ts: Seq<char>) -> bool {
    vstd::utf8::is_ascii_chars(ts) && ts.len() >= 24 && ts.last() == 'Z'
}

/// `chrono::DateTime::<Utc>::from` the system's clock, and `to_rfc3339_opts` with
/// milliseconds and `Z`. Which time it is is not stated; the text is ASCII, ends in
/// `Z`, and has room for a date and a time to the millisecond.
#[verifier::external_body]
fn now_rfc3339() -> (res: String)
    ensures
        stamped(res@),
{
    chrono::DateTime::<chrono::Utc>::from(std::time::SystemTime::now())
        .to_rfc3339_opts(chrono::SecondsFormat::Millis, true)
}

/// Gathers what an event says.
pub struct FalseEventBuilder {
    event: Option<String>,
    level: Option<Severity>,
    zone: Option<ZoneIdentity>,
    actor: Option<ActorIdentity>,
    resource: Option<String>,
    resource_attributes: Option<ResourceAttrs>,
    trace_id: Option<String>,
    fields: OrderedMap<FieldValue>,
}

/// What a builder has gathered.
pub struct Draft {
    pub event: Option<Seq<char>>,
    pub level: Option<Severity>,
    pub zone: Option<event::ZoneText>,
    pub actor: Option<event::ActorText>,
    pub resource: Option<Seq<char>>,
    pub attributes: Option<event::AttrsText>,
    pub trace_id: Option<Seq<char>>,
    pub fields: Seq<(Seq<char>, event::FieldText)>,
}

/// What a builder has gathered before anything was said.
pub open spec fn blank() -> Draft {
    Draft {
        event: None,
        level: None,
        zone: None,
        actor: None,
        resource: None,
        attributes: None,
        trace_id: None,
        fields: Seq::empty(),
    }
}

impl View for FalseEventBuilder {
    type V = Draft;

    closed spec fn view(&self) -> Draft {
        Draft {
            event: text::text_in(self.event),
            level: self.level,
            zone: match self.zone {
                Some(z) => Some(z@),
                None => None,
            },
            actor: event::actor_in(self.actor),
            resource: text::text_in(self.resource),
            attributes: match self.resource_attributes {
                Some(a) => Some(a@),
                None => None,
            },
            trace_id: text::text_in(self.trace_id),
            fields: event::field_texts(self.fields@),
        }
    }
}

/// Whether a text is no longer than a cut one can be.
pub open spec fn within(s: Seq<char>) -> bool {
    s.len() <= bounds::MAX_FIELD_CHARS + 14
}

/// Whether a field's texts are no longer than cut ones can be.
pub open spec fn field_within(value: event::FieldText) -> bool {
    match value {
        event::FieldText::Text(s) => within(s),
        event::FieldText::List(list) => forall|i: int|
            0 <= i < list.len() ==> within(#[trigger] list[i]),
        _ => true,
    }
}

/// Whether all fields are such.
pub open spec fn fields_within(fields: Seq<(Seq<char>, event::FieldText)>) -> bool {
    forall|i: int| 0 <= i < fields.len() ==> field_within((#[trigger] fields[i]).1)
}

/// Whether an actor's texts are no longer than cut ones can be.
pub open spec fn actor_within(actor: event::ActorText) -> bool {
    within(actor.id) && forall|i: int|
        0 <= i < actor.delegation.len() ==> within(#[trigger] actor.delegation[i])
}

/// Whether what was acted on is told without a secret, and briefly.
pub open spec fn resource_clean(resource: Option<Seq<char>>) -> bool {
    resource matches Some(r) ==> !bounds::sensitive(r) && within(r)
}

/// Whether what has been gathered is brief, and what was acted on is told without
/// a secret.
pub open spec fn tidy(draft: Draft) -> bool {
    &&& resource_clean(draft.resource)
    &&& draft.zone matches Some(zone) ==> (zone.name matches Some(name) ==> within(name))
    &&& draft.actor matches Some(actor) ==> actor_within(actor)
    &&& draft.trace_id matches Some(id) ==> within(id)
    &&& fields_within(draft.fields)
}

/// Whether an event is brief, and tells what was acted on without a secret.
pub open spec fn tidy_event(e: event::EventText) -> bool {
    &&& resource_clean(e.resource)
    &&& e.zone.name matches Some(name) ==> within(name)
    &&& e.actor matches Some(actor) ==> actor_within(actor)
    &&& e.trace_id matches Some(id) ==> within(id)
    &&& fields_within(e.fields)
}

proof fn lemma_bound_all_within(list: Seq<Seq<char>>)
    ensures
        forall|i: int| 0 <= i < list.len() ==> within(#[trigger] bounds::bound_all(list)[i]),
{
    assert forall|i: int| 0 <= i < list.len() implies within(
        #[trigger] bounds::bound_all(list)[i],
    ) by {
        bounds::law_bound_is_bounded(list[i]);
    }
}

/// Fields stay brief when a brief value is put among them.
proof fn lemma_put_within(
    fields: Seq<(Seq<char>, event::FieldText)>,
    key: Seq<char>,
    value: event::FieldText,
)
    requires
        fields_within(fields),
        field_within(value),
    ensures
        fields_within(ordered::put(fields, key, value)),
    decreases fields.len(),
{
    if fields.len() > 0 {
        let rest = fields.skip(1);
        assert forall|i: int| 0 <= i < rest.len() implies field_within(
            (#[trigger] rest[i]).1,
        ) by {
            assert(rest[i] == fields[i + 1]);
        }
        lemma_put_within(rest, key, value);
        let after = ordered::put(fields, key, value);
        let deeper = ordered::put(rest, key, value);
        assert forall|i: int| 0 <= i < after.len() implies field_within(
            (#[trigger] after[i]).1,
        ) by {
            if fields[0].0 == key {
                if i > 0 {
                    assert(after[i] == rest[i - 1]);
                }
            } else if text::precedes(key, fields[0].0) {
                if i > 0 {
                    assert(after[i] == fields[i - 1]);
                }
            } else if i > 0 {
                assert(after[i] == deeper[i - 1]);
            } else {
                assert(after[0] == fields[0]);
            }
        }
    }
}

proof fn lemma_bounded_field(value: event::FieldText)
    ensures
        field_within(event::bounded_field(value)),
{
    match value {
        event::FieldText::Text(s) => {
            bounds::law_bound_is_bounded(s);
        },
        event::FieldText::List(list) => {
            lemma_bound_all_within(list);
        },
        _ => {},
    }
}

/// The attributes of a backend on a host, and nothing else.
pub open spec fn plain_attributes(backend: Seq<char>, host: Option<Seq<char>>) -> event::AttrsText {
    event::AttrsText { backend, host, node: None, container_id: None, kernel_version: None }
}

/// The names of the resource attributes in an OpenTelemetry record.
pub open spec fn otel_attributes() -> Seq<Seq<char>> {
    seq![
        "service.name=rauhad"@,
        "backend"@,
        "host"@,
        "node"@,
        "container.id"@,
        "kernel.version"@,
    ]
}

/// The event of a name, with what a builder has gathered, at a time. Its backend
/// is that of its attributes, its narrative that of its name; its OpenTelemetry
/// record has the name for a body and the fields' names for attributes.
pub open spec fn event_at(
    ts: Seq<char>,
    name: Seq<char>,
    level: Severity,
    zone: event::ZoneText,
    attributes: event::AttrsText,
    draft: Draft,
) -> event::EventText {
    event::EventText {
        ts,
        level,
        event: name,
        zone,
        actor: draft.actor,
        resource: draft.resource,
        backend: attributes.backend,
        trace_id: draft.trace_id,
        narrative: narrative::narrative(name),
        attributes,
        fields: draft.fields,
        otel: event::OTelText {
            log_body: name,
            severity_text: level.text(),
            resource_attributes: otel_attributes(),
            event_attributes: ordered::keys_of(draft.fields),
        },
    }
}

/// The event that a builder gives at a time, or what it lacks. Where no severity
/// was said it is the name's usual one; where no attributes were, they are those of
/// the eBPF backend on the host.
pub open spec fn built(draft: Draft, host: Option<Seq<char>>, ts: Seq<char>) -> Result<
    event::EventText,
    Seq<char>,
> {
    match (draft.event, draft.zone) {
        (None, _) => Err("event"@),
        (_, None) => Err("zone"@),
        (Some(name), Some(zone)) => Ok(
            event_at(
                ts,
                name,
                match draft.level {
                    Some(level) => level,
                    None => narrative::usual_severity(name),
                },
                zone,
                match draft.attributes {
                    Some(attributes) => attributes,
                    None => plain_attributes(BACKEND_LINUX_EBPF@, host),
                },
                draft,
            ),
        ),
    }
}

fn otel_resource_attributes() -> (res: Vec<String>)
    ensures
        text::texts(res@) == otel_attributes(),
{
    let mut out: Vec<String> = Vec::new();
    out.push("service.name=rauhad".to_owned());
    out.push("backend".to_owned());
    out.push("host".to_owned());
    out.push("node".to_owned());
    out.push("container.id".to_owned());
    out.push("kernel.version".to_owned());
    assert(text::texts(out@) == otel_attributes());
    out
}

impl Default for FalseEventBuilder {
    fn default() -> (res: Self)
        ensures
            res@ == blank(),
    {
        let fields: OrderedMap<FieldValue> = OrderedMap::new();
        assert(event::field_texts(fields@) == Seq::<(Seq<char>, event::FieldText)>::empty());
        FalseEventBuilder {
            event: None,
            level: None,
            zone: None,
            actor: None,
            resource: None,
            resource_attributes: None,
            trace_id: None,
            fields,
        }
    }
}

impl FalseEventBuilder {
    #[verifier::type_invariant]
    spec fn kept_tidy(self) -> bool {
        tidy(self@)
    }

    /// Starts an event of this name.
    pub fn new(event: &str) -> (res: Self)
        ensures
            res@ == (Draft { event: Some(event@), ..blank() }),
    {
        let mut builder = FalseEventBuilder::default();
        builder.event = Some(event.to_owned());
        builder
    }

    /// Says how grave the event is.
    pub fn level(self, level: Severity) -> (res: Self)
        ensures
            res@ == (Draft { level: Some(level), ..self@ }),
    {
        proof {
            use_type_invariant(&self);
        }
        let mut builder = self;
        builder.level = Some(level);
        builder
    }

    /// Says which zone the event is about.
    pub fn zone(self, id: &str, name: Option<String>) -> (res: Self)
        ensures
            res@ == (Draft {
                zone: Some(
                    event::ZoneText {
                        id: id@,
                        name: match name {
                            Some(s) => Some(bounds::bound(s@)),
                            None => None,
                        },
                    },
                ),
                ..self@
            }),
    {
        proof {
            use_type_invariant(&self);
        }
        let name = match name {
            Some(s) => {
                proof {
                    bounds::law_bound_is_bounded(s@);
                }
                Some(bound_string(s.as_str()))
            },
            None => None,
        };
        let mut builder = self;
        builder.zone = Some(ZoneIdentity { id: id.to_owned(), name });
        builder
    }

    /// Says who acted, and on whose behalf.
    pub fn actor(self, id: &str, delegation: Vec<String>) -> (res: Self)
        ensures
            res@ == (Draft {
                actor: Some(
                    event::ActorText {
                        id: bounds::bound(id@),
                        delegation: bounds::bound_all(text::texts(delegation@)),
                    },
                ),
                ..self@
            }),
    {
        proof {
            use_type_invariant(&self);
        }
        proof {
            bounds::law_bound_is_bounded(id@);
            lemma_bound_all_within(text::texts(delegation@));
        }
        let mut builder = self;
        builder.actor = Some(
            ActorIdentity { id: bound_string(id), delegation: bound_strings(&delegation) },
        );
        builder
    }

    /// Says what was acted on. A text that speaks of a secret is replaced.
    pub fn resource(self, resource: &str) -> (res: Self)
        ensures
            res@ == (Draft { resource: Some(bounds::redact(resource@)), ..self@ }),
    {
        proof {
            use_type_invariant(&self);
        }
        proof {
            bounds::law_redacted_is_clean(resource@);
        }
        let mut builder = self;
        builder.resource = Some(redact_and_bound(resource));
        builder
    }

    /// Says where the event comes from.
    pub fn resource_attributes(self, attrs: ResourceAttrs) -> (res: Self)
        ensures
            res@ == (Draft { attributes: Some(attrs@), ..self@ }),
    {
        proof {
            use_type_invariant(&self);
        }
        let mut builder = self;
        builder.resource_attributes = Some(attrs);
        builder
    }

    /// Says which trace the event belongs to.
    pub fn trace_id(self, trace_id: &str) -> (res: Self)
        ensures
            res@ == (Draft { trace_id: Some(bounds::bound(trace_id@)), ..self@ }),
    {
        proof {
            use_type_invariant(&self);
        }
        proof {
            bounds::law_bound_is_bounded(trace_id@);
        }
        let mut builder = self;
        builder.trace_id = Some(bound_string(trace_id));
        builder
    }

    /// Gives a field a value, in place of the one that it had.
    pub fn field(self, key: &str, value: FieldValue) -> (res: Self)
        ensures
            res@ == (Draft {
                fields: ordered::put(self@.fields, key@, event::bounded_field(value@)),
                ..self@
            }),
    {
        proof {
            use_type_invariant(&self);
        }
        let bounded = value.bounded();
        proof {
            ordered::lemma_put_reads(self.fields@, key@, bounded, event::reading());
            lemma_bounded_field(value@);
            lemma_put_within(self@.fields, key@, bounded@);
        }
        let mut fields = self.fields;
        fields.insert(key.to_owned(), bounded);
        FalseEventBuilder {
            event: self.event,
            level: self.level,
            zone: self.zone,
            actor: self.actor,
            resource: self.resource,
            resource_attributes: self.resource_attributes,
            trace_id: self.trace_id,
            fields,
        }
    }

    /// The event at a time; `host` is the machine's name, where it has one.
    pub fn build_at(self, host: Option<String>, ts: String) -> (res: Result<
        FalseEvent,
        EvidenceError,
    >)
        ensures
            match (res, built(self@, text::text_in(host), ts@)) {
                (Ok(e), Ok(said)) => e@ == said && tidy_event(e@),
                (Err(e), Err(field)) => e matches EvidenceError::MissingField(f) && f@ == field,
                _ => false,
            },
    {
        proof {
            use_type_invariant(&self);
        }
        let ghost draft = self@;
        let name = match self.event {
            Some(name) => name,
            None => {
                return Err(EvidenceError::MissingField("event"));
            },
        };
        let zone = match self.zone {
            Some(zone) => zone,
            None => {
                return Err(EvidenceError::MissingField("zone"));
            },
        };
        let level = match self.level {
            Some(level) => level,
            None => default_severity(name.as_str()),
        };
        let attributes = match self.resource_attributes {
            Some(attributes) => attributes,
            None => ResourceAttrs::new(BACKEND_LINUX_EBPF, host),
        };
        let told = narrative_for(name.as_str());
        let field_keys = self.fields.keys();
        proof {
            assert(ordered::keys_of(draft.fields) == ordered::keys_of(self.fields@));
        }
        Ok(
            FalseEvent {
                ts,
                level,
                event: name.clone(),
                zone,
                actor: self.actor,
                resource: self.resource,
                backend: attributes.backend.clone(),
                trace_id: self.trace_id,
                what_failed: told.what_failed,
                why_it_matters: told.why_it_matters,
                possible_causes: told.possible_causes,
                resource_attributes: attributes,
                fields: self.fields,
                otel: OTelMapping {
                    log_body: name,
                    severity_text: level.as_str().to_owned(),
                    resource_attributes: otel_resource_attributes(),
                    event_attributes: field_keys,
                },
            },
        )
    }

    /// The event, now; `host` is the machine's name, where it has one.
    pub fn build(self, host: Option<String>) -> (res: Result<FalseEvent, EvidenceError>)
        ensures
            match res {
                Ok(e) => built(self@, text::text_in(host), e.ts@) == Ok::<
                    event::EventText,
                    Seq<char>,
                >(e@) && tidy_event(e@) && stamped(e.ts@),
                Err(e) => e matches EvidenceError::MissingField(f) && built(
                    self@,
                    text::text_in(host),
                    Seq::empty(),
                ) == Err::<event::EventText, Seq<char>>(f@),
            },
    {
        let ts = now_rfc3339();
        self.build_at(host, ts)
    }
}

/// The draft of an event that tells that evidence was shed.
pub open spec fn shed_draft(reason: Seq<char>, backend: Seq<char>, host: Option<Seq<char>>) -> Draft {
    Draft {
        event: Some(event_name::PIPELINE_SHED@),
        level: Some(Severity::Warn),
        zone: Some(event::ZoneText { id: "zone-unknown"@, name: None }),
        attributes: Some(plain_attributes(backend, host)),
        fields: seq![("reason"@, event::FieldText::Text(bounds::bound(reason)))],
        ..blank()
    }
}

/// The event that tells that evidence was shed, and why, at a time. It is always
/// there to be told: nothing that it needs can be missing.
pub fn pipeline_shed_event_at(
    reason: &str,
    backend: &str,
    host: Option<String>,
    ts: String,
) -> (res: FalseEvent)
    ensures
        built(shed_draft(reason@, backend@, text::text_in(host)), None, ts@) == Ok::<
            event::EventText,
            Seq<char>,
        >(res@),
        tidy_event(res@),
{
    proof {
        bounds::law_bound_is_bounded(reason@);
    }
    let bounded = bound_string(reason);
    let attributes = ResourceAttrs::new(backend, host);
    let told = narrative_for(event_name::PIPELINE_SHED);
    let mut fields: OrderedMap<FieldValue> = OrderedMap::new();
    let value = FieldValue::String(bounded);
    fields.insert("reason".to_owned(), value);
    let mut event_attributes: Vec<String> = Vec::new();
    event_attributes.push("reason".to_owned());
    proof {
        let said = event::field_texts(fields@);
        assert(said == seq![("reason"@, event::FieldText::Text(bounds::bound(reason@)))]);
        assert(ordered::keys_of(said) == seq!["reason"@]);
        assert(text::texts(event_attributes@) == seq!["reason"@]);
    }
    FalseEvent {
        ts,
        level: Severity::Warn,
        event: event_name::PIPELINE_SHED.to_owned(),
        zone: ZoneIdentity { id: "zone-unknown".to_owned(), name: None },
        actor: None,
        resource: None,
        backend: attributes.backend.clone(),
        trace_id: None,
        what_failed: told.what_failed,
        why_it_matters: told.why_it_matters,
        possible_causes: told.possible_causes,
        resource_attributes: attributes,
        fields,
        otel: OTelMapping {
            log_body: event_name::PIPELINE_SHED.to_owned(),
            severity_text: Severity::Warn.as_str().to_owned(),
            resource_attributes: otel_resource_attributes(),
            event_attributes,
        },
    }
}

/// The event that tells that evidence was shed, and why, now.
pub fn pipeline_shed_event(reason: &str, backend: &str, host: Option<String>) -> (res: FalseEvent)
    ensures
        built(shed_draft(reason@, backend@, text::text_in(host)), None, res.ts@) == Ok::<
            event::EventText,
            Seq<char>,
        >(res@),
        tidy_event(res@),
        stamped(res.ts@),
{
    let ts = now_rfc3339();
    pipeline_shed_event_at(reason, backend, host, ts)
}

/// An event is built exactly where a name and a zone were said.
pub proof fn law_name_and_zone_suffice(draft: Draft, host: Option<Seq<char>>, ts: Seq<char>)
    ensures
        built(draft, host, ts) is Ok <==> draft.event is Some && draft.zone is Some,
{
}

/// What an event says twice it says alike: its backend, its name, its severity,
/// and the names of its fields.
pub proof fn law_event_agrees_with_itself(
    draft: Draft,
    host: Option<Seq<char>>,
    ts: Seq<char>,
    e: event::EventText,
)
    requires
        built(draft, host, ts) == Ok::<event::EventText, Seq<char>>(e),
    ensures
        e.backend == e.attributes.backend,
        e.otel.log_body == e.event,
        e.otel.severity_text == e.level.text(),
        e.otel.event_attributes == ordered::keys_of(e.fields),
        e.narrative == narrative::narrative(e.event),
{
}

/// An event says what was gathered for it: the name, the zone, who acted, what was acted on, the
/// trace and the fields are those that were said, at the time that is given. How grave it is and
/// where it comes from are what was said of them, and else the usual.
pub proof fn law_event_says_what_was_gathered(
    draft: Draft,
    host: Option<Seq<char>>,
    ts: Seq<char>,
    e: event::EventText,
)
    requires
        built(draft, host, ts) == Ok::<event::EventText, Seq<char>>(e),
    ensures
        e.ts == ts,
        draft.event == Some(e.event),
        draft.zone == Some(e.zone),
        e.actor == draft.actor,
        e.resource == draft.resource,
        e.trace_id == draft.trace_id,
        e.fields == draft.fields,
        draft.level matches Some(level) ==> e.level == level,
        draft.level is None ==> e.level == narrative::usual_severity(e.event),
        draft.attributes matches Some(attributes) ==> e.attributes == attributes,
        draft.attributes is None ==> e.attributes.backend == "linux-ebpf"@ && e.attributes.host
            == host && e.attributes.node is None && e.attributes.container_id is None
            && e.attributes.kernel_version is None,
        e.otel.resource_attributes == seq![
            "service.name=rauhad"@,
            "backend"@,
            "host"@,
            "node"@,
            "container.id"@,
            "kernel.version"@,
        ],
{
}

/// A builder that lacks a name is told so before one that lacks a zone.
pub proof fn law_what_is_missing_is_named(draft: Draft, host: Option<Seq<char>>, ts: Seq<char>)
    ensures
        draft.event is None ==> built(draft, host, ts) == Err::<event::EventText, Seq<char>>(
            "event"@,
        ),
        draft.event is Some && draft.zone is None ==> built(draft, host, ts) == Err::<
            event::EventText,
            Seq<char>,
        >("zone"@),
{
}

/// The event that tells that evidence was shed is a warning of no zone that says why, and which
/// backend and host it comes from.
pub proof fn law_shed_event_says_why(
    reason: Seq<char>,
    backend: Seq<char>,
    host: Option<Seq<char>>,
    ts: Seq<char>,
    e: event::EventText,
)
    requires
        built(shed_draft(reason, backend, host), None, ts) == Ok::<event::EventText, Seq<char>>(e),
    ensures
        e.ts == ts,
        e.event == "pipeline.shed"@,
        e.level is Warn,
        e.zone.id == "zone-unknown"@,
        e.zone.name is None,
        e.actor is None,
        e.resource is None,
        e.trace_id is None,
        e.backend == backend,
        e.attributes.host == host,
        e.fields.len() == 1,
        ordered::lookup(e.fields, "reason"@) == Some(
            event::FieldText::Text(bounds::bound(reason)),
        ),
{
    ordered::lemma_first_is_looked_up(e.fields, 0);
}

} // verus!
