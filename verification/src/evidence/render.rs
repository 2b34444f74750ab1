//! One event, three renderings: JSON for machines, a short and a long form for
//! people; and the record that it leaves in the daemon's own log.

use vstd::prelude::*;
use vstd::string::StringExecFns;

use crate::evidence::error::EvidenceError;
use crate::evidence::event;
use crate::evidence::event::{display_field, FalseEvent, FieldValue, Severity};
use crate::json;
use crate::json::{json_member, json_object, json_string, json_string_array};
use crate::number;
use crate::number::{decimal_of, signed_decimal_of};
use crate::ordered::OrderedMap;
use crate::text;
use crate::text::{join, padded_right};

verus! {

broadcast use {
    vstd::utf8::encode_utf8_valid_utf8,
    vstd::utf8::encode_utf8_decode_utf8,
    vstd::utf8::is_char_boundary_iff_not_is_continuation_byte,
    vstd::utf8::is_char_boundary_start_end_of_seq,
};

/// The time of day in an RFC 3339 time: its bytes 11 to 18. All of the text where
/// it has no characters there.
pub open spec fn clock(ts: Seq<char>) -> Seq<char> {
    let bytes = vstd::utf8::encode_utf8(ts);
    if vstd::utf8::is_char_boundary(bytes, 11) && vstd::utf8::is_char_boundary(bytes, 19) {
        vstd::utf8::decode_utf8(bytes.subrange(11, 19))
    } else {
        ts
    }
}

/// The time of day in an RFC 3339 time.
fn time_of_day(ts: &str) -> (res: &str)
    ensures
        res@ == clock(ts@),
{
    if !ts.is_char_boundary(11) || !ts.is_char_boundary(19) {
        return ts;
    }
    let ghost bytes = vstd::utf8::encode_utf8(ts@);
    proof {
        lemma_boundary_in_range(bytes, 11);
        lemma_boundary_in_range(bytes, 19);
    }
    let (_, rest) = ts.split_at(11);
    let ghost tail = vstd::utf8::encode_utf8(rest@);
    proof {
        assert(vstd::utf8::valid_utf8(tail));
        if bytes.len() > 19 {
            assert(tail[8] == bytes[19]);
            assert(!vstd::utf8::is_continuation_byte(bytes[19]));
            assert(vstd::utf8::is_char_boundary(tail, 8));
        } else {
            assert(tail.len() == 8);
            assert(vstd::utf8::is_char_boundary(tail, tail.len() as int));
        }
    }
    let (time, _) = rest.split_at(8);
    assert(vstd::utf8::encode_utf8(time@) == bytes.subrange(11, 19));
    time
}

/// A boundary between characters is within the text.
proof fn lemma_boundary_in_range(bytes: Seq<u8>, index: int)
    requires
        vstd::utf8::valid_utf8(bytes),
        vstd::utf8::is_char_boundary(bytes, index),
        index > 0,
    ensures
        index <= bytes.len(),
{
}

/// The time of day in a time that is written in ASCII: its characters 11 to 18.
pub proof fn law_clock_of_ascii(ts: Seq<char>)
    requires
        ts.len() >= 19,
        vstd::utf8::is_ascii_chars(ts),
    ensures
        clock(ts) == ts.subrange(11, 19),
{
    let bytes = vstd::utf8::encode_utf8(ts);
    lemma_ascii_bytes(ts);
    lemma_plain_boundary(bytes, 11);
    lemma_plain_boundary(bytes, 19);
    let part = ts.subrange(11, 19);
    lemma_ascii_bytes(part);
    assert(vstd::utf8::encode_utf8(part) == bytes.subrange(11, 19));
}

/// ASCII text is a byte for each character.
proof fn lemma_ascii_bytes(s: Seq<char>)
    requires
        vstd::utf8::is_ascii_chars(s),
    ensures
        vstd::utf8::encode_utf8(s) == Seq::new(s.len(), |i: int| s[i] as u8),
{
    vstd::utf8::is_ascii_chars_encode_utf8(s);
    assert(vstd::utf8::encode_utf8(s) =~= Seq::new(s.len(), |i: int| s[i] as u8));
}

/// Every place in valid text that no continuation byte stands at is a boundary.
proof fn lemma_plain_boundary(bytes: Seq<u8>, index: int)
    requires
        vstd::utf8::valid_utf8(bytes),
        0 <= index <= bytes.len(),
        forall|i: int| 0 <= i < bytes.len() ==> #[trigger] bytes[i] < 128,
    ensures
        vstd::utf8::is_char_boundary(bytes, index),
{
    if index < bytes.len() {
        let b = bytes[index];
        assert(b < 128);
        assert(b < 128 ==> !(0x80 <= b <= 0xBF));
        assert(!vstd::utf8::is_continuation_byte(b)) by {
            assert(b < 128 ==> b & 0xC0 != 0x80) by (bit_vector);
        }
    }
}

/// The short form: the time, how grave the event is and its name in columns, who
/// did what to what, and on the next line what failed and why that matters.
pub open spec fn compact(e: event::EventText) -> Seq<char> {
    clock(e.ts) + "  "@ + text::pad_right(e.level.text(), 5) + "  "@ + text::pad_right(e.event, 26)
        + " "@ + e.zone.id + "/"@ + (match e.actor {
        Some(actor) => actor.id,
        None => "unknown-actor"@,
    }) + " -> "@ + (match e.resource {
        Some(resource) => resource,
        None => "-"@,
    }) + "\n                "@ + e.narrative.what_failed + " · "@ + e.narrative.why_it_matters
}

/// The lines of the long form that tell who acted, and on whose behalf.
pub open spec fn actor_lines(actor: Option<event::ActorText>) -> Seq<char> {
    match actor {
        None => Seq::empty(),
        Some(actor) => "  actor         "@ + actor.id + "\n"@ + (if actor.delegation.len() > 0 {
            "  delegation    "@ + text::joined(actor.delegation, " -> "@) + "\n"@
        } else {
            Seq::empty()
        }),
    }
}

/// The line of the long form that tells what was acted on, and by which backend
/// that is known.
pub open spec fn resource_line(resource: Option<Seq<char>>, backend: Seq<char>) -> Seq<char> {
    match resource {
        Some(resource) => "  resource      "@ + resource + "   backend  "@ + backend + "\n"@,
        None => "  backend       "@ + backend + "\n"@,
    }
}

/// The lines of the long form that tell the fields, one each.
pub open spec fn field_lines(fields: Seq<(Seq<char>, event::FieldText)>) -> Seq<char>
    decreases fields.len(),
{
    if fields.len() == 0 {
        Seq::empty()
    } else {
        field_lines(fields.drop_last()) + "  "@ + text::pad_right(fields.last().0, 13) + " "@
            + event::shown_field(fields.last().1) + "\n"@
    }
}

/// The long form.
pub open spec fn expanded(e: event::EventText) -> Seq<char> {
    clock(e.ts) + "  "@ + e.level.text() + "  "@ + e.event + "\n"@ + "  zone          "@ + e.zone.id
        + "\n"@ + actor_lines(e.actor) + resource_line(e.resource, e.backend) + "  why           "@
        + e.narrative.why_it_matters + "\n"@ + field_lines(e.fields)
}

/// A member for a text that may be there, or none.
pub open spec fn text_member(key: Seq<char>, value: Option<Seq<char>>) -> Seq<Seq<char>> {
    match value {
        Some(s) => seq![json::member(key, json::quoted(s))],
        None => Seq::empty(),
    }
}

/// A field's value in JSON.
pub open spec fn field_json(value: event::FieldText) -> Seq<char> {
    match value {
        event::FieldText::Text(s) => json::quoted(s),
        event::FieldText::U64(n) => number::decimal(n as nat),
        event::FieldText::I64(n) => number::signed_decimal(n as int),
        event::FieldText::Bool(b) => if b {
            "true"@
        } else {
            "false"@
        },
        event::FieldText::List(list) => json::string_array(list),
    }
}

/// The zone in JSON.
pub open spec fn zone_json(zone: event::ZoneText) -> Seq<char> {
    json::object(
        seq![json::member("id"@, json::quoted(zone.id))] + text_member("name"@, zone.name),
    )
}

/// The actor in JSON, without an empty delegation.
pub open spec fn actor_json(actor: event::ActorText) -> Seq<char> {
    json::object(
        seq![json::member("id"@, json::quoted(actor.id))] + (if actor.delegation.len() > 0 {
            seq![json::member("delegation"@, json::string_array(actor.delegation))]
        } else {
            Seq::empty()
        }),
    )
}

/// The attributes in JSON, those that are there.
pub open spec fn attributes_json(a: event::AttrsText) -> Seq<char> {
    json::object(
        seq![json::member("backend"@, json::quoted(a.backend))] + text_member("host"@, a.host)
            + text_member("node"@, a.node) + text_member("container_id"@, a.container_id)
            + text_member("kernel_version"@, a.kernel_version),
    )
}

/// The fields in JSON.
pub open spec fn fields_json(fields: Seq<(Seq<char>, event::FieldText)>) -> Seq<char> {
    json::object(
        fields.map_values(|f: (Seq<char>, event::FieldText)| json::member(f.0, field_json(f.1))),
    )
}

/// The OpenTelemetry mapping in JSON.
pub open spec fn otel_json(otel: event::OTelText) -> Seq<char> {
    json::object(
        seq![
            json::member("log_body"@, json::quoted(otel.log_body)),
            json::member("severity_text"@, json::quoted(otel.severity_text)),
            json::member("resource_attributes"@, json::string_array(otel.resource_attributes)),
            json::member("event_attributes"@, json::string_array(otel.event_attributes)),
        ],
    )
}

/// The members of an event in JSON, in the order of the schema, without those that
/// have nothing to say.
pub open spec fn members(e: event::EventText) -> Seq<Seq<char>> {
    seq![
        json::member("ts"@, json::quoted(e.ts)),
        json::member("level"@, json::quoted(e.level.text())),
        json::member("event"@, json::quoted(e.event)),
        json::member("zone"@, zone_json(e.zone)),
    ] + (match e.actor {
        Some(actor) => seq![json::member("actor"@, actor_json(actor))],
        None => Seq::empty(),
    }) + text_member("resource"@, e.resource) + seq![
        json::member("backend"@, json::quoted(e.backend)),
    ] + text_member("trace_id"@, e.trace_id) + seq![
        json::member("what_failed"@, json::quoted(e.narrative.what_failed)),
        json::member("why_it_matters"@, json::quoted(e.narrative.why_it_matters)),
        json::member("possible_causes"@, json::string_array(e.narrative.possible_causes)),
        json::member("resource_attributes"@, attributes_json(e.attributes)),
    ] + (if e.fields.len() > 0 {
        seq![json::member("fields"@, fields_json(e.fields))]
    } else {
        Seq::empty()
    }) + seq![json::member("otel"@, otel_json(e.otel))]
}

/// An event in JSON.
pub open spec fn event_json(e: event::EventText) -> Seq<char> {
    json::object(members(e))
}

fn push_text(out: &mut Vec<String>, s: String)
    ensures
        text::texts(final(out)@) == text::texts(old(out)@).push(s@),
{
    let ghost had = out@;
    out.push(s);
    assert(text::texts(out@) == text::texts(had).push(s@));
}

fn push_quoted(out: &mut Vec<String>, key: &str, value: &str)
    ensures
        text::texts(final(out)@) == text::texts(old(out)@).push(
            json::member(key@, json::quoted(value@)),
        ),
{
    push_text(out, json_member(key, json_string(value).as_str()));
}

fn push_optional(out: &mut Vec<String>, key: &str, value: &Option<String>)
    ensures
        text::texts(final(out)@) == text::texts(old(out)@) + text_member(
            key@,
            text::text_in(*value),
        ),
{
    match value {
        Some(s) => {
            push_quoted(out, key, s.as_str());
            assert(text::texts(out@) == text::texts(old(out)@) + text_member(
                key@,
                text::text_in(*value),
            ));
        },
        None => {
            assert(text::texts(out@) == text::texts(old(out)@) + text_member(
                key@,
                text::text_in(*value),
            ));
        },
    }
}

fn field_to_json(value: &FieldValue) -> (res: String)
    ensures
        res@ == field_json(value@),
{
    match value {
        FieldValue::String(s) => json_string(s.as_str()),
        FieldValue::U64(n) => decimal_of(*n),
        FieldValue::I64(n) => signed_decimal_of(*n),
        FieldValue::Bool(b) => if *b {
            "true".to_owned()
        } else {
            "false".to_owned()
        },
        FieldValue::StringList(list) => json_string_array(list),
    }
}

fn fields_to_json(fields: &OrderedMap<FieldValue>) -> (res: String)
    ensures
        res@ == fields_json(event::field_texts(fields@)),
{
    let ghost all = event::field_texts(fields@).map_values(
        |f: (Seq<char>, event::FieldText)| json::member(f.0, field_json(f.1)),
    );
    let mut parts: Vec<String> = Vec::new();
    let mut i: usize = 0;
    while i < fields.len()
        invariant
            i <= fields@.len(),
            all == event::field_texts(fields@).map_values(
                |f: (Seq<char>, event::FieldText)| json::member(f.0, field_json(f.1)),
            ),
            text::texts(parts@) == all.take(i as int),
        decreases fields@.len() - i,
    {
        let value = field_to_json(fields.value_at(i));
        let key = fields.key_at(i);
        let ghost had = text::texts(parts@);
        push_text(&mut parts, json_member(key.as_str(), value.as_str()));
        assert(all[i as int] == json::member(key@, value@));
        assert(all.take(i + 1) == had.push(all[i as int]));
        i = i + 1;
    }
    assert(all.take(all.len() as int) == all);
    json_object(&parts)
}

fn append_field_lines(out: &mut String, fields: &OrderedMap<FieldValue>)
    ensures
        final(out)@ == old(out)@ + field_lines(event::field_texts(fields@)),
{
    let ghost all = event::field_texts(fields@);
    let ghost start = out@;
    let mut i: usize = 0;
    assert(all.take(0) == Seq::<(Seq<char>, event::FieldText)>::empty());
    while i < fields.len()
        invariant
            i <= fields@.len(),
            all == event::field_texts(fields@),
            out@ == start + field_lines(all.take(i as int)),
        decreases fields@.len() - i,
    {
        let key = fields.key_at(i);
        let value = display_field(fields.value_at(i));
        out.append("  ");
        out.append(padded_right(key.as_str(), 13).as_str());
        out.append(" ");
        out.append(value.as_str());
        out.append("\n");
        proof {
            let next = all.take(i + 1);
            assert(next.drop_last() == all.take(i as int));
            assert(next.last().0 == key@);
            assert(value@ == event::shown_field(next.last().1));
            assert(out@ =~= start + field_lines(next));
        }
        i = i + 1;
    }
    assert(all.take(all.len() as int) == all);
}

/// What an event leaves in the daemon's log.
#[derive(Clone, Debug, PartialEq, Eq)]
pub struct TraceRecord {
    pub level: Severity,
    pub event: String,
    pub zone_id: String,
    /// Empty where no one is known to have acted.
    pub actor_id: String,
    pub backend: String,
    pub what_failed: String,
    pub why_it_matters: String,
    /// The same for all events.
    pub message: &'static str,
}

/// Whether a record is what an event leaves in the log.
pub open spec fn traces(record: TraceRecord, e: event::EventText) -> bool {
    &&& record.level == e.level
    &&& record.event@ == e.event
    &&& record.zone_id@ == e.zone.id
    &&& record.actor_id@ == (match e.actor {
        Some(actor) => actor.id,
        None => ""@,
    })
    &&& record.backend@ == e.backend
    &&& record.what_failed@ == e.narrative.what_failed
    &&& record.why_it_matters@ == e.narrative.why_it_matters
    &&& record.message@ == "rauha.evidence"@
}

impl FalseEvent {
    /// The event in JSON.
    pub fn machine_json(&self) -> (res: Result<String, EvidenceError>)
        ensures
            res matches Ok(t) && t@ == event_json(self@),
    {
        let mut zone: Vec<String> = Vec::new();
        push_quoted(&mut zone, "id", self.zone.id.as_str());
        push_optional(&mut zone, "name", &self.zone.name);
        assert(text::texts(zone@) == seq![json::member("id"@, json::quoted(self@.zone.id))]
            + text_member("name"@, self@.zone.name));
        let mut attributes: Vec<String> = Vec::new();
        push_quoted(&mut attributes, "backend", self.resource_attributes.backend.as_str());
        assert(text::texts(attributes@) == seq![
            json::member("backend"@, json::quoted(self@.attributes.backend)),
        ]);
        push_optional(&mut attributes, "host", &self.resource_attributes.host);
        push_optional(&mut attributes, "node", &self.resource_attributes.node);
        push_optional(&mut attributes, "container_id", &self.resource_attributes.container_id);
        push_optional(&mut attributes, "kernel_version", &self.resource_attributes.kernel_version);
        let mut otel: Vec<String> = Vec::new();
        push_quoted(&mut otel, "log_body", self.otel.log_body.as_str());
        push_quoted(&mut otel, "severity_text", self.otel.severity_text.as_str());
        push_text(
            &mut otel,
            json_member(
                "resource_attributes",
                json_string_array(&self.otel.resource_attributes).as_str(),
            ),
        );
        push_text(
            &mut otel,
            json_member(
                "event_attributes",
                json_string_array(&self.otel.event_attributes).as_str(),
            ),
        );
        assert(json::object(text::texts(otel@)) == otel_json(self@.otel)) by {
            assert(text::texts(otel@) == seq![
                json::member("log_body"@, json::quoted(self@.otel.log_body)),
                json::member("severity_text"@, json::quoted(self@.otel.severity_text)),
                json::member(
                    "resource_attributes"@,
                    json::string_array(self@.otel.resource_attributes),
                ),
                json::member("event_attributes"@, json::string_array(self@.otel.event_attributes)),
            ]);
        }
        let mut all: Vec<String> = Vec::new();
        push_quoted(&mut all, "ts", self.ts.as_str());
        push_quoted(&mut all, "level", self.level.as_str());
        push_quoted(&mut all, "event", self.event.as_str());
        push_text(&mut all, json_member("zone", json_object(&zone).as_str()));
        let ghost first = seq![
            json::member("ts"@, json::quoted(self@.ts)),
            json::member("level"@, json::quoted(self@.level.text())),
            json::member("event"@, json::quoted(self@.event)),
            json::member("zone"@, zone_json(self@.zone)),
        ];
        assert(text::texts(all@) == first);
        match &self.actor {
            Some(actor) => {
                let mut parts: Vec<String> = Vec::new();
                push_quoted(&mut parts, "id", actor.id.as_str());
                if actor.delegation.len() > 0 {
                    push_text(
                        &mut parts,
                        json_member(
                            "delegation",
                            json_string_array(&actor.delegation).as_str(),
                        ),
                    );
                }
                assert(json::object(text::texts(parts@)) == actor_json(actor@)) by {
                    assert(text::texts(parts@) == seq![
                        json::member("id"@, json::quoted(actor@.id)),
                    ] + (if actor@.delegation.len() > 0 {
                        seq![
                            json::member("delegation"@, json::string_array(actor@.delegation)),
                        ]
                    } else {
                        Seq::empty()
                    }));
                }
                push_text(&mut all, json_member("actor", json_object(&parts).as_str()));
            },
            None => {},
        }
        let ghost second = first + (match self@.actor {
            Some(actor) => seq![json::member("actor"@, actor_json(actor))],
            None => Seq::empty(),
        });
        assert(text::texts(all@) == second);
        push_optional(&mut all, "resource", &self.resource);
        push_quoted(&mut all, "backend", self.backend.as_str());
        let ghost third = second + text_member("resource"@, self@.resource) + seq![
            json::member("backend"@, json::quoted(self@.backend)),
        ];
        assert(text::texts(all@) == third);
        push_optional(&mut all, "trace_id", &self.trace_id);
        push_quoted(&mut all, "what_failed", self.what_failed.as_str());
        push_quoted(&mut all, "why_it_matters", self.why_it_matters.as_str());
        push_text(
            &mut all,
            json_member("possible_causes", json_string_array(&self.possible_causes).as_str()),
        );
        push_text(&mut all, json_member("resource_attributes", json_object(&attributes).as_str()));
        let ghost fourth = third + text_member("trace_id"@, self@.trace_id) + seq![
            json::member("what_failed"@, json::quoted(self@.narrative.what_failed)),
            json::member("why_it_matters"@, json::quoted(self@.narrative.why_it_matters)),
            json::member("possible_causes"@, json::string_array(self@.narrative.possible_causes)),
            json::member("resource_attributes"@, attributes_json(self@.attributes)),
        ];
        assert(text::texts(all@) == fourth);
        if !self.fields.is_empty() {
            push_text(&mut all, json_member("fields", fields_to_json(&self.fields).as_str()));
        }
        let ghost fifth = fourth + (if self@.fields.len() > 0 {
            seq![json::member("fields"@, fields_json(self@.fields))]
        } else {
            Seq::empty()
        });
        assert(text::texts(all@) == fifth);
        push_text(&mut all, json_member("otel", json_object(&otel).as_str()));
        assert(text::texts(all@) == members(self@));
        Ok(json_object(&all))
    }

    /// The event in short, for people.
    pub fn compact_human(&self) -> (res: String)
        ensures
            res@ == compact(self@),
    {
        let mut line = time_of_day(self.ts.as_str()).to_owned();
        line.append("  ");
        line.append(padded_right(self.level.as_str(), 5).as_str());
        line.append("  ");
        line.append(padded_right(self.event.as_str(), 26).as_str());
        line.append(" ");
        line.append(self.zone.id.as_str());
        line.append("/");
        match &self.actor {
            Some(actor) => {
                line.append(actor.id.as_str());
            },
            None => {
                line.append("unknown-actor");
            },
        }
        line.append(" -> ");
        match &self.resource {
            Some(resource) => {
                line.append(resource.as_str());
            },
            None => {
                line.append("-");
            },
        }
        line.append("\n                ");
        line.append(self.what_failed.as_str());
        line.append(" · ");
        line.append(self.why_it_matters.as_str());
        line
    }

    /// The event in full, for people.
    #[verifier::spinoff_prover]
    #[verifier::rlimit(60)]
    pub fn expanded_human(&self) -> (res: String)
        ensures
            res@ == expanded(self@),
    {
        let mut out = time_of_day(self.ts.as_str()).to_owned();
        out.append("  ");
        out.append(self.level.as_str());
        out.append("  ");
        out.append(self.event.as_str());
        out.append("\n");
        out.append("  zone          ");
        out.append(self.zone.id.as_str());
        out.append("\n");
        let ghost before = out@;
        match &self.actor {
            Some(actor) => {
                out.append("  actor         ");
                out.append(actor.id.as_str());
                out.append("\n");
                if actor.delegation.len() > 0 {
                    out.append("  delegation    ");
                    out.append(join(&actor.delegation, " -> ").as_str());
                    out.append("\n");
                }
            },
            None => {},
        }
        assert(out@ == before + actor_lines(self@.actor));
        let ghost before = out@;
        match &self.resource {
            Some(resource) => {
                out.append("  resource      ");
                out.append(resource.as_str());
                out.append("   backend  ");
                out.append(self.backend.as_str());
                out.append("\n");
            },
            None => {
                out.append("  backend       ");
                out.append(self.backend.as_str());
                out.append("\n");
            },
        }
        assert(out@ == before + resource_line(self@.resource, self@.backend));
        out.append("  why           ");
        out.append(self.why_it_matters.as_str());
        out.append("\n");
        append_field_lines(&mut out, &self.fields);
        out
    }

    /// What the event leaves in the daemon's log.
    pub fn emit_tracing(&self) -> (res: TraceRecord)
        ensures
            traces(res, self@),
            res.level == self.level,
            res.event@ == self.event@,
            res.zone_id@ == self.zone.id@,
            res.actor_id@ == (match self@.actor {
                Some(actor) => actor.id,
                None => ""@,
            }),
            res.backend@ == self.backend@,
            res.what_failed@ == self.what_failed@,
            res.why_it_matters@ == self.why_it_matters@,
            res.message@ == "rauha.evidence"@,
    {
        TraceRecord {
            level: self.level,
            event: self.event.clone(),
            zone_id: self.zone.id.clone(),
            actor_id: match &self.actor {
                Some(actor) => actor.id.clone(),
                None => "".to_owned(),
            },
            backend: self.backend.clone(),
            what_failed: self.what_failed.clone(),
            why_it_matters: self.why_it_matters.clone(),
            message: "rauha.evidence",
        }
    }
}

/// A text stands in what it is put together with.
proof fn lemma_part_is_there(front: Seq<char>, part: Seq<char>, back: Seq<char>)
    ensures
        text::has_text(front + part + back, part),
{
    let whole = front + part + back;
    assert(whole.subrange(front.len() as int, front.len() as int + part.len()) == part);
}

/// What stands in a text stands in the text with more behind it.
proof fn lemma_still_there(whole: Seq<char>, more: Seq<char>, part: Seq<char>)
    requires
        text::has_text(whole, part),
    ensures
        text::has_text(whole + more, part),
{
    let at = choose|i: int|
        0 <= i <= whole.len() - part.len() && #[trigger] whole.subrange(i, i + part.len()) == part;
    assert((whole + more).subrange(at, at + part.len()) == part);
}

/// The short form tells the event's name, its zone, and why it matters.
pub proof fn law_compact_tells_what_happened(e: event::EventText)
    ensures
        text::has_text(compact(e), e.event),
        text::has_text(compact(e), e.zone.id),
        text::has_text(compact(e), e.narrative.why_it_matters),
{
    let actor = match e.actor {
        Some(actor) => actor.id,
        None => "unknown-actor"@,
    };
    let resource = match e.resource {
        Some(resource) => resource,
        None => "-"@,
    };
    let head = clock(e.ts) + "  "@ + text::pad_right(e.level.text(), 5) + "  "@;
    let named = head + text::pad_right(e.event, 26);
    assert(text::has_text(named, e.event)) by {
        let padding = text::pad_right(e.event, 26).skip(e.event.len() as int);
        assert(named == head + e.event + padding);
        lemma_part_is_there(head, e.event, padding);
    }
    let at = named + " "@;
    lemma_still_there(named, " "@, e.event);
    let zoned = at + e.zone.id;
    lemma_still_there(at, e.zone.id, e.event);
    assert(text::has_text(zoned, e.zone.id)) by {
        assert(zoned == at + e.zone.id + Seq::<char>::empty());
        lemma_part_is_there(at, e.zone.id, Seq::empty());
    }
    let line = zoned + "/"@ + actor + " -> "@ + resource + "\n                "@
        + e.narrative.what_failed + " · "@;
    assert forall|part: Seq<char>| text::has_text(zoned, part) implies text::has_text(
        line,
        part,
    ) by {
        lemma_still_there(zoned, "/"@, part);
        lemma_still_there(zoned + "/"@, actor, part);
        lemma_still_there(zoned + "/"@ + actor, " -> "@, part);
        lemma_still_there(zoned + "/"@ + actor + " -> "@, resource, part);
        lemma_still_there(
            zoned + "/"@ + actor + " -> "@ + resource,
            "\n                "@,
            part,
        );
        lemma_still_there(
            zoned + "/"@ + actor + " -> "@ + resource + "\n                "@,
            e.narrative.what_failed,
            part,
        );
        lemma_still_there(
            zoned + "/"@ + actor + " -> "@ + resource + "\n                "@
                + e.narrative.what_failed,
            " · "@,
            part,
        );
    }
    let why = e.narrative.why_it_matters;
    lemma_still_there(line, why, e.event);
    lemma_still_there(line, why, e.zone.id);
    assert(compact(e) == line + why + Seq::<char>::empty());
    lemma_part_is_there(line, why, Seq::empty());
}

/// The long form tells the event's name, its zone, and why it matters.
pub proof fn law_expanded_tells_what_happened(e: event::EventText)
    ensures
        text::has_text(expanded(e), e.event),
        text::has_text(expanded(e), e.zone.id),
        text::has_text(expanded(e), e.narrative.why_it_matters),
{
    let head = clock(e.ts) + "  "@ + e.level.text() + "  "@;
    let named = head + e.event + "\n"@;
    lemma_part_is_there(head, e.event, "\n"@);
    let at = named + "  zone          "@;
    lemma_still_there(named, "  zone          "@, e.event);
    let zoned = at + e.zone.id + "\n"@;
    lemma_still_there(at, e.zone.id, e.event);
    lemma_still_there(at + e.zone.id, "\n"@, e.event);
    lemma_part_is_there(at, e.zone.id, "\n"@);
    let acted = actor_lines(e.actor);
    let on = resource_line(e.resource, e.backend);
    let because = zoned + acted + on + "  why           "@;
    let why = e.narrative.why_it_matters;
    assert forall|part: Seq<char>| text::has_text(zoned, part) implies text::has_text(
        because + why + "\n"@,
        part,
    ) by {
        lemma_still_there(zoned, acted, part);
        lemma_still_there(zoned + acted, on, part);
        lemma_still_there(zoned + acted + on, "  why           "@, part);
        lemma_still_there(because, why, part);
        lemma_still_there(because + why, "\n"@, part);
    }
    lemma_part_is_there(because, why, "\n"@);
    let told = because + why + "\n"@;
    lemma_still_there(told, field_lines(e.fields), e.event);
    lemma_still_there(told, field_lines(e.fields), e.zone.id);
    lemma_still_there(told, field_lines(e.fields), why);
}

/// The long form tells on whose behalf an actor acted.
pub proof fn law_delegation_is_told(e: event::EventText)
    requires
        e.actor is Some,
        e.actor->Some_0.delegation.len() > 0,
    ensures
        text::has_text(
            expanded(e),
            "  delegation    "@ + text::joined(e.actor->Some_0.delegation, " -> "@),
        ),
{
    let actor = e.actor->Some_0;
    let told = "  delegation    "@ + text::joined(actor.delegation, " -> "@);
    let front = clock(e.ts) + "  "@ + e.level.text() + "  "@ + e.event + "\n"@ + "  zone          "@
        + e.zone.id + "\n"@ + "  actor         "@ + actor.id + "\n"@;
    let back = "\n"@ + resource_line(e.resource, e.backend) + "  why           "@
        + e.narrative.why_it_matters + "\n"@ + field_lines(e.fields);
    assert(expanded(e) == front + told + back);
    lemma_part_is_there(front, told, back);
}

/// Each of the texts that are joined stands in what they are joined to.
proof fn lemma_joined_has(parts: Seq<Seq<char>>, sep: Seq<char>, i: int)
    requires
        0 <= i < parts.len(),
    ensures
        text::has_text(text::joined(parts, sep), parts[i]),
    decreases parts.len(),
{
    let none = Seq::<char>::empty();
    if parts.len() == 1 {
        assert(parts[0] == none + parts[0] + none);
        lemma_part_is_there(none, parts[0], none);
    } else {
        let front = parts.drop_last();
        let before = text::joined(front, sep);
        if i < front.len() {
            lemma_joined_has(front, sep, i);
            lemma_still_there(before, sep, parts[i]);
            lemma_still_there(before + sep, parts.last(), parts[i]);
        } else {
            assert(text::joined(parts, sep) == (before + sep) + parts[i] + none);
            lemma_part_is_there(before + sep, parts[i], none);
        }
    }
}

/// The JSON of an event tells every member that the event has, its name and its
/// zone among them.
pub proof fn law_json_tells_what_happened(e: event::EventText, i: int)
    requires
        0 <= i < members(e).len(),
    ensures
        text::has_text(event_json(e), members(e)[i]),
        text::has_text(event_json(e), json::member("event"@, json::quoted(e.event))),
        text::has_text(event_json(e), json::member("zone"@, zone_json(e.zone))),
{
    let parts = members(e);
    lemma_in_object(parts, i);
    lemma_in_object(parts, 2);
    lemma_in_object(parts, 3);
    assert(parts[2] == json::member("event"@, json::quoted(e.event)));
    assert(parts[3] == json::member("zone"@, zone_json(e.zone)));
}

proof fn lemma_in_object(parts: Seq<Seq<char>>, i: int)
    requires
        0 <= i < parts.len(),
    ensures
        text::has_text(json::object(parts), parts[i]),
{
    lemma_joined_has(parts, ","@, i);
    let inner = text::joined(parts, ","@);
    let at = choose|k: int|
        0 <= k <= inner.len() - parts[i].len() && #[trigger] inner.subrange(
            k,
            k + parts[i].len(),
        ) == parts[i];
    let opened = "{"@ + inner;
    let from = "{"@.len() as int + at;
    assert(opened.subrange(from, from + parts[i].len()) == parts[i]);
    lemma_still_there(opened, "}"@, parts[i]);
}

proof fn lemma_text_member_plain(key: Seq<char>, value: Option<Seq<char>>)
    ensures
        json::all_plain(text_member(key, value)),
{
    match value {
        Some(s) => {
            json::law_quoted_is_plain(s);
            json::lemma_member_plain(key, json::quoted(s));
        },
        None => {},
    }
}

proof fn lemma_quoted_member_plain(key: Seq<char>, value: Seq<char>)
    ensures
        json::plain(json::member(key, json::quoted(value))),
{
    json::law_quoted_is_plain(value);
    json::lemma_member_plain(key, json::quoted(value));
}

proof fn lemma_zone_plain(zone: event::ZoneText)
    ensures
        json::plain(zone_json(zone)),
{
    lemma_quoted_member_plain("id"@, zone.id);
    lemma_text_member_plain("name"@, zone.name);
    json::lemma_object_plain(
        seq![json::member("id"@, json::quoted(zone.id))] + text_member("name"@, zone.name),
    );
}

proof fn lemma_actor_plain(actor: event::ActorText)
    ensures
        json::plain(actor_json(actor)),
{
    lemma_quoted_member_plain("id"@, actor.id);
    json::lemma_string_array_plain(actor.delegation);
    json::lemma_member_plain("delegation"@, json::string_array(actor.delegation));
    json::lemma_object_plain(
        seq![json::member("id"@, json::quoted(actor.id))] + (if actor.delegation.len() > 0 {
            seq![json::member("delegation"@, json::string_array(actor.delegation))]
        } else {
            Seq::empty()
        }),
    );
}

proof fn lemma_attributes_plain(a: event::AttrsText)
    ensures
        json::plain(attributes_json(a)),
{
    lemma_quoted_member_plain("backend"@, a.backend);
    lemma_text_member_plain("host"@, a.host);
    lemma_text_member_plain("node"@, a.node);
    lemma_text_member_plain("container_id"@, a.container_id);
    lemma_text_member_plain("kernel_version"@, a.kernel_version);
    json::lemma_object_plain(
        seq![json::member("backend"@, json::quoted(a.backend))] + text_member("host"@, a.host)
            + text_member("node"@, a.node) + text_member("container_id"@, a.container_id)
            + text_member("kernel_version"@, a.kernel_version),
    );
}

proof fn lemma_field_plain(value: event::FieldText)
    ensures
        json::plain(field_json(value)),
{
    match value {
        event::FieldText::Text(s) => {
            json::law_quoted_is_plain(s);
        },
        event::FieldText::U64(n) => {
            lemma_decimal_plain(n as nat);
        },
        event::FieldText::I64(n) => {
            lemma_decimal_plain(
                if n < 0 {
                    (-n) as nat
                } else {
                    n as nat
                },
            );
        },
        event::FieldText::Bool(b) => {
            reveal_strlit("true");
            reveal_strlit("false");
        },
        event::FieldText::List(list) => {
            json::lemma_string_array_plain(list);
        },
    }
}

proof fn lemma_decimal_plain(n: nat)
    ensures
        json::plain(number::decimal(n)),
{
    number::lemma_decimal_digits(n);
    assert forall|i: int| 0 <= i < number::decimal(n).len() implies ' '
        <= #[trigger] number::decimal(n)[i] by {
        assert(number::is_digit(number::decimal(n)[i]));
    }
}

proof fn lemma_fields_plain(fields: Seq<(Seq<char>, event::FieldText)>)
    ensures
        json::plain(fields_json(fields)),
{
    let parts = fields.map_values(
        |f: (Seq<char>, event::FieldText)| json::member(f.0, field_json(f.1)),
    );
    assert forall|i: int| 0 <= i < parts.len() implies json::plain(#[trigger] parts[i]) by {
        lemma_field_plain(fields[i].1);
        json::lemma_member_plain(fields[i].0, field_json(fields[i].1));
    }
    json::lemma_object_plain(parts);
}

proof fn lemma_otel_plain(otel: event::OTelText)
    ensures
        json::plain(otel_json(otel)),
{
    lemma_quoted_member_plain("log_body"@, otel.log_body);
    lemma_quoted_member_plain("severity_text"@, otel.severity_text);
    json::lemma_string_array_plain(otel.resource_attributes);
    json::lemma_member_plain(
        "resource_attributes"@,
        json::string_array(otel.resource_attributes),
    );
    json::lemma_string_array_plain(otel.event_attributes);
    json::lemma_member_plain("event_attributes"@, json::string_array(otel.event_attributes));
    json::lemma_object_plain(
        seq![
            json::member("log_body"@, json::quoted(otel.log_body)),
            json::member("severity_text"@, json::quoted(otel.severity_text)),
            json::member("resource_attributes"@, json::string_array(otel.resource_attributes)),
            json::member("event_attributes"@, json::string_array(otel.event_attributes)),
        ],
    );
}

/// Texts of which all before and all behind are plain are all plain.
proof fn lemma_all_plain_add(a: Seq<Seq<char>>, b: Seq<Seq<char>>)
    requires
        json::all_plain(a),
        json::all_plain(b),
    ensures
        json::all_plain(a + b),
{
    assert forall|i: int| 0 <= i < (a + b).len() implies json::plain(#[trigger] (a + b)[i]) by {
        if i < a.len() {
            assert(json::plain(a[i]));
        } else {
            assert(json::plain(b[i - a.len()]));
        }
    }
}

/// The JSON of an event has no control character; so a sink that writes each event
/// and a line feed writes each event on one line, whatever the event says.
pub proof fn law_json_is_one_line(e: event::EventText)
    ensures
        json::plain(event_json(e)),
        !event_json(e).contains('\n'),
{
    let head = seq![
        json::member("ts"@, json::quoted(e.ts)),
        json::member("level"@, json::quoted(e.level.text())),
        json::member("event"@, json::quoted(e.event)),
        json::member("zone"@, zone_json(e.zone)),
    ];
    lemma_quoted_member_plain("ts"@, e.ts);
    lemma_quoted_member_plain("level"@, e.level.text());
    lemma_quoted_member_plain("event"@, e.event);
    lemma_zone_plain(e.zone);
    json::lemma_member_plain("zone"@, zone_json(e.zone));
    let who = match e.actor {
        Some(actor) => seq![json::member("actor"@, actor_json(actor))],
        None => Seq::empty(),
    };
    match e.actor {
        Some(actor) => {
            lemma_actor_plain(actor);
            json::lemma_member_plain("actor"@, actor_json(actor));
        },
        None => {},
    }
    lemma_text_member_plain("resource"@, e.resource);
    let by = seq![json::member("backend"@, json::quoted(e.backend))];
    lemma_quoted_member_plain("backend"@, e.backend);
    lemma_text_member_plain("trace_id"@, e.trace_id);
    let told = seq![
        json::member("what_failed"@, json::quoted(e.narrative.what_failed)),
        json::member("why_it_matters"@, json::quoted(e.narrative.why_it_matters)),
        json::member("possible_causes"@, json::string_array(e.narrative.possible_causes)),
        json::member("resource_attributes"@, attributes_json(e.attributes)),
    ];
    lemma_quoted_member_plain("what_failed"@, e.narrative.what_failed);
    lemma_quoted_member_plain("why_it_matters"@, e.narrative.why_it_matters);
    json::lemma_string_array_plain(e.narrative.possible_causes);
    json::lemma_member_plain(
        "possible_causes"@,
        json::string_array(e.narrative.possible_causes),
    );
    lemma_attributes_plain(e.attributes);
    json::lemma_member_plain("resource_attributes"@, attributes_json(e.attributes));
    let more = if e.fields.len() > 0 {
        seq![json::member("fields"@, fields_json(e.fields))]
    } else {
        Seq::empty()
    };
    lemma_fields_plain(e.fields);
    json::lemma_member_plain("fields"@, fields_json(e.fields));
    let last = seq![json::member("otel"@, otel_json(e.otel))];
    lemma_otel_plain(e.otel);
    json::lemma_member_plain("otel"@, otel_json(e.otel));
    let resource = text_member("resource"@, e.resource);
    let trace = text_member("trace_id"@, e.trace_id);
    lemma_all_plain_add(head, who);
    lemma_all_plain_add(head + who, resource);
    lemma_all_plain_add(head + who + resource, by);
    lemma_all_plain_add(head + who + resource + by, trace);
    lemma_all_plain_add(head + who + resource + by + trace, told);
    lemma_all_plain_add(head + who + resource + by + trace + told, more);
    lemma_all_plain_add(head + who + resource + by + trace + told + more, last);
    json::lemma_object_plain(members(e));
    let whole = event_json(e);
    assert forall|i: int| 0 <= i < whole.len() implies #[trigger] whole[i] != '\n' by {
        assert(' ' <= whole[i]);
    }
}

/// What stands in a part stands in the whole.
proof fn lemma_member_stays(a: Seq<Seq<char>>, b: Seq<Seq<char>>, x: Seq<char>)
    requires
        a.contains(x) || b.contains(x),
    ensures
        (a + b).contains(x),
{
    if a.contains(x) {
        let i = choose|i: int| 0 <= i < a.len() && a[i] == x;
        assert((a + b)[i] == x);
    } else {
        let i = choose|i: int| 0 <= i < b.len() && b[i] == x;
        assert((a + b)[a.len() + i] == x);
    }
}

/// Whether a text that may be there is a member under this key, where it is.
pub open spec fn has_text_member(
    parts: Seq<Seq<char>>,
    key: Seq<char>,
    value: Option<Seq<char>>,
) -> bool {
    value matches Some(s) ==> parts.contains(json::member(key, json::quoted(s)))
}

proof fn lemma_text_member(
    a: Seq<Seq<char>>,
    key: Seq<char>,
    value: Option<Seq<char>>,
)
    ensures
        has_text_member(a + text_member(key, value), key, value),
{
    if let Some(s) = value {
        assert(text_member(key, value)[0] == json::member(key, json::quoted(s)));
        lemma_member_stays(a, text_member(key, value), json::member(key, json::quoted(s)));
    }
}

proof fn lemma_text_member_stays(
    a: Seq<Seq<char>>,
    b: Seq<Seq<char>>,
    key: Seq<char>,
    value: Option<Seq<char>>,
)
    requires
        has_text_member(a, key, value),
    ensures
        has_text_member(a + b, key, value),
{
    if let Some(s) = value {
        lemma_member_stays(a, b, json::member(key, json::quoted(s)));
    }
}

/// Where an event comes from is written as an object that has each attribute that is known under
/// the attribute's own key, and as many members as attributes are known.
pub proof fn law_attributes_stand_under_their_keys(a: event::AttrsText) -> (parts: Seq<Seq<char>>)
    ensures
        attributes_json(a) == json::object(parts),
        parts.contains(json::member("backend"@, json::quoted(a.backend))),
        has_text_member(parts, "host"@, a.host),
        has_text_member(parts, "node"@, a.node),
        has_text_member(parts, "container_id"@, a.container_id),
        has_text_member(parts, "kernel_version"@, a.kernel_version),
        parts.len() == 1 + (if a.host is Some {
            1int
        } else {
            0
        }) + (if a.node is Some {
            1int
        } else {
            0
        }) + (if a.container_id is Some {
            1int
        } else {
            0
        }) + (if a.kernel_version is Some {
            1int
        } else {
            0
        }),
{
    let p0 = seq![json::member("backend"@, json::quoted(a.backend))];
    assert(p0[0] == json::member("backend"@, json::quoted(a.backend)));
    let p1 = p0 + text_member("host"@, a.host);
    let p2 = p1 + text_member("node"@, a.node);
    let p3 = p2 + text_member("container_id"@, a.container_id);
    let p4 = p3 + text_member("kernel_version"@, a.kernel_version);
    let backend = json::member("backend"@, json::quoted(a.backend));
    lemma_member_stays(p0, text_member("host"@, a.host), backend);
    lemma_member_stays(p1, text_member("node"@, a.node), backend);
    lemma_member_stays(p2, text_member("container_id"@, a.container_id), backend);
    lemma_member_stays(p3, text_member("kernel_version"@, a.kernel_version), backend);
    lemma_text_member(p0, "host"@, a.host);
    lemma_text_member_stays(p1, text_member("node"@, a.node), "host"@, a.host);
    lemma_text_member_stays(p2, text_member("container_id"@, a.container_id), "host"@, a.host);
    lemma_text_member_stays(p3, text_member("kernel_version"@, a.kernel_version), "host"@, a.host);
    lemma_text_member(p1, "node"@, a.node);
    lemma_text_member_stays(p2, text_member("container_id"@, a.container_id), "node"@, a.node);
    lemma_text_member_stays(p3, text_member("kernel_version"@, a.kernel_version), "node"@, a.node);
    lemma_text_member(p2, "container_id"@, a.container_id);
    lemma_text_member_stays(
        p3,
        text_member("kernel_version"@, a.kernel_version),
        "container_id"@,
        a.container_id,
    );
    lemma_text_member(p3, "kernel_version"@, a.kernel_version);
    p4
}

/// An event is written as an object that has each thing that the event says under that thing's
/// own key.
pub proof fn law_event_stands_under_its_keys(e: event::EventText)
    ensures
        members(e).contains(json::member("ts"@, json::quoted(e.ts))),
        members(e).contains(json::member("level"@, json::quoted(e.level.text()))),
        members(e).contains(json::member("event"@, json::quoted(e.event))),
        members(e).contains(json::member("zone"@, zone_json(e.zone))),
        e.actor matches Some(actor) ==> members(e).contains(
            json::member("actor"@, actor_json(actor)),
        ),
        has_text_member(members(e), "resource"@, e.resource),
        members(e).contains(json::member("backend"@, json::quoted(e.backend))),
        has_text_member(members(e), "trace_id"@, e.trace_id),
        members(e).contains(json::member("what_failed"@, json::quoted(e.narrative.what_failed))),
        members(e).contains(
            json::member("why_it_matters"@, json::quoted(e.narrative.why_it_matters)),
        ),
        members(e).contains(
            json::member("possible_causes"@, json::string_array(e.narrative.possible_causes)),
        ),
        members(e).contains(
            json::member("resource_attributes"@, attributes_json(e.attributes)),
        ),
        e.fields.len() > 0 ==> members(e).contains(json::member("fields"@, fields_json(e.fields))),
        members(e).contains(json::member("otel"@, otel_json(e.otel))),
{
    let m = members(e);
    assert(m[0] == json::member("ts"@, json::quoted(e.ts)));
    assert(m[1] == json::member("level"@, json::quoted(e.level.text())));
    assert(m[2] == json::member("event"@, json::quoted(e.event)));
    assert(m[3] == json::member("zone"@, zone_json(e.zone)));
    let a: int = if e.actor is Some {
        1
    } else {
        0
    };
    let r: int = if e.resource is Some {
        1
    } else {
        0
    };
    let t: int = if e.trace_id is Some {
        1
    } else {
        0
    };
    let f: int = if e.fields.len() > 0 {
        1
    } else {
        0
    };
    assert(m.len() == 4 + a + r + 1 + t + 4 + f + 1);
    if let Some(actor) = e.actor {
        assert(m[4] == json::member("actor"@, actor_json(actor)));
    }
    if let Some(resource) = e.resource {
        assert(m[4 + a] == json::member("resource"@, json::quoted(resource)));
    }
    assert(m[4 + a + r] == json::member("backend"@, json::quoted(e.backend)));
    if let Some(id) = e.trace_id {
        assert(m[5 + a + r] == json::member("trace_id"@, json::quoted(id)));
    }
    let b = 5 + a + r + t;
    assert(m[b] == json::member("what_failed"@, json::quoted(e.narrative.what_failed)));
    assert(m[b + 1] == json::member(
        "why_it_matters"@,
        json::quoted(e.narrative.why_it_matters),
    ));
    assert(m[b + 2] == json::member(
        "possible_causes"@,
        json::string_array(e.narrative.possible_causes),
    ));
    assert(m[b + 3] == json::member("resource_attributes"@, attributes_json(e.attributes)));
    if e.fields.len() > 0 {
        assert(m[b + 4] == json::member("fields"@, fields_json(e.fields)));
    }
    assert(m[b + 4 + f] == json::member("otel"@, otel_json(e.otel)));
}

/// What an event leaves in the log is the event's own, each under its own word; who acted is left
/// empty where that is not known.
pub proof fn law_log_tells_the_event(record: TraceRecord, e: event::EventText)
    requires
        traces(record, e),
    ensures
        record.level == e.level,
        record.event@ == e.event,
        record.zone_id@ == e.zone.id,
        record.backend@ == e.backend,
        record.what_failed@ == e.narrative.what_failed,
        record.why_it_matters@ == e.narrative.why_it_matters,
        e.actor matches Some(actor) ==> record.actor_id@ == actor.id,
        e.actor is None ==> record.actor_id@.len() == 0,
        record.message@ == "rauha.evidence"@,
{
    reveal_strlit("");
}

} // verus!
