//! The zone service.

use vstd::prelude::*;
use vstd::string::StringExecFns;

use crate::number;
use crate::number::decimal_of;
use crate::service::ids;
use crate::service::ids::{id_text, Timestamp};
use crate::status;
use crate::status::{Code, Status};
use crate::text;
use crate::text::same;

verus! {

/// What a zone may do beyond its own walls.
#[derive(Clone, Copy, Debug, PartialEq, Eq, Structural)]
pub enum ZoneType {
    Privileged,
    Global,
    NonGlobal,
}

/// The type that a request names. What it does not name is the most confined.
pub open spec fn type_named(name: Seq<char>) -> ZoneType {
    if name == "privileged"@ {
        ZoneType::Privileged
    } else if name == "global"@ {
        ZoneType::Global
    } else {
        ZoneType::NonGlobal
    }
}

/// The type that a request names.
pub fn zone_type_of(name: &str) -> (res: ZoneType)
    ensures
        res == type_named(name@),
{
    if same(name, "privileged") {
        ZoneType::Privileged
    } else if same(name, "global") {
        ZoneType::Global
    } else {
        ZoneType::NonGlobal
    }
}

impl ZoneType {
    /// What `label` gives.
    pub open spec fn text(self) -> Seq<char> {
        match self {
            ZoneType::Privileged => "Privileged"@,
            ZoneType::Global => "Global"@,
            ZoneType::NonGlobal => "NonGlobal"@,
        }
    }

    /// The type's name.
    pub fn label(self) -> (res: &'static str)
        ensures
            res@ == self.text(),
    {
        match self {
            ZoneType::Privileged => "Privileged",
            ZoneType::Global => "Global",
            ZoneType::NonGlobal => "NonGlobal",
        }
    }
}

/// The most bytes that a policy may have.
pub const MAX_POLICY_SIZE: usize = 65536;

/// Whether a policy is too large to be read.
pub open spec fn oversized(policy: Seq<char>) -> bool {
    vstd::utf8::encode_utf8(policy).len() > MAX_POLICY_SIZE
}

/// The status that refuses a policy that is too large.
pub open spec fn oversized_status() -> status::StatusText {
    status::status(
        Code::InvalidArgument,
        "policy_toml exceeds maximum size of "@ + number::decimal(MAX_POLICY_SIZE as nat)
            + " bytes"@,
    )
}

/// Refuses a policy that is too large, before it is read.
pub fn check_policy_size(policy_toml: &str) -> (res: Result<(), Status>)
    ensures
        match res {
            Ok(_) => !oversized(policy_toml@),
            Err(s) => oversized(policy_toml@) && s@ == oversized_status(),
        },
{
    let bytes = policy_toml.as_bytes();
    if bytes.len() > MAX_POLICY_SIZE {
        let mut message = "policy_toml exceeds maximum size of ".to_owned();
        message.append(decimal_of(MAX_POLICY_SIZE as u64).as_str());
        message.append(" bytes");
        return Err(Status::new(Code::InvalidArgument, message));
    }
    Ok(())
}

/// The status that refuses a policy that cannot be read.
pub fn policy_refused(reason: &str) -> (res: Status)
    ensures
        res@ == status::status(Code::InvalidArgument, reason@),
{
    Status::new(Code::InvalidArgument, reason.to_owned())
}

/// Where the policy of a new zone comes from.
#[derive(Clone, Debug, PartialEq, Eq)]
pub enum PolicySource {
    /// It is the default.
    Default,
    /// It is read from this text; paths in it are below this root.
    Toml { toml: String, root: String },
}

/// Whether a source is the one for a policy's text.
pub open spec fn is_source(source: PolicySource, policy: Seq<char>, root: Seq<char>) -> bool {
    match source {
        PolicySource::Default => policy.len() == 0,
        PolicySource::Toml { toml, root: r } => policy.len() > 0 && toml@ == policy && r@ == root,
    }
}

/// What creating a zone takes.
#[derive(Clone, Debug, PartialEq, Eq)]
pub struct ZoneCreation {
    pub name: String,
    /// The request's own type: a type that the policy's text names does not count.
    pub zone_type: ZoneType,
    pub policy: PolicySource,
}

/// Whether this is what it takes to create the zone that a request asks for.
pub open spec fn plans(
    plan: ZoneCreation,
    name: Seq<char>,
    zone_type: Seq<char>,
    policy: Seq<char>,
    root: Seq<char>,
) -> bool {
    &&& plan.name@ == name
    &&& plan.zone_type == type_named(zone_type)
    &&& is_source(plan.policy, policy, root)
}

/// The zone service: what it asks, where its files are, and where events come from.
pub struct ZoneServiceImpl<R, T> {
    pub registry: R,
    pub root: String,
    pub event_tx: Option<T>,
}

impl<R, T> ZoneServiceImpl<R, T> {
    /// A service over these.
    pub fn new(registry: R, root: String, event_tx: Option<T>) -> (res: Self)
        ensures
            res.registry == registry,
            res.root@ == root@,
            res.event_tx == event_tx,
    {
        ZoneServiceImpl { registry, root, event_tx }
    }

    /// What it takes to create the zone that a request asks for.
    pub fn plan_create_zone(&self, name: String, zone_type: &str, policy_toml: String) -> (res: Result<
        ZoneCreation,
        Status,
    >)
        ensures
            match res {
                Ok(plan) => {
                    &&& !oversized(policy_toml@)
                    &&& plan.name@ == name@
                    &&& plan.zone_type == type_named(zone_type@)
                    &&& is_source(plan.policy, policy_toml@, self.root@)
                },
                Err(s) => oversized(policy_toml@) && s@ == oversized_status(),
            },
            res matches Ok(plan) ==> plans(plan, name@, zone_type@, policy_toml@, self.root@),
    {
        let zone_type = zone_type_of(zone_type);
        match check_policy_size(policy_toml.as_str()) {
            Ok(_) => {},
            Err(s) => {
                return Err(s);
            },
        }
        let policy = if policy_toml.as_str().is_empty() {
            PolicySource::Default
        } else {
            PolicySource::Toml { toml: policy_toml, root: self.root.clone() }
        };
        Ok(ZoneCreation { name, zone_type, policy })
    }

    /// What it takes to read the policy that a request applies to a zone. Here even
    /// an empty text is read.
    pub fn plan_apply_policy(&self, policy_toml: String) -> (res: Result<PolicySource, Status>)
        ensures
            match res {
                Ok(source) => !oversized(policy_toml@) && (source matches PolicySource::Toml {
                    toml,
                    root,
                } && toml@ == policy_toml@ && root@ == self.root@),
                Err(s) => oversized(policy_toml@) && s@ == oversized_status(),
            },
    {
        match check_policy_size(policy_toml.as_str()) {
            Ok(_) => {},
            Err(s) => {
                return Err(s);
            },
        }
        Ok(PolicySource::Toml { toml: policy_toml, root: self.root.clone() })
    }
}

/// What is known of a zone.
#[derive(Clone, Debug, PartialEq, Eq)]
pub struct ZoneRecord {
    pub id: u128,
    pub name: String,
    pub zone_type: ZoneType,
    /// The name of its state.
    pub state: String,
    pub created_at: Timestamp,
}

/// What a client is told of a zone that was created.
#[derive(Clone, Debug, PartialEq, Eq)]
pub struct CreateZoneResponse {
    pub zone_id: String,
    pub name: String,
    pub state: String,
}

/// Whether this is what a client is told of a zone that was created.
pub open spec fn tells_created(created: CreateZoneResponse, zone: ZoneRecord) -> bool {
    &&& created.zone_id@ == ids::hyphenated(zone.id)
    &&& created.name@ == zone.name@
    &&& created.state@ == zone.state@
}

/// What a client is told of a zone that was created.
pub fn zone_created(zone: ZoneRecord) -> (res: CreateZoneResponse)
    ensures
        tells_created(res, zone),
        res.zone_id@ == ids::hyphenated(zone.id),
        res.name@ == zone.name@,
        res.state@ == zone.state@,
{
    CreateZoneResponse { zone_id: id_text(zone.id), name: zone.name, state: zone.state }
}

/// What a client is told of a zone.
#[derive(Clone, Debug, PartialEq, Eq)]
pub struct ZoneInfo {
    pub id: String,
    pub name: String,
    pub zone_type: String,
    pub state: String,
    pub container_count: u32,
    pub created_at: String,
}

/// Whether this is what a client is told of a zone with so many containers. The
/// count is told by its low 32 bits.
pub open spec fn tells_zone(info: ZoneInfo, zone: ZoneRecord, containers: nat) -> bool {
    &&& info.id@ == ids::hyphenated(zone.id)
    &&& info.name@ == zone.name@
    &&& info.zone_type@ == zone.zone_type.text()
    &&& info.state@ == zone.state@
    &&& info.container_count == containers % 0x1_0000_0000
    &&& info.created_at@ == zone.created_at@
}

/// What a client is told of a zone with so many containers.
pub fn zone_info(zone: ZoneRecord, containers: usize) -> (res: ZoneInfo)
    ensures
        tells_zone(res, zone, containers as nat),
        res.id@ == ids::hyphenated(zone.id),
        res.name@ == zone.name@,
        res.state@ == zone.state@,
        res.created_at@ == zone.created_at@,
{
    ZoneInfo {
        id: id_text(zone.id),
        name: zone.name,
        zone_type: zone.zone_type.label().to_owned(),
        state: zone.state,
        container_count: (containers as u64 % 0x1_0000_0000) as u32,
        created_at: zone.created_at.to_text(),
    }
}

/// How many containers a zone is told to have: none where they cannot be listed.
pub open spec fn count_or_none(count: Option<usize>) -> nat {
    match count {
        Some(n) => n as nat,
        None => 0,
    }
}

/// What a client is told of all zones; beside each is how many containers it has,
/// where they can be listed.
pub fn list_zones(zones: Vec<(ZoneRecord, Option<usize>)>) -> (res: Vec<ZoneInfo>)
    ensures
        res@.len() == zones@.len(),
        forall|i: int|
            0 <= i < zones@.len() ==> tells_zone(
                #[trigger] res@[i],
                zones@[i].0,
                count_or_none(zones@[i].1),
            ),
{
    let ghost all = zones@;
    let mut out: Vec<ZoneInfo> = Vec::new();
    for entry in it: zones
        invariant
            it.seq() == all,
            out@.len() == it.index(),
            forall|j: int|
                0 <= j < out@.len() ==> tells_zone(
                    #[trigger] out@[j],
                    all[j].0,
                    count_or_none(all[j].1),
                ),
    {
        let (zone, count) = entry;
        let containers: usize = match count {
            Some(n) => n,
            None => 0,
        };
        out.push(zone_info(zone, containers));
    }
    out
}

/// A zone is of the type that the request names by its own word, and of the most confined
/// type for every other word: no word but these two widens what a zone may do.
pub proof fn law_only_two_words_widen_a_zone(name: Seq<char>)
    ensures
        type_named(name) is Privileged <==> name == "privileged"@,
        type_named(name) is Global <==> name == "global"@,
        type_named(name) is NonGlobal <==> name != "privileged"@ && name != "global"@,
{
    reveal_strlit("privileged");
    reveal_strlit("global");
    assert("privileged"@[0] == 'p' && "global"@[0] == 'g');
}

/// A client is told of a zone by the zone's own record: its name, its type's own name,
/// its state and its time, each under its own word; and of as many containers as it has,
/// as long as they are countable in 32 bits.
pub proof fn law_zone_is_told_as_recorded(info: ZoneInfo, zone: ZoneRecord, containers: nat)
    requires
        tells_zone(info, zone, containers),
    ensures
        info.id@ == ids::hyphenated(zone.id),
        info.name@ == zone.name@,
        info.state@ == zone.state@,
        info.created_at@ == zone.created_at@,
        zone.zone_type is Privileged ==> info.zone_type@ == "Privileged"@,
        zone.zone_type is Global ==> info.zone_type@ == "Global"@,
        zone.zone_type is NonGlobal ==> info.zone_type@ == "NonGlobal"@,
        containers <= u32::MAX ==> info.container_count == containers,
{
}

/// What a client is told when a zone is created and what it is told of the zone afterwards
/// are the same: the identifier, the name and the state.
pub proof fn law_created_zone_is_told_again(
    created: CreateZoneResponse,
    info: ZoneInfo,
    zone: ZoneRecord,
    containers: nat,
)
    requires
        tells_created(created, zone),
        tells_zone(info, zone, containers),
    ensures
        created.zone_id@ == info.id@,
        created.name@ == info.name@,
        created.state@ == info.state@,
        created.zone_id@ == ids::hyphenated(zone.id),
        created.name@ == zone.name@,
        created.state@ == zone.state@,
{
}

/// A zone whose containers cannot be listed is told to have none; any other is told to
/// have as many as are listed.
pub proof fn law_count_is_what_is_listed(count: Option<usize>)
    ensures
        count matches Some(n) ==> count_or_none(count) == n,
        count is None ==> count_or_none(count) == 0,
{
}

/// A zone is planned as it was asked for: under the request's name, of the type that the
/// request names, with the policy that the request holds, read below the service's root,
/// and with the default one exactly where the request holds none.
pub proof fn law_zone_is_planned_as_asked(
    plan: ZoneCreation,
    name: Seq<char>,
    zone_type: Seq<char>,
    policy: Seq<char>,
    root: Seq<char>,
)
    requires
        plans(plan, name, zone_type, policy, root),
    ensures
        plan.name@ == name,
        plan.zone_type is Privileged <==> zone_type == "privileged"@,
        plan.zone_type is Global <==> zone_type == "global"@,
        plan.policy is Default <==> policy.len() == 0,
        plan.policy matches PolicySource::Toml { toml, root: r } ==> toml@ == policy && r@ == root,
{
    law_only_two_words_widen_a_zone(zone_type);
}

/// A policy is too large exactly where it takes more than 65536 bytes, and is then refused
/// as the client's fault.
pub proof fn law_policies_have_a_limit(policy: Seq<char>)
    ensures
        oversized(policy) <==> vstd::utf8::encode_utf8(policy).len() > 65536,
        oversized_status().code is InvalidArgument,
        oversized_status().message == "policy_toml exceeds maximum size of "@ + number::decimal(
            65536,
        ) + " bytes"@,
{
}

} // verus!
