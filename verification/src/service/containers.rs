//! The container service.

use vstd::prelude::*;

use crate::service::ids;
use crate::service::ids::{id_text, Timestamp};
use crate::status;
use crate::status::{Code, Status};
use crate::text;

verus! {

/// The container service: what it asks.
pub struct ContainerServiceImpl<R> {
    pub registry: R,
}

impl<R> ContainerServiceImpl<R> {
    /// A service over this.
    pub fn new(registry: R) -> (res: Self)
        ensures
            res.registry == registry,
    {
        ContainerServiceImpl { registry }
    }

    /// Refuses to run a command without a stream.
    pub fn exec_in_container(&self) -> (res: Status)
        ensures
            res@ == status::status(
                Code::Unimplemented,
                "exec_in_container: use ExecStream for interactive exec"@,
            ),
    {
        Status::new(
            Code::Unimplemented,
            "exec_in_container: use ExecStream for interactive exec".to_owned(),
        )
    }
}

/// A request for a container.
#[derive(Clone, Debug, PartialEq, Eq)]
pub struct CreateContainerRequest {
    pub zone_name: String,
    pub name: String,
    pub image: String,
    pub command: Vec<String>,
    /// The variables of its environment, and their values.
    pub env: Vec<(String, String)>,
    /// Empty where the image decides.
    pub working_dir: String,
}

/// A container to create.
#[derive(Clone, Debug, PartialEq, Eq)]
pub struct ContainerSpec {
    pub name: String,
    pub image: String,
    pub command: Vec<String>,
    pub env: Vec<(String, String)>,
    pub working_dir: Option<String>,
    pub rootfs_path: Option<String>,
    pub overlay_layers: Option<Vec<String>>,
}

/// Whether this is the container that a request asks for.
pub open spec fn specifies(spec: ContainerSpec, req: CreateContainerRequest) -> bool {
    &&& spec.name@ == req.name@
    &&& spec.image@ == req.image@
    &&& spec.command == req.command
    &&& spec.env == req.env
    &&& text::text_in(spec.working_dir) == (if req.working_dir@.len() == 0 {
        None
    } else {
        Some(req.working_dir@)
    })
    &&& spec.rootfs_path is None
    &&& spec.overlay_layers is None
}

/// The container that a request asks for. Where its files are is not for the
/// request to say.
pub fn container_spec(req: CreateContainerRequest) -> (res: ContainerSpec)
    ensures
        specifies(res, req),
        res.name@ == req.name@,
        res.image@ == req.image@,
        res.command == req.command,
        res.env == req.env,
        text::text_in(res.working_dir) == (if req.working_dir@.len() == 0 {
            None
        } else {
            Some(req.working_dir@)
        }),
        res.rootfs_path is None,
        res.overlay_layers is None,
{
    let working_dir = if req.working_dir.as_str().is_empty() {
        None
    } else {
        Some(req.working_dir)
    };
    ContainerSpec {
        name: req.name,
        image: req.image,
        command: req.command,
        env: req.env,
        working_dir,
        rootfs_path: None,
        overlay_layers: None,
    }
}

/// What is known of a container.
#[derive(Clone, Debug, PartialEq, Eq)]
pub struct ContainerRecord {
    pub id: u128,
    pub name: String,
    pub zone_id: u128,
    pub image: String,
    /// The name of its state.
    pub state: String,
    pub pid: Option<u32>,
    pub created_at: Timestamp,
    pub started_at: Option<Timestamp>,
}

/// What a client is told of a container that was created.
#[derive(Clone, Debug, PartialEq, Eq)]
pub struct CreateContainerResponse {
    pub container_id: String,
    pub name: String,
    pub state: String,
}

/// Whether this is what a client is told of a container that was created.
pub open spec fn tells_created(
    created: CreateContainerResponse,
    container: ContainerRecord,
) -> bool {
    &&& created.container_id@ == ids::hyphenated(container.id)
    &&& created.name@ == container.name@
    &&& created.state@ == container.state@
}

/// What a client is told of a container that was created.
pub fn container_created(container: ContainerRecord) -> (res: CreateContainerResponse)
    ensures
        tells_created(res, container),
        res.container_id@ == ids::hyphenated(container.id),
        res.name@ == container.name@,
        res.state@ == container.state@,
{
    CreateContainerResponse {
        container_id: id_text(container.id),
        name: container.name,
        state: container.state,
    }
}

/// What a client is told of a container.
#[derive(Clone, Debug, PartialEq, Eq)]
pub struct ContainerInfo {
    pub id: String,
    pub name: String,
    pub zone_id: String,
    pub zone_name: String,
    pub image: String,
    pub state: String,
    /// Zero where there is no process.
    pub pid: u32,
    pub created_at: String,
    /// Empty where it was not started.
    pub started_at: String,
}

/// Whether this is what a client is told of a container in a zone.
pub open spec fn tells_container(
    info: ContainerInfo,
    container: ContainerRecord,
    zone_name: Seq<char>,
) -> bool {
    &&& info.id@ == ids::hyphenated(container.id)
    &&& info.name@ == container.name@
    &&& info.zone_id@ == ids::hyphenated(container.zone_id)
    &&& info.zone_name@ == zone_name
    &&& info.image@ == container.image@
    &&& info.state@ == container.state@
    &&& info.pid == (match container.pid {
        Some(pid) => pid,
        None => 0,
    })
    &&& info.created_at@ == container.created_at@
    &&& info.started_at@ == (match container.started_at {
        Some(t) => t@,
        None => ""@,
    })
}

/// The status for a container whose zone is gone.
pub open spec fn zone_missing() -> status::StatusText {
    status::status(Code::Internal, "zone not found for container"@)
}

/// The zone's name, where the zone is there.
pub fn require_zone(zone_name: Option<String>) -> (res: Result<String, Status>)
    ensures
        match res {
            Ok(name) => text::text_in(zone_name) == Some(name@),
            Err(s) => zone_name is None && s@ == zone_missing(),
        },
{
    match zone_name {
        Some(name) => Ok(name),
        None => Err(Status::new(Code::Internal, "zone not found for container".to_owned())),
    }
}

/// What a client is told of a container, where its zone is there.
pub fn container_info(container: ContainerRecord, zone_name: Option<String>) -> (res: Result<
    ContainerInfo,
    Status,
>)
    ensures
        match res {
            Ok(info) => zone_name matches Some(name) && tells_container(info, container, name@),
            Err(s) => zone_name is None && s@ == zone_missing(),
        },
        res is Ok <==> zone_name is Some,
        res matches Ok(info) ==> {
            &&& info.id@ == ids::hyphenated(container.id)
            &&& info.name@ == container.name@
            &&& info.zone_id@ == ids::hyphenated(container.zone_id)
            &&& text::text_in(zone_name) == Some(info.zone_name@)
            &&& info.image@ == container.image@
            &&& info.state@ == container.state@
            &&& container.pid matches Some(pid) ==> info.pid == pid
            &&& container.pid is None ==> info.pid == 0
            &&& info.created_at@ == container.created_at@
            &&& container.started_at matches Some(t) ==> info.started_at@ == t@
            &&& container.started_at is None ==> info.started_at@ == ""@
        },
{
    let zone_name = match require_zone(zone_name) {
        Ok(name) => name,
        Err(s) => {
            return Err(s);
        },
    };
    Ok(
        ContainerInfo {
            id: id_text(container.id),
            name: container.name,
            zone_id: id_text(container.zone_id),
            zone_name,
            image: container.image,
            state: container.state,
            pid: match container.pid {
                Some(pid) => pid,
                None => 0,
            },
            created_at: container.created_at.to_text(),
            started_at: match container.started_at {
                Some(t) => t.to_text(),
                None => "".to_owned(),
            },
        },
    )
}

/// The zone that a listing is limited to; none where the request names none.
pub fn zone_filter(zone_name: &str) -> (res: Option<String>)
    ensures
        text::text_in(res) == (if zone_name@.len() == 0 {
            None
        } else {
            Some(zone_name@)
        }),
{
    if zone_name.is_empty() {
        None
    } else {
        Some(zone_name.to_owned())
    }
}

/// Whether this is what a client is told of a container whose zone is there.
pub open spec fn tells_placed(
    info: ContainerInfo,
    placed: (ContainerRecord, Option<String>),
) -> bool {
    match placed.1 {
        Some(name) => tells_container(info, placed.0, name@),
        None => false,
    }
}

/// What a client is told of all containers, beside each of which is its zone's
/// name; the listing fails where a zone is gone.
pub fn list_containers(containers: Vec<(ContainerRecord, Option<String>)>) -> (res: Result<
    Vec<ContainerInfo>,
    Status,
>)
    ensures
        match res {
            Ok(infos) => infos@.len() == containers@.len() && forall|i: int|
                0 <= i < infos@.len() ==> tells_placed(#[trigger] infos@[i], containers@[i]),
            Err(s) => s@ == zone_missing() && exists|i: int|
                0 <= i < containers@.len() && (#[trigger] containers@[i]).1 is None,
        },
        res matches Ok(infos) ==> forall|i: int|
            #![trigger infos@[i]]
            0 <= i < infos@.len() ==> infos@[i].name@ == containers@[i].0.name@ && infos@[i].image@
                == containers@[i].0.image@ && infos@[i].state@ == containers@[i].0.state@
                && infos@[i].id@ == ids::hyphenated(containers@[i].0.id),
{
    let ghost all = containers@;
    let mut out: Vec<ContainerInfo> = Vec::new();
    for entry in it: containers
        invariant
            all == containers@,
            it.seq() == all,
            out@.len() == it.index(),
            forall|j: int| 0 <= j < out@.len() ==> tells_placed(#[trigger] out@[j], all[j]),
    {
        let ghost at = it.index() as int;
        assert(entry == all[at]);
        let (container, zone_name) = entry;
        match container_info(container, zone_name) {
            Ok(info) => {
                assert(tells_placed(info, all[at]));
                out.push(info);
            },
            Err(s) => {
                return Err(s);
            },
        }
    }
    Ok(out)
}

/// A client is told of a container by the container's own record: its name under the
/// name, its image under the image, its state under the state, its own identifier and its
/// zone's, each under its own word. A container without a process has the number zero,
/// and one that was not started has no time of its start.
pub proof fn law_container_is_told_as_recorded(
    info: ContainerInfo,
    container: ContainerRecord,
    zone_name: Seq<char>,
)
    requires
        tells_container(info, container, zone_name),
    ensures
        info.name@ == container.name@,
        info.image@ == container.image@,
        info.state@ == container.state@,
        info.id@ == ids::hyphenated(container.id),
        info.zone_id@ == ids::hyphenated(container.zone_id),
        info.zone_name@ == zone_name,
        container.pid matches Some(pid) ==> info.pid == pid,
        container.pid is None ==> info.pid == 0,
        info.created_at@ == container.created_at@,
        container.started_at matches Some(t) ==> info.started_at@ == t@,
        container.started_at is None ==> info.started_at@.len() == 0,
{
    reveal_strlit("");
}

/// What a client is told when a container is created and what it is told of the container
/// afterwards are the same: the identifier, the name and the state.
pub proof fn law_created_container_is_told_again(
    created: CreateContainerResponse,
    info: ContainerInfo,
    container: ContainerRecord,
    zone_name: Seq<char>,
)
    requires
        tells_created(created, container),
        tells_container(info, container, zone_name),
    ensures
        created.container_id@ == info.id@,
        created.name@ == info.name@,
        created.state@ == info.state@,
        created.name@ == container.name@,
        created.state@ == container.state@,
        created.container_id@ == ids::hyphenated(container.id),
{
}

/// A container is created as it was asked for: the request's name, image, command and
/// environment are the container's, each in its own place, and its directory is the
/// request's, where the request names one.
pub proof fn law_container_is_created_as_asked(spec: ContainerSpec, req: CreateContainerRequest)
    requires
        specifies(spec, req),
    ensures
        spec.name@ == req.name@,
        spec.image@ == req.image@,
        spec.command@ == req.command@,
        spec.env@ == req.env@,
        spec.working_dir is None <==> req.working_dir@.len() == 0,
        spec.working_dir matches Some(dir) ==> dir@ == req.working_dir@,
        spec.rootfs_path is None,
        spec.overlay_layers is None,
{
}

/// A listing tells each container in its own place, as it would be told alone: two
/// containers with one zone name differ in what is told of them where their records do.
pub proof fn law_listing_tells_each_container(
    infos: Seq<ContainerInfo>,
    containers: Seq<(ContainerRecord, Option<String>)>,
    i: int,
)
    requires
        infos.len() == containers.len(),
        forall|k: int| 0 <= k < infos.len() ==> tells_placed(#[trigger] infos[k], containers[k]),
        0 <= i < infos.len(),
    ensures
        infos[i].name@ == containers[i].0.name@,
        infos[i].image@ == containers[i].0.image@,
        infos[i].state@ == containers[i].0.state@,
        infos[i].id@ == ids::hyphenated(containers[i].0.id),
        containers[i].1 matches Some(zone) && infos[i].zone_name@ == zone@,
{
    assert(tells_placed(infos[i], containers[i]));
}

/// A container whose zone is gone is refused as the daemon's own failure, in words that
/// name no container.
pub proof fn law_missing_zone_is_internal()
    ensures
        zone_missing().code is Internal,
        zone_missing().message == "zone not found for container"@,
{
}

} // verus!
