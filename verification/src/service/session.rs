//! Interactive sessions: running a command in a container, and attaching to one.
//!
//! A session is opened in stages. Each stage waits for one thing to happen, and
//! what happened decides what is done next: look the container up, find its zone,
//! ask the zone's shim, connect to where the shim says, and relay.

use vstd::prelude::*;
use vstd::string::StringExecFns;

use crate::service::containers;
use crate::service::containers::require_zone;
use crate::service::ids;
use crate::service::ids::{id_text, parse_container_id};
use crate::status;
use crate::status::{to_status, Code, RauhaError, Status};
use crate::text;

verus! {

/// What a session is for.
#[derive(Clone, Copy, Debug, PartialEq, Eq, Structural)]
pub enum Kind {
    /// To run a command.
    Exec,
    /// To attach to what runs.
    Attach,
}

/// What is asked of a shim.
#[derive(Clone, Debug, PartialEq, Eq)]
pub enum ShimRequest {
    Exec { id: String, command: Vec<String>, env: Vec<String>, pty: bool },
    Attach { id: String, pty: bool },
    ResizePty { id: String, session_id: Option<String>, rows: u32, cols: u32 },
}

/// What a `ShimRequest` says.
pub enum RequestText {
    Exec { id: Seq<char>, command: Seq<Seq<char>>, env: Seq<Seq<char>>, pty: bool },
    Attach { id: Seq<char>, pty: bool },
    ResizePty { id: Seq<char>, session_id: Option<Seq<char>>, rows: u32, cols: u32 },
}

impl View for ShimRequest {
    type V = RequestText;

    open spec fn view(&self) -> RequestText {
        match self {
            ShimRequest::Exec { id, command, env, pty } => RequestText::Exec {
                id: id@,
                command: text::texts(command@),
                env: text::texts(env@),
                pty: *pty,
            },
            ShimRequest::Attach { id, pty } => RequestText::Attach { id: id@, pty: *pty },
            ShimRequest::ResizePty { id, session_id, rows, cols } => RequestText::ResizePty {
                id: id@,
                session_id: text::text_in(*session_id),
                rows: *rows,
                cols: *cols,
            },
        }
    }
}

/// What a shim answers.
#[derive(Clone, Debug, PartialEq, Eq)]
pub enum ShimResponse {
    /// What was asked is done.
    Done,
    ExecReady {
        session_id: Option<String>,
        socket_path: Option<String>,
        vsock_port: Option<u32>,
    },
    AttachReady { socket_path: String, session_id: Option<String> },
    Error { message: String },
    /// Anything else, in the shim's own words.
    Other(String),
}

/// The start of a session in which a command is run.
#[derive(Clone, Debug, PartialEq, Eq)]
pub struct ExecStart {
    pub container_id: String,
    pub command: Vec<String>,
    /// The variables of its environment, and their values.
    pub env: Vec<(String, String)>,
    pub tty: bool,
}

/// The first thing that comes from a client.
#[derive(Clone, Debug, PartialEq, Eq)]
pub enum FirstMessage {
    /// Nothing, or an error.
    Missing,
    /// A message that starts no session of the kind.
    Other,
    Exec(ExecStart),
    /// The container to attach to.
    Attach(String),
}

/// Where a session's stream is.
#[derive(Clone, Debug, PartialEq, Eq)]
pub enum Endpoint {
    /// A socket of the shim for commands.
    ExecSocket(String),
    /// A port of a virtual machine.
    ExecVsock(u32),
    /// A socket of the shim for attaching.
    AttachSocket(String),
}

/// What an `Endpoint` says.
pub enum EndpointText {
    ExecSocket(Seq<char>),
    ExecVsock(u32),
    AttachSocket(Seq<char>),
}

impl View for Endpoint {
    type V = EndpointText;

    open spec fn view(&self) -> EndpointText {
        match self {
            Endpoint::ExecSocket(path) => EndpointText::ExecSocket(path@),
            Endpoint::ExecVsock(port) => EndpointText::ExecVsock(*port),
            Endpoint::AttachSocket(path) => EndpointText::AttachSocket(path@),
        }
    }
}

/// A variable and its value, with an equals sign between.
pub open spec fn env_text(var: (String, String)) -> Seq<char> {
    var.0@ + "="@ + var.1@
}

/// The environment, a text for each variable.
pub open spec fn env_texts(env: Seq<(String, String)>) -> Seq<Seq<char>> {
    env.map_values(|var: (String, String)| env_text(var))
}

fn env_list(env: &Vec<(String, String)>) -> (res: Vec<String>)
    ensures
        text::texts(res@) == env_texts(env@),
{
    let mut out: Vec<String> = Vec::new();
    let mut i: usize = 0;
    while i < env.len()
        invariant
            i <= env@.len(),
            text::texts(out@) == env_texts(env@).take(i as int),
        decreases env@.len() - i,
    {
        let ghost had = text::texts(out@);
        let mut var = env[i].0.clone();
        var.append("=");
        var.append(env[i].1.as_str());
        out.push(var);
        assert(var@ == env_text(env@[i as int]));
        assert(text::texts(out@) == had.push(var@));
        assert(env_texts(env@).take(i + 1) == had.push(var@));
        i = i + 1;
    }
    assert(env_texts(env@).take(env@.len() as int) == env_texts(env@));
    out
}

/// What is wrong with the first message, by kind.
pub open spec fn first_refusal(kind: Kind, first: FirstMessage) -> Option<status::StatusText> {
    match (kind, first) {
        (_, FirstMessage::Missing) => Some(
            status::status(Code::InvalidArgument, "empty stream"@),
        ),
        (Kind::Exec, FirstMessage::Exec(_)) => None,
        (Kind::Attach, FirstMessage::Attach(_)) => None,
        (Kind::Exec, _) => Some(
            status::status(Code::InvalidArgument, "first message must be ExecStreamStart"@),
        ),
        (Kind::Attach, _) => Some(
            status::status(Code::InvalidArgument, "first message must be AttachStart"@),
        ),
    }
}

/// The container that a start names.
pub open spec fn named_by(first: FirstMessage) -> Seq<char> {
    match first {
        FirstMessage::Exec(start) => start.container_id@,
        FirstMessage::Attach(id) => id@,
        _ => Seq::empty(),
    }
}

/// What is asked of the shim for a start that names a container. Attaching is
/// always to a terminal.
pub open spec fn request_for(first: FirstMessage, id: u128) -> RequestText {
    match first {
        FirstMessage::Exec(start) => RequestText::Exec {
            id: ids::hyphenated(id),
            command: text::texts(start.command@),
            env: env_texts(start.env@),
            pty: start.tty,
        },
        _ => RequestText::Attach { id: ids::hyphenated(id), pty: true },
    }
}

/// A session that a client started: its container, and what to ask of the shim.
#[derive(Clone, Debug, PartialEq, Eq)]
pub struct Opened {
    pub id: u128,
    pub request: ShimRequest,
}

/// Opens a session by its first message. It is refused where that does not start
/// one of the kind, or names no container.
pub fn open(kind: Kind, first: FirstMessage) -> (res: Result<Opened, Status>)
    ensures
        match res {
            Ok(opened) => {
                &&& first_refusal(kind, first) is None
                &&& ids::id_of(named_by(first)) == Ok::<u128, Seq<char>>(opened.id)
                &&& opened.request@ == request_for(first, opened.id)
            },
            Err(s) => match first_refusal(kind, first) {
                Some(refusal) => s@ == refusal,
                None => ids::container_named(ids::id_of(named_by(first))) == Err::<
                    u128,
                    status::StatusText,
                >(s@),
            },
        },
        forall|id: u128|
            first_refusal(kind, first) is None && named_by(first) == #[trigger] ids::hyphenated(id)
                ==> res is Ok && res->Ok_0.id == id,
        res matches Ok(opened) ==> (first matches FirstMessage::Exec(start) ==> (
        opened.request matches ShimRequest::Exec { command, pty, .. } && pty == start.tty && command
            == start.command)),
        res matches Ok(opened) ==> (first is Attach ==> (
        opened.request matches ShimRequest::Attach { pty, .. } && pty)),
{
    match (kind, first) {
        (_, FirstMessage::Missing) => Err(
            Status::new(Code::InvalidArgument, "empty stream".to_owned()),
        ),
        (Kind::Exec, FirstMessage::Exec(start)) => {
            match parse_container_id(start.container_id.as_str()) {
                Ok(id) => {
                    let env = env_list(&start.env);
                    Ok(
                        Opened {
                            id,
                            request: ShimRequest::Exec {
                                id: id_text(id),
                                command: start.command,
                                env,
                                pty: start.tty,
                            },
                        },
                    )
                },
                Err(s) => Err(s),
            }
        },
        (Kind::Attach, FirstMessage::Attach(container_id)) => {
            match parse_container_id(container_id.as_str()) {
                Ok(id) => Ok(
                    Opened { id, request: ShimRequest::Attach { id: id_text(id), pty: true } },
                ),
                Err(s) => Err(s),
            }
        },
        (Kind::Exec, _) => Err(
            Status::new(
                Code::InvalidArgument,
                "first message must be ExecStreamStart".to_owned(),
            ),
        ),
        (Kind::Attach, _) => Err(
            Status::new(Code::InvalidArgument, "first message must be AttachStart".to_owned()),
        ),
    }
}

/// Where the stream is that a shim answered with, or the status that ends the
/// session. A command's stream may be on a socket, on a port, or, from older shims,
/// on a socket for attaching; the socket is preferred.
pub open spec fn routed(kind: Kind, response: ShimResponse) -> Result<
    (EndpointText, Option<Seq<char>>),
    status::StatusText,
> {
    match (kind, response) {
        (
            Kind::Exec,
            ShimResponse::ExecReady { session_id, socket_path: Some(path), .. },
        ) => Ok((EndpointText::ExecSocket(path@), text::text_in(session_id))),
        (
            Kind::Exec,
            ShimResponse::ExecReady { session_id, socket_path: None, vsock_port: Some(port) },
        ) => Ok((EndpointText::ExecVsock(port), text::text_in(session_id))),
        (_, ShimResponse::AttachReady { socket_path, session_id }) => Ok(
            (EndpointText::AttachSocket(socket_path@), text::text_in(session_id)),
        ),
        (Kind::Exec, ShimResponse::Error { message }) => Err(
            status::status(Code::Internal, "exec failed: "@ + message@),
        ),
        (Kind::Attach, ShimResponse::Error { message }) => Err(
            status::status(Code::Internal, "attach failed: "@ + message@),
        ),
        _ => Err(status::status(Code::Internal, "unexpected shim response"@)),
    }
}

/// Where a session's stream is, and the session's name with the shim.
#[derive(Clone, Debug, PartialEq, Eq)]
pub struct Route {
    pub endpoint: Endpoint,
    pub session_id: Option<String>,
}

/// What a result says of a route or a status.
pub open spec fn route_in(r: Result<Route, Status>) -> Result<
    (EndpointText, Option<Seq<char>>),
    status::StatusText,
> {
    match r {
        Ok(route) => Ok((route.endpoint@, text::text_in(route.session_id))),
        Err(s) => Err(s@),
    }
}

/// Where the stream is that a shim answered with.
pub fn route(kind: Kind, response: ShimResponse) -> (res: Result<Route, Status>)
    ensures
        route_in(res) == routed(kind, response),
{
    match (kind, response) {
        (Kind::Exec, ShimResponse::ExecReady { session_id, socket_path: Some(path), .. }) => Ok(
            Route { endpoint: Endpoint::ExecSocket(path), session_id },
        ),
        (
            Kind::Exec,
            ShimResponse::ExecReady { session_id, socket_path: None, vsock_port: Some(port) },
        ) => Ok(Route { endpoint: Endpoint::ExecVsock(port), session_id }),
        (_, ShimResponse::AttachReady { socket_path, session_id }) => Ok(
            Route { endpoint: Endpoint::AttachSocket(socket_path), session_id },
        ),
        (Kind::Exec, ShimResponse::Error { message }) => {
            let mut text = "exec failed: ".to_owned();
            text.append(message.as_str());
            Err(Status::new(Code::Internal, text))
        },
        (Kind::Attach, ShimResponse::Error { message }) => {
            let mut text = "attach failed: ".to_owned();
            text.append(message.as_str());
            Err(Status::new(Code::Internal, text))
        },
        _ => Err(Status::new(Code::Internal, "unexpected shim response".to_owned())),
    }
}

/// What is said of a shim that could not be asked.
pub open spec fn unasked(kind: Kind, reason: Seq<char>) -> status::StatusText {
    match kind {
        Kind::Exec => status::status(Code::Internal, "shim exec failed: "@ + reason),
        Kind::Attach => status::status(Code::Internal, "shim attach failed: "@ + reason),
    }
}

/// What is said of a stream that could not be reached.
pub open spec fn not_reached(endpoint: EndpointText, reason: Seq<char>) -> status::StatusText {
    match endpoint {
        EndpointText::ExecSocket(_) => status::status(
            Code::Internal,
            "failed to connect to exec socket: "@ + reason,
        ),
        EndpointText::ExecVsock(_) => status::status(
            Code::Internal,
            "failed to connect exec vsock: "@ + reason,
        ),
        EndpointText::AttachSocket(_) => status::status(
            Code::Internal,
            "failed to connect to attach socket: "@ + reason,
        ),
    }
}

/// Where a terminal's size is to be told.
#[derive(Clone, Debug, PartialEq, Eq)]
pub struct PtyResizeTarget {
    pub zone_name: String,
    pub container_id: String,
    pub session_id: Option<String>,
}

/// What a session waits for.
#[derive(Clone, Debug, PartialEq, Eq)]
pub enum Stage {
    /// The client's first message.
    Starting,
    /// Whether the container is there.
    Finding(Opened),
    /// The name of the container's zone.
    Placing(Opened),
    /// The shim's answer.
    Asking { id: u128, zone_name: String },
    /// The connection.
    Connecting { id: u128, zone_name: String, route: Route },
    /// Nothing more.
    Ended,
}

/// What happened.
#[derive(Debug, PartialEq, Eq)]
pub enum Happened {
    First(FirstMessage),
    Container(Result<(), RauhaError>),
    Zone(Option<String>),
    Answer(Result<ShimResponse, String>),
    Connection(Result<(), String>),
}

/// What is done next.
#[derive(Clone, Debug, PartialEq, Eq)]
pub enum Todo {
    FindContainer(u128),
    FindZone,
    AskShim { zone_name: String, request: ShimRequest },
    Connect(Endpoint),
    /// Relay between the client and the connection.
    Relay(PtyResizeTarget),
    /// Refuse the session.
    Refuse(Status),
}

/// Whether a stage waits for such a thing.
pub open spec fn awaited(stage: Stage, happened: Happened) -> bool {
    match (stage, happened) {
        (Stage::Starting, Happened::First(_)) => true,
        (Stage::Finding(_), Happened::Container(_)) => true,
        (Stage::Placing(_), Happened::Zone(_)) => true,
        (Stage::Asking { .. }, Happened::Answer(_)) => true,
        (Stage::Connecting { .. }, Happened::Connection(_)) => true,
        _ => false,
    }
}

/// Whether a session ends in this refusal.
pub open spec fn refused(after: Stage, todo: Todo, refusal: status::StatusText) -> bool {
    after is Ended && (todo matches Todo::Refuse(s) && s@ == refusal)
}

/// Whether, at a stage, what happened is followed by this stage and deed.
pub open spec fn follows(
    kind: Kind,
    stage: Stage,
    happened: Happened,
    after: Stage,
    todo: Todo,
) -> bool {
    match (stage, happened) {
        (Stage::Starting, Happened::First(first)) => match first_refusal(kind, first) {
            Some(refusal) => refused(after, todo, refusal),
            None => match ids::container_named(ids::id_of(named_by(first))) {
                Err(refusal) => refused(after, todo, refusal),
                Ok(id) => {
                    &&& after matches Stage::Finding(opened)
                    &&& opened.id == id
                    &&& opened.request@ == request_for(first, id)
                    &&& todo == Todo::FindContainer(id)
                },
            },
        },
        (Stage::Finding(opened), Happened::Container(Err(e))) => refused(
            after,
            todo,
            status::status(status::code_for(e.kind), e.display@),
        ),
        (Stage::Finding(opened), Happened::Container(Ok(_))) => after == Stage::Placing(opened)
            && todo == Todo::FindZone,
        (Stage::Placing(opened), Happened::Zone(None)) => refused(
            after,
            todo,
            containers::zone_missing(),
        ),
        (Stage::Placing(opened), Happened::Zone(Some(name))) => {
            &&& after matches Stage::Asking { id, zone_name: z }
            &&& id == opened.id
            &&& z@ == name@
            &&& todo matches Todo::AskShim { zone_name: asked, request }
            &&& asked@ == name@
            &&& request == opened.request
        },
        (Stage::Asking { .. }, Happened::Answer(Err(reason))) => refused(
            after,
            todo,
            unasked(kind, reason@),
        ),
        (Stage::Asking { id, zone_name }, Happened::Answer(Ok(response))) => match routed(
            kind,
            response,
        ) {
            Err(refusal) => refused(after, todo, refusal),
            Ok((endpoint, session)) => {
                &&& after matches Stage::Connecting { id: i, zone_name: z, route: r }
                &&& i == id
                &&& z@ == zone_name@
                &&& r.endpoint@ == endpoint
                &&& text::text_in(r.session_id) == session
                &&& todo matches Todo::Connect(e)
                &&& e@ == endpoint
            },
        },
        (Stage::Connecting { route: r, .. }, Happened::Connection(Err(reason))) => refused(
            after,
            todo,
            not_reached(r.endpoint@, reason@),
        ),
        (
            Stage::Connecting { id, zone_name, route: r },
            Happened::Connection(Ok(_)),
        ) => {
            &&& after is Ended
            &&& todo matches Todo::Relay(target)
            &&& target.zone_name@ == zone_name@
            &&& target.container_id@ == ids::hyphenated(id)
            &&& text::text_in(target.session_id) == text::text_in(r.session_id)
        },
        _ => false,
    }
}

fn refuse(s: Status) -> (res: (Stage, Todo))
    ensures
        refused(res.0, res.1, s@),
{
    (Stage::Ended, Todo::Refuse(s))
}

fn internal(front: &str, reason: &str) -> (res: Status)
    ensures
        res@ == status::status(Code::Internal, front@ + reason@),
{
    let mut message = front.to_owned();
    message.append(reason);
    Status::new(Code::Internal, message)
}

fn copy_endpoint(endpoint: &Endpoint) -> (res: Endpoint)
    ensures
        res@ == endpoint@,
{
    match endpoint {
        Endpoint::ExecSocket(path) => Endpoint::ExecSocket(path.clone()),
        Endpoint::ExecVsock(port) => Endpoint::ExecVsock(*port),
        Endpoint::AttachSocket(path) => Endpoint::AttachSocket(path.clone()),
    }
}

/// What follows what happened, at a stage that waited for it.
pub fn advance(kind: Kind, stage: Stage, happened: Happened) -> (res: (Stage, Todo))
    requires
        awaited(stage, happened),
    ensures
        follows(kind, stage, happened, res.0, res.1),
{
    match (stage, happened) {
        (Stage::Starting, Happened::First(first)) => match open(kind, first) {
            Ok(opened) => {
                let id = opened.id;
                (Stage::Finding(opened), Todo::FindContainer(id))
            },
            Err(s) => refuse(s),
        },
        (Stage::Finding(opened), Happened::Container(found)) => match found {
            Ok(_) => (Stage::Placing(opened), Todo::FindZone),
            Err(e) => refuse(to_status(e)),
        },
        (Stage::Placing(opened), Happened::Zone(zone)) => match require_zone(zone) {
            Ok(zone_name) => (
                Stage::Asking { id: opened.id, zone_name: zone_name.clone() },
                Todo::AskShim { zone_name, request: opened.request },
            ),
            Err(s) => refuse(s),
        },
        (Stage::Asking { id, zone_name }, Happened::Answer(answer)) => match answer {
            Ok(response) => match route(kind, response) {
                Ok(found) => {
                    let endpoint = copy_endpoint(&found.endpoint);
                    (Stage::Connecting { id, zone_name, route: found }, Todo::Connect(endpoint))
                },
                Err(s) => refuse(s),
            },
            Err(reason) => match kind {
                Kind::Exec => refuse(internal("shim exec failed: ", reason.as_str())),
                Kind::Attach => refuse(internal("shim attach failed: ", reason.as_str())),
            },
        },
        (Stage::Connecting { id, zone_name, route: found }, Happened::Connection(made)) => {
            match made {
                Ok(_) => (
                    Stage::Ended,
                    Todo::Relay(
                        PtyResizeTarget {
                            zone_name,
                            container_id: id_text(id),
                            session_id: found.session_id,
                        },
                    ),
                ),
                Err(reason) => match found.endpoint {
                    Endpoint::ExecSocket(_) => refuse(
                        internal("failed to connect to exec socket: ", reason.as_str()),
                    ),
                    Endpoint::ExecVsock(_) => refuse(
                        internal("failed to connect exec vsock: ", reason.as_str()),
                    ),
                    Endpoint::AttachSocket(_) => refuse(
                        internal("failed to connect to attach socket: ", reason.as_str()),
                    ),
                },
            }
        },
        _ => refuse(Status::new(Code::Internal, "unexpected shim response".to_owned())),
    }
}

/// A shim is asked only for a container that is there and whose zone has a name,
/// and it is asked what the session was opened with.
pub proof fn law_shim_is_asked_for_placed_containers(
    kind: Kind,
    stage: Stage,
    happened: Happened,
    after: Stage,
    todo: Todo,
)
    requires
        follows(kind, stage, happened, after, todo),
        todo is AskShim,
    ensures
        stage is Placing,
        happened matches Happened::Zone(Some(name)) && todo->AskShim_zone_name@ == name@,
        todo->AskShim_request == stage->Placing_0.request,
{
}

/// Nothing is relayed before a connection is made.
pub proof fn law_relay_follows_connection(
    kind: Kind,
    stage: Stage,
    happened: Happened,
    after: Stage,
    todo: Todo,
)
    requires
        follows(kind, stage, happened, after, todo),
        todo is Relay,
    ensures
        stage is Connecting,
        happened matches Happened::Connection(Ok(_)),
{
}

/// A session that is refused by its first message is refused as the client's fault.
pub proof fn law_bad_start_is_invalid(
    kind: Kind,
    happened: Happened,
    after: Stage,
    todo: Todo,
)
    requires
        follows(kind, Stage::Starting, happened, after, todo),
        todo is Refuse,
    ensures
        todo->Refuse_0.code == Code::InvalidArgument,
        after is Ended,
{
}

/// A session that is past its first message goes on until it is relayed or refused:
/// each stage is followed by the next, or by the end.
pub proof fn law_stages_come_in_order(
    kind: Kind,
    stage: Stage,
    happened: Happened,
    after: Stage,
    todo: Todo,
)
    requires
        follows(kind, stage, happened, after, todo),
    ensures
        stage is Starting ==> after is Finding || after is Ended,
        stage is Finding ==> after is Placing || after is Ended,
        stage is Placing ==> after is Asking || after is Ended,
        stage is Asking ==> after is Connecting || after is Ended,
        stage is Connecting ==> after is Ended,
        after is Ended <==> todo is Refuse || todo is Relay,
{
}

/// A session that runs a command asks the shim for a terminal exactly where the start
/// asks for one, for the start's own command, with a text `name=value` for each of the
/// start's variables, in their order, in the container that the start names.
pub proof fn law_command_is_asked_for_as_started(
    kind: Kind,
    start: ExecStart,
    after: Stage,
    todo: Todo,
)
    requires
        follows(
            kind,
            Stage::Starting,
            Happened::First(FirstMessage::Exec(start)),
            after,
            todo,
        ),
        !(todo is Refuse),
    ensures
        kind is Exec,
        after matches Stage::Finding(opened) && {
            &&& todo == Todo::FindContainer(opened.id)
            &&& ids::id_of(start.container_id@) == Ok::<u128, Seq<char>>(opened.id)
            &&& opened.request matches ShimRequest::Exec { id, command, env, pty }
            &&& pty == start.tty
            &&& id@ == ids::hyphenated(opened.id)
            &&& command@.len() == start.command@.len()
            &&& forall|i: int|
                0 <= i < command@.len() ==> (#[trigger] command@[i])@ == start.command@[i]@
            &&& env@.len() == start.env@.len()
            &&& forall|i: int|
                0 <= i < env@.len() ==> (#[trigger] env@[i])@ == start.env@[i].0@ + "="@
                    + start.env@[i].1@
        },
{
    let opened = after->Finding_0;
    let (command, env) = match opened.request {
        ShimRequest::Exec { id, command, env, pty } => (command, env),
        _ => (start.command, start.command),
    };
    assert(text::texts(command@) == text::texts(start.command@));
    assert(text::texts(command@).len() == command@.len());
    assert forall|i: int| 0 <= i < command@.len() implies (#[trigger] command@[i])@
        == start.command@[i]@ by {
        assert(text::texts(command@)[i] == command@[i]@);
        assert(text::texts(start.command@)[i] == start.command@[i]@);
    }
    assert(text::texts(env@) == env_texts(start.env@));
    assert(text::texts(env@).len() == env@.len());
    assert forall|i: int| 0 <= i < env@.len() implies (#[trigger] env@[i])@ == start.env@[i].0@
        + "="@ + start.env@[i].1@ by {
        assert(text::texts(env@)[i] == env@[i]@);
        assert(env_texts(start.env@)[i] == env_text(start.env@[i]));
    }
}

/// Two starts that differ in nothing but whether they ask for a terminal are asked of
/// the shim with nothing different but that.
pub proof fn law_terminal_makes_the_only_difference(
    start: ExecStart,
    other: ExecStart,
    opened: Opened,
    opened_other: Opened,
)
    requires
        other == (ExecStart { tty: !start.tty, ..start }),
        opened.request@ == request_for(FirstMessage::Exec(start), opened.id),
        opened_other.request@ == request_for(FirstMessage::Exec(other), opened_other.id),
        opened.id == opened_other.id,
    ensures
        opened.request matches ShimRequest::Exec { id, command, env, pty } && (
        opened_other.request matches ShimRequest::Exec { id: i, command: c, env: e, pty: p } && pty
            == start.tty && p == !start.tty && id@ == i@ && text::texts(command@) == text::texts(c@)
            && text::texts(env@) == text::texts(e@)),
{
}

/// A session that attaches always asks for a terminal, of the container that the start
/// names.
pub proof fn law_attaching_is_to_a_terminal(
    kind: Kind,
    container: String,
    after: Stage,
    todo: Todo,
)
    requires
        follows(
            kind,
            Stage::Starting,
            Happened::First(FirstMessage::Attach(container)),
            after,
            todo,
        ),
        !(todo is Refuse),
    ensures
        kind is Attach,
        after matches Stage::Finding(opened) && {
            &&& todo == Todo::FindContainer(opened.id)
            &&& ids::id_of(container@) == Ok::<u128, Seq<char>>(opened.id)
            &&& opened.request matches ShimRequest::Attach { id, pty }
            &&& pty
            &&& id@ == ids::hyphenated(opened.id)
        },
{
}

/// A session is started only by the message of its own kind: any other is refused, and
/// so is a stream without a message and a start whose container has no identifier, each
/// in its own words.
pub proof fn law_other_messages_start_nothing(
    kind: Kind,
    first: FirstMessage,
    after: Stage,
    todo: Todo,
)
    requires
        follows(kind, Stage::Starting, Happened::First(first), after, todo),
    ensures
        !(todo is Refuse) ==> (kind is Exec <==> first is Exec) && (kind is Attach <==> first
            is Attach),
        first is Missing ==> (todo matches Todo::Refuse(s) && s.message@ == "empty stream"@),
        first !is Missing && kind is Exec && first !is Exec ==> (todo matches Todo::Refuse(s)
            && s.message@ == "first message must be ExecStreamStart"@),
        first !is Missing && kind is Attach && first !is Attach ==> (todo matches Todo::Refuse(s)
            && s.message@ == "first message must be AttachStart"@),
        kind is Exec && first is Exec ==> (todo matches Todo::Refuse(s) ==> (ids::id_of(
            first->Exec_0.container_id@,
        ) matches Err(e) && s.message@ == "invalid container ID: "@ + e)),
        kind is Attach && first is Attach ==> (todo matches Todo::Refuse(s) ==> (ids::id_of(
            first->Attach_0@,
        ) matches Err(e) && s.message@ == "invalid container ID: "@ + e)),
{
}

/// The stream is where the shim says: on the socket that it names, else on the port that
/// it names, else on the socket for attaching; and the session keeps the name that the
/// shim gave it.
pub proof fn law_stream_is_where_the_shim_says(
    kind: Kind,
    id: u128,
    zone_name: String,
    response: ShimResponse,
    after: Stage,
    todo: Todo,
)
    requires
        follows(kind, Stage::Asking { id, zone_name }, Happened::Answer(Ok(response)), after, todo),
    ensures
        !(todo is Refuse) ==> (after matches Stage::Connecting { id: i, zone_name: z, route: r } && {
            &&& i == id
            &&& z@ == zone_name@
            &&& todo matches Todo::Connect(endpoint)
            &&& endpoint@ == r.endpoint@
            &&& response is ExecReady || response is AttachReady
            &&& response matches ShimResponse::ExecReady { session_id, socket_path, vsock_port } ==> {
                &&& kind is Exec
                &&& text::text_in(r.session_id) == text::text_in(session_id)
                &&& socket_path matches Some(path) ==> (endpoint matches Endpoint::ExecSocket(p)
                    && p@ == path@)
                &&& socket_path is None ==> (endpoint matches Endpoint::ExecVsock(p) && vsock_port
                    == Some(p))
            }
            &&& response matches ShimResponse::AttachReady { socket_path, session_id } ==> {
                &&& text::text_in(r.session_id) == text::text_in(session_id)
                &&& endpoint matches Endpoint::AttachSocket(p)
                &&& p@ == socket_path@
            }
        }),
        response is AttachReady ==> !(todo is Refuse),
        kind is Exec ==> (response matches ShimResponse::ExecReady {
            socket_path,
            vsock_port,
            ..
        } ==> (todo is Refuse <==> socket_path is None && vsock_port is None)),
        kind is Attach && response is ExecReady ==> todo is Refuse,
        todo matches Todo::Refuse(s) ==> {
            &&& s.code is Internal
            &&& response matches ShimResponse::Error { message } ==> {
                &&& kind is Exec ==> s.message@ == "exec failed: "@ + message@
                &&& kind is Attach ==> s.message@ == "attach failed: "@ + message@
            }
            &&& response !is Error ==> s.message@ == "unexpected shim response"@
        },
{
}

/// A session keeps its container and its zone: what is relayed in the end is of the
/// container that was found, in the zone whose shim was asked, under the name that the
/// shim gave the session.
pub proof fn law_session_keeps_its_container(
    kind: Kind,
    opened: Opened,
    zone: String,
    asking: Stage,
    ask: Todo,
    response: ShimResponse,
    connecting: Stage,
    connect: Todo,
    after: Stage,
    relay: Todo,
)
    requires
        follows(kind, Stage::Placing(opened), Happened::Zone(Some(zone)), asking, ask),
        follows(kind, asking, Happened::Answer(Ok(response)), connecting, connect),
        connect is Connect,
        follows(kind, connecting, Happened::Connection(Ok(())), after, relay),
    ensures
        ask matches Todo::AskShim { zone_name, request } && zone_name@ == zone@ && request
            == opened.request,
        relay matches Todo::Relay(target) && {
            &&& target.zone_name@ == zone@
            &&& target.container_id@ == ids::hyphenated(opened.id)
            &&& response matches ShimResponse::ExecReady { session_id, .. } ==> text::text_in(
                target.session_id,
            ) == text::text_in(session_id)
            &&& response matches ShimResponse::AttachReady { session_id, .. } ==> text::text_in(
                target.session_id,
            ) == text::text_in(session_id)
        },
        after is Ended,
{
    if let Stage::Asking { id, zone_name } = asking {
        law_stream_is_where_the_shim_says(kind, id, zone_name, response, connecting, connect);
    }
}

/// What fails on the way is told with its reason, as a failure of what was tried: a
/// container that is not there as the error that says so, all else as the daemon's own.
pub proof fn law_failures_on_the_way_are_told(
    kind: Kind,
    stage: Stage,
    happened: Happened,
    after: Stage,
    todo: Todo,
)
    requires
        follows(kind, stage, happened, after, todo),
    ensures
        happened matches Happened::Container(Err(e)) ==> (todo matches Todo::Refuse(s) && s.message@
            == e.display@),
        happened matches Happened::Container(Ok(_)) ==> todo is FindZone,
        happened matches Happened::Zone(None) ==> (todo matches Todo::Refuse(s) && s.code is Internal
            && s.message@ == "zone not found for container"@),
        happened matches Happened::Answer(Err(reason)) ==> (todo matches Todo::Refuse(s) && s.code
            is Internal && {
            &&& kind is Exec ==> s.message@ == "shim exec failed: "@ + reason@
            &&& kind is Attach ==> s.message@ == "shim attach failed: "@ + reason@
        }),
        happened matches Happened::Connection(Err(reason)) ==> (todo matches Todo::Refuse(s) && s.code
            is Internal && (stage matches Stage::Connecting { route: r, .. } && {
            &&& r.endpoint is ExecSocket ==> s.message@ == "failed to connect to exec socket: "@
                + reason@
            &&& r.endpoint is ExecVsock ==> s.message@ == "failed to connect exec vsock: "@ + reason@
            &&& r.endpoint is AttachSocket ==> s.message@ == "failed to connect to attach socket: "@
                + reason@
        })),
{
}

/// What is said of a request is said of its own parts, word by word.
pub proof fn law_request_is_read_off_its_parts(request: ShimRequest)
    ensures
        request matches ShimRequest::Exec { id, command, env, pty } ==> (
        request@ matches RequestText::Exec { id: i, command: c, env: e, pty: p } && i == id@ && c
            == text::texts(command@) && e == text::texts(env@) && p == pty),
        request matches ShimRequest::Attach { id, pty } ==> (
        request@ matches RequestText::Attach { id: i, pty: p } && i == id@ && p == pty),
        request matches ShimRequest::ResizePty { id, session_id, rows, cols } ==> (
        request@ matches RequestText::ResizePty { id: i, session_id: s, rows: r, cols: c } && i
            == id@ && s == text::text_in(session_id) && r == rows && c == cols),
{
}

} // verus!
