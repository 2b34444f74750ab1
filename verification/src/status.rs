//! Errors of the daemon, and the status that a client is given for each.

use vstd::prelude::*;

verus! {

/// What went wrong, as far as anything depends on it.
#[derive(Clone, Debug, PartialEq, Eq)]
pub enum ErrorKind {
    /// There is no zone of this name.
    ZoneNotFound(String),
    ContainerNotFound,
    ImageNotFound,
    ZoneAlreadyExists,
    ContainerAlreadyExists,
    InvalidInput,
    InvalidPolicy,
    PermissionDenied,
    CrossZoneAccessDenied,
    ZoneNotEmpty,
    /// The eBPF side failed; the message says how, the hint what to do.
    Ebpf { message: String, hint: String },
    /// The isolation backend failed; the message says how.
    Backend(String),
    /// There is no backend for this platform.
    UnsupportedPlatform(String),
    /// Anything else.
    Other,
}

/// An error of the daemon: what went wrong, and the error in words.
#[derive(Clone, Debug, PartialEq, Eq)]
pub struct RauhaError {
    pub kind: ErrorKind,
    pub display: String,
}

/// The status codes that clients are given.
#[derive(Clone, Copy, Debug, PartialEq, Eq, Structural)]
pub enum Code {
    InvalidArgument,
    NotFound,
    AlreadyExists,
    PermissionDenied,
    FailedPrecondition,
    Unimplemented,
    Internal,
}

/// What a client is told of a request that failed.
#[derive(Clone, Debug, PartialEq, Eq)]
pub struct Status {
    pub code: Code,
    pub message: String,
}

/// What a status says.
pub struct StatusText {
    pub code: Code,
    pub message: Seq<char>,
}

impl View for Status {
    type V = StatusText;

    open spec fn view(&self) -> StatusText {
        StatusText { code: self.code, message: self.message@ }
    }
}

/// A status with this code and message.
pub open spec fn status(code: Code, message: Seq<char>) -> StatusText {
    StatusText { code, message }
}

impl Status {
    /// A status with this code and message.
    pub fn new(code: Code, message: String) -> (res: Self)
        ensures
            res@ == status(code, message@),
            res.code == code,
            res.message@ == message@,
    {
        Status { code, message }
    }
}

/// The code that stands for an error.
pub open spec fn code_for(kind: ErrorKind) -> Code {
    match kind {
        ErrorKind::ZoneNotFound(_) | ErrorKind::ContainerNotFound | ErrorKind::ImageNotFound =>
            Code::NotFound,
        ErrorKind::ZoneAlreadyExists | ErrorKind::ContainerAlreadyExists => Code::AlreadyExists,
        ErrorKind::InvalidInput | ErrorKind::InvalidPolicy => Code::InvalidArgument,
        ErrorKind::PermissionDenied | ErrorKind::CrossZoneAccessDenied => Code::PermissionDenied,
        ErrorKind::ZoneNotEmpty => Code::FailedPrecondition,
        ErrorKind::Ebpf { .. } | ErrorKind::Backend(_) | ErrorKind::UnsupportedPlatform(_)
        | ErrorKind::Other => Code::Internal,
    }
}

/// The status that stands for an error: its kind decides the code, its words are
/// the message.
pub fn to_status(e: RauhaError) -> (res: Status)
    ensures
        res@ == status(code_for(e.kind), e.display@),
        res.message@ == e.display@,
{
    let code = match &e.kind {
        ErrorKind::ZoneNotFound(_) | ErrorKind::ContainerNotFound | ErrorKind::ImageNotFound =>
            Code::NotFound,
        ErrorKind::ZoneAlreadyExists | ErrorKind::ContainerAlreadyExists => Code::AlreadyExists,
        ErrorKind::InvalidInput | ErrorKind::InvalidPolicy => Code::InvalidArgument,
        ErrorKind::PermissionDenied | ErrorKind::CrossZoneAccessDenied => Code::PermissionDenied,
        ErrorKind::ZoneNotEmpty => Code::FailedPrecondition,
        _ => Code::Internal,
    };
    Status::new(code, e.display)
}

/// A client is told of an error by the code of its kind and in the error's own words: what
/// is missing is not found, what is there already is there, what a client got wrong is its
/// own fault, and what is left is the daemon's.
pub proof fn law_errors_have_their_codes(kind: ErrorKind)
    ensures
        code_for(kind) is NotFound <==> kind is ZoneNotFound || kind is ContainerNotFound || kind
            is ImageNotFound,
        code_for(kind) is AlreadyExists <==> kind is ZoneAlreadyExists || kind
            is ContainerAlreadyExists,
        code_for(kind) is InvalidArgument <==> kind is InvalidInput || kind is InvalidPolicy,
        code_for(kind) is PermissionDenied <==> kind is PermissionDenied || kind
            is CrossZoneAccessDenied,
        code_for(kind) is FailedPrecondition <==> kind is ZoneNotEmpty,
        code_for(kind) is Internal <==> kind is Ebpf || kind is Backend || kind
            is UnsupportedPlatform || kind is Other,
        !(code_for(kind) is Unimplemented),
{
}

} // verus!
