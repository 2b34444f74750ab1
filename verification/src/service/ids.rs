//! Identifiers and times, as clients see them.

use vstd::prelude::*;
use vstd::string::StringExecFns;

use crate::number;
use crate::status;
use crate::status::{Code, Status};
use crate::text;

verus! {

/// The lowest `len` hexadecimal digits of `n`.
pub open spec fn low_hex(n: nat, len: nat) -> Seq<char>
    decreases len,
{
    if len == 0 {
        Seq::empty()
    } else {
        low_hex(n / 16, (len - 1) as nat).push(number::hex_digit((n % 16) as int))
    }
}

/// An identifier in five groups of hexadecimal digits, with hyphens between.
pub open spec fn hyphenated(id: u128) -> Seq<char> {
    let digits = low_hex(id as nat, 32);
    digits.subrange(0, 8) + "-"@ + digits.subrange(8, 12) + "-"@ + digits.subrange(12, 16) + "-"@
        + digits.subrange(16, 20) + "-"@ + digits.subrange(20, 32)
}

/// `uuid::Uuid::from_u128` and its `to_string`: the hyphenated form, in lower case.
#[verifier::external_body]
pub(crate) fn id_text(id: u128) -> (res: String)
    ensures
        res@ == hyphenated(id),
{
    uuid::Uuid::from_u128(id).to_string()
}

/// What `str::parse` into a `uuid::Uuid` makes of a text: an identifier, or the
/// error in words.
pub uninterp spec fn id_of(s: Seq<char>) -> Result<u128, Seq<char>>;

/// An identifier that was read, or the error in words.
pub open spec fn id_in(r: Result<u128, String>) -> Result<u128, Seq<char>> {
    match r {
        Ok(id) => Ok(id),
        Err(e) => Err(e@),
    }
}

/// `str::parse` into a `uuid::Uuid`: the result depends on the text alone, and the
/// hyphenated form of an identifier gives the identifier.
#[verifier::external_body]
fn parse_id(s: &str) -> (res: Result<u128, String>)
    ensures
        id_in(res) == id_of(s@),
        forall|id: u128| s@ == #[trigger] hyphenated(id) ==> res is Ok && res->Ok_0 == id,
{
    match s.parse::<uuid::Uuid>() {
        Ok(id) => Ok(id.as_u128()),
        Err(e) => Err(e.to_string()),
    }
}

/// The container that a text that was read names, or the status that refuses it.
pub open spec fn container_named(id: Result<u128, Seq<char>>) -> Result<u128, status::StatusText> {
    match id {
        Ok(id) => Ok(id),
        Err(e) => Err(status::status(Code::InvalidArgument, "invalid container ID: "@ + e)),
    }
}

/// What a result says of an identifier or a status.
pub open spec fn named_in(r: Result<u128, Status>) -> Result<u128, status::StatusText> {
    match r {
        Ok(id) => Ok(id),
        Err(s) => Err(s@),
    }
}

/// The container that a text that was read names.
pub fn accept_container_id(read: Result<u128, String>) -> (res: Result<u128, Status>)
    ensures
        named_in(res) == container_named(id_in(read)),
{
    match read {
        Ok(id) => Ok(id),
        Err(e) => {
            let mut message = "invalid container ID: ".to_owned();
            message.append(e.as_str());
            Err(Status::new(Code::InvalidArgument, message))
        },
    }
}

/// The container that a request names.
pub fn parse_container_id(container_id: &str) -> (res: Result<u128, Status>)
    ensures
        named_in(res) == container_named(id_of(container_id@)),
        forall|id: u128|
            container_id@ == #[trigger] hyphenated(id) ==> res == Ok::<u128, Status>(id),
{
    accept_container_id(parse_id(container_id))
}

/// The hyphenated form of an identifier has 36 characters.
pub proof fn law_id_text_is_regular(id: u128)
    ensures
        hyphenated(id).len() == 36,
        hyphenated(id)[8] == '-' && hyphenated(id)[13] == '-' && hyphenated(id)[18] == '-'
            && hyphenated(id)[23] == '-',
{
    reveal_strlit("-");
    lemma_low_hex_len(id as nat, 32);
}

proof fn lemma_low_hex_len(n: nat, len: nat)
    ensures
        low_hex(n, len).len() == len,
    decreases len,
{
    if len > 0 {
        lemma_low_hex_len(n / 16, (len - 1) as nat);
    }
}

/// What `chrono::DateTime::from_timestamp` and `to_rfc3339` make of a moment, in
/// seconds since the start of 1970 and nanoseconds; nothing where the moment is
/// outside what dates can be.
pub uninterp spec fn rfc3339_of(secs: i64, nanos: u32) -> Option<Seq<char>>;

/// `chrono::DateTime::from_timestamp` and `to_rfc3339`: the text depends on the
/// moment alone, and there is none where the moment is no date.
#[verifier::external_body]
fn rfc3339(secs: i64, nanos: u32) -> (res: Option<String>)
    ensures
        text::text_in(res) == rfc3339_of(secs, nanos),
{
    chrono::DateTime::from_timestamp(secs, nanos).map(|t| t.to_rfc3339())
}

/// A moment that is a date, as clients see it.
#[derive(Clone, Debug, PartialEq, Eq)]
pub struct Timestamp {
    text: String,
}

impl View for Timestamp {
    type V = Seq<char>;

    closed spec fn view(&self) -> Seq<char> {
        self.text@
    }
}

impl Timestamp {
    /// The moment so many seconds and nanoseconds after the start of 1970.
    pub fn from_unix(secs: i64, nanos: u32) -> (res: Option<Self>)
        ensures
            match res {
                Some(t) => rfc3339_of(secs, nanos) == Some(t@),
                None => rfc3339_of(secs, nanos) is None,
            },
    {
        match rfc3339(secs, nanos) {
            Some(text) => Some(Timestamp { text }),
            None => None,
        }
    }

    /// The moment in RFC 3339.
    pub fn to_text(&self) -> (res: String)
        ensures
            res@ == self@,
    {
        self.text.clone()
    }
}

/// A text that names no container is refused as the client's fault, with the reason; one
/// that names a container is that container's identifier.
pub proof fn law_unread_identifier_is_refused(id: Result<u128, Seq<char>>)
    ensures
        id matches Ok(n) ==> container_named(id) == Ok::<u128, status::StatusText>(n),
        id matches Err(e) ==> (container_named(id) matches Err(s) && s.code is InvalidArgument
            && s.message == "invalid container ID: "@ + e),
{
}

} // verus!
