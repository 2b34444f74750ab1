//! How the daemon comes up and goes down, as far as it is decided here.

use vstd::prelude::*;
use vstd::string::StringExecFns;

use crate::evidence::event::Severity;
use crate::number;
use crate::number::decimal_of;
use crate::offsets;
use crate::paths;
use crate::paths::join_path;
use crate::status::ErrorKind;
use crate::text;
use crate::text::{chars_of, same, text_of, trimmed};

verus! {

/// How the log is written.
#[derive(Clone, Copy, Debug, PartialEq, Eq, Structural)]
pub enum LogFormat {
    Json,
    Text,
    /// For people where people look, else for machines.
    Auto,
}

/// How the log is written once it is known who looks.
pub open spec fn settled_format(format: LogFormat, tty: bool) -> LogFormat {
    match format {
        LogFormat::Json => LogFormat::Json,
        LogFormat::Text => LogFormat::Text,
        LogFormat::Auto => if tty {
            LogFormat::Text
        } else {
            LogFormat::Json
        },
    }
}

/// How the log is written once it is known whether the output is a terminal.
pub fn resolve_format(format: LogFormat, stdout_is_tty: bool) -> (res: LogFormat)
    ensures
        res == settled_format(format, stdout_is_tty),
{
    match format {
        LogFormat::Json => LogFormat::Json,
        LogFormat::Text => LogFormat::Text,
        LogFormat::Auto => if stdout_is_tty {
            LogFormat::Text
        } else {
            LogFormat::Json
        },
    }
}

/// The format is settled, and settling it again changes nothing.
pub proof fn law_format_is_settled(format: LogFormat, tty: bool, again: bool)
    ensures
        settled_format(format, tty) != LogFormat::Auto,
        settled_format(settled_format(format, tty), again) == settled_format(format, tty),
{
}

/// The log's filter where the environment names none.
pub fn default_filter(level: &str) -> (res: String)
    ensures
        res@ == "rauhad="@ + level@,
{
    let mut out = "rauhad=".to_owned();
    out.append(level);
    out
}

/// The name of the host where it is known, and else `unknown`.
pub open spec fn known_name(name: Option<Seq<char>>) -> Seq<char> {
    match name {
        Some(s) => if s.len() > 0 {
            s
        } else {
            "unknown"@
        },
        None => "unknown"@,
    }
}

/// The name of the host; `hostname` is what the environment says.
pub fn host_name(hostname: Option<&str>) -> (res: String)
    ensures
        res@ == known_name(offsets::slice_in(hostname)),
{
    match hostname {
        Some(name) => if name.is_empty() {
            "unknown".to_owned()
        } else {
            name.to_owned()
        },
        None => "unknown".to_owned(),
    }
}

/// What identifies the host: the first of the two files that can be read, without
/// white space around it; the host's name where neither can, or where it is blank.
pub open spec fn host_identity(
    machine_id: Option<Seq<char>>,
    dbus_id: Option<Seq<char>>,
    name: Option<Seq<char>>,
) -> Seq<char> {
    let read = match machine_id {
        Some(s) => Some(s),
        None => dbus_id,
    };
    match read {
        Some(s) => if text::trim(s).len() > 0 {
            text::trim(s)
        } else {
            known_name(name)
        },
        None => known_name(name),
    }
}

/// What identifies the host; the first two are what the files for it hold, where
/// they can be read.
pub fn host_id(machine_id: Option<&str>, dbus_id: Option<&str>, hostname: Option<&str>) -> (res:
    String)
    ensures
        res@ == host_identity(
            offsets::slice_in(machine_id),
            offsets::slice_in(dbus_id),
            offsets::slice_in(hostname),
        ),
{
    let read = match machine_id {
        Some(s) => Some(s),
        None => dbus_id,
    };
    match read {
        Some(s) => {
            let chars = chars_of(s);
            let id = trimmed(chars.as_slice());
            if id.len() == 0 {
                host_name(hostname)
            } else {
                text_of(id)
            }
        },
        None => host_name(hostname),
    }
}

/// Where the daemon keeps its files, unless the environment says otherwise.
pub open spec fn usual_root(macos: bool) -> Seq<char> {
    if macos {
        "/tmp/rauha"@
    } else {
        "/var/lib/rauha"@
    }
}

/// Where the daemon keeps its files; `rauha_root` is what the environment says.
pub fn daemon_root(rauha_root: Option<&str>, macos: bool) -> (res: String)
    ensures
        res@ == (match offsets::slice_in(rauha_root) {
            Some(root) => root,
            None => usual_root(macos),
        }),
{
    match rauha_root {
        Some(root) => root.to_owned(),
        None => if macos {
            "/tmp/rauha".to_owned()
        } else {
            "/var/lib/rauha".to_owned()
        },
    }
}

/// The directories that the daemon needs, and the file of its metadata.
#[derive(Clone, Debug, PartialEq, Eq)]
pub struct Layout {
    pub metadata: String,
    pub zones: String,
    pub content: String,
    pub database: String,
}

/// Whether these are the directories that the daemon needs below its root.
pub open spec fn lies_below(layout: Layout, root: Seq<char>) -> bool {
    &&& layout.metadata@ == paths::join(root, "metadata"@)
    &&& layout.zones@ == paths::join(root, "zones"@)
    &&& layout.content@ == paths::join(root, "content"@)
    &&& layout.database@ == paths::join(paths::join(root, "metadata"@), "rauha.redb"@)
}

/// The directories that the daemon needs below its root.
pub fn daemon_layout(root: &str) -> (res: Layout)
    ensures
        lies_below(res, root@),
        res.metadata@ == paths::join(root@, "metadata"@),
        res.zones@ == paths::join(root@, "zones"@),
        res.content@ == paths::join(root@, "content"@),
        res.database@ == paths::join(paths::join(root@, "metadata"@), "rauha.redb"@),
{
    let metadata = join_path(root, "metadata");
    let database = join_path(metadata.as_str(), "rauha.redb");
    Layout {
        metadata,
        zones: join_path(root, "zones"),
        content: join_path(root, "content"),
        database,
    }
}

/// Refuses to come up without a backend: there is one on Linux alone.
pub fn create_backend(os: &str) -> (res: Result<(), ErrorKind>)
    ensures
        match res {
            Ok(_) => os@ == "linux"@,
            Err(e) => os@ != "linux"@ && (e matches ErrorKind::UnsupportedPlatform(name) && name@
                == os@),
        },
{
    if same(os, "linux") {
        Ok(())
    } else {
        Err(ErrorKind::UnsupportedPlatform(os.to_owned()))
    }
}

/// How the daemon went down.
#[derive(Clone, Copy, Debug, PartialEq, Eq, Structural)]
pub enum Outcome {
    Succeeded,
    Failed,
}

/// How the daemon went down, and how grave that is.
pub fn shutdown_outcome(served_well: bool) -> (res: (Outcome, Severity))
    ensures
        res == (if served_well {
            (Outcome::Succeeded, Severity::Info)
        } else {
            (Outcome::Failed, Severity::Error)
        }),
{
    if served_well {
        (Outcome::Succeeded, Severity::Info)
    } else {
        (Outcome::Failed, Severity::Error)
    }
}

/// A place in the sources.
#[derive(Clone, Debug, PartialEq, Eq)]
pub struct SourcePlace {
    pub file: String,
    pub line: u32,
    pub column: u32,
}

/// A place in words.
pub open spec fn place_text(place: SourcePlace) -> Seq<char> {
    place.file@ + ":"@ + number::decimal(place.line as nat) + ":"@ + number::decimal(
        place.column as nat,
    )
}

/// Where the daemon panicked, where that is known.
pub fn panic_location(place: Option<SourcePlace>) -> (res: String)
    ensures
        res@ == (match place {
            Some(place) => place_text(place),
            None => "unknown"@,
        }),
{
    match place {
        Some(place) => {
            let mut out = place.file;
            out.append(":");
            out.append(decimal_of(place.line as u64).as_str());
            out.append(":");
            out.append(decimal_of(place.column as u64).as_str());
            out
        },
        None => "unknown".to_owned(),
    }
}

/// What the daemon panicked with, where it was a text.
pub fn panic_payload(payload: Option<String>) -> (res: String)
    ensures
        res@ == (match text::text_in(payload) {
            Some(s) => s,
            None => "panic payload is not a string"@,
        }),
{
    match payload {
        Some(s) => s,
        None => "panic payload is not a string".to_owned(),
    }
}

/// What was asked for is what the log is written in; where nothing was, people are written
/// to exactly where they look.
pub proof fn law_format_is_as_asked(tty: bool)
    ensures
        settled_format(LogFormat::Json, tty) is Json,
        settled_format(LogFormat::Text, tty) is Text,
        settled_format(LogFormat::Auto, true) is Text,
        settled_format(LogFormat::Auto, false) is Json,
{
}

/// A host is identified by the first file that can be read, and a file that is blank counts
/// for nothing, not even for the second file; a host that nothing identifies goes by its
/// name, and one without a name is unknown.
pub proof fn law_host_is_identified(
    machine_id: Option<Seq<char>>,
    dbus_id: Option<Seq<char>>,
    name: Option<Seq<char>>,
)
    ensures
        machine_id matches Some(s) ==> (text::trim(s).len() > 0 ==> host_identity(
            machine_id,
            dbus_id,
            name,
        ) == text::trim(s)),
        machine_id is None ==> (dbus_id matches Some(s) ==> (text::trim(s).len() > 0
            ==> host_identity(machine_id, dbus_id, name) == text::trim(s))),
        machine_id is None && dbus_id is None ==> host_identity(machine_id, dbus_id, name)
            == known_name(name),
        machine_id matches Some(s) ==> (text::trim(s).len() == 0 ==> host_identity(
            machine_id,
            dbus_id,
            name,
        ) == known_name(name)),
        name matches Some(s) ==> (s.len() > 0 ==> known_name(name) == s),
        name matches Some(s) ==> (s.len() == 0 ==> known_name(name) == "unknown"@),
        name is None ==> known_name(name) == "unknown"@,
        host_identity(machine_id, dbus_id, name).len() > 0,
{
    reveal_strlit("unknown");
}

/// The daemon keeps its files where no other platform's daemon does.
pub proof fn law_root_is_the_platforms()
    ensures
        usual_root(false) == "/var/lib/rauha"@,
        usual_root(true) == "/tmp/rauha"@,
{
}

/// A place in the sources is told by its file, its line and its column, in this order.
pub proof fn law_place_is_told_in_order(place: SourcePlace)
    ensures
        place_text(place) == place.file@ + ":"@ + number::decimal(place.line as nat) + ":"@
            + number::decimal(place.column as nat),
{
}

/// The daemon's directories lie below its root, each under its own name, and its database
/// is in the one for metadata.
pub proof fn law_layout_lies_below_the_root(layout: Layout, root: Seq<char>)
    requires
        lies_below(layout, root),
    ensures
        layout.metadata@ == paths::join(root, "metadata"@),
        layout.zones@ == paths::join(root, "zones"@),
        layout.content@ == paths::join(root, "content"@),
        layout.database@ == paths::join(layout.metadata@, "rauha.redb"@),
{
}

} // verus!
