//! The command line: its arguments, what it asks of the daemon, and what it prints.

use clap::builder::ValueParserFactory;
use clap::{Arg, Command};
use vstd::prelude::*;
use vstd::string::StringExecFns;

use self::ArgShape::{Flag, Number, Text, Trailing};
use crate::json;
use crate::json::{json_member, json_object, json_string};
use crate::number;
use crate::number::{decimal_of, three_digits_of, unsigned_in};
use crate::status::Status;
use crate::text;
use crate::text::{padded_left, same};

verus! {

/// For whom is printed.
#[derive(Clone, Copy, Debug, PartialEq, Eq, Structural)]
pub enum OutputMode {
    Human,
    Json,
}

/// The arguments of `trace`.
#[derive(Clone, Debug, PartialEq, Eq)]
pub struct TraceArgs {
    pub zone: String,
}

/// The arguments of `top`.
#[derive(Clone, Debug, PartialEq, Eq)]
pub struct TopArgs {
    pub zone: Option<String>,
}

/// The arguments of `events`.
#[derive(Clone, Debug, PartialEq, Eq)]
pub struct EventsArgs {
    /// The zone whose events are wanted; all where there is none.
    pub zone: Option<String>,
}

/// The arguments of `sandbox`.
#[derive(Clone, Debug, PartialEq, Eq)]
pub struct SandboxArgs {
    /// The image to run the task in.
    pub image: String,
    /// The zone's name; without one the daemon makes a zone for the task.
    pub name: Option<String>,
    /// The host's path that the zone is given.
    pub repo: Option<String>,
    /// The directory inside the zone.
    pub workdir: Option<String>,
    /// Whether the zone is left behind.
    pub keep_zone: bool,
    /// After how many seconds the task is ended; zero for never.
    pub timeout: u32,
    /// The task's command.
    pub command: Vec<String>,
}

/// What an argument looks like.
#[derive(Clone, Copy, Debug, PartialEq, Eq, Structural)]
pub enum ArgShape {
    /// A long option with a text.
    Text,
    /// A long option with a number of 32 bits, which has a default.
    Number,
    /// A long option without a value.
    Flag,
    /// All that is left.
    Trailing,
}

/// The definition of an argument.
#[derive(Clone, Debug, PartialEq, Eq)]
pub struct ArgDef {
    /// What it is called.
    pub name: &'static str,
    /// What stands behind two hyphens where it is given: an option's name.
    pub long: Option<&'static str>,
    pub shape: ArgShape,
    pub required: bool,
    /// The default of a number.
    pub default: &'static str,
    /// What its value is called where it is told how to call the command.
    pub value_name: &'static str,
    /// What it is for.
    pub help: &'static str,
}

/// What an `ArgDef` says.
pub struct ArgText {
    pub name: Seq<char>,
    pub long: Option<Seq<char>>,
    pub shape: ArgShape,
    pub required: bool,
    pub default: Seq<char>,
    pub value_name: Seq<char>,
    pub help: Seq<char>,
}

impl View for ArgDef {
    type V = ArgText;

    open spec fn view(&self) -> ArgText {
        ArgText {
            name: self.name@,
            long: match self.long {
                Some(long) => Some(long@),
                None => None,
            },
            shape: self.shape,
            required: self.required,
            default: self.default@,
            value_name: self.value_name@,
            help: self.help@,
        }
    }
}

/// What definitions say.
pub open spec fn arg_texts(defs: Seq<ArgDef>) -> Seq<ArgText> {
    defs.map_values(|d: ArgDef| d@)
}

/// What stands behind two hyphens: an option's name.
pub open spec fn option_name(name: Seq<char>, shape: ArgShape) -> Option<Seq<char>> {
    if shape is Trailing {
        None
    } else {
        Some(name)
    }
}

/// Whether definitions go together: their names differ, only what is left comes
/// last and only numbers have a default, and they have a good one.
pub open spec fn well_defined(defs: Seq<ArgText>) -> bool {
    &&& forall|i: int, j: int|
        0 <= i < j < defs.len() ==> (#[trigger] defs[i]).name != (#[trigger] defs[j]).name
    &&& forall|i: int|
        0 <= i < defs.len() ==> {
            &&& (#[trigger] defs[i]).name.len() > 0
            &&& defs[i].name[0] != '-'
            &&& defs[i].name != "help"@
            &&& defs[i].long == option_name(defs[i].name, defs[i].shape)
            &&& defs[i].shape is Trailing ==> i == defs.len() - 1
            &&& defs[i].shape is Flag || defs[i].shape is Number ==> !defs[i].required
            &&& defs[i].shape is Number ==> number::unsigned_value(
                defs[i].default,
                u32::MAX as nat,
            ) is Ok
        }
}

/// The texts of lists.
pub open spec fn lists(v: Seq<Vec<String>>) -> Seq<Seq<Seq<char>>> {
    v.map_values(|l: Vec<String>| text::texts(l@))
}

/// Values that were found, or the error in words.
pub open spec fn found_in(r: Result<Vec<Vec<String>>, String>) -> Result<
    Seq<Seq<Seq<char>>>,
    Seq<char>,
> {
    match r {
        Ok(v) => Ok(lists(v@)),
        Err(e) => Err(e@),
    }
}

/// Whether values are such as an argument of this definition can have.
pub open spec fn shaped(def: ArgText, values: Seq<Seq<char>>) -> bool {
    match def.shape {
        ArgShape::Text => values.len() <= 1 && (def.required ==> values.len() == 1),
        ArgShape::Number => values.len() == 1 && (values[0].len() > 0 && values[0][0] == '-'
            || number::unsigned_value(values[0], u32::MAX as nat) is Ok),
        ArgShape::Flag => values.len() == 1 && (values[0] == "true"@ || values[0] == "false"@),
        ArgShape::Trailing => def.required ==> values.len() > 0,
    }
}

/// Whether values are such as arguments of these definitions can have.
pub open spec fn all_shaped(defs: Seq<ArgText>, values: Seq<Seq<Seq<char>>>) -> bool {
    values.len() == defs.len() && forall|i: int|
        0 <= i < defs.len() ==> shaped(defs[i], #[trigger] values[i])
}

/// What `clap` makes of a command line, by the definitions of its arguments: the
/// values of each, or the error in words.
pub uninterp spec fn clap_values(
    command: Seq<char>,
    defs: Seq<ArgText>,
    argv: Seq<Seq<char>>,
) -> Result<Seq<Seq<Seq<char>>>, Seq<char>>;

/// `clap::Command::try_get_matches_from`, for a command with these arguments, and
/// `ArgMatches::get_raw` of each: the values, or the error in words, depend on the
/// definitions and the command line alone. An option with a text has at most one
/// value, a required one has one; a number has one, given or default; a flag is
/// `true` or `false`.
#[verifier::external_body]
fn clap_parse(command: &'static str, defs: &Vec<ArgDef>, argv: &Vec<String>) -> (res: Result<
    Vec<Vec<String>>,
    String,
>)
    requires
        well_defined(arg_texts(defs@)),
    ensures
        found_in(res) == clap_values(command@, arg_texts(defs@), text::texts(argv@)),
        res is Ok ==> all_shaped(arg_texts(defs@), lists(res->Ok_0@)),
{
    let args = defs.iter().map(|&ArgDef { name, long, shape, required, default, value_name, help }| {
        let arg = Arg::new(name).long(long).required(required).value_name(value_name).help(help);
        match shape {
            Text => arg,
            Number => arg.default_value(default).value_parser(u32::value_parser()),
            Flag => arg.num_args(0),
            Trailing => arg.trailing_var_arg(true).num_args(1..),
        }
    });
    let found = Command::new(command).args(args).try_get_matches_from(argv).map_err(|e| e.to_string())?;
    Ok(defs.iter().map(|d| found.get_raw(d.name).unwrap_or_default().map(|v| v.to_string_lossy().into()).collect()).collect())
}

/// The definition of an argument.
pub open spec fn arg(
    name: Seq<char>,
    shape: ArgShape,
    required: bool,
    default: Seq<char>,
    value_name: Seq<char>,
    help: Seq<char>,
) -> ArgText {
    ArgText {
        name,
        long: option_name(name, shape),
        shape,
        required,
        default,
        value_name,
        help,
    }
}

/// The arguments of `sandbox`.
pub open spec fn sandbox_defs() -> Seq<ArgText> {
    seq![
        arg(
            "image"@,
            ArgShape::Text,
            true,
            ""@,
            "IMAGE"@,
            "Container image to run the task in"@,
        ),
        arg(
            "name"@,
            ArgShape::Text,
            false,
            ""@,
            "NAME"@,
            "Optional zone name. If omitted, the daemon allocates a temporary zone"@,
        ),
        arg(
            "repo"@,
            ArgShape::Text,
            false,
            ""@,
            "REPO"@,
            "Host path to expose into the zone as a read/write source"@,
        ),
        arg(
            "workdir"@,
            ArgShape::Text,
            false,
            ""@,
            "WORKDIR"@,
            "Working directory inside the zone"@,
        ),
        arg(
            "keep-zone"@,
            ArgShape::Flag,
            false,
            ""@,
            "KEEP_ZONE"@,
            "Leave the task zone behind for debugging after the run"@,
        ),
        arg(
            "timeout"@,
            ArgShape::Number,
            false,
            "0"@,
            "TIMEOUT"@,
            "Soft timeout in seconds. 0 means no timeout"@,
        ),
        arg(
            "command"@,
            ArgShape::Trailing,
            true,
            ""@,
            "COMMAND"@,
            "Task command. Use `--` before it to disambiguate from sandbox flags"@,
        ),
    ]
}

proof fn lemma_sandbox_defs()
    ensures
        well_defined(sandbox_defs()),
{
    reveal_strlit("image");
    reveal_strlit("name");
    reveal_strlit("repo");
    reveal_strlit("workdir");
    reveal_strlit("keep-zone");
    reveal_strlit("timeout");
    reveal_strlit("command");
    reveal_strlit("help");
    reveal_strlit("0");
    assert("image"@[0] == 'i' && "name"@[0] == 'n' && "repo"@[0] == 'r' && "workdir"@[0] == 'w'
        && "keep-zone"@[0] == 'k' && "timeout"@[0] == 't' && "command"@[0] == 'c' && "help"@[0]
        == 'h');
    assert("0"@ == number::decimal(0)) by {
        assert("0"@[0] == '0');
        assert("0"@ =~= number::decimal(0));
    }
    number::law_decimal_is_read_back(0, u32::MAX as nat);
}

fn arg_def(
    name: &'static str,
    shape: ArgShape,
    required: bool,
    default: &'static str,
    value_name: &'static str,
    help: &'static str,
) -> (res: ArgDef)
    ensures
        res@ == arg(name@, shape, required, default@, value_name@, help@),
{
    let long = match shape {
        ArgShape::Trailing => None,
        _ => Some(name),
    };
    ArgDef { name, long, shape, required, default, value_name, help }
}

fn sandbox_arg_defs() -> (res: Vec<ArgDef>)
    ensures
        arg_texts(res@) == sandbox_defs(),
{
    let mut defs: Vec<ArgDef> = Vec::new();
    defs.push(
        arg_def(
            "image",
            ArgShape::Text,
            true,
            "",
            "IMAGE",
            "Container image to run the task in",
        ),
    );
    defs.push(
        arg_def(
            "name",
            ArgShape::Text,
            false,
            "",
            "NAME",
            "Optional zone name. If omitted, the daemon allocates a temporary zone",
        ),
    );
    defs.push(
        arg_def(
            "repo",
            ArgShape::Text,
            false,
            "",
            "REPO",
            "Host path to expose into the zone as a read/write source",
        ),
    );
    defs.push(
        arg_def(
            "workdir",
            ArgShape::Text,
            false,
            "",
            "WORKDIR",
            "Working directory inside the zone",
        ),
    );
    defs.push(
        arg_def(
            "keep-zone",
            ArgShape::Flag,
            false,
            "",
            "KEEP_ZONE",
            "Leave the task zone behind for debugging after the run",
        ),
    );
    defs.push(
        arg_def(
            "timeout",
            ArgShape::Number,
            false,
            "0",
            "TIMEOUT",
            "Soft timeout in seconds. 0 means no timeout",
        ),
    );
    defs.push(
        arg_def(
            "command",
            ArgShape::Trailing,
            true,
            "",
            "COMMAND",
            "Task command. Use `--` before it to disambiguate from sandbox flags",
        ),
    );
    assert(arg_texts(defs@) == sandbox_defs());
    defs
}

/// What a `SandboxArgs` says.
pub struct SandboxText {
    pub image: Seq<char>,
    pub name: Option<Seq<char>>,
    pub repo: Option<Seq<char>>,
    pub workdir: Option<Seq<char>>,
    pub keep_zone: bool,
    pub timeout: nat,
    pub command: Seq<Seq<char>>,
}

impl View for SandboxArgs {
    type V = SandboxText;

    open spec fn view(&self) -> SandboxText {
        SandboxText {
            image: self.image@,
            name: text::text_in(self.name),
            repo: text::text_in(self.repo),
            workdir: text::text_in(self.workdir),
            keep_zone: self.keep_zone,
            timeout: self.timeout as nat,
            command: text::texts(self.command@),
        }
    }
}

/// The one text of an option, where it was given.
pub open spec fn at_most_one(values: Seq<Seq<char>>) -> Option<Seq<char>> {
    if values.len() > 0 {
        Some(values[0])
    } else {
        None
    }
}

/// The number that a text stands for; a sign in front of zero counts for nothing.
pub open spec fn number_in(s: Seq<char>) -> nat {
    match number::unsigned_value(s, u32::MAX as nat) {
        Ok(n) => n,
        Err(_) => 0,
    }
}

/// The arguments of `sandbox`, by the values that were found for each.
pub open spec fn sandbox_of(values: Seq<Seq<Seq<char>>>) -> SandboxText {
    SandboxText {
        image: values[0][0],
        name: at_most_one(values[1]),
        repo: at_most_one(values[2]),
        workdir: at_most_one(values[3]),
        keep_zone: values[4][0] == "true"@,
        timeout: number_in(values[5][0]),
        command: values[6],
    }
}

fn only(values: Vec<String>) -> (res: Option<String>)
    ensures
        text::text_in(res) == at_most_one(text::texts(values@)),
{
    if values.len() == 0 {
        return None;
    }
    Some(values[0].clone())
}

/// The arguments of `sandbox`, by what was found for each: the values that
/// definitions of their shapes allow, or an error.
pub fn read_sandbox_args(found: Result<Vec<Vec<String>>, String>) -> (res: Result<
    SandboxArgs,
    String,
>)
    requires
        found is Ok ==> all_shaped(sandbox_defs(), lists(found->Ok_0@)),
    ensures
        match found {
            Ok(values) => res matches Ok(args) && args@ == sandbox_of(lists(values@)),
            Err(e) => res matches Err(f) && f@ == e@,
        },
{
    let mut values = match found {
        Ok(values) => values,
        Err(e) => {
            return Err(e);
        },
    };
    let ghost all = lists(values@);
    proof {
        assert(all.len() == 7);
        assert(shaped(sandbox_defs()[0], all[0]));
        assert(shaped(sandbox_defs()[4], all[4]));
        assert(shaped(sandbox_defs()[5], all[5]));
        assert(all[0].len() == values@[0]@.len());
        assert(all[4].len() == values@[4]@.len());
        assert(all[5].len() == values@[5]@.len());
    }
    let image = values[0][0].clone();
    assert(image@ == all[0][0]);
    let keep_zone = same(values[4][0].as_str(), "true");
    assert(values@[4]@[0]@ == all[4][0]);
    let timeout: u32 = match unsigned_in(values[5][0].as_str(), u32::MAX as u64) {
        Ok(n) => n as u32,
        Err(_) => 0,
    };
    assert(values@[5]@[0]@ == all[5][0]);
    let ghost given = values@;
    let command = values.remove(6);
    assert(text::texts(command@) == all[6]);
    let workdir = only(values.remove(3));
    assert(text::text_in(workdir) == at_most_one(all[3]));
    let repo = only(values.remove(2));
    assert(text::text_in(repo) == at_most_one(all[2]));
    let name = only(values.remove(1));
    assert(text::text_in(name) == at_most_one(all[1]));
    Ok(SandboxArgs { image, name, repo, workdir, keep_zone, timeout, command })
}

impl SandboxArgs {
    /// The arguments in a command line, whose first word is the command's own name.
    pub fn try_parse_from(argv: &Vec<String>) -> (res: Result<SandboxArgs, String>)
        ensures
            match (res, clap_values("sandbox"@, sandbox_defs(), text::texts(argv@))) {
                (Ok(args), Ok(values)) => all_shaped(sandbox_defs(), values) && args@
                    == sandbox_of(values),
                (Err(e), Err(why)) => e@ == why,
                _ => false,
            },
    {
        let defs = sandbox_arg_defs();
        proof {
            lemma_sandbox_defs();
        }
        let found = clap_parse("sandbox", &defs, argv);
        read_sandbox_args(found)
    }
}

/// A sandbox has an image and a command: arguments without them are not accepted.
pub proof fn law_sandbox_has_image_and_command(values: Seq<Seq<Seq<char>>>)
    requires
        all_shaped(sandbox_defs(), values),
    ensures
        values[0].len() == 1,
        sandbox_of(values).command.len() > 0,
        sandbox_of(values).timeout <= u32::MAX,
{
    assert(shaped(sandbox_defs()[0], values[0]));
    assert(shaped(sandbox_defs()[6], values[6]));
    lemma_number_fits(values[5][0]);
}

proof fn lemma_number_fits(s: Seq<char>)
    ensures
        number_in(s) <= u32::MAX,
{
    if s.len() > 0 {
        if s[0] == '+' {
            number::lemma_digits_value_fits(s.skip(1), u32::MAX as nat);
        } else {
            number::lemma_digits_value_fits(s, u32::MAX as nat);
        }
    }
}

/// A request to run a sandbox.
#[derive(Clone, Debug, PartialEq, Eq)]
pub struct RunSandboxRequest {
    pub image: String,
    pub command: Vec<String>,
    pub name: String,
    pub repo_path: String,
    pub workdir: String,
    pub keep_zone: bool,
    pub timeout_seconds: u32,
    /// The variables of the task's environment, and their values.
    pub env: Vec<(String, String)>,
}

/// A text, or the empty one.
pub open spec fn or_empty(o: Option<Seq<char>>) -> Seq<char> {
    match o {
        Some(s) => s,
        None => ""@,
    }
}

fn text_or_empty(o: Option<String>) -> (res: String)
    ensures
        res@ == or_empty(text::text_in(o)),
{
    match o {
        Some(s) => s,
        None => "".to_owned(),
    }
}

/// Whether this is the request that `sandbox` makes.
pub open spec fn requests(args: SandboxArgs, request: RunSandboxRequest) -> bool {
    &&& request.image@ == args.image@
    &&& request.command == args.command
    &&& request.name@ == or_empty(text::text_in(args.name))
    &&& request.repo_path@ == or_empty(text::text_in(args.repo))
    &&& request.workdir@ == or_empty(text::text_in(args.workdir))
    &&& request.keep_zone == args.keep_zone
    &&& request.timeout_seconds == args.timeout
    &&& request.env@.len() == 0
}

/// The request that `sandbox` makes. What was not given is empty, and so is the
/// environment.
pub fn sandbox_request(args: SandboxArgs) -> (res: RunSandboxRequest)
    ensures
        requests(args, res),
        res.image@ == args.image@,
        res.command == args.command,
        res.name@ == or_empty(text::text_in(args.name)),
        res.repo_path@ == or_empty(text::text_in(args.repo)),
        res.workdir@ == or_empty(text::text_in(args.workdir)),
        res.keep_zone == args.keep_zone,
        res.timeout_seconds == args.timeout,
        res.env@.len() == 0,
{
    RunSandboxRequest {
        image: args.image,
        command: args.command,
        name: text_or_empty(args.name),
        repo_path: text_or_empty(args.repo),
        workdir: text_or_empty(args.workdir),
        keep_zone: args.keep_zone,
        timeout_seconds: args.timeout,
        env: Vec::new(),
    }
}

/// What `sandbox` says of the daemon's answer: of a refusal the daemon's message
/// alone.
pub fn sandbox_answer(answer: Result<(), Status>) -> (res: Result<(), String>)
    ensures
        match (res, answer) {
            (Ok(_), Ok(_)) => true,
            (Err(said), Err(refusal)) => said@ == refusal@.message,
            _ => false,
        },
{
    match answer {
        Ok(_) => Ok(()),
        Err(refusal) => Err(refusal.message),
    }
}

/// What `trace` prints.
pub open spec fn trace_text(zone: Seq<char>, out: OutputMode) -> Seq<char> {
    match out {
        OutputMode::Human => "Tracing zone "@ + zone + "... (not yet implemented)"@,
        OutputMode::Json => json::object(
            seq![
                json::member("ok"@, "false"@),
                json::member("zone"@, json::quoted(zone)),
                json::member("status"@, json::quoted("not_implemented"@)),
            ],
        ),
    }
}

/// The line that `trace` prints.
pub fn handle_trace(args: &TraceArgs, out: OutputMode) -> (res: String)
    ensures
        res@ == trace_text(args.zone@, out),
{
    match out {
        OutputMode::Human => {
            let mut line = "Tracing zone ".to_owned();
            line.append(args.zone.as_str());
            line.append("... (not yet implemented)");
            line
        },
        OutputMode::Json => {
            let mut members: Vec<String> = Vec::new();
            members.push(json_member("ok", "false"));
            members.push(json_member("zone", json_string(args.zone.as_str()).as_str()));
            members.push(json_member("status", json_string("not_implemented").as_str()));
            assert(text::texts(members@) == seq![
                json::member("ok"@, "false"@),
                json::member("zone"@, json::quoted(args.zone@)),
                json::member("status"@, json::quoted("not_implemented"@)),
            ]);
            json_object(&members)
        },
    }
}

/// The line that `top` prints.
pub fn handle_top(_args: &TopArgs) -> (res: &'static str)
    ensures
        res@ == "Per-zone resource monitoring (not yet implemented)"@,
{
    "Per-zone resource monitoring (not yet implemented)"
}

/// The zone that `events` asks for: the empty name stands for all.
pub fn events_zone(args: EventsArgs) -> (res: String)
    ensures
        res@ == or_empty(text::text_in(args.zone)),
{
    text_or_empty(args.zone)
}

/// What people are told before the first event.
pub fn events_banner(out: OutputMode) -> (res: Option<&'static str>)
    ensures
        match res {
            Some(s) => out == OutputMode::Human && s@
                == "streaming enforcement events (Ctrl+C to stop)...\n"@,
            None => out == OutputMode::Json,
        },
{
    match out {
        OutputMode::Human => Some("streaming enforcement events (Ctrl+C to stop)...\n"),
        OutputMode::Json => None,
    }
}

/// A time as it is shown: nanoseconds in decimal as seconds and milliseconds, the
/// seconds at least six characters wide; anything else as it is.
pub open spec fn shown_time(ts: Seq<char>) -> Seq<char> {
    match number::unsigned_value(ts, u64::MAX as nat) {
        Ok(ns) => text::pad_left(number::decimal(ns / 1_000_000_000), 6) + "."@
            + number::three_digits((ns % 1_000_000_000) / 1_000_000),
        Err(_) => ts,
    }
}

/// A time as it is shown.
pub fn format_timestamp(ts: &str) -> (res: String)
    ensures
        res@ == shown_time(ts@),
{
    match unsigned_in(ts, u64::MAX) {
        Ok(ns) => {
            let secs: u64 = ns / 1_000_000_000;
            let ms: u64 = (ns % 1_000_000_000) / 1_000_000;
            let mut out = padded_left(decimal_of(secs).as_str(), 6);
            out.append(".");
            out.append(three_digits_of(ms).as_str());
            out
        },
        Err(_) => ts.to_owned(),
    }
}

/// An event as the daemon sends it.
#[derive(Clone, Debug, PartialEq, Eq)]
pub struct StreamedEvent {
    pub zone_name: String,
    pub event_type: String,
    pub message: String,
    pub timestamp: String,
}

/// What `serde_json::from_str` into a `serde_json::Value`, and the value's
/// `to_string`, make of a text; nothing where it is no JSON.
pub uninterp spec fn json_normal(s: Seq<char>) -> Option<Seq<char>>;

/// `serde_json::from_str` into a `serde_json::Value`, and its `to_string`: the text
/// depends on the text given alone, and there is none where that is no JSON.
#[verifier::external_body]
fn normal_json(s: &str) -> (res: Option<String>)
    ensures
        text::text_in(res) == json_normal(s@),
{
    match serde_json::from_str::<serde_json::Value>(s) {
        Ok(value) => Some(value.to_string()),
        Err(_) => None,
    }
}

/// What an event's message is in JSON: itself where it is JSON, and else a text.
pub open spec fn payload_json(message: Seq<char>, normal: Option<Seq<char>>) -> Seq<char> {
    match normal {
        Some(value) => value,
        None => json::object(seq![json::member("message"@, json::quoted(message))]),
    }
}

/// The line that `events` prints for an event; `normal` is its message in JSON,
/// where it is JSON.
pub open spec fn event_text(
    e: StreamedEvent,
    normal: Option<Seq<char>>,
    out: OutputMode,
) -> Seq<char> {
    match out {
        OutputMode::Human => shown_time(e.timestamp@) + "  "@ + e.event_type@ + "  "@ + e.message@,
        OutputMode::Json => json::object(
            seq![
                json::member("timestamp"@, json::quoted(e.timestamp@)),
                json::member("zone_name"@, json::quoted(e.zone_name@)),
                json::member("event_type"@, json::quoted(e.event_type@)),
                json::member("event"@, payload_json(e.message@, normal)),
            ],
        ),
    }
}

/// The line that `events` prints for an event, once it is known what its message is
/// in JSON.
pub fn event_line_with(e: &StreamedEvent, normal: Option<String>, out: OutputMode) -> (res: String)
    ensures
        res@ == event_text(*e, text::text_in(normal), out),
{
    match out {
        OutputMode::Human => {
            let mut line = format_timestamp(e.timestamp.as_str());
            line.append("  ");
            line.append(e.event_type.as_str());
            line.append("  ");
            line.append(e.message.as_str());
            line
        },
        OutputMode::Json => {
            let ghost known = text::text_in(normal);
            let payload = match normal {
                Some(value) => value,
                None => {
                    let mut members: Vec<String> = Vec::new();
                    members.push(json_member("message", json_string(e.message.as_str()).as_str()));
                    assert(text::texts(members@) == seq![
                        json::member("message"@, json::quoted(e.message@)),
                    ]);
                    json_object(&members)
                },
            };
            let mut members: Vec<String> = Vec::new();
            members.push(json_member("timestamp", json_string(e.timestamp.as_str()).as_str()));
            members.push(json_member("zone_name", json_string(e.zone_name.as_str()).as_str()));
            members.push(json_member("event_type", json_string(e.event_type.as_str()).as_str()));
            members.push(json_member("event", payload.as_str()));
            assert(text::texts(members@) == seq![
                json::member("timestamp"@, json::quoted(e.timestamp@)),
                json::member("zone_name"@, json::quoted(e.zone_name@)),
                json::member("event_type"@, json::quoted(e.event_type@)),
                json::member("event"@, payload_json(e.message@, known)),
            ]);
            json_object(&members)
        },
    }
}

/// The line that `events` prints for an event.
pub fn event_line(e: &StreamedEvent, out: OutputMode) -> (res: String)
    ensures
        res@ == event_text(*e, json_normal(e.message@), out),
{
    event_line_with(e, normal_json(e.message.as_str()), out)
}

/// What the stream of events gives.
#[derive(Clone, Debug, PartialEq, Eq)]
pub enum StreamItem {
    Event(StreamedEvent),
    /// An error, in words.
    Failed(String),
    Ended,
}

/// What `events` does with what the stream gave.
#[derive(Clone, Debug, PartialEq, Eq)]
pub enum EventsTodo {
    /// Print this line, and go on.
    Print(String),
    /// Print this line to the error output, and stop.
    Complain(String),
    Stop,
}

/// What `events` does with what the stream gave.
pub fn handle_events(item: StreamItem, out: OutputMode) -> (res: EventsTodo)
    ensures
        match item {
            StreamItem::Event(e) => res matches EventsTodo::Print(line) && line@ == event_text(
                e,
                json_normal(e.message@),
                out,
            ),
            StreamItem::Failed(e) => res matches EventsTodo::Complain(line) && line@
                == "stream error: "@ + e@,
            StreamItem::Ended => res is Stop,
        },
{
    match item {
        StreamItem::Event(e) => EventsTodo::Print(event_line(&e, out)),
        StreamItem::Failed(e) => {
            let mut line = "stream error: ".to_owned();
            line.append(e.as_str());
            EventsTodo::Complain(line)
        },
        StreamItem::Ended => EventsTodo::Stop,
    }
}

/// Each option is read into the argument of its own name: what a command line gives for the
/// image is the image, and so on for the name, the repository, the directory, the flag, the
/// timeout and the command. An option that was not given has no value.
pub proof fn law_options_are_read_by_their_names(
    values: Seq<Seq<Seq<char>>>,
    args: SandboxArgs,
    i: int,
)
    requires
        all_shaped(sandbox_defs(), values),
        args@ == sandbox_of(values),
        0 <= i < values.len(),
    ensures
        values.len() == 7,
        sandbox_defs()[i].name == "image"@ ==> values[i] == seq![args.image@],
        sandbox_defs()[i].name == "name"@ ==> given(values[i], args.name),
        sandbox_defs()[i].name == "repo"@ ==> given(values[i], args.repo),
        sandbox_defs()[i].name == "workdir"@ ==> given(values[i], args.workdir),
        sandbox_defs()[i].name == "keep-zone"@ ==> (args.keep_zone <==> values[i][0] == "true"@),
        sandbox_defs()[i].name == "timeout"@ ==> (number::unsigned_value(
            values[i][0],
            u32::MAX as nat,
        ) matches Ok(n) ==> args.timeout == n),
        sandbox_defs()[i].name == "command"@ ==> text::texts(args.command@) == values[i],
{
    reveal_strlit("image");
    reveal_strlit("name");
    reveal_strlit("repo");
    reveal_strlit("workdir");
    reveal_strlit("keep-zone");
    reveal_strlit("timeout");
    reveal_strlit("command");
    assert("image"@[0] == 'i' && "name"@[0] == 'n' && "repo"@[0] == 'r' && "workdir"@[0] == 'w'
        && "keep-zone"@[0] == 'k' && "timeout"@[0] == 't' && "command"@[0] == 'c');
    assert(shaped(sandbox_defs()[i], values[i]));
    if i <= 3 && values[i].len() == 1 {
        assert(values[i] == seq![values[i][0]]);
    }
}

/// Whether an argument is the one text that was given for an option, where one was.
pub open spec fn given(values: Seq<Seq<char>>, argument: Option<String>) -> bool {
    match argument {
        Some(s) => values == seq![s@],
        None => values.len() == 0,
    }
}

/// The options of `sandbox`: an image and a command must be given, the rest need not be;
/// the flag has no value, and without a timeout there is none.
pub proof fn law_sandbox_takes_these_options(i: int)
    requires
        0 <= i < sandbox_defs().len(),
    ensures
        sandbox_defs().len() == 7,
        sandbox_defs()[i].required <==> (sandbox_defs()[i].name == "image"@
            || sandbox_defs()[i].name == "command"@),
        sandbox_defs()[i].shape is Flag <==> sandbox_defs()[i].name == "keep-zone"@,
        sandbox_defs()[i].shape is Number <==> sandbox_defs()[i].name == "timeout"@,
        sandbox_defs()[i].shape is Trailing <==> sandbox_defs()[i].name == "command"@,
        sandbox_defs()[i].shape is Number ==> sandbox_defs()[i].default == "0"@,
        sandbox_defs()[i].shape is Trailing <==> sandbox_defs()[i].long is None,
        sandbox_defs()[i].long matches Some(long) ==> long == sandbox_defs()[i].name,
        i == 0 ==> sandbox_defs()[i].name == "image"@ && sandbox_defs()[i].value_name == "IMAGE"@
            && sandbox_defs()[i].help == "Container image to run the task in"@,
        i == 1 ==> sandbox_defs()[i].name == "name"@ && sandbox_defs()[i].value_name == "NAME"@
            && sandbox_defs()[i].help
            == "Optional zone name. If omitted, the daemon allocates a temporary zone"@,
        i == 2 ==> sandbox_defs()[i].name == "repo"@ && sandbox_defs()[i].value_name == "REPO"@
            && sandbox_defs()[i].help == "Host path to expose into the zone as a read/write source"@,
        i == 3 ==> sandbox_defs()[i].name == "workdir"@ && sandbox_defs()[i].value_name
            == "WORKDIR"@ && sandbox_defs()[i].help == "Working directory inside the zone"@,
        i == 4 ==> sandbox_defs()[i].name == "keep-zone"@ && sandbox_defs()[i].help
            == "Leave the task zone behind for debugging after the run"@,
        i == 5 ==> sandbox_defs()[i].name == "timeout"@ && sandbox_defs()[i].value_name
            == "TIMEOUT"@ && sandbox_defs()[i].help
            == "Soft timeout in seconds. 0 means no timeout"@,
        i == 6 ==> sandbox_defs()[i].name == "command"@ && sandbox_defs()[i].value_name
            == "COMMAND"@ && sandbox_defs()[i].help
            == "Task command. Use `--` before it to disambiguate from sandbox flags"@,
{
    reveal_strlit("image");
    reveal_strlit("name");
    reveal_strlit("repo");
    reveal_strlit("workdir");
    reveal_strlit("keep-zone");
    reveal_strlit("timeout");
    reveal_strlit("command");
    assert("image"@[0] == 'i' && "name"@[0] == 'n' && "repo"@[0] == 'r' && "workdir"@[0] == 'w'
        && "keep-zone"@[0] == 'k' && "timeout"@[0] == 't' && "command"@[0] == 'c');
}

/// The daemon is asked for what the command line said: each argument under its own word, and
/// what was not given is empty.
pub proof fn law_sandbox_is_asked_for_as_given(args: SandboxArgs, request: RunSandboxRequest)
    requires
        requests(args, request),
    ensures
        request.image@ == args.image@,
        request.command@ == args.command@,
        args.name matches Some(s) ==> request.name@ == s@,
        args.name is None ==> request.name@.len() == 0,
        args.repo matches Some(s) ==> request.repo_path@ == s@,
        args.repo is None ==> request.repo_path@.len() == 0,
        args.workdir matches Some(s) ==> request.workdir@ == s@,
        args.workdir is None ==> request.workdir@.len() == 0,
        request.keep_zone == args.keep_zone,
        request.timeout_seconds == args.timeout,
        request.env@.len() == 0,
{
    reveal_strlit("");
}

/// A time in nanoseconds is shown by its whole seconds and the milliseconds behind them:
/// what is under a millisecond is left off, and a text that is no such time is shown as it
/// is.
pub proof fn law_time_is_shown_in_seconds(ns: nat, ts: Seq<char>)
    requires
        ns <= u64::MAX,
    ensures
        shown_time(number::decimal(ns)) == text::pad_left(number::decimal(ns / 1_000_000_000), 6)
            + "."@ + number::three_digits((ns / 1_000_000) % 1_000),
        shown_time(number::decimal(ns)) == shown_time(
            number::decimal(((ns / 1_000_000) * 1_000_000) as nat),
        ),
        number::unsigned_value(ts, u64::MAX as nat) is Err ==> shown_time(ts) == ts,
{
    number::law_decimal_is_read_back(ns, u64::MAX as nat);
    number::law_decimal_is_read_back(
        ((ns / 1_000_000) * 1_000_000) as nat,
        u64::MAX as nat,
    );
    assert((ns % 1_000_000_000) / 1_000_000 == (ns / 1_000_000) % 1_000);
    let whole = ((ns / 1_000_000) * 1_000_000) as nat;
    assert(whole / 1_000_000_000 == ns / 1_000_000_000);
    assert((whole % 1_000_000_000) / 1_000_000 == (ns / 1_000_000) % 1_000);
}

/// People are shown the time, the name and the message of an event; machines are shown an
/// object with the time, the zone, the name and the message, each under its own word. A
/// message that is no JSON is shown as a text under its own word.
pub proof fn law_event_is_printed_with_all_it_says(e: StreamedEvent, normal: Option<Seq<char>>)
    ensures
        event_text(e, normal, OutputMode::Human) == shown_time(e.timestamp@) + "  "@ + e.event_type@
            + "  "@ + e.message@,
        normal matches Some(value) ==> event_text(e, normal, OutputMode::Json) == json::object(
            seq![
                json::member("timestamp"@, json::quoted(e.timestamp@)),
                json::member("zone_name"@, json::quoted(e.zone_name@)),
                json::member("event_type"@, json::quoted(e.event_type@)),
                json::member("event"@, value),
            ],
        ),
        normal is None ==> event_text(e, normal, OutputMode::Json) == json::object(
            seq![
                json::member("timestamp"@, json::quoted(e.timestamp@)),
                json::member("zone_name"@, json::quoted(e.zone_name@)),
                json::member("event_type"@, json::quoted(e.event_type@)),
                json::member(
                    "event"@,
                    json::object(seq![json::member("message"@, json::quoted(e.message@))]),
                ),
            ],
        ),
{
}

/// `trace` names the zone that it was asked for, and never claims to have traced it.
pub proof fn law_trace_names_its_zone(zone: Seq<char>)
    ensures
        trace_text(zone, OutputMode::Human) == "Tracing zone "@ + zone
            + "... (not yet implemented)"@,
        trace_text(zone, OutputMode::Json) == json::object(
            seq![
                json::member("ok"@, "false"@),
                json::member("zone"@, json::quoted(zone)),
                json::member("status"@, json::quoted("not_implemented"@)),
            ],
        ),
{
}

/// What is said of arguments is said of their own parts, word by word.
pub proof fn law_arguments_are_read_off_their_parts(args: SandboxArgs, def: ArgDef)
    ensures
        args@.image == args.image@,
        args@.name == text::text_in(args.name),
        args@.repo == text::text_in(args.repo),
        args@.workdir == text::text_in(args.workdir),
        args@.keep_zone == args.keep_zone,
        args@.timeout == args.timeout,
        args@.command == text::texts(args.command@),
        def@.name == def.name@,
        def.long matches Some(long) ==> def@.long == Some(long@),
        def.long is None ==> def@.long is None,
        def@.shape == def.shape,
        def@.required == def.required,
        def@.default == def.default@,
        def@.value_name == def.value_name@,
        def@.help == def.help@,
{
}

} // verus!
