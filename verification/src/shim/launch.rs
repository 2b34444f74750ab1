//! What it takes to launch a workload, read off its runtime spec.

use vstd::prelude::*;
use vstd::slice::slice_to_vec;
use vstd::string::StringExecFns;

use crate::number;
use crate::number::decimal_of;
use crate::paths;
use crate::paths::join_path;
use crate::text;

verus! {

/// What a runtime spec says of the process to run.
#[derive(Clone, Debug, PartialEq, Eq)]
pub struct OciProcess {
    pub args: Option<Vec<String>>,
    pub env: Option<Vec<String>>,
    pub cwd: String,
}

/// What a runtime spec says, as far as launching depends on it.
#[derive(Clone, Debug, PartialEq, Eq)]
pub struct OciSpec {
    pub process: Option<OciProcess>,
    pub hostname: Option<String>,
}

/// The texts of an `OciProcess`.
pub struct ProcessText {
    pub args: Option<Seq<Seq<char>>>,
    pub env: Option<Seq<Seq<char>>>,
    pub cwd: Seq<char>,
}

/// The texts of an `OciSpec`.
pub struct SpecText {
    pub process: Option<ProcessText>,
    pub hostname: Option<Seq<char>>,
}

/// The texts of a list that may be there.
pub open spec fn list_in(o: Option<Vec<String>>) -> Option<Seq<Seq<char>>> {
    match o {
        Some(v) => Some(text::texts(v@)),
        None => None,
    }
}

impl View for OciProcess {
    type V = ProcessText;

    open spec fn view(&self) -> ProcessText {
        ProcessText { args: list_in(self.args), env: list_in(self.env), cwd: self.cwd@ }
    }
}

impl View for OciSpec {
    type V = SpecText;

    open spec fn view(&self) -> SpecText {
        SpecText {
            process: match self.process {
                Some(p) => Some(p@),
                None => None,
            },
            hostname: text::text_in(self.hostname),
        }
    }
}

/// The texts of a spec, or the reason why there is none.
pub open spec fn spec_in(r: Result<OciSpec, String>) -> Result<SpecText, Seq<char>> {
    match r {
        Ok(spec) => Ok(spec@),
        Err(e) => Err(e@),
    }
}

/// What `serde_json::from_str` makes of a text as an `oci_spec::runtime::Spec`.
pub uninterp spec fn oci_spec_of(json: Seq<char>) -> Result<SpecText, Seq<char>>;

/// `serde_json::from_str` into `oci_spec::runtime::Spec`: the spec, or the error in
/// words, depends on the text alone. Of the spec only the process's arguments,
/// environment and directory, and the host's name are taken over.
#[verifier::external_body]
fn parse_oci_spec(spec_json: &str) -> (res: Result<OciSpec, String>)
    ensures
        spec_in(res) == oci_spec_of(spec_json@),
{
    match serde_json::from_str::<oci_spec::runtime::Spec>(spec_json) {
        Ok(spec) => Ok(OciSpec {
            process: spec.process().as_ref().map(|p| OciProcess {
                args: p.args().clone(),
                env: p.env().clone(),
                cwd: p.cwd().to_string_lossy().to_string(),
            }),
            hostname: spec.hostname().clone(),
        }),
        Err(e) => Err(e.to_string()),
    }
}

/// What is to be run, and how.
#[derive(Clone, Debug, PartialEq, Eq)]
pub struct Workload {
    /// The command and its arguments; there is at least the command.
    pub args: Vec<String>,
    pub env: Vec<String>,
    pub cwd: String,
    pub hostname: Option<String>,
}

/// The texts of a `Workload`.
pub struct WorkloadText {
    pub args: Seq<Seq<char>>,
    pub env: Seq<Seq<char>>,
    pub cwd: Seq<char>,
    pub hostname: Option<Seq<char>>,
}

impl View for Workload {
    type V = WorkloadText;

    open spec fn view(&self) -> WorkloadText {
        WorkloadText {
            args: text::texts(self.args@),
            env: text::texts(self.env@),
            cwd: self.cwd@,
            hostname: text::text_in(self.hostname),
        }
    }
}

/// The workload of a spec, or what the spec lacks. A spec without an environment
/// has an empty one.
pub open spec fn workload_of(spec: Result<SpecText, Seq<char>>) -> Result<WorkloadText, Seq<char>> {
    match spec {
        Err(e) => Err(e),
        Ok(spec) => match spec.process {
            None => Err("spec missing process"@),
            Some(process) => match process.args {
                None => Err("spec missing process.args"@),
                Some(args) => if args.len() == 0 {
                    Err("process.args is empty"@)
                } else {
                    Ok(
                        WorkloadText {
                            args,
                            env: match process.env {
                                Some(env) => env,
                                None => Seq::empty(),
                            },
                            cwd: process.cwd,
                            hostname: spec.hostname,
                        },
                    )
                },
            },
        },
    }
}

/// The texts of a workload, or the reason why there is none.
pub open spec fn workload_in(r: Result<Workload, String>) -> Result<WorkloadText, Seq<char>> {
    match r {
        Ok(w) => Ok(w@),
        Err(e) => Err(e@),
    }
}

/// The workload of a spec that was read.
pub fn read_workload(spec: Result<OciSpec, String>) -> (res: Result<Workload, String>)
    ensures
        workload_in(res) == workload_of(spec_in(spec)),
{
    let spec = match spec {
        Ok(spec) => spec,
        Err(e) => {
            return Err(e);
        },
    };
    let process = match spec.process {
        Some(process) => process,
        None => {
            return Err("spec missing process".to_owned());
        },
    };
    let args = match process.args {
        Some(args) => args,
        None => {
            return Err("spec missing process.args".to_owned());
        },
    };
    if args.len() == 0 {
        return Err("process.args is empty".to_owned());
    }
    let env = match process.env {
        Some(env) => env,
        None => {
            let none: Vec<String> = Vec::new();
            assert(text::texts(none@) == Seq::<Seq<char>>::empty());
            none
        },
    };
    Ok(Workload { args, env, cwd: process.cwd, hostname: spec.hostname })
}

/// The workload of a spec in JSON.
pub fn parse_workload(spec_json: &str) -> (res: Result<Workload, String>)
    ensures
        workload_in(res) == workload_of(oci_spec_of(spec_json@)),
{
    read_workload(parse_oci_spec(spec_json))
}

/// Where a container's files are.
pub open spec fn container_dir(root: Seq<char>, container: Seq<char>) -> Seq<char> {
    paths::join(paths::join(root, "containers"@), container)
}

/// Where a container's root file system is, where it is made of layers.
pub open spec fn merged_dir(root: Seq<char>, container: Seq<char>) -> Seq<char> {
    paths::join(container_dir(root, container), "merged"@)
}

/// Where a container's root file system is, where it is one directory.
pub open spec fn legacy_dir(root: Seq<char>, container: Seq<char>) -> Seq<char> {
    paths::join(container_dir(root, container), "rootfs"@)
}

/// The two places where a container's root file system can be.
#[derive(Clone, Debug, PartialEq, Eq)]
pub struct RootfsCandidates {
    pub merged: String,
    pub legacy: String,
}

/// The two places where a container's root file system can be.
pub fn rootfs_candidates(rootfs_root: &str, container_id: &str) -> (res: RootfsCandidates)
    ensures
        res.merged@ == merged_dir(rootfs_root@, container_id@),
        res.legacy@ == legacy_dir(rootfs_root@, container_id@),
{
    let containers = join_path(rootfs_root, "containers");
    let dir = join_path(containers.as_str(), container_id);
    RootfsCandidates {
        merged: join_path(dir.as_str(), "merged"),
        legacy: join_path(dir.as_str(), "rootfs"),
    }
}

/// The root file system to use, or what is said where there is none: the layered
/// one where it is there.
pub open spec fn chosen_rootfs(
    root: Seq<char>,
    container: Seq<char>,
    merged_there: bool,
    legacy_there: bool,
) -> Result<Seq<char>, Seq<char>> {
    if merged_there {
        Ok(merged_dir(root, container))
    } else if legacy_there {
        Ok(legacy_dir(root, container))
    } else {
        Err(
            "rootfs not found: checked "@ + merged_dir(root, container) + " and "@ + legacy_dir(
                root,
                container,
            ),
        )
    }
}

/// What is needed before anything is touched: the workload, its root file system,
/// and where its output goes.
#[derive(Clone, Debug, PartialEq, Eq)]
pub struct Launch {
    pub workload: Workload,
    pub rootfs: String,
    /// Below the new root, where the old one is kept until it is let go.
    pub old_root: String,
    pub log_dir: String,
    pub stdout_log: String,
    pub stderr_log: String,
}

/// Where a container's output goes.
pub open spec fn log_dir(container: Seq<char>) -> Seq<char> {
    paths::join("/run/rauha/containers"@, container)
}

/// Why a launch is refused before anything is touched, in the order in which that
/// is found out.
pub open spec fn launch_refusal(
    on_linux: bool,
    spec: Result<SpecText, Seq<char>>,
    rootfs: Result<Seq<char>, Seq<char>>,
) -> Option<Seq<char>> {
    if !on_linux {
        Some("fork_and_exec is only supported on Linux"@)
    } else {
        match (workload_of(spec), rootfs) {
            (Err(e), _) => Some(e),
            (Ok(_), Err(e)) => Some(e),
            (Ok(_), Ok(_)) => None,
        }
    }
}

/// Whether a launch is for this workload, root file system and container.
pub open spec fn launches(
    launch: Launch,
    spec: Result<SpecText, Seq<char>>,
    rootfs: Result<Seq<char>, Seq<char>>,
    container: Seq<char>,
) -> bool {
    &&& workload_of(spec) == Ok::<WorkloadText, Seq<char>>(launch.workload@)
    &&& rootfs == Ok::<Seq<char>, Seq<char>>(launch.rootfs@)
    &&& launch.old_root@ == paths::join(launch.rootfs@, ".pivot_old"@)
    &&& launch.log_dir@ == log_dir(container)
    &&& launch.stdout_log@ == paths::join(log_dir(container), "stdout.log"@)
    &&& launch.stderr_log@ == paths::join(log_dir(container), "stderr.log"@)
}

/// What is needed to launch a spec that was read, where the two flags say which
/// root file system is there.
pub fn plan_launch(
    on_linux: bool,
    container_id: &str,
    spec: Result<OciSpec, String>,
    rootfs_root: &str,
    merged_there: bool,
    legacy_there: bool,
) -> (res: Result<Launch, String>)
    ensures
        ({
            let rootfs = chosen_rootfs(rootfs_root@, container_id@, merged_there, legacy_there);
            match res {
                Ok(launch) => launch_refusal(on_linux, spec_in(spec), rootfs) is None && launches(
                    launch,
                    spec_in(spec),
                    rootfs,
                    container_id@,
                ),
                Err(e) => launch_refusal(on_linux, spec_in(spec), rootfs) == Some(e@),
            }
        }),
{
    if !on_linux {
        return Err("fork_and_exec is only supported on Linux".to_owned());
    }
    let workload = match read_workload(spec) {
        Ok(workload) => workload,
        Err(e) => {
            return Err(e);
        },
    };
    let candidates = rootfs_candidates(rootfs_root, container_id);
    let rootfs = if merged_there {
        candidates.merged
    } else if legacy_there {
        candidates.legacy
    } else {
        let mut error = "rootfs not found: checked ".to_owned();
        error.append(candidates.merged.as_str());
        error.append(" and ");
        error.append(candidates.legacy.as_str());
        return Err(error);
    };
    let logs = join_path("/run/rauha/containers", container_id);
    let old_root = join_path(rootfs.as_str(), ".pivot_old");
    let stdout_log = join_path(logs.as_str(), "stdout.log");
    let stderr_log = join_path(logs.as_str(), "stderr.log");
    Ok(Launch { workload, rootfs, old_root, log_dir: logs, stdout_log, stderr_log })
}

/// What is needed to launch a container from its spec in JSON, where the two flags
/// say which root file system is there.
pub fn fork_and_exec(
    on_linux: bool,
    container_id: &str,
    spec_json: &str,
    rootfs_root: &str,
    merged_there: bool,
    legacy_there: bool,
) -> (res: Result<Launch, String>)
    ensures
        ({
            let rootfs = chosen_rootfs(rootfs_root@, container_id@, merged_there, legacy_there);
            match res {
                Ok(launch) => launch_refusal(on_linux, oci_spec_of(spec_json@), rootfs) is None
                    && launches(launch, oci_spec_of(spec_json@), rootfs, container_id@),
                Err(e) => launch_refusal(on_linux, oci_spec_of(spec_json@), rootfs) == Some(e@),
            }
        }),
{
    plan_launch(
        on_linux,
        container_id,
        parse_oci_spec(spec_json),
        rootfs_root,
        merged_there,
        legacy_there,
    )
}

/// The bytes of a text as a C string: encoded, and a zero byte.
pub open spec fn c_text(s: Seq<char>) -> Seq<u8> {
    vstd::utf8::encode_utf8(s).push(0)
}

/// Whether a text cannot be a C string: one of its own bytes is zero.
pub open spec fn has_nul(s: Seq<char>) -> bool {
    vstd::utf8::encode_utf8(s).contains(0)
}

/// Where the first zero byte of a text is.
pub open spec fn first_nul(bytes: Seq<u8>) -> nat
    decreases bytes.len(),
{
    if bytes.len() == 0 || bytes[0] == 0 {
        0
    } else {
        1 + first_nul(bytes.skip(1))
    }
}

/// Where the first zero byte is; the length where there is none.
fn nul_position(bytes: &[u8]) -> (n: usize)
    ensures
        n <= bytes@.len(),
        n == first_nul(bytes@),
        n < bytes@.len() <==> bytes@.contains(0),
{
    let mut i: usize = 0;
    assert(bytes@.skip(0) == bytes@);
    while i < bytes.len() && bytes[i] != 0
        invariant
            i <= bytes@.len(),
            first_nul(bytes@) == i + first_nul(bytes@.skip(i as int)),
            forall|j: int| 0 <= j < i ==> #[trigger] bytes@[j] != 0,
        decreases bytes@.len() - i,
    {
        assert(bytes@.skip(i as int).skip(1) == bytes@.skip(i + 1));
        i = i + 1;
    }
    i
}

/// A text as a C string, or where its zero byte is.
fn c_string(value: &str) -> (res: Result<Vec<u8>, usize>)
    ensures
        match res {
            Ok(bytes) => !has_nul(value@) && bytes@ == c_text(value@),
            Err(at) => has_nul(value@) && at == first_nul(vstd::utf8::encode_utf8(value@)),
        },
{
    let bytes = value.as_bytes();
    let at: usize = nul_position(bytes);
    if at < bytes.len() {
        return Err(at);
    }
    let mut out = slice_to_vec(bytes);
    out.push(0);
    Ok(out)
}

/// What is said of a text in a list that cannot be a C string.
pub open spec fn nul_error(field: Seq<char>, index: nat) -> Seq<char> {
    field + "["@ + number::decimal(index) + "] contains an interior NUL byte"@
}

/// Where the first text is that cannot be a C string.
pub open spec fn first_with_nul(values: Seq<Seq<char>>) -> Option<nat>
    decreases values.len(),
{
    if values.len() == 0 {
        None
    } else if has_nul(values[0]) {
        Some(0)
    } else {
        match first_with_nul(values.skip(1)) {
            Some(i) => Some(i + 1),
            None => None,
        }
    }
}

/// The bytes of byte strings.
pub open spec fn byte_strings(v: Seq<Vec<u8>>) -> Seq<Seq<u8>> {
    v.map_values(|b: Vec<u8>| b@)
}

/// Texts as C strings.
pub open spec fn c_texts(values: Seq<Seq<char>>) -> Seq<Seq<u8>> {
    values.map_values(|s: Seq<char>| c_text(s))
}

/// Texts as C strings; or the first that cannot be one, by its place in the field.
pub fn cstring_vec(values: &Vec<String>, field: &str) -> (res: Result<Vec<Vec<u8>>, String>)
    ensures
        match res {
            Ok(v) => first_with_nul(text::texts(values@)) is None && byte_strings(v@) == c_texts(
                text::texts(values@),
            ),
            Err(e) => first_with_nul(text::texts(values@)) matches Some(i) && e@ == nul_error(
                field@,
                i,
            ),
        },
{
    let ghost all = text::texts(values@);
    let mut out: Vec<Vec<u8>> = Vec::new();
    let mut i: usize = 0;
    assert(all.skip(0) == all);
    while i < values.len()
        invariant
            i <= values@.len(),
            all == text::texts(values@),
            byte_strings(out@) == c_texts(all).take(i as int),
            first_with_nul(all) == (match first_with_nul(all.skip(i as int)) {
                Some(k) => Some((k + i) as nat),
                None => None,
            }),
        decreases values@.len() - i,
    {
        assert(all.skip(i as int)[0] == values@[i as int]@);
        match c_string(values[i].as_str()) {
            Ok(bytes) => {
                let ghost had = byte_strings(out@);
                out.push(bytes);
                assert(byte_strings(out@) == had.push(bytes@));
                assert(c_texts(all).take(i + 1) == had.push(bytes@));
                assert(all.skip(i as int).skip(1) == all.skip(i + 1));
            },
            Err(_) => {
                let mut error = field.to_owned();
                error.append("[");
                error.append(decimal_of(i as u64).as_str());
                error.append("] contains an interior NUL byte");
                return Err(error);
            },
        }
        i = i + 1;
    }
    assert(c_texts(all).take(all.len() as int) == c_texts(all));
    Ok(out)
}

/// Every C string ends in a zero byte, and has no other.
pub proof fn law_c_strings_end_once(values: Seq<Seq<char>>, i: int)
    requires
        first_with_nul(values) is None,
        0 <= i < values.len(),
    ensures
        c_texts(values)[i].last() == 0,
        !c_texts(values)[i].drop_last().contains(0),
    decreases values.len(),
{
    if i > 0 {
        law_c_strings_end_once(values.skip(1), i - 1);
        assert(c_texts(values)[i] == c_texts(values.skip(1))[i - 1]);
    }
    assert(c_text(values[i]).drop_last() == vstd::utf8::encode_utf8(values[i]));
}

/// What the child needs to become the workload, ready before it is forked: nothing
/// is allocated afterwards.
#[derive(Clone, Debug, PartialEq, Eq)]
pub struct ExecPlan {
    pub args: Vec<Vec<u8>>,
    pub env: Vec<Vec<u8>>,
    pub cwd: Vec<u8>,
    /// Empty, but for the zero byte, where the path cannot be a C string.
    pub stdout_log: Vec<u8>,
    pub stderr_log: Vec<u8>,
}

/// A path as a C string, or the empty one where it cannot be one.
pub open spec fn c_path(path: Seq<char>) -> Seq<u8> {
    if has_nul(path) {
        seq![0u8]
    } else {
        c_text(path)
    }
}

/// Why a workload cannot be told to the system.
pub open spec fn exec_refusal(w: WorkloadText) -> Option<Seq<char>> {
    match (first_with_nul(w.args), first_with_nul(w.env)) {
        (Some(i), _) => Some(nul_error("process.args"@, i)),
        (None, Some(i)) => Some(nul_error("process.env"@, i)),
        (None, None) => if has_nul(w.cwd) {
            Some(
                "nul byte found in provided data at position: "@ + number::decimal(
                    first_nul(vstd::utf8::encode_utf8(w.cwd)),
                ),
            )
        } else {
            None
        },
    }
}

fn c_path_of(path: &str) -> (res: Vec<u8>)
    ensures
        res@ == c_path(path@),
{
    match c_string(path) {
        Ok(bytes) => bytes,
        Err(_) => {
            let mut empty: Vec<u8> = Vec::new();
            empty.push(0);
            empty
        },
    }
}

/// Whether this is what the child needs to become the workload of a launch.
pub open spec fn readies(plan: ExecPlan, launch: Launch) -> bool {
    &&& byte_strings(plan.args@) == c_texts(launch.workload@.args)
    &&& byte_strings(plan.env@) == c_texts(launch.workload@.env)
    &&& plan.cwd@ == c_text(launch.workload@.cwd)
    &&& plan.stdout_log@ == c_path(launch.stdout_log@)
    &&& plan.stderr_log@ == c_path(launch.stderr_log@)
}

impl Launch {
    /// What the child needs to become the workload.
    pub fn exec_plan(&self) -> (res: Result<ExecPlan, String>)
        ensures
            match res {
                Ok(plan) => {
                    &&& exec_refusal(self.workload@) is None
                    &&& byte_strings(plan.args@) == c_texts(self.workload@.args)
                    &&& byte_strings(plan.env@) == c_texts(self.workload@.env)
                    &&& plan.cwd@ == c_text(self.workload@.cwd)
                    &&& plan.stdout_log@ == c_path(self.stdout_log@)
                    &&& plan.stderr_log@ == c_path(self.stderr_log@)
                },
                Err(e) => exec_refusal(self.workload@) == Some(e@),
            },
            res matches Ok(plan) ==> readies(plan, *self),
    {
        let args = match cstring_vec(&self.workload.args, "process.args") {
            Ok(args) => args,
            Err(e) => {
                return Err(e);
            },
        };
        let env = match cstring_vec(&self.workload.env, "process.env") {
            Ok(env) => env,
            Err(e) => {
                return Err(e);
            },
        };
        let cwd = match c_string(self.workload.cwd.as_str()) {
            Ok(cwd) => cwd,
            Err(at) => {
                let mut error = "nul byte found in provided data at position: ".to_owned();
                error.append(decimal_of(at as u64).as_str());
                return Err(error);
            },
        };
        Ok(
            ExecPlan {
                args,
                env,
                cwd,
                stdout_log: c_path_of(self.stdout_log.as_str()),
                stderr_log: c_path_of(self.stderr_log.as_str()),
            },
        )
    }
}

/// A launch that is not refused has a command to run.
pub proof fn law_launched_has_a_command(
    launch: Launch,
    spec: Result<SpecText, Seq<char>>,
    rootfs: Result<Seq<char>, Seq<char>>,
    container: Seq<char>,
)
    requires
        launches(launch, spec, rootfs, container),
    ensures
        launch.workload@.args.len() > 0,
{
}

/// A workload is what its spec says: the process's arguments, environment and directory and the
/// host's name, each in its own place; a spec without an environment gives an empty one.
pub proof fn law_workload_is_what_the_spec_says(
    spec: SpecText,
    w: WorkloadText,
)
    requires
        workload_of(Ok(spec)) == Ok::<WorkloadText, Seq<char>>(w),
    ensures
        spec.process matches Some(process) && {
            &&& process.args == Some(w.args)
            &&& w.args.len() > 0
            &&& process.env matches Some(env) ==> w.env == env
            &&& process.env is None ==> w.env.len() == 0
            &&& w.cwd == process.cwd
        },
        w.hostname == spec.hostname,
{
}

/// A spec is refused for the first thing that it lacks: the process, then its arguments, then a
/// command among them; and a text that is no spec for the reason that reading it gave.
pub proof fn law_spec_is_refused_for_what_it_lacks(spec: Result<SpecText, Seq<char>>)
    ensures
        spec matches Err(e) ==> workload_of(spec) == Err::<WorkloadText, Seq<char>>(e),
        spec matches Ok(s) ==> {
            &&& s.process is None ==> workload_of(spec) == Err::<WorkloadText, Seq<char>>(
                "spec missing process"@,
            )
            &&& s.process matches Some(p) ==> {
                &&& p.args is None ==> workload_of(spec) == Err::<WorkloadText, Seq<char>>(
                    "spec missing process.args"@,
                )
                &&& p.args matches Some(args) ==> {
                    &&& args.len() == 0 ==> workload_of(spec) == Err::<WorkloadText, Seq<char>>(
                        "process.args is empty"@,
                    )
                    &&& args.len() > 0 ==> workload_of(spec) is Ok
                }
            }
        },
{
}

/// A launch is of its own container: its files lie below the root in the container's directory,
/// the layered file system is taken where it is there, the old root is kept below the new one,
/// and what the workload writes to its output and to its error output goes to two files of the
/// container's own.
pub proof fn law_launch_is_of_its_container(
    launch: Launch,
    spec: Result<SpecText, Seq<char>>,
    root: Seq<char>,
    container: Seq<char>,
    merged_there: bool,
    legacy_there: bool,
)
    requires
        launches(
            launch,
            spec,
            chosen_rootfs(root, container, merged_there, legacy_there),
            container,
        ),
    ensures
        merged_there || legacy_there,
        merged_there ==> launch.rootfs@ == paths::join(
            paths::join(paths::join(root, "containers"@), container),
            "merged"@,
        ),
        !merged_there ==> launch.rootfs@ == paths::join(
            paths::join(paths::join(root, "containers"@), container),
            "rootfs"@,
        ),
        launch.old_root@ == paths::join(launch.rootfs@, ".pivot_old"@),
        launch.log_dir@ == paths::join("/run/rauha/containers"@, container),
        launch.stdout_log@ == paths::join(launch.log_dir@, "stdout.log"@),
        launch.stderr_log@ == paths::join(launch.log_dir@, "stderr.log"@),
        workload_of(spec) == Ok::<WorkloadText, Seq<char>>(launch.workload@),
{
}

/// A container without a root file system is refused in words that name both places, and a
/// launch is refused for its platform before its spec, and for its spec before its files.
pub proof fn law_launch_is_refused_in_order(
    on_linux: bool,
    spec: Result<SpecText, Seq<char>>,
    root: Seq<char>,
    container: Seq<char>,
    merged_there: bool,
    legacy_there: bool,
)
    ensures
        ({
            let rootfs = chosen_rootfs(root, container, merged_there, legacy_there);
            let dir = paths::join(paths::join(root, "containers"@), container);
            &&& rootfs is Err <==> !merged_there && !legacy_there
            &&& rootfs matches Err(e) ==> e == "rootfs not found: checked "@ + paths::join(
                dir,
                "merged"@,
            ) + " and "@ + paths::join(dir, "rootfs"@)
            &&& !on_linux ==> launch_refusal(on_linux, spec, rootfs) == Some(
                "fork_and_exec is only supported on Linux"@,
            )
            &&& on_linux ==> (workload_of(spec) matches Err(e) ==> launch_refusal(
                on_linux,
                spec,
                rootfs,
            ) == Some(e))
            &&& on_linux && workload_of(spec) is Ok ==> (rootfs matches Err(e) ==> launch_refusal(
                on_linux,
                spec,
                rootfs,
            ) == Some(e))
            &&& on_linux && workload_of(spec) is Ok && rootfs is Ok ==> launch_refusal(
                on_linux,
                spec,
                rootfs,
            ) is None
        }),
{
}

/// What the child is made ready with is the launch's own: the arguments, the environment and the
/// directory of the workload, each encoded and ended by a zero byte, and the two files for its
/// output, each in its own place. A file whose path cannot be told to the system is told as the
/// empty path.
pub proof fn law_child_is_ready_for_its_workload(plan: ExecPlan, launch: Launch, i: int)
    requires
        readies(plan, launch),
    ensures
        plan.args@.len() == launch.workload.args@.len(),
        0 <= i < plan.args@.len() ==> plan.args@[i]@ == vstd::utf8::encode_utf8(
            launch.workload.args@[i]@,
        ).push(0),
        plan.env@.len() == launch.workload.env@.len(),
        0 <= i < plan.env@.len() ==> plan.env@[i]@ == vstd::utf8::encode_utf8(
            launch.workload.env@[i]@,
        ).push(0),
        plan.cwd@ == vstd::utf8::encode_utf8(launch.workload.cwd@).push(0),
        !has_nul(launch.stdout_log@) ==> plan.stdout_log@ == vstd::utf8::encode_utf8(
            launch.stdout_log@,
        ).push(0),
        has_nul(launch.stdout_log@) ==> plan.stdout_log@ == seq![0u8],
        !has_nul(launch.stderr_log@) ==> plan.stderr_log@ == vstd::utf8::encode_utf8(
            launch.stderr_log@,
        ).push(0),
        has_nul(launch.stderr_log@) ==> plan.stderr_log@ == seq![0u8],
{
    let args = text::texts(launch.workload.args@);
    let env = text::texts(launch.workload.env@);
    assert(byte_strings(plan.args@).len() == plan.args@.len());
    assert(c_texts(args).len() == launch.workload.args@.len());
    assert(byte_strings(plan.env@).len() == plan.env@.len());
    assert(c_texts(env).len() == launch.workload.env@.len());
    if 0 <= i < plan.args@.len() {
        assert(byte_strings(plan.args@)[i] == plan.args@[i]@);
        assert(c_texts(args)[i] == c_text(args[i]));
    }
    if 0 <= i < plan.env@.len() {
        assert(byte_strings(plan.env@)[i] == plan.env@[i]@);
        assert(c_texts(env)[i] == c_text(env[i]));
    }
}

/// The text that a refusal names is the first of its list that cannot be a C string.
pub proof fn law_first_with_nul_is_the_first(values: Seq<Seq<char>>)
    ensures
        first_with_nul(values) matches Some(k) ==> k < values.len() && vstd::utf8::encode_utf8(
            values[k as int],
        ).contains(0u8) && forall|j: int|
            0 <= j < k ==> !vstd::utf8::encode_utf8(#[trigger] values[j]).contains(0u8),
        first_with_nul(values) is None ==> forall|j: int|
            0 <= j < values.len() ==> !vstd::utf8::encode_utf8(#[trigger] values[j]).contains(0u8),
    decreases values.len(),
{
    if values.len() > 0 && !has_nul(values[0]) {
        let rest = values.skip(1);
        law_first_with_nul_is_the_first(rest);
        match first_with_nul(rest) {
            Some(k) => {
                assert(values[k as int + 1] == rest[k as int]);
                assert forall|j: int| 0 <= j < k + 1 implies !vstd::utf8::encode_utf8(
                    #[trigger] values[j],
                ).contains(0u8) by {
                    if j > 0 {
                        assert(rest[j - 1] == values[j]);
                    }
                }
            },
            None => {
                assert forall|j: int| 0 <= j < values.len() implies !vstd::utf8::encode_utf8(
                    #[trigger] values[j],
                ).contains(0u8) by {
                    if j > 0 {
                        assert(rest[j - 1] == values[j]);
                    }
                }
            },
        }
    }
}

/// A workload that cannot be told to the system is refused for its arguments before its
/// environment, and for that before its directory, by the field and the place.
pub proof fn law_exec_is_refused_in_order(w: WorkloadText)
    ensures
        first_with_nul(w.args) matches Some(i) ==> exec_refusal(w) == Some(
            "process.args"@ + "["@ + number::decimal(i) + "] contains an interior NUL byte"@,
        ),
        first_with_nul(w.args) is None ==> (first_with_nul(w.env) matches Some(i) ==> exec_refusal(
            w,
        ) == Some(
            "process.env"@ + "["@ + number::decimal(i) + "] contains an interior NUL byte"@,
        )),
        first_with_nul(w.args) is None && first_with_nul(w.env) is None ==> (exec_refusal(w)
            is Some <==> has_nul(w.cwd)),
        first_with_nul(w.args) is None && first_with_nul(w.env) is None && has_nul(w.cwd)
            ==> exec_refusal(w) == Some(
            "nul byte found in provided data at position: "@ + number::decimal(
                first_nul(vstd::utf8::encode_utf8(w.cwd)),
            ),
        ),
{
}

/// The place of the first zero byte has a zero byte, and no place before it has.
pub proof fn law_first_nul_is_the_first(bytes: Seq<u8>)
    ensures
        first_nul(bytes) <= bytes.len(),
        first_nul(bytes) < bytes.len() ==> bytes[first_nul(bytes) as int] == 0,
        forall|j: int| 0 <= j < first_nul(bytes) ==> #[trigger] bytes[j] != 0,
    decreases bytes.len(),
{
    if bytes.len() > 0 && bytes[0] != 0 {
        let rest = bytes.skip(1);
        law_first_nul_is_the_first(rest);
        assert forall|j: int| 0 <= j < first_nul(bytes) implies #[trigger] bytes[j] != 0 by {
            if j > 0 {
                assert(rest[j - 1] != 0);
            }
        }
    }
}

/// A workload that was read off a spec has the spec's own arguments, environment, directory and
/// host name, part by part.
pub proof fn law_workload_is_read_part_by_part(spec: OciSpec, w: Workload)
    requires
        workload_in(Ok(w)) == workload_of(spec_in(Ok(spec))),
    ensures
        spec.process matches Some(process) && {
            &&& process.args matches Some(args)
            &&& text::texts(w.args@) == text::texts(args@)
            &&& process.env matches Some(env) ==> text::texts(w.env@) == text::texts(env@)
            &&& process.env is None ==> w.env@.len() == 0
            &&& w.cwd@ == process.cwd@
        },
        text::text_in(w.hostname) == text::text_in(spec.hostname),
{
    assert(text::texts(w.env@).len() == w.env@.len());
}

} // verus!
