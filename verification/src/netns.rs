//! Namespace-aware dialing.
//!
//! A connect-helper is the program's own binary, run inside a namespace. For
//! each request it dials a target and hands the connected socket back over a
//! Unix socketpair:
//!
//! - request: `C <host> <port>\n`
//! - response: one status byte, `K` with the socket attached, or `E` followed by
//!   a newline-terminated error message.
//!
//! There is one helper for each namespace, reused across connections; a helper
//! that fails is evicted and the request tried once more.

use vstd::prelude::*;

use crate::command::{argv, push_exe, push_text, text_args, Arg, ArgView};
use crate::forward::NsSpec;
use crate::number::{format_signed, parse_i32, read_signed, read_signed_decimal, signed_decimal};
use crate::text::{decode_lossy, has_text, occurs_at, trim, trimmed, utf8_lossy};

verus! {

/// How a helper enters its namespace.
#[derive(Debug, PartialEq, Eq)]
pub enum Entry {
    /// Join the user and network namespaces of this process.
    Pid(i32),
    /// Join an explicit network namespace file.
    Path(String),
}

/// An [`Entry`] with its string as a character sequence.
pub enum EntryView {
    Pid(i32),
    Path(Seq<char>),
}

impl View for Entry {
    type V = EntryView;

    open spec fn view(&self) -> EntryView {
        match *self {
            Entry::Pid(pid) => EntryView::Pid(pid),
            Entry::Path(path) => EntryView::Path(path@),
        }
    }
}

/// A container runtime.
#[derive(Debug, Clone, Copy, PartialEq, Eq, Structural)]
pub enum Runtime {
    Podman,
    Docker,
}

impl Runtime {
    /// The runtime's program name.
    pub open spec fn name(self) -> Seq<char> {
        match self {
            Runtime::Podman => "podman"@,
            Runtime::Docker => "docker"@,
        }
    }

    /// The runtime's program name.
    pub fn program(self) -> (s: &'static str)
        ensures
            s@ == self.name(),
    {
        match self {
            Runtime::Podman => "podman",
            Runtime::Docker => "docker",
        }
    }
}

/// Why a namespace selector cannot be used.
#[derive(Debug, PartialEq, Eq)]
pub enum Refusal {
    /// The host namespace is entered without a helper.
    HostNeedsNoHelper,
    /// Entering the named namespace takes root.
    RootfulEntry(String),
    /// A namespace file has no process to read the listeners of.
    UnscannablePath(String),
    /// Reading the listeners of the named namespace takes root.
    RootfulScan(String),
}

impl Refusal {
    /// The message that says why.
    pub open spec fn text(self) -> Seq<char> {
        match self {
            Refusal::HostNeedsNoHelper => "host namespace needs no helper"@,
            Refusal::RootfulEntry(name) => "netns:"@ + name@
                + " is a rootful (ip-netns) namespace; rootful entry is not yet supported — the v1 agent runs unprivileged (rootless only)"@,
            Refusal::UnscannablePath(path) => "cannot scan nspath:"@ + path@ + " (no owning PID)"@,
            Refusal::RootfulScan(name) => "cannot scan netns:"@ + name@
                + " (rootful; unsupported in v1)"@,
        }
    }

    /// The message that says why.
    pub fn message(&self) -> (s: String)
        ensures
            s@ == self.text(),
    {
        match self {
            Refusal::HostNeedsNoHelper => "host namespace needs no helper".to_string(),
            Refusal::RootfulEntry(name) => {
                let mut s: String = "netns:".to_string();
                s.append(name.as_str());
                s.append(
                    " is a rootful (ip-netns) namespace; rootful entry is not yet supported — the v1 agent runs unprivileged (rootless only)",
                );
                s
            },
            Refusal::UnscannablePath(path) => {
                let mut s: String = "cannot scan nspath:".to_string();
                s.append(path.as_str());
                s.append(" (no owning PID)");
                s
            },
            Refusal::RootfulScan(name) => {
                let mut s: String = "cannot scan netns:".to_string();
                s.append(name.as_str());
                s.append(" (rootful; unsupported in v1)");
                s
            },
        }
    }
}

/// Why a namespace selector was not resolved: it was refused, or looking up the
/// container failed with `E`.
#[derive(Debug, PartialEq, Eq)]
pub enum ResolveError<E> {
    Refused(Refusal),
    Inspect(E),
}

/// What a container's PID, or the failure to find it, makes of the resolution.
pub open spec fn inspected_entry<E>(found: Result<i32, E>) -> Result<Entry, ResolveError<E>> {
    match found {
        Ok(pid) => Ok(Entry::Pid(pid)),
        Err(e) => Err(ResolveError::Inspect(e)),
    }
}

/// What a container's PID, or the failure to find it, makes of the scan.
pub open spec fn inspected_pid<E>(found: Result<i32, E>) -> Result<Option<i32>, ResolveError<E>> {
    match found {
        Ok(pid) => Ok(Some(pid)),
        Err(e) => Err(ResolveError::Inspect(e)),
    }
}

/// Resolves a namespace selector to an entry strategy. A container's PID is
/// looked up by `inspect`, which is called only for containers, with the runtime
/// and the container's name.
pub fn resolve<E, F: Fn(Runtime, &String) -> Result<i32, E>>(ns: &NsSpec, inspect: F) -> (res: Result<
    Entry,
    ResolveError<E>,
>)
    requires
        ns matches NsSpec::Podman(name) ==> call_requires(inspect, (Runtime::Podman, &name)),
        ns matches NsSpec::Docker(name) ==> call_requires(inspect, (Runtime::Docker, &name)),
    ensures
        match *ns {
            NsSpec::Host => res == Err::<Entry, ResolveError<E>>(
                ResolveError::Refused(Refusal::HostNeedsNoHelper),
            ),
            NsSpec::Pid(pid) => res == Ok::<Entry, ResolveError<E>>(Entry::Pid(pid)),
            NsSpec::NsPath(path) => res == Ok::<Entry, ResolveError<E>>(Entry::Path(path)),
            NsSpec::Podman(name) => exists|found: Result<i32, E>|
                call_ensures(inspect, (Runtime::Podman, &name), found) && res == #[trigger] inspected_entry(
                    found,
                ),
            NsSpec::Docker(name) => exists|found: Result<i32, E>|
                call_ensures(inspect, (Runtime::Docker, &name), found) && res == #[trigger] inspected_entry(
                    found,
                ),
            NsSpec::Netns(name) => res == Err::<Entry, ResolveError<E>>(
                ResolveError::Refused(Refusal::RootfulEntry(name)),
            ),
        },
{
    match ns {
        NsSpec::Host => Err(ResolveError::Refused(Refusal::HostNeedsNoHelper)),
        NsSpec::Pid(pid) => Ok(Entry::Pid(*pid)),
        NsSpec::NsPath(path) => Ok(Entry::Path(path.clone())),
        NsSpec::Podman(name) => {
            let found: Result<i32, E> = inspect(Runtime::Podman, name);
            proof {
                let _ = inspected_entry(found);
            }
            match found {
                Ok(pid) => Ok(Entry::Pid(pid)),
                Err(e) => Err(ResolveError::Inspect(e)),
            }
        },
        NsSpec::Docker(name) => {
            let found: Result<i32, E> = inspect(Runtime::Docker, name);
            proof {
                let _ = inspected_entry(found);
            }
            match found {
                Ok(pid) => Ok(Entry::Pid(pid)),
                Err(e) => Err(ResolveError::Inspect(e)),
            }
        },
        NsSpec::Netns(name) => Err(ResolveError::Refused(Refusal::RootfulEntry(name.clone()))),
    }
}

/// The entry strategy for a new helper: none for the host namespace, which the
/// helper runs in as it is, else what [`resolve`] gives.
pub fn helper_entry<E, F: Fn(Runtime, &String) -> Result<i32, E>>(ns: &NsSpec, inspect: F) -> (res:
    Result<Option<Entry>, ResolveError<E>>)
    requires
        ns matches NsSpec::Podman(name) ==> call_requires(inspect, (Runtime::Podman, &name)),
        ns matches NsSpec::Docker(name) ==> call_requires(inspect, (Runtime::Docker, &name)),
    ensures
        match *ns {
            NsSpec::Host => res == Ok::<Option<Entry>, ResolveError<E>>(None),
            NsSpec::Pid(pid) => res == Ok::<Option<Entry>, ResolveError<E>>(Some(Entry::Pid(pid))),
            NsSpec::NsPath(path) => res == Ok::<Option<Entry>, ResolveError<E>>(
                Some(Entry::Path(path)),
            ),
            NsSpec::Podman(name) => exists|found: Result<i32, E>|
                call_ensures(inspect, (Runtime::Podman, &name), found) && res == some_entry(
                    #[trigger] inspected_entry(found),
                ),
            NsSpec::Docker(name) => exists|found: Result<i32, E>|
                call_ensures(inspect, (Runtime::Docker, &name), found) && res == some_entry(
                    #[trigger] inspected_entry(found),
                ),
            NsSpec::Netns(name) => res == Err::<Option<Entry>, ResolveError<E>>(
                ResolveError::Refused(Refusal::RootfulEntry(name)),
            ),
        },
{
    if ns.is_host() {
        Ok(None)
    } else {
        match resolve(ns, inspect) {
            Ok(entry) => Ok(Some(entry)),
            Err(e) => Err(e),
        }
    }
}

/// A resolved entry as the entry of a helper that needs one.
pub open spec fn some_entry<E>(res: Result<Entry, ResolveError<E>>) -> Result<
    Option<Entry>,
    ResolveError<E>,
> {
    match res {
        Ok(entry) => Ok(Some(entry)),
        Err(e) => Err(e),
    }
}

/// Resolves a namespace selector to the PID whose `/proc/<pid>/net/tcp` shows
/// that namespace's listeners; `None` is the agent's own namespace. A
/// container's PID is looked up by `inspect`, which is called only for
/// containers, with the runtime and the container's name. Namespace files and
/// named namespaces carry no PID and cannot be scanned.
pub fn resolve_pid<E, F: Fn(Runtime, &String) -> Result<i32, E>>(ns: &NsSpec, inspect: F) -> (res:
    Result<Option<i32>, ResolveError<E>>)
    requires
        ns matches NsSpec::Podman(name) ==> call_requires(inspect, (Runtime::Podman, &name)),
        ns matches NsSpec::Docker(name) ==> call_requires(inspect, (Runtime::Docker, &name)),
    ensures
        match *ns {
            NsSpec::Host => res == Ok::<Option<i32>, ResolveError<E>>(None),
            NsSpec::Pid(pid) => res == Ok::<Option<i32>, ResolveError<E>>(Some(pid)),
            NsSpec::Podman(name) => exists|found: Result<i32, E>|
                call_ensures(inspect, (Runtime::Podman, &name), found) && res == #[trigger] inspected_pid(
                    found,
                ),
            NsSpec::Docker(name) => exists|found: Result<i32, E>|
                call_ensures(inspect, (Runtime::Docker, &name), found) && res == #[trigger] inspected_pid(
                    found,
                ),
            NsSpec::NsPath(path) => res == Err::<Option<i32>, ResolveError<E>>(
                ResolveError::Refused(Refusal::UnscannablePath(path)),
            ),
            NsSpec::Netns(name) => res == Err::<Option<i32>, ResolveError<E>>(
                ResolveError::Refused(Refusal::RootfulScan(name)),
            ),
        },
{
    match ns {
        NsSpec::Host => Ok(None),
        NsSpec::Pid(pid) => Ok(Some(*pid)),
        NsSpec::Podman(name) => {
            let found: Result<i32, E> = inspect(Runtime::Podman, name);
            proof {
                let _ = inspected_pid(found);
            }
            match found {
                Ok(pid) => Ok(Some(pid)),
                Err(e) => Err(ResolveError::Inspect(e)),
            }
        },
        NsSpec::Docker(name) => {
            let found: Result<i32, E> = inspect(Runtime::Docker, name);
            proof {
                let _ = inspected_pid(found);
            }
            match found {
                Ok(pid) => Ok(Some(pid)),
                Err(e) => Err(ResolveError::Inspect(e)),
            }
        },
        NsSpec::NsPath(path) => Err(ResolveError::Refused(Refusal::UnscannablePath(path.clone()))),
        NsSpec::Netns(name) => Err(ResolveError::Refused(Refusal::RootfulScan(name.clone()))),
    }
}

/// The command that prints the PID of a container's first process.
pub fn inspect_command(runtime: Runtime, name: &str) -> (list: Vec<Arg>)
    ensures
        argv(list@) == text_args(
            seq![runtime.name(), "inspect"@, "--format"@, "{{.State.Pid}}"@, name@],
        ),
{
    let mut list: Vec<Arg> = Vec::new();
    push_text(&mut list, runtime.program());
    push_text(&mut list, "inspect");
    push_text(&mut list, "--format");
    push_text(&mut list, "{{.State.Pid}}");
    push_text(&mut list, name);
    proof {
        assert(argv(list@) =~= text_args(
            seq![runtime.name(), "inspect"@, "--format"@, "{{.State.Pid}}"@, name@],
        ));
    }
    list
}

/// Why a container's PID is not known.
#[derive(Debug, PartialEq, Eq)]
pub enum InspectError {
    /// The runtime reported a failure: runtime, container, trimmed error output.
    Failed(Runtime, String, String),
    /// The runtime printed something else than a PID: runtime, trimmed output.
    BadPid(Runtime, String),
    /// The container has no live process: runtime, container, the PID printed.
    NoProcess(Runtime, String, i32),
}

/// An [`InspectError`] with its strings as character sequences.
pub enum InspectErrorView {
    Failed(Runtime, Seq<char>, Seq<char>),
    BadPid(Runtime, Seq<char>),
    NoProcess(Runtime, Seq<char>, i32),
}

impl View for InspectError {
    type V = InspectErrorView;

    open spec fn view(&self) -> InspectErrorView {
        match *self {
            InspectError::Failed(runtime, name, why) => InspectErrorView::Failed(
                runtime,
                name@,
                why@,
            ),
            InspectError::BadPid(runtime, out) => InspectErrorView::BadPid(runtime, out@),
            InspectError::NoProcess(runtime, name, pid) => InspectErrorView::NoProcess(
                runtime,
                name@,
                pid,
            ),
        }
    }
}

impl InspectErrorView {
    /// The message that says what was wrong.
    pub open spec fn text(self) -> Seq<char> {
        match self {
            InspectErrorView::Failed(runtime, name, why) => runtime.name() + " inspect "@ + name
                + " failed: "@ + why,
            InspectErrorView::BadPid(runtime, _) => "parsing PID from "@ + runtime.name()
                + " inspect"@,
            InspectErrorView::NoProcess(runtime, name, pid) => runtime.name() + " container "@
                + name + " has no live process (PID "@ + signed_decimal(pid as int) + ")"@,
        }
    }
}

impl InspectError {
    /// The message that says what was wrong.
    pub fn message(&self) -> (s: String)
        ensures
            s@ == self@.text(),
    {
        match self {
            InspectError::Failed(runtime, name, why) => {
                let mut s: String = runtime.program().to_string();
                s.append(" inspect ");
                s.append(name.as_str());
                s.append(" failed: ");
                s.append(why.as_str());
                s
            },
            InspectError::BadPid(runtime, _) => {
                let mut s: String = "parsing PID from ".to_string();
                s.append(runtime.program());
                s.append(" inspect");
                s
            },
            InspectError::NoProcess(runtime, name, pid) => {
                let mut s: String = runtime.program().to_string();
                s.append(" container ");
                s.append(name.as_str());
                s.append(" has no live process (PID ");
                s.append(format_signed(*pid).as_str());
                s.append(")");
                s
            },
        }
    }
}

/// What a finished inspection tells: a container's PID is the positive number
/// that a successful inspection printed.
pub open spec fn inspection(
    runtime: Runtime,
    name: Seq<char>,
    success: bool,
    out: Seq<char>,
    err: Seq<char>,
) -> Result<i32, InspectErrorView> {
    if !success {
        Err(InspectErrorView::Failed(runtime, name, trimmed(err)))
    } else {
        match read_signed(trimmed(out), i32::MAX as nat) {
            None => Err(InspectErrorView::BadPid(runtime, trimmed(out))),
            Some(pid) => if pid <= 0 {
                Err(InspectErrorView::NoProcess(runtime, name, pid as i32))
            } else {
                Ok(pid as i32)
            },
        }
    }
}

/// Reads a container's PID off a finished inspection: whether it succeeded, and
/// what it printed as output and as errors.
pub fn read_inspection(
    runtime: Runtime,
    name: &str,
    success: bool,
    stdout: &str,
    stderr: &str,
) -> (res: Result<i32, InspectError>)
    ensures
        match inspection(runtime, name@, success, stdout@, stderr@) {
            Ok(pid) => res == Ok::<i32, InspectError>(pid),
            Err(e) => res is Err && res->Err_0@ == e,
        },
{
    if !success {
        return Err(InspectError::Failed(runtime, name.to_string(), trim(stderr)));
    }
    let out: String = trim(stdout);
    match parse_i32(out.as_str()) {
        None => Err(InspectError::BadPid(runtime, out)),
        Some(pid) => if pid <= 0 {
            Err(InspectError::NoProcess(runtime, name.to_string(), pid))
        } else {
            Ok(pid)
        },
    }
}

/// Reads a container's PID off the raw output of a finished inspection.
pub fn inspect_pid(
    runtime: Runtime,
    name: &str,
    success: bool,
    stdout: &Vec<u8>,
    stderr: &Vec<u8>,
) -> (res: Result<i32, InspectError>)
    ensures
        match inspection(runtime, name@, success, utf8_lossy(stdout@), utf8_lossy(stderr@)) {
            Ok(pid) => res == Ok::<i32, InspectError>(pid),
            Err(e) => res is Err && res->Err_0@ == e,
        },
{
    let out: String = decode_lossy(stdout);
    let err: String = decode_lossy(stderr);
    read_inspection(runtime, name, success, out.as_str(), err.as_str())
}

/// The command line that starts a helper: the binary itself with the helper
/// subcommand, under `nsenter` where there is a namespace to enter. The user
/// namespace of a process is joined with its network namespace.
pub open spec fn helper_argv(entry: Option<EntryView>) -> Seq<ArgView> {
    match entry {
        Some(EntryView::Pid(pid)) => text_args(
            seq![
                "nsenter"@,
                "-t"@,
                signed_decimal(pid as int),
                "--preserve-credentials"@,
                "-U"@,
                "-n"@,
                "--"@,
            ],
        ) + seq![ArgView::Exe, ArgView::Text("ns-helper"@)],
        Some(EntryView::Path(path)) => text_args(seq!["nsenter"@, "--net="@ + path, "--"@])
            + seq![ArgView::Exe, ArgView::Text("ns-helper"@)],
        None => seq![ArgView::Exe, ArgView::Text("ns-helper"@)],
    }
}

/// The view of an optional entry.
pub open spec fn entry_view(entry: Option<Entry>) -> Option<EntryView> {
    match entry {
        Some(e) => Some(e@),
        None => None,
    }
}

/// The command line that starts a helper.
pub fn helper_command(entry: &Option<Entry>) -> (list: Vec<Arg>)
    ensures
        argv(list@) == helper_argv(entry_view(*entry)),
{
    let mut list: Vec<Arg> = Vec::new();
    match entry {
        Some(Entry::Pid(pid)) => {
            push_text(&mut list, "nsenter");
            push_text(&mut list, "-t");
            push_text(&mut list, format_signed(*pid).as_str());
            push_text(&mut list, "--preserve-credentials");
            push_text(&mut list, "-U");
            push_text(&mut list, "-n");
            push_text(&mut list, "--");
        },
        Some(Entry::Path(path)) => {
            push_text(&mut list, "nsenter");
            let mut net: String = "--net=".to_string();
            net.append(path.as_str());
            push_text(&mut list, net.as_str());
            push_text(&mut list, "--");
        },
        None => {},
    }
    push_exe(&mut list);
    push_text(&mut list, "ns-helper");
    proof {
        assert(argv(list@) =~= helper_argv(entry_view(*entry)));
    }
    list
}

/// A PID that an inspection gives is that of a live process.
pub proof fn inspected_pid_is_positive(
    runtime: Runtime,
    name: Seq<char>,
    success: bool,
    out: Seq<char>,
    err: Seq<char>,
)
    ensures
        inspection(runtime, name, success, out, err) matches Ok(pid) ==> success && pid > 0
            && read_signed(trimmed(out), i32::MAX as nat) == Some(pid as int),
{
}

/// A PID that the runtime prints, with white space around it or without, is the
/// PID that the inspection gives.
pub proof fn printed_pid_is_read(runtime: Runtime, name: Seq<char>, out: Seq<char>, err: Seq<char>, pid: i32)
    requires
        pid > 0,
        trimmed(out) == signed_decimal(pid as int),
    ensures
        inspection(runtime, name, true, out, err) == Ok::<i32, InspectErrorView>(pid),
{
    read_signed_decimal(pid as int, i32::MAX as nat);
}

/// Refusing a rootful namespace says so.
pub proof fn rootful_refusal_says_so(name: String)
    ensures
        has_text(Refusal::RootfulEntry(name).text(), "rootful"@),
        has_text(Refusal::RootfulScan(name).text(), "rootful"@),
{
    reveal_strlit("rootful");
    reveal_strlit("netns:");
    reveal_strlit(
        " is a rootful (ip-netns) namespace; rootful entry is not yet supported — the v1 agent runs unprivileged (rootless only)",
    );
    reveal_strlit("cannot scan netns:");
    reveal_strlit(" (rootful; unsupported in v1)");
    let entry = Refusal::RootfulEntry(name).text();
    let scan = Refusal::RootfulScan(name).text();
    let a = 6 + name@.len() + 6;
    assert(entry.subrange(a as int, a as int + 7) =~= "rootful"@);
    assert(occurs_at(entry, "rootful"@, a as int));
    let b = 18 + name@.len() + 2;
    assert(scan.subrange(b as int, b as int + 7) =~= "rootful"@);
    assert(occurs_at(scan, "rootful"@, b as int));
}

} // verus!
