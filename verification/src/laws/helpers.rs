//! Namespaces, and the helpers inside them.

use vstd::prelude::*;

use crate::command::{argv, Arg};
use crate::forward::NsSpec;
use crate::laws::{ends_with, is_exe, is_text, lemma_argv, starts_with};
use crate::netns::{
    helper_command, helper_entry, inspect_command, inspect_pid, read_inspection, resolve, resolve_pid,
    Entry, InspectError, Refusal, ResolveError, Runtime,
};
use crate::number::{
    all_digits, decimal, lemma_decimal, read_decimal, read_signed, read_signed_decimal,
    read_unsigned, signed_decimal,
};
use crate::pool::{pool_after, tried_again};
use crate::protocol::{
    connect_error, encode_error, encode_request, handle_dialed, handle_request, parse_request,
    read_reply, request_failure, requested, HelperAction, HelperFailure, HelperReply, RequestEvent,
};
use crate::text::{no_white, replaced, trimmed, utf8_lossy, words};

verus! {

/// The helper for a process enters that process's namespaces: the word after `-t`
/// reads back as its PID, the user namespace is joined with the network namespace,
/// and our own binary is run there as a helper.
pub proof fn helper_enters_the_process(pid: i32, list: Vec<Arg>)
    requires
        call_ensures(helper_command, (&Some(Entry::Pid(pid)),), list),
    ensures
        list@.len() == 9,
        is_text(list@[0], "nsenter"@),
        is_text(list@[1], "-t"@),
        list@[2] matches Arg::Text(word) && read_signed(word@, i32::MAX as nat) == Some(pid as int),
        is_text(list@[3], "--preserve-credentials"@),
        is_text(list@[4], "-U"@),
        is_text(list@[5], "-n"@),
        is_text(list@[6], "--"@),
        is_exe(list@[7]),
        is_text(list@[8], "ns-helper"@),
{
    lemma_argv(list@);
    let v = argv(list@);
    assert(v.len() == 9);
    read_signed_decimal(pid as int, i32::MAX as nat);
    assert(v[0] == list@[0]@ && v[1] == list@[1]@ && v[2] == list@[2]@ && v[3] == list@[3]@);
    assert(v[4] == list@[4]@ && v[5] == list@[5]@ && v[6] == list@[6]@ && v[7] == list@[7]@);
    assert(v[8] == list@[8]@);
}

/// The helper for a namespace file enters that file's namespace.
pub proof fn helper_enters_the_file(path: String, list: Vec<Arg>)
    requires
        call_ensures(helper_command, (&Some(Entry::Path(path)),), list),
    ensures
        list@.len() == 5,
        is_text(list@[0], "nsenter"@),
        list@[1] matches Arg::Text(word) && starts_with(word@, "--net="@) && word@.skip(
            "--net="@.len() as int,
        ) == path@,
        is_text(list@[2], "--"@),
        is_exe(list@[3]),
        is_text(list@[4], "ns-helper"@),
{
    lemma_argv(list@);
    let v = argv(list@);
    let lead = "--net="@;
    let word = lead + path@;
    assert(v.len() == 5);
    assert(v[0] == list@[0]@ && v[1] == list@[1]@ && v[2] == list@[2]@ && v[3] == list@[3]@);
    assert(v[4] == list@[4]@);
    assert(word.subrange(0, lead.len() as int) =~= lead);
    assert(word.skip(lead.len() as int) =~= path@);
}

/// A helper that has no namespace to enter is our own binary, run as a helper.
pub proof fn helper_without_entry_runs_here(list: Vec<Arg>)
    requires
        call_ensures(helper_command, (&None::<Entry>,), list),
    ensures
        list@.len() == 2,
        is_exe(list@[0]),
        is_text(list@[1], "ns-helper"@),
{
    lemma_argv(list@);
    let v = argv(list@);
    assert(v.len() == 2);
    assert(v[0] == list@[0]@ && v[1] == list@[1]@);
}

/// Different processes get different helpers, and so do different files.
pub proof fn helper_command_tells_the_entry(a: Entry, list_a: Vec<Arg>, b: Entry, list_b: Vec<Arg>)
    requires
        call_ensures(helper_command, (&Some(a),), list_a),
        call_ensures(helper_command, (&Some(b),), list_b),
        argv(list_a@) == argv(list_b@),
    ensures
        match (a, b) {
            (Entry::Pid(p), Entry::Pid(q)) => p == q,
            (Entry::Path(p), Entry::Path(q)) => p@ == q@,
            _ => false,
        },
{
    lemma_argv(list_a@);
    lemma_argv(list_b@);
    match (a, b) {
        (Entry::Pid(p), Entry::Pid(q)) => {
            helper_enters_the_process(p, list_a);
            helper_enters_the_process(q, list_b);
            assert(argv(list_a@)[2] == list_a@[2]@);
            assert(argv(list_b@)[2] == list_b@[2]@);
        },
        (Entry::Path(p), Entry::Path(q)) => {
            helper_enters_the_file(p, list_a);
            helper_enters_the_file(q, list_b);
            assert(argv(list_a@)[1] == list_a@[1]@);
            assert(argv(list_b@)[1] == list_b@[1]@);
        },
        (Entry::Pid(p), Entry::Path(q)) => {
            helper_enters_the_process(p, list_a);
            helper_enters_the_file(q, list_b);
        },
        (Entry::Path(p), Entry::Pid(q)) => {
            helper_enters_the_file(p, list_a);
            helper_enters_the_process(q, list_b);
        },
    }
}

/// A selector leads to the entry it names: a process to that process, a file to that
/// file, a container to the process that its runtime's inspection gave for its
/// name. The host needs none, and a named namespace is refused by its name.
pub proof fn selector_leads_to_its_entry<E, F: Fn(Runtime, &String) -> Result<i32, E>>(
    ns: &NsSpec,
    inspect: F,
    res: Result<Entry, ResolveError<E>>,
)
    requires
        call_ensures(resolve::<E, F>, (ns, inspect), res),
    ensures
        match *ns {
            NsSpec::Host => res matches Err(ResolveError::Refused(Refusal::HostNeedsNoHelper)),
            NsSpec::Pid(pid) => res matches Ok(Entry::Pid(p)) && p == pid,
            NsSpec::NsPath(path) => res matches Ok(Entry::Path(p)) && p@ == path@,
            NsSpec::Podman(name) => match res {
                Ok(Entry::Pid(p)) => call_ensures(
                    inspect,
                    (Runtime::Podman, &name),
                    Ok::<i32, E>(p),
                ),
                Err(ResolveError::Inspect(e)) => call_ensures(
                    inspect,
                    (Runtime::Podman, &name),
                    Err::<i32, E>(e),
                ),
                _ => false,
            },
            NsSpec::Docker(name) => match res {
                Ok(Entry::Pid(p)) => call_ensures(
                    inspect,
                    (Runtime::Docker, &name),
                    Ok::<i32, E>(p),
                ),
                Err(ResolveError::Inspect(e)) => call_ensures(
                    inspect,
                    (Runtime::Docker, &name),
                    Err::<i32, E>(e),
                ),
                _ => false,
            },
            NsSpec::Netns(name) => res matches Err(
                ResolveError::Refused(Refusal::RootfulEntry(n)),
            ) && n@ == name@,
        },
{
}

/// A helper for the host enters nothing; for every other selector it enters what the
/// selector resolves to.
pub proof fn helper_entry_is_the_resolved_one<E, F: Fn(Runtime, &String) -> Result<i32, E>>(
    ns: &NsSpec,
    inspect: F,
    res: Result<Option<Entry>, ResolveError<E>>,
)
    requires
        call_ensures(helper_entry::<E, F>, (ns, inspect), res),
    ensures
        match *ns {
            NsSpec::Host => res matches Ok(None),
            NsSpec::Pid(pid) => res matches Ok(Some(Entry::Pid(p))) && p == pid,
            NsSpec::NsPath(path) => res matches Ok(Some(Entry::Path(p))) && p@ == path@,
            NsSpec::Podman(name) => match res {
                Ok(Some(Entry::Pid(p))) => call_ensures(
                    inspect,
                    (Runtime::Podman, &name),
                    Ok::<i32, E>(p),
                ),
                Err(ResolveError::Inspect(e)) => call_ensures(
                    inspect,
                    (Runtime::Podman, &name),
                    Err::<i32, E>(e),
                ),
                _ => false,
            },
            NsSpec::Docker(name) => match res {
                Ok(Some(Entry::Pid(p))) => call_ensures(
                    inspect,
                    (Runtime::Docker, &name),
                    Ok::<i32, E>(p),
                ),
                Err(ResolveError::Inspect(e)) => call_ensures(
                    inspect,
                    (Runtime::Docker, &name),
                    Err::<i32, E>(e),
                ),
                _ => false,
            },
            NsSpec::Netns(name) => res matches Err(
                ResolveError::Refused(Refusal::RootfulEntry(n)),
            ) && n@ == name@,
        },
{
}

/// The listeners of a namespace are read from the process that the selector names;
/// selectors that name none are refused.
pub proof fn selector_leads_to_its_process<E, F: Fn(Runtime, &String) -> Result<i32, E>>(
    ns: &NsSpec,
    inspect: F,
    res: Result<Option<i32>, ResolveError<E>>,
)
    requires
        call_ensures(resolve_pid::<E, F>, (ns, inspect), res),
    ensures
        match *ns {
            NsSpec::Host => res matches Ok(None),
            NsSpec::Pid(pid) => res matches Ok(Some(p)) && p == pid,
            NsSpec::Podman(name) => match res {
                Ok(Some(p)) => call_ensures(inspect, (Runtime::Podman, &name), Ok::<i32, E>(p)),
                Err(ResolveError::Inspect(e)) => call_ensures(
                    inspect,
                    (Runtime::Podman, &name),
                    Err::<i32, E>(e),
                ),
                _ => false,
            },
            NsSpec::Docker(name) => match res {
                Ok(Some(p)) => call_ensures(inspect, (Runtime::Docker, &name), Ok::<i32, E>(p)),
                Err(ResolveError::Inspect(e)) => call_ensures(
                    inspect,
                    (Runtime::Docker, &name),
                    Err::<i32, E>(e),
                ),
                _ => false,
            },
            NsSpec::NsPath(path) => res matches Err(
                ResolveError::Refused(Refusal::UnscannablePath(p)),
            ) && p@ == path@,
            NsSpec::Netns(name) => res matches Err(ResolveError::Refused(Refusal::RootfulScan(n)))
                && n@ == name@,
        },
{
}

/// The program that looks up a container belongs to its runtime, and the container
/// is asked for by its name.
pub proof fn inspection_asks_for_the_container(runtime: Runtime, name: &str, list: Vec<Arg>)
    requires
        call_ensures(inspect_command, (runtime, name), list),
    ensures
        list@.len() == 5,
        is_text(
            list@[0],
            if runtime is Podman {
                "podman"@
            } else {
                "docker"@
            },
        ),
        is_text(list@[1], "inspect"@),
        is_text(list@[2], "--format"@),
        is_text(list@[3], "{{.State.Pid}}"@),
        is_text(list@[4], name@),
{
    lemma_argv(list@);
    let v = argv(list@);
    assert(v.len() == 5);
    assert(v[0] == list@[0]@ && v[1] == list@[1]@ && v[2] == list@[2]@ && v[3] == list@[3]@);
    assert(v[4] == list@[4]@);
}

/// An inspection gives the PID that the runtime printed, if it is positive, and
/// nothing else: a failure, a number that is not positive, and what is no number
/// each give their own error.
pub proof fn inspection_gives_the_printed_pid(
    runtime: Runtime,
    name: &str,
    success: bool,
    out: &str,
    err: &str,
    pid: i32,
    res: Result<i32, InspectError>,
)
    requires
        call_ensures(read_inspection, (runtime, name, success, out, err), res),
    ensures
        res == Ok::<i32, InspectError>(pid) <==> success && pid > 0 && read_signed(
            trimmed(out@),
            i32::MAX as nat,
        ) == Some(pid as int),
        success && trimmed(out@) == signed_decimal(pid as int) ==> match res {
            Ok(p) => p == pid && pid > 0,
            Err(InspectError::NoProcess(r, n, p)) => r == runtime && n@ == name@ && p == pid && pid
                <= 0,
            _ => false,
        },
        !success ==> (res matches Err(InspectError::Failed(r, n, why)) && r == runtime && n@ == name@
            && why@ == trimmed(err@)),
        success && read_signed(trimmed(out@), i32::MAX as nat) is None ==> (res matches Err(
            InspectError::BadPid(r, text),
        ) && r == runtime && text@ == trimmed(out@)),
{
    read_signed_decimal(pid as int, i32::MAX as nat);
}

/// The raw output of an inspection is read as the text that it is.
pub proof fn raw_inspection_is_read_as_text(
    runtime: Runtime,
    name: &str,
    success: bool,
    stdout: &Vec<u8>,
    stderr: &Vec<u8>,
    raw: Result<i32, InspectError>,
    out: &str,
    err: &str,
    read: Result<i32, InspectError>,
)
    requires
        call_ensures(inspect_pid, (runtime, name, success, stdout, stderr), raw),
        out@ == utf8_lossy(stdout@),
        err@ == utf8_lossy(stderr@),
        call_ensures(read_inspection, (runtime, name, success, out, err), read),
    ensures
        match (raw, read) {
            (Ok(p), Ok(q)) => p == q,
            (Err(InspectError::Failed(r, n, w)), Err(InspectError::Failed(s, m, v))) => r == s && n@
                == m@ && w@ == v@,
            (Err(InspectError::BadPid(r, w)), Err(InspectError::BadPid(s, v))) => r == s && w@
                == v@,
            (Err(InspectError::NoProcess(r, n, p)), Err(InspectError::NoProcess(s, m, q))) => r == s
                && n@ == m@ && p == q,
            _ => false,
        },
{
}

/// What a refusal or a failed inspection says names what was asked for.
pub proof fn refusal_names_its_subject(refusal: &Refusal, s: String)
    requires
        call_ensures(Refusal::message, (refusal,), s),
    ensures
        match *refusal {
            Refusal::HostNeedsNoHelper => s@ == "host namespace needs no helper"@,
            Refusal::RootfulEntry(name) => starts_with(s@, "netns:"@ + name@ + " "@) && s@.skip(
                6 + name@.len() as int,
            )
                == " is a rootful (ip-netns) namespace; rootful entry is not yet supported — the v1 agent runs unprivileged (rootless only)"@,
            Refusal::UnscannablePath(path) => starts_with(
                s@,
                "cannot scan nspath:"@ + path@ + " "@,
            ) && s@.skip(19 + path@.len() as int) == " (no owning PID)"@,
            Refusal::RootfulScan(name) => starts_with(s@, "cannot scan netns:"@ + name@ + " "@)
                && s@.skip(18 + name@.len() as int) == " (rootful; unsupported in v1)"@,
        },
{
    reveal_strlit(" ");
    match *refusal {
        Refusal::HostNeedsNoHelper => {},
        Refusal::RootfulEntry(name) => {
            reveal_strlit(
                " is a rootful (ip-netns) namespace; rootful entry is not yet supported — the v1 agent runs unprivileged (rootless only)",
            );
            let lead = "netns:"@ + name@ + " "@;
            reveal_strlit("netns:");
            assert(s@.subrange(0, lead.len() as int) =~= lead);
            assert(s@.skip(6 + name@.len() as int)
                =~= " is a rootful (ip-netns) namespace; rootful entry is not yet supported — the v1 agent runs unprivileged (rootless only)"@);
        },
        Refusal::UnscannablePath(path) => {
            reveal_strlit(" (no owning PID)");
            let lead = "cannot scan nspath:"@ + path@ + " "@;
            reveal_strlit("cannot scan nspath:");
            assert(s@.subrange(0, lead.len() as int) =~= lead);
            assert(s@.skip(19 + path@.len() as int) =~= " (no owning PID)"@);
        },
        Refusal::RootfulScan(name) => {
            reveal_strlit(" (rootful; unsupported in v1)");
            let lead = "cannot scan netns:"@ + name@ + " "@;
            reveal_strlit("cannot scan netns:");
            assert(s@.subrange(0, lead.len() as int) =~= lead);
            assert(s@.skip(18 + name@.len() as int) =~= " (rootful; unsupported in v1)"@);
        },
    }
}

/// A failed inspection says which runtime, which container, and why.
pub proof fn failed_inspection_names_its_subject(e: &InspectError, s: String)
    requires
        call_ensures(InspectError::message, (e,), s),
    ensures
        match *e {
            InspectError::Failed(runtime, name, why) => starts_with(
                s@,
                (if runtime is Podman {
                    "podman"@
                } else {
                    "docker"@
                }) + " inspect "@ + name@,
            ) && ends_with(s@, " failed: "@ + why@),
            InspectError::BadPid(runtime, _) => s@ == if runtime is Podman {
                "parsing PID from podman inspect"@
            } else {
                "parsing PID from docker inspect"@
            },
            InspectError::NoProcess(runtime, name, pid) => starts_with(
                s@,
                (if runtime is Podman {
                    "podman"@
                } else {
                    "docker"@
                }) + " container "@ + name@,
            ) && ends_with(s@, "(PID "@ + signed_decimal(pid as int) + ")"@),
        },
{
    match *e {
        InspectError::Failed(runtime, name, why) => {
            let lead = runtime.name() + " inspect "@ + name@;
            let tail = " failed: "@ + why@;
            assert(s@.subrange(0, lead.len() as int) =~= lead);
            assert(s@.subrange(s@.len() - tail.len(), s@.len() as int) =~= tail);
        },
        InspectError::BadPid(runtime, _) => {
            reveal_strlit("parsing PID from ");
            reveal_strlit("podman");
            reveal_strlit("docker");
            reveal_strlit(" inspect");
            reveal_strlit("parsing PID from podman inspect");
            reveal_strlit("parsing PID from docker inspect");
            if runtime is Podman {
                assert(s@ =~= "parsing PID from podman inspect"@);
            } else {
                assert(s@ =~= "parsing PID from docker inspect"@);
            }
        },
        InspectError::NoProcess(runtime, name, pid) => {
            reveal_strlit(" has no live process (PID ");
            reveal_strlit("(PID ");
            let lead = runtime.name() + " container "@ + name@;
            let tail = "(PID "@ + signed_decimal(pid as int) + ")"@;
            assert(s@.subrange(0, lead.len() as int) =~= lead);
            assert(s@.subrange(s@.len() - tail.len(), s@.len() as int) =~= tail);
        },
    }
}

/// A request is a line of three words: `C`, the host, and what reads back as the
/// port; its only line feed ends it, where the host has none.
pub proof fn request_says_host_and_port(host: &str, port: u16, line: String)
    requires
        call_ensures(encode_request, (host, port), line),
    ensures
        starts_with(line@, "C "@ + host@ + " "@),
        line@.last() == '\n',
        read_unsigned(line@.subrange(host@.len() as int + 3, line@.len() - 1), u16::MAX as nat) == Some(
            port as nat,
        ),
        all_digits(line@.subrange(host@.len() as int + 3, line@.len() - 1)),
{
    reveal_strlit("C ");
    reveal_strlit(" ");
    reveal_strlit("\n");
    let lead = "C "@ + host@ + " "@;
    let digits = decimal(port as nat);
    lemma_decimal(port as nat);
    read_decimal(port as nat, u16::MAX as nat);
    assert(line@.subrange(0, lead.len() as int) =~= lead);
    assert(line@.subrange(host@.len() as int + 3, line@.len() - 1) =~= digits);
}

/// What the agent sends for a host, which is a word, and a port is what the helper
/// dials.
pub proof fn helper_dials_what_was_asked(
    host: &str,
    port: u16,
    line: String,
    read: &str,
    action: HelperAction,
)
    requires
        call_ensures(encode_request, (host, port), line),
        read@ == line@,
        call_ensures(handle_request, (read,), action),
        host@.len() > 0,
        no_white(host@),
    ensures
        action matches HelperAction::Dial(h, p) && h@ == host@ && p == port,
{
    crate::protocol::request_is_understood(host@, port);
}

/// A helper ends at the end of its input, dials what a request's second and third
/// word say, and answers everything else with an error line.
pub proof fn helper_does_what_the_line_says(line: &str, action: HelperAction)
    requires
        call_ensures(handle_request, (line,), action),
    ensures
        match action {
            HelperAction::Exit => line@.len() == 0,
            HelperAction::Dial(host, port) => {
                let w = words(line@);
                &&& w.len() >= 3
                &&& w[0] == "C"@
                &&& w[1] == host@
                &&& read_unsigned(w[2], u16::MAX as nat) == Some(port as nat)
            },
            HelperAction::Answer(reply) => {
                let w = words(line@);
                &&& line@.len() > 0
                &&& reply@ == "Emalformed request\n"@
                &&& w.len() < 3 || w[0] != "C"@ || read_unsigned(w[2], u16::MAX as nat) is None
            },
            HelperAction::HandBack => false,
        },
{
    if line@.len() > 0 && requested(line@) is None {
        crate::protocol::malformed_is_refused(line@);
    }
    let w = words(line@);
    if w.len() >= 3 {
        if let Some(n) = read_unsigned(w[2], u16::MAX as nat) {
            assert(n <= u16::MAX);
        }
    }
}

/// Reading a request gives its second word and the number in its third.
pub proof fn request_is_read_by_its_words(line: &str, res: Option<(String, u16)>)
    requires
        call_ensures(parse_request, (line,), res),
    ensures
        match res {
            Some((host, port)) => {
                let w = words(line@);
                &&& w.len() >= 3
                &&& w[0] == "C"@
                &&& w[1] == host@
                &&& read_unsigned(w[2], u16::MAX as nat) == Some(port as nat)
            },
            None => {
                let w = words(line@);
                w.len() < 3 || w[0] != "C"@ || read_unsigned(w[2], u16::MAX as nat) is None
            },
        },
{
    let w = words(line@);
    if w.len() >= 3 {
        if let Some(n) = read_unsigned(w[2], u16::MAX as nat) {
            assert(n <= u16::MAX);
        }
    }
}

/// An error answer is an `E`, the message character by character with spaces for
/// line feeds, and a line feed.
pub proof fn error_answer_holds_the_message(msg: &str, reply: String)
    requires
        call_ensures(encode_error, (msg,), reply),
    ensures
        reply@.len() == msg@.len() + 2,
        reply@[0] == 'E',
        reply@.last() == '\n',
        forall|i: int|
            0 <= i < msg@.len() ==> #[trigger] msg@[i] == '\n' && reply@[i + 1] == ' ' || msg@[i]
                != '\n' && reply@[i + 1] == msg@[i],
{
    reveal_strlit("E");
    reveal_strlit("\n");
    assert forall|i: int| 0 <= i < msg@.len() implies #[trigger] msg@[i] == '\n' && reply@[i + 1]
        == ' ' || msg@[i] != '\n' && reply@[i + 1] == msg@[i] by {
        assert(reply@[i + 1] == replaced(msg@, '\n', ' ')[i]);
    }
}

/// After dialing, the helper hands the socket back exactly if there is one, else it
/// answers with the message.
pub proof fn helper_answers_after_dialing(failure: Option<String>, action: HelperAction, msg: &str, reply: String)
    requires
        call_ensures(handle_dialed, (failure,), action),
        failure matches Some(m) ==> m@ == msg@,
        call_ensures(encode_error, (msg,), reply),
    ensures
        failure is None <==> action is HandBack,
        failure is Some ==> (action matches HelperAction::Answer(r) && r@ == reply@),
{
}

/// What an answer means goes by its bytes: nothing is the end of the helper, `K` is a
/// socket if one came along, `E` is an error line, and any other byte is none.
pub proof fn status_byte_decides(received: usize, status: u8, has_socket: bool, reply: HelperReply)
    requires
        call_ensures(read_reply, (received, status, has_socket), reply),
    ensures
        reply == HelperReply::Closed <==> received == 0,
        reply == HelperReply::Connected <==> received > 0 && status == 'K' as u8 && has_socket,
        reply == HelperReply::NoSocket <==> received > 0 && status == 'K' as u8 && !has_socket,
        reply == HelperReply::ErrorFollows <==> received > 0 && status == 'E' as u8,
        reply matches HelperReply::Violation(b) ==> b == status,
{
}

/// What the agent reports of an answer tells the answers apart, and names a byte
/// that is none.
pub proof fn report_tells_the_answer(reply: &HelperReply, s: Option<String>)
    requires
        call_ensures(HelperReply::failure, (reply,), s),
    ensures
        match *reply {
            HelperReply::Connected => s is None,
            HelperReply::ErrorFollows => s is None,
            HelperReply::Closed => s matches Some(t) && starts_with(t@, "helper closed"@),
            HelperReply::NoSocket => s matches Some(t) && t@ == "helper said OK but sent no fd"@,
            HelperReply::Violation(byte) => s matches Some(t) && starts_with(
                t@,
                "helper protocol violation"@,
            ) && ends_with(t@, " "@ + crate::number::prefixed_hex(byte) + ")"@),
        },
{
    match *reply {
        HelperReply::Closed => {
            reveal_strlit("helper closed");
            reveal_strlit("helper closed (namespace process gone?)");
            let t = s->0@;
            assert(t.subrange(0, 13) =~= "helper closed"@);
        },
        HelperReply::Violation(byte) => {
            reveal_strlit("helper protocol violation (status byte ");
            reveal_strlit("helper protocol violation");
            reveal_strlit(" ");
            let t = s->0@;
            let lead = "helper protocol violation"@;
            let tail = " "@ + crate::number::prefixed_hex(byte) + ")"@;
            assert(t.subrange(0, lead.len() as int) =~= lead);
            assert(t.subrange(t.len() - tail.len(), t.len() as int) =~= tail);
        },
        _ => {},
    }
}

/// The agent's report of an error line ends with the line, trimmed.
pub proof fn error_line_is_reported(line: &str, s: String)
    requires
        call_ensures(connect_error, (line,), s),
    ensures
        starts_with(s@, "in-namespace connect failed: "@),
        s@.skip("in-namespace connect failed: "@.len() as int) == trimmed(line@),
{
    let lead = "in-namespace connect failed: "@;
    assert(s@.subrange(0, lead.len() as int) =~= lead);
    assert(s@.skip(lead.len() as int) =~= trimmed(line@));
}

/// A request that could not be sent, or whose answer could not be read, costs the
/// helper; so does every answer but a socket and an error line.
pub proof fn silent_helper_is_lost(event: RequestEvent, kind: Option<HelperFailure>)
    requires
        call_ensures(request_failure, (event,), kind),
    ensures
        kind is None <==> event == RequestEvent::Reply(HelperReply::Connected),
        kind == Some(HelperFailure::Refused) <==> event == RequestEvent::Reply(
            HelperReply::ErrorFollows,
        ),
{
}

/// A failure touches no namespace but its own, evicts exactly a helper that was
/// lost, and is followed by another try exactly if that was the first.
pub proof fn failure_costs_its_own_helper_only<H>(
    pool: Map<Seq<char>, H>,
    key: Seq<char>,
    failure: HelperFailure,
    other: Seq<char>,
    attempt: nat,
)
    ensures
        ({
            let after = pool_after(pool, key, failure);
            &&& other != key ==> after.dom().contains(other) == pool.dom().contains(other)
            &&& other != key && pool.dom().contains(other) ==> after[other] == pool[other]
            &&& after.dom().contains(key) <==> pool.dom().contains(key) && failure
                == HelperFailure::Refused
            &&& after.dom().contains(key) ==> after[key] == pool[key]
        }),
        tried_again(attempt, failure) <==> attempt == 0 && failure == HelperFailure::Lost,
{
}

} // verus!
