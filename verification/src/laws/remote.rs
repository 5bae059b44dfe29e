//! Bringing an agent up on a remote.

use vstd::prelude::*;

use crate::bootstrap::{
    boot_run, check_remote, hostname_in, read_hostname, target_triple, BootError, BootEvent,
    BootEventView, BootNext, BootNextView, BootRequest, BootStage, BootStageView, BootView, Bootstrap,
    TargetError,
};
use crate::command::{argv, Arg};
use crate::deploy::{
    agent_path, remote_path, remote_path_for, sha256, DeployError, DeployStage,
};
use crate::dial::host_port;
use crate::laws::numbers::{hex_digits_show_each_byte, shows_byte};
use crate::laws::targets::{names_target, target_names_host_and_port};
use crate::laws::{ends_with, is_exe, is_text, lemma_argv, starts_with};
use crate::number::hex_digits;
use crate::text::{debug_quoted, lines, trimmed, utf8_lossy, words, words_of_trimmed};

verus! {

/// The first word of a text, and the second; empty where there is none.
pub open spec fn first_word(s: Seq<char>) -> Seq<char> {
    if words(s).len() > 0 {
        words(s)[0]
    } else {
        Seq::empty()
    }
}

pub open spec fn second_word(s: Seq<char>) -> Seq<char> {
    if words(s).len() > 1 {
        words(s)[1]
    } else {
        Seq::empty()
    }
}

/// Whether the agent of this triple runs on machines of this name.
pub open spec fn runs_on(triple: Seq<char>, machine: Seq<char>) -> bool {
    ||| triple == "x86_64-unknown-linux-musl"@ && (machine == "x86_64"@ || machine == "amd64"@)
    ||| triple == "aarch64-unknown-linux-musl"@ && (machine == "aarch64"@ || machine == "arm64"@)
}

/// A remote gets the agent that runs on its machine, if it is a Linux of a machine
/// that there is an agent for; else the error names the word that is wrong.
pub proof fn remote_gets_an_agent_that_runs_there(uname: &str, res: Result<&'static str, TargetError>)
    requires
        call_ensures(target_triple, (uname,), res),
    ensures
        match res {
            Ok(triple) => first_word(uname@) == "Linux"@ && runs_on(triple@, second_word(uname@)),
            Err(TargetError::Os(os)) => os@ == first_word(uname@) && os@ != "Linux"@,
            Err(TargetError::Arch(arch)) => first_word(uname@) == "Linux"@ && arch@ == second_word(
                uname@,
            ) && forall|triple: Seq<char>| !#[trigger] runs_on(triple, arch@),
        },
{
}

/// Our own binary goes to a remote only if that is a Linux of our own machine, and
/// under the triple that runs there; else the error says what differs.
pub proof fn own_binary_runs_on_the_remote(
    uname: &str,
    local_arch: &str,
    res: Result<&'static str, BootError>,
)
    requires
        call_ensures(check_remote, (uname, local_arch), res),
    ensures
        match res {
            Ok(triple) => first_word(uname@) == "Linux"@ && second_word(uname@) == local_arch@
                && runs_on(triple@, local_arch@),
            Err(BootError::Target(TargetError::Os(os))) => os@ == first_word(uname@) && os@
                != "Linux"@,
            Err(BootError::Target(TargetError::Arch(arch))) => first_word(uname@) == "Linux"@
                && arch@ == second_word(uname@) && forall|triple: Seq<char>|
                !#[trigger] runs_on(triple, arch@),
            Err(BootError::ArchDiffers(remote, local)) => first_word(uname@) == "Linux"@ && remote@
                == second_word(uname@) && local@ == local_arch@ && remote@ != local@,
            Err(_) => false,
        },
{
    words_of_trimmed(uname@);
}

/// The host name behind an alias is what the first `hostname` line says, trimmed, or
/// the alias if there is no such line.
pub proof fn hostname_is_looked_up(output: &str, alias: &str, name: String, at: int)
    requires
        call_ensures(read_hostname, (output, alias), name),
        0 <= at <= lines(output@).len(),
        forall|i: int| 0 <= i < at ==> !starts_with(#[trigger] lines(output@)[i], "hostname "@),
        at < lines(output@).len() ==> starts_with(lines(output@)[at], "hostname "@),
    ensures
        at < lines(output@).len() ==> name@ == trimmed(lines(output@)[at].skip(9)),
        at == lines(output@).len() ==> name@ == alias@,
{
    reveal_strlit("hostname ");
    assert forall|i: int| 0 <= i < lines(output@).len() implies crate::text::occurs_at(
        #[trigger] lines(output@)[i],
        "hostname "@,
        0,
    ) == starts_with(lines(output@)[i], "hostname "@) by {}
    if at < lines(output@).len() {
        crate::bootstrap::first_hostname_line_counts(output@, alias@, at);
    } else {
        crate::bootstrap::alias_is_the_fallback(output@, alias@);
    }
}

/// The destination of an `ssh` or `scp` command line, as these programs read it: what
/// stands before the colon of the last word of `scp`; for `ssh`, the first word that
/// is no option, where `-o` takes a word and `-G` none.
pub open spec fn goes_to(list: Seq<Arg>, dest: Seq<char>) -> bool {
    ||| {
        &&& list.len() == 4
        &&& is_text(list[0], "scp"@)
        &&& is_text(list[1], "-q"@)
        &&& is_exe(list[2])
        &&& list[3] matches Arg::Text(to) && starts_with(to@, dest + ":"@)
    }
    ||| list.len() >= 3 && is_text(list[0], "ssh"@) && is_text(list[1], "-G"@) && is_text(
        list[2],
        dest,
    )
    ||| list.len() >= 5 && is_text(list[0], "ssh"@) && is_text(list[1], "-o"@) && is_text(
        list[3],
        dest,
    )
    ||| list.len() >= 3 && is_text(list[0], "ssh"@) && is_text(list[1], dest)
}

/// Every command of a bootstrap goes to the alias that it was started with, so that
/// the user's SSH configuration applies to all of them.
pub proof fn every_command_goes_to_the_alias(boot: Bootstrap, request: BootRequest)
    requires
        call_ensures(Bootstrap::request, (&boot,), request),
    ensures
        match request {
            BootRequest::Capture(list) => goes_to(list@, boot.host@),
            BootRequest::Run(list) => goes_to(list@, boot.host@),
            BootRequest::Launch(list) => goes_to(list@, boot.host@),
            BootRequest::ReadExe => true,
        },
{
    command_lines_of_a_bootstrap(boot, request);
    match request {
        BootRequest::Run(list) => {
            if let BootStage::Deploy(_, path, DeployStage::Copy) = boot.stage {
                let to = boot.host@ + ":"@ + path@ + ".tmp"@;
                let lead = boot.host@ + ":"@;
                assert(to.subrange(0, lead.len() as int) =~= lead);
            }
        },
        _ => {},
    }
}

/// What the commands of a bootstrap are, word by word: the alias is looked up, the
/// remote is asked for its system, the agent is looked for under its path, its
/// directory is made, our binary is copied beside the path, made executable and
/// moved there, and the agent is launched from the path with the address to listen
/// on.
pub proof fn command_lines_of_a_bootstrap(boot: Bootstrap, request: BootRequest)
    requires
        call_ensures(Bootstrap::request, (&boot,), request),
    ensures
        match (boot.stage, request) {
            (BootStage::Lookup, BootRequest::Capture(list)) => list@.len() == 3 && is_text(
                list@[0],
                "ssh"@,
            ) && is_text(list@[1], "-G"@) && is_text(list@[2], boot.host@),
            (BootStage::Detect(_), BootRequest::Capture(list)) => list@.len() == 6 && is_text(
                list@[0],
                "ssh"@,
            ) && is_text(list@[1], "-o"@) && is_text(list@[2], "BatchMode=no"@) && is_text(
                list@[3],
                boot.host@,
            ) && is_text(list@[4], "uname"@) && is_text(list@[5], "-sm"@),
            (BootStage::Locate(_, _), BootRequest::ReadExe) => true,
            (BootStage::Deploy(_, path, stage), BootRequest::Run(list)) => deploy_words(
                stage,
                boot.host@,
                path@,
                list@,
            ),
            (BootStage::Launch(_, path), BootRequest::Launch(list)) => list@.len() == 6 && is_text(
                list@[0],
                "ssh"@,
            ) && is_text(list@[1], boot.host@) && is_text(list@[2], path@) && is_text(
                list@[3],
                "agent"@,
            ) && is_text(list@[4], "--listen"@) && is_text(list@[5], boot.listen@),
            _ => false,
        },
{
    match request {
        BootRequest::Capture(list) => {
            lemma_words(list@);
        },
        BootRequest::Run(list) => {
            lemma_words(list@);
            if let BootStage::Deploy(_, path, stage) = boot.stage {
                lemma_deploy_words(stage, boot.host@, path@, list@);
            }
        },
        BootRequest::Launch(list) => {
            lemma_words(list@);
        },
        BootRequest::ReadExe => {},
    }
}

/// The words of a deployment's command.
pub open spec fn deploy_words(
    stage: DeployStage,
    host: Seq<char>,
    path: Seq<char>,
    list: Seq<Arg>,
) -> bool {
    match stage {
        DeployStage::Probe => list.len() == 3 && is_text(list[0], "ssh"@) && is_text(list[1], host)
            && is_text(list[2], "test -x "@ + path),
        DeployStage::MakeDir => list.len() == 3 && is_text(list[0], "ssh"@) && is_text(
            list[1],
            host,
        ) && is_text(list[2], "mkdir -p .cache/portmanager"@),
        DeployStage::Copy => list.len() == 4 && is_text(list[0], "scp"@) && is_text(list[1], "-q"@)
            && is_exe(list[2]) && is_text(list[3], host + ":"@ + path + ".tmp"@),
        DeployStage::Install => list.len() == 3 && is_text(list[0], "ssh"@) && is_text(
            list[1],
            host,
        ) && is_text(
            list[2],
            "chmod +x "@ + path + ".tmp"@ + " && mv "@ + path + ".tmp"@ + " "@ + path,
        ),
    }
}

proof fn lemma_words(list: Seq<Arg>)
    ensures
        argv(list).len() == list.len(),
        list.len() > 0 ==> argv(list)[0] == list[0]@,
        list.len() > 1 ==> argv(list)[1] == list[1]@,
        list.len() > 2 ==> argv(list)[2] == list[2]@,
        list.len() > 3 ==> argv(list)[3] == list[3]@,
        list.len() > 4 ==> argv(list)[4] == list[4]@,
        list.len() > 5 ==> argv(list)[5] == list[5]@,
{
    lemma_argv(list);
}

proof fn lemma_deploy_words(stage: DeployStage, host: Seq<char>, path: Seq<char>, list: Seq<Arg>)
    requires
        argv(list) == crate::deploy::deploy_argv(stage, host, path),
    ensures
        deploy_words(stage, host, path, list),
{
    lemma_words(list);
    match stage {
        DeployStage::Copy => {
            assert(argv(list).len() == 4);
            assert(host + ":"@ + (path + ".tmp"@) =~= host + ":"@ + path + ".tmp"@);
        },
        DeployStage::Install => {
            let tmp = path + ".tmp"@;
            assert("chmod +x "@ + tmp + " && mv "@ + tmp + " "@ + path =~= "chmod +x "@ + path
                + ".tmp"@ + " && mv "@ + path + ".tmp"@ + " "@ + path);
        },
        _ => {},
    }
}

/// The commands of a deployment are the same wherever they are asked for.
pub proof fn deployment_commands_fit_together(
    stage: DeployStage,
    host: &str,
    path: &str,
    list: Vec<Arg>,
)
    requires
        call_ensures(DeployStage::command, (stage, host, path), list),
    ensures
        deploy_words(stage, host@, path@, list@),
        goes_to(list@, host@),
{
    lemma_deploy_words(stage, host@, path@, list@);
    if stage == DeployStage::Copy {
        let to = host@ + ":"@ + path@ + ".tmp"@;
        let lead = host@ + ":"@;
        assert(to.subrange(0, lead.len() as int) =~= lead);
    }
}

/// What the lookup printed has no influence on the commands: two bootstraps that
/// differ in the host name only ask for the same.
pub proof fn lookup_does_not_redirect(
    a: Bootstrap,
    request_a: BootRequest,
    b: Bootstrap,
    request_b: BootRequest,
)
    requires
        call_ensures(Bootstrap::request, (&a,), request_a),
        call_ensures(Bootstrap::request, (&b,), request_b),
        a.host@ == b.host@,
        a.listen@ == b.listen@,
        match (a.stage, b.stage) {
            (BootStage::Detect(_), BootStage::Detect(_)) => true,
            (BootStage::Locate(_, _), BootStage::Locate(_, _)) => true,
            (BootStage::Deploy(_, p, s), BootStage::Deploy(_, q, t)) => p@ == q@ && s == t,
            (BootStage::Launch(_, p), BootStage::Launch(_, q)) => p@ == q@,
            _ => false,
        },
    ensures
        match (request_a, request_b) {
            (BootRequest::Capture(x), BootRequest::Capture(y)) => argv(x@) == argv(y@),
            (BootRequest::Run(x), BootRequest::Run(y)) => argv(x@) == argv(y@),
            (BootRequest::Launch(x), BootRequest::Launch(y)) => argv(x@) == argv(y@),
            (BootRequest::ReadExe, BootRequest::ReadExe) => true,
            _ => false,
        },
{
}

/// Whether `path` is the path of the binary with this digest for this target: in the
/// cache directory, with the target in its name, and at the end the first six bytes
/// of the digest, two digits each.
pub open spec fn is_path_of(path: Seq<char>, triple: Seq<char>, digest: Seq<u8>) -> bool {
    let lead = ".cache/portmanager/agent-"@ + triple + "-"@;
    &&& path.len() == lead.len() + 12
    &&& starts_with(path, ".cache/portmanager/"@)
    &&& starts_with(path, lead)
    &&& forall|i: int|
        0 <= i < 6 ==> shows_byte(
            #[trigger] digest[i],
            path[lead.len() + 2 * i],
            path[lead.len() + 2 * i + 1],
        )
}

/// The path of an agent shows its target and its digest.
pub proof fn agent_path_shows_the_binary(triple: Seq<char>, digest: Seq<u8>)
    requires
        digest.len() >= 6,
    ensures
        is_path_of(agent_path(triple, digest), triple, digest),
{
    reveal_strlit(".cache/portmanager/agent-");
    reveal_strlit(".cache/portmanager/");
    let path = agent_path(triple, digest);
    let lead = ".cache/portmanager/agent-"@ + triple + "-"@;
    let short = digest.take(6);
    assert(path =~= lead + hex_digits(short));
    assert(path.subrange(0, 19) =~= ".cache/portmanager/"@);
    assert(path.subrange(0, lead.len() as int) =~= lead);
    assert(hex_digits(short).len() == 12);
    assert forall|i: int| 0 <= i < 6 implies shows_byte(
        #[trigger] digest[i],
        path[lead.len() + 2 * i],
        path[lead.len() + 2 * i + 1],
    ) by {
        hex_digits_show_each_byte(short, i);
        assert(short[i] == digest[i]);
        assert(path[lead.len() + 2 * i] == hex_digits(short)[2 * i]);
        assert(path[lead.len() + 2 * i + 1] == hex_digits(short)[2 * i + 1]);
    }
}

/// The agent's path is that of the digest that was given.
pub proof fn path_is_of_the_digest(triple: &str, digest: &Vec<u8>, path: String)
    requires
        call_ensures(remote_path, (triple, digest), path),
        digest@.len() >= 6,
    ensures
        is_path_of(path@, triple@, digest@),
{
    agent_path_shows_the_binary(triple@, digest@);
}

/// The path of a binary is that of its own digest.
pub proof fn path_is_of_the_binary(triple: &str, exe: &Vec<u8>, path: String)
    requires
        call_ensures(remote_path_for, (triple, exe), path),
    ensures
        is_path_of(path@, triple@, sha256(exe@)),
{
    agent_path_shows_the_binary(triple@, sha256(exe@));
}

/// What a step makes of what a request came to, with everything that was known
/// before kept: the host, the address to listen on and the local machine always, the
/// host name once it is looked up, the path once it is known.
pub proof fn steps_of_a_bootstrap(boot: Bootstrap, event: BootEvent, next: BootNext)
    requires
        call_ensures(Bootstrap::step, (boot, event), next),
        boot@.expects(event@),
    ensures
        next matches BootNext::Go(later) ==> later.host@ == boot.host@ && later.listen@
            == boot.listen@ && later.local_arch@ == boot.local_arch@,
        match (boot.stage, event, next) {
            (BootStage::Lookup, BootEvent::Captured(true, out, _), BootNext::Go(later)) =>
                later.stage matches BootStage::Detect(name) && name@ == hostname_in(
                utf8_lossy(out@),
                boot.host@,
            ),
            (
                BootStage::Lookup,
                BootEvent::Captured(false, _, _),
                BootNext::Failed(BootError::Lookup(host)),
            ) => host@ == boot.host@,
            (BootStage::Detect(name), BootEvent::Captured(true, out, _), BootNext::Go(later)) => {
                let uname = utf8_lossy(out@);
                &&& first_word(uname) == "Linux"@
                &&& second_word(uname) == boot.local_arch@
                &&& later.stage matches BootStage::Locate(n, triple) && n@ == name@ && runs_on(
                    triple@,
                    boot.local_arch@,
                )
            },
            (BootStage::Detect(_), BootEvent::Captured(true, out, _), BootNext::Failed(why)) => {
                let uname = utf8_lossy(out@);
                match why {
                    BootError::Target(TargetError::Os(os)) => os@ == first_word(uname) && os@
                        != "Linux"@,
                    BootError::Target(TargetError::Arch(arch)) => arch@ == second_word(uname)
                        && forall|triple: Seq<char>| !#[trigger] runs_on(triple, arch@),
                    BootError::ArchDiffers(remote, local) => remote@ == second_word(uname) && local@
                        == boot.local_arch@ && remote@ != local@,
                    _ => false,
                }
            },
            (
                BootStage::Detect(_),
                BootEvent::Captured(false, _, err),
                BootNext::Failed(BootError::Detect(why)),
            ) => why@ == trimmed(utf8_lossy(err@)),
            (BootStage::Locate(name, triple), BootEvent::ExeRead(bytes), BootNext::Go(later)) =>
                later.stage matches BootStage::Deploy(n, path, stage) && n@ == name@ && stage
                == DeployStage::Probe && (sha256(bytes@).len() >= 6 ==> is_path_of(
                path@,
                triple@,
                sha256(bytes@),
            )),
            (
                BootStage::Deploy(name, path, stage),
                BootEvent::Exited(success),
                BootNext::Go(later),
            ) => match later.stage {
                BootStage::Deploy(n, p, s) => n@ == name@ && p@ == path@ && match stage {
                    DeployStage::Probe => !success && s == DeployStage::MakeDir,
                    DeployStage::MakeDir => success && s == DeployStage::Copy,
                    DeployStage::Copy => success && s == DeployStage::Install,
                    DeployStage::Install => false,
                },
                BootStage::Launch(n, p) => n@ == name@ && p@ == path@ && success && (stage
                    == DeployStage::Probe || stage == DeployStage::Install),
                _ => false,
            },
            (
                BootStage::Deploy(_, _, stage),
                BootEvent::Exited(success),
                BootNext::Failed(BootError::Deploy(why)),
            ) => !success && match stage {
                DeployStage::Probe => false,
                DeployStage::MakeDir => why == DeployError::MakeDir,
                DeployStage::Copy => why == DeployError::Copy,
                DeployStage::Install => why == DeployError::Install,
            },
            (BootStage::Launch(name, _), BootEvent::Ready(port), BootNext::Done(target)) =>
                names_target(target@, name@, port),
            _ => false,
        },
{
    match (boot.stage, event) {
        (BootStage::Detect(_), BootEvent::Captured(_, out, _)) => {
            words_of_trimmed(utf8_lossy(out@));
        },
        (BootStage::Locate(_, triple), BootEvent::ExeRead(bytes)) => {
            if sha256(bytes@).len() >= 6 {
                agent_path_shows_the_binary(triple@, sha256(bytes@));
            }
        },
        (BootStage::Launch(name, _), BootEvent::Ready(port)) => {
            target_names_host_and_port(name@, port);
        },
        _ => {},
    }
}

/// A bootstrap starts with the lookup of the alias that it is given.
pub proof fn bootstrap_starts_with_the_alias(
    host: String,
    listen: String,
    local_arch: String,
    boot: Bootstrap,
)
    requires
        call_ensures(Bootstrap::new, (host, listen, local_arch), boot),
    ensures
        boot.host@ == host@,
        boot.listen@ == listen@,
        boot.local_arch@ == local_arch@,
        boot.stage is Lookup,
{
}

/// Each request is met by what it asked for: output, the binary, an exit, or any port;
/// a binary only has to be one that SHA-256 can count the bits of.
pub proof fn request_is_met_by_what_it_asked(boot: Bootstrap, event: BootEvent, b: bool)
    requires
        call_ensures(Bootstrap::expects, (&boot, &event), b),
    ensures
        b == boot@.expects(event@),
        b <==> match (boot.stage, event) {
            (BootStage::Lookup, BootEvent::Captured(_, _, _)) => true,
            (BootStage::Detect(_), BootEvent::Captured(_, _, _)) => true,
            (BootStage::Locate(_, _), BootEvent::ExeRead(bytes)) => 8 * bytes@.len()
                < 0x1_0000_0000_0000_0000,
            (BootStage::Deploy(_, _, _), BootEvent::Exited(_)) => true,
            (BootStage::Launch(_, _), BootEvent::Ready(_)) => true,
            _ => false,
        },
{
}

/// The host name that a stage carries.
pub open spec fn carried_hostname(stage: BootStageView) -> Option<Seq<char>> {
    match stage {
        BootStageView::Lookup => None,
        BootStageView::Detect(name) => Some(name),
        BootStageView::Locate(name, _) => Some(name),
        BootStageView::Deploy(name, _, _) => Some(name),
        BootStageView::Launch(name, _) => Some(name),
    }
}

/// Whether some lookup among the events gave this host name for the alias.
pub open spec fn looked_up(events: Seq<BootEventView>, alias: Seq<char>, name: Seq<char>) -> bool {
    exists|i: int|
        0 <= i < events.len() && (#[trigger] events[i] matches BootEventView::Captured(true, out, _)
            && name == hostname_in(utf8_lossy(out), alias))
}

/// In every run, the host name comes from the lookup, and the address that a
/// bootstrap ends with is that host name with the port that the agent reported.
pub proof fn bootstrap_ends_at_the_looked_up_host(start: BootView, events: Seq<BootEventView>)
    requires
        start.stage is Lookup,
    ensures
        match boot_run(start, events) {
            BootNextView::Go(boot) => boot.host == start.host && (carried_hostname(
                boot.stage,
            ) matches Some(name) ==> looked_up(events, start.host, name)),
            BootNextView::Done(target) => exists|name: Seq<char>, port: u16|
                #![trigger names_target(target, name, port)]
                names_target(target, name, port) && looked_up(events, start.host, name)
                    && events.contains(BootEventView::Ready(port)),
            BootNextView::Failed(_) => true,
        },
    decreases events.len(),
{
    if events.len() > 0 {
        let front = events.drop_last();
        let last = events.last();
        let n = events.len() - 1;
        bootstrap_ends_at_the_looked_up_host(start, front);
        assert(events[n] == last);
        assert forall|name: Seq<char>| looked_up(front, start.host, name) implies looked_up(
            events,
            start.host,
            name,
        ) by {
            let i = choose|i: int|
                0 <= i < front.len() && (#[trigger] front[i] matches BootEventView::Captured(
                    true,
                    out,
                    _,
                ) && name == hostname_in(utf8_lossy(out), start.host));
            assert(events[i] == front[i]);
        }
        match boot_run(start, front) {
            BootNextView::Go(boot) => {
                if let BootNextView::Done(target) = boot_run(start, events) {
                    if let (BootStageView::Launch(name, _), BootEventView::Ready(port)) = (
                        boot.stage,
                        last,
                    ) {
                        target_names_host_and_port(name, port);
                        assert(target == host_port(name, port));
                        assert(events.contains(BootEventView::Ready(port)));
                        assert(names_target(target, name, port));
                    }
                }
                if let (BootStageView::Lookup, BootEventView::Captured(true, out, _)) = (
                    boot.stage,
                    last,
                ) {
                    assert(looked_up(events, start.host, hostname_in(utf8_lossy(out), start.host)));
                }
            },
            BootNextView::Done(target) => {
                let (name, port) = choose|name: Seq<char>, port: u16|
                    #![trigger names_target(target, name, port)]
                    names_target(target, name, port) && looked_up(front, start.host, name)
                        && front.contains(BootEventView::Ready(port));
                let i = choose|i: int| 0 <= i < front.len() && front[i] == BootEventView::Ready(port);
                assert(events[i] == front[i]);
                assert(names_target(target, name, port));
            },
            BootNextView::Failed(_) => {},
        }
    }
}

/// A failed bootstrap says what it failed at.
pub proof fn failed_bootstrap_names_its_subject(e: &BootError, s: String)
    requires
        call_ensures(BootError::message, (e,), s),
    ensures
        match *e {
            BootError::Lookup(host) => s@ == "ssh -G "@ + host@ + " failed"@,
            BootError::Detect(why) => starts_with(s@, "remote command "@) && ends_with(
                s@,
                " failed: "@ + why@,
            ),
            BootError::Target(TargetError::Os(os)) => starts_with(
                s@,
                "unsupported remote OS "@ + debug_quoted(os@),
            ) && ends_with(s@, "; v1 agents are Linux-only"@),
            BootError::Target(TargetError::Arch(arch)) => starts_with(
                s@,
                "unsupported remote arch "@ + debug_quoted(arch@),
            ) && ends_with(s@, "; v1 supports x86_64 and aarch64"@),
            BootError::ArchDiffers(remote, local) => starts_with(
                s@,
                "remote arch "@ + debug_quoted(remote@) + " differs from local "@ + debug_quoted(
                    local@,
                ),
            ),
            BootError::Deploy(why) => s@ == why.text(),
        },
{
    match *e {
        BootError::Detect(why) => {
            let lead = "remote command "@;
            let tail = " failed: "@ + why@;
            assert(s@.subrange(0, lead.len() as int) =~= lead);
            assert(s@.subrange(s@.len() - tail.len(), s@.len() as int) =~= tail);
        },
        BootError::Target(TargetError::Os(os)) => {
            let lead = "unsupported remote OS "@ + debug_quoted(os@);
            let tail = "; v1 agents are Linux-only"@;
            assert(s@.subrange(0, lead.len() as int) =~= lead);
            assert(s@.subrange(s@.len() - tail.len(), s@.len() as int) =~= tail);
        },
        BootError::Target(TargetError::Arch(arch)) => {
            let lead = "unsupported remote arch "@ + debug_quoted(arch@);
            let tail = "; v1 supports x86_64 and aarch64"@;
            assert(s@.subrange(0, lead.len() as int) =~= lead);
            assert(s@.subrange(s@.len() - tail.len(), s@.len() as int) =~= tail);
        },
        BootError::ArchDiffers(remote, local) => {
            let lead = "remote arch "@ + debug_quoted(remote@) + " differs from local "@
                + debug_quoted(local@);
            assert(s@.subrange(0, lead.len() as int) =~= lead);
        },
        _ => {},
    }
}

} // verus!
