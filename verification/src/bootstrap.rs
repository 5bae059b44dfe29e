//! Bootstrapping an agent over SSH: find out what the remote is, put the agent
//! binary there, launch it, and learn where it listens.

use vstd::prelude::*;

use crate::command::{argv, push_text, text_args, Arg, ArgView};
use crate::deploy::{
    agent_path, deploy_argv, deploy_next, remote_path_for, sha256, DeployError,
    DeployNext, DeployStage,
};
use crate::dial::{format_host_port, host_port};
use crate::text::{
    after_prefix, debug_quoted, decode_lossy, joined, lines, occurs_at, quote, same_text, split_lines,
    split_words, texts, trim, trimmed, utf8_lossy, words, words_of_trimmed,
};

verus! {

/// The default timing for bootstrapped sessions: the default value of the timing
/// type.
pub fn default_timing<T: Default>() -> (timing: T)
    ensures
        call_ensures(T::default, (), timing),
{
    T::default()
}

/// The `i`th word of `s`, or nothing if there are fewer words.
pub open spec fn word_at(s: Seq<char>, i: int) -> Seq<char> {
    if 0 <= i < words(s).len() {
        words(s)[i]
    } else {
        Seq::empty()
    }
}

/// The target triple of the agent for a machine name as `uname -m` prints it.
pub open spec fn triple_of(arch: Seq<char>) -> Option<Seq<char>> {
    if arch == "x86_64"@ || arch == "amd64"@ {
        Some("x86_64-unknown-linux-musl"@)
    } else if arch == "aarch64"@ || arch == "arm64"@ {
        Some("aarch64-unknown-linux-musl"@)
    } else {
        None
    }
}

/// Why there is no agent for a remote.
#[derive(Debug, PartialEq, Eq)]
pub enum TargetError {
    /// Its operating system is not Linux.
    Os(String),
    /// Its machine is not supported.
    Arch(String),
}

/// A [`TargetError`] with its string as a character sequence.
pub enum TargetErrorView {
    Os(Seq<char>),
    Arch(Seq<char>),
}

impl View for TargetError {
    type V = TargetErrorView;

    open spec fn view(&self) -> TargetErrorView {
        match *self {
            TargetError::Os(os) => TargetErrorView::Os(os@),
            TargetError::Arch(arch) => TargetErrorView::Arch(arch@),
        }
    }
}

impl TargetErrorView {
    /// The message that says why.
    pub open spec fn text(self) -> Seq<char> {
        match self {
            TargetErrorView::Os(os) => "unsupported remote OS "@ + debug_quoted(os)
                + "; v1 agents are Linux-only"@,
            TargetErrorView::Arch(arch) => "unsupported remote arch "@ + debug_quoted(arch)
                + "; v1 supports x86_64 and aarch64"@,
        }
    }
}

impl TargetError {
    /// The message that says why.
    pub fn message(&self) -> (s: String)
        ensures
            s@ == self@.text(),
    {
        match self {
            TargetError::Os(os) => {
                let mut s: String = "unsupported remote OS ".to_string();
                s.append(quote(os.as_str()).as_str());
                s.append("; v1 agents are Linux-only");
                s
            },
            TargetError::Arch(arch) => {
                let mut s: String = "unsupported remote arch ".to_string();
                s.append(quote(arch.as_str()).as_str());
                s.append("; v1 supports x86_64 and aarch64");
                s
            },
        }
    }
}

/// What `uname -s -m` output says about the agent to use: the first word has to
/// be `Linux`, the second a supported machine.
pub open spec fn target_of(uname: Seq<char>) -> Result<Seq<char>, TargetErrorView> {
    if word_at(uname, 0) != "Linux"@ {
        Err(TargetErrorView::Os(word_at(uname, 0)))
    } else {
        match triple_of(word_at(uname, 1)) {
            Some(triple) => Ok(triple),
            None => Err(TargetErrorView::Arch(word_at(uname, 1))),
        }
    }
}

/// The `i`th word of the list, or nothing if there are fewer.
fn nth_or_empty(list: &Vec<String>, i: usize) -> (s: String)
    ensures
        s@ == if i < list@.len() {
            list@[i as int]@
        } else {
            Seq::empty()
        },
{
    if i < list.len() {
        list[i].clone()
    } else {
        String::new()
    }
}

/// Maps `uname -s -m` output to the agent's target triple.
pub fn target_triple(uname_sm: &str) -> (res: Result<&'static str, TargetError>)
    ensures
        match (target_of(uname_sm@), res) {
            (Ok(triple), Ok(t)) => t@ == triple,
            (Err(why), Err(e)) => e@ == why,
            _ => false,
        },
{
    let parts: Vec<String> = split_words(uname_sm);
    proof {
        assert(texts(parts@).len() == parts@.len());
    }
    let os: String = nth_or_empty(&parts, 0);
    let arch: String = nth_or_empty(&parts, 1);
    proof {
        assert(os@ == word_at(uname_sm@, 0));
        assert(arch@ == word_at(uname_sm@, 1));
    }
    if !same_text(os.as_str(), "Linux") {
        return Err(TargetError::Os(os));
    }
    if same_text(arch.as_str(), "x86_64") || same_text(arch.as_str(), "amd64") {
        Ok("x86_64-unknown-linux-musl")
    } else if same_text(arch.as_str(), "aarch64") || same_text(arch.as_str(), "arm64") {
        Ok("aarch64-unknown-linux-musl")
    } else {
        Err(TargetError::Arch(arch))
    }
}

/// The value of the first `hostname` line among `list`.
pub open spec fn first_hostname(list: Seq<Seq<char>>) -> Option<Seq<char>>
    decreases list.len(),
{
    if list.len() == 0 {
        None
    } else if occurs_at(list[0], "hostname "@, 0) {
        Some(trimmed(list[0].skip("hostname "@.len() as int)))
    } else {
        first_hostname(list.skip(1))
    }
}

/// The real host name behind an SSH alias, by the output of `ssh -G`; the alias
/// itself if the output names none.
pub open spec fn hostname_in(output: Seq<char>, alias: Seq<char>) -> Seq<char> {
    match first_hostname(lines(output)) {
        Some(name) => name,
        None => alias,
    }
}

/// The real host name behind an SSH alias, by the output of `ssh -G`.
pub fn read_hostname(output: &str, alias: &str) -> (name: String)
    ensures
        name@ == hostname_in(output@, alias@),
{
    let list: Vec<String> = split_lines(output);
    let ghost all = texts(list@);
    let mut i: usize = 0;
    proof {
        assert(all.skip(0) =~= all);
    }
    while i < list.len()
        invariant
            i <= list@.len(),
            all == texts(list@),
            first_hostname(all) == first_hostname(all.skip(i as int)),
            all == lines(output@),
        decreases list@.len() - i,
    {
        proof {
            assert(all.skip(i as int)[0] == list@[i as int]@);
            assert(all.skip(i as int).skip(1) =~= all.skip(i + 1));
        }
        match after_prefix(list[i].as_str(), "hostname ") {
            Some(rest) => {
                return trim(rest.as_str());
            },
            None => {},
        }
        i = i + 1;
    }
    alias.to_string()
}

/// A list of texts as its `Debug` form writes it.
pub open spec fn debug_list(list: Seq<Seq<char>>) -> Seq<char> {
    "["@ + joined(list.map_values(|s: Seq<char>| debug_quoted(s)), ", "@) + "]"@
}

/// What ended a bootstrap.
#[derive(Debug, PartialEq, Eq)]
pub enum BootError {
    /// `ssh -G` failed for this host.
    Lookup(String),
    /// The command that detects the remote failed, with this error output.
    Detect(String),
    /// There is no agent for the remote.
    Target(TargetError),
    /// The remote's machine is not the local one: remote, local.
    ArchDiffers(String, String),
    /// The agent could not be deployed.
    Deploy(DeployError),
}

/// A [`BootError`] with its strings as character sequences.
pub enum BootErrorView {
    Lookup(Seq<char>),
    Detect(Seq<char>),
    Target(TargetErrorView),
    ArchDiffers(Seq<char>, Seq<char>),
    Deploy(DeployError),
}

impl View for BootError {
    type V = BootErrorView;

    open spec fn view(&self) -> BootErrorView {
        match *self {
            BootError::Lookup(host) => BootErrorView::Lookup(host@),
            BootError::Detect(why) => BootErrorView::Detect(why@),
            BootError::Target(why) => BootErrorView::Target(why@),
            BootError::ArchDiffers(remote, local) => BootErrorView::ArchDiffers(remote@, local@),
            BootError::Deploy(why) => BootErrorView::Deploy(why),
        }
    }
}

impl BootErrorView {
    /// The message that says what went wrong.
    pub open spec fn text(self) -> Seq<char> {
        match self {
            BootErrorView::Lookup(host) => "ssh -G "@ + host + " failed"@,
            BootErrorView::Detect(why) => "remote command "@ + debug_list(seq!["uname"@, "-sm"@])
                + " failed: "@ + why,
            BootErrorView::Target(why) => why.text(),
            BootErrorView::ArchDiffers(remote, local) => "remote arch "@ + debug_quoted(remote)
                + " differs from local "@ + debug_quoted(local)
                + "; cross-arch agent deploy lands with the musl build pipeline (build step 8)"@,
            BootErrorView::Deploy(why) => why.text(),
        }
    }
}

impl BootError {
    /// The message that says what went wrong.
    pub fn message(&self) -> (s: String)
        ensures
            s@ == self@.text(),
    {
        match self {
            BootError::Lookup(host) => {
                let mut s: String = "ssh -G ".to_string();
                s.append(host.as_str());
                s.append(" failed");
                s
            },
            BootError::Detect(why) => {
                let mut s: String = "remote command ".to_string();
                s.append("[");
                s.append(quote("uname").as_str());
                s.append(", ");
                s.append(quote("-sm").as_str());
                s.append("]");
                s.append(" failed: ");
                s.append(why.as_str());
                proof {
                    let list = seq!["uname"@, "-sm"@];
                    let quoted = list.map_values(|t: Seq<char>| debug_quoted(t));
                    assert(quoted.drop_last() =~= seq![debug_quoted("uname"@)]);
                    assert(quoted.last() == debug_quoted("-sm"@));
                    assert(joined(quoted.drop_last(), ", "@) == debug_quoted("uname"@));
                    assert(joined(quoted, ", "@) =~= debug_quoted("uname"@) + ", "@ + debug_quoted(
                        "-sm"@,
                    ));
                    assert(s@ =~= self@.text());
                }
                s
            },
            BootError::Target(why) => why.message(),
            BootError::ArchDiffers(remote, local) => {
                let mut s: String = "remote arch ".to_string();
                s.append(quote(remote.as_str()).as_str());
                s.append(" differs from local ");
                s.append(quote(local.as_str()).as_str());
                s.append(
                    "; cross-arch agent deploy lands with the musl build pipeline (build step 8)",
                );
                s
            },
            BootError::Deploy(why) => why.message().to_string(),
        }
    }
}

/// What the output of `uname -sm` says about deploying the local binary: the
/// remote has to be one that there are agents for, and its machine the local
/// one, by name.
pub open spec fn remote_target(uname: Seq<char>, local_arch: Seq<char>) -> Result<
    Seq<char>,
    BootErrorView,
> {
    match target_of(trimmed(uname)) {
        Err(why) => Err(BootErrorView::Target(why)),
        Ok(triple) => if word_at(uname, 1) != local_arch {
            Err(BootErrorView::ArchDiffers(word_at(uname, 1), local_arch))
        } else {
            Ok(triple)
        },
    }
}

/// Decides whether the local binary can be deployed to the remote that printed
/// `uname`, and for which target.
pub fn check_remote(uname: &str, local_arch: &str) -> (res: Result<&'static str, BootError>)
    ensures
        match (remote_target(uname@, local_arch@), res) {
            (Ok(triple), Ok(t)) => t@ == triple,
            (Err(why), Err(e)) => e@ == why,
            _ => false,
        },
{
    match target_triple(trim(uname).as_str()) {
        Err(why) => Err(BootError::Target(why)),
        Ok(triple) => {
            let parts: Vec<String> = split_words(uname);
            proof {
                assert(texts(parts@).len() == parts@.len());
            }
            let remote_arch: String = nth_or_empty(&parts, 1);
            proof {
                assert(remote_arch@ == word_at(uname@, 1));
            }
            if same_text(remote_arch.as_str(), local_arch) {
                Ok(triple)
            } else {
                Err(BootError::ArchDiffers(remote_arch, local_arch.to_string()))
            }
        },
    }
}

/// The local binary is deployed only to a Linux remote of the local machine
/// name, and with the triple that belongs to it.
pub proof fn deploys_to_own_kind_only(uname: Seq<char>, local_arch: Seq<char>)
    ensures
        remote_target(uname, local_arch) is Ok <==> word_at(uname, 0) == "Linux"@ && word_at(
            uname,
            1,
        ) == local_arch && triple_of(local_arch) is Some,
        remote_target(uname, local_arch) matches Ok(triple) ==> triple_of(local_arch) == Some(
            triple,
        ),
{
    words_of_trimmed(uname);
}

/// How far a bootstrap has come.
pub enum BootStage {
    /// Look up the host name behind the alias.
    Lookup,
    /// Detect the remote's system: its host name.
    Detect(String),
    /// Read the local binary: the host name and the agent's target.
    Locate(String, &'static str),
    /// Deploy the agent: the host name, the agent's path, and how far it is.
    Deploy(String, String, DeployStage),
    /// Launch the agent and shake hands: the host name and the agent's path.
    Launch(String, String),
}

/// A [`BootStage`] with its strings as character sequences.
pub enum BootStageView {
    Lookup,
    Detect(Seq<char>),
    Locate(Seq<char>, Seq<char>),
    Deploy(Seq<char>, Seq<char>, DeployStage),
    Launch(Seq<char>, Seq<char>),
}

impl View for BootStage {
    type V = BootStageView;

    open spec fn view(&self) -> BootStageView {
        match *self {
            BootStage::Lookup => BootStageView::Lookup,
            BootStage::Detect(hostname) => BootStageView::Detect(hostname@),
            BootStage::Locate(hostname, triple) => BootStageView::Locate(hostname@, triple@),
            BootStage::Deploy(hostname, path, stage) => BootStageView::Deploy(
                hostname@,
                path@,
                stage,
            ),
            BootStage::Launch(hostname, path) => BootStageView::Launch(hostname@, path@),
        }
    }
}

/// One bootstrap of an agent.
pub struct Bootstrap {
    /// The SSH alias of the remote.
    pub host: String,
    /// The address that the agent is to listen on.
    pub listen: String,
    /// The local machine name, as `uname -m` prints it.
    pub local_arch: String,
    /// How far it has come.
    pub stage: BootStage,
}

/// A [`Bootstrap`] with its strings as character sequences.
pub struct BootView {
    pub host: Seq<char>,
    pub listen: Seq<char>,
    pub local_arch: Seq<char>,
    pub stage: BootStageView,
}

impl View for Bootstrap {
    type V = BootView;

    open spec fn view(&self) -> BootView {
        BootView {
            host: self.host@,
            listen: self.listen@,
            local_arch: self.local_arch@,
            stage: self.stage@,
        }
    }
}

/// What a bootstrap asks for.
#[derive(Debug, PartialEq, Eq)]
pub enum BootRequest {
    /// Run the command and report its exit and its output.
    Capture(Vec<Arg>),
    /// Read the local binary.
    ReadExe,
    /// Run the command and report its exit.
    Run(Vec<Arg>),
    /// Start the command, shake hands with the agent over its pipes, and report
    /// the port that the agent listens on.
    Launch(Vec<Arg>),
}

/// A [`BootRequest`] with its command line as views.
pub enum BootRequestView {
    Capture(Seq<ArgView>),
    ReadExe,
    Run(Seq<ArgView>),
    Launch(Seq<ArgView>),
}

impl View for BootRequest {
    type V = BootRequestView;

    open spec fn view(&self) -> BootRequestView {
        match *self {
            BootRequest::Capture(list) => BootRequestView::Capture(argv(list@)),
            BootRequest::ReadExe => BootRequestView::ReadExe,
            BootRequest::Run(list) => BootRequestView::Run(argv(list@)),
            BootRequest::Launch(list) => BootRequestView::Launch(argv(list@)),
        }
    }
}

/// What came of a request.
pub enum BootEvent {
    /// A command ended, successfully or not, with this output and error output.
    Captured(bool, Vec<u8>, Vec<u8>),
    /// The local binary's contents.
    ExeRead(Vec<u8>),
    /// A command ended, successfully or not.
    Exited(bool),
    /// The agent is ready on this UDP port.
    Ready(u16),
}

/// A [`BootEvent`] with its bytes as sequences.
pub enum BootEventView {
    Captured(bool, Seq<u8>, Seq<u8>),
    ExeRead(Seq<u8>),
    Exited(bool),
    Ready(u16),
}

impl View for BootEvent {
    type V = BootEventView;

    open spec fn view(&self) -> BootEventView {
        match *self {
            BootEvent::Captured(success, out, err) => BootEventView::Captured(success, out@, err@),
            BootEvent::ExeRead(bytes) => BootEventView::ExeRead(bytes@),
            BootEvent::Exited(success) => BootEventView::Exited(success),
            BootEvent::Ready(port) => BootEventView::Ready(port),
        }
    }
}

/// What follows an event.
pub enum BootNext {
    /// The bootstrap goes on.
    Go(Bootstrap),
    /// The agent is up: `hostname:port` of its listener.
    Done(String),
    /// The bootstrap ended.
    Failed(BootError),
}

/// A [`BootNext`] with its parts as views.
pub enum BootNextView {
    Go(BootView),
    Done(Seq<char>),
    Failed(BootErrorView),
}

impl View for BootNext {
    type V = BootNextView;

    open spec fn view(&self) -> BootNextView {
        match *self {
            BootNext::Go(boot) => BootNextView::Go(boot@),
            BootNext::Done(target) => BootNextView::Done(target@),
            BootNext::Failed(why) => BootNextView::Failed(why@),
        }
    }
}

impl BootView {
    /// What is asked for at this stage.
    pub open spec fn request(self) -> BootRequestView {
        match self.stage {
            BootStageView::Lookup => BootRequestView::Capture(
                text_args(seq!["ssh"@, "-G"@, self.host]),
            ),
            BootStageView::Detect(_) => BootRequestView::Capture(
                text_args(seq!["ssh"@, "-o"@, "BatchMode=no"@, self.host, "uname"@, "-sm"@]),
            ),
            BootStageView::Locate(_, _) => BootRequestView::ReadExe,
            BootStageView::Deploy(_, path, stage) => BootRequestView::Run(
                deploy_argv(stage, self.host, path),
            ),
            BootStageView::Launch(_, path) => BootRequestView::Launch(
                text_args(seq!["ssh"@, self.host, path, "agent"@, "--listen"@, self.listen]),
            ),
        }
    }

    /// Whether `event` is what this stage's request comes to. A binary counts
    /// only as far as SHA-256 can count its bits.
    pub open spec fn expects(self, event: BootEventView) -> bool {
        match (self.stage, event) {
            (BootStageView::Lookup, BootEventView::Captured(_, _, _)) => true,
            (BootStageView::Detect(_), BootEventView::Captured(_, _, _)) => true,
            (BootStageView::Locate(_, _), BootEventView::ExeRead(bytes)) => bytes.len()
                < 0x2000_0000_0000_0000,
            (BootStageView::Deploy(_, _, _), BootEventView::Exited(_)) => true,
            (BootStageView::Launch(_, _), BootEventView::Ready(_)) => true,
            _ => false,
        }
    }

    /// The same bootstrap at another stage.
    pub open spec fn at(self, stage: BootStageView) -> BootNextView {
        BootNextView::Go(BootView { stage, ..self })
    }

    /// What follows `event`.
    pub open spec fn next(self, event: BootEventView) -> BootNextView {
        match (self.stage, event) {
            (BootStageView::Lookup, BootEventView::Captured(success, out, _)) => if !success {
                BootNextView::Failed(BootErrorView::Lookup(self.host))
            } else {
                self.at(BootStageView::Detect(hostname_in(utf8_lossy(out), self.host)))
            },
            (BootStageView::Detect(hostname), BootEventView::Captured(success, out, err)) =>
                if !success {
                    BootNextView::Failed(BootErrorView::Detect(trimmed(utf8_lossy(err))))
                } else {
                    match remote_target(utf8_lossy(out), self.local_arch) {
                        Err(why) => BootNextView::Failed(why),
                        Ok(triple) => self.at(BootStageView::Locate(hostname, triple)),
                    }
                },
            (BootStageView::Locate(hostname, triple), BootEventView::ExeRead(bytes)) => self.at(
                BootStageView::Deploy(
                    hostname,
                    agent_path(triple, sha256(bytes)),
                    DeployStage::Probe,
                ),
            ),
            (BootStageView::Deploy(hostname, path, stage), BootEventView::Exited(success)) =>
                match deploy_next(stage, success) {
                    DeployNext::Go(later) => self.at(BootStageView::Deploy(hostname, path, later)),
                    DeployNext::Done => self.at(BootStageView::Launch(hostname, path)),
                    DeployNext::Failed(why) => BootNextView::Failed(BootErrorView::Deploy(why)),
                },
            (BootStageView::Launch(hostname, _), BootEventView::Ready(port)) => BootNextView::Done(
                host_port(hostname, port),
            ),
            _ => BootNextView::Go(self),
        }
    }
}

impl Bootstrap {
    /// Starts a bootstrap on `host`, an SSH alias, with the agent to listen on
    /// `listen`, from a machine of the given name.
    pub fn new(host: String, listen: String, local_arch: String) -> (boot: Bootstrap)
        ensures
            boot@ == (BootView {
                host: host@,
                listen: listen@,
                local_arch: local_arch@,
                stage: BootStageView::Lookup,
            }),
    {
        Bootstrap { host, listen, local_arch, stage: BootStage::Lookup }
    }

    /// What is asked for now.
    pub fn request(&self) -> (request: BootRequest)
        ensures
            request@ == self@.request(),
    {
        match &self.stage {
            BootStage::Lookup => {
                let mut list: Vec<Arg> = Vec::new();
                push_text(&mut list, "ssh");
                push_text(&mut list, "-G");
                push_text(&mut list, self.host.as_str());
                proof {
                    assert(argv(list@) =~= text_args(seq!["ssh"@, "-G"@, self.host@]));
                }
                BootRequest::Capture(list)
            },
            BootStage::Detect(_) => {
                let mut list: Vec<Arg> = Vec::new();
                push_text(&mut list, "ssh");
                push_text(&mut list, "-o");
                push_text(&mut list, "BatchMode=no");
                push_text(&mut list, self.host.as_str());
                push_text(&mut list, "uname");
                push_text(&mut list, "-sm");
                proof {
                    assert(argv(list@) =~= text_args(
                        seq!["ssh"@, "-o"@, "BatchMode=no"@, self.host@, "uname"@, "-sm"@],
                    ));
                }
                BootRequest::Capture(list)
            },
            BootStage::Locate(_, _) => BootRequest::ReadExe,
            BootStage::Deploy(_, path, stage) => BootRequest::Run(
                stage.command(self.host.as_str(), path.as_str()),
            ),
            BootStage::Launch(_, path) => {
                let mut list: Vec<Arg> = Vec::new();
                push_text(&mut list, "ssh");
                push_text(&mut list, self.host.as_str());
                push_text(&mut list, path.as_str());
                push_text(&mut list, "agent");
                push_text(&mut list, "--listen");
                push_text(&mut list, self.listen.as_str());
                proof {
                    assert(argv(list@) =~= text_args(
                        seq!["ssh"@, self.host@, path@, "agent"@, "--listen"@, self.listen@],
                    ));
                }
                BootRequest::Launch(list)
            },
        }
    }

    /// Whether `event` is what the request comes to.
    pub fn expects(&self, event: &BootEvent) -> (b: bool)
        ensures
            b == self@.expects(event@),
    {
        match (&self.stage, event) {
            (BootStage::Lookup, BootEvent::Captured(_, _, _)) => true,
            (BootStage::Detect(_), BootEvent::Captured(_, _, _)) => true,
            (BootStage::Locate(_, _), BootEvent::ExeRead(bytes)) => {
                let length: u64 = bytes.len() as u64;
                length < 0x2000_0000_0000_0000
            },
            (BootStage::Deploy(_, _, _), BootEvent::Exited(_)) => true,
            (BootStage::Launch(_, _), BootEvent::Ready(_)) => true,
            _ => false,
        }
    }

    /// Takes what came of the request, and goes on or ends.
    pub fn step(self, event: BootEvent) -> (next: BootNext)
        requires
            self@.expects(event@),
        ensures
            next@ == self@.next(event@),
    {
        let Bootstrap { host, listen, local_arch, stage } = self;
        match (stage, event) {
            (BootStage::Lookup, BootEvent::Captured(success, out, _)) => {
                if !success {
                    return BootNext::Failed(BootError::Lookup(host));
                }
                let hostname: String = read_hostname(decode_lossy(&out).as_str(), host.as_str());
                BootNext::Go(
                    Bootstrap { host, listen, local_arch, stage: BootStage::Detect(hostname) },
                )
            },
            (BootStage::Detect(hostname), BootEvent::Captured(success, out, err)) => {
                if !success {
                    return BootNext::Failed(BootError::Detect(trim(decode_lossy(&err).as_str())));
                }
                match check_remote(decode_lossy(&out).as_str(), local_arch.as_str()) {
                    Err(why) => BootNext::Failed(why),
                    Ok(triple) => BootNext::Go(
                        Bootstrap {
                            host,
                            listen,
                            local_arch,
                            stage: BootStage::Locate(hostname, triple),
                        },
                    ),
                }
            },
            (BootStage::Locate(hostname, triple), BootEvent::ExeRead(bytes)) => {
                let path: String = remote_path_for(triple, &bytes);
                BootNext::Go(
                    Bootstrap {
                        host,
                        listen,
                        local_arch,
                        stage: BootStage::Deploy(hostname, path, DeployStage::Probe),
                    },
                )
            },
            (BootStage::Deploy(hostname, path, stage), BootEvent::Exited(success)) => {
                match stage.next(success) {
                    DeployNext::Go(later) => BootNext::Go(
                        Bootstrap {
                            host,
                            listen,
                            local_arch,
                            stage: BootStage::Deploy(hostname, path, later),
                        },
                    ),
                    DeployNext::Done => BootNext::Go(
                        Bootstrap {
                            host,
                            listen,
                            local_arch,
                            stage: BootStage::Launch(hostname, path),
                        },
                    ),
                    DeployNext::Failed(why) => BootNext::Failed(BootError::Deploy(why)),
                }
            },
            (BootStage::Launch(hostname, _), BootEvent::Ready(port)) => BootNext::Done(
                format_host_port(hostname.as_str(), port),
            ),
            (stage, _) => BootNext::Go(Bootstrap { host, listen, local_arch, stage }),
        }
    }
}

/// Where a bootstrap stands after a run of events.
pub open spec fn boot_run(start: BootView, events: Seq<BootEventView>) -> BootNextView
    decreases events.len(),
{
    if events.len() == 0 {
        BootNextView::Go(start)
    } else {
        match boot_run(start, events.drop_last()) {
            BootNextView::Go(boot) => boot.next(events.last()),
            end => end,
        }
    }
}

/// Whether `path` is where some binary for the local machine is deployed to.
pub open spec fn is_own_agent(path: Seq<char>, local_arch: Seq<char>) -> bool {
    exists|triple: Seq<char>, exe: Seq<u8>|
        triple_of(local_arch) == Some(triple) && path == #[trigger] agent_path(triple, sha256(exe))
}

/// Whatever the remote answers, all that is ever looked for, copied to the remote
/// or launched there is the agent for the local machine, and the host, the
/// address to listen on and the local machine stay what they were.
pub proof fn only_own_agent_is_launched(
    host: Seq<char>,
    listen: Seq<char>,
    local_arch: Seq<char>,
    events: Seq<BootEventView>,
)
    ensures
        ({
            let start = BootView { host, listen, local_arch, stage: BootStageView::Lookup };
            boot_run(start, events) matches BootNextView::Go(boot) ==> {
                &&& boot.host == host
                &&& boot.listen == listen
                &&& boot.local_arch == local_arch
                &&& boot.stage matches BootStageView::Locate(_, triple) ==> triple_of(local_arch)
                    == Some(triple)
                &&& boot.stage matches BootStageView::Deploy(_, path, _) ==> is_own_agent(
                    path,
                    local_arch,
                )
                &&& boot.stage matches BootStageView::Launch(_, path) ==> is_own_agent(
                    path,
                    local_arch,
                )
            }
        }),
    decreases events.len(),
{
    if events.len() > 0 {
        only_own_agent_is_launched(host, listen, local_arch, events.drop_last());
        let start = BootView { host, listen, local_arch, stage: BootStageView::Lookup };
        if let BootNextView::Go(boot) = boot_run(start, events.drop_last()) {
            match (boot.stage, events.last()) {
                (BootStageView::Detect(_), BootEventView::Captured(_, out, _)) => {
                    deploys_to_own_kind_only(utf8_lossy(out), local_arch);
                },
                (BootStageView::Locate(_, triple), BootEventView::ExeRead(bytes)) => {
                    assert(is_own_agent(agent_path(triple, sha256(bytes)), local_arch));
                },
                _ => {},
            }
        }
    }
}

/// The agent is launched only once it is in place: a step that leads to the
/// launch was a deployment's command that ended well, with the path that was
/// deployed.
pub proof fn launch_follows_deployment(boot: BootView, event: BootEventView)
    requires
        !(boot.stage is Launch),
        boot.next(event) matches BootNextView::Go(next) && next.stage is Launch,
    ensures
        boot.stage matches BootStageView::Deploy(hostname, path, stage) && event
            matches BootEventView::Exited(success) && deploy_next(stage, success)
            == DeployNext::Done && boot.next(event) == boot.at(
            BootStageView::Launch(hostname, path),
        ),
{
}

/// The first `hostname` line of the output counts.
pub proof fn first_hostname_line_counts(output: Seq<char>, alias: Seq<char>, at: int)
    requires
        0 <= at < lines(output).len(),
        occurs_at(lines(output)[at], "hostname "@, 0),
        forall|i: int| 0 <= i < at ==> !occurs_at(#[trigger] lines(output)[i], "hostname "@, 0),
    ensures
        hostname_in(output, alias) == trimmed(
            lines(output)[at].skip("hostname "@.len() as int),
        ),
{
    lemma_first_hostname(lines(output), at);
}

/// Without a `hostname` line the alias stands for the host.
pub proof fn alias_is_the_fallback(output: Seq<char>, alias: Seq<char>)
    requires
        forall|i: int|
            0 <= i < lines(output).len() ==> !occurs_at(
                #[trigger] lines(output)[i],
                "hostname "@,
                0,
            ),
    ensures
        hostname_in(output, alias) == alias,
{
    lemma_first_hostname(lines(output), lines(output).len() as int);
}

/// The search for a `hostname` line stops at the first one.
proof fn lemma_first_hostname(list: Seq<Seq<char>>, at: int)
    requires
        0 <= at <= list.len(),
        at < list.len() ==> occurs_at(list[at], "hostname "@, 0),
        forall|i: int| 0 <= i < at ==> !occurs_at(#[trigger] list[i], "hostname "@, 0),
    ensures
        first_hostname(list) == if at < list.len() {
            Some(trimmed(list[at].skip("hostname "@.len() as int)))
        } else {
            None
        },
    decreases list.len(),
{
    if at > 0 {
        let rest = list.skip(1);
        assert forall|i: int| 0 <= i < at - 1 implies !occurs_at(
            #[trigger] rest[i],
            "hostname "@,
            0,
        ) by {
            assert(rest[i] == list[i + 1]);
        }
        assert(!occurs_at(list[0], "hostname "@, 0));
        lemma_first_hostname(rest, at - 1);
    }
}

} // verus!
