//! Putting the agent binary into the remote cache.
//!
//! The binary's hash is part of its name there, so a binary that exists under
//! its name is the right one. A missing binary is copied to a temporary name and
//! moved to its own name only when it is complete and executable.

use vstd::prelude::*;

use sha2::Digest;

use crate::command::{argv, push_exe, push_text, text_args, Arg, ArgView};
use crate::number::{digit_char, hex_digits};

verus! {

/// The SHA-256 digest of a message.
pub uninterp spec fn sha256(message: Seq<u8>) -> Seq<u8>;

/// `Sha256::digest` of the crate `sha2`. The contract names the digest, a function
/// of the message alone, and says that it has 32 bytes. SHA-256 counts the
/// message's bits in 64 bits, so longer messages are left out.
#[verifier::external_body]
fn sha256_digest(message: &Vec<u8>) -> (digest: Vec<u8>)
    requires
        message@.len() < 0x2000_0000_0000_0000,
    ensures
        digest@ == sha256(message@),
        digest@.len() == 32,
{
    sha2::Sha256::digest(message).to_vec()
}

/// `hex::encode`: two lower-case hexadecimal digits for each byte, the high half
/// first. Left out are inputs so long that their digits might not fit in memory.
#[verifier::external_body]
fn hex_encode(bytes: &Vec<u8>) -> (s: String)
    requires
        bytes@.len() < 0x3fff_ffff,
    ensures
        s@ == hex_digits(bytes@),
{
    hex::encode(bytes)
}

/// The agent's path in the remote cache, relative to the home directory: named
/// by its target and by the first six bytes of its digest.
pub open spec fn agent_path(triple: Seq<char>, digest: Seq<u8>) -> Seq<char> {
    ".cache/portmanager/agent-"@ + triple + "-"@ + hex_digits(digest.take(6))
}

/// The agent's path in the remote cache.
pub fn remote_path(triple: &str, digest: &Vec<u8>) -> (path: String)
    requires
        digest@.len() >= 6,
    ensures
        path@ == agent_path(triple@, digest@),
{
    let mut short: Vec<u8> = Vec::new();
    let mut i: usize = 0;
    while i < 6
        invariant
            i <= 6,
            digest@.len() >= 6,
            short@ == digest@.take(i as int),
        decreases 6 - i,
    {
        short.push(digest[i]);
        i = i + 1;
        proof {
            assert(short@ =~= digest@.take(i as int));
        }
    }
    let mut path: String = ".cache/portmanager/agent-".to_string();
    path.append(triple);
    path.append("-");
    path.append(hex_encode(&short).as_str());
    path
}

/// The path in the remote cache of the agent whose binary holds `exe`.
pub fn remote_path_for(triple: &str, exe: &Vec<u8>) -> (path: String)
    requires
        exe@.len() < 0x2000_0000_0000_0000,
    ensures
        path@ == agent_path(triple@, sha256(exe@)),
        sha256(exe@).len() == 32,
{
    remote_path(triple, &sha256_digest(exe))
}

/// How far a deployment has come.
#[derive(Debug, Clone, Copy, PartialEq, Eq, Structural)]
pub enum DeployStage {
    /// Look whether the binary is there.
    Probe,
    /// Create the cache directory.
    MakeDir,
    /// Copy the binary to its temporary name.
    Copy,
    /// Make it executable and give it its own name.
    Install,
}

/// What went wrong in a deployment.
#[derive(Debug, Clone, Copy, PartialEq, Eq, Structural)]
pub enum DeployError {
    MakeDir,
    Copy,
    Install,
}

impl DeployError {
    /// The message that says what went wrong.
    pub open spec fn text(self) -> Seq<char> {
        match self {
            DeployError::MakeDir => "failed to create remote cache directory"@,
            DeployError::Copy => "scp of agent binary failed"@,
            DeployError::Install => "failed to install agent binary on remote"@,
        }
    }

    /// The message that says what went wrong.
    pub fn message(self) -> (s: &'static str)
        ensures
            s@ == self.text(),
    {
        match self {
            DeployError::MakeDir => "failed to create remote cache directory",
            DeployError::Copy => "scp of agent binary failed",
            DeployError::Install => "failed to install agent binary on remote",
        }
    }
}

/// What follows a stage.
#[derive(Debug, Clone, Copy, PartialEq, Eq, Structural)]
pub enum DeployNext {
    /// The next stage.
    Go(DeployStage),
    /// The binary is in place.
    Done,
    /// The deployment failed.
    Failed(DeployError),
}

/// What follows when the command of `stage` ended, successfully or not.
pub open spec fn deploy_next(stage: DeployStage, success: bool) -> DeployNext {
    match (stage, success) {
        (DeployStage::Probe, true) => DeployNext::Done,
        (DeployStage::Probe, false) => DeployNext::Go(DeployStage::MakeDir),
        (DeployStage::MakeDir, true) => DeployNext::Go(DeployStage::Copy),
        (DeployStage::MakeDir, false) => DeployNext::Failed(DeployError::MakeDir),
        (DeployStage::Copy, true) => DeployNext::Go(DeployStage::Install),
        (DeployStage::Copy, false) => DeployNext::Failed(DeployError::Copy),
        (DeployStage::Install, true) => DeployNext::Done,
        (DeployStage::Install, false) => DeployNext::Failed(DeployError::Install),
    }
}

/// The command of a stage, on `host`, for the agent at `path`.
pub open spec fn deploy_argv(stage: DeployStage, host: Seq<char>, path: Seq<char>) -> Seq<ArgView> {
    let tmp = path + ".tmp"@;
    match stage {
        DeployStage::Probe => text_args(seq!["ssh"@, host, "test -x "@ + path]),
        DeployStage::MakeDir => text_args(seq!["ssh"@, host, "mkdir -p .cache/portmanager"@]),
        DeployStage::Copy => text_args(seq!["scp"@, "-q"@]) + seq![ArgView::Exe] + text_args(
            seq![host + ":"@ + tmp],
        ),
        DeployStage::Install => text_args(
            seq!["ssh"@, host, "chmod +x "@ + tmp + " && mv "@ + tmp + " "@ + path],
        ),
    }
}

/// What to say when the command of a stage could not be run.
pub open spec fn deploy_context(stage: DeployStage) -> Seq<char> {
    match stage {
        DeployStage::Probe => "checking remote agent cache"@,
        DeployStage::MakeDir => "creating remote cache dir"@,
        DeployStage::Copy => "scp agent binary"@,
        DeployStage::Install => "finalizing agent deploy"@,
    }
}

impl DeployStage {
    /// What follows when the command of this stage ended, successfully or not.
    pub fn next(self, success: bool) -> (next: DeployNext)
        ensures
            next == deploy_next(self, success),
    {
        match self {
            DeployStage::Probe => if success {
                DeployNext::Done
            } else {
                DeployNext::Go(DeployStage::MakeDir)
            },
            DeployStage::MakeDir => if success {
                DeployNext::Go(DeployStage::Copy)
            } else {
                DeployNext::Failed(DeployError::MakeDir)
            },
            DeployStage::Copy => if success {
                DeployNext::Go(DeployStage::Install)
            } else {
                DeployNext::Failed(DeployError::Copy)
            },
            DeployStage::Install => if success {
                DeployNext::Done
            } else {
                DeployNext::Failed(DeployError::Install)
            },
        }
    }

    /// The command of this stage, on `host`, for the agent at `path`.
    pub fn command(self, host: &str, path: &str) -> (list: Vec<Arg>)
        ensures
            argv(list@) == deploy_argv(self, host@, path@),
    {
        let mut tmp: String = path.to_string();
        tmp.append(".tmp");
        let mut list: Vec<Arg> = Vec::new();
        match self {
            DeployStage::Probe => {
                let mut line: String = "test -x ".to_string();
                line.append(path);
                push_text(&mut list, "ssh");
                push_text(&mut list, host);
                push_text(&mut list, line.as_str());
            },
            DeployStage::MakeDir => {
                push_text(&mut list, "ssh");
                push_text(&mut list, host);
                push_text(&mut list, "mkdir -p .cache/portmanager");
            },
            DeployStage::Copy => {
                let mut to: String = host.to_string();
                to.append(":");
                to.append(tmp.as_str());
                push_text(&mut list, "scp");
                push_text(&mut list, "-q");
                push_exe(&mut list);
                push_text(&mut list, to.as_str());
            },
            DeployStage::Install => {
                let mut line: String = "chmod +x ".to_string();
                line.append(tmp.as_str());
                line.append(" && mv ");
                line.append(tmp.as_str());
                line.append(" ");
                line.append(path);
                push_text(&mut list, "ssh");
                push_text(&mut list, host);
                push_text(&mut list, line.as_str());
            },
        }
        proof {
            assert(argv(list@) =~= deploy_argv(self, host@, path@));
        }
        list
    }

    /// What to say when the command of this stage could not be run.
    pub fn context(self) -> (s: &'static str)
        ensures
            s@ == deploy_context(self),
    {
        match self {
            DeployStage::Probe => "checking remote agent cache",
            DeployStage::MakeDir => "creating remote cache dir",
            DeployStage::Copy => "scp agent binary",
            DeployStage::Install => "finalizing agent deploy",
        }
    }
}

/// Where a deployment stands when the commands ended as `outcomes` says, one
/// after the other; outcomes beyond its end are not looked at.
pub open spec fn deploy_run(outcomes: Seq<bool>) -> DeployNext
    decreases outcomes.len(),
{
    if outcomes.len() == 0 {
        DeployNext::Go(DeployStage::Probe)
    } else {
        match deploy_run(outcomes.drop_last()) {
            DeployNext::Go(stage) => deploy_next(stage, outcomes.last()),
            end => end,
        }
    }
}

/// A deployment ends well in two ways only: the binary was there, or the
/// directory was made, the copy was complete and the installation succeeded, in
/// this order.
pub proof fn deployed_means_in_place(outcomes: Seq<bool>)
    ensures
        deploy_run(outcomes) == DeployNext::Done <==> outcomes.len() >= 1 && (outcomes[0] || (
        outcomes.len() >= 4 && outcomes[1] && outcomes[2] && outcomes[3])),
    decreases outcomes.len(),
{
    deploy_run_by_length(outcomes);
}

/// A deployment runs at most four commands.
pub proof fn deploy_ends(outcomes: Seq<bool>)
    requires
        outcomes.len() >= 4,
    ensures
        !(deploy_run(outcomes) is Go),
{
    deploy_run_by_length(outcomes);
}

/// The binary gets its own name only after it was copied: the installation is
/// reached exactly by a probe that found nothing, a directory and a copy.
pub proof fn install_follows_copy(outcomes: Seq<bool>)
    ensures
        deploy_run(outcomes) == DeployNext::Go(DeployStage::Install) <==> outcomes.len() == 3
            && !outcomes[0] && outcomes[1] && outcomes[2],
{
    deploy_run_by_length(outcomes);
}

/// The state of a deployment, spelled out by the outcomes so far.
proof fn deploy_run_by_length(o: Seq<bool>)
    ensures
        deploy_run(o) == if o.len() == 0 {
            DeployNext::Go(DeployStage::Probe)
        } else if o[0] {
            DeployNext::Done
        } else if o.len() == 1 {
            DeployNext::Go(DeployStage::MakeDir)
        } else if !o[1] {
            DeployNext::Failed(DeployError::MakeDir)
        } else if o.len() == 2 {
            DeployNext::Go(DeployStage::Copy)
        } else if !o[2] {
            DeployNext::Failed(DeployError::Copy)
        } else if o.len() == 3 {
            DeployNext::Go(DeployStage::Install)
        } else if !o[3] {
            DeployNext::Failed(DeployError::Install)
        } else {
            DeployNext::Done
        },
    decreases o.len(),
{
    if o.len() > 0 {
        deploy_run_by_length(o.drop_last());
    }
}

/// Equal paths belong to equal digests, as far as the name shows them, so a
/// binary that is found under its path is the right one: its target is the same,
/// and so are the first six bytes of its digest.
pub proof fn path_tells_the_binary(
    triple_a: Seq<char>,
    digest_a: Seq<u8>,
    triple_b: Seq<char>,
    digest_b: Seq<u8>,
)
    requires
        digest_a.len() >= 6,
        digest_b.len() >= 6,
        agent_path(triple_a, digest_a) == agent_path(triple_b, digest_b),
    ensures
        triple_a == triple_b,
        digest_a.take(6) == digest_b.take(6),
{
    let dir = ".cache/portmanager/agent-"@;
    let dash = "-"@;
    reveal_strlit("-");
    let a = agent_path(triple_a, digest_a);
    let b = agent_path(triple_b, digest_b);
    let hex_a = hex_digits(digest_a.take(6));
    let hex_b = hex_digits(digest_b.take(6));
    assert(hex_a.len() == 12 && hex_b.len() == 12);
    assert(a.len() == dir.len() + triple_a.len() + 1 + 12);
    assert(b.len() == dir.len() + triple_b.len() + 1 + 12);
    assert(triple_a.len() == triple_b.len());
    let n = (dir + triple_a + dash).len() as int;
    assert(hex_a =~= a.skip(n));
    assert(hex_b =~= b.skip(n));
    assert(triple_a =~= a.subrange(dir.len() as int, (dir.len() + triple_a.len()) as int));
    assert(triple_b =~= b.subrange(dir.len() as int, (dir.len() + triple_b.len()) as int));
    assert forall|i: int| 0 <= i < 6 implies digest_a.take(6)[i] == digest_b.take(6)[i] by {
        let x = digest_a.take(6)[i];
        let y = digest_b.take(6)[i];
        assert(hex_a[2 * i] == hex_b[2 * i]);
        assert(hex_a[2 * i + 1] == hex_b[2 * i + 1]);
        assert(hex_a[2 * i] == digit_char((x / 16) as nat));
        assert(hex_b[2 * i] == digit_char((y / 16) as nat));
        assert(hex_a[2 * i + 1] == digit_char((x % 16) as nat));
        assert(hex_b[2 * i + 1] == digit_char((y % 16) as nat));
        lemma_digit_char((x / 16) as nat, (y / 16) as nat);
        lemma_digit_char((x % 16) as nat, (y % 16) as nat);
    }
    assert(digest_a.take(6) =~= digest_b.take(6));
}

/// Different values have different digits.
proof fn lemma_digit_char(a: nat, b: nat)
    requires
        a < 16,
        b < 16,
        digit_char(a) == digit_char(b),
    ensures
        a == b,
{
    assert(digit_char(a) as u32 == if a < 10 {
        48 + a
    } else {
        87 + a
    });
    assert(digit_char(b) as u32 == if b < 10 {
        48 + b
    } else {
        87 + b
    });
}

} // verus!
