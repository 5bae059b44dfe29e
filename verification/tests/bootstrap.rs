use portmanager::bootstrap::{
    check_remote, default_timing, read_hostname, target_triple, BootError, BootEvent, BootNext,
    BootRequest, Bootstrap, TargetError,
};
use portmanager::command::Arg;
use portmanager::deploy::{remote_path, remote_path_for, DeployError, DeployNext, DeployStage};

fn args(list: &[&str]) -> Vec<Arg> {
    list.iter().map(|s| Arg::Text(s.to_string())).collect()
}

fn go(next: BootNext) -> Bootstrap {
    match next {
        BootNext::Go(boot) => boot,
        BootNext::Done(target) => panic!("done at {}", target),
        BootNext::Failed(e) => panic!("failed: {:?}", e),
    }
}

fn failure(next: BootNext) -> BootError {
    match next {
        BootNext::Failed(e) => e,
        _ => panic!("no failure"),
    }
}

fn start() -> Bootstrap {
    Bootstrap::new("box".to_string(), "0.0.0.0:0".to_string(), "x86_64".to_string())
}

fn captured(out: &str) -> BootEvent {
    BootEvent::Captured(true, out.as_bytes().to_vec(), vec![])
}

fn located() -> Bootstrap {
    let boot = go(start().step(captured("user me\nhostname box.example.org\nport 22\n")));
    go(boot.step(captured("Linux x86_64\n")))
}

fn deploying() -> Bootstrap {
    go(located().step(BootEvent::ExeRead(b"hello world".to_vec())))
}

#[test]
fn triple_mapping() {
    assert_eq!(
        target_triple("Linux x86_64").unwrap(),
        "x86_64-unknown-linux-musl"
    );
    assert_eq!(
        target_triple("Linux aarch64").unwrap(),
        "aarch64-unknown-linux-musl"
    );
    assert_eq!(
        target_triple("Linux arm64").unwrap(),
        "aarch64-unknown-linux-musl"
    );
}

#[test]
fn triple_rejects_unsupported() {
    assert!(target_triple("Darwin arm64").is_err());
    assert!(target_triple("Linux riscv64").is_err());
    assert!(target_triple("").is_err());
}

#[test]
fn triple_ignores_spacing_and_further_words() {
    assert_eq!(target_triple("  Linux\tamd64 GNU\n").unwrap(), "x86_64-unknown-linux-musl");
    assert_eq!(target_triple("Linux"), Err(TargetError::Arch("".to_string())));
}

#[test]
fn unsupported_targets_are_quoted() {
    let os = target_triple("Dar\"win arm64").unwrap_err();
    assert_eq!(os, TargetError::Os("Dar\"win".to_string()));
    assert_eq!(
        os.message(),
        "unsupported remote OS \"Dar\\\"win\"; v1 agents are Linux-only"
    );
    let arch = target_triple("Linux riscv64").unwrap_err();
    assert_eq!(
        arch.message(),
        "unsupported remote arch \"riscv64\"; v1 supports x86_64 and aarch64"
    );
}

#[test]
fn remote_has_to_be_the_local_kind() {
    assert_eq!(check_remote("Linux x86_64\n", "x86_64").unwrap(), "x86_64-unknown-linux-musl");
    assert_eq!(check_remote("Linux aarch64\n", "aarch64").unwrap(), "aarch64-unknown-linux-musl");
    let e = check_remote("Linux amd64\n", "x86_64").unwrap_err();
    assert_eq!(e, BootError::ArchDiffers("amd64".to_string(), "x86_64".to_string()));
    assert_eq!(
        e.message(),
        "remote arch \"amd64\" differs from local \"x86_64\"; cross-arch agent deploy lands with \
         the musl build pipeline (build step 8)"
    );
    assert_eq!(
        check_remote("Linux riscv64", "riscv64"),
        Err(BootError::Target(TargetError::Arch("riscv64".to_string())))
    );
}

#[test]
fn hostname_comes_from_the_first_line_that_has_it() {
    assert_eq!(read_hostname("user me\nhostname  a.b \nhostname c\n", "box"), "a.b");
    assert_eq!(read_hostname("hostname a\r\n", "box"), "a");
    assert_eq!(read_hostname("Hostname a\n hostname b\nhostname\n", "box"), "box");
    assert_eq!(read_hostname("", "box"), "box");
    assert_eq!(read_hostname("hostname \n", "box"), "");
}

#[test]
fn timing_is_the_default_of_its_type() {
    let seconds: u64 = default_timing();
    assert_eq!(seconds, 0);
    let name: String = default_timing();
    assert_eq!(name, "");
}

#[test]
fn path_holds_triple_and_short_hash() {
    assert_eq!(
        remote_path("t", &vec![0x00, 0x0f, 0xf0, 0xab, 0xcd, 0xef, 0x99]),
        ".cache/portmanager/agent-t-000ff0abcdef"
    );
    assert_eq!(
        remote_path_for("x86_64-unknown-linux-musl", &b"hello world".to_vec()),
        ".cache/portmanager/agent-x86_64-unknown-linux-musl-b94d27b9934d"
    );
    assert_ne!(remote_path_for("t", &vec![1]), remote_path_for("t", &vec![2]));
}

#[test]
fn deploy_stages_follow_one_another() {
    assert_eq!(DeployStage::Probe.next(true), DeployNext::Done);
    assert_eq!(DeployStage::Probe.next(false), DeployNext::Go(DeployStage::MakeDir));
    assert_eq!(DeployStage::MakeDir.next(true), DeployNext::Go(DeployStage::Copy));
    assert_eq!(DeployStage::MakeDir.next(false), DeployNext::Failed(DeployError::MakeDir));
    assert_eq!(DeployStage::Copy.next(true), DeployNext::Go(DeployStage::Install));
    assert_eq!(DeployStage::Copy.next(false), DeployNext::Failed(DeployError::Copy));
    assert_eq!(DeployStage::Install.next(true), DeployNext::Done);
    assert_eq!(DeployStage::Install.next(false), DeployNext::Failed(DeployError::Install));
    assert_eq!(DeployError::MakeDir.message(), "failed to create remote cache directory");
    assert_eq!(DeployError::Copy.message(), "scp of agent binary failed");
    assert_eq!(DeployError::Install.message(), "failed to install agent binary on remote");
    assert_eq!(DeployStage::Probe.context(), "checking remote agent cache");
    assert_eq!(DeployStage::MakeDir.context(), "creating remote cache dir");
    assert_eq!(DeployStage::Copy.context(), "scp agent binary");
    assert_eq!(DeployStage::Install.context(), "finalizing agent deploy");
}

#[test]
fn deploy_commands() {
    assert_eq!(DeployStage::Probe.command("h", "p"), args(&["ssh", "h", "test -x p"]));
    assert_eq!(
        DeployStage::MakeDir.command("h", "p"),
        args(&["ssh", "h", "mkdir -p .cache/portmanager"])
    );
    assert_eq!(
        DeployStage::Copy.command("h", "p"),
        vec![
            Arg::Text("scp".to_string()),
            Arg::Text("-q".to_string()),
            Arg::Exe,
            Arg::Text("h:p.tmp".to_string()),
        ]
    );
    assert_eq!(
        DeployStage::Install.command("h", "p"),
        args(&["ssh", "h", "chmod +x p.tmp && mv p.tmp p"])
    );
}

#[test]
fn bootstrap_runs_to_the_end() {
    let path = ".cache/portmanager/agent-x86_64-unknown-linux-musl-b94d27b9934d";
    let boot = start();
    assert_eq!(boot.request(), BootRequest::Capture(args(&["ssh", "-G", "box"])));
    let boot = go(boot.step(captured("hostname box.example.org\n")));
    assert_eq!(
        boot.request(),
        BootRequest::Capture(args(&["ssh", "-o", "BatchMode=no", "box", "uname", "-sm"]))
    );
    let boot = go(boot.step(captured("Linux x86_64\n")));
    assert_eq!(boot.request(), BootRequest::ReadExe);
    let boot = go(boot.step(BootEvent::ExeRead(b"hello world".to_vec())));
    assert_eq!(
        boot.request(),
        BootRequest::Run(args(&["ssh", "box", &format!("test -x {}", path)]))
    );
    let boot = go(boot.step(BootEvent::Exited(false)));
    let boot = go(boot.step(BootEvent::Exited(true)));
    let boot = go(boot.step(BootEvent::Exited(true)));
    assert_eq!(
        boot.request(),
        BootRequest::Run(args(&[
            "ssh",
            "box",
            &format!("chmod +x {}.tmp && mv {}.tmp {}", path, path, path),
        ]))
    );
    let boot = go(boot.step(BootEvent::Exited(true)));
    assert_eq!(
        boot.request(),
        BootRequest::Launch(args(&["ssh", "box", path, "agent", "--listen", "0.0.0.0:0"]))
    );
    match boot.step(BootEvent::Ready(4433)) {
        BootNext::Done(target) => assert_eq!(target, "box.example.org:4433"),
        _ => panic!("not done"),
    }
}

#[test]
fn deployed_agent_is_launched_at_once() {
    let boot = go(deploying().step(BootEvent::Exited(true)));
    assert!(matches!(boot.request(), BootRequest::Launch(_)));
}

#[test]
fn bootstrap_failures() {
    let e = failure(start().step(BootEvent::Captured(false, vec![], vec![])));
    assert_eq!(e, BootError::Lookup("box".to_string()));
    assert_eq!(e.message(), "ssh -G box failed");

    let detect = go(start().step(captured("")));
    let e = failure(detect.step(BootEvent::Captured(false, vec![], b" no \xffroute\n".to_vec())));
    assert_eq!(e, BootError::Detect("no \u{fffd}route".to_string()));
    assert_eq!(
        e.message(),
        "remote command [\"uname\", \"-sm\"] failed: no \u{fffd}route"
    );

    let detect = go(start().step(captured("")));
    let e = failure(detect.step(captured("Darwin arm64")));
    assert_eq!(e, BootError::Target(TargetError::Os("Darwin".to_string())));
    assert_eq!(
        e.message(),
        "unsupported remote OS \"Darwin\"; v1 agents are Linux-only"
    );

    let made = go(deploying().step(BootEvent::Exited(false)));
    let e = failure(made.step(BootEvent::Exited(false)));
    assert_eq!(e, BootError::Deploy(DeployError::MakeDir));
    assert_eq!(e.message(), "failed to create remote cache directory");
}

#[test]
fn bootstrap_knows_what_it_waits_for() {
    let boot = start();
    assert!(boot.expects(&captured("")));
    assert!(!boot.expects(&BootEvent::Exited(true)));
    assert!(located().expects(&BootEvent::ExeRead(vec![])));
    assert!(!located().expects(&BootEvent::Ready(1)));
    assert!(deploying().expects(&BootEvent::Exited(false)));
}
