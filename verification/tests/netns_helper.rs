use portmanager::command::Arg;
use portmanager::dial::{format_host_port, resolution_error, AddressWalk};
use portmanager::forward::NsSpec;
use portmanager::netns::{
    helper_command, helper_entry, inspect_command, inspect_pid, read_inspection, resolve, resolve_pid,
    Entry, InspectError, Refusal, ResolveError, Runtime,
};
use portmanager::pool::HelperPool;
use portmanager::protocol::{
    connect_error, encode_error, encode_request, handle_dialed, handle_request, parse_request,
    read_reply, request_failure, HelperAction, HelperFailure, HelperReply, RequestEvent,
};

fn args(list: &[&str]) -> Vec<Arg> {
    list.iter().map(|s| Arg::Text(s.to_string())).collect()
}

fn no_inspection(_: Runtime, _: &String) -> Result<i32, String> {
    panic!("nothing to inspect")
}

/// A connect that fails inside the helper is reported with a message that helps.
#[test]
fn helper_reports_connect_failure() {
    let line = encode_request("127.0.0.1", 1);
    let (host, port) = match handle_request(&line) {
        HelperAction::Dial(host, port) => (host, port),
        other => panic!("not dialed: {:?}", other),
    };
    assert_eq!((host.as_str(), port), ("127.0.0.1", 1));
    let mut walk = AddressWalk::new(host, port, vec!["127.0.0.1:1".to_string()]);
    assert_eq!(walk.next(), Some(0));
    walk.failed("Connection refused (os error 111)");
    assert_eq!(walk.next(), None);
    let reply = match handle_dialed(Some(walk.failure())) {
        HelperAction::Answer(reply) => reply,
        other => panic!("connect to closed port should fail: {:?}", other),
    };
    let answer = read_reply(1, reply.as_bytes()[0], false);
    assert_eq!(answer, HelperReply::ErrorFollows);
    let msg = connect_error(&reply[1..]);
    assert!(
        msg.contains("connect") || msg.contains("namespace"),
        "unhelpful error: {}",
        msg
    );
    assert_eq!(
        msg,
        "in-namespace connect failed: connect 127.0.0.1:1: Connection refused (os error 111)"
    );
    let mut pool: HelperPool<u8> = HelperPool::new();
    assert!(!pool.after_failure("", 0, answer.kind().unwrap()));
}

/// Rootful `netns:` targets fail with a clear error.
#[test]
fn netns_form_rejected_rootless() {
    let err = resolve(&NsSpec::Netns("blue".into()), no_inspection)
        .expect_err("netns: should be rejected in v1");
    let refusal = match err {
        ResolveError::Refused(refusal) => refusal,
        ResolveError::Inspect(e) => panic!("inspected: {}", e),
    };
    assert!(
        refusal.message().contains("rootful"),
        "error should explain rootful unsupported: {}",
        refusal.message()
    );
    assert_eq!(
        refusal.message(),
        "netns:blue is a rootful (ip-netns) namespace; rootful entry is not yet supported — the v1 \
         agent runs unprivileged (rootless only)"
    );
    assert!(helper_entry(&NsSpec::Netns("blue".into()), no_inspection).is_err());
}

#[test]
fn selectors_resolve_to_entries() {
    assert_eq!(
        resolve(&NsSpec::Host, no_inspection),
        Err(ResolveError::Refused(Refusal::HostNeedsNoHelper))
    );
    assert_eq!(Refusal::HostNeedsNoHelper.message(), "host namespace needs no helper");
    assert_eq!(resolve(&NsSpec::Pid(7), no_inspection), Ok(Entry::Pid(7)));
    assert_eq!(
        resolve(&NsSpec::NsPath("/run/netns/x".into()), no_inspection),
        Ok(Entry::Path("/run/netns/x".to_string()))
    );
    let inspect = |runtime: Runtime, name: &String| -> Result<i32, String> {
        match runtime {
            Runtime::Podman => Ok(name.len() as i32),
            Runtime::Docker => Err(format!("no {}", name)),
        }
    };
    assert_eq!(resolve(&NsSpec::Podman("abc".into()), inspect), Ok(Entry::Pid(3)));
    assert_eq!(
        resolve(&NsSpec::Docker("abc".into()), inspect),
        Err(ResolveError::Inspect("no abc".to_string()))
    );
    assert_eq!(helper_entry(&NsSpec::Host, no_inspection), Ok(None));
    assert_eq!(helper_entry(&NsSpec::Podman("abc".into()), inspect), Ok(Some(Entry::Pid(3))));
}

#[test]
fn selectors_resolve_to_pids() {
    let inspect = |runtime: Runtime, _: &String| -> Result<i32, String> {
        match runtime {
            Runtime::Podman => Ok(11),
            Runtime::Docker => Ok(22),
        }
    };
    assert_eq!(resolve_pid(&NsSpec::Host, no_inspection), Ok(None));
    assert_eq!(resolve_pid(&NsSpec::Pid(-3), no_inspection), Ok(Some(-3)));
    assert_eq!(resolve_pid(&NsSpec::Podman("a".into()), inspect), Ok(Some(11)));
    assert_eq!(resolve_pid(&NsSpec::Docker("a".into()), inspect), Ok(Some(22)));
    let path = Refusal::UnscannablePath("/x".to_string());
    assert_eq!(path.message(), "cannot scan nspath:/x (no owning PID)");
    assert_eq!(
        resolve_pid(&NsSpec::NsPath("/x".into()), no_inspection),
        Err(ResolveError::Refused(path))
    );
    let name = Refusal::RootfulScan("blue".to_string());
    assert_eq!(name.message(), "cannot scan netns:blue (rootful; unsupported in v1)");
    assert_eq!(
        resolve_pid(&NsSpec::Netns("blue".into()), no_inspection),
        Err(ResolveError::Refused(name))
    );
}

#[test]
fn inspections_give_live_pids() {
    assert_eq!(
        inspect_command(Runtime::Podman, "web"),
        args(&["podman", "inspect", "--format", "{{.State.Pid}}", "web"])
    );
    assert_eq!(inspect_command(Runtime::Docker, "web")[0], Arg::Text("docker".to_string()));
    assert_eq!(read_inspection(Runtime::Podman, "web", true, " 4242\n", ""), Ok(4242));
    assert_eq!(inspect_pid(Runtime::Podman, "web", true, &b"4242\n".to_vec(), &vec![]), Ok(4242));

    let dead = read_inspection(Runtime::Docker, "web", true, "0\n", "").unwrap_err();
    assert_eq!(dead, InspectError::NoProcess(Runtime::Docker, "web".to_string(), 0));
    assert_eq!(dead.message(), "docker container web has no live process (PID 0)");
    let negative = read_inspection(Runtime::Docker, "web", true, "-5", "").unwrap_err();
    assert_eq!(negative.message(), "docker container web has no live process (PID -5)");

    let bad = read_inspection(Runtime::Podman, "web", true, " x \n", "").unwrap_err();
    assert_eq!(bad, InspectError::BadPid(Runtime::Podman, "x".to_string()));
    assert_eq!(bad.message(), "parsing PID from podman inspect");

    let failed =
        inspect_pid(Runtime::Podman, "web", false, &b"7".to_vec(), &b"no \xfe such\n".to_vec())
            .unwrap_err();
    assert_eq!(
        failed.message(),
        "podman inspect web failed: no \u{fffd} such"
    );
}

#[test]
fn helpers_run_our_binary() {
    let mut pid = args(&["nsenter", "-t", "12", "--preserve-credentials", "-U", "-n", "--"]);
    pid.push(Arg::Exe);
    pid.push(Arg::Text("ns-helper".to_string()));
    assert_eq!(helper_command(&Some(Entry::Pid(12))), pid);
    let mut path = args(&["nsenter", "--net=/run/x", "--"]);
    path.push(Arg::Exe);
    path.push(Arg::Text("ns-helper".to_string()));
    assert_eq!(helper_command(&Some(Entry::Path("/run/x".to_string()))), path);
    assert_eq!(helper_command(&None), vec![Arg::Exe, Arg::Text("ns-helper".to_string())]);
}

#[test]
fn requests_are_lines_of_three_words() {
    assert_eq!(encode_request("example.org", 443), "C example.org 443\n");
    assert_eq!(parse_request("C h 80 more\n"), Some(("h".to_string(), 80)));
    assert_eq!(parse_request("  C\th\t+80"), Some(("h".to_string(), 80)));
    assert_eq!(parse_request("C h 65536\n"), None);
    assert_eq!(parse_request("C h\n"), None);
    assert_eq!(parse_request("c h 80\n"), None);
    assert_eq!(parse_request("K h 80\n"), None);
    for port in [0u16, 1, 80, 65535] {
        assert_eq!(
            parse_request(&encode_request("a.b", port)),
            Some(("a.b".to_string(), port))
        );
    }
}

#[test]
fn helpers_answer_every_request() {
    assert_eq!(handle_request(""), HelperAction::Exit);
    assert_eq!(
        handle_request("\n"),
        HelperAction::Answer("Emalformed request\n".to_string())
    );
    assert_eq!(handle_request("C h 1\n"), HelperAction::Dial("h".to_string(), 1));
    assert_eq!(handle_dialed(None), HelperAction::HandBack);
    assert_eq!(
        handle_dialed(Some("a\nb".to_string())),
        HelperAction::Answer("Ea b\n".to_string())
    );
}

#[test]
fn error_answers_are_single_lines() {
    assert_eq!(encode_error("one\ntwo\n"), "Eone two \n");
    assert_eq!(connect_error("one two \n"), "in-namespace connect failed: one two");
}

#[test]
fn answers_have_a_meaning() {
    assert_eq!(read_reply(0, b'K', true), HelperReply::Closed);
    assert_eq!(read_reply(1, b'K', true), HelperReply::Connected);
    assert_eq!(read_reply(1, b'K', false), HelperReply::NoSocket);
    assert_eq!(read_reply(1, b'E', false), HelperReply::ErrorFollows);
    assert_eq!(read_reply(1, b'X', true), HelperReply::Violation(b'X'));
    assert_eq!(
        HelperReply::Closed.failure().unwrap(),
        "helper closed (namespace process gone?)"
    );
    assert_eq!(HelperReply::NoSocket.failure().unwrap(), "helper said OK but sent no fd");
    assert_eq!(
        HelperReply::Violation(b'X').failure().unwrap(),
        "helper protocol violation (status byte 0x58)"
    );
    assert_eq!(HelperReply::Connected.failure(), None);
    assert_eq!(HelperReply::ErrorFollows.failure(), None);
}

#[test]
fn pool_keeps_one_helper_for_each_namespace() {
    let mut pool: HelperPool<u32> = HelperPool::new();
    assert_eq!(pool.get("a"), None);
    assert_eq!(pool.insert("a".to_string(), 1), None);
    assert_eq!(pool.insert("b".to_string(), 2), None);
    assert_eq!(pool.get("a"), Some(&1));
    assert_eq!(pool.get("a"), Some(&1));
    assert_eq!(pool.insert("a".to_string(), 3), Some(1));
    assert_eq!(pool.get("a"), Some(&3));
    assert_eq!(pool.get("b"), Some(&2));
    assert_eq!(pool.remove("a"), Some(3));
    assert_eq!(pool.remove("a"), None);
    assert_eq!(pool.get("a"), None);
    assert_eq!(pool.get("b"), Some(&2));
}

#[test]
fn helpers_are_spawned_once() {
    let mut pool: HelperPool<u32> = HelperPool::default();
    assert_eq!(pool.get_or_spawn("a", || Err::<u32, String>("no".to_string())), Err("no".to_string()));
    assert_eq!(pool.get("a"), None);
    assert_eq!(pool.get_or_spawn("a", || Ok::<u32, String>(1)), Ok(&1));
    assert_eq!(pool.get_or_spawn("b", || Ok::<u32, String>(2)), Ok(&2));
    let again = pool.get_or_spawn("a", || -> Result<u32, String> { panic!("spawned again") });
    assert_eq!(again, Ok(&1));
    assert_eq!(pool.remove("b"), Some(2));
    assert_eq!(pool.get("a"), Some(&1));
}

#[test]
fn failures_are_of_two_kinds() {
    assert_eq!(HelperReply::Connected.kind(), None);
    assert_eq!(HelperReply::ErrorFollows.kind(), Some(HelperFailure::Refused));
    assert_eq!(HelperReply::Closed.kind(), Some(HelperFailure::Lost));
    assert_eq!(HelperReply::NoSocket.kind(), Some(HelperFailure::Lost));
    assert_eq!(HelperReply::Violation(0).kind(), Some(HelperFailure::Lost));
    for event in [RequestEvent::NotSent, RequestEvent::NotReceived, RequestEvent::LineNotRead] {
        assert_eq!(request_failure(event), Some(HelperFailure::Lost));
    }
    assert_eq!(request_failure(RequestEvent::Reply(HelperReply::Connected)), None);
    assert_eq!(
        request_failure(RequestEvent::Reply(HelperReply::ErrorFollows)),
        Some(HelperFailure::Refused)
    );
    assert_eq!(
        request_failure(RequestEvent::Reply(HelperReply::Closed)),
        Some(HelperFailure::Lost)
    );
}

#[test]
fn lost_helpers_are_replaced_once() {
    let mut pool: HelperPool<u32> = HelperPool::new();
    pool.insert("a".to_string(), 1);
    pool.insert("b".to_string(), 9);
    assert!(!pool.after_failure("a", 0, HelperFailure::Refused));
    assert_eq!(pool.get("a"), Some(&1));
    assert!(pool.after_failure("a", 0, HelperFailure::Lost));
    assert_eq!(pool.get("a"), None);
    assert_eq!(pool.get_or_spawn("a", || Ok::<u32, String>(2)), Ok(&2));
    assert!(!pool.after_failure("a", 1, HelperFailure::Lost));
    assert_eq!(pool.get("a"), None);
    assert_eq!(pool.get("b"), Some(&9));
}

#[test]
fn addresses_are_walked_in_order() {
    assert_eq!(format_host_port("h", 80), "h:80");
    assert_eq!(resolution_error("h", 80), "resolving h:80 in namespace");
    let none = AddressWalk::new("h".to_string(), 80, vec![]);
    assert_eq!(none.next(), None);
    assert_eq!(none.failure(), "no addresses for h:80");
    let mut two = AddressWalk::new("h".to_string(), 80, vec!["a:80".to_string(), "b:80".to_string()]);
    assert_eq!(two.next(), Some(0));
    two.failed("first");
    assert_eq!(two.failure(), "connect a:80: first");
    assert_eq!(two.next(), Some(1));
    two.failed("second");
    assert_eq!(two.next(), None);
    assert_eq!(two.failure(), "connect b:80: second");
}
