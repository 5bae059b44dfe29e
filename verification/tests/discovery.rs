use portmanager::autoforward::{
    find_rule, AutoForward, ForwardEvent, ForwardFailure, ForwardNext, ForwardStage,
};
use portmanager::discovery::{
    discovery_header, merge_scans, scan_tables, snapshot_line, watch_line, watch_list,
    watched_namespaces, watched_wires, AutoForwardRule, EpochEvent, EpochState, Listener, TcpEntry,
    TcpState, DISCOVERY_HOST,
};
use portmanager::error::SpecError;
use portmanager::forward::{ForwardSpec, IpAddr, NsSpec, LOCALHOST};
use portmanager::snapshot::{SnapshotEvent, SnapshotState, SnapshotStep};
use portmanager::order::{insert_sorted, Ranked};

fn listener(ns: &str, ip: &str, port: u16) -> Listener {
    Listener { ns: ns.to_string(), ip: ip.to_string(), port }
}

fn entry(state: TcpState, ip: &str, port: u16) -> TcpEntry {
    TcpEntry { state, ip: ip.to_string(), port }
}

fn rule(ns: &str) -> AutoForwardRule {
    AutoForwardRule { ns: ns.to_string(), local: "same".to_string() }
}

fn go(next: ForwardNext) -> AutoForward {
    match next {
        ForwardNext::Go(auto) => auto,
        other => panic!("ended: {:?}", other),
    }
}

fn bound_spec(auto: &AutoForward) -> ForwardSpec {
    match &auto.stage {
        ForwardStage::Bind(forward) => forward.clone(),
        other => panic!("not binding: {:?}", other),
    }
}

fn loading(ip: &str, local: &str) -> AutoForward {
    let auto = AutoForward::new(listener("", ip, 8080), local.to_string());
    go(auto.step(ForwardEvent::Forwarded(false)))
}

#[test]
fn scans_report_listening_sockets() {
    let tcp = Some(vec![
        entry(TcpState::Listen, "0.0.0.0", 22),
        entry(TcpState::Established, "10.0.0.1", 22),
        entry(TcpState::Listen, "127.0.0.1", 80),
    ]);
    let tcp6 = Some(vec![entry(TcpState::TimeWait, "::1", 9), entry(TcpState::Listen, "::", 22)]);
    assert_eq!(
        scan_tables("blue", &tcp, &tcp6),
        vec![
            listener("blue", "0.0.0.0", 22),
            listener("blue", "127.0.0.1", 80),
            listener("blue", "::", 22),
        ]
    );
    assert_eq!(scan_tables("blue", &None, &tcp6), vec![listener("blue", "::", 22)]);
    assert_eq!(scan_tables("", &None, &None), vec![]);
}

#[test]
fn snapshots_are_sorted_and_free_of_repetition() {
    let a = listener("", "0.0.0.0", 22);
    let b = listener("", "0.0.0.0", 80);
    let c = listener("blue", "0.0.0.0", 22);
    let scans = vec![
        Some(vec![c.clone(), b.clone(), b.clone()]),
        None,
        Some(vec![a.clone(), c.clone()]),
    ];
    assert_eq!(merge_scans(scans), vec![a.clone(), b.clone(), c.clone()]);
    assert_eq!(
        merge_scans(vec![Some(vec![a.clone(), b.clone(), c.clone()])]),
        vec![a, b, c]
    );
    assert_eq!(merge_scans(vec![None, Some(vec![])]), vec![]);
}

#[test]
fn listeners_are_ordered_by_their_fields() {
    let all = [
        listener("", "10.0.0.1", 9),
        listener("", "10.0.0.1", 10),
        listener("", "9.0.0.1", 1),
        listener("a", "::", 65535),
        listener("ab", "", 0),
        listener("b", "::", 0),
    ];
    for x in &all {
        for y in &all {
            assert_eq!(x.precedes(y), x < y, "{:?} {:?}", x, y);
        }
    }
}

#[test]
fn sorted_lists_take_new_items_only() {
    let mut list: Vec<String> = Vec::new();
    for s in ["m", "c", "x", "c", "", "m"] {
        insert_sorted(&mut list, s.to_string());
    }
    assert_eq!(list, vec!["", "c", "m", "x"]);
}

#[test]
fn watch_lists_name_each_namespace_once() {
    assert_eq!(watch_list(&vec![]), None);
    let rules = vec![rule("podman-web"), rule(""), rule("blue"), rule("podman-web")];
    let list = watch_list(&rules).unwrap();
    assert_eq!(list, "blue host podman-web");
    assert_eq!(watch_line(&list), "blue host podman-web\n");
}

#[test]
fn agent_reads_the_watch_list_back() {
    let rules = vec![rule("web"), rule(""), rule("blue")];
    let line = watch_line(&watch_list(&rules).unwrap());
    assert_eq!(watched_wires(&line), vec!["blue", "", "web"]);
    assert_eq!(watched_wires(" host\thosts \n"), vec!["", "hosts"]);
}

#[test]
fn unknown_namespaces_are_left_out() {
    let from_wire = |wire: &String| -> Result<NsSpec, String> {
        if wire.is_empty() {
            Ok(NsSpec::Host)
        } else if wire.len() == 3 {
            Ok(NsSpec::Docker(wire.clone()))
        } else {
            Err(format!("unknown {}", wire))
        }
    };
    assert_eq!(
        watched_namespaces("web blue host\n", from_wire),
        vec![NsSpec::Docker("web".to_string()), NsSpec::Host]
    );
    assert_eq!(watched_namespaces("\n", from_wire), vec![]);
}

#[test]
fn discovery_streams_have_their_own_header() {
    let header = discovery_header();
    assert_eq!(header.ns, "");
    assert_eq!(header.host, "@discovery");
    assert_eq!(header.host, DISCOVERY_HOST);
    assert_eq!(header.port, 0);
    assert_eq!(snapshot_line("[]".to_string()), "[]\n");
}

#[test]
fn first_matching_rule_counts() {
    let ports = vec![80u16, 443, 80];
    assert_eq!(find_rule(&ports, |p: &u16| *p == 80), Some(0));
    assert_eq!(find_rule(&ports, |p: &u16| *p == 443), Some(1));
    assert_eq!(find_rule(&ports, |p: &u16| *p == 22), None);
}

#[test]
fn forwarded_listeners_are_left_alone() {
    let auto = AutoForward::new(listener("", "::", 80), "same".to_string());
    assert_eq!(auto.stage, ForwardStage::Check);
    assert!(auto.expects(&ForwardEvent::Forwarded(true)));
    assert!(!auto.expects(&ForwardEvent::Saved));
    assert_eq!(auto.step(ForwardEvent::Forwarded(true)), ForwardNext::Done);
}

#[test]
fn forwards_lead_to_the_listener() {
    let auto = go(loading("0.0.0.0", "same").step(ForwardEvent::Loaded(None, Ok(NsSpec::Host))));
    assert_eq!(
        bound_spec(&auto),
        ForwardSpec {
            ns: NsSpec::Host,
            remote_host: "127.0.0.1".to_string(),
            remote_port: 8080,
            local_addr: IpAddr::V4(LOCALHOST),
            local_port: 8080,
        }
    );
    let auto = go(loading("::", "any").step(ForwardEvent::Loaded(None, Ok(NsSpec::Host))));
    assert_eq!(bound_spec(&auto).remote_host, "127.0.0.1");
    assert_eq!(bound_spec(&auto).local_port, 0);
    let auto = go(loading("10.1.2.3", "same").step(ForwardEvent::Loaded(None, Ok(NsSpec::Pid(3)))));
    assert_eq!(bound_spec(&auto).remote_host, "10.1.2.3");
    assert_eq!(bound_spec(&auto).ns, NsSpec::Pid(3));
}

#[test]
fn assignments_are_stable() {
    let auto = go(loading("::", "same").step(ForwardEvent::Loaded(None, Ok(NsSpec::Host))));
    let auto = go(auto.step(ForwardEvent::BindFailed));
    let auto = go(auto.step(ForwardEvent::Bound(40123)));
    assert_eq!(auto.stage, ForwardStage::Save(40123));
    assert_eq!(auto.step(ForwardEvent::Saved), ForwardNext::Done);
    let later = loading("::", "same").step(ForwardEvent::Loaded(Some(40123), Ok(NsSpec::Host)));
    assert_eq!(bound_spec(&go(later)).local_port, 40123);
}

#[test]
fn collisions_fall_back_once() {
    let auto = go(loading("::", "same").step(ForwardEvent::Loaded(Some(9000), Ok(NsSpec::Host))));
    let auto = go(auto.step(ForwardEvent::BindFailed));
    assert_eq!(bound_spec(&auto).local_port, 0);
    assert_eq!(bound_spec(&auto).remote_port, 8080);
    assert_eq!(
        auto.step(ForwardEvent::BindFailed),
        ForwardNext::Failed(ForwardFailure::Bind)
    );
}

#[test]
fn unreadable_namespaces_are_not_forwarded() {
    let next = loading("::", "same").step(ForwardEvent::Loaded(Some(1), Err(SpecError::Empty)));
    assert_eq!(next, ForwardNext::Failed(ForwardFailure::Namespace(SpecError::Empty)));
}

#[test]
fn discovery_runs_once_for_each_connection() {
    let state = EpochState::Look.next(EpochEvent::Looked(false));
    assert_eq!(state, EpochState::Wait);
    let state = state.next(EpochEvent::Changed(true)).next(EpochEvent::Looked(true));
    assert_eq!(state, EpochState::Run);
    let state = state.next(EpochEvent::Ended);
    assert_eq!(state, EpochState::Wait);
    assert_eq!(state.next(EpochEvent::Looked(true)), EpochState::Wait);
    assert_eq!(state.next(EpochEvent::Changed(false)), EpochState::Over);
    assert_eq!(EpochState::Over.next(EpochEvent::Changed(true)), EpochState::Over);
}

#[test]
fn snapshots_are_worked_through() {
    let read = SnapshotState::Read;
    assert_eq!(read.next(SnapshotEvent::Unparsable), SnapshotStep::Go(read));
    assert_eq!(read.next(SnapshotEvent::Parsed(0)), SnapshotStep::Go(read));
    let first = SnapshotState::Consider(0, 2);
    let second = SnapshotState::Consider(1, 2);
    assert_eq!(read.next(SnapshotEvent::Parsed(2)), SnapshotStep::Go(first));
    assert_eq!(first.next(SnapshotEvent::Considered(false)), SnapshotStep::Go(second));
    assert_eq!(first.next(SnapshotEvent::Considered(true)), SnapshotStep::Go(second));
    assert_eq!(second.next(SnapshotEvent::Considered(false)), SnapshotStep::Go(read));
    assert_eq!(second.next(SnapshotEvent::Ended), SnapshotStep::Go(second));
    assert_eq!(read.next(SnapshotEvent::Ended), SnapshotStep::Over);
    assert_eq!(read.next(SnapshotEvent::ReadFailed), SnapshotStep::Failed);
}
