use portmanager::agent::{refuse_unreachable, route_stream, StreamAction};
use portmanager::discovery::discovery_header;
use portmanager::error::{format_chain, join_messages, SpecError};
use portmanager::forward::{stream_header, ForwardSpec, IpAddr, NsSpec, StreamHeader, LOCALHOST};
use portmanager::netwatch::{wildcard_address, RouteWatch, WatchAction, WatchEvent};
use portmanager::session::{
    default_filter, dispatch, parse_specs, run_client, BadSpec, ClientError, Command, Dispatch, RunArgs,
};

const HOME: IpAddr = IpAddr::V4(0xc0a8_0002);
const CAFE: IpAddr = IpAddr::V4(0x0a00_0005);

fn forward(host: &str, port: u16) -> ForwardSpec {
    ForwardSpec {
        ns: NsSpec::Host,
        remote_host: host.to_string(),
        remote_port: port,
        local_addr: IpAddr::V4(LOCALHOST),
        local_port: port,
    }
}

fn parse(spec: &String) -> Result<ForwardSpec, SpecError> {
    if spec.is_empty() {
        return Err(SpecError::Empty);
    }
    match spec.parse::<u16>() {
        Ok(port) => Ok(forward("localhost", port)),
        Err(e) => Err(SpecError::InvalidPort(spec.clone(), e.to_string())),
    }
}

fn run(host: Option<&str>, specs: &[&str], profile: Option<&str>) -> RunArgs {
    RunArgs {
        host: host.map(|s| s.to_string()),
        specs: specs.iter().map(|s| s.to_string()).collect(),
        profile: profile.map(|s| s.to_string()),
    }
}

#[test]
fn spec_errors_have_messages() {
    let s = |t: &str| t.to_string();
    assert_eq!(SpecError::Empty.message(), "empty forward spec");
    assert_eq!(
        SpecError::InvalidPort(s("8\n0"), s("bad")).message(),
        "invalid port \"8\\n0\": bad"
    );
    assert_eq!(SpecError::MissingPort(s("a")).message(), "missing port in \"a\"");
    assert_eq!(
        SpecError::BadNamespace(s("x:"), s("empty name")).message(),
        "malformed namespace selector \"x:\": empty name"
    );
    assert_eq!(
        SpecError::Malformed(s("a:b"), s("why")).message(),
        "malformed forward spec \"a:b\": why"
    );
}

#[test]
fn chains_are_rendered_outermost_first() {
    let error = anyhow::Error::msg("refused").context("dialing").context("forwarding");
    assert_eq!(format_chain(&error), "forwarding: dialing: refused");
    assert_eq!(format_chain(&anyhow::Error::msg("alone")), "alone");
    assert_eq!(join_messages(&vec!["a".to_string(), "b".to_string()]), "a: b");
}

#[test]
fn contexts_come_first() {
    let error = anyhow::Error::msg("root").context("middle");
    let before = format_chain(&error);
    let after = format_chain(&error.context("top"));
    assert_eq!(after, format!("top: {}", before));
    assert_eq!(after.len(), "top".len() + "middle".len() + "root".len() + 4);
}

#[test]
fn chains_of_single_lines_are_one_line() {
    let error = anyhow::Error::msg("root").context("middle").context("top");
    assert!(!format_chain(&error).contains('\n'));
}

#[test]
fn specs_are_parsed_in_order() {
    let specs = vec!["80".to_string(), "443".to_string()];
    assert_eq!(
        parse_specs(&specs, parse),
        Ok(vec![forward("localhost", 80), forward("localhost", 443)])
    );
    assert_eq!(parse_specs(&vec![], parse), Ok(vec![]));
}

#[test]
fn offending_spec_is_named() {
    let specs = vec!["80".to_string(), "".to_string(), "x".to_string()];
    let e = parse_specs(&specs, parse).unwrap_err();
    assert_eq!(e, BadSpec { spec: "".to_string(), cause: SpecError::Empty });
    assert_eq!(e.message(), "invalid forward spec \"\"");
    let e = parse_specs(&vec!["x y".to_string()], parse).unwrap_err();
    assert_eq!(e.message(), "invalid forward spec \"x y\"");
}

#[test]
fn client_ends_for_the_right_reason() {
    let (forwards, e) = run_client(&run(None, &["x"], None), parse);
    assert_eq!((forwards, e), (None, ClientError::NoHost));
    assert_eq!(
        ClientError::NoHost.message(),
        "no host given; usage: portmanager <host> <spec>..."
    );
    let (forwards, e) = run_client(&run(Some("box"), &["80", "x"], None), parse);
    assert_eq!(forwards, None);
    assert_eq!(e.message(), "invalid forward spec \"x\"");
    let (forwards, e) = run_client(&run(Some("box"), &[], None), parse);
    assert_eq!((forwards, &e), (None, &ClientError::NoForwards));
    assert_eq!(e.message(), "no forwards given; pass at least one spec or --profile");
    let (forwards, e) = run_client(&run(Some("box"), &[], Some("work")), parse);
    assert_eq!((forwards, e), (Some(vec![]), ClientError::NotStarted));
    let (forwards, e) = run_client(&run(Some("box"), &["80"], None), parse);
    assert_eq!(forwards, Some(vec![forward("localhost", 80)]));
    assert_eq!(e.message(), "session start not yet implemented (parsing works)");
}

#[test]
fn subcommands_lead_to_their_roles() {
    assert_eq!(dispatch(Command::Agent), Dispatch::RunAgent);
    assert_eq!(dispatch(Command::NsHelper), Dispatch::RunHelper);
    for command in [Command::Add, Command::Drop, Command::List, Command::Status] {
        assert_eq!(
            dispatch(command),
            Dispatch::Refuse("control-socket subcommands not yet implemented")
        );
    }
}

#[test]
fn verbosity_picks_the_filter() {
    assert_eq!(default_filter(0), "portmanager=info");
    assert_eq!(default_filter(1), "portmanager=debug");
    assert_eq!(default_filter(2), "portmanager=trace");
    assert_eq!(default_filter(255), "portmanager=trace");
}

#[test]
fn streams_into_namespaces_are_refused() {
    let header = stream_header("blue".to_string(), &forward("web", 80));
    assert_eq!(
        header,
        StreamHeader { ns: "blue".to_string(), host: "web".to_string(), port: 80 }
    );
    assert_eq!(
        route_stream(&header),
        StreamAction::Reset(1, "namespace dialing not yet supported (ns=blue)".to_string())
    );
    let header = stream_header("".to_string(), &forward("web", 80));
    assert_eq!(route_stream(&header), StreamAction::Dial("web:80".to_string()));
    assert_eq!(
        refuse_unreachable("web:80"),
        StreamAction::Reset(2, "connecting to web:80".to_string())
    );
}

#[test]
fn discovery_streams_are_not_dialed() {
    assert_eq!(route_stream(&discovery_header()), StreamAction::Discover);
    let header = stream_header("".to_string(), &forward("discovery", 0));
    assert_eq!(route_stream(&header), StreamAction::Dial("discovery:0".to_string()));
    let header = stream_header("blue".to_string(), &forward("@discovery", 0));
    assert!(matches!(route_stream(&header), StreamAction::Reset(1, _)));
}

#[test]
fn namespaces_know_the_host() {
    assert!(NsSpec::Host.is_host());
    assert!(!NsSpec::Pid(1).is_host());
    let ns = NsSpec::Podman("web".to_string());
    assert_eq!(ns.clone(), ns);
}

#[test]
fn changed_source_addresses_rebind() {
    let mut watch = RouteWatch::new(Some(HOME));
    assert_eq!(watch.step(WatchEvent::Polled(Some(HOME))), WatchAction::Wait);
    assert_eq!(
        watch.step(WatchEvent::Polled(Some(CAFE))),
        WatchAction::Rebind(HOME, CAFE)
    );
    assert_eq!(watch.step(WatchEvent::Polled(Some(CAFE))), WatchAction::Wait);
}

#[test]
fn outages_on_the_same_address_do_not_rebind() {
    let mut watch = RouteWatch::new(Some(HOME));
    assert_eq!(watch.step(WatchEvent::Polled(None)), WatchAction::RouteLost);
    assert_eq!(watch.step(WatchEvent::Polled(None)), WatchAction::Wait);
    assert_eq!(
        watch.step(WatchEvent::Polled(Some(HOME))),
        WatchAction::RouteRestored(HOME)
    );
    assert_eq!(watch.step(WatchEvent::Polled(Some(HOME))), WatchAction::Wait);
    assert_eq!(watch.step(WatchEvent::Closed), WatchAction::Stop);
}

#[test]
fn changes_across_an_outage_rebind() {
    let mut watch = RouteWatch::new(Some(HOME));
    assert_eq!(watch.step(WatchEvent::Polled(None)), WatchAction::RouteLost);
    assert_eq!(watch.step(WatchEvent::Polled(None)), WatchAction::Wait);
    assert_eq!(
        watch.step(WatchEvent::Polled(Some(CAFE))),
        WatchAction::Rebind(HOME, CAFE)
    );
    assert_eq!(watch.step(WatchEvent::Polled(Some(CAFE))), WatchAction::Wait);
}

#[test]
fn first_route_is_no_change() {
    let mut watch = RouteWatch::new(None);
    assert_eq!(watch.step(WatchEvent::Polled(None)), WatchAction::Wait);
    assert_eq!(
        watch.step(WatchEvent::Polled(Some(HOME))),
        WatchAction::RouteRestored(HOME)
    );
}

#[test]
fn moved_targets_reset_the_baseline() {
    let mut watch = RouteWatch::new(Some(HOME));
    assert_eq!(watch.step(WatchEvent::TargetMoved(Some(CAFE))), WatchAction::Wait);
    assert_eq!(watch.step(WatchEvent::Polled(Some(CAFE))), WatchAction::Wait);
    assert_eq!(
        watch.step(WatchEvent::Polled(Some(IpAddr::V6(1)))),
        WatchAction::Rebind(CAFE, IpAddr::V6(1))
    );
}

#[test]
fn sockets_are_bound_to_the_family() {
    assert_eq!(wildcard_address(true), "0.0.0.0:0");
    assert_eq!(wildcard_address(false), "[::]:0");
}
