//! The command line, errors, the network path, and the pool.

use vstd::prelude::*;

use crate::discovery::{Listener, SCAN_INTERVAL_SECS};
use crate::error::{join_messages, SpecError};
use crate::forward::{ForwardSpec, IpAddr, NsSpec};
use crate::laws::ports::same_listener;
use crate::laws::{ends_with, lemma_same_ns, same_ns, starts_with};
use crate::netwatch::{
    route_next, watch_action, wildcard_address, Route, RouteWatch, WatchAction, WatchEvent,
    POLL_INTERVAL_SECS,
};
use crate::pool::HelperPool;
use crate::protocol::HelperFailure;
use crate::session::{
    accepts, default_filter, dispatch, parse_specs, run_client, specs_parsed, BadSpec, ClientError,
    Command, Dispatch, RunArgs,
};
use crate::snapshot::{SnapshotEvent, SnapshotState, SnapshotStep};
use crate::text::{debug_quoted, joined, texts};

verus! {

/// The roles run, and the control-socket commands are refused, each for that reason.
pub proof fn subcommands_lead_to_their_roles(command: Command, d: Dispatch)
    requires
        call_ensures(dispatch, (command,), d),
    ensures
        d is RunAgent <==> command == Command::Agent,
        d is RunHelper <==> command == Command::NsHelper,
        d matches Dispatch::Refuse(why) ==> starts_with(why@, "control-socket"@),
{
    reveal_strlit("control-socket");
    reveal_strlit("control-socket subcommands not yet implemented");
    if let Dispatch::Refuse(why) = d {
        assert(why@.subrange(0, 14) =~= "control-socket"@);
    }
}

/// No flag logs what is worth knowing, one flag more, and any further flag
/// everything, of this program only.
pub proof fn flags_raise_the_level(verbose: u8, s: String)
    requires
        call_ensures(default_filter, (verbose,), s),
    ensures
        s@ == if verbose == 0 {
            "portmanager=info"@
        } else if verbose == 1 {
            "portmanager=debug"@
        } else {
            "portmanager=trace"@
        },
{
    reveal_strlit("portmanager=");
    reveal_strlit("info");
    reveal_strlit("debug");
    reveal_strlit("trace");
    reveal_strlit("portmanager=info");
    reveal_strlit("portmanager=debug");
    reveal_strlit("portmanager=trace");
    assert("portmanager="@ + "info"@ =~= "portmanager=info"@);
    assert("portmanager="@ + "debug"@ =~= "portmanager=debug"@);
    assert("portmanager="@ + "trace"@ =~= "portmanager=trace"@);
}

/// All specs are read, in order, one forward for each; or the error carries the
/// first spec that was rejected, with the reason.
pub proof fn specs_are_read_in_order<F: Fn(&String) -> Result<ForwardSpec, SpecError>>(
    specs: &Vec<String>,
    parse: F,
    res: Result<Vec<ForwardSpec>, BadSpec>,
)
    requires
        call_ensures(parse_specs::<F>, (specs, parse), res),
    ensures
        res matches Ok(list) ==> list@.len() == specs@.len() && forall|i: int|
            0 <= i < specs@.len() ==> call_ensures(
                parse,
                (&#[trigger] specs@[i],),
                Ok::<ForwardSpec, SpecError>(list@[i]),
            ),
        res matches Err(e) ==> exists|i: int|
            {
                &&& 0 <= i < specs@.len()
                &&& e.spec@ == (#[trigger] specs@[i])@
                &&& call_ensures(parse, (&specs@[i],), Err::<ForwardSpec, SpecError>(e.cause))
                &&& forall|k: int| 0 <= k < i ==> accepts(parse, #[trigger] specs@[k])
            },
{
    assert(specs_parsed(parse, specs@, res));
    if let Err(e) = res {
        let i = choose|i: int|
            {
                &&& 0 <= i < specs@.len()
                &&& e.spec == #[trigger] specs@[i]
                &&& call_ensures(parse, (&specs@[i],), Err::<ForwardSpec, SpecError>(e.cause))
                &&& forall|k: int| 0 <= k < i ==> accepts(parse, #[trigger] specs@[k])
            };
        assert(e.spec@ == specs@[i]@);
    }
}

/// A spec that is accepted is one that a forward can be made of.
pub proof fn accepted_spec_has_a_forward<F: Fn(&String) -> Result<ForwardSpec, SpecError>>(
    parse: F,
    spec: String,
)
    ensures
        accepts(parse, spec) <==> exists|forward: ForwardSpec| #[trigger]
            call_ensures(parse, (&spec,), Ok::<ForwardSpec, SpecError>(forward)),
{
}

/// Without a host nothing is read. With one, the forwards are all that the specs ask
/// for, and there has to be one, or a profile.
pub proof fn client_gets_what_it_was_asked<F: Fn(&String) -> Result<ForwardSpec, SpecError>>(
    args: &RunArgs,
    parse: F,
    run: (Option<Vec<ForwardSpec>>, ClientError),
)
    requires
        call_ensures(run_client::<F>, (args, parse), run),
    ensures
        args.host is None <==> run.1 is NoHost,
        run.0 is Some <==> run.1 is NotStarted,
        run.0 matches Some(list) ==> {
            &&& list@.len() == args.specs@.len()
            &&& list@.len() > 0 || args.profile is Some
            &&& forall|i: int|
                0 <= i < list@.len() ==> call_ensures(
                    parse,
                    (&#[trigger] args.specs@[i],),
                    Ok::<ForwardSpec, SpecError>(list@[i]),
                )
        },
        run.1 is NoForwards ==> args.specs@.len() == 0 && args.profile is None,
        run.1 matches ClientError::BadSpec(e) ==> exists|i: int|
            {
                &&& 0 <= i < args.specs@.len()
                &&& e.spec@ == (#[trigger] args.specs@[i])@
                &&& call_ensures(parse, (&args.specs@[i],), Err::<ForwardSpec, SpecError>(e.cause))
                &&& forall|k: int| 0 <= k < i ==> accepts(parse, #[trigger] args.specs@[k])
            },
{
    if args.host is Some {
        let parsed = choose|parsed: Result<Vec<ForwardSpec>, BadSpec>| #[trigger]
            specs_parsed(parse, args.specs@, parsed) && run == match parsed {
                Err(e) => (None::<Vec<ForwardSpec>>, ClientError::BadSpec(e)),
                Ok(list) => if list@.len() == 0 && args.profile is None {
                    (None, ClientError::NoForwards)
                } else {
                    (Some(list), ClientError::NotStarted)
                },
            };
        if let Err(e) = parsed {
            let i = choose|i: int|
                {
                    &&& 0 <= i < args.specs@.len()
                    &&& e.spec == #[trigger] args.specs@[i]
                    &&& call_ensures(
                        parse,
                        (&args.specs@[i],),
                        Err::<ForwardSpec, SpecError>(e.cause),
                    )
                    &&& forall|k: int| 0 <= k < i ==> accepts(parse, #[trigger] args.specs@[k])
                };
            assert(e.spec@ == args.specs@[i]@);
        }
    }
}

/// An offending spec is named, quoted, at the end of the message.
pub proof fn offending_spec_is_named(e: &BadSpec, s: String)
    requires
        call_ensures(BadSpec::message, (e,), s),
    ensures
        starts_with(s@, "invalid forward spec "@),
        s@.skip("invalid forward spec "@.len() as int) == debug_quoted(e.spec@),
{
    let lead = "invalid forward spec "@;
    assert(s@.subrange(0, lead.len() as int) =~= lead);
    assert(s@.skip(lead.len() as int) =~= debug_quoted(e.spec@));
}

/// What ends the default action says so; an offending spec is named there too.
pub proof fn end_of_the_client_is_told(e: &ClientError, s: String)
    requires
        call_ensures(ClientError::message, (e,), s),
    ensures
        match *e {
            ClientError::NoHost => starts_with(s@, "no host given"@),
            ClientError::BadSpec(bad) => starts_with(s@, "invalid forward spec "@) && ends_with(
                s@,
                debug_quoted(bad.spec@),
            ),
            ClientError::NoForwards => starts_with(s@, "no forwards given"@),
            ClientError::NotStarted => starts_with(s@, "session start"@),
        },
{
    match *e {
        ClientError::NoHost => {
            reveal_strlit("no host given");
            reveal_strlit("no host given; usage: portmanager <host> <spec>...");
            assert(s@.subrange(0, 13) =~= "no host given"@);
        },
        ClientError::BadSpec(bad) => {
            let lead = "invalid forward spec "@;
            let tail = debug_quoted(bad.spec@);
            assert(s@.subrange(0, lead.len() as int) =~= lead);
            assert(s@.subrange(s@.len() - tail.len(), s@.len() as int) =~= tail);
        },
        ClientError::NoForwards => {
            reveal_strlit("no forwards given");
            reveal_strlit("no forwards given; pass at least one spec or --profile");
            assert(s@.subrange(0, 17) =~= "no forwards given"@);
        },
        ClientError::NotStarted => {
            reveal_strlit("session start");
            reveal_strlit("session start not yet implemented (parsing works)");
            assert(s@.subrange(0, 13) =~= "session start"@);
        },
    }
}

/// A spec error says what kind it is, quotes what is wrong, and ends with the reason,
/// if it has one.
pub proof fn spec_error_quotes_its_subject(e: &SpecError, s: String)
    requires
        call_ensures(SpecError::message, (e,), s),
    ensures
        match *e {
            SpecError::Empty => s@ == "empty forward spec"@,
            SpecError::InvalidPort(port, why) => starts_with(
                s@,
                "invalid port "@ + debug_quoted(port@),
            ) && ends_with(s@, ": "@ + why@) && s@.len() == "invalid port "@.len() + debug_quoted(
                port@,
            ).len() + 2 + why@.len(),
            SpecError::MissingPort(spec) => s@ == "missing port in "@ + debug_quoted(spec@),
            SpecError::BadNamespace(ns, why) => starts_with(
                s@,
                "malformed namespace selector "@ + debug_quoted(ns@),
            ) && ends_with(s@, ": "@ + why@) && s@.len() == "malformed namespace selector "@.len()
                + debug_quoted(ns@).len() + 2 + why@.len(),
            SpecError::Malformed(spec, why) => starts_with(
                s@,
                "malformed forward spec "@ + debug_quoted(spec@),
            ) && ends_with(s@, ": "@ + why@) && s@.len() == "malformed forward spec "@.len()
                + debug_quoted(spec@).len() + 2 + why@.len(),
        },
{
    reveal_strlit(": ");
    match *e {
        SpecError::InvalidPort(port, why) => {
            lemma_complaint(s@, "invalid port "@ + debug_quoted(port@), why@);
        },
        SpecError::BadNamespace(ns, why) => {
            lemma_complaint(s@, "malformed namespace selector "@ + debug_quoted(ns@), why@);
        },
        SpecError::Malformed(spec, why) => {
            lemma_complaint(s@, "malformed forward spec "@ + debug_quoted(spec@), why@);
        },
        _ => {},
    }
}

proof fn lemma_complaint(s: Seq<char>, lead: Seq<char>, why: Seq<char>)
    requires
        s == lead + ": "@ + why,
    ensures
        starts_with(s, lead),
        ends_with(s, ": "@ + why),
{
    let tail = ": "@ + why;
    assert(s =~= lead + tail);
    assert(s.subrange(0, lead.len() as int) =~= lead);
    assert(s.subrange(s.len() - tail.len(), s.len() as int) =~= tail);
}

/// Messages are put together one by one, all of them.
pub proof fn all_messages_are_joined(messages: &Vec<String>, s: String)
    requires
        call_ensures(join_messages, (messages,), s),
    ensures
        exists|list: Seq<Seq<char>>|
            {
                &&& list.len() == messages@.len()
                &&& forall|i: int| 0 <= i < list.len() ==> #[trigger] list[i] == messages@[i]@
                &&& s@ == #[trigger] joined(list, ": "@)
            },
{
    let list = texts(messages@);
    assert(s@ == joined(list, ": "@));
}

/// Only the host selector is the host.
pub proof fn only_the_host_is_the_host(ns: &NsSpec, b: bool)
    requires
        call_ensures(NsSpec::is_host, (ns,), b),
    ensures
        b <==> *ns is Host,
{
}

/// Copies are the same.
pub proof fn copies_are_the_same(
    ns: &NsSpec,
    ns_copy: NsSpec,
    forward: &ForwardSpec,
    forward_copy: ForwardSpec,
    l: &Listener,
    l_copy: Listener,
)
    requires
        call_ensures(<NsSpec as Clone>::clone, (ns,), ns_copy),
        call_ensures(<ForwardSpec as Clone>::clone, (forward,), forward_copy),
        call_ensures(<Listener as Clone>::clone, (l,), l_copy),
    ensures
        same_ns(ns_copy, *ns),
        same_ns(forward_copy.ns, forward.ns),
        forward_copy.remote_host@ == forward.remote_host@,
        forward_copy.remote_port == forward.remote_port,
        forward_copy.local_addr == forward.local_addr,
        forward_copy.local_port == forward.local_port,
        same_listener(l_copy, *l),
{
    lemma_same_ns(ns_copy, *ns);
    lemma_same_ns(forward_copy.ns, forward.ns);
}

/// A socket is bound to all addresses of the target's family, at any port.
pub proof fn wildcard_is_of_the_family(ipv4: bool, s: &'static str)
    requires
        call_ensures(wildcard_address, (ipv4,), s),
    ensures
        s@ == if ipv4 {
            "0.0.0.0:0"@
        } else {
            "[::]:0"@
        },
{
}

/// Whether there is a route is what the last look at it showed, and the loss and the
/// return of the route are told once each.
pub proof fn outage_is_told_once(route: Route, event: WatchEvent)
    ensures
        event matches WatchEvent::Polled(now) ==> route_next(route, event).online == (now is Some),
        event matches WatchEvent::TargetMoved(now) ==> route_next(route, event) == (Route {
            last: now,
            online: now is Some,
        }),
        event is Closed ==> route_next(route, event) == route,
        watch_action(route, event) is RouteLost <==> route.online && event == WatchEvent::Polled(
            None,
        ),
        watch_action(route, event) matches WatchAction::RouteRestored(ip) ==> event
            == WatchEvent::Polled(Some(ip)) && (route.last is None || (route.last == Some(ip)
            && !route.online)),
        watch_action(route, event) is Stop <==> event is Closed,
{
}

/// A watch starts with the address that it is given.
pub proof fn watch_starts_with_the_address(now: Option<IpAddr>, watch: RouteWatch)
    requires
        call_ensures(RouteWatch::new, (now,), watch),
    ensures
        watch@.last == now,
        watch@.online == (now is Some),
{
}

/// A step rebinds exactly on an address that differs from the last one known, and
/// knows the new one from then on.
pub proof fn watch_rebinds_on_a_new_address(
    watch: &mut RouteWatch,
    now: Option<IpAddr>,
    action: WatchAction,
)
    requires
        call_ensures(RouteWatch::step, (watch, WatchEvent::Polled(now)), action),
    ensures
        action matches WatchAction::Rebind(a, b) ==> old(watch)@.last == Some(a) && now == Some(b)
            && a != b,
        old(watch)@.last is Some && now is Some && old(watch)@.last != now ==> action is Rebind,
        final(watch)@.last == if now is Some {
            now
        } else {
            old(watch)@.last
        },
        final(watch)@.online == (now is Some),
{
}

/// A new pool holds nothing.
pub proof fn new_pool_is_empty<H>(pool: HelperPool<H>, key: &str, helper: Option<&H>)
    requires
        call_ensures(HelperPool::<H>::new, (), pool),
        call_ensures(HelperPool::<H>::get, (&pool, key), helper),
    ensures
        helper is None,
{
}

/// Looking finds what is kept, and nothing else.
pub proof fn looking_finds_what_is_kept<H>(pool: &HelperPool<H>, key: &str, helper: Option<&H>)
    requires
        call_ensures(HelperPool::<H>::get, (pool, key), helper),
    ensures
        helper is Some <==> pool@.dom().contains(key@),
        helper matches Some(h) ==> *h == pool@[key@],
{
}

/// Keeping a helper keeps it for its namespace and changes no other.
pub proof fn keeping_changes_one_namespace<H>(
    pool: &mut HelperPool<H>,
    key: String,
    helper: H,
    before: Option<H>,
    other: Seq<char>,
)
    requires
        call_ensures(HelperPool::<H>::insert, (pool, key, helper), before),
    ensures
        final(pool)@.dom().contains(key@) && final(pool)@[key@] == helper,
        other != key@ ==> final(pool)@.dom().contains(other) == old(pool)@.dom().contains(other),
        other != key@ && old(pool)@.dom().contains(other) ==> final(pool)@[other] == old(
            pool,
        )@[other],
        before is Some <==> old(pool)@.dom().contains(key@),
        before matches Some(h) ==> h == old(pool)@[key@],
{
}

/// Evicting a helper takes it out of its namespace and changes no other.
pub proof fn evicting_changes_one_namespace<H>(
    pool: &mut HelperPool<H>,
    key: &str,
    taken: Option<H>,
    other: Seq<char>,
)
    requires
        call_ensures(HelperPool::<H>::remove, (pool, key), taken),
    ensures
        !final(pool)@.dom().contains(key@),
        other != key@ ==> final(pool)@.dom().contains(other) == old(pool)@.dom().contains(other),
        other != key@ && old(pool)@.dom().contains(other) ==> final(pool)@[other] == old(
            pool,
        )@[other],
        taken is Some <==> old(pool)@.dom().contains(key@),
        taken matches Some(h) ==> h == old(pool)@[key@],
{
}

/// A helper that was lost is gone from the pool, and the request is tried again
/// exactly once; one that refused stays, and so do all others.
pub proof fn lost_helper_leaves_the_pool<H>(
    pool: &mut HelperPool<H>,
    key: &str,
    attempt: u32,
    failure: HelperFailure,
    again: bool,
    other: Seq<char>,
)
    requires
        call_ensures(HelperPool::<H>::after_failure, (pool, key, attempt, failure), again),
    ensures
        again <==> attempt == 0 && failure == HelperFailure::Lost,
        failure == HelperFailure::Lost ==> !final(pool)@.dom().contains(key@),
        failure == HelperFailure::Refused || other != key@ ==> final(pool)@.dom().contains(other)
            == old(pool)@.dom().contains(other),
        (failure == HelperFailure::Refused || other != key@) && old(pool)@.dom().contains(other)
            ==> final(pool)@[other] == old(pool)@[other],
{
}

/// Asking for a helper gives the one that is kept for this namespace, or else keeps
/// the one that was spawned for it; no other namespace changes, and nothing changes
/// if none was spawned.
pub proof fn namespace_has_one_helper<H, E, F: FnOnce() -> Result<H, E>>(
    pool: &mut HelperPool<H>,
    key: &str,
    spawn: F,
    res: Result<&H, E>,
    other: Seq<char>,
)
    requires
        call_ensures(HelperPool::<H>::get_or_spawn::<E, F>, (pool, key, spawn), res),
    ensures
        old(pool)@.dom().contains(key@) ==> final(pool)@ == old(pool)@ && (res matches Ok(h) && *h
            == old(pool)@[key@]),
        !old(pool)@.dom().contains(key@) ==> match res {
            Ok(h) => call_ensures(spawn, (), Ok::<H, E>(*h)) && final(pool)@.dom().contains(key@)
                && final(pool)@[key@] == *h,
            Err(e) => call_ensures(spawn, (), Err::<H, E>(e)) && final(pool)@ == old(pool)@,
        },
        other != key@ ==> final(pool)@.dom().contains(other) == old(pool)@.dom().contains(other),
        other != key@ && old(pool)@.dom().contains(other) ==> final(pool)@[other] == old(
            pool,
        )@[other],
{
}

/// The route is checked every two seconds, and the tables every three.
pub proof fn intervals_are_short()
    ensures
        POLL_INTERVAL_SECS == 2,
        SCAN_INTERVAL_SECS == 3,
{
}

/// A snapshot's listeners are considered from the first to the last, and only the
/// stream ends the work.
pub proof fn snapshot_is_worked_through(
    state: SnapshotState,
    event: SnapshotEvent,
    step: SnapshotStep,
)
    requires
        call_ensures(SnapshotState::next, (state, event), step),
    ensures
        step is Over <==> state is Read && event is Ended,
        step is Failed <==> state is Read && event is ReadFailed,
        state is Read && event is Unparsable ==> step == SnapshotStep::Go(SnapshotState::Read),
        state is Read ==> (event matches SnapshotEvent::Parsed(count) ==> step == SnapshotStep::Go(
            if count > 0 {
                SnapshotState::Consider(0, count)
            } else {
                SnapshotState::Read
            },
        )),
        event is Considered ==> (state matches SnapshotState::Consider(at, count) ==> if at + 1
            < count {
            step matches SnapshotStep::Go(SnapshotState::Consider(next, n)) && next == at + 1 && n
                == count
        } else {
            step == SnapshotStep::Go(SnapshotState::Read)
        }),
{
}

} // verus!
