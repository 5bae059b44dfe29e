//! Network-change detection.
//!
//! The route to the agent is polled for the source address that the system would
//! use. When that address changes, the local socket is bound to a dead address
//! and has to be replaced. An outage in between makes no difference: what counts
//! is the last address that was known.

use vstd::prelude::*;

use crate::forward::IpAddr;

verus! {

/// Seconds between two route checks.
pub const POLL_INTERVAL_SECS: u64 = 2;

/// What the watch waits for.
#[derive(Debug, Clone, Copy, PartialEq, Eq, Structural)]
pub enum WatchEvent {
    /// The poll interval is over, and this is the source address now; `None`
    /// where there is no route.
    Polled(Option<IpAddr>),
    /// The agent's address changed, and this is the source address for it.
    TargetMoved(Option<IpAddr>),
    /// The session is over.
    Closed,
}

/// What the watch asks for.
#[derive(Debug, Clone, Copy, PartialEq, Eq, Structural)]
pub enum WatchAction {
    /// Nothing: wait on.
    Wait,
    /// Bind the endpoint to a fresh socket, as the path moved from the first
    /// address to the second.
    Rebind(IpAddr, IpAddr),
    /// The route is back, with the source address that was last known for this
    /// target, if any was: the socket still works.
    RouteRestored(IpAddr),
    /// The route is gone.
    RouteLost,
    /// End the watch.
    Stop,
}

/// What the watch knows of the route.
pub struct Route {
    /// The source address that was last seen on the way to the target.
    pub last: Option<IpAddr>,
    /// Whether there was a route when it was last looked up.
    pub online: bool,
}

/// The route of a target whose source address was looked up for the first time.
pub open spec fn route_of(now: Option<IpAddr>) -> Route {
    Route { last: now, online: now is Some }
}

/// What the watch asks for when the source address was last known as `last`, with
/// a route at the last poll or without, and is `now`.
pub open spec fn poll_action(last: Option<IpAddr>, online: bool, now: Option<IpAddr>) -> WatchAction {
    match (last, now) {
        (Some(a), Some(b)) => if a != b {
            WatchAction::Rebind(a, b)
        } else if !online {
            WatchAction::RouteRestored(b)
        } else {
            WatchAction::Wait
        },
        (None, Some(b)) => WatchAction::RouteRestored(b),
        (_, None) => if online {
            WatchAction::RouteLost
        } else {
            WatchAction::Wait
        },
    }
}

/// What the watch asks for on `event`.
pub open spec fn watch_action(route: Route, event: WatchEvent) -> WatchAction {
    match event {
        WatchEvent::Polled(now) => poll_action(route.last, route.online, now),
        WatchEvent::TargetMoved(_) => WatchAction::Wait,
        WatchEvent::Closed => WatchAction::Stop,
    }
}

/// What the watch knows after `event`: an outage keeps the last known address, and
/// a move of the target starts afresh.
pub open spec fn route_next(route: Route, event: WatchEvent) -> Route {
    match event {
        WatchEvent::Polled(Some(ip)) => Route { last: Some(ip), online: true },
        WatchEvent::Polled(None) => Route { last: route.last, online: false },
        WatchEvent::TargetMoved(now) => route_of(now),
        WatchEvent::Closed => route,
    }
}

/// What the watch knows after a run of events.
pub open spec fn route_after(first: Route, events: Seq<WatchEvent>) -> Route
    decreases events.len(),
{
    if events.len() == 0 {
        first
    } else {
        route_next(route_after(first, events.drop_last()), events.last())
    }
}

/// Watches the source address on the route to the agent.
pub struct RouteWatch {
    last_ip: Option<IpAddr>,
    online: bool,
}

impl View for RouteWatch {
    type V = Route;

    closed spec fn view(&self) -> Route {
        Route { last: self.last_ip, online: self.online }
    }
}

impl RouteWatch {
    /// Starts with the source address as it is now.
    pub fn new(now: Option<IpAddr>) -> (watch: RouteWatch)
        ensures
            watch@ == route_of(now),
    {
        RouteWatch { last_ip: now, online: now.is_some() }
    }

    /// Takes an event and says what to do.
    pub fn step(&mut self, event: WatchEvent) -> (action: WatchAction)
        ensures
            action == watch_action(old(self)@, event),
            final(self)@ == route_next(old(self)@, event),
    {
        match event {
            WatchEvent::Closed => WatchAction::Stop,
            WatchEvent::TargetMoved(now) => {
                self.last_ip = now;
                self.online = now.is_some();
                WatchAction::Wait
            },
            WatchEvent::Polled(None) => {
                let was_online: bool = self.online;
                self.online = false;
                if was_online {
                    WatchAction::RouteLost
                } else {
                    WatchAction::Wait
                }
            },
            WatchEvent::Polled(Some(new)) => {
                let last: Option<IpAddr> = self.last_ip;
                let was_online: bool = self.online;
                self.last_ip = Some(new);
                self.online = true;
                match last {
                    Some(old_ip) => if old_ip != new {
                        WatchAction::Rebind(old_ip, new)
                    } else if !was_online {
                        WatchAction::RouteRestored(new)
                    } else {
                        WatchAction::Wait
                    },
                    None => WatchAction::RouteRestored(new),
                }
            },
        }
    }
}

/// The address that an unconnected UDP socket is bound to when it is to reach a
/// target of this family.
pub open spec fn wildcard(ipv4: bool) -> Seq<char> {
    if ipv4 {
        "0.0.0.0:0"@
    } else {
        "[::]:0"@
    }
}

/// The address that an unconnected UDP socket is bound to when it is to reach a
/// target of this family.
pub fn wildcard_address(ipv4: bool) -> (s: &'static str)
    ensures
        s@ == wildcard(ipv4),
{
    if ipv4 {
        "0.0.0.0:0"
    } else {
        "[::]:0"
    }
}

/// The endpoint is rebound exactly when a poll finds a source address that differs
/// from the one last known for the target.
pub proof fn rebinds_on_change_only(route: Route, event: WatchEvent)
    ensures
        watch_action(route, event) is Rebind <==> {
            &&& event matches WatchEvent::Polled(Some(b))
            &&& route.last matches Some(a)
            &&& a != b
        },
        watch_action(route, event) matches WatchAction::Rebind(a, b) ==> {
            &&& route.last == Some(a)
            &&& event == WatchEvent::Polled(Some(b))
        },
{
}

/// The address last known is the one that was last seen: a poll that finds one and
/// a move of the target replace it, a poll without a route keeps it.
pub proof fn last_known_is_last_seen(first: Route, events: Seq<WatchEvent>, ip: IpAddr, now: Option<IpAddr>)
    ensures
        route_after(first, events.push(WatchEvent::Polled(Some(ip)))).last == Some(ip),
        route_after(first, events.push(WatchEvent::Polled(None))).last == route_after(
            first,
            events,
        ).last,
        route_after(first, events.push(WatchEvent::TargetMoved(now))).last == now,
{
    assert(events.push(WatchEvent::Polled(Some(ip))).drop_last() =~= events);
    assert(events.push(WatchEvent::Polled(None)).drop_last() =~= events);
    assert(events.push(WatchEvent::TargetMoved(now)).drop_last() =~= events);
}

/// What `n` polls without a route leave of a route that had the address `a`.
proof fn lemma_outage(first: Route, a: IpAddr, n: nat)
    ensures
        ({
            let seen = seq![WatchEvent::Polled(Some(a))];
            let outage = Seq::new(n, |i: int| WatchEvent::Polled(None));
            route_after(first, seen + outage) == Route { last: Some(a), online: n == 0 }
        }),
    decreases n,
{
    let seen = seq![WatchEvent::Polled(Some(a))];
    let outage = Seq::new(n, |i: int| WatchEvent::Polled(None));
    if n == 0 {
        assert(seen + outage =~= seen);
        assert(seen.drop_last() =~= Seq::<WatchEvent>::empty());
    } else {
        let shorter = Seq::new((n - 1) as nat, |i: int| WatchEvent::Polled(None));
        lemma_outage(first, a, (n - 1) as nat);
        assert((seen + outage).drop_last() =~= seen + shorter);
    }
}

/// An interface change rebinds, whether or not there was an outage in between:
/// after the address `a`, any number of polls without a route, and then `b`, the
/// endpoint is rebound exactly if `b` is another address. If it is the same, the
/// socket stays, and the end of an outage is noted.
pub proof fn change_across_an_outage_rebinds(first: Route, a: IpAddr, n: nat, b: IpAddr)
    ensures
        ({
            let seen = seq![WatchEvent::Polled(Some(a))];
            let outage = Seq::new(n, |i: int| WatchEvent::Polled(None));
            watch_action(route_after(first, seen + outage), WatchEvent::Polled(Some(b))) == if a
                != b {
                WatchAction::Rebind(a, b)
            } else if n > 0 {
                WatchAction::RouteRestored(b)
            } else {
                WatchAction::Wait
            }
        }),
{
    lemma_outage(first, a, n);
}

/// A move of the target never rebinds, and the poll after it rebinds only if the
/// source address changed since the move.
pub proof fn move_resets_the_baseline(route: Route, moved: Option<IpAddr>, now: Option<IpAddr>)
    ensures
        watch_action(route, WatchEvent::TargetMoved(moved)) == WatchAction::Wait,
        watch_action(
            route_next(route, WatchEvent::TargetMoved(moved)),
            WatchEvent::Polled(now),
        ) == poll_action(moved, moved is Some, now),
{
}

} // verus!
