//! Forwarding a discovered listener.
//!
//! A listener that a rule matches, and that is not forwarded yet, gets a local
//! listener of its own. A remote port keeps its local port across sessions; if
//! that port is taken, the system picks one, which is remembered in turn.

use vstd::prelude::*;

use crate::discovery::{Listener, ListenerView};
use crate::error::{SpecError, SpecErrorView};
use crate::forward::{ForwardSpec, ForwardView, IpAddr, NsSpec, NsView, LOCALHOST};
use crate::text::same_text;

verus! {

/// The host to dial for a socket bound to `ip`: loopback for a socket bound to
/// all addresses.
pub open spec fn dial_host(ip: Seq<char>) -> Seq<char> {
    if ip == "0.0.0.0"@ || ip == "::"@ {
        "127.0.0.1"@
    } else {
        ip
    }
}

/// The local port to ask for: the remembered one; else the remote port, where the
/// rule says `same`; else 0, any.
pub open spec fn preferred_port(assigned: Option<u16>, local: Seq<char>, port: u16) -> u16 {
    match assigned {
        Some(p) => p,
        None => if local == "same"@ {
            port
        } else {
            0
        },
    }
}

/// The forward for the listener `l` in the namespace `ns`, at the local port
/// `local_port`.
pub open spec fn forward_for(l: ListenerView, ns: NsView, local_port: u16) -> ForwardView {
    ForwardView {
        ns,
        remote_host: dial_host(l.ip),
        remote_port: l.port,
        local_addr: IpAddr::V4(LOCALHOST),
        local_port,
    }
}

/// Whether `matches` rejects the first `n` rules.
pub open spec fn rejects_first<R, F: Fn(&R) -> bool>(matches: F, rules: Seq<R>, n: int) -> bool {
    forall|k: int| 0 <= k < n ==> call_ensures(matches, (&#[trigger] rules[k],), false)
}

/// The position of the first rule that `matches` accepts.
pub fn find_rule<R, F: Fn(&R) -> bool>(rules: &Vec<R>, matches: F) -> (at: Option<usize>)
    requires
        forall|rule: &R| call_requires(matches, (rule,)),
    ensures
        match at {
            Some(i) => i < rules@.len() && call_ensures(matches, (&rules@[i as int],), true)
                && rejects_first(matches, rules@, i as int),
            None => rejects_first(matches, rules@, rules@.len() as int),
        },
{
    let mut i: usize = 0;
    while i < rules.len()
        invariant
            i <= rules@.len(),
            forall|rule: &R| call_requires(matches, (rule,)),
            forall|k: int| 0 <= k < i ==> call_ensures(matches, (&#[trigger] rules@[k],), false),
        decreases rules@.len() - i,
    {
        if matches(&rules[i]) {
            return Some(i);
        }
        i = i + 1;
    }
    None
}

/// How far a listener has come.
#[derive(Debug, PartialEq, Eq)]
pub enum ForwardStage {
    /// See whether it is forwarded already.
    Check,
    /// Load what is remembered.
    Load,
    /// Bind this forward.
    Bind(ForwardSpec),
    /// Remember the local port.
    Save(u16),
}

/// A [`ForwardStage`] with its forward as a view.
pub enum ForwardStageView {
    Check,
    Load,
    Bind(ForwardView),
    Save(u16),
}

impl View for ForwardStage {
    type V = ForwardStageView;

    open spec fn view(&self) -> ForwardStageView {
        match *self {
            ForwardStage::Check => ForwardStageView::Check,
            ForwardStage::Load => ForwardStageView::Load,
            ForwardStage::Bind(forward) => ForwardStageView::Bind(forward@),
            ForwardStage::Save(port) => ForwardStageView::Save(port),
        }
    }
}

/// What came of a stage.
#[derive(Debug, PartialEq, Eq)]
pub enum ForwardEvent {
    /// Whether the listener is forwarded already.
    Forwarded(bool),
    /// The local port remembered for it, if any, and its namespace as read from
    /// the wire form.
    Loaded(Option<u16>, Result<NsSpec, SpecError>),
    /// The forward is bound to this local port.
    Bound(u16),
    /// The forward could not be bound.
    BindFailed,
    /// The port was remembered, or remembering it failed, which is only logged.
    Saved,
}

/// A [`ForwardEvent`] with its parts as views.
pub enum ForwardEventView {
    Forwarded(bool),
    Loaded(Option<u16>, Result<NsView, SpecErrorView>),
    Bound(u16),
    BindFailed,
    Saved,
}

impl View for ForwardEvent {
    type V = ForwardEventView;

    open spec fn view(&self) -> ForwardEventView {
        match *self {
            ForwardEvent::Forwarded(b) => ForwardEventView::Forwarded(b),
            ForwardEvent::Loaded(assigned, Ok(ns)) => ForwardEventView::Loaded(assigned, Ok(ns@)),
            ForwardEvent::Loaded(assigned, Err(e)) => ForwardEventView::Loaded(assigned, Err(e@)),
            ForwardEvent::Bound(port) => ForwardEventView::Bound(port),
            ForwardEvent::BindFailed => ForwardEventView::BindFailed,
            ForwardEvent::Saved => ForwardEventView::Saved,
        }
    }
}

/// Why a listener is not forwarded.
#[derive(Debug, PartialEq, Eq)]
pub enum ForwardFailure {
    /// Its namespace cannot be read.
    Namespace(SpecError),
    /// It could not be bound, with the error of the last try.
    Bind,
}

/// A [`ForwardFailure`] with its error as a view.
pub enum ForwardFailureView {
    Namespace(SpecErrorView),
    Bind,
}

impl View for ForwardFailure {
    type V = ForwardFailureView;

    open spec fn view(&self) -> ForwardFailureView {
        match *self {
            ForwardFailure::Namespace(e) => ForwardFailureView::Namespace(e@),
            ForwardFailure::Bind => ForwardFailureView::Bind,
        }
    }
}

/// A listener that a rule asks to forward.
#[derive(Debug, PartialEq, Eq)]
pub struct AutoForward {
    /// The listener.
    pub listener: Listener,
    /// How the rule chooses the local port.
    pub local: String,
    /// How far it has come.
    pub stage: ForwardStage,
}

/// An [`AutoForward`] with its parts as views.
pub struct AutoForwardView {
    pub listener: ListenerView,
    pub local: Seq<char>,
    pub stage: ForwardStageView,
}

impl View for AutoForward {
    type V = AutoForwardView;

    open spec fn view(&self) -> AutoForwardView {
        AutoForwardView {
            listener: self.listener@,
            local: self.local@,
            stage: self.stage@,
        }
    }
}

/// What follows an event.
#[derive(Debug, PartialEq, Eq)]
pub enum ForwardNext {
    /// The next stage.
    Go(AutoForward),
    /// Nothing is left to do.
    Done,
    /// The listener is not forwarded.
    Failed(ForwardFailure),
}

/// A [`ForwardNext`] with its parts as views.
pub enum ForwardNextView {
    Go(AutoForwardView),
    Done,
    Failed(ForwardFailureView),
}

impl View for ForwardNext {
    type V = ForwardNextView;

    open spec fn view(&self) -> ForwardNextView {
        match *self {
            ForwardNext::Go(auto) => ForwardNextView::Go(auto@),
            ForwardNext::Done => ForwardNextView::Done,
            ForwardNext::Failed(why) => ForwardNextView::Failed(why@),
        }
    }
}

impl AutoForwardView {
    /// The same listener at another stage.
    pub open spec fn at(self, stage: ForwardStageView) -> ForwardNextView {
        ForwardNextView::Go(AutoForwardView { stage, ..self })
    }

    /// Whether `event` is what this stage comes to.
    pub open spec fn expects(self, event: ForwardEventView) -> bool {
        match (self.stage, event) {
            (ForwardStageView::Check, ForwardEventView::Forwarded(_)) => true,
            (ForwardStageView::Load, ForwardEventView::Loaded(_, _)) => true,
            (ForwardStageView::Bind(_), ForwardEventView::Bound(_)) => true,
            (ForwardStageView::Bind(_), ForwardEventView::BindFailed) => true,
            (ForwardStageView::Save(_), ForwardEventView::Saved) => true,
            _ => false,
        }
    }

    /// What follows `event`.
    pub open spec fn next(self, event: ForwardEventView) -> ForwardNextView {
        match (self.stage, event) {
            (ForwardStageView::Check, ForwardEventView::Forwarded(already)) => if already {
                ForwardNextView::Done
            } else {
                self.at(ForwardStageView::Load)
            },
            (ForwardStageView::Load, ForwardEventView::Loaded(assigned, Ok(ns))) => self.at(
                ForwardStageView::Bind(
                    forward_for(
                        self.listener,
                        ns,
                        preferred_port(assigned, self.local, self.listener.port),
                    ),
                ),
            ),
            (ForwardStageView::Load, ForwardEventView::Loaded(_, Err(e))) =>
                ForwardNextView::Failed(ForwardFailureView::Namespace(e)),
            (ForwardStageView::Bind(_), ForwardEventView::Bound(port)) => self.at(
                ForwardStageView::Save(port),
            ),
            (ForwardStageView::Bind(forward), ForwardEventView::BindFailed) => if forward.local_port
                != 0 {
                self.at(ForwardStageView::Bind(ForwardView { local_port: 0, ..forward }))
            } else {
                ForwardNextView::Failed(ForwardFailureView::Bind)
            },
            (ForwardStageView::Save(_), ForwardEventView::Saved) => ForwardNextView::Done,
            _ => ForwardNextView::Go(self),
        }
    }
}

impl AutoForward {
    /// Starts with a listener that a rule matches; `local` is how the rule
    /// chooses the local port.
    pub fn new(listener: Listener, local: String) -> (auto: AutoForward)
        ensures
            auto@ == (AutoForwardView {
                listener: listener@,
                local: local@,
                stage: ForwardStageView::Check,
            }),
    {
        AutoForward { listener, local, stage: ForwardStage::Check }
    }

    /// Whether `event` is what this stage comes to.
    pub fn expects(&self, event: &ForwardEvent) -> (b: bool)
        ensures
            b == self@.expects(event@),
    {
        match (&self.stage, event) {
            (ForwardStage::Check, ForwardEvent::Forwarded(_)) => true,
            (ForwardStage::Load, ForwardEvent::Loaded(_, _)) => true,
            (ForwardStage::Bind(_), ForwardEvent::Bound(_)) => true,
            (ForwardStage::Bind(_), ForwardEvent::BindFailed) => true,
            (ForwardStage::Save(_), ForwardEvent::Saved) => true,
            _ => false,
        }
    }

    /// Takes what came of the stage, and goes on or ends.
    pub fn step(self, event: ForwardEvent) -> (next: ForwardNext)
        requires
            self@.expects(event@),
        ensures
            next@ == self@.next(event@),
    {
        let AutoForward { listener, local, stage } = self;
        match (stage, event) {
            (ForwardStage::Check, ForwardEvent::Forwarded(already)) => {
                if already {
                    ForwardNext::Done
                } else {
                    ForwardNext::Go(AutoForward { listener, local, stage: ForwardStage::Load })
                }
            },
            (ForwardStage::Load, ForwardEvent::Loaded(assigned, Ok(ns))) => {
                let remote_host: String = if same_text(listener.ip.as_str(), "0.0.0.0")
                    || same_text(listener.ip.as_str(), "::") {
                    "127.0.0.1".to_string()
                } else {
                    listener.ip.clone()
                };
                let local_port: u16 = match assigned {
                    Some(p) => p,
                    None => if same_text(local.as_str(), "same") {
                        listener.port
                    } else {
                        0
                    },
                };
                let forward: ForwardSpec = ForwardSpec {
                    ns,
                    remote_host,
                    remote_port: listener.port,
                    local_addr: IpAddr::V4(LOCALHOST),
                    local_port,
                };
                ForwardNext::Go(AutoForward { listener, local, stage: ForwardStage::Bind(forward) })
            },
            (ForwardStage::Load, ForwardEvent::Loaded(_, Err(e))) => ForwardNext::Failed(
                ForwardFailure::Namespace(e),
            ),
            (ForwardStage::Bind(_), ForwardEvent::Bound(port)) => ForwardNext::Go(
                AutoForward { listener, local, stage: ForwardStage::Save(port) },
            ),
            (ForwardStage::Bind(forward), ForwardEvent::BindFailed) => {
                if forward.local_port != 0 {
                    let ephemeral: ForwardSpec = ForwardSpec {
                        ns: forward.ns,
                        remote_host: forward.remote_host,
                        remote_port: forward.remote_port,
                        local_addr: forward.local_addr,
                        local_port: 0,
                    };
                    ForwardNext::Go(
                        AutoForward { listener, local, stage: ForwardStage::Bind(ephemeral) },
                    )
                } else {
                    ForwardNext::Failed(ForwardFailure::Bind)
                }
            },
            (ForwardStage::Save(_), ForwardEvent::Saved) => ForwardNext::Done,
            (stage, _) => ForwardNext::Go(AutoForward { listener, local, stage }),
        }
    }
}

/// Where a listener stands after a run of events.
pub open spec fn forward_run(start: AutoForwardView, events: Seq<ForwardEventView>) -> ForwardNextView
    decreases events.len(),
{
    if events.len() == 0 {
        ForwardNextView::Go(start)
    } else {
        match forward_run(start, events.drop_last()) {
            ForwardNextView::Go(auto) => auto.next(events.last()),
            end => end,
        }
    }
}

/// A port that was bound and remembered is the port that is asked for in the next
/// session, whatever the rule says and whatever port was asked for this time.
pub proof fn assignment_is_stable(
    now: AutoForwardView,
    forward: ForwardView,
    bound: u16,
    later: AutoForwardView,
    ns: NsView,
)
    requires
        now.stage == ForwardStageView::Bind(forward),
        later.listener == now.listener,
        later.stage == ForwardStageView::Load,
    ensures
        now.next(ForwardEventView::Bound(bound)) == now.at(ForwardStageView::Save(bound)),
        later.next(ForwardEventView::Loaded(Some(bound), Ok(ns))) == later.at(
            ForwardStageView::Bind(forward_for(now.listener, ns, bound)),
        ),
{
}

/// A collision falls back to a port that the system picks, for the same target,
/// and only once: a second failure ends it, and the port picked is remembered.
pub proof fn collision_falls_back_once(auto: AutoForwardView, forward: ForwardView, picked: u16)
    requires
        auto.stage == ForwardStageView::Bind(forward),
    ensures
        forward.local_port != 0 ==> auto.next(ForwardEventView::BindFailed) == auto.at(
            ForwardStageView::Bind(ForwardView { local_port: 0, ..forward }),
        ),
        forward.local_port == 0 ==> auto.next(ForwardEventView::BindFailed)
            == ForwardNextView::Failed(ForwardFailureView::Bind),
        auto.next(ForwardEventView::BindFailed) matches ForwardNextView::Go(again) ==> {
            &&& again.next(ForwardEventView::BindFailed) == ForwardNextView::Failed(
                ForwardFailureView::Bind,
            )
            &&& again.next(ForwardEventView::Bound(picked)) == again.at(
                ForwardStageView::Save(picked),
            )
        },
{
}

/// A listener that is forwarded already is left alone.
pub proof fn forwarded_is_left_alone(listener: ListenerView, local: Seq<char>)
    ensures
        (AutoForwardView { listener, local, stage: ForwardStageView::Check }).next(
            ForwardEventView::Forwarded(true),
        ) == ForwardNextView::Done,
{
}

/// Whatever happens, every forward that is bound leads to the listener: to its
/// port, to its address or to loopback for a socket bound to all addresses, and
/// it listens on loopback only.
pub proof fn forward_leads_to_the_listener(
    listener: ListenerView,
    local: Seq<char>,
    events: Seq<ForwardEventView>,
)
    ensures
        ({
            let start = AutoForwardView { listener, local, stage: ForwardStageView::Check };
            forward_run(start, events) matches ForwardNextView::Go(auto) ==> {
                &&& auto.listener == listener
                &&& auto.local == local
                &&& auto.stage matches ForwardStageView::Bind(forward) ==> {
                    &&& forward.remote_port == listener.port
                    &&& forward.remote_host == dial_host(listener.ip)
                    &&& forward.local_addr == IpAddr::V4(LOCALHOST)
                }
            }
        }),
    decreases events.len(),
{
    if events.len() > 0 {
        forward_leads_to_the_listener(listener, local, events.drop_last());
    }
}

} // verus!
