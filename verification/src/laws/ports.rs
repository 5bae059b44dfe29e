//! Discovering listeners and forwarding them.

use vstd::prelude::*;

use crate::autoforward::{
    find_rule, forward_run, AutoForward, AutoForwardView, ForwardEvent, ForwardEventView,
    ForwardFailure, ForwardNext, ForwardNextView, ForwardStage, ForwardStageView,
};
use crate::discovery::{
    kept, listeners_in, merge_scans, names_of, parsed_by, scan_tables,
    snapshot_line, watch_line, watch_list, watch_name, watched_namespaces, watched_wire, watched_wires,
    was_found, wires_in, AutoForwardRule, EpochEvent, EpochState, Listener, ListenerView, TcpEntry,
    TcpState,
};
use crate::forward::{IpAddr, NsSpec, NsView};
use crate::laws::{lemma_same_ns, same_ns};
use crate::order::{views, Ranked};
use crate::text::{joined, no_white, text_before, texts, words};

verus! {

/// The namespaces that were accepted.
pub open spec fn accepted<E>() -> spec_fn(Result<NsSpec, E>) -> bool {
    |r: Result<NsSpec, E>| r is Ok
}

/// The namespace of a reading that was accepted.
pub open spec fn namespace<E>() -> spec_fn(Result<NsSpec, E>) -> NsSpec {
    |r: Result<NsSpec, E>| r->Ok_0
}

/// All that was accepted is kept, in order, and nothing else.
pub proof fn kept_is_what_was_accepted<E>(parsed: Seq<Result<NsSpec, E>>)
    ensures
        kept(parsed) == parsed.filter(accepted()).map_values(namespace()),
        kept(parsed).len() == parsed.filter(accepted()).len(),
        forall|i: int|
            0 <= i < parsed.len() && (#[trigger] parsed[i]) is Ok ==> kept(parsed).contains(
                parsed[i]->Ok_0,
            ),
        forall|ns: NsSpec| #[trigger]
            kept(parsed).contains(ns) ==> exists|i: int|
                0 <= i < parsed.len() && #[trigger] parsed[i] == Ok::<NsSpec, E>(ns),
    decreases parsed.len(),
{
    reveal(Seq::filter);
    if parsed.len() == 0 {
        assert(kept(parsed) =~= parsed.filter(accepted()).map_values(namespace()));
    } else {
        let front = parsed.drop_last();
        let last = parsed.last();
        kept_is_what_was_accepted(front);
        assert(parsed[parsed.len() - 1] == last);
        assert(kept(parsed) =~= parsed.filter(accepted()).map_values(namespace()));
        let all = kept(parsed);
        assert forall|i: int| 0 <= i < parsed.len() && (#[trigger] parsed[i]) is Ok implies all.contains(
            parsed[i]->Ok_0,
        ) by {
            if i < front.len() {
                assert(front[i] == parsed[i]);
                assert(kept(front).contains(front[i]->Ok_0));
                let k = choose|k: int|
                    0 <= k < kept(front).len() && kept(front)[k] == front[i]->Ok_0;
                assert(all[k] == front[i]->Ok_0);
            } else {
                assert(all[all.len() - 1] == parsed[i]->Ok_0);
            }
        }
        assert forall|ns: NsSpec| #[trigger] all.contains(ns) implies exists|i: int|
            0 <= i < parsed.len() && #[trigger] parsed[i] == Ok::<NsSpec, E>(ns) by {
            let k = choose|k: int| 0 <= k < all.len() && all[k] == ns;
            if k < kept(front).len() {
                assert(kept(front)[k] == ns);
                assert(kept(front).contains(ns));
                let i = choose|i: int|
                    0 <= i < front.len() && #[trigger] front[i] == Ok::<NsSpec, E>(ns);
                assert(parsed[i] == front[i]);
            } else {
                assert(parsed[parsed.len() - 1] == Ok::<NsSpec, E>(ns));
            }
        }
    }
}

/// Whether `one` is what `from_wire` makes of this word of a watch list, with `host`
/// for the agent's own namespace.
pub open spec fn word_read<E, F: Fn(&String) -> Result<NsSpec, E>>(
    word: Seq<char>,
    from_wire: F,
    one: Result<NsSpec, E>,
) -> bool {
    exists|wire: String|
        {
            &&& #[trigger] call_ensures(from_wire, (&wire,), one)
            &&& word == "host"@ ==> wire@.len() == 0
            &&& word != "host"@ ==> wire@ == word
        }
}

/// Whether `parsed` is what `from_wire` makes of the words of the line, one by one.
pub open spec fn read_from<E, F: Fn(&String) -> Result<NsSpec, E>>(
    line: Seq<char>,
    from_wire: F,
    parsed: Seq<Result<NsSpec, E>>,
) -> bool {
    &&& parsed.len() == words(line).len()
    &&& forall|i: int|
        0 <= i < parsed.len() ==> word_read(words(line)[i], from_wire, #[trigger] parsed[i])
}

/// The agent watches every namespace of the line that can be read, in the order of
/// the line, and no other: as many as were accepted.
pub proof fn every_readable_namespace_is_watched<E, F: Fn(&String) -> Result<NsSpec, E>>(
    line: &str,
    from_wire: F,
    list: Vec<NsSpec>,
)
    requires
        call_ensures(watched_namespaces::<E, F>, (line, from_wire), list),
    ensures
        exists|parsed: Seq<Result<NsSpec, E>>|
            {
                &&& #[trigger] read_from(line@, from_wire, parsed)
                &&& list@ == parsed.filter(accepted()).map_values(namespace())
                &&& list@.len() == parsed.filter(accepted()).len()
                &&& forall|i: int|
                    0 <= i < parsed.len() && (#[trigger] parsed[i]) is Ok ==> list@.contains(
                        parsed[i]->Ok_0,
                    )
                &&& forall|ns: NsSpec| #[trigger]
                    list@.contains(ns) ==> exists|i: int|
                        0 <= i < parsed.len() && #[trigger] parsed[i] == Ok::<NsSpec, E>(ns)
            },
{
    let parsed = choose|parsed: Seq<Result<NsSpec, E>>| #[trigger]
        parsed_by(from_wire, wires_in(line@), parsed) && list@ == kept(parsed);
    kept_is_what_was_accepted(parsed);
    assert forall|i: int| 0 <= i < parsed.len() implies word_read(
        words(line@)[i],
        from_wire,
        #[trigger] parsed[i],
    ) by {
        let wire = choose|wire: String|
            wire@ == wires_in(line@)[i] && call_ensures(from_wire, (&wire,), #[trigger] parsed[i]);
        assert(wires_in(line@)[i] == watched_wire(words(line@)[i]));
        assert(call_ensures(from_wire, (&wire,), parsed[i]));
    }
    assert(read_from(line@, from_wire, parsed));
}

/// The wire forms of a watch list line are its words, one for one, with `host` for
/// the agent's own namespace.
pub proof fn wires_are_the_words(line: &str, wires: Vec<String>)
    requires
        call_ensures(watched_wires, (line,), wires),
    ensures
        wires@.len() == words(line@).len(),
        forall|i: int|
            0 <= i < wires@.len() ==> if words(line@)[i] == "host"@ {
                (#[trigger] wires@[i])@.len() == 0
            } else {
                wires@[i]@ == words(line@)[i]
            },
{
    assert(texts(wires@).len() == wires@.len());
    assert forall|i: int| 0 <= i < wires@.len() implies if words(line@)[i] == "host"@ {
        (#[trigger] wires@[i])@.len() == 0
    } else {
        wires@[i]@ == words(line@)[i]
    } by {
        assert(texts(wires@)[i] == wires@[i]@);
        assert(wires_in(line@)[i] == watched_wire(words(line@)[i]));
    }
}

/// A watch list, sent as a line, names every rule's namespace, by its wire form or as
/// `host`, and no other, as long as no namespace holds white space. There is a list
/// exactly if there are rules.
pub proof fn watch_list_names_the_rules(
    rules: &Vec<AutoForwardRule>,
    list: Option<String>,
    text: &str,
    line: String,
)
    requires
        call_ensures(watch_list, (rules,), list),
        list matches Some(s) ==> text@ == s@,
        call_ensures(watch_line, (text,), line),
        forall|i: int| 0 <= i < rules@.len() ==> no_white((#[trigger] rules@[i]).ns@),
    ensures
        list is None <==> rules@.len() == 0,
        list is Some ==> {
            let w = words(line@);
            &&& line@ == text@ + "\n"@
            &&& w.no_duplicates()
            &&& forall|i: int, j: int|
                0 <= i < j < w.len() ==> text_before(#[trigger] w[i], #[trigger] w[j])
            &&& forall|i: int|
                #![trigger rules@[i]]
                0 <= i < rules@.len() ==> w.contains(
                    if rules@[i].ns@.len() == 0 {
                        "host"@
                    } else {
                        rules@[i].ns@
                    },
                )
            &&& forall|k: int|
                0 <= k < w.len() ==> exists|i: int|
                    0 <= i < rules@.len() && #[trigger] w[k] == (if (
                    #[trigger] rules@[i]).ns@.len() == 0 {
                        "host"@
                    } else {
                        rules@[i].ns@
                    })
        },
{
    if let Some(s) = list {
        let names = choose|names: Seq<Seq<char>>| #[trigger]
            names_of(rules@, names) && s@ == joined(names, " "@);
        crate::discovery::agent_watches_the_rules(rules@, names);
        let w = words(line@);
        assert(w == names);
        assert forall|i: int, j: int| 0 <= i < j < w.len() implies w[i] != w[j] && text_before(
            #[trigger] w[i],
            #[trigger] w[j],
        ) by {
            String::order_is_strict(names[i]);
            assert(String::before(names[i], names[j]));
        }
        assert forall|i: int|
            #![trigger rules@[i]]
            0 <= i < rules@.len() implies w.contains(
            if rules@[i].ns@.len() == 0 {
                "host"@
            } else {
                rules@[i].ns@
            },
        ) by {
            assert(names.contains(watch_name(rules@[i].ns@)));
        }
        assert forall|k: int| 0 <= k < w.len() implies exists|i: int|
            0 <= i < rules@.len() && #[trigger] w[k] == (if (#[trigger] rules@[i]).ns@.len() == 0 {
                "host"@
            } else {
                rules@[i].ns@
            }) by {
            assert(names.contains(names[k]));
            let i = choose|i: int|
                0 <= i < rules@.len() && names[k] == watch_name((#[trigger] rules@[i]).ns@);
            assert(w[k] == watch_name(rules@[i].ns@));
        }
    }
}

/// The sockets that listen.
pub open spec fn listening() -> spec_fn(TcpEntry) -> bool {
    |e: TcpEntry| e.state == TcpState::Listen
}

/// The listening sockets of a table; a table that could not be read has none.
pub open spec fn listening_in(table: Option<Vec<TcpEntry>>) -> Seq<TcpEntry> {
    match table {
        Some(list) => list@.filter(listening()),
        None => Seq::empty(),
    }
}

/// Whether `l` is the listener of this socket in the namespace of this wire form.
pub open spec fn is_listener_of(l: Listener, wire: Seq<char>, e: TcpEntry) -> bool {
    l.ns@ == wire && l.ip@ == e.ip@ && l.port == e.port
}

proof fn lemma_listeners(wire: Seq<char>, entries: Seq<TcpEntry>)
    ensures
        listeners_in(wire, entries) == entries.filter(listening()).map_values(
            |e: TcpEntry| ListenerView { ns: wire, ip: e.ip@, port: e.port },
        ),
    decreases entries.len(),
{
    reveal(Seq::filter);
    let f = |e: TcpEntry| ListenerView { ns: wire, ip: e.ip@, port: e.port };
    if entries.len() > 0 {
        lemma_listeners(wire, entries.drop_last());
    }
    assert(listeners_in(wire, entries) =~= entries.filter(listening()).map_values(f));
}

/// A scan reports exactly the listening sockets of the two tables, one by one, in
/// order, with their addresses and ports, in the namespace that was scanned.
pub proof fn scan_reports_the_listening_sockets(
    wire: &str,
    tcp: &Option<Vec<TcpEntry>>,
    tcp6: &Option<Vec<TcpEntry>>,
    out: Vec<Listener>,
)
    requires
        call_ensures(scan_tables, (wire, tcp, tcp6), out),
    ensures
        ({
            let v4 = listening_in(*tcp);
            let v6 = listening_in(*tcp6);
            &&& out@.len() == v4.len() + v6.len()
            &&& forall|i: int|
                0 <= i < v4.len() ==> is_listener_of(#[trigger] out@[i], wire@, v4[i])
            &&& forall|i: int|
                v4.len() <= i < out@.len() ==> is_listener_of(
                    #[trigger] out@[i],
                    wire@,
                    v6[i - v4.len()],
                )
        }),
{
    reveal(Seq::filter);
    let a = crate::discovery::table_entries(*tcp);
    let b = crate::discovery::table_entries(*tcp6);
    lemma_listeners(wire@, a);
    lemma_listeners(wire@, b);
    let v4 = listening_in(*tcp);
    let v6 = listening_in(*tcp6);
    assert(v4 =~= a.filter(listening()));
    assert(v6 =~= b.filter(listening()));
    let w = views(out@);
    assert(w.len() == out@.len());
    assert forall|i: int| 0 <= i < out@.len() implies (#[trigger] out@[i])@ == w[i] by {}
}

/// Whether two listeners are the same.
pub open spec fn same_listener(a: Listener, b: Listener) -> bool {
    a.ns@ == b.ns@ && a.ip@ == b.ip@ && a.port == b.port
}

/// Whether a list has this listener.
pub open spec fn has_listener(list: Seq<Listener>, l: Listener) -> bool {
    exists|k: int| 0 <= k < list.len() && same_listener(#[trigger] list[k], l)
}

/// Whether a scan found this listener; one that failed found none.
pub open spec fn scan_found(scan: Option<Vec<Listener>>, l: Listener) -> bool {
    match scan {
        Some(list) => has_listener(list@, l),
        None => false,
    }
}

proof fn lemma_has_listener(list: Seq<Listener>, l: Listener)
    ensures
        has_listener(list, l) <==> views(list).contains(l@),
{
    if has_listener(list, l) {
        let k = choose|k: int| 0 <= k < list.len() && same_listener(#[trigger] list[k], l);
        assert(views(list)[k] == l@);
    }
    if views(list).contains(l@) {
        let k = choose|k: int| 0 <= k < views(list).len() && views(list)[k] == l@;
        assert(list[k]@ == l@);
        assert(same_listener(list[k], l));
    }
}

/// A snapshot holds exactly what the scans that succeeded found, each listener once,
/// by namespace, then by address, then by port.
pub proof fn snapshot_holds_what_was_found(scans: Vec<Option<Vec<Listener>>>, out: Vec<Listener>)
    requires
        call_ensures(merge_scans, (scans,), out),
    ensures
        forall|l: Listener| #[trigger]
            has_listener(out@, l) <==> exists|i: int|
                0 <= i < scans@.len() && scan_found(#[trigger] scans@[i], l),
        forall|j: int, m: int|
            0 <= j < m < out@.len() ==> {
                let a = #[trigger] out@[j];
                let b = #[trigger] out@[m];
                ||| text_before(a.ns@, b.ns@)
                ||| a.ns@ == b.ns@ && text_before(a.ip@, b.ip@)
                ||| a.ns@ == b.ns@ && a.ip@ == b.ip@ && a.port < b.port
            },
{
    let v = views(out@);
    assert forall|l: Listener| #[trigger] has_listener(out@, l) <==> exists|i: int|
        0 <= i < scans@.len() && scan_found(#[trigger] scans@[i], l) by {
        lemma_has_listener(out@, l);
        assert(v.contains(l@) <==> was_found(scans@, l@));
        if was_found(scans@, l@) {
            let i = choose|i: int|
                0 <= i < scans@.len() && (#[trigger] scans@[i]) is Some && views(
                    scans@[i]->Some_0@,
                ).contains(l@);
            lemma_has_listener(scans@[i]->Some_0@, l);
            assert(scan_found(scans@[i], l));
        }
        if exists|i: int| 0 <= i < scans@.len() && scan_found(#[trigger] scans@[i], l) {
            let i = choose|i: int| 0 <= i < scans@.len() && scan_found(#[trigger] scans@[i], l);
            lemma_has_listener(scans@[i]->Some_0@, l);
            assert(was_found(scans@, l@));
        }
    }
    assert forall|j: int, m: int| 0 <= j < m < out@.len() implies {
        let a = #[trigger] out@[j];
        let b = #[trigger] out@[m];
        ||| text_before(a.ns@, b.ns@)
        ||| a.ns@ == b.ns@ && text_before(a.ip@, b.ip@)
        ||| a.ns@ == b.ns@ && a.ip@ == b.ip@ && a.port < b.port
    } by {
        assert(v[j] == out@[j]@);
        assert(v[m] == out@[m]@);
        assert(Listener::before(v[j], v[m]));
    }
}

/// A snapshot is sent as it is, with a line feed behind it.
pub proof fn snapshot_is_sent_whole(json: String, line: String)
    requires
        call_ensures(snapshot_line, (json,), line),
    ensures
        line@.len() == json@.len() + 1,
        line@.take(json@.len() as int) == json@,
        line@.last() == '\n',
{
    assert(line@.take(json@.len() as int) =~= json@);
}

/// When discovery looks, runs, and ends.
pub proof fn discovery_runs_on_live_connections(state: EpochState, event: EpochEvent, next: EpochState)
    requires
        call_ensures(EpochState::next, (state, event), next),
    ensures
        next == EpochState::Run <==> (state == EpochState::Look && event == EpochEvent::Looked(true))
            || (state == EpochState::Run && event != EpochEvent::Ended),
        next == EpochState::Look <==> (state == EpochState::Wait && event == EpochEvent::Changed(
            true,
        )) || (state == EpochState::Look && !(event is Looked)),
        next == EpochState::Over <==> state == EpochState::Over || (state == EpochState::Wait
            && event == EpochEvent::Changed(false)),
{
}

/// The first rule that matches counts, and a listener that none matches is left.
pub proof fn first_matching_rule_counts<R, F: Fn(&R) -> bool>(
    rules: &Vec<R>,
    matches: F,
    at: Option<usize>,
)
    requires
        call_ensures(find_rule::<R, F>, (rules, matches), at),
    ensures
        at matches Some(i) ==> i < rules@.len() && call_ensures(
            matches,
            (&rules@[i as int],),
            true,
        ),
        at matches Some(i) ==> forall|k: int|
            0 <= k < i ==> call_ensures(matches, (&#[trigger] rules@[k],), false),
        at is None ==> forall|k: int|
            0 <= k < rules@.len() ==> call_ensures(matches, (&#[trigger] rules@[k],), false),
{
}

/// What a step makes of what came of a stage. A forward carries the namespace that
/// was read, whatever kind it is, leads to the listener's port at its address, or at
/// loopback for a socket bound to all addresses, and listens on loopback, at the
/// remembered port, else at the same port if the rule says so, else at any. A
/// collision changes the local port to any and nothing else; a second one ends it.
pub proof fn steps_of_an_auto_forward(auto: AutoForward, event: ForwardEvent, next: ForwardNext)
    requires
        call_ensures(AutoForward::step, (auto, event), next),
        auto@.expects(event@),
    ensures
        next matches ForwardNext::Go(later) ==> same_listener(later.listener, auto.listener)
            && later.local@ == auto.local@,
        match (auto.stage, event, next) {
            (ForwardStage::Check, ForwardEvent::Forwarded(true), ForwardNext::Done) => true,
            (ForwardStage::Check, ForwardEvent::Forwarded(false), ForwardNext::Go(later)) =>
                later.stage is Load,
            (ForwardStage::Load, ForwardEvent::Loaded(assigned, Ok(ns)), ForwardNext::Go(later)) =>
                later.stage matches ForwardStage::Bind(forward) && {
                let ip = auto.listener.ip@;
                &&& same_ns(forward.ns, ns)
                &&& forward.remote_port == auto.listener.port
                &&& ip == "0.0.0.0"@ || ip == "::"@ ==> forward.remote_host@ == "127.0.0.1"@
                &&& ip != "0.0.0.0"@ && ip != "::"@ ==> forward.remote_host@ == ip
                &&& forward.local_addr == IpAddr::V4(0x7f00_0001)
                &&& assigned matches Some(port) ==> forward.local_port == port
                &&& assigned is None && auto.local@ == "same"@ ==> forward.local_port
                    == auto.listener.port
                &&& assigned is None && auto.local@ != "same"@ ==> forward.local_port == 0
            },
            (
                ForwardStage::Load,
                ForwardEvent::Loaded(_, Err(e)),
                ForwardNext::Failed(ForwardFailure::Namespace(why)),
            ) => why@ == e@,
            (ForwardStage::Bind(_), ForwardEvent::Bound(port), ForwardNext::Go(later)) =>
                later.stage matches ForwardStage::Save(p) && p == port,
            (ForwardStage::Bind(forward), ForwardEvent::BindFailed, ForwardNext::Go(later)) =>
                forward.local_port != 0 && (later.stage matches ForwardStage::Bind(again)
                && same_ns(again.ns, forward.ns) && again.remote_host@ == forward.remote_host@
                && again.remote_port == forward.remote_port && again.local_addr
                == forward.local_addr && again.local_port == 0),
            (
                ForwardStage::Bind(forward),
                ForwardEvent::BindFailed,
                ForwardNext::Failed(ForwardFailure::Bind),
            ) => forward.local_port == 0,
            (ForwardStage::Save(_), ForwardEvent::Saved, ForwardNext::Done) => true,
            _ => false,
        },
{
    match (auto.stage, event, next) {
        (ForwardStage::Load, ForwardEvent::Loaded(_, Ok(ns)), ForwardNext::Go(later)) => {
            if let ForwardStage::Bind(forward) = later.stage {
                lemma_same_ns(forward.ns, ns);
            }
        },
        (ForwardStage::Bind(forward), ForwardEvent::BindFailed, ForwardNext::Go(later)) => {
            if let ForwardStage::Bind(again) = later.stage {
                lemma_same_ns(again.ns, forward.ns);
            }
        },
        _ => {},
    }
}

/// Each stage is met by what it comes to: any answer to the check, whatever was
/// loaded, any port or a failure, and the end of saving.
pub proof fn stage_is_met_by_what_it_comes_to(auto: AutoForward, event: ForwardEvent, b: bool)
    requires
        call_ensures(AutoForward::expects, (&auto, &event), b),
    ensures
        b == auto@.expects(event@),
        b <==> match (auto.stage, event) {
            (ForwardStage::Check, ForwardEvent::Forwarded(_)) => true,
            (ForwardStage::Load, ForwardEvent::Loaded(_, _)) => true,
            (ForwardStage::Bind(_), ForwardEvent::Bound(_)) => true,
            (ForwardStage::Bind(_), ForwardEvent::BindFailed) => true,
            (ForwardStage::Save(_), ForwardEvent::Saved) => true,
            _ => false,
        },
{
}

/// A listener starts out to be checked.
pub proof fn auto_forward_starts_with_the_listener(
    listener: Listener,
    local: String,
    auto: AutoForward,
)
    requires
        call_ensures(AutoForward::new, (listener, local), auto),
    ensures
        same_listener(auto.listener, listener),
        auto.local@ == local@,
        auto.stage is Check,
{
}

/// Whether some reading among the events gave this namespace.
pub open spec fn was_read(events: Seq<ForwardEventView>, ns: NsView) -> bool {
    exists|i: int|
        0 <= i < events.len() && (#[trigger] events[i] matches ForwardEventView::Loaded(_, Ok(read))
            && read == ns)
}

/// In every run, a forward that is to be bound, on the first try or after a
/// collision, carries a namespace that was read from the listener's wire form, and a
/// port that is remembered is one that was bound.
pub proof fn forward_stays_in_the_namespace(
    listener: ListenerView,
    local: Seq<char>,
    events: Seq<ForwardEventView>,
)
    ensures
        ({
            let start = AutoForwardView { listener, local, stage: ForwardStageView::Check };
            forward_run(start, events) matches ForwardNextView::Go(auto) ==> {
                &&& auto.stage matches ForwardStageView::Bind(forward) ==> was_read(
                    events,
                    forward.ns,
                )
                &&& auto.stage matches ForwardStageView::Save(port) ==> events.contains(
                    ForwardEventView::Bound(port),
                )
            }
        }),
    decreases events.len(),
{
    if events.len() > 0 {
        let start = AutoForwardView { listener, local, stage: ForwardStageView::Check };
        let front = events.drop_last();
        let last = events.last();
        forward_stays_in_the_namespace(listener, local, front);
        assert(events[events.len() - 1] == last);
        assert forall|ns: NsView| was_read(front, ns) implies was_read(events, ns) by {
            let i = choose|i: int|
                0 <= i < front.len() && (#[trigger] front[i] matches ForwardEventView::Loaded(
                    _,
                    Ok(read),
                ) && read == ns);
            assert(events[i] == front[i]);
        }
        assert forall|e: ForwardEventView| front.contains(e) implies events.contains(e) by {
            let i = choose|i: int| 0 <= i < front.len() && front[i] == e;
            assert(events[i] == e);
        }
        if let ForwardEventView::Loaded(_, Ok(ns)) = last {
            assert(was_read(events, ns));
        }
        assert(events.contains(last));
    }
}

} // verus!
