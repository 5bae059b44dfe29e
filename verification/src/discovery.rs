//! Listening-port discovery.
//!
//! The client names the namespaces to watch. The agent scans their TCP tables
//! and sends snapshots of the listeners found. The client forwards a listener
//! that one of its rules asks for, under a local port that stays the same from
//! session to session.

use vstd::prelude::*;

use crate::forward::{NsSpec, StreamHeader};
use crate::order::{insert_sorted, sorted, sorted_list_is_determined, views, Ranked};
use crate::text::{
    is_before, join, joined, no_white, same_text, split_words, text_before, text_order_is_strict,
    text_order_is_total, text_order_is_transitive, texts, words, words_of_joined,
};

verus! {

/// Reserved stream-header host marking a discovery stream.
pub const DISCOVERY_HOST: &'static str = "@discovery";

/// Seconds between two scans on the agent.
pub const SCAN_INTERVAL_SECS: u64 = 3;

/// One discovered listener.
#[derive(Debug, PartialEq, Eq, PartialOrd, Ord)]
pub struct Listener {
    /// Namespace wire form (`""` = host).
    pub ns: String,
    /// Address the socket is bound to inside that namespace.
    pub ip: String,
    /// Port it listens on.
    pub port: u16,
}

/// A [`Listener`] with its strings as character sequences.
pub struct ListenerView {
    pub ns: Seq<char>,
    pub ip: Seq<char>,
    pub port: u16,
}

impl View for Listener {
    type V = ListenerView;

    open spec fn view(&self) -> ListenerView {
        ListenerView { ns: self.ns@, ip: self.ip@, port: self.port }
    }
}

impl Clone for Listener {
    fn clone(&self) -> (listener: Listener)
        ensures
            listener@ == self@,
    {
        Listener { ns: self.ns.clone(), ip: self.ip.clone(), port: self.port }
    }
}

impl Ranked for Listener {
    /// Listeners are ordered by namespace, then by address, then by port.
    open spec fn before(a: ListenerView, b: ListenerView) -> bool {
        if a.ns != b.ns {
            text_before(a.ns, b.ns)
        } else if a.ip != b.ip {
            text_before(a.ip, b.ip)
        } else {
            a.port < b.port
        }
    }

    proof fn order_is_total(a: ListenerView, b: ListenerView) {
        text_order_is_total(a.ns, b.ns);
        text_order_is_total(a.ip, b.ip);
    }

    proof fn order_is_transitive(a: ListenerView, b: ListenerView, c: ListenerView) {
        if a.ns != b.ns && b.ns != c.ns {
            text_order_is_transitive(a.ns, b.ns, c.ns);
            text_order_is_strict(a.ns);
        } else if a.ns == b.ns && b.ns == c.ns && a.ip != b.ip && b.ip != c.ip {
            text_order_is_transitive(a.ip, b.ip, c.ip);
            text_order_is_strict(a.ip);
        }
    }

    proof fn order_is_strict(a: ListenerView) {
    }

    fn precedes(&self, other: &Listener) -> (r: bool) {
        if !same_text(self.ns.as_str(), other.ns.as_str()) {
            is_before(self.ns.as_str(), other.ns.as_str())
        } else if !same_text(self.ip.as_str(), other.ip.as_str()) {
            is_before(self.ip.as_str(), other.ip.as_str())
        } else {
            self.port < other.port
        }
    }
}

/// The state of a TCP socket.
#[derive(Debug, Clone, Copy, PartialEq, Eq, Structural)]
pub enum TcpState {
    Established,
    SynSent,
    SynRecv,
    FinWait1,
    FinWait2,
    TimeWait,
    Close,
    CloseWait,
    LastAck,
    Listen,
    Closing,
    NewSynRecv,
}

/// One line of a TCP table: a socket's state and its local address.
#[derive(Debug, PartialEq, Eq)]
pub struct TcpEntry {
    pub state: TcpState,
    pub ip: String,
    pub port: u16,
}

/// The entries of a table; a table that could not be read has none.
pub open spec fn table_entries(table: Option<Vec<TcpEntry>>) -> Seq<TcpEntry> {
    match table {
        Some(list) => list@,
        None => Seq::empty(),
    }
}

/// The listeners among `entries`, in order, in the namespace of wire form `wire`.
pub open spec fn listeners_in(wire: Seq<char>, entries: Seq<TcpEntry>) -> Seq<ListenerView>
    decreases entries.len(),
{
    if entries.len() == 0 {
        Seq::empty()
    } else {
        let front = listeners_in(wire, entries.drop_last());
        let e = entries.last();
        if e.state == TcpState::Listen {
            front.push(ListenerView { ns: wire, ip: e.ip@, port: e.port })
        } else {
            front
        }
    }
}

/// Appends the listeners among `entries` to `out`.
fn collect_listeners(wire: &str, entries: &Vec<TcpEntry>, out: &mut Vec<Listener>)
    ensures
        views(final(out)@) == views(old(out)@) + listeners_in(wire@, entries@),
{
    let ghost before = views(out@);
    let mut i: usize = 0;
    proof {
        assert(entries@.take(0) =~= Seq::<TcpEntry>::empty());
        assert(before + listeners_in(wire@, entries@.take(0)) =~= before);
    }
    while i < entries.len()
        invariant
            i <= entries@.len(),
            views(out@) == before + listeners_in(wire@, entries@.take(i as int)),
        decreases entries@.len() - i,
    {
        let ghost held = out@;
        let ghost front = listeners_in(wire@, entries@.take(i as int));
        proof {
            assert(entries@.take(i + 1).drop_last() =~= entries@.take(i as int));
            assert(entries@.take(i + 1).last() == entries@[i as int]);
        }
        if entries[i].state == TcpState::Listen {
            let found: Listener = Listener {
                ns: wire.to_string(),
                ip: entries[i].ip.clone(),
                port: entries[i].port,
            };
            let ghost v = found@;
            out.push(found);
            proof {
                assert(views(out@) =~= views(held).push(v));
                assert(before + front.push(v) =~= (before + front).push(v));
            }
        }
        i = i + 1;
    }
    proof {
        assert(entries@.take(i as int) =~= entries@);
    }
}

/// The listeners that the IPv4 and the IPv6 table of one namespace show, in the
/// order of the tables. A table that could not be read shows none.
pub fn scan_tables(wire: &str, tcp: &Option<Vec<TcpEntry>>, tcp6: &Option<Vec<TcpEntry>>) -> (out: Vec<
    Listener,
>)
    ensures
        views(out@) == listeners_in(wire@, table_entries(*tcp)) + listeners_in(
            wire@,
            table_entries(*tcp6),
        ),
{
    let mut out: Vec<Listener> = Vec::new();
    match tcp {
        Some(list) => collect_listeners(wire, list, &mut out),
        None => {},
    }
    proof {
        assert(views(out@) =~= listeners_in(wire@, table_entries(*tcp)));
    }
    match tcp6 {
        Some(list) => collect_listeners(wire, list, &mut out),
        None => {},
    }
    proof {
        assert(views(out@) =~= listeners_in(wire@, table_entries(*tcp)) + listeners_in(
            wire@,
            table_entries(*tcp6),
        ));
    }
    out
}

/// Whether one of the scans that succeeded found `l`.
pub open spec fn was_found(scans: Seq<Option<Vec<Listener>>>, l: ListenerView) -> bool {
    exists|i: int|
        0 <= i < scans.len() && (#[trigger] scans[i]) is Some && views(scans[i]->Some_0@).contains(l)
}

/// The snapshot of several namespace scans: every listener found, once, in
/// order. A scan that failed is skipped.
pub fn merge_scans(scans: Vec<Option<Vec<Listener>>>) -> (out: Vec<Listener>)
    ensures
        sorted::<Listener>(views(out@)),
        forall|l: ListenerView| #[trigger] views(out@).contains(l) <==> was_found(scans@, l),
{
    let mut out: Vec<Listener> = Vec::new();
    let mut i: usize = 0;
    while i < scans.len()
        invariant
            i <= scans@.len(),
            sorted::<Listener>(views(out@)),
            forall|l: ListenerView| #[trigger]
                views(out@).contains(l) <==> was_found(scans@.take(i as int), l),
        decreases scans@.len() - i,
    {
        let ghost done = scans@.take(i as int);
        let ghost held = views(out@);
        proof {
            assert forall|l: ListenerView| was_found(scans@.take(i + 1), l) <==> was_found(done, l)
                || (scans@[i as int] is Some && views(scans@[i as int]->Some_0@).contains(l)) by {
                let more = scans@.take(i + 1);
                if was_found(more, l) {
                    let k = choose|k: int|
                        0 <= k < more.len() && (#[trigger] more[k]) is Some && views(
                            more[k]->Some_0@,
                        ).contains(l);
                    if k < i {
                        assert(done[k] == more[k]);
                    }
                }
                if was_found(done, l) {
                    let k = choose|k: int|
                        0 <= k < done.len() && (#[trigger] done[k]) is Some && views(
                            done[k]->Some_0@,
                        ).contains(l);
                    assert(more[k] == done[k]);
                }
                assert(more[i as int] == scans@[i as int]);
            }
        }
        match &scans[i] {
            Some(found) => {
                let mut j: usize = 0;
                while j < found.len()
                    invariant
                        j <= found@.len(),
                        sorted::<Listener>(views(out@)),
                        forall|l: ListenerView| #[trigger]
                            views(out@).contains(l) <==> held.contains(l) || views(
                                found@.take(j as int),
                            ).contains(l),
                    decreases found@.len() - j,
                {
                    let ghost some = views(found@.take(j as int));
                    let ghost next = found@[j as int]@;
                    insert_sorted(&mut out, found[j].clone());
                    j = j + 1;
                    proof {
                        let more = views(found@.take(j as int));
                        assert(more =~= some.push(next));
                        assert forall|l: ListenerView| more.contains(l) <==> some.contains(l) || l
                            == next by {
                            if some.contains(l) {
                                let k = choose|k: int| 0 <= k < some.len() && some[k] == l;
                                assert(more[k] == l);
                            }
                            assert(more[more.len() - 1] == next);
                        }
                    }
                }
                proof {
                    assert(found@.take(j as int) =~= found@);
                }
            },
            None => {},
        }
        i = i + 1;
    }
    proof {
        assert(scans@.take(i as int) =~= scans@);
    }
    out
}

/// The snapshot does not depend on how the scans are split up or in which order
/// they come: two runs of scans that found the same listeners have the same
/// snapshot.
pub proof fn snapshot_is_determined(
    a: Seq<Option<Vec<Listener>>>,
    snapshot_a: Seq<ListenerView>,
    b: Seq<Option<Vec<Listener>>>,
    snapshot_b: Seq<ListenerView>,
)
    requires
        sorted::<Listener>(snapshot_a),
        forall|l: ListenerView| #[trigger] snapshot_a.contains(l) <==> was_found(a, l),
        sorted::<Listener>(snapshot_b),
        forall|l: ListenerView| #[trigger] snapshot_b.contains(l) <==> was_found(b, l),
        forall|l: ListenerView| was_found(a, l) <==> was_found(b, l),
    ensures
        snapshot_a == snapshot_b,
{
    assert forall|l: ListenerView| snapshot_a.contains(l) <==> snapshot_b.contains(l) by {
        assert(was_found(a, l) <==> was_found(b, l));
    }
    sorted_list_is_determined::<Listener>(snapshot_a, snapshot_b);
}

/// What an auto-forward rule says, apart from the ports that it matches.
#[derive(Debug, PartialEq, Eq)]
pub struct AutoForwardRule {
    /// Wire form of the namespace that the rule is about (`""` = host).
    pub ns: String,
    /// How the local port is chosen; `same` asks for the remote port.
    pub local: String,
}

/// How a watch list names the namespace of wire form `ns`.
pub open spec fn watch_name(ns: Seq<char>) -> Seq<char> {
    if ns.len() == 0 {
        "host"@
    } else {
        ns
    }
}

/// The wire form of the namespace that a watch list calls `name`.
pub open spec fn watched_wire(name: Seq<char>) -> Seq<char> {
    if name == "host"@ {
        Seq::empty()
    } else {
        name
    }
}

/// Whether `names` are the names of the namespaces that the rules are about, each
/// once, in order.
pub open spec fn names_of(rules: Seq<AutoForwardRule>, names: Seq<Seq<char>>) -> bool {
    &&& sorted::<String>(names)
    &&& forall|name: Seq<char>| #[trigger]
        names.contains(name) <==> exists|i: int|
            0 <= i < rules.len() && name == watch_name((#[trigger] rules[i]).ns@)
}

/// The wire forms that a watch list line names, in order.
pub open spec fn wires_in(line: Seq<char>) -> Seq<Seq<char>> {
    words(line).map_values(|name: Seq<char>| watched_wire(name))
}

/// The watch list for the rules: the union of the namespaces that they name. With
/// no rules there is nothing to discover, and no list.
pub fn watch_list(rules: &Vec<AutoForwardRule>) -> (list: Option<String>)
    ensures
        list is None <==> rules@.len() == 0,
        list matches Some(s) ==> exists|names: Seq<Seq<char>>| #[trigger]
            names_of(rules@, names) && s@ == joined(names, " "@),
{
    if rules.len() == 0 {
        return None;
    }
    let mut names: Vec<String> = Vec::new();
    let mut i: usize = 0;
    while i < rules.len()
        invariant
            i <= rules@.len(),
            names_of(rules@.take(i as int), views(names@)),
        decreases rules@.len() - i,
    {
        let name: String = if rules[i].ns.as_str().is_empty() {
            "host".to_string()
        } else {
            rules[i].ns.clone()
        };
        let ghost done = rules@.take(i as int);
        let ghost held = views(names@);
        let ghost new = name@;
        insert_sorted(&mut names, name);
        i = i + 1;
        proof {
            let more = rules@.take(i as int);
            let now = views(names@);
            assert(new == watch_name(rules@[i - 1].ns@));
            assert forall|n: Seq<char>| #[trigger]
                now.contains(n) <==> exists|k: int|
                    0 <= k < more.len() && n == watch_name((#[trigger] more[k]).ns@) by {
                if now.contains(n) {
                    if n == new {
                        assert(more[i - 1] == rules@[i - 1]);
                    } else {
                        assert(held.contains(n));
                        let k = choose|k: int|
                            0 <= k < done.len() && n == watch_name((#[trigger] done[k]).ns@);
                        assert(more[k] == done[k]);
                    }
                }
                if exists|k: int| 0 <= k < more.len() && n == watch_name((#[trigger] more[k]).ns@) {
                    let k = choose|k: int|
                        0 <= k < more.len() && n == watch_name((#[trigger] more[k]).ns@);
                    if k < i - 1 {
                        assert(done[k] == more[k]);
                        assert(held.contains(n));
                    } else {
                        assert(n == new);
                    }
                }
            }
        }
    }
    proof {
        assert(rules@.take(i as int) =~= rules@);
        assert(views(names@) =~= texts(names@));
        assert(names_of(rules@, texts(names@)));
    }
    Some(join(&names, " "))
}

/// The line that sends a watch list.
pub fn watch_line(list: &str) -> (line: String)
    ensures
        line@ == list@ + "\n"@,
{
    let mut line: String = list.to_string();
    line.append("\n");
    line
}

/// The header that opens a discovery stream.
pub fn discovery_header() -> (header: StreamHeader)
    ensures
        header.ns@ == Seq::<char>::empty(),
        header.host@ == "@discovery"@,
        header.port == 0,
{
    StreamHeader { ns: String::new(), host: DISCOVERY_HOST.to_string(), port: 0 }
}

/// The line that sends a snapshot, given as JSON.
pub fn snapshot_line(json: String) -> (line: String)
    ensures
        line@ == json@.push('\n'),
{
    let mut line: String = json;
    line.push('\n');
    line
}

/// The wire forms that a watch list line names, in order.
pub fn watched_wires(line: &str) -> (wires: Vec<String>)
    ensures
        texts(wires@) == wires_in(line@),
{
    let names: Vec<String> = split_words(line);
    let mut wires: Vec<String> = Vec::new();
    let mut i: usize = 0;
    proof {
        assert(texts(names@).len() == names@.len());
    }
    while i < names.len()
        invariant
            i <= names@.len(),
            texts(names@) == words(line@),
            names@.len() == words(line@).len(),
            texts(wires@) == wires_in(line@).take(i as int),
        decreases names@.len() - i,
    {
        let wire: String = if same_text(names[i].as_str(), "host") {
            String::new()
        } else {
            names[i].clone()
        };
        let ghost held = texts(wires@);
        let ghost w = wire@;
        proof {
            assert(texts(names@)[i as int] == names@[i as int]@);
            assert(w =~= watched_wire(names@[i as int]@));
        }
        wires.push(wire);
        i = i + 1;
        proof {
            assert(texts(wires@) =~= held.push(w));
            assert(wires_in(line@).take(i as int) =~= held.push(w));
        }
    }
    proof {
        assert(wires_in(line@).take(i as int) =~= wires_in(line@));
    }
    wires
}

/// The values among `parsed` that are there, in order.
pub open spec fn kept<E>(parsed: Seq<Result<NsSpec, E>>) -> Seq<NsSpec>
    decreases parsed.len(),
{
    if parsed.len() == 0 {
        Seq::empty()
    } else {
        match parsed.last() {
            Ok(ns) => kept(parsed.drop_last()).push(ns),
            Err(_) => kept(parsed.drop_last()),
        }
    }
}

/// Whether `parsed` is what `from_wire` makes of the wire forms, one by one.
pub open spec fn parsed_by<E, F: Fn(&String) -> Result<NsSpec, E>>(
    from_wire: F,
    wires: Seq<Seq<char>>,
    parsed: Seq<Result<NsSpec, E>>,
) -> bool {
    &&& parsed.len() == wires.len()
    &&& forall|i: int|
        0 <= i < parsed.len() ==> exists|wire: String|
            wire@ == wires[i] && call_ensures(from_wire, (&wire,), #[trigger] parsed[i])
}

/// The namespaces that a watch list line asks for: `from_wire` reads each wire
/// form, and those that it rejects are left out.
pub fn watched_namespaces<E, F: Fn(&String) -> Result<NsSpec, E>>(line: &str, from_wire: F) -> (list:
    Vec<NsSpec>)
    requires
        forall|wire: &String| call_requires(from_wire, (wire,)),
    ensures
        exists|parsed: Seq<Result<NsSpec, E>>| #[trigger]
            parsed_by(from_wire, wires_in(line@), parsed) && list@ == kept(parsed),
{
    let wires: Vec<String> = watched_wires(line);
    let mut list: Vec<NsSpec> = Vec::new();
    let ghost mut parsed: Seq<Result<NsSpec, E>> = Seq::empty();
    let mut i: usize = 0;
    proof {
        assert(texts(wires@).len() == wires@.len());
    }
    while i < wires.len()
        invariant
            i <= wires@.len(),
            texts(wires@) == wires_in(line@),
            forall|wire: &String| call_requires(from_wire, (wire,)),
            parsed.len() == i,
            list@ == kept(parsed),
            forall|k: int|
                0 <= k < parsed.len() ==> exists|wire: String|
                    wire@ == wires_in(line@)[k] && call_ensures(
                        from_wire,
                        (&wire,),
                        #[trigger] parsed[k],
                    ),
        decreases wires@.len() - i,
    {
        let wire: &String = &wires[i];
        let one: Result<NsSpec, E> = from_wire(wire);
        let ghost held = parsed;
        proof {
            assert(texts(wires@)[i as int] == wire@);
            parsed = held.push(one);
            assert(parsed.drop_last() =~= held);
            assert forall|k: int| 0 <= k < parsed.len() implies exists|w: String|
                w@ == wires_in(line@)[k] && call_ensures(
                    from_wire,
                    (&w,),
                    #[trigger] parsed[k],
                ) by {
                if k < i {
                    assert(parsed[k] == held[k]);
                } else {
                    assert(wire@ == wires_in(line@)[k]);
                }
            }
        }
        match one {
            Ok(ns) => list.push(ns),
            Err(_) => {},
        }
        i = i + 1;
    }
    proof {
        assert(parsed_by(from_wire, wires_in(line@), parsed));
    }
    list
}

/// The agent watches what the rules are about: a watch list, sent as a line, is
/// read back as the wire forms of the rules' namespaces, each once, as long as no
/// namespace holds white space. A namespace whose wire form is `host` is taken
/// for the agent's own.
pub proof fn agent_watches_the_rules(rules: Seq<AutoForwardRule>, names: Seq<Seq<char>>)
    requires
        names_of(rules, names),
        forall|i: int| 0 <= i < rules.len() ==> no_white((#[trigger] rules[i]).ns@),
    ensures
        words(joined(names, " "@) + "\n"@) == names,
        forall|wire: Seq<char>| #[trigger]
            wires_in(joined(names, " "@) + "\n"@).contains(wire) <==> exists|i: int|
                0 <= i < rules.len() && wire == watched_wire(watch_name((#[trigger] rules[i]).ns@)),
        wires_in(joined(names, " "@) + "\n"@).no_duplicates(),
        forall|ns: Seq<char>| ns != "host"@ ==> #[trigger] watched_wire(watch_name(ns)) == ns,
{
    reveal_strlit("host");
    assert(no_white("host"@));
    assert forall|i: int| 0 <= i < names.len() implies (#[trigger] names[i]).len() > 0 && no_white(
        names[i],
    ) by {
        assert(names.contains(names[i]));
        let k = choose|k: int|
            0 <= k < rules.len() && names[i] == watch_name((#[trigger] rules[k]).ns@);
        assert(no_white(rules[k].ns@));
    }
    words_of_joined(names);
    let wires = wires_in(joined(names, " "@) + "\n"@);
    assert forall|wire: Seq<char>| #[trigger] wires.contains(wire) <==> exists|i: int|
        0 <= i < rules.len() && wire == watched_wire(watch_name((#[trigger] rules[i]).ns@)) by {
        if wires.contains(wire) {
            let j = choose|j: int| 0 <= j < wires.len() && wires[j] == wire;
            assert(names.contains(names[j]));
        }
        if exists|i: int|
            0 <= i < rules.len() && wire == watched_wire(watch_name((#[trigger] rules[i]).ns@)) {
            let i = choose|i: int|
                0 <= i < rules.len() && wire == watched_wire(watch_name((#[trigger] rules[i]).ns@));
            let name = watch_name(rules[i].ns@);
            assert(names.contains(name));
            let j = choose|j: int| 0 <= j < names.len() && names[j] == name;
            assert(wires[j] == wire);
        }
    }
    assert forall|i: int, j: int| 0 <= i < j < wires.len() implies wires[i] != wires[j] by {
        String::order_is_strict(names[i]);
        assert(String::before(names[i], names[j]));
        assert(names[i].len() > 0 && names[j].len() > 0);
    }
    assert forall|ns: Seq<char>| ns != "host"@ implies #[trigger] watched_wire(watch_name(ns))
        == ns by {
        if ns.len() == 0 {
            assert(ns =~= Seq::<char>::empty());
        }
    }
}

/// The rules determine the watch list.
pub proof fn names_are_determined(
    rules: Seq<AutoForwardRule>,
    a: Seq<Seq<char>>,
    b: Seq<Seq<char>>,
)
    requires
        names_of(rules, a),
        names_of(rules, b),
    ensures
        a == b,
{
    assert forall|name: Seq<char>| a.contains(name) <==> b.contains(name) by {}
    sorted_list_is_determined::<String>(a, b);
}

/// Where the client's discovery stands.
#[derive(Debug, Clone, Copy, PartialEq, Eq, Structural)]
pub enum EpochState {
    /// Look for a live connection.
    Look,
    /// Wait for the connection to change.
    Wait,
    /// Run discovery on the live connection.
    Run,
    /// The session is over.
    Over,
}

/// What discovery waits for.
#[derive(Debug, Clone, Copy, PartialEq, Eq, Structural)]
pub enum EpochEvent {
    /// Whether there is a live connection.
    Looked(bool),
    /// The connection changed; `false` where it never will again.
    Changed(bool),
    /// Discovery on the connection ended, well or not.
    Ended,
}

/// What follows an event; an event that does not belong to the state is ignored.
pub open spec fn epoch_next(state: EpochState, event: EpochEvent) -> EpochState {
    match (state, event) {
        (EpochState::Look, EpochEvent::Looked(live)) => if live {
            EpochState::Run
        } else {
            EpochState::Wait
        },
        (EpochState::Wait, EpochEvent::Changed(alive)) => if alive {
            EpochState::Look
        } else {
            EpochState::Over
        },
        (EpochState::Run, EpochEvent::Ended) => EpochState::Wait,
        _ => state,
    }
}

impl EpochState {
    /// What follows an event.
    pub fn next(self, event: EpochEvent) -> (state: EpochState)
        ensures
            state == epoch_next(self, event),
    {
        match (self, event) {
            (EpochState::Look, EpochEvent::Looked(live)) => if live {
                EpochState::Run
            } else {
                EpochState::Wait
            },
            (EpochState::Wait, EpochEvent::Changed(alive)) => if alive {
                EpochState::Look
            } else {
                EpochState::Over
            },
            (EpochState::Run, EpochEvent::Ended) => EpochState::Wait,
            (state, _) => state,
        }
    }
}

/// Where discovery stands after a run of events.
pub open spec fn epoch_run(events: Seq<EpochEvent>) -> EpochState
    decreases events.len(),
{
    if events.len() == 0 {
        EpochState::Look
    } else {
        epoch_next(epoch_run(events.drop_last()), events.last())
    }
}

/// Discovery runs only on a connection that was found live, and once it has ended
/// there, the connection has to change before it runs again.
pub proof fn one_run_for_each_connection(state: EpochState, a: EpochEvent)
    ensures
        state != EpochState::Run && epoch_next(state, a) == EpochState::Run ==> state
            == EpochState::Look && a == EpochEvent::Looked(true),
        epoch_next(EpochState::Run, EpochEvent::Ended) == EpochState::Wait,
        epoch_next(EpochState::Wait, a) != EpochState::Run,
        epoch_next(EpochState::Wait, a) == EpochState::Look ==> a == EpochEvent::Changed(true),
{
}

/// A session that is over stays over.
pub proof fn over_is_final(events: Seq<EpochEvent>, event: EpochEvent)
    requires
        epoch_run(events) == EpochState::Over,
    ensures
        epoch_run(events.push(event)) == EpochState::Over,
{
    assert(events.push(event).drop_last() =~= events);
}

/// A scan reports the sockets that listen, all of them and no others.
pub proof fn listening_sockets_are_reported(wire: Seq<char>, entries: Seq<TcpEntry>)
    ensures
        forall|l: ListenerView| #[trigger]
            listeners_in(wire, entries).contains(l) <==> exists|i: int|
                0 <= i < entries.len() && (#[trigger] entries[i]).state == TcpState::Listen && l
                    == (ListenerView { ns: wire, ip: entries[i].ip@, port: entries[i].port }),
    decreases entries.len(),
{
    let all = listeners_in(wire, entries);
    if entries.len() > 0 {
        let fewer = entries.drop_last();
        let front = listeners_in(wire, fewer);
        let e = entries.last();
        listening_sockets_are_reported(wire, fewer);
        assert forall|l: ListenerView| #[trigger] all.contains(l) <==> exists|i: int|
            0 <= i < entries.len() && (#[trigger] entries[i]).state == TcpState::Listen && l == (
            ListenerView { ns: wire, ip: entries[i].ip@, port: entries[i].port }) by {
            if all.contains(l) {
                if front.contains(l) {
                    let i = choose|i: int|
                        0 <= i < fewer.len() && (#[trigger] fewer[i]).state == TcpState::Listen && l
                            == (ListenerView { ns: wire, ip: fewer[i].ip@, port: fewer[i].port });
                    assert(entries[i] == fewer[i]);
                } else {
                    let k = choose|k: int| 0 <= k < all.len() && all[k] == l;
                    if k < front.len() {
                        assert(front[k] == l);
                    }
                    assert(entries[entries.len() - 1] == e);
                }
            }
            if exists|i: int|
                0 <= i < entries.len() && (#[trigger] entries[i]).state == TcpState::Listen && l
                    == (ListenerView { ns: wire, ip: entries[i].ip@, port: entries[i].port }) {
                let i = choose|i: int|
                    0 <= i < entries.len() && (#[trigger] entries[i]).state == TcpState::Listen && l
                        == (ListenerView { ns: wire, ip: entries[i].ip@, port: entries[i].port });
                if i < fewer.len() {
                    assert(fewer[i] == entries[i]);
                    assert(front.contains(l));
                    let k = choose|k: int| 0 <= k < front.len() && front[k] == l;
                    assert(all[k] == l);
                } else {
                    assert(all[all.len() - 1] == l);
                }
            }
        }
    }
}

} // verus!
