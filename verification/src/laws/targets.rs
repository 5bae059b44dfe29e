//! Where connections go.

use vstd::prelude::*;

use crate::agent::{refuse_unreachable, route_stream, StreamAction};
use crate::dial::{format_host_port, host_port, resolution_error, AddressWalk};
use crate::discovery::discovery_header;
use crate::forward::{stream_header, ForwardSpec, StreamHeader};
use crate::laws::{ends_with, stands_at, starts_with};
use crate::number::{decimal, is_digit, lemma_decimal, read_decimal, read_unsigned};

verus! {

/// Whether `target` names this host and this port: the host, then a colon, the last
/// one, then what reads back as the port.
pub open spec fn names_target(target: Seq<char>, host: Seq<char>, port: u16) -> bool {
    let n = host.len() as int;
    &&& target.len() > n + 1
    &&& target.take(n) == host
    &&& target[n] == ':'
    &&& forall|i: int| n < i < target.len() ==> #[trigger] target[i] != ':'
    &&& read_unsigned(target.skip(n + 1), u16::MAX as nat) == Some(port as nat)
}

/// A target written for a host and a port names them.
pub proof fn target_names_host_and_port(host: Seq<char>, port: u16)
    ensures
        names_target(host_port(host, port), host, port),
{
    reveal_strlit(":");
    let t = host_port(host, port);
    let n = host.len() as int;
    let digits = decimal(port as nat);
    lemma_decimal(port as nat);
    read_decimal(port as nat, u16::MAX as nat);
    assert(t.take(n) =~= host);
    assert(t.skip(n + 1) =~= digits);
    assert forall|i: int| n < i < t.len() implies #[trigger] t[i] != ':' by {
        assert(t[i] == digits[i - n - 1]);
        assert(is_digit(digits[i - n - 1]));
    }
}

/// One target names one host and one port: different ports, or different hosts,
/// have different targets.
pub proof fn target_tells_host_and_port(
    target: Seq<char>,
    host_a: Seq<char>,
    port_a: u16,
    host_b: Seq<char>,
    port_b: u16,
)
    requires
        names_target(target, host_a, port_a),
        names_target(target, host_b, port_b),
    ensures
        host_a == host_b,
        port_a == port_b,
{
    let n = host_a.len() as int;
    let m = host_b.len() as int;
    assert(n == m) by {
        if n < m {
            assert(target[m] != ':');
        }
        if m < n {
            assert(target[n] != ':');
        }
    }
}

/// Formatting a target names the host and the port that were given, and tells them
/// from all others.
pub proof fn formatted_target_is_told(
    host: &str,
    port: u16,
    s: String,
    other: &str,
    other_port: u16,
    t: String,
)
    requires
        call_ensures(format_host_port, (host, port), s),
        call_ensures(format_host_port, (other, other_port), t),
    ensures
        names_target(s@, host@, port),
        s@ == t@ <==> host@ == other@ && port == other_port,
{
    target_names_host_and_port(host@, port);
    target_names_host_and_port(other@, other_port);
    if s@ == t@ {
        target_tells_host_and_port(s@, host@, port, other@, other_port);
    }
}

/// The agent dials the host and the port of the stream's header, in its own
/// namespace only; the reserved host is never dialed; a stream into another
/// namespace is reset, and the error names the namespace.
pub proof fn stream_is_dialed_at_its_header(header: &StreamHeader, action: StreamAction)
    requires
        call_ensures(route_stream, (header,), action),
    ensures
        match action {
            StreamAction::Dial(target) => header.ns@.len() == 0 && header.host@ != "@discovery"@
                && names_target(target@, header.host@, header.port),
            StreamAction::Discover => header.ns@.len() == 0 && header.host@ == "@discovery"@,
            StreamAction::Reset(code, why) => header.ns@.len() > 0 && code == 1 && starts_with(
                why@,
                "namespace dialing not yet supported "@,
            ) && ends_with(why@, "(ns="@ + header.ns@ + ")"@) && why@.len()
                == "namespace dialing not yet supported "@.len() + 5 + header.ns@.len(),
        },
{
    target_names_host_and_port(header.host@, header.port);
    if let StreamAction::Reset(_, why) = action {
        reveal_strlit("namespace dialing not yet supported (ns=");
        reveal_strlit("(ns=");
        reveal_strlit(")");
        reveal_strlit("namespace dialing not yet supported ");
        let lead = "namespace dialing not yet supported "@;
        assert(why@.subrange(0, lead.len() as int) =~= lead);
        let tail = "(ns="@ + header.ns@ + ")"@;
        assert(why@.subrange(why@.len() - tail.len(), why@.len() as int) =~= tail);
    }
}

/// A forward's stream, in the agent's own namespace, is dialed at the forward's
/// target.
pub proof fn forward_reaches_its_target(
    wire: String,
    forward: &ForwardSpec,
    header: StreamHeader,
    action: StreamAction,
)
    requires
        call_ensures(stream_header, (wire, forward), header),
        call_ensures(route_stream, (&header,), action),
        wire@.len() == 0,
        forward.remote_host@ != "@discovery"@,
    ensures
        action matches StreamAction::Dial(target) && names_target(
            target@,
            forward.remote_host@,
            forward.remote_port,
        ),
{
    stream_is_dialed_at_its_header(&header, action);
}

/// A forward's stream says which namespace it goes to, and which host and port.
pub proof fn stream_header_says_where(wire: String, forward: &ForwardSpec, header: StreamHeader)
    requires
        call_ensures(stream_header, (wire, forward), header),
    ensures
        header.ns@ == wire@,
        header.host@ == forward.remote_host@,
        header.port == forward.remote_port,
{
}

/// A discovery stream is taken for one by the agent.
pub proof fn discovery_stream_is_recognized(header: StreamHeader, action: StreamAction)
    requires
        call_ensures(discovery_header, (), header),
        call_ensures(route_stream, (&header,), action),
    ensures
        action is Discover,
        header.ns@.len() == 0,
        header.host@ == "@discovery"@,
        header.port == 0,
{
    stream_is_dialed_at_its_header(&header, action);
}

/// An unreachable target is reset with a code of its own, and the error ends with
/// the target.
pub proof fn unreachable_target_is_named(target: &str, action: StreamAction)
    requires
        call_ensures(refuse_unreachable, (target,), action),
    ensures
        action matches StreamAction::Reset(code, why) && code == 2 && starts_with(
            why@,
            "connecting to "@,
        ) && ends_with(why@, target@) && why@.len() == "connecting to "@.len() + target@.len(),
{
    if let StreamAction::Reset(_, why) = action {
        let lead = "connecting to "@;
        assert(why@.subrange(0, lead.len() as int) =~= lead);
        assert(why@.subrange(why@.len() - target@.len(), why@.len() as int) =~= target@);
    }
}

/// A failed lookup names the target that was looked up.
pub proof fn failed_lookup_names_the_target(host: &str, port: u16, s: String)
    requires
        call_ensures(resolution_error, (host, port), s),
    ensures
        exists|target: Seq<char>|
            #[trigger] names_target(target, host@, port) && s@ == "resolving "@ + target
                + " in namespace"@,
{
    target_names_host_and_port(host@, port);
    assert(s@ == "resolving "@ + host_port(host@, port) + " in namespace"@);
}

/// A walk dials the addresses in order, one after each failure, and stops when
/// all have failed.
pub proof fn walk_goes_in_order(walk: &AddressWalk, at: Option<usize>)
    requires
        call_ensures(AddressWalk::next, (walk,), at),
    ensures
        at is Some <==> walk.errors().len() != walk.addresses().len(),
        at matches Some(i) ==> i == walk.errors().len(),
{
}

/// A walk starts with no failures, on the addresses it was given.
pub proof fn walk_starts_at_the_first(
    host: String,
    port: u16,
    addresses: Vec<String>,
    walk: AddressWalk,
    at: Option<usize>,
)
    requires
        call_ensures(AddressWalk::new, (host, port, addresses), walk),
        call_ensures(AddressWalk::next, (&walk,), at),
    ensures
        walk.errors().len() == 0,
        walk.addresses().len() == addresses@.len(),
        forall|i: int|
            0 <= i < addresses@.len() ==> #[trigger] walk.addresses()[i] == addresses@[i]@,
        addresses@.len() > 0 ==> at == Some(0usize),
        addresses@.len() == 0 ==> at is None,
{
}

/// A failure counts for the next address and changes nothing else.
pub proof fn failure_moves_the_walk_on(walk: &mut AddressWalk, error: &str)
    requires
        call_ensures(AddressWalk::failed, (walk, error), ()),
    ensures
        final(walk).errors().len() == old(walk).errors().len() + 1,
        final(walk).errors().last() == error@,
        forall|i: int|
            0 <= i < old(walk).errors().len() ==> #[trigger] final(walk).errors()[i] == old(
                walk,
            ).errors()[i],
        final(walk).addresses() == old(walk).addresses(),
        final(walk).host() == old(walk).host(),
        final(walk).port() == old(walk).port(),
{
}

/// A walk without a connection reports the last address dialed and its error; a
/// walk without addresses names the target.
pub proof fn walk_reports_the_last_failure(walk: &AddressWalk, s: String)
    requires
        call_ensures(AddressWalk::failure, (walk,), s),
    ensures
        walk.errors().len() > 0 ==> {
            let address = walk.addresses()[walk.errors().len() - 1];
            let error = walk.errors().last();
            &&& starts_with(s@, "connect "@)
            &&& stands_at(s@, address, "connect "@.len() as int)
            &&& ends_with(s@, ": "@ + error)
            &&& s@.len() == "connect "@.len() + address.len() + ": "@.len() + error.len()
        },
        walk.errors().len() == 0 ==> exists|target: Seq<char>|
            #[trigger] names_target(target, walk.host(), walk.port()) && s@ == "no addresses for "@
                + target,
{
    target_names_host_and_port(walk.host(), walk.port());
    if walk.errors().len() > 0 {
        let lead = "connect "@;
        let address = walk.addresses()[walk.errors().len() - 1];
        let tail = ": "@ + walk.errors().last();
        assert(s@ =~= lead + address + tail);
        assert(s@.subrange(0, lead.len() as int) =~= lead);
        assert(s@.subrange(lead.len() as int, (lead.len() + address.len()) as int) =~= address);
        assert(s@.subrange(s@.len() - tail.len(), s@.len() as int) =~= tail);
    } else {
        assert(s@ == "no addresses for "@ + host_port(walk.host(), walk.port()));
    }
}

} // verus!
