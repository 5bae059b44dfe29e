//! Walking through the addresses of a target until one connects.

use vstd::prelude::*;

use crate::number::{decimal, format_decimal};
use crate::text::texts;

verus! {

/// A host and a port with a colon between them.
pub open spec fn host_port(host: Seq<char>, port: u16) -> Seq<char> {
    host + ":"@ + decimal(port as nat)
}

/// A host and a port with a colon between them.
pub fn format_host_port(host: &str, port: u16) -> (s: String)
    ensures
        s@ == host_port(host@, port),
{
    let mut s: String = host.to_string();
    s.append(":");
    s.append(format_decimal(port as u32).as_str());
    s
}

/// What there is to report when a target's addresses cannot be looked up.
pub open spec fn resolution_failure(host: Seq<char>, port: u16) -> Seq<char> {
    "resolving "@ + host_port(host, port) + " in namespace"@
}

/// What there is to report when a target's addresses cannot be looked up.
pub fn resolution_error(host: &str, port: u16) -> (s: String)
    ensures
        s@ == resolution_failure(host@, port),
{
    let mut s: String = "resolving ".to_string();
    s.append(format_host_port(host, port).as_str());
    s.append(" in namespace");
    s
}

/// What there is to report when `errors` are the errors of the first addresses
/// tried and none is left, or none was there: the last failure counts.
pub open spec fn walk_failure(
    host: Seq<char>,
    port: u16,
    addresses: Seq<Seq<char>>,
    errors: Seq<Seq<char>>,
) -> Seq<char> {
    if errors.len() == 0 {
        "no addresses for "@ + host_port(host, port)
    } else {
        "connect "@ + addresses[errors.len() - 1] + ": "@ + errors.last()
    }
}

/// The addresses of one target, dialed in turn until one connects.
pub struct AddressWalk {
    host: String,
    port: u16,
    addresses: Vec<String>,
    tried: usize,
    last_failure: String,
    errors: Ghost<Seq<Seq<char>>>,
}

impl AddressWalk {
    /// The host that the addresses belong to.
    pub closed spec fn host(self) -> Seq<char> {
        self.host@
    }

    /// The port to dial.
    pub closed spec fn port(self) -> u16 {
        self.port
    }

    /// All addresses, in the order in which they are dialed.
    pub closed spec fn addresses(self) -> Seq<Seq<char>> {
        texts(self.addresses@)
    }

    /// The errors so far, one for each address dialed.
    pub closed spec fn errors(self) -> Seq<Seq<char>> {
        self.errors@
    }

    /// No more addresses have failed than there are, and the failure kept is the
    /// one to report.
    pub closed spec fn wf(self) -> bool {
        &&& self.tried == self.errors@.len()
        &&& self.tried <= self.addresses@.len()
        &&& self.last_failure@ == walk_failure(
            self.host@,
            self.port,
            texts(self.addresses@),
            self.errors@,
        )
    }

    /// Starts at the first of the addresses that `host` and `port` resolved to.
    pub fn new(host: String, port: u16, addresses: Vec<String>) -> (walk: AddressWalk)
        ensures
            walk.wf(),
            walk.host() == host@,
            walk.port() == port,
            walk.addresses() == texts(addresses@),
            walk.errors() == Seq::<Seq<char>>::empty(),
    {
        let mut last_failure: String = "no addresses for ".to_string();
        last_failure.append(format_host_port(host.as_str(), port).as_str());
        AddressWalk {
            host,
            port,
            addresses,
            tried: 0,
            last_failure,
            errors: Ghost(Seq::empty()),
        }
    }

    /// The position of the address to dial next; `None` when all have failed.
    pub fn next(&self) -> (at: Option<usize>)
        requires
            self.wf(),
        ensures
            at is None <==> self.errors().len() == self.addresses().len(),
            at matches Some(i) ==> i == self.errors().len() && i < self.addresses().len(),
    {
        if self.tried < self.addresses.len() {
            Some(self.tried)
        } else {
            None
        }
    }

    /// Records that the next address failed with `error`.
    pub fn failed(&mut self, error: &str)
        requires
            old(self).wf(),
            old(self).errors().len() < old(self).addresses().len(),
        ensures
            final(self).wf(),
            final(self).host() == old(self).host(),
            final(self).port() == old(self).port(),
            final(self).addresses() == old(self).addresses(),
            final(self).errors() == old(self).errors().push(error@),
    {
        let mut text: String = "connect ".to_string();
        text.append(self.addresses[self.tried].as_str());
        text.append(": ");
        text.append(error);
        self.last_failure = text;
        proof {
            assert(self.tried < self.addresses.len() <= usize::MAX);
        }
        self.tried = self.tried + 1;
        self.errors = Ghost(self.errors@.push(error@));
    }

    /// What there is to report of a walk that found no connection.
    pub fn failure(&self) -> (s: String)
        requires
            self.wf(),
        ensures
            s@ == walk_failure(self.host(), self.port(), self.addresses(), self.errors()),
    {
        self.last_failure.clone()
    }
}

} // verus!
