//! What a forward is: a target, the namespace it lives in, and the local
//! address that leads to it.

use vstd::prelude::*;

verus! {

/// An IP address, as the number that its octets make in network order.
#[derive(Debug, Clone, Copy, PartialEq, Eq, Structural)]
pub enum IpAddr {
    /// An IPv4 address.
    V4(u32),
    /// An IPv6 address.
    V6(u128),
}

/// The IPv4 loopback address, 127.0.0.1.
pub const LOCALHOST: u32 = 0x7f00_0001;

/// Selects the network namespace a target lives in.
#[derive(Debug, PartialEq, Eq)]
pub enum NsSpec {
    /// The agent's own namespace.
    Host,
    /// The namespaces of a process.
    Pid(i32),
    /// A namespace file, by its path.
    NsPath(String),
    /// A Podman container, by name.
    Podman(String),
    /// A Docker container, by name.
    Docker(String),
    /// A named network namespace of the system.
    Netns(String),
}

/// An [`NsSpec`] with its strings as character sequences.
pub enum NsView {
    Host,
    Pid(i32),
    NsPath(Seq<char>),
    Podman(Seq<char>),
    Docker(Seq<char>),
    Netns(Seq<char>),
}

impl View for NsSpec {
    type V = NsView;

    open spec fn view(&self) -> NsView {
        match *self {
            NsSpec::Host => NsView::Host,
            NsSpec::Pid(pid) => NsView::Pid(pid),
            NsSpec::NsPath(path) => NsView::NsPath(path@),
            NsSpec::Podman(name) => NsView::Podman(name@),
            NsSpec::Docker(name) => NsView::Docker(name@),
            NsSpec::Netns(name) => NsView::Netns(name@),
        }
    }
}

impl NsSpec {
    /// Whether this is the agent's own namespace.
    pub fn is_host(&self) -> (b: bool)
        ensures
            b == (self@ is Host),
    {
        match self {
            NsSpec::Host => true,
            _ => false,
        }
    }
}

impl Clone for NsSpec {
    fn clone(&self) -> (ns: NsSpec)
        ensures
            ns@ == self@,
    {
        match self {
            NsSpec::Host => NsSpec::Host,
            NsSpec::Pid(pid) => NsSpec::Pid(*pid),
            NsSpec::NsPath(path) => NsSpec::NsPath(path.clone()),
            NsSpec::Podman(name) => NsSpec::Podman(name.clone()),
            NsSpec::Docker(name) => NsSpec::Docker(name.clone()),
            NsSpec::Netns(name) => NsSpec::Netns(name.clone()),
        }
    }
}

/// One forward.
#[derive(Debug, PartialEq, Eq)]
pub struct ForwardSpec {
    /// Namespace of the target.
    pub ns: NsSpec,
    /// Host to dial inside that namespace.
    pub remote_host: String,
    /// Port to dial.
    pub remote_port: u16,
    /// Local address to listen on.
    pub local_addr: IpAddr,
    /// Local port to listen on; 0 lets the system pick one.
    pub local_port: u16,
}

/// A [`ForwardSpec`] with its strings as character sequences.
pub struct ForwardView {
    pub ns: NsView,
    pub remote_host: Seq<char>,
    pub remote_port: u16,
    pub local_addr: IpAddr,
    pub local_port: u16,
}

impl View for ForwardSpec {
    type V = ForwardView;

    open spec fn view(&self) -> ForwardView {
        ForwardView {
            ns: self.ns@,
            remote_host: self.remote_host@,
            remote_port: self.remote_port,
            local_addr: self.local_addr,
            local_port: self.local_port,
        }
    }
}

impl Clone for ForwardSpec {
    fn clone(&self) -> (forward: ForwardSpec)
        ensures
            forward@ == self@,
    {
        ForwardSpec {
            ns: self.ns.clone(),
            remote_host: self.remote_host.clone(),
            remote_port: self.remote_port,
            local_addr: self.local_addr,
            local_port: self.local_port,
        }
    }
}

/// The header that opens a stream: where the agent is to connect.
#[derive(Debug, PartialEq, Eq)]
pub struct StreamHeader {
    /// Namespace wire form (`""` = host).
    pub ns: String,
    /// Host to dial.
    pub host: String,
    /// Port to dial.
    pub port: u16,
}

/// The header for one connection of `forward`, whose namespace has the wire form
/// `wire`.
pub fn stream_header(wire: String, forward: &ForwardSpec) -> (header: StreamHeader)
    ensures
        header.ns@ == wire@,
        header.host@ == forward.remote_host@,
        header.port == forward.remote_port,
{
    StreamHeader { ns: wire, host: forward.remote_host.clone(), port: forward.remote_port }
}

} // verus!
