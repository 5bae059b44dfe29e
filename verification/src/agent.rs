//! What the agent does with a stream.

use vstd::prelude::*;

use crate::dial::{format_host_port, host_port};
use crate::discovery::DISCOVERY_HOST;
use crate::forward::StreamHeader;
use crate::text::same_text;

verus! {

/// Reset code of a stream whose namespace cannot be dialed.
pub const RESET_NAMESPACE: u32 = 1;

/// Reset code of a stream whose target cannot be reached.
pub const RESET_UNREACHABLE: u32 = 2;

/// What the agent does with a stream.
#[derive(Debug, PartialEq, Eq)]
pub enum StreamAction {
    /// Reset the stream with this code, and report this error.
    Reset(u32, String),
    /// Serve it as a discovery stream.
    Discover,
    /// Dial this target, and splice.
    Dial(String),
}

/// A [`StreamAction`] with its string as a character sequence.
pub enum StreamActionView {
    Reset(u32, Seq<char>),
    Discover,
    Dial(Seq<char>),
}

impl View for StreamAction {
    type V = StreamActionView;

    open spec fn view(&self) -> StreamActionView {
        match *self {
            StreamAction::Reset(code, why) => StreamActionView::Reset(code, why@),
            StreamAction::Discover => StreamActionView::Discover,
            StreamAction::Dial(target) => StreamActionView::Dial(target@),
        }
    }
}

/// What the agent does with a stream to `host` and `port` in the namespace of
/// wire form `ns`: a stream into any namespace but the agent's own is refused, and
/// the reserved host marks a discovery stream.
pub open spec fn stream_action(ns: Seq<char>, host: Seq<char>, port: u16) -> StreamActionView {
    if ns.len() > 0 {
        StreamActionView::Reset(
            RESET_NAMESPACE,
            "namespace dialing not yet supported (ns="@ + ns + ")"@,
        )
    } else if host == "@discovery"@ {
        StreamActionView::Discover
    } else {
        StreamActionView::Dial(host_port(host, port))
    }
}

/// What the agent does with a stream whose target cannot be reached.
pub open spec fn unreachable_action(target: Seq<char>) -> StreamActionView {
    StreamActionView::Reset(RESET_UNREACHABLE, "connecting to "@ + target)
}

/// What the agent does with a stream that has this header.
pub fn route_stream(header: &StreamHeader) -> (action: StreamAction)
    ensures
        action@ == stream_action(header.ns@, header.host@, header.port),
{
    if !header.ns.as_str().is_empty() {
        let mut why: String = "namespace dialing not yet supported (ns=".to_string();
        why.append(header.ns.as_str());
        why.append(")");
        StreamAction::Reset(RESET_NAMESPACE, why)
    } else if same_text(header.host.as_str(), DISCOVERY_HOST) {
        StreamAction::Discover
    } else {
        StreamAction::Dial(format_host_port(header.host.as_str(), header.port))
    }
}

/// What the agent does with a stream whose target cannot be reached.
pub fn refuse_unreachable(target: &str) -> (action: StreamAction)
    ensures
        action@ == unreachable_action(target@),
{
    let mut why: String = "connecting to ".to_string();
    why.append(target);
    StreamAction::Reset(RESET_UNREACHABLE, why)
}

/// A stream is refused for its namespace exactly when it leaves the agent's own,
/// and the reset code tells a client which refusal it met.
pub proof fn refusals_are_told_apart(ns: Seq<char>, host: Seq<char>, port: u16, target: Seq<char>)
    ensures
        stream_action(ns, host, port) is Reset <==> ns.len() > 0,
        stream_action(ns, host, port) matches StreamActionView::Reset(code, _) ==> code
            == RESET_NAMESPACE,
        unreachable_action(target) matches StreamActionView::Reset(code, _) && code
            == RESET_UNREACHABLE,
        RESET_NAMESPACE != RESET_UNREACHABLE,
{
}

/// In the agent's own namespace the reserved host, and no other, is served as a
/// discovery stream; every other host is dialed.
pub proof fn discovery_streams_are_served(host: Seq<char>, port: u16)
    ensures
        stream_action(Seq::empty(), "@discovery"@, port) is Discover,
        host != "@discovery"@ ==> stream_action(Seq::empty(), host, port) == StreamActionView::Dial(
            host_port(host, port),
        ),
{
}

} // verus!
