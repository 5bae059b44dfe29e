//! What the operations are for.
//!
//! Each law speaks of what a call was given and of what it gave back, by way of
//! `call_ensures`, or of how the results of several calls fit together.

use vstd::prelude::*;

use crate::command::{argv, Arg};
use crate::forward::NsSpec;

pub mod words;
pub mod numbers;
pub mod targets;
pub mod helpers;
pub mod remote;
pub mod ports;
pub mod program;

verus! {

/// Whether a word of a command line is this text.
pub open spec fn is_text(arg: Arg, s: Seq<char>) -> bool {
    match arg {
        Arg::Text(t) => t@ == s,
        Arg::Exe => false,
    }
}

/// Whether a word of a command line is the program's own binary.
pub open spec fn is_exe(arg: Arg) -> bool {
    arg is Exe
}

/// Whether two selectors select the same namespace.
pub open spec fn same_ns(a: NsSpec, b: NsSpec) -> bool {
    match (a, b) {
        (NsSpec::Host, NsSpec::Host) => true,
        (NsSpec::Pid(p), NsSpec::Pid(q)) => p == q,
        (NsSpec::NsPath(p), NsSpec::NsPath(q)) => p@ == q@,
        (NsSpec::Podman(p), NsSpec::Podman(q)) => p@ == q@,
        (NsSpec::Docker(p), NsSpec::Docker(q)) => p@ == q@,
        (NsSpec::Netns(p), NsSpec::Netns(q)) => p@ == q@,
        _ => false,
    }
}

/// Whether `part` stands in `s` at position `at`.
pub open spec fn stands_at(s: Seq<char>, part: Seq<char>, at: int) -> bool {
    0 <= at && at + part.len() <= s.len() && s.subrange(at, at + part.len()) == part
}

/// Whether `s` starts with `part`.
pub open spec fn starts_with(s: Seq<char>, part: Seq<char>) -> bool {
    stands_at(s, part, 0)
}

/// Whether `s` ends with `part`.
pub open spec fn ends_with(s: Seq<char>, part: Seq<char>) -> bool {
    stands_at(s, part, s.len() - part.len())
}

/// The views of a command line are the views of its words, one for one.
pub proof fn lemma_argv(list: Seq<Arg>)
    ensures
        argv(list).len() == list.len(),
        forall|i: int| 0 <= i < list.len() ==> #[trigger] argv(list)[i] == list[i]@,
{
}

/// Selectors with the same view select the same namespace.
pub proof fn lemma_same_ns(a: NsSpec, b: NsSpec)
    ensures
        a@ == b@ <==> same_ns(a, b),
{
}

} // verus!
