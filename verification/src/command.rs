//! Command lines that the program runs.

use vstd::prelude::*;

verus! {

/// One word of a command line.
#[derive(Debug, PartialEq, Eq)]
pub enum Arg {
    /// The text itself.
    Text(String),
    /// The path of the program's own binary.
    Exe,
}

/// An [`Arg`] with its string as a character sequence.
pub enum ArgView {
    Text(Seq<char>),
    Exe,
}

impl View for Arg {
    type V = ArgView;

    open spec fn view(&self) -> ArgView {
        match *self {
            Arg::Text(s) => ArgView::Text(s@),
            Arg::Exe => ArgView::Exe,
        }
    }
}

/// The views of the words of a command line.
pub open spec fn argv(list: Seq<Arg>) -> Seq<ArgView> {
    list.map_values(|a: Arg| a@)
}

/// Text words.
pub open spec fn text_args(list: Seq<Seq<char>>) -> Seq<ArgView> {
    list.map_values(|s: Seq<char>| ArgView::Text(s))
}

/// Appends a text word to a command line.
pub(crate) fn push_text(list: &mut Vec<Arg>, s: &str)
    ensures
        argv(final(list)@) == argv(old(list)@).push(ArgView::Text(s@)),
{
    let ghost before = list@;
    list.push(Arg::Text(s.to_string()));
    proof {
        assert(argv(list@) =~= argv(before).push(ArgView::Text(s@)));
    }
}

/// Appends the binary's path to a command line.
pub(crate) fn push_exe(list: &mut Vec<Arg>)
    ensures
        argv(final(list)@) == argv(old(list)@).push(ArgView::Exe),
{
    let ghost before = list@;
    list.push(Arg::Exe);
    proof {
        assert(argv(list@) =~= argv(before).push(ArgView::Exe));
    }
}

} // verus!
