//! Error types and their texts.

use vstd::prelude::*;

use crate::text::{debug_quoted, join, joined, quote, texts};

verus! {

#[verifier::external_type_specification]
#[verifier::external_body]
pub struct ExAnyhowError(anyhow::Error);

/// `anyhow::Error::chain`, each error of the chain turned into its message by its
/// `Display` implementation, outermost first. The chain begins with the error
/// itself, so there is at least one message. What the messages say is up to the
/// errors, which may say something else each time, and is left unsaid.
#[verifier::external_body]
fn messages_of(error: &anyhow::Error) -> (list: Vec<String>)
    ensures
        list@.len() >= 1,
{
    error.chain().map(|e| e.to_string()).collect()
}

/// Whether `messages` are what the chain of `error` says when its errors are asked
/// for their messages, outermost first. An error may say something else each
/// time, so there may be more than one such list.
pub closed spec fn chain_says(error: &anyhow::Error, messages: Seq<Seq<char>>) -> bool {
    exists|list: Vec<String>| #[trigger]
        call_ensures(messages_of, (error,), list) && messages == texts(list@)
}

/// Renders an error with its cause chain on one line for the log: the messages
/// from the outermost to the root cause, as [`join_messages`] puts them together.
pub fn format_chain(error: &anyhow::Error) -> (s: String)
    ensures
        exists|messages: Seq<Seq<char>>| #[trigger]
            chain_says(error, messages) && messages.len() >= 1 && s@ == joined(messages, ": "@),
{
    let list: Vec<String> = messages_of(error);
    proof {
        assert(chain_says(error, texts(list@)));
    }
    join_messages(&list)
}

/// Puts the messages of an error chain on one line, with a colon and a space
/// between each two.
pub fn join_messages(messages: &Vec<String>) -> (s: String)
    ensures
        s@ == joined(texts(messages@), ": "@),
{
    join(messages, ": ")
}

/// Errors produced while parsing a forward spec from the command line or the
/// configuration.
#[derive(Debug, PartialEq, Eq)]
pub enum SpecError {
    /// The spec is empty.
    Empty,
    /// A port that is none, with the reason.
    InvalidPort(String, String),
    /// A spec without a port.
    MissingPort(String),
    /// A namespace selector that is malformed, with the reason.
    BadNamespace(String, String),
    /// A spec that is malformed otherwise, with the reason.
    Malformed(String, String),
}

/// A [`SpecError`] with its strings as character sequences.
pub enum SpecErrorView {
    Empty,
    InvalidPort(Seq<char>, Seq<char>),
    MissingPort(Seq<char>),
    BadNamespace(Seq<char>, Seq<char>),
    Malformed(Seq<char>, Seq<char>),
}

impl View for SpecError {
    type V = SpecErrorView;

    open spec fn view(&self) -> SpecErrorView {
        match *self {
            SpecError::Empty => SpecErrorView::Empty,
            SpecError::InvalidPort(port, why) => SpecErrorView::InvalidPort(port@, why@),
            SpecError::MissingPort(spec) => SpecErrorView::MissingPort(spec@),
            SpecError::BadNamespace(ns, why) => SpecErrorView::BadNamespace(ns@, why@),
            SpecError::Malformed(spec, why) => SpecErrorView::Malformed(spec@, why@),
        }
    }
}

impl SpecErrorView {
    /// The message that says what was wrong.
    pub open spec fn text(self) -> Seq<char> {
        match self {
            SpecErrorView::Empty => "empty forward spec"@,
            SpecErrorView::InvalidPort(port, why) => "invalid port "@ + debug_quoted(port) + ": "@
                + why,
            SpecErrorView::MissingPort(spec) => "missing port in "@ + debug_quoted(spec),
            SpecErrorView::BadNamespace(ns, why) => "malformed namespace selector "@ + debug_quoted(
                ns,
            ) + ": "@ + why,
            SpecErrorView::Malformed(spec, why) => "malformed forward spec "@ + debug_quoted(spec)
                + ": "@ + why,
        }
    }
}

/// `lead`, the quoted `subject`, a colon and the reason `why`.
fn complaint(lead: &str, subject: &String, why: &String) -> (s: String)
    ensures
        s@ == lead@ + debug_quoted(subject@) + ": "@ + why@,
{
    let mut s: String = lead.to_string();
    s.append(quote(subject.as_str()).as_str());
    s.append(": ");
    s.append(why.as_str());
    s
}

impl SpecError {
    /// The message that says what was wrong.
    pub fn message(&self) -> (s: String)
        ensures
            s@ == self@.text(),
    {
        match self {
            SpecError::Empty => "empty forward spec".to_string(),
            SpecError::InvalidPort(port, why) => complaint("invalid port ", port, why),
            SpecError::MissingPort(spec) => {
                let mut s: String = "missing port in ".to_string();
                s.append(quote(spec.as_str()).as_str());
                s
            },
            SpecError::BadNamespace(ns, why) => complaint("malformed namespace selector ", ns, why),
            SpecError::Malformed(spec, why) => complaint("malformed forward spec ", spec, why),
        }
    }
}

/// A rendered chain holds every message that the chain was asked for, one for one and
/// in order: none is left out, none is shortened.
proof fn whole_chain_is_rendered(error: &anyhow::Error, s: String)
    requires
        call_ensures(format_chain, (error,), s),
    ensures
        exists|list: Vec<String>|
            {
                &&& #[trigger] call_ensures(messages_of, (error,), list)
                &&& s@ == joined(Seq::new(list@.len(), |i: int| list@[i]@), ": "@)
            },
{
    let messages = choose|messages: Seq<Seq<char>>| #[trigger]
        chain_says(error, messages) && messages.len() >= 1 && s@ == joined(messages, ": "@);
    let list = choose|list: Vec<String>| #[trigger]
        call_ensures(messages_of, (error,), list) && messages == texts(list@);
    assert(messages =~= Seq::new(list@.len(), |i: int| list@[i]@));
}

/// Whatever an error's chain says, it says at least one message, the error's own.
pub proof fn chain_has_a_message(error: &anyhow::Error, messages: Seq<Seq<char>>)
    requires
        chain_says(error, messages),
    ensures
        messages.len() >= 1,
{
}

/// An error that is given a context is rendered as the context, a colon, a space,
/// and what the error was rendered as before.
pub proof fn context_comes_first(context: Seq<char>, messages: Seq<Seq<char>>)
    requires
        messages.len() >= 1,
    ensures
        joined(seq![context] + messages, ": "@) == context + ": "@ + joined(messages, ": "@),
    decreases messages.len(),
{
    let all = seq![context] + messages;
    if messages.len() == 1 {
        assert(all.drop_last() =~= seq![context]);
        assert(joined(all.drop_last(), ": "@) == context);
    } else {
        let front = messages.drop_last();
        context_comes_first(context, front);
        assert(all.drop_last() =~= seq![context] + front);
        assert(all.last() == messages.last());
        assert(joined(all, ": "@) =~= context + ": "@ + joined(messages, ": "@));
    }
}

/// The number of characters of all messages together.
pub open spec fn total_len(messages: Seq<Seq<char>>) -> nat
    decreases messages.len(),
{
    if messages.len() == 0 {
        0
    } else {
        total_len(messages.drop_last()) + messages.last().len()
    }
}

/// A rendered chain is as long as its messages, and two characters for each
/// neighbouring pair of them.
pub proof fn chain_length(messages: Seq<Seq<char>>)
    requires
        messages.len() >= 1,
    ensures
        joined(messages, ": "@).len() == total_len(messages) + 2 * (messages.len() - 1),
    decreases messages.len(),
{
    reveal_strlit(": ");
    if messages.len() == 1 {
        assert(total_len(messages.drop_last()) == 0);
    } else {
        chain_length(messages.drop_last());
    }
}

/// An error whose messages are single lines is rendered on a single line.
pub proof fn chain_is_one_line(messages: Seq<Seq<char>>)
    requires
        forall|i: int| 0 <= i < messages.len() ==> !(#[trigger] messages[i]).contains('\n'),
    ensures
        !joined(messages, ": "@).contains('\n'),
    decreases messages.len(),
{
    reveal_strlit(": ");
    if messages.len() > 1 {
        let front = messages.drop_last();
        assert forall|i: int| 0 <= i < front.len() implies !(#[trigger] front[i]).contains('\n') by {
            assert(front[i] == messages[i]);
        }
        chain_is_one_line(front);
        let head = joined(front, ": "@);
        let last = messages.last();
        assert(messages[messages.len() - 1] == last);
        let line = head + ": "@ + last;
        assert forall|i: int| 0 <= i < line.len() implies line[i] != '\n' by {
            if i < head.len() {
                assert(head.contains(head[i]));
            } else if i >= head.len() + 2 {
                assert(last.contains(last[i - head.len() - 2]));
            }
        }
    }
}

} // verus!
