//! The command line: what the program is asked to do.

use vstd::prelude::*;

use crate::error::SpecError;
use crate::forward::ForwardSpec;
use crate::text::{debug_quoted, quote};

verus! {

/// A subcommand.
#[derive(Debug, Clone, Copy, PartialEq, Eq, Structural)]
pub enum Command {
    /// Run as the agent; started over SSH.
    Agent,
    /// Run as a connect-helper; started by the agent.
    NsHelper,
    /// Add a forward to a running session.
    Add,
    /// Drop a forward of a running session.
    Drop,
    /// List the forwards of a running session.
    List,
    /// Show the state of a running session.
    Status,
}

/// What a subcommand leads to.
#[derive(Debug, Clone, Copy, PartialEq, Eq)]
pub enum Dispatch {
    /// Run the agent.
    RunAgent,
    /// Run the connect-helper.
    RunHelper,
    /// Refuse it with this message.
    Refuse(&'static str),
}

/// A [`Dispatch`] with its string as a character sequence.
pub enum DispatchView {
    RunAgent,
    RunHelper,
    Refuse(Seq<char>),
}

impl View for Dispatch {
    type V = DispatchView;

    open spec fn view(&self) -> DispatchView {
        match *self {
            Dispatch::RunAgent => DispatchView::RunAgent,
            Dispatch::RunHelper => DispatchView::RunHelper,
            Dispatch::Refuse(why) => DispatchView::Refuse(why@),
        }
    }
}

/// What a subcommand leads to: the roles run, and what needs the control socket is
/// refused, as there is none yet.
pub open spec fn dispatched(command: Command) -> DispatchView {
    match command {
        Command::Agent => DispatchView::RunAgent,
        Command::NsHelper => DispatchView::RunHelper,
        _ => DispatchView::Refuse("control-socket subcommands not yet implemented"@),
    }
}

/// What a subcommand leads to.
pub fn dispatch(command: Command) -> (d: Dispatch)
    ensures
        d@ == dispatched(command),
{
    match command {
        Command::Agent => Dispatch::RunAgent,
        Command::NsHelper => Dispatch::RunHelper,
        _ => Dispatch::Refuse("control-socket subcommands not yet implemented"),
    }
}

/// The log filter for a number of verbosity flags.
pub open spec fn log_filter(verbose: u8) -> Seq<char> {
    "portmanager="@ + (if verbose == 0 {
        "info"@
    } else if verbose == 1 {
        "debug"@
    } else {
        "trace"@
    })
}

/// The log filter for a number of verbosity flags.
pub fn default_filter(verbose: u8) -> (s: String)
    ensures
        s@ == log_filter(verbose),
{
    let mut s: String = "portmanager=".to_string();
    if verbose == 0 {
        s.append("info");
    } else if verbose == 1 {
        s.append("debug");
    } else {
        s.append("trace");
    }
    s
}

/// The arguments of the default action.
#[derive(Debug, PartialEq, Eq)]
pub struct RunArgs {
    /// The host to connect to.
    pub host: Option<String>,
    /// The forward specs.
    pub specs: Vec<String>,
    /// A profile with further forwards.
    pub profile: Option<String>,
}

/// A forward spec that is none, with the reason.
#[derive(Debug, PartialEq, Eq)]
pub struct BadSpec {
    /// The offending spec.
    pub spec: String,
    /// What is wrong with it.
    pub cause: SpecError,
}

/// The message that names an offending spec.
pub open spec fn bad_spec_text(spec: Seq<char>) -> Seq<char> {
    "invalid forward spec "@ + debug_quoted(spec)
}

impl BadSpec {
    /// The message that names the offending spec.
    pub fn message(&self) -> (s: String)
        ensures
            s@ == bad_spec_text(self.spec@),
    {
        let mut s: String = "invalid forward spec ".to_string();
        s.append(quote(self.spec.as_str()).as_str());
        s
    }
}

/// Whether `parse` can make a forward of `spec`.
pub open spec fn accepts<F: Fn(&String) -> Result<ForwardSpec, SpecError>>(
    parse: F,
    spec: String,
) -> bool {
    exists|forward: ForwardSpec| #[trigger]
        call_ensures(parse, (&spec,), Ok::<ForwardSpec, SpecError>(forward))
}

/// Whether `res` is what reading the specs by `parse`, one after the other, comes
/// to: all forwards in order, or the first spec that `parse` rejects.
pub open spec fn specs_parsed<F: Fn(&String) -> Result<ForwardSpec, SpecError>>(
    parse: F,
    specs: Seq<String>,
    res: Result<Vec<ForwardSpec>, BadSpec>,
) -> bool {
    match res {
        Ok(list) => {
            &&& list@.len() == specs.len()
            &&& forall|i: int|
                0 <= i < specs.len() ==> call_ensures(
                    parse,
                    (&#[trigger] specs[i],),
                    Ok::<ForwardSpec, SpecError>(list@[i]),
                )
        },
        Err(e) => exists|i: int|
            {
                &&& 0 <= i < specs.len()
                &&& e.spec == #[trigger] specs[i]
                &&& call_ensures(parse, (&specs[i],), Err::<ForwardSpec, SpecError>(e.cause))
                &&& forall|k: int| 0 <= k < i ==> accepts(parse, #[trigger] specs[k])
            },
    }
}

/// Reads a list of forward specs by `parse`, naming the offending spec on error.
pub fn parse_specs<F: Fn(&String) -> Result<ForwardSpec, SpecError>>(
    specs: &Vec<String>,
    parse: F,
) -> (res: Result<Vec<ForwardSpec>, BadSpec>)
    requires
        forall|spec: &String| call_requires(parse, (spec,)),
    ensures
        specs_parsed(parse, specs@, res),
{
    let mut list: Vec<ForwardSpec> = Vec::new();
    let mut i: usize = 0;
    while i < specs.len()
        invariant
            i <= specs@.len(),
            forall|spec: &String| call_requires(parse, (spec,)),
            list@.len() == i,
            forall|k: int|
                0 <= k < i ==> call_ensures(
                    parse,
                    (&#[trigger] specs@[k],),
                    Ok::<ForwardSpec, SpecError>(list@[k]),
                ),
        decreases specs@.len() - i,
    {
        match parse(&specs[i]) {
            Ok(forward) => {
                list.push(forward);
            },
            Err(cause) => {
                let e: BadSpec = BadSpec { spec: specs[i].clone(), cause };
                proof {
                    assert(e.spec == specs@[i as int]);
                    assert forall|k: int| 0 <= k < i implies accepts(
                        parse,
                        #[trigger] specs@[k],
                    ) by {
                        assert(call_ensures(
                            parse,
                            (&specs@[k],),
                            Ok::<ForwardSpec, SpecError>(list@[k]),
                        ));
                    }
                }
                return Err(e);
            },
        }
        i = i + 1;
    }
    Ok(list)
}

/// What the default action ends in.
#[derive(Debug, PartialEq, Eq)]
pub enum ClientError {
    /// No host was given.
    NoHost,
    /// A forward spec is none.
    BadSpec(BadSpec),
    /// Neither a forward nor a profile was given.
    NoForwards,
    /// The forwards are known; starting the session is not implemented.
    NotStarted,
}

impl ClientError {
    /// The message that says why.
    pub open spec fn text(self) -> Seq<char> {
        match self {
            ClientError::NoHost => "no host given; usage: portmanager <host> <spec>..."@,
            ClientError::BadSpec(e) => bad_spec_text(e.spec@),
            ClientError::NoForwards => "no forwards given; pass at least one spec or --profile"@,
            ClientError::NotStarted => "session start not yet implemented (parsing works)"@,
        }
    }

    /// The message that says why.
    pub fn message(&self) -> (s: String)
        ensures
            s@ == self.text(),
    {
        match self {
            ClientError::NoHost => {
                "no host given; usage: portmanager <host> <spec>...".to_string()
            },
            ClientError::BadSpec(e) => e.message(),
            ClientError::NoForwards => {
                "no forwards given; pass at least one spec or --profile".to_string()
            },
            ClientError::NotStarted => {
                "session start not yet implemented (parsing works)".to_string()
            },
        }
    }
}

/// The default action: reads the forward set for a host. Gives the forwards, where
/// there is a session to start with them, and what the action ends in; it always
/// ends in an error, as starting the session is not implemented.
pub fn run_client<F: Fn(&String) -> Result<ForwardSpec, SpecError>>(
    args: &RunArgs,
    parse: F,
) -> (run: (Option<Vec<ForwardSpec>>, ClientError))
    requires
        forall|spec: &String| call_requires(parse, (spec,)),
    ensures
        args.host is None ==> run == (None::<Vec<ForwardSpec>>, ClientError::NoHost),
        args.host is Some ==> exists|parsed: Result<Vec<ForwardSpec>, BadSpec>|
            #[trigger] specs_parsed(parse, args.specs@, parsed) && run == match parsed {
                Err(e) => (None::<Vec<ForwardSpec>>, ClientError::BadSpec(e)),
                Ok(list) => if list@.len() == 0 && args.profile is None {
                    (None, ClientError::NoForwards)
                } else {
                    (Some(list), ClientError::NotStarted)
                },
            },
{
    if args.host.is_none() {
        return (None, ClientError::NoHost);
    }
    let parsed: Result<Vec<ForwardSpec>, BadSpec> = parse_specs(&args.specs, parse);
    match parsed {
        Err(e) => (None, ClientError::BadSpec(e)),
        Ok(list) => if list.len() == 0 && args.profile.is_none() {
            (None, ClientError::NoForwards)
        } else {
            (Some(list), ClientError::NotStarted)
        },
    }
}

} // verus!
