//! Argument parsing shared by the two clients (`kikitori` and
//! `kikitori-cli`).
//!
//! A query such as `kikitori --version` must never start a recording
//! session (which would hold the microphone and the control socket), so
//! query flags and unknown arguments are handled here, before anything else.

use vstd::prelude::*;

use crate::chars::{copy_str, str_eq};
use crate::endpoint::opt_view;
use vstd::string::StringExecFns;

verus! {

/// Result of parsing.
#[derive(Debug, PartialEq)]
pub enum Command {
    /// Normal run: start a recording session.
    Run(Options),
    /// `--version`: print name and version and exit successfully.
    Version,
    /// `--help`: print the usage and exit successfully.
    Help,
}

/// Settings of a normal run.
#[derive(Debug, Default, PartialEq)]
pub struct Options {
    /// `--socket PATH`: the engine endpoint, given explicitly.
    pub socket: Option<String>,
    /// `--wtype`: type the committed text with wtype (`kikitori-cli` only).
    pub wtype: bool,
}

/// What an argument list means, in terms of character sequences.
pub enum Outcome {
    Run { socket: Option<Seq<char>>, wtype: bool },
    Version,
    Help,
    /// An argument that is not accepted here.
    Unknown(Seq<char>),
    /// An option that needs a value came last.
    MissingValue(Seq<char>),
}

/// The meaning of `args`, read left to right, given the options gathered
/// so far. The first query flag, unknown argument or missing value decides.
pub open spec fn outcome_from(
    args: Seq<Seq<char>>,
    accept_wtype: bool,
    socket: Option<Seq<char>>,
    wtype: bool,
) -> Outcome
    decreases args.len(),
{
    if args.len() == 0 {
        Outcome::Run { socket, wtype }
    } else {
        let a = args[0];
        if a == "--version"@ {
            Outcome::Version
        } else if a == "--help"@ {
            Outcome::Help
        } else if a == "--socket"@ {
            if args.len() < 2 {
                Outcome::MissingValue(a)
            } else {
                outcome_from(args.skip(2), accept_wtype, Some(args[1]), wtype)
            }
        } else if a == "--wtype"@ && accept_wtype {
            outcome_from(args.skip(1), accept_wtype, socket, true)
        } else {
            Outcome::Unknown(a)
        }
    }
}

/// A query flag wins over the valid options before it: whatever follows
/// it, the query is answered and no session starts.
pub proof fn lemma_query_wins(
    args: Seq<Seq<char>>,
    q: Seq<char>,
    rest: Seq<Seq<char>>,
    accept_wtype: bool,
    socket: Option<Seq<char>>,
    wtype: bool,
)
    requires
        outcome_from(args, accept_wtype, socket, wtype) is Run,
        q == "--version"@ || q == "--help"@,
    ensures
        outcome_from(args + seq![q] + rest, accept_wtype, socket, wtype) == (if q == "--version"@ {
            Outcome::Version
        } else {
            Outcome::Help
        }),
    decreases args.len(),
{
    reveal_strlit("--version");
    reveal_strlit("--help");
    let all = args + seq![q] + rest;
    if args.len() == 0 {
        assert(all[0] == q);
    } else {
        let a = args[0];
        assert(all[0] == a);
        if a == "--socket"@ {
            assert(all[1] == args[1]);
            assert(all.skip(2) =~= args.skip(2) + seq![q] + rest);
            lemma_query_wins(args.skip(2), q, rest, accept_wtype, Some(args[1]), wtype);
        } else {
            assert(all.skip(1) =~= args.skip(1) + seq![q] + rest);
            lemma_query_wins(args.skip(1), q, rest, accept_wtype, socket, true);
        }
    }
}

pub open spec fn args_view(args: Seq<String>) -> Seq<Seq<char>> {
    args.map_values(|a: String| a@)
}

/// The message of an unknown argument.
pub open spec fn unknown_message(a: Seq<char>) -> Seq<char> {
    "unknown argument: "@ + a
}

/// The message of an option without its value.
pub open spec fn missing_value_message(a: Seq<char>) -> Seq<char> {
    a + " needs a value"@
}

/// Whether `r` is the parse result that `o` describes.
pub open spec fn result_matches(r: Result<Command, String>, o: Outcome) -> bool {
    match o {
        Outcome::Run { socket, wtype } => r matches Ok(Command::Run(opts)) && opt_view(opts.socket)
            == socket && opts.wtype == wtype,
        Outcome::Version => r matches Ok(Command::Version),
        Outcome::Help => r matches Ok(Command::Help),
        Outcome::Unknown(a) => r matches Err(m) && m@ == unknown_message(a),
        Outcome::MissingValue(a) => r matches Err(m) && m@ == missing_value_message(a),
    }
}

/// Parses the arguments that follow the program name.
///
/// Where `accept_wtype` is false, `--wtype` is refused like any unknown
/// argument: a flag that is silently ignored would look as if it worked.
pub fn parse(args: Vec<String>, accept_wtype: bool) -> (r: Result<Command, String>)
    ensures
        result_matches(r, outcome_from(args_view(args@), accept_wtype, None, false)),
{
    let ghost all = args_view(args@);
    let mut socket: Option<String> = None;
    let mut wtype = false;
    let mut i: usize = 0;
    assert(all.skip(0) == all);
    while i < args.len()
        invariant
            i <= args@.len(),
            all == args_view(args@),
            outcome_from(all, accept_wtype, None, false) == outcome_from(
                all.skip(i as int),
                accept_wtype,
                opt_view(socket),
                wtype,
            ),
        decreases args@.len() - i,
    {
        let a = args[i].as_str();
        let ghost rest = all.skip(i as int);
        assert(rest[0] == a@);
        if str_eq(a, "--version") {
            return Ok(Command::Version);
        } else if str_eq(a, "--help") {
            return Ok(Command::Help);
        } else if str_eq(a, "--socket") {
            if i + 1 >= args.len() {
                let mut m = copy_str(a);
                m.append(" needs a value");
                return Err(m);
            }
            assert(rest[1] == args@[i + 1]@);
            assert(rest.skip(2) == all.skip(i + 2));
            socket = Some(copy_str(args[i + 1].as_str()));
            i = i + 2;
        } else if accept_wtype && str_eq(a, "--wtype") {
            assert(rest.skip(1) == all.skip(i + 1));
            wtype = true;
            i = i + 1;
        } else {
            let mut m = String::from_str("unknown argument: ");
            m.append(a);
            return Err(m);
        }
    }
    Ok(Command::Run(Options { socket, wtype }))
}

} // verus!
