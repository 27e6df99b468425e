//! Resolution of the engine address. One textual form covers both a Unix
//! socket path and a TCP `host:port` (the client's `--socket` option and the
//! `KIKITORI_ENGINE` environment variable).
//!
//! Rule: a value starting with `/` is a Unix socket path; otherwise one that
//! contains `:` is TCP; anything else is a (relative) Unix socket path.

use vstd::prelude::*;

use crate::chars::{chars_of, copy_str};
use vstd::string::StringExecFns;

verus! {

/// Where the engine listens.
#[derive(Debug, PartialEq, Eq)]
pub enum Endpoint {
    Unix(String),
    Tcp(String),
}

/// Whether `value` names a TCP address under the rule above.
pub open spec fn is_tcp_address(value: Seq<char>) -> bool {
    !(value.len() > 0 && value[0] == '/') && value.contains(':')
}

/// The kind of endpoint that `value` denotes, and the text it carries.
pub open spec fn endpoint_matches(e: Endpoint, value: Seq<char>) -> bool {
    match e {
        Endpoint::Tcp(addr) => is_tcp_address(value) && addr@ == value,
        Endpoint::Unix(path) => !is_tcp_address(value) && path@ == value,
    }
}

/// Classifies `value` as a Unix socket path or a TCP address.
pub fn parse_endpoint(value: &str) -> (e: Endpoint)
    ensures
        endpoint_matches(e, value@),
{
    let cs = chars_of(value);
    if cs.len() > 0 && cs[0] == '/' {
        return Endpoint::Unix(copy_str(value));
    }
    let mut i: usize = 0;
    while i < cs.len()
        invariant
            i <= cs@.len(),
            cs@ == value@,
            !(cs@.len() > 0 && cs@[0] == '/'),
            forall|k: int| 0 <= k < i ==> cs@[k] != ':',
        decreases cs@.len() - i,
    {
        if cs[i] == ':' {
            assert(value@.contains(value@[i as int]));
            return Endpoint::Tcp(copy_str(value));
        }
        i = i + 1;
    }
    Endpoint::Unix(copy_str(value))
}

/// The text that names the engine: the command-line value if given, else
/// the `KIKITORI_ENGINE` value, else the default socket in the runtime
/// directory.
pub open spec fn chosen_engine_value(
    cli: Option<Seq<char>>,
    env: Option<Seq<char>>,
    runtime_dir: Option<Seq<char>>,
) -> Seq<char> {
    match cli {
        Some(v) => v,
        None => match env {
            Some(v) => v,
            None => runtime_dir.unwrap() + "/kikitori.sock"@,
        },
    }
}

pub open spec fn opt_view(o: Option<String>) -> Option<Seq<char>> {
    match o {
        Some(s) => Some(s@),
        None => None,
    }
}

/// The engine endpoint shared by the clients: the command-line value, then
/// the environment value, then `<runtime_dir>/kikitori.sock`. The runtime
/// directory is only needed when neither of the first two is given.
pub fn engine_endpoint(cli: Option<String>, env: Option<String>, runtime_dir: Option<String>) -> (e:
    Endpoint)
    requires
        cli is Some || env is Some || runtime_dir is Some,
    ensures
        endpoint_matches(e, chosen_engine_value(opt_view(cli), opt_view(env), opt_view(runtime_dir))),
{
    let value = match cli {
        Some(v) => v,
        None => match env {
            Some(v) => v,
            None => {
                let mut dir = runtime_dir.unwrap();
                dir.append("/kikitori.sock");
                dir
            },
        },
    };
    parse_endpoint(value.as_str())
}

} // verus!
