//! The example contexts built on the navigation protocol: the root scope with
//! its collection of known hosts, and the per-host scope — together the
//! tagged union the dispatch engine owns — plus the parser for the arguments
//! of an API call command.

use vstd::prelude::*;

pub mod context;
pub mod host;
pub mod root;
pub mod service;
pub mod straitjacket;

pub use context::Context;

use crate::actions::host::HostCtx;
use crate::actions::root::RootCtx;
use crate::actions::straitjacket::{CliError, CommandAction, Method};
use crate::readline::{NextContext, ReadLineContext, StackModel, apply_next_spec};
use crate::text::{join_spaced, joined, str_eq, tokenize, tokens_of};

verus! {

/// The scopes this shell dispatches between. Consumers with further scopes
/// would extend this union; the engine itself never names a concrete variant.
pub enum ShellContext {
    Root(RootCtx),
    Host(HostCtx),
}

impl ReadLineContext for ShellContext {
    open spec fn wf(&self) -> bool {
        match self {
            ShellContext::Root(rc) => rc.root.wf(),
            ShellContext::Host(hc) => hc.wf(),
        }
    }

    open spec fn prompt_spec(&self) -> Seq<char> {
        match self {
            ShellContext::Root(_) => "(root)"@,
            ShellContext::Host(hc) => hc.url@,
        }
    }

    fn prompt(&self) -> (r: &str) {
        match self {
            ShellContext::Root(rc) => rc.prompt(),
            ShellContext::Host(hc) => hc.prompt(),
        }
    }

    fn command(&mut self, cmd: &str, args: &[String]) -> (r: (
        CommandAction,
        NextContext<ShellContext>,
    )) {
        match self {
            ShellContext::Root(rc) => rc.command(cmd, args),
            ShellContext::Host(hc) => hc.command(cmd, args),
        }
    }
}

/// After the dispatch loop applies the descent a successful host selection
/// returns, the active context reports that host's prompt: the selected URL,
/// not the root's prompt.
pub proof fn lemma_selected_host_prompt(s: StackModel<ShellContext>, hc: HostCtx)
    ensures
        apply_next_spec(s, NextContext::Push(ShellContext::Host(hc))).active.prompt_spec()
            == hc.url@,
{
}

/// What an HTTP method token means; unknown tokens mean nothing.
pub open spec fn method_of(s: Seq<char>) -> Option<Method> {
    if s == "GET"@ || s == "get"@ {
        Some(Method::GET)
    } else if s == "POST"@ || s == "post"@ {
        Some(Method::POST)
    } else if s == "PUT"@ || s == "put"@ {
        Some(Method::PUT)
    } else if s == "DELETE"@ || s == "delete"@ {
        Some(Method::DELETE)
    } else {
        None
    }
}

/// Parses the arguments of an API call command into a method, a path, and an
/// optional query string and body. The arguments are re-joined by whitespace
/// and re-split, so multi-word arguments may arrive as one token or several.
pub fn parse_call_args(args: &[String]) -> (r: Result<
    (Method, String, Option<String>, Option<String>),
    CliError,
>)
    ensures
        ({
            let ws = tokens_of(joined(args.deep_view()));
            if ws.len() < 2 {
                match r {
                    Err(e) => e@ == "not enough parameters"@,
                    Ok(_) => false,
                }
            } else if method_of(ws[0]) is None {
                match r {
                    Err(e) => e@ == "unknown method"@,
                    Ok(_) => false,
                }
            } else {
                match r {
                    Ok((method, path, qs, body)) => {
                        &&& Some(method) == method_of(ws[0])
                        &&& path@ == ws[1]
                        &&& match qs {
                            Some(q) => ws.len() >= 3 && q@ == ws[2],
                            None => ws.len() == 2,
                        }
                        &&& match body {
                            Some(b) => ws.len() >= 4 && b@ == ws[3],
                            None => ws.len() <= 3,
                        }
                    },
                    Err(_) => false,
                }
            }
        }),
{
    let line = join_spaced(args);
    let words = tokenize(line.as_str());
    if words.len() < 2 {
        return Err(CliError::new("not enough parameters"));
    }
    let w0 = words[0].as_str();
    let method = if str_eq(w0, "GET") || str_eq(w0, "get") {
        Method::GET
    } else if str_eq(w0, "POST") || str_eq(w0, "post") {
        Method::POST
    } else if str_eq(w0, "PUT") || str_eq(w0, "put") {
        Method::PUT
    } else if str_eq(w0, "DELETE") || str_eq(w0, "delete") {
        Method::DELETE
    } else {
        return Err(CliError::new("unknown method"));
    };
    let path = words[1].clone();
    let qs = if words.len() >= 3 {
        Some(words[2].clone())
    } else {
        None
    };
    let body = if words.len() >= 4 {
        Some(words[3].clone())
    } else {
        None
    };
    Ok((method, path, qs, body))
}

} // verus!
