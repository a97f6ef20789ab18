//! A known remote endpoint. Identity and ordering of hosts are defined solely
//! by the URL string; the token never affects where a host stands in the
//! root's sorted collection.

use vstd::prelude::*;
use crate::actions::ShellContext;
use crate::actions::service::Service;
use crate::actions::straitjacket::{CliError, CommandAction, Url, valid_url};
use crate::readline::NextContext;
use crate::text::str_eq;

verus! {

/// One remote endpoint the user has registered: its URL, the auth token to
/// use against it, and the services fetched from it so far.
pub struct Host {
    pub url: Url,
    pub token: String,
    pub services: Vec<Service>,
}

impl Host {
    /// The held URL is valid.
    pub open spec fn wf(&self) -> bool {
        self.url.wf()
    }

    /// Accepts exactly the strings [`valid_url`] accepts; the new host carries
    /// the URL and token unchanged and no services yet.
    pub fn new(host_url: &str, token: &str) -> (r: Result<Host, CliError>)
        ensures
            match r {
                Ok(h) => valid_url(host_url@) && h.url@ == host_url@ && h.token@ == token@
                    && h.services@.len() == 0 && h.wf(),
                Err(e) => !valid_url(host_url@) && e@
                    == "invalid URL: expected <scheme>://<rest>"@,
            },
    {
        let url = match Url::parse(host_url) {
            Ok(u) => u,
            Err(e) => {
                return Err(e);
            },
        };
        Ok(Host { url, token: token.to_owned(), services: Vec::new() })
    }

    /// The endpoint's address.
    pub fn url(&self) -> (r: &Url)
        ensures
            *r == self.url,
    {
        &self.url
    }

    /// The endpoint's address as a string slice.
    pub fn url_str(&self) -> (r: &str)
        ensures
            r@ == self.url@,
    {
        self.url.as_str()
    }

    /// The current auth token.
    pub fn token(&self) -> (r: &str)
        ensures
            r@ == self.token@,
    {
        self.token.as_str()
    }

    /// Replaces the token, returning the previous one. URL and services are
    /// untouched.
    pub fn set_token(&mut self, token: String) -> (r: String)
        ensures
            r == old(self).token,
            final(self).token == token,
            final(self).url == old(self).url,
            final(self).services == old(self).services,
    {
        let mut t = token;
        core::mem::swap(&mut self.token, &mut t);
        t
    }
}

/// The per-host scope: one selected endpoint, owning its URL and the token
/// commands against it run under.
pub struct HostCtx {
    pub url: Url,
    pub token: String,
}

impl HostCtx {
    /// The held URL is valid.
    pub open spec fn wf(&self) -> bool {
        self.url.wf()
    }

    /// A scope for the endpoint at `url` with auth token `token`.
    pub fn new(url: Url, token: String) -> (r: HostCtx)
        ensures
            r.url == url,
            r.token == token,
    {
        HostCtx { url, token }
    }

    /// The prompt names the selected endpoint: it is exactly the URL.
    pub fn prompt(&self) -> (r: &str)
        ensures
            r@ == self.url@,
    {
        self.url.as_str()
    }

    /// The scope's commands: `token` reports the current token without
    /// changing anything, `token <token>` replaces it, and `back` returns to
    /// the parent scope — by the engine's convention it reports `NotFound`
    /// beside the `Pop`. Anything else is unrecognized and navigates nowhere.
    pub fn command(&mut self, cmd: &str, args: &[String]) -> (r: (
        CommandAction,
        NextContext<ShellContext>,
    ))
        ensures
            final(self).url == old(self).url,
            cmd@ == "back"@ ==> {
                &&& *final(self) == *old(self)
                &&& r.0 is NotFound
                &&& match r.1 {
                    NextContext::Pop(rep) => rep is None,
                    _ => false,
                }
            },
            cmd@ == "token"@ && args@.len() == 0 ==> {
                &&& *final(self) == *old(self)
                &&& match r.0 {
                    CommandAction::NoProgress(m) => m@ == "token: "@ + old(self).token@,
                    _ => false,
                }
                &&& r.1 is Unchanged
            },
            cmd@ == "token"@ && args@.len() == 1 ==> {
                &&& final(self).token@ == args@[0]@
                &&& match r.0 {
                    CommandAction::SideEffect(m) => m@ == "Replaced token "@ + old(self).token@
                        + "."@,
                    _ => false,
                }
                &&& r.1 is Unchanged
            },
            cmd@ == "token"@ && args@.len() >= 2 ==> {
                &&& *final(self) == *old(self)
                &&& match r.0 {
                    CommandAction::Usage(m) => m@ == "usage: token [<token>]"@,
                    _ => false,
                }
                &&& r.1 is Unchanged
            },
            cmd@ != "back"@ && cmd@ != "token"@ ==> {
                &&& *final(self) == *old(self)
                &&& r.0 is NotFound
                &&& r.1 is Unchanged
            },
    {
        proof {
            reveal_strlit("back");
            reveal_strlit("token");
            assert("back"@.len() == 4);
            assert("token"@.len() == 5);
        }
        if str_eq(cmd, "back") {
            (CommandAction::NotFound, NextContext::Pop(None))
        } else if str_eq(cmd, "token") {
            if args.len() == 0 {
                let mut m = "token: ".to_owned();
                m.append(self.token.as_str());
                (CommandAction::NoProgress(m), NextContext::Unchanged)
            } else if args.len() == 1 {
                let mut m = "Replaced token ".to_owned();
                m.append(self.token.as_str());
                m.append(".");
                self.token = args[0].clone();
                (CommandAction::SideEffect(m), NextContext::Unchanged)
            } else {
                (CommandAction::Usage("usage: token [<token>]".to_owned()), NextContext::Unchanged)
            }
        } else {
            (CommandAction::NotFound, NextContext::Unchanged)
        }
    }
}

} // verus!
