//! The session context an interactive sitting runs in: it owns the client
//! session and renders the prompt from the currently selected host.

use vstd::prelude::*;
use crate::actions::straitjacket::{CliError, StraitJacket};

verus! {

/// The session context: a thin owner of the client session state.
pub struct Context {
    pub straitjacket: StraitJacket,
}

impl Context {
    /// A fresh session with a ten-second request timeout and no host
    /// selected.
    pub fn new() -> (r: Result<Context, CliError>)
        ensures
            match r {
                Ok(c) => {
                    &&& c.straitjacket.client.host_url is None
                    &&& c.straitjacket.client.token is None
                    &&& c.straitjacket.client.timeout_ms == Some(10_000u64)
                    &&& c.straitjacket.response is None
                    &&& c.straitjacket.body is None
                    &&& c.straitjacket.hosts is None
                    &&& c.straitjacket.wf()
                },
                Err(_) => false,
            },
    {
        let sj = match StraitJacket::new(Some(10_000)) {
            Ok(sj) => sj,
            Err(e) => {
                return Err(e);
            },
        };
        Ok(Context { straitjacket: sj })
    }

    /// The prompt: the selected host's URL, if any, followed by `">> "`.
    pub fn prompt(&self) -> (r: String)
        ensures
            match self.straitjacket.client.host_url {
                Some(u) => r@ == u@ + ">> "@,
                None => r@ == ">> "@,
            },
    {
        match self.straitjacket.host_url() {
            Some(u) => {
                let mut s = u.as_str().to_owned();
                s.append(">> ");
                s
            },
            None => ">> ".to_owned(),
        }
    }

    /// The client session, for mutation.
    pub fn straitjacket_mut(&mut self) -> (r: &mut StraitJacket)
        ensures
            *r == old(self).straitjacket,
            final(self).straitjacket == *final(r),
    {
        &mut self.straitjacket
    }

    /// The client session.
    pub fn straitjacket(&self) -> (r: &StraitJacket)
        ensures
            *r == self.straitjacket,
    {
        &self.straitjacket
    }

    /// Selects (or clears) the host; see [`StraitJacket::set_host`].
    pub fn set_host(&mut self, host: Option<&str>) -> (r: Result<(), CliError>)
        ensures
            final(self).straitjacket.client.token == old(self).straitjacket.client.token,
            match host {
                None => r is Ok && final(self).straitjacket.client.host_url is None,
                Some(s) => {
                    if crate::actions::straitjacket::valid_url(s@) {
                        &&& r is Ok
                        &&& match final(self).straitjacket.client.host_url {
                            Some(u) => u@ == s@,
                            None => false,
                        }
                    } else {
                        r is Err && *final(self) == *old(self)
                    }
                },
            },
            old(self).straitjacket.wf() ==> final(self).straitjacket.wf(),
    {
        match self.straitjacket.set_host(host) {
            Ok(()) => Ok(()),
            Err(e) => Err(e),
        }
    }

    /// Replaces (or clears) the auth token; never fails.
    pub fn set_token(&mut self, token: Option<String>) -> (r: Result<(), CliError>)
        ensures
            r is Ok,
            final(self).straitjacket.client.token == token,
            final(self).straitjacket.client.host_url == old(self).straitjacket.client.host_url,
    {
        self.straitjacket.set_token(token)
    }
}

} // verus!
