//! The root scope: the collection of known remote endpoints, keyed by URL
//! string and kept strictly sorted for deterministic lookup. Lookup is a
//! binary search; insertion keeps the sorted order.

use vstd::prelude::*;
use crate::actions::ShellContext;
use crate::actions::host::{Host, HostCtx};
use crate::actions::straitjacket::{CliError, CommandAction, valid_url};
use crate::readline::NextContext;
use crate::text::{Rel, lemma_lex_asymmetric, lemma_lex_transitive, lex_lt, str_cmp, str_eq};

verus! {

/// The URL strings of the hosts, in collection order.
pub open spec fn host_urls(hosts: Seq<Host>) -> Seq<Seq<char>> {
    hosts.map(|i: int, h: Host| h.url@)
}

/// The collection of known remote endpoints.
pub struct Root {
    pub hosts: Vec<Host>,
}

impl Root {
    /// The collection is strictly sorted by URL — so each URL appears at most
    /// once — and every entry holds a valid URL.
    pub open spec fn wf(&self) -> bool {
        &&& forall|i: int, j: int|
            0 <= i < j < self.hosts@.len() ==> lex_lt(
                self.hosts@[i].url@,
                self.hosts@[j].url@,
            )
        &&& forall|i: int| 0 <= i < self.hosts@.len() ==> (#[trigger] self.hosts@[i]).wf()
    }

    /// Some entry holds this URL.
    pub open spec fn contains_url(&self, url: Seq<char>) -> bool {
        exists|i: int| 0 <= i < self.hosts@.len() && (#[trigger] self.hosts@[i]).url@ == url
    }

    /// An empty, trivially sorted collection.
    pub fn new() -> (r: Root)
        ensures
            r.hosts@.len() == 0,
            r.wf(),
    {
        Root { hosts: Vec::new() }
    }

    /// The entries, in sorted order.
    pub fn hosts(&self) -> (r: &Vec<Host>)
        ensures
            *r == self.hosts,
    {
        &self.hosts
    }

    /// In a strictly sorted collection no URL appears twice.
    pub proof fn lemma_sorted_urls_unique(&self)
        requires
            self.wf(),
        ensures
            forall|i: int, j: int|
                0 <= i < j < self.hosts@.len() ==> (#[trigger] self.hosts@[i]).url@ != (
                #[trigger] self.hosts@[j]).url@,
    {
        assert forall|i: int, j: int| 0 <= i < j < self.hosts@.len() implies (
        #[trigger] self.hosts@[i]).url@ != (#[trigger] self.hosts@[j]).url@ by {
            lemma_lex_asymmetric(self.hosts@[i].url@, self.hosts@[j].url@);
        }
    }

    /// Binary search by URL string: `Ok` carries the index of the entry with
    /// this URL, `Err` the position at which it would have to be inserted to
    /// keep the collection sorted.
    pub fn host_search(&self, host_url: &str) -> (r: Result<usize, usize>)
        requires
            self.wf(),
        ensures
            match r {
                Ok(i) => i < self.hosts@.len() && self.hosts@[i as int].url@ == host_url@,
                Err(i) => {
                    &&& i <= self.hosts@.len()
                    &&& !self.contains_url(host_url@)
                    &&& forall|k: int|
                        0 <= k < i ==> lex_lt((#[trigger] self.hosts@[k]).url@, host_url@)
                    &&& forall|k: int|
                        i <= k < self.hosts@.len() ==> lex_lt(
                            host_url@,
                            (#[trigger] self.hosts@[k]).url@,
                        )
                },
            },
    {
        let mut lo: usize = 0;
        let mut hi: usize = self.hosts.len();
        while lo < hi
            invariant
                0 <= lo <= hi <= self.hosts@.len(),
                self.wf(),
                forall|k: int| 0 <= k < lo ==> lex_lt((#[trigger] self.hosts@[k]).url@, host_url@),
                forall|k: int|
                    hi <= k < self.hosts@.len() ==> lex_lt(
                        host_url@,
                        (#[trigger] self.hosts@[k]).url@,
                    ),
            decreases hi - lo,
        {
            let mid = lo + (hi - lo) / 2;
            let entry = &self.hosts[mid];
            match str_cmp(entry.url_str(), host_url) {
                Rel::Lt => {
                    proof {
                        assert forall|k: int| 0 <= k < mid + 1 implies lex_lt(
                            (#[trigger] self.hosts@[k]).url@,
                            host_url@,
                        ) by {
                            if k < mid {
                                lemma_lex_transitive(
                                    self.hosts@[k].url@,
                                    self.hosts@[mid as int].url@,
                                    host_url@,
                                );
                            }
                        }
                    }
                    lo = mid + 1;
                },
                Rel::Eq => {
                    return Ok(mid);
                },
                Rel::Gt => {
                    proof {
                        assert forall|k: int| mid <= k < self.hosts@.len() implies lex_lt(
                            host_url@,
                            (#[trigger] self.hosts@[k]).url@,
                        ) by {
                            if k > mid {
                                lemma_lex_transitive(
                                    host_url@,
                                    self.hosts@[mid as int].url@,
                                    self.hosts@[k].url@,
                                );
                            }
                        }
                    }
                    hi = mid;
                },
            }
        }
        proof {
            assert forall|i: int| 0 <= i < self.hosts@.len() implies (
            #[trigger] self.hosts@[i]).url@ != host_url@ by {
                if i < lo {
                    lemma_lex_asymmetric(self.hosts@[i].url@, host_url@);
                } else {
                    lemma_lex_asymmetric(host_url@, self.hosts@[i].url@);
                }
            }
        }
        Err(lo)
    }

    /// Looks an entry up by exact URL string.
    pub fn get_host(&self, host_url: &str) -> (r: Option<&Host>)
        requires
            self.wf(),
        ensures
            match r {
                Some(h) => {
                    &&& self.contains_url(host_url@)
                    &&& h.url@ == host_url@
                    &&& exists|i: int|
                        0 <= i < self.hosts@.len() && (#[trigger] self.hosts@[i]) == *h
                },
                None => !self.contains_url(host_url@),
            },
    {
        match self.host_search(host_url) {
            Ok(idx) => Some(&self.hosts[idx]),
            Err(_) => None,
        }
    }

    /// Looks an entry up by exact URL string; `Err` carries the insertion
    /// position as [`Root::host_search`] does.
    pub fn find_host(&self, host_url: &str) -> (r: Result<&Host, usize>)
        requires
            self.wf(),
        ensures
            match r {
                Ok(h) => {
                    &&& self.contains_url(host_url@)
                    &&& h.url@ == host_url@
                    &&& exists|i: int|
                        0 <= i < self.hosts@.len() && (#[trigger] self.hosts@[i]) == *h
                },
                Err(i) => {
                    &&& i <= self.hosts@.len()
                    &&& !self.contains_url(host_url@)
                    &&& forall|k: int|
                        0 <= k < i ==> lex_lt((#[trigger] self.hosts@[k]).url@, host_url@)
                    &&& forall|k: int|
                        i <= k < self.hosts@.len() ==> lex_lt(
                            host_url@,
                            (#[trigger] self.hosts@[k]).url@,
                        )
                },
            },
    {
        match self.host_search(host_url) {
            Ok(idx) => Ok(&self.hosts[idx]),
            Err(i) => Err(i),
        }
    }

    /// Removes the entry with this URL, if present, keeping the order of the
    /// rest.
    pub fn remove_host(&mut self, host_url: &str) -> (r: Option<Host>)
        requires
            old(self).wf(),
        ensures
            final(self).wf(),
            match r {
                Some(h) => {
                    &&& old(self).contains_url(host_url@)
                    &&& h.url@ == host_url@
                    &&& final(self).hosts@.len() == old(self).hosts@.len() - 1
                    &&& exists|i: int|
                        {
                            &&& 0 <= i < old(self).hosts@.len()
                            &&& h == old(self).hosts@[i]
                            &&& final(self).hosts@ == old(self).hosts@.remove(i)
                        }
                },
                None => !old(self).contains_url(host_url@) && *final(self) == *old(self),
            },
    {
        let idx = match self.host_search(host_url) {
            Ok(idx) => idx,
            Err(_) => {
                return None;
            },
        };
        let h = self.hosts.remove(idx);
        proof {
            old(self).hosts@.remove_ensures(idx as int);
            assert forall|i: int, j: int| 0 <= i < j < self.hosts@.len() implies lex_lt(
                self.hosts@[i].url@,
                self.hosts@[j].url@,
            ) by {
                let oi = if i < idx {
                    i
                } else {
                    i + 1
                };
                let oj = if j < idx {
                    j
                } else {
                    j + 1
                };
                assert(self.hosts@[i] == old(self).hosts@[oi]);
                assert(self.hosts@[j] == old(self).hosts@[oj]);
            }
            assert forall|i: int| 0 <= i < self.hosts@.len() implies (
            #[trigger] self.hosts@[i]).wf() by {
                let oi = if i < idx {
                    i
                } else {
                    i + 1
                };
                assert(self.hosts@[i] == old(self).hosts@[oi]);
                assert(old(self).hosts@[oi].wf());
            }
        }
        Some(h)
    }

    /// The idempotent upsert behind `host <url> <token>`: an existing entry
    /// keeps its place and only its token changes (the previous one is
    /// returned); a new entry is inserted at its sorted position. Rejected
    /// exactly when the URL is new and invalid, leaving everything unchanged.
    pub fn add_host_by_url(&mut self, host_url: &str, token: &str) -> (r: Result<
        (usize, Option<String>),
        CliError,
    >)
        requires
            old(self).wf(),
        ensures
            final(self).wf(),
            match r {
                Ok((idx, prev)) => match prev {
                    Some(t) => {
                        &&& idx < old(self).hosts@.len()
                        &&& old(self).hosts@[idx as int].url@ == host_url@
                        &&& old(self).contains_url(host_url@)
                        &&& t == old(self).hosts@[idx as int].token
                        &&& final(self).hosts@.len() == old(self).hosts@.len()
                        &&& final(self).hosts@[idx as int].url == old(self).hosts@[idx as int].url
                        &&& final(self).hosts@[idx as int].token@ == token@
                        &&& final(self).hosts@[idx as int].services == old(
                            self,
                        ).hosts@[idx as int].services
                        &&& forall|k: int|
                            0 <= k < old(self).hosts@.len() && k != idx
                                ==> final(self).hosts@[k] == old(self).hosts@[k]
                        &&& host_urls(final(self).hosts@) == host_urls(old(self).hosts@)
                    },
                    None => {
                        &&& !old(self).contains_url(host_url@)
                        &&& valid_url(host_url@)
                        &&& idx <= old(self).hosts@.len()
                        &&& final(self).hosts@.len() == old(self).hosts@.len() + 1
                        &&& final(self).hosts@[idx as int].url@ == host_url@
                        &&& final(self).hosts@[idx as int].token@ == token@
                        &&& final(self).hosts@[idx as int].services@.len() == 0
                        &&& forall|k: int|
                            0 <= k < idx ==> final(self).hosts@[k] == old(self).hosts@[k]
                        &&& forall|k: int|
                            idx < k < final(self).hosts@.len() ==> final(self).hosts@[k] == old(
                                self,
                            ).hosts@[k - 1]
                        &&& final(self).contains_url(host_url@)
                    },
                },
                Err(e) => {
                    &&& !valid_url(host_url@)
                    &&& !old(self).contains_url(host_url@)
                    &&& e@ == "invalid URL: expected <scheme>://<rest>"@
                    &&& *final(self) == *old(self)
                },
            },
    {
        match self.host_search(host_url) {
            Ok(idx) => {
                let prev = self.hosts[idx].set_token(token.to_owned());
                proof {
                    assert forall|i: int, j: int| 0 <= i < j < self.hosts@.len() implies lex_lt(
                        self.hosts@[i].url@,
                        self.hosts@[j].url@,
                    ) by {
                        assert(self.hosts@[i].url@ == old(self).hosts@[i].url@);
                        assert(self.hosts@[j].url@ == old(self).hosts@[j].url@);
                    }
                    assert forall|i: int| 0 <= i < self.hosts@.len() implies (
                    #[trigger] self.hosts@[i]).wf() by {
                        assert(old(self).hosts@[i].wf());
                        assert(self.hosts@[i].url == old(self).hosts@[i].url);
                    }
                    assert(host_urls(self.hosts@) =~= host_urls(old(self).hosts@));
                }
                Ok((idx, Some(prev)))
            },
            Err(idx) => {
                let h = match Host::new(host_url, token) {
                    Ok(h) => h,
                    Err(e) => {
                        return Err(e);
                    },
                };
                self.hosts.insert(idx, h);
                proof {
                    old(self).hosts@.insert_ensures(idx as int, h);
                    assert forall|i: int, j: int| 0 <= i < j < self.hosts@.len() implies lex_lt(
                        self.hosts@[i].url@,
                        self.hosts@[j].url@,
                    ) by {
                        if j < idx {
                            assert(self.hosts@[i] == old(self).hosts@[i]);
                            assert(self.hosts@[j] == old(self).hosts@[j]);
                        } else if j == idx {
                            assert(self.hosts@[i] == old(self).hosts@[i]);
                            assert(lex_lt(old(self).hosts@[i].url@, host_url@));
                        } else if i < idx {
                            assert(self.hosts@[i] == old(self).hosts@[i]);
                            assert(self.hosts@[j] == old(self).hosts@[j - 1]);
                            assert(lex_lt(host_url@, old(self).hosts@[j - 1].url@));
                            lemma_lex_transitive(
                                old(self).hosts@[i].url@,
                                host_url@,
                                old(self).hosts@[j - 1].url@,
                            );
                        } else if i == idx {
                            assert(self.hosts@[j] == old(self).hosts@[j - 1]);
                            assert(lex_lt(host_url@, old(self).hosts@[j - 1].url@));
                        } else {
                            assert(self.hosts@[i] == old(self).hosts@[i - 1]);
                            assert(self.hosts@[j] == old(self).hosts@[j - 1]);
                        }
                    }
                    assert forall|i: int| 0 <= i < self.hosts@.len() implies (
                    #[trigger] self.hosts@[i]).wf() by {
                        if i < idx {
                            assert(self.hosts@[i] == old(self).hosts@[i]);
                            assert(old(self).hosts@[i].wf());
                        } else if i > idx {
                            assert(self.hosts@[i] == old(self).hosts@[i - 1]);
                            assert(old(self).hosts@[i - 1].wf());
                        }
                    }
                    assert(self.hosts@[idx as int].url@ == host_url@);
                }
                Ok((idx, None))
            },
        }
    }
}

/// The root scope as a dispatchable context: it owns the host collection.
pub struct RootCtx {
    pub root: Root,
}

impl RootCtx {
    /// Wraps an existing collection.
    pub fn new(root: Root) -> (r: RootCtx)
        ensures
            r.root == root,
    {
        RootCtx { root }
    }

    /// The root scope's fixed prompt.
    pub fn prompt(&self) -> (r: &str)
        ensures
            r@ == "(root)"@,
    {
        "(root)"
    }

    /// The root scope's commands. `host <url>` descends into a known host and
    /// fails — without navigating — on an unknown one; `host <url> <token>`
    /// upserts: an existing entry keeps its place and reports the replaced
    /// token, a new one reports its creation; `host` with any other arity is
    /// a usage error; anything else is unrecognized.
    pub fn command(&mut self, cmd: &str, args: &[String]) -> (r: (
        CommandAction,
        NextContext<ShellContext>,
    ))
        requires
            old(self).root.wf(),
        ensures
            final(self).root.wf(),
            cmd@ == "host"@ && args@.len() == 1 ==> {
                let url = args@[0]@;
                if old(self).root.contains_url(url) {
                    &&& *final(self) == *old(self)
                    &&& match r.0 {
                        CommandAction::SideEffect(m) => m@ == "Selected host: "@ + url,
                        _ => false,
                    }
                    &&& match r.1 {
                        NextContext::Push(c) => match c {
                            ShellContext::Host(hc) => {
                                &&& hc.url@ == url
                                &&& hc.wf()
                                &&& exists|i: int|
                                    {
                                        &&& 0 <= i < old(self).root.hosts@.len()
                                        &&& (#[trigger] old(self).root.hosts@[i]).url@ == url
                                        &&& hc.token@ == old(self).root.hosts@[i].token@
                                    }
                            },
                            _ => false,
                        },
                        _ => false,
                    }
                } else {
                    &&& *final(self) == *old(self)
                    &&& match r.0 {
                        CommandAction::Failed(m) => m@
                            == "Host not found. If you want to add it, specify a token."@,
                        _ => false,
                    }
                    &&& r.1 is Unchanged
                }
            },
            cmd@ == "host"@ && args@.len() == 2 ==> {
                let url = args@[0]@;
                let tok = args@[1]@;
                &&& r.1 is Unchanged
                &&& if old(self).root.contains_url(url) {
                    &&& host_urls(final(self).root.hosts@) == host_urls(old(self).root.hosts@)
                    &&& final(self).root.hosts@.len() == old(self).root.hosts@.len()
                    &&& exists|i: int|
                        {
                            &&& 0 <= i < old(self).root.hosts@.len()
                            &&& (#[trigger] old(self).root.hosts@[i]).url@ == url
                            &&& final(self).root.hosts@[i].token@ == tok
                            &&& match r.0 {
                                CommandAction::SideEffect(m) => m@ == "Replaced "@ + url
                                    + "'s token "@ + old(self).root.hosts@[i].token@ + "."@,
                                _ => false,
                            }
                            &&& forall|k: int|
                                0 <= k < old(self).root.hosts@.len() && k != i
                                    ==> final(self).root.hosts@[k] == old(self).root.hosts@[k]
                        }
                } else if valid_url(url) {
                    &&& match r.0 {
                        CommandAction::SideEffect(m) => m@ == "Host added: "@ + url,
                        _ => false,
                    }
                    &&& final(self).root.contains_url(url)
                    &&& final(self).root.hosts@.len() == old(self).root.hosts@.len() + 1
                    &&& exists|i: int|
                        {
                            &&& 0 <= i <= old(self).root.hosts@.len()
                            &&& (#[trigger] final(self).root.hosts@[i]).url@ == url
                            &&& final(self).root.hosts@[i].token@ == tok
                            &&& forall|k: int|
                                0 <= k < i
                                    ==> final(self).root.hosts@[k] == old(self).root.hosts@[k]
                            &&& forall|k: int|
                                i < k < final(self).root.hosts@.len()
                                    ==> final(self).root.hosts@[k] == old(self).root.hosts@[k - 1]
                        }
                } else {
                    &&& match r.0 {
                        CommandAction::Failed(m) => m@ == "invalid URL: expected <scheme>://<rest>"@,
                        _ => false,
                    }
                    &&& *final(self) == *old(self)
                }
            },
            cmd@ == "host"@ && args@.len() != 1 && args@.len() != 2 ==> {
                &&& *final(self) == *old(self)
                &&& match r.0 {
                    CommandAction::Usage(m) => m@ == "usage: host <3scale-system-host> [<token>]"@,
                    _ => false,
                }
                &&& r.1 is Unchanged
            },
            cmd@ != "host"@ ==> {
                &&& *final(self) == *old(self)
                &&& r.0 is NotFound
                &&& r.1 is Unchanged
            },
    {
        if str_eq(cmd, "host") {
            if args.len() == 1 {
                let host_url = args[0].as_str();
                match self.root.host_search(host_url) {
                    Ok(idx) => {
                        let entry = &self.root.hosts[idx];
                        let hc = HostCtx::new(entry.url().clone(), entry.token().to_owned());
                        let mut m = "Selected host: ".to_owned();
                        m.append(host_url);
                        (
                            CommandAction::SideEffect(m),
                            NextContext::Push(ShellContext::Host(hc)),
                        )
                    },
                    Err(_) => {
                        (
                            CommandAction::Failed(
                                "Host not found. If you want to add it, specify a token.".to_owned(),
                            ),
                            NextContext::Unchanged,
                        )
                    },
                }
            } else if args.len() == 2 {
                let host_url = args[0].as_str();
                match self.root.add_host_by_url(host_url, args[1].as_str()) {
                    Ok((idx, prev)) => match prev {
                        Some(prev_token) => {
                            let mut m = "Replaced ".to_owned();
                            m.append(host_url);
                            m.append("'s token ");
                            m.append(prev_token.as_str());
                            m.append(".");
                            (CommandAction::SideEffect(m), NextContext::Unchanged)
                        },
                        None => {
                            let mut m = "Host added: ".to_owned();
                            m.append(host_url);
                            (CommandAction::SideEffect(m), NextContext::Unchanged)
                        },
                    },
                    Err(e) => {
                        (
                            CommandAction::Failed(e.message().to_owned()),
                            NextContext::Unchanged,
                        )
                    },
                }
            } else {
                (
                    CommandAction::Usage("usage: host <3scale-system-host> [<token>]".to_owned()),
                    NextContext::Unchanged,
                )
            }
        } else {
            (CommandAction::NotFound, NextContext::Unchanged)
        }
    }
}

} // verus!
