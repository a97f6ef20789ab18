//! The model of the API-client boundary: the command-outcome protocol, the
//! errors that cross it, and the client session state (selected host URL,
//! token, last response and its cached body). The HTTP transport itself is an
//! external collaborator; everything the shell's logic reads of it is held
//! here as plain values.

use vstd::prelude::*;
use vstd::string::StringSliceAdditionalSpecFns;
use vstd::utf8::valid_utf8;
use crate::actions::host::Host;

verus! {

/// An error rendered for the user; the structured cause is discarded at the
/// boundary and only its message crosses it.
#[derive(Debug)]
pub struct CliError {
    msg: String,
}

impl View for CliError {
    type V = Seq<char>;

    closed spec fn view(&self) -> Seq<char> {
        self.msg@
    }
}

impl CliError {
    /// Renders a literal message.
    pub fn new(msg: &str) -> (r: CliError)
        ensures
            r@ == msg@,
    {
        CliError { msg: msg.to_owned() }
    }

    /// The rendered message.
    pub fn message(&self) -> (r: &str)
        ensures
            r@ == self@,
    {
        self.msg.as_str()
    }
}

/// What a command did, as reported to the user. The dispatch loop only prints
/// the message under a prefix naming the category; navigation is carried
/// separately.
pub enum CommandAction {
    /// The command performed its effect; the message describes it.
    SideEffect(String),
    /// The command was well-formed but the operation failed for a domain
    /// reason; the message carries the rendered cause.
    Failed(String),
    /// The command was recognized and its arguments valid, but no state
    /// changed.
    NoProgress(String),
    /// A recognized command received the wrong argument shape; the message is
    /// a literal usage string.
    Usage(String),
    /// The active context does not recognize the command.
    NotFound,
}

impl CommandAction {
    /// The line shown to the user: the message under a prefix naming the
    /// outcome's category. Printing this line is the sole observable effect
    /// of an outcome.
    pub fn render(&self) -> (r: String)
        ensures
            match self {
                CommandAction::SideEffect(m) => r@ == "Side effect: "@ + m@,
                CommandAction::Failed(m) => r@ == "Failed: "@ + m@,
                CommandAction::NoProgress(m) => r@ == "No progress: "@ + m@,
                CommandAction::Usage(m) => r@ == "Usage: "@ + m@,
                CommandAction::NotFound => r@ == "Command not found."@,
            },
    {
        match self {
            CommandAction::SideEffect(m) => {
                let mut r = "Side effect: ".to_owned();
                r.append(m.as_str());
                r
            },
            CommandAction::Failed(m) => {
                let mut r = "Failed: ".to_owned();
                r.append(m.as_str());
                r
            },
            CommandAction::NoProgress(m) => {
                let mut r = "No progress: ".to_owned();
                r.append(m.as_str());
                r
            },
            CommandAction::Usage(m) => {
                let mut r = "Usage: ".to_owned();
                r.append(m.as_str());
                r
            },
            CommandAction::NotFound => "Command not found.".to_owned(),
        }
    }
}

/// An HTTP method accepted by the API client.
#[derive(Clone, Copy, Debug, PartialEq, Eq, Structural)]
pub enum Method {
    GET,
    POST,
    PUT,
    DELETE,
}

/// An ASCII letter.
pub open spec fn is_alpha(c: char) -> bool {
    (('a' as u32) <= (c as u32) && (c as u32) <= ('z' as u32)) || (('A' as u32) <= (c as u32) && (c
        as u32) <= ('Z' as u32))
}

fn alpha_char(c: char) -> (r: bool)
    ensures
        r == is_alpha(c),
{
    (('a' as u32) <= (c as u32) && (c as u32) <= ('z' as u32)) || (('A' as u32) <= (c as u32) && (c
        as u32) <= ('Z' as u32))
}

/// A character allowed in a URL scheme after its first letter.
pub open spec fn is_scheme_char(c: char) -> bool {
    is_alpha(c) || (('0' as u32) <= (c as u32) && (c as u32) <= ('9' as u32)) || c == '+' || c
        == '-' || c == '.'
}

fn scheme_char(c: char) -> (r: bool)
    ensures
        r == is_scheme_char(c),
{
    alpha_char(c) || (('0' as u32) <= (c as u32) && (c as u32) <= ('9' as u32)) || c == '+' || c
        == '-' || c == '.'
}

/// A graphic ASCII character; URLs accepted by the shell consist of these.
pub open spec fn is_url_char(c: char) -> bool {
    ('!' as u32) <= (c as u32) && (c as u32) <= ('~' as u32)
}

fn url_char(c: char) -> (r: bool)
    ensures
        r == is_url_char(c),
{
    ('!' as u32) <= (c as u32) && (c as u32) <= ('~' as u32)
}

/// `s` reads `<scheme> "://" <rest>` with the scheme ending at `i`: the scheme
/// starts with a letter and continues with scheme characters, the remainder is
/// non-empty, and the whole URL is graphic ASCII.
pub open spec fn scheme_split_at(s: Seq<char>, i: int) -> bool {
    &&& 1 <= i
    &&& i + 3 < s.len()
    &&& is_alpha(s[0])
    &&& forall|k: int| 0 <= k < i ==> is_scheme_char(#[trigger] s[k])
    &&& s[i] == ':'
    &&& s[i + 1] == '/'
    &&& s[i + 2] == '/'
    &&& forall|k: int| 0 <= k < s.len() ==> is_url_char(#[trigger] s[k])
}

/// The URLs the shell accepts: a scheme, `"://"`, and a non-empty remainder.
pub open spec fn valid_url(s: Seq<char>) -> bool {
    exists|i: int| scheme_split_at(s, i)
}

/// Decides [`valid_url`].
fn check_url(s: &str) -> (r: bool)
    ensures
        r == valid_url(s@),
{
    let len = s.unicode_len();
    // Find the first colon; a scheme may not contain one, so any split point
    // must be exactly there.
    let mut j: usize = 0;
    while j < len && s.get_char(j) != ':'
        invariant
            0 <= j <= len,
            len == s@.len(),
            forall|k: int| 0 <= k < j ==> s@[k] != ':',
        decreases len - j,
    {
        j = j + 1;
    }
    if j == len {
        proof {
            assert forall|i: int| !scheme_split_at(s@, i) by {
                if scheme_split_at(s@, i) {
                    assert(s@[i] == ':');
                }
            }
        }
        return false;
    }
    let ok = j >= 1 && len - j > 3 && alpha_char(s.get_char(0)) && s.get_char(j + 1) == '/'
        && s.get_char(j + 2) == '/';
    if !ok {
        proof {
            assert forall|i: int| !scheme_split_at(s@, i) by {
                if scheme_split_at(s@, i) {
                    if i < j {
                        assert(s@[i] == ':');
                    } else if i > j {
                        assert(is_scheme_char(s@[j as int]));
                    }
                }
            }
        }
        return false;
    }
    let mut k: usize = 1;
    while k < j
        invariant
            1 <= k <= j,
            j < len,
            len == s@.len(),
            s@[j as int] == ':',
            forall|t: int| 0 <= t < j ==> s@[t] != ':',
            forall|m: int| 1 <= m < k ==> is_scheme_char(#[trigger] s@[m]),
        decreases j - k,
    {
        if !scheme_char(s.get_char(k)) {
            proof {
                let bad = k as int;
                assert forall|i: int| !scheme_split_at(s@, i) by {
                    if scheme_split_at(s@, i) {
                        if i < j {
                            assert(s@[i] == ':');
                        } else if i > j {
                            assert(is_scheme_char(s@[j as int]));
                        } else {
                            assert(is_scheme_char(s@[bad]));
                        }
                    }
                }
            }
            return false;
        }
        k = k + 1;
    }
    let mut m: usize = 0;
    while m < len
        invariant
            0 <= m <= len,
            len == s@.len(),
            forall|t: int| 0 <= t < m ==> is_url_char(#[trigger] s@[t]),
        decreases len - m,
    {
        if !url_char(s.get_char(m)) {
            proof {
                let bad = m as int;
                assert forall|i: int| !scheme_split_at(s@, i) by {
                    if scheme_split_at(s@, i) {
                        assert(is_url_char(s@[bad]));
                    }
                }
            }
            return false;
        }
        m = m + 1;
    }
    proof {
        assert(scheme_split_at(s@, j as int));
    }
    true
}

/// A remote endpoint's address, kept exactly as the user wrote it. Only
/// strings accepted by [`valid_url`] can be held here.
#[derive(Debug)]
pub struct Url {
    s: String,
}

impl View for Url {
    type V = Seq<char>;

    closed spec fn view(&self) -> Seq<char> {
        self.s@
    }
}

impl Url {
    /// The held address is a valid URL.
    pub open spec fn wf(&self) -> bool {
        valid_url(self@)
    }

    /// Accepts `s` exactly when it is a [`valid_url`]; the held string is `s`
    /// unchanged.
    pub fn parse(s: &str) -> (r: Result<Url, CliError>)
        ensures
            match r {
                Ok(u) => valid_url(s@) && u@ == s@,
                Err(e) => !valid_url(s@) && e@ == "invalid URL: expected <scheme>://<rest>"@,
            },
    {
        if check_url(s) {
            Ok(Url { s: s.to_owned() })
        } else {
            Err(CliError::new("invalid URL: expected <scheme>://<rest>"))
        }
    }

    /// The address as a string slice.
    pub fn as_str(&self) -> (r: &str)
        ensures
            r@ == self@,
    {
        self.s.as_str()
    }
}

impl Clone for Url {
    fn clone(&self) -> (r: Self)
        ensures
            r == *self,
    {
        Url { s: self.s.clone() }
    }
}

/// The API client's session state: where requests go and under which token.
/// The transport that performs them is an external collaborator.
pub struct Client {
    pub host_url: Option<Url>,
    pub token: Option<String>,
    pub timeout_ms: Option<u64>,
}

impl Client {
    /// A held host URL, if any, is valid.
    pub open spec fn wf(&self) -> bool {
        match self.host_url {
            Some(u) => u.wf(),
            None => true,
        }
    }

    /// A fresh client with no host and no token.
    pub fn new(timeout_ms: Option<u64>) -> (r: Client)
        ensures
            r.host_url is None,
            r.token is None,
            r.timeout_ms == timeout_ms,
            r.wf(),
    {
        Client { host_url: None, token: None, timeout_ms }
    }

    /// Selects (or clears) the host requests go to. A string is accepted
    /// exactly when it is a [`valid_url`]; on rejection nothing changes.
    pub fn set_host(&mut self, host: Option<&str>) -> (r: Result<(), CliError>)
        ensures
            final(self).token == old(self).token,
            final(self).timeout_ms == old(self).timeout_ms,
            match host {
                None => r is Ok && final(self).host_url is None,
                Some(s) => {
                    if valid_url(s@) {
                        &&& r is Ok
                        &&& match final(self).host_url {
                            Some(u) => u@ == s@,
                            None => false,
                        }
                    } else {
                        r is Err && *final(self) == *old(self)
                    }
                },
            },
            old(self).wf() ==> final(self).wf(),
    {
        match host {
            None => {
                self.host_url = None;
                Ok(())
            },
            Some(s) => {
                match Url::parse(s) {
                    Ok(u) => {
                        self.host_url = Some(u);
                        Ok(())
                    },
                    Err(e) => Err(e),
                }
            },
        }
    }

    /// The selected host URL, if one is set.
    pub fn host_url(&self) -> (r: Option<&Url>)
        ensures
            match r {
                Some(u) => self.host_url == Some(*u),
                None => self.host_url is None,
            },
    {
        match &self.host_url {
            Some(u) => Some(u),
            None => None,
        }
    }

    /// Replaces (or clears) the auth token.
    pub fn set_token(&mut self, token: Option<String>)
        ensures
            final(self).token == token,
            final(self).host_url == old(self).host_url,
            final(self).timeout_ms == old(self).timeout_ms,
    {
        self.token = token;
    }

    /// The current auth token, if one is set.
    pub fn token(&self) -> (r: Option<&str>)
        ensures
            match r {
                Some(t) => match self.token {
                    Some(x) => x@ == t@,
                    None => false,
                },
                None => self.token is None,
            },
    {
        match &self.token {
            Some(t) => Some(t.as_str()),
            None => None,
        }
    }
}

/// What the shell keeps of an HTTP response: the status, the advertised
/// length, and the payload bytes as received.
pub struct Response {
    pub status: u16,
    pub content_length: Option<u64>,
    pub bytes: Vec<u8>,
}

impl Response {
    /// Packages a received response.
    pub fn new(status: u16, content_length: Option<u64>, bytes: Vec<u8>) -> (r: Response)
        ensures
            r.status == status,
            r.content_length == content_length,
            r.bytes == bytes,
    {
        Response { status, content_length, bytes }
    }

    /// The response's status code.
    pub fn status(&self) -> (r: u16)
        ensures
            r == self.status,
    {
        self.status
    }

    /// The advertised content length, if the response carried one.
    pub fn content_length(&self) -> (r: Option<u64>)
        ensures
            r == self.content_length,
    {
        self.content_length
    }

}

fn copy_bytes(v: &Vec<u8>) -> (r: Vec<u8>)
    ensures
        r@ == v@,
{
    let mut r: Vec<u8> = Vec::new();
    let mut i: usize = 0;
    while i < v.len()
        invariant
            0 <= i <= v@.len(),
            r@ == v@.take(i as int),
        decreases v@.len() - i,
    {
        r.push(v[i]);
        proof {
            assert(r@ =~= v@.take(i + 1 as int));
        }
        i = i + 1;
    }
    proof {
        assert(v@.take(v@.len() as int) =~= v@);
    }
    r
}

/// `core::str::Utf8Error`, opaque to the verifier; it is discarded at the
/// boundary and only a rendered message crosses it.
#[verifier::external_type_specification]
#[verifier::external_body]
pub struct ExUtf8Error(core::str::Utf8Error);

/// Relies on `core::str::from_utf8`: per its documentation it succeeds exactly
/// on valid UTF-8 and then returns a string slice over the same bytes.
pub assume_specification[ core::str::from_utf8 ](v: &[u8]) -> (r: Result<
    &str,
    core::str::Utf8Error,
>)
    ensures
        match r {
            Ok(s) => valid_utf8(v@) && s.spec_bytes() == v@,
            Err(_) => !valid_utf8(v@),
        },
;

/// The shell's session with the API client: the client itself, the last
/// response, its lazily-cached body, and the host list last fetched.
pub struct StraitJacket {
    pub client: Client,
    pub response: Option<Response>,
    pub body: Option<Vec<u8>>,
    pub hosts: Option<Vec<Host>>,
}

impl StraitJacket {
    /// A held host URL, if any, is valid.
    pub open spec fn wf(&self) -> bool {
        self.client.wf()
    }

    /// The bytes a body fetch would yield: the cached body if present, else
    /// the last response's payload, else nothing.
    pub open spec fn available_bytes(&self) -> Option<Seq<u8>> {
        match self.body {
            Some(b) => Some(b@),
            None => match self.response {
                Some(resp) => Some(resp.bytes@),
                None => None,
            },
        }
    }

    /// A fresh session holding a fresh client and nothing else.
    pub fn new(timeout_ms: Option<u64>) -> (r: Result<StraitJacket, CliError>)
        ensures
            match r {
                Ok(sj) => {
                    &&& sj.client.host_url is None
                    &&& sj.client.token is None
                    &&& sj.client.timeout_ms == timeout_ms
                    &&& sj.response is None
                    &&& sj.body is None
                    &&& sj.hosts is None
                    &&& sj.wf()
                },
                Err(_) => false,
            },
    {
        Ok(StraitJacket { client: Client::new(timeout_ms), response: None, body: None, hosts: None })
    }

    /// The client, for mutation.
    pub fn client_mut(&mut self) -> (r: &mut Client)
        ensures
            *r == old(self).client,
            final(self).client == *final(r),
            final(self).response == old(self).response,
            final(self).body == old(self).body,
            final(self).hosts == old(self).hosts,
    {
        &mut self.client
    }

    /// The client.
    pub fn client(&self) -> (r: &Client)
        ensures
            *r == self.client,
    {
        &self.client
    }

    /// Selects (or clears) the host; see [`Client::set_host`].
    pub fn set_host(&mut self, host: Option<&str>) -> (r: Result<(), CliError>)
        ensures
            final(self).client.token == old(self).client.token,
            final(self).client.timeout_ms == old(self).client.timeout_ms,
            final(self).response == old(self).response,
            final(self).body == old(self).body,
            final(self).hosts == old(self).hosts,
            match host {
                None => r is Ok && final(self).client.host_url is None,
                Some(s) => {
                    if valid_url(s@) {
                        &&& r is Ok
                        &&& match final(self).client.host_url {
                            Some(u) => u@ == s@,
                            None => false,
                        }
                    } else {
                        r is Err && *final(self) == *old(self)
                    }
                },
            },
            old(self).wf() ==> final(self).wf(),
    {
        match self.client.set_host(host) {
            Ok(()) => Ok(()),
            Err(e) => Err(e),
        }
    }

    /// The selected host URL, if one is set.
    pub fn host_url(&self) -> (r: Option<&Url>)
        ensures
            match r {
                Some(u) => self.client.host_url == Some(*u),
                None => self.client.host_url is None,
            },
    {
        self.client.host_url()
    }

    /// Replaces (or clears) the auth token; never fails.
    pub fn set_token(&mut self, token: Option<String>) -> (r: Result<(), CliError>)
        ensures
            r is Ok,
            final(self).client.token == token,
            final(self).client.host_url == old(self).client.host_url,
            final(self).client.timeout_ms == old(self).client.timeout_ms,
            final(self).response == old(self).response,
            final(self).body == old(self).body,
            final(self).hosts == old(self).hosts,
    {
        self.client.set_token(token);
        Ok(())
    }

    /// The current auth token, if one is set.
    pub fn token(&self) -> (r: Option<&str>)
        ensures
            match r {
                Some(t) => match self.client.token {
                    Some(x) => x@ == t@,
                    None => false,
                },
                None => self.client.token is None,
            },
    {
        self.client.token()
    }

    /// Stores a freshly received response and drops the cached body of the
    /// previous one.
    pub fn set_response(&mut self, response: Response)
        ensures
            final(self).response == Some(response),
            final(self).body is None,
            final(self).client == old(self).client,
            final(self).hosts == old(self).hosts,
    {
        self.body = None;
        self.response = Some(response);
    }

    /// Caches a fetched host list.
    pub fn set_hosts(&mut self, hosts: Vec<Host>)
        ensures
            final(self).hosts == Some(hosts),
            final(self).client == old(self).client,
            final(self).response == old(self).response,
            final(self).body == old(self).body,
    {
        self.hosts = Some(hosts);
    }

    /// The cached host list, if one was fetched.
    pub fn hosts(&self) -> (r: Option<&Vec<Host>>)
        ensures
            match r {
                Some(h) => self.hosts == Some(*h),
                None => self.hosts is None,
            },
    {
        match &self.hosts {
            Some(h) => Some(h),
            None => None,
        }
    }

    /// The cached body, if one was fetched.
    pub fn body(&self) -> (r: Option<&Vec<u8>>)
        ensures
            match r {
                Some(b) => self.body == Some(*b),
                None => self.body is None,
            },
    {
        match &self.body {
            Some(b) => Some(b),
            None => None,
        }
    }

    /// The response body: cached if already fetched, otherwise copied out of
    /// the last response and cached. Fails exactly when there is nothing to
    /// fetch from.
    pub fn fetch_body(&mut self) -> (r: Result<&Vec<u8>, CliError>)
        ensures
            final(self).client == old(self).client,
            final(self).response == old(self).response,
            final(self).hosts == old(self).hosts,
            match old(self).available_bytes() {
                None => {
                    &&& match r {
                        Err(e) => e@ == "no response"@,
                        Ok(_) => false,
                    }
                    &&& *final(self) == *old(self)
                },
                Some(bs) => {
                    &&& match r {
                        Ok(b) => b@ == bs,
                        Err(_) => false,
                    }
                    &&& match final(self).body {
                        Some(nb) => nb@ == bs,
                        None => false,
                    }
                },
            },
            old(self).body is Some ==> *final(self) == *old(self),
    {
        if self.body.is_none() {
            match &self.response {
                Some(resp) => {
                    let b = copy_bytes(&resp.bytes);
                    self.body = Some(b);
                },
                None => {
                    return Err(CliError::new("no response"));
                },
            }
        }
        match &self.body {
            Some(b) => Ok(b),
            None => Err(CliError::new("no response")),
        }
    }

    /// The response body as text. Fails exactly when there is nothing to
    /// fetch from or the bytes are not valid UTF-8; a failed decode still
    /// caches the bytes.
    pub fn fetch_body_as_str(&mut self) -> (r: Result<&str, CliError>)
        ensures
            final(self).client == old(self).client,
            final(self).response == old(self).response,
            final(self).hosts == old(self).hosts,
            match old(self).available_bytes() {
                None => {
                    &&& match r {
                        Err(e) => e@ == "no response"@,
                        Ok(_) => false,
                    }
                    &&& *final(self) == *old(self)
                },
                Some(bs) => {
                    &&& match final(self).body {
                        Some(nb) => nb@ == bs,
                        None => false,
                    }
                    &&& if valid_utf8(bs) {
                        match r {
                            Ok(s) => s.spec_bytes() == bs,
                            Err(_) => false,
                        }
                    } else {
                        match r {
                            Err(e) => e@ == "invalid UTF-8 in response body"@,
                            Ok(_) => false,
                        }
                    }
                },
            },
    {
        let b = match self.fetch_body() {
            Ok(b) => b,
            Err(e) => {
                return Err(e);
            },
        };
        match core::str::from_utf8(b.as_slice()) {
            Ok(s) => Ok(s),
            Err(_) => Err(CliError::new("invalid UTF-8 in response body")),
        }
    }

    /// The last response, if one was stored.
    pub fn response(&self) -> (r: Option<&Response>)
        ensures
            match r {
                Some(resp) => self.response == Some(*resp),
                None => self.response is None,
            },
    {
        match &self.response {
            Some(resp) => Some(resp),
            None => None,
        }
    }

    /// The last response, for mutation; the rest of the session is untouched.
    pub fn response_mut(&mut self) -> (r: Option<&mut Response>)
        ensures
            final(self).client == old(self).client,
            final(self).body == old(self).body,
            final(self).hosts == old(self).hosts,
            match old(self).response {
                None => r is None && final(self).response is None,
                Some(resp) => match r {
                    Some(m) => *m == resp && final(self).response == Some(*final(m)),
                    None => false,
                },
            },
    {
        self.response.as_mut()
    }
}

} // verus!
