//! The steps of one request, from the requested path segment to the
//! adapter invocation. Whoever serves the request performs each returned
//! [`Action`] and hands its result to the next step.

use vstd::prelude::*;
use crate::env::{env_overrides, distinct_names, records_map, parse_env};
use crate::key::{adapter_key, find_entry, has_match, is_first_match, key_of};
use crate::reply::{BridgeError, Reply, error_reply};
use vstd::utf8::{encode_utf8, valid_utf8, decode_utf8};

verus! {

/// The value of an ASCII hexadecimal digit, in either case.
pub open spec fn hex_value(b: u8) -> Option<u8> {
    if 48 <= b <= 57 {
        Some((b - 48) as u8)
    } else if 65 <= b <= 70 {
        Some((b - 55) as u8)
    } else if 97 <= b <= 102 {
        Some((b - 87) as u8)
    } else {
        None
    }
}

/// `b` with each `%` that is followed by two hexadecimal digits replaced by
/// the byte they spell; every other byte, `+` included, is kept.
pub open spec fn percent_bytes(b: Seq<u8>) -> Seq<u8>
    decreases b.len(),
{
    if b.len() == 0 {
        Seq::empty()
    } else if b[0] == 37 && b.len() >= 3 && hex_value(b[1]) is Some && hex_value(b[2]) is Some {
        seq![(hex_value(b[1])->0 * 16 + hex_value(b[2])->0) as u8] + percent_bytes(b.skip(3))
    } else {
        seq![b[0]] + percent_bytes(b.skip(1))
    }
}

/// The percent-decoded text of `s`: `None` where the decoded bytes are not
/// UTF-8.
pub open spec fn percent_decoded(s: Seq<char>) -> Option<Seq<char>> {
    let b = percent_bytes(encode_utf8(s));
    if valid_utf8(b) {
        Some(decode_utf8(b))
    } else {
        None
    }
}

/// What `url::Url::parse` yields for a text: `None` where it is no absolute
/// URL, else the URL's serialization and its host, if it has one.
pub uninterp spec fn url_parts(s: Seq<char>) -> Option<(Seq<char>, Option<Seq<char>>)>;

/// Relies on `urlencoding::decode`: it decodes the UTF-8 bytes of `s` as
/// `percent_bytes` states, and fails exactly where the result is not UTF-8.
#[verifier::external_body]
fn percent_decode(s: &str) -> (r: Option<String>)
    ensures
        r.deep_view() == percent_decoded(s@),
{
    urlencoding::decode(s).ok().map(|d| d.into_owned())
}

/// Relies on `url::Url::parse`, with `Url::as_str` and `Url::host` written
/// out as text: a function of the text alone.
#[verifier::external_body]
fn parse_url(s: &str) -> (r: Option<(String, Option<String>)>)
    ensures
        r.deep_view() == url_parts(s@),
{
    match url::Url::parse(s) {
        Ok(u) => Some((u.as_str().to_owned(), u.host().map(|h| h.to_string()))),
        Err(_) => None,
    }
}

/// A requested URL: its text and its host.
pub struct Target {
    pub url: String,
    pub host: String,
}

/// The URL and host that parsing yielded, if it yielded a URL with a host.
pub open spec fn target_of_parts(parts: Option<(Seq<char>, Option<Seq<char>>)>) -> Option<
    (Seq<char>, Seq<char>),
> {
    match parts {
        Some((u, Some(h))) => Some((u, h)),
        _ => None,
    }
}

/// The URL and host that a requested path segment names, if it names one.
pub open spec fn target_of(segment: Seq<char>) -> Option<(Seq<char>, Seq<char>)> {
    match percent_decoded(segment) {
        None => None,
        Some(d) => target_of_parts(url_parts(d)),
    }
}

/// The target of a parsed URL: an error where parsing failed or the URL
/// has no host.
pub fn target_from_parts(parts: Option<(String, Option<String>)>) -> (r: Result<
    Target,
    BridgeError,
>)
    ensures
        match target_of_parts(parts.deep_view()) {
            None => r matches Err(BridgeError::UrlDecodeError),
            Some((u, h)) => r matches Ok(t) && t.url@ == u && t.host@ == h,
        },
{
    match parts {
        Some((url, Some(host))) => Ok(Target { url, host }),
        _ => Err(BridgeError::UrlDecodeError),
    }
}

/// Decodes a requested path segment into the URL it names.
pub fn decode_request(segment: &str) -> (r: Result<Target, BridgeError>)
    ensures
        match target_of(segment@) {
            None => r matches Err(BridgeError::UrlDecodeError),
            Some((u, h)) => r matches Ok(t) && t.url@ == u && t.host@ == h,
        },
{
    match percent_decode(segment) {
        None => Err(BridgeError::UrlDecodeError),
        Some(decoded) => target_from_parts(parse_url(decoded.as_str())),
    }
}

/// Which search directory an adapter file was found in.
#[derive(Clone, Copy, Debug, PartialEq, Eq, Structural)]
pub enum SearchDir {
    /// The directory of the adapters that come with the bridge.
    Primary,
    /// The directory of user scripts, searched where the first has no match.
    Fallback,
}

/// An adapter file: the directory it is in and its name there.
pub struct AdapterEntry {
    pub dir: SearchDir,
    pub file_name: String,
}

/// `a` and `b` name the same file.
pub open spec fn same_entry(a: AdapterEntry, b: AdapterEntry) -> bool {
    a.dir == b.dir && a.file_name@ == b.file_name@
}

impl AdapterEntry {
    /// A copy of this entry.
    pub fn duplicate(&self) -> (r: AdapterEntry)
        ensures
            same_entry(r, *self),
    {
        AdapterEntry { dir: self.dir, file_name: self.file_name.clone() }
    }
}

/// How to run an adapter: the file, its single argument, and the
/// environment that replaces the inherited one, if any.
pub struct Invocation {
    pub adapter: AdapterEntry,
    pub url: String,
    pub env: Option<Vec<(String, String)>>,
}

/// What the server does next for a request.
pub enum Action {
    /// List the fallback search directory and call [`Session::fallback_listed`].
    ListFallback,
    /// List the environment-definitions directory and call [`Session::env_listed`].
    ListEnv,
    /// Read the named environment file as text and call [`Session::env_read`].
    ReadEnv(String),
    /// Run the adapter and reply with [`crate::reply::outcome_reply`].
    Spawn(Invocation),
    /// Send this reply.
    Respond(Reply),
}

/// A request on its way to an adapter: the decoded URL, its adapter key, and
/// the adapter file once one is found.
pub struct Session {
    pub url: String,
    pub key: String,
    pub adapter: Option<AdapterEntry>,
}

/// `e` is the first file of `names` that matches `key`, in directory `dir`.
pub open spec fn found_in(e: AdapterEntry, dir: SearchDir, names: Seq<Seq<char>>, key: Seq<char>) -> bool {
    e.dir == dir && exists|i: int| is_first_match(names, key, i) && e.file_name@ == names[i]
}

/// `a` is the reply to `e`.
pub open spec fn responds_with(a: Action, e: BridgeError) -> bool {
    a matches Action::Respond(r) && (r.status, r.body@) == error_reply(e)
}

impl Session {
    /// Starts a request for a percent-encoded URL: the URL's text, and the
    /// adapter key of its host.
    pub fn open(segment: &str) -> (r: Result<Session, BridgeError>)
        ensures
            match target_of(segment@) {
                None => r matches Err(BridgeError::UrlDecodeError),
                Some((u, h)) => r matches Ok(s) && s.url@ == u && s.key@ == key_of(h)
                    && s.adapter is None,
            },
    {
        let target = decode_request(segment)?;
        let key = adapter_key(target.host.as_str());
        Ok(Session { url: target.url, key, adapter: None })
    }

    /// Takes the listing of the primary search directory: its first match
    /// is the adapter, and without one the fallback directory is listed.
    pub fn primary_listed(&mut self, names: &Vec<String>) -> (a: Action)
        requires
            old(self).adapter is None,
        ensures
            final(self).url@ == old(self).url@,
            final(self).key@ == old(self).key@,
            if has_match(names.deep_view(), old(self).key@) {
                &&& a is ListEnv
                &&& (final(self).adapter matches Some(e) && found_in(
                    e,
                    SearchDir::Primary,
                    names.deep_view(),
                    old(self).key@,
                ))
            } else {
                a is ListFallback && final(self).adapter is None
            },
    {
        match find_entry(names, self.key.as_str()) {
            Some(i) => {
                self.adapter = Some(
                    AdapterEntry { dir: SearchDir::Primary, file_name: names[i].clone() },
                );
                Action::ListEnv
            },
            None => Action::ListFallback,
        }
    }

    /// Takes the listing of the fallback search directory: its first match
    /// is the adapter, and without one the reply is "no adapter".
    pub fn fallback_listed(&mut self, names: &Vec<String>) -> (a: Action)
        requires
            old(self).adapter is None,
        ensures
            final(self).url@ == old(self).url@,
            final(self).key@ == old(self).key@,
            if has_match(names.deep_view(), old(self).key@) {
                &&& a is ListEnv
                &&& (final(self).adapter matches Some(e) && found_in(
                    e,
                    SearchDir::Fallback,
                    names.deep_view(),
                    old(self).key@,
                ))
            } else {
                responds_with(a, BridgeError::NoAdapter) && final(self).adapter is None
            },
    {
        match find_entry(names, self.key.as_str()) {
            Some(i) => {
                self.adapter = Some(
                    AdapterEntry { dir: SearchDir::Fallback, file_name: names[i].clone() },
                );
                Action::ListEnv
            },
            None => Action::Respond(BridgeError::NoAdapter.reply()),
        }
    }

    /// The invocation of the adapter with the given environment.
    fn invocation(&self, env: Option<Vec<(String, String)>>) -> (r: Invocation)
        requires
            self.adapter is Some,
        ensures
            same_entry(r.adapter, self.adapter->0),
            r.url@ == self.url@,
            r.env == env,
    {
        let adapter = self.adapter.as_ref().unwrap().duplicate();
        Invocation { adapter, url: self.url.clone(), env }
    }

    /// Takes the listing of the environment-definitions directory: its first
    /// match is read, and without one the adapter runs with the inherited
    /// environment.
    pub fn env_listed(&self, names: &Vec<String>) -> (a: Action)
        requires
            self.adapter is Some,
        ensures
            if has_match(names.deep_view(), self.key@) {
                a matches Action::ReadEnv(n) && exists|i: int|
                    is_first_match(names.deep_view(), self.key@, i) && n@ == names.deep_view()[i]
            } else {
                a matches Action::Spawn(inv) && same_entry(inv.adapter, self.adapter->0)
                    && inv.url@ == self.url@ && inv.env is None
            },
    {
        match find_entry(names, self.key.as_str()) {
            Some(i) => Action::ReadEnv(names[i].clone()),
            None => Action::Spawn(self.invocation(None)),
        }
    }

    /// Takes the text of the environment file (`None` where it could not be
    /// read as text): the adapter runs with exactly the overrides it defines,
    /// and a malformed file fails the request.
    pub fn env_read(&self, text: Option<String>) -> (a: Action)
        requires
            self.adapter is Some,
        ensures
            match text {
                None => responds_with(a, BridgeError::EnvDecodeError),
                Some(t) => match env_overrides(t@) {
                    None => responds_with(a, BridgeError::EnvDecodeError),
                    Some(m) => a matches Action::Spawn(inv) && {
                        &&& same_entry(inv.adapter, self.adapter->0)
                        &&& inv.url@ == self.url@
                        &&& (inv.env matches Some(vars) && {
                            &&& distinct_names(vars.deep_view())
                            &&& records_map(vars.deep_view()) == m
                        })
                    },
                },
            },
    {
        match text {
            None => Action::Respond(BridgeError::EnvDecodeError.reply()),
            Some(t) => match parse_env(t.as_str()) {
                None => Action::Respond(BridgeError::EnvDecodeError.reply()),
                Some(vars) => Action::Spawn(self.invocation(Some(vars))),
            },
        }
    }
}

} // verus!
