//! The DynDNS2 updater: reading the public address out of a "what is my
//! address" reply, and deciding when the DNS record must be updated.
use vstd::prelude::*;
use vstd::string::StringExecFns;

use crate::text::{first_at, last_of, str_chars, string_from_chars, trim_chars, trimmed, utf8_text, find_from, rfind_char};

verus! {

/// The text that stands in for a reply body that is not UTF-8.
pub const INVALID_UTF8: &'static str = "invalid utf8";

/// The opening tag that the address follows.
pub open spec fn body_open() -> Seq<char> {
    seq!['<', 'b', 'o', 'd', 'y', '>']
}

/// The closing tag that ends the address.
pub open spec fn body_close() -> Seq<char> {
    seq!['<', '/', 'b', 'o', 'd', 'y', '>']
}

/// The reply as text: its UTF-8 text, or `INVALID_UTF8` when it is not UTF-8,
/// without leading and trailing white space.
pub open spec fn reply_text(body: Seq<u8>) -> Seq<char> {
    trimmed(
        if vstd::utf8::valid_utf8(body) {
            vstd::utf8::decode_utf8(body)
        } else {
            INVALID_UTF8@
        },
    )
}

/// The address in a reply text: what stands between `<body>` (or the start) and
/// the next `</body>` (or the end), after the last space in it.
pub open spec fn address_in(html: Seq<char>) -> Seq<char> {
    let start = match first_at(html, body_open(), 0) {
        Some(i) => i + 6,
        None => 0,
    };
    let end = match first_at(html.skip(start), body_close(), 0) {
        Some(i) => start + i,
        None => html.len() as int,
    };
    let raw = html.subrange(start, end);
    match last_of(raw, ' ') {
        Some(idx) => raw.skip(idx + 1),
        None => raw,
    }
}

fn body_open_chars() -> (r: Vec<char>)
    ensures
        r@ == body_open(),
{
    let r = vec!['<', 'b', 'o', 'd', 'y', '>'];
    assert(r@ =~= body_open());
    r
}

fn body_close_chars() -> (r: Vec<char>)
    ensures
        r@ == body_close(),
{
    let r = vec!['<', '/', 'b', 'o', 'd', 'y', '>'];
    assert(r@ =~= body_close());
    r
}

fn copy_range(s: &Vec<char>, a: usize, b: usize) -> (r: Vec<char>)
    requires
        a <= b <= s@.len(),
    ensures
        r@ == s@.subrange(a as int, b as int),
{
    let mut out: Vec<char> = Vec::new();
    let mut i: usize = a;
    while i < b
        invariant
            a <= i <= b,
            b <= s@.len(),
            out@ == s@.subrange(a as int, i as int),
        decreases b - i,
    {
        out.push(s[i]);
        assert(out@ =~= s@.subrange(a as int, i + 1));
        i = i + 1;
    }
    out
}

/// The address text that a reply body holds (`reply_text`, then `address_in`).
pub fn public_address_text(body: &[u8]) -> (r: String)
    ensures
        r@ == address_in(reply_text(body@)),
{
    let text: &str = match utf8_text(body) {
        Some(t) => t,
        None => INVALID_UTF8,
    };
    let html = trim_chars(&str_chars(text));
    assert(html@ == reply_text(body@));
    let open = body_open_chars();
    let close = body_close_chars();
    let html_len = html.len();
    let start: usize = match find_from(&html, &open, 0) {
        Some(i) => {
            assert(i + 6 <= html@.len()) by {
                lemma_first_at_occurs(html@, body_open(), 0);
            }
            i + 6
        },
        None => 0,
    };
    let rest = copy_range(&html, start, html.len());
    assert(rest@ =~= html@.skip(start as int));
    let end: usize = match find_from(&rest, &close, 0) {
        Some(i) => {
            assert(start + i <= html@.len()) by {
                lemma_first_at_occurs(rest@, body_close(), 0);
            }
            start + i
        },
        None => html.len(),
    };
    let raw = copy_range(&html, start, end);
    proof {
        lemma_last_of_in_range(raw@, ' ');
    }
    let addr = match rfind_char(&raw, ' ') {
        Some(idx) => {
            let tail = copy_range(&raw, idx + 1, raw.len());
            assert(tail@ =~= raw@.skip(idx + 1));
            tail
        },
        None => raw,
    };
    string_from_chars(addr.as_slice())
}

/// The request that updates the DNS record of `host`.
pub open spec fn update_request(update_url: Seq<char>, user: Seq<char>, password: Seq<char>, host: Seq<char>) -> Seq<char> {
    update_url + "?username="@ + user + "&password="@ + password + "&hostname="@ + host
}

/// The request that updates the DNS record of `host`.
pub fn update_request_url(update_url: &str, user: &str, password: &str, host: &str) -> (r: String)
    ensures
        r@ == update_request(update_url@, user@, password@, host@),
{
    let mut s = update_url.to_owned();
    s.append("?username=");
    s.append(user);
    s.append("&password=");
    s.append(password);
    s.append("&hostname=");
    s.append(host);
    s
}

/// The DynDNS2 feature.
pub struct DynDns2 {}

impl DynDns2 {
    /// The feature; it keeps no state of its own.
    pub fn new() -> (r: Self)
        ensures
            r == (DynDns2 {}),
    {
        DynDns2 {}
    }
}

/// The settings of the DynDNS2 feature.
pub struct DynDns2Config {
    pub user_name: String,
    pub password: String,
    pub hostname: String,
    pub get_ip_url: String,
    pub update_url: String,
    pub upd_req_address: bool,
    pub schedule: croner::Cron,
}

/// The scheduled job that keeps the DNS record up to date: the account, the
/// host name, where to ask for the public address and where to send updates, and
/// how many lookups have succeeded.
pub struct ResolveTask {
    pub host_name: String,
    pub user_name: String,
    pub password: String,
    pub get_ip_url: String,
    pub update_url: String,
    pub cnt: u32,
}

impl ResolveTask {
    /// The job for the given settings, with no lookup counted yet.
    pub fn new(config: DynDns2Config) -> (r: Self)
        ensures
            r.host_name == config.hostname,
            r.user_name == config.user_name,
            r.password == config.password,
            r.get_ip_url == config.get_ip_url,
            r.update_url == config.update_url,
            r.cnt == 0,
    {
        ResolveTask {
            host_name: config.hostname,
            user_name: config.user_name,
            password: config.password,
            get_ip_url: config.get_ip_url,
            update_url: config.update_url,
            cnt: 0,
        }
    }

    /// After a lookup of the public address (`None` when it failed, otherwise
    /// whether the address differs from the one the host name resolved to): a
    /// successful lookup is counted, and a changed address asks for the update
    /// request. A failed lookup changes nothing.
    pub fn after_lookup(&mut self, differs: Option<bool>) -> (r: Option<String>)
        requires
            differs is Some ==> old(self).cnt < u32::MAX,
        ensures
            final(self).host_name == old(self).host_name,
            final(self).user_name == old(self).user_name,
            final(self).password == old(self).password,
            final(self).get_ip_url == old(self).get_ip_url,
            final(self).update_url == old(self).update_url,
            match differs {
                None => final(self).cnt == old(self).cnt && r is None,
                Some(changed) => final(self).cnt == old(self).cnt + 1 && if changed {
                    r matches Some(url) && url@ == update_request(
                        old(self).update_url@,
                        old(self).user_name@,
                        old(self).password@,
                        old(self).host_name@,
                    )
                } else {
                    r is None
                },
            },
    {
        match differs {
            None => None,
            Some(changed) => {
                self.cnt = self.cnt + 1;
                if changed {
                    Some(
                        update_request_url(
                            self.update_url.as_str(),
                            self.user_name.as_str(),
                            self.password.as_str(),
                            self.host_name.as_str(),
                        ),
                    )
                } else {
                    None
                }
            },
        }
    }
}

proof fn lemma_first_at_occurs(hay: Seq<char>, needle: Seq<char>, from: int)
    ensures
        first_at(hay, needle, from) matches Some(i) ==> from <= i && crate::text::occurs_at(hay, needle, i),
    decreases hay.len() + 1 - from,
{
    if 0 <= from <= hay.len() && !crate::text::occurs_at(hay, needle, from) {
        lemma_first_at_occurs(hay, needle, from + 1);
    }
}

proof fn lemma_last_of_in_range(hay: Seq<char>, c: char)
    ensures
        last_of(hay, c) matches Some(i) ==> 0 <= i < hay.len(),
    decreases hay.len(),
{
    if hay.len() > 0 && hay.last() != c {
        lemma_last_of_in_range(hay.drop_last(), c);
    }
}

} // verus!
