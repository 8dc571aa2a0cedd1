//! The rules of the outbound proxy: which hosts go around it, and the
//! address under which it is reached.

use crate::config::{ProxyConfig, ProxyType};
use crate::outside::{
    compile, escape, escaped, is_match, parse_url, regex_accepts, regex_matches, regex_pattern,
    set_password, set_username, url_parsed, url_string, url_text, url_with_password,
    url_with_username,
};
use crate::text::{chars_of, digits, string_of, strings_view, trim, trimmed, u64_to_string};
use regex::Regex;
use url::Url;
use vstd::prelude::*;

verus! {

/// `s` with every escaped star, a backslash and a star, turned into `.*`.
pub open spec fn globbed(s: Seq<char>) -> Seq<char>
    decreases s.len(),
{
    if s.len() == 0 {
        s
    } else if s.len() >= 2 && s[0] == '\\' && s[1] == '*' {
        seq!['.', '*'] + globbed(s.skip(2))
    } else {
        seq![s[0]] + globbed(s.drop_first())
    }
}

/// The expression for the host pattern `pat`, in which a star stands for
/// any text and all else for itself: none if `pat` is blank.
pub open spec fn bypass_pattern(pat: Seq<char>) -> Option<Seq<char>> {
    let p = trimmed(pat);
    if p.len() == 0 {
        None
    } else {
        Some(seq!['^'] + globbed(escaped(p)) + seq!['$'])
    }
}

/// The patterns of the expressions that a list of host patterns gives: one
/// for each that is not blank and compiles, in order.
pub open spec fn bypass_patterns(list: Seq<Seq<char>>) -> Seq<Seq<char>>
    decreases list.len(),
{
    if list.len() == 0 {
        Seq::empty()
    } else {
        match bypass_pattern(list.last()) {
            Some(re) => if regex_accepts(re) {
                bypass_patterns(list.drop_last()).push(re)
            } else {
                bypass_patterns(list.drop_last())
            },
            None => bypass_patterns(list.drop_last()),
        }
    }
}

/// The patterns of compiled expressions, in order.
pub open spec fn patterns_of(v: Seq<Regex>) -> Seq<Seq<char>> {
    v.map_values(|r: Regex| regex_pattern(r))
}

/// Whether one of the expressions `bypass` matches in `host`.
pub open spec fn any_matches(bypass: Seq<Regex>, host: Seq<char>) -> bool {
    exists|i: int| 0 <= i < bypass.len() && regex_matches(#[trigger] bypass[i], host)
}

/// Whether one of the expressions `bypass` matches in `host`.
pub fn bypasses(bypass: &Vec<Regex>, host: &str) -> (b: bool)
    ensures
        b == any_matches(bypass@, host@),
{
    let mut i: usize = 0;
    while i < bypass.len()
        invariant
            i <= bypass@.len(),
            forall|k: int| 0 <= k < i ==> !regex_matches(#[trigger] bypass@[k], host@),
        decreases bypass@.len() - i,
    {
        if is_match(&bypass[i], host) {
            return true;
        }
        i += 1;
    }
    false
}

/// The expression for the host pattern `pat`, if `pat` is not blank.
pub fn bypass_regex_text(pat: &str) -> (r: Option<String>)
    ensures
        crate::model::opt_text(r) == bypass_pattern(pat@),
{
    let p = trim(pat);
    if p.as_str().unicode_len() == 0 {
        return None;
    }
    let e = escape(p.as_str());
    let v = chars_of(e.as_str());
    let n = v.len();
    let mut out: Vec<char> = Vec::new();
    out.push('^');
    let mut i: usize = 0;
    assert(v@.skip(0) =~= v@);
    assert(out@ + globbed(v@) =~= seq!['^'] + globbed(v@));
    while i < n
        invariant
            i <= n == v@.len(),
            out@ + globbed(v@.skip(i as int)) == seq!['^'] + globbed(v@),
        decreases n - i,
    {
        let ghost rest = v@.skip(i as int);
        let ghost before = out@;
        if i + 1 < n && v[i] == '\\' && v[i + 1] == '*' {
            out.push('.');
            out.push('*');
            assert(rest.skip(2) =~= v@.skip(i as int + 2));
            assert(out@ + globbed(v@.skip(i as int + 2)) =~= before + globbed(rest));
            i += 2;
        } else {
            out.push(v[i]);
            assert(rest.drop_first() =~= v@.skip(i as int + 1));
            assert(out@ + globbed(v@.skip(i as int + 1)) =~= before + globbed(rest));
            i += 1;
        }
    }
    assert(out@ + Seq::<char>::empty() =~= out@);
    out.push('$');
    let r = string_of(out.as_slice(), 0, out.len());
    assert(r@ =~= seq!['^'] + globbed(v@) + seq!['$']);
    Some(r)
}

/// Why no address of the proxy could be made.
#[derive(Debug, Clone, Copy, PartialEq, Eq, Structural)]
pub enum ProxyError {
    /// Host, port or type of the proxy is missing.
    InvalidEndpoint,
    /// Host and port do not make an address.
    BadUrl,
    /// The address with its credentials is too long to be held.
    TooLong,
}

/// The scheme under which a proxy of type `t` is reached.
pub open spec fn proxy_scheme(t: ProxyType) -> Seq<char> {
    if t == ProxyType::Socks5 {
        "socks5h"@
    } else {
        "http"@
    }
}

/// The address of the proxy before it is parsed: scheme, trimmed host and
/// port.
pub open spec fn proxy_base(cfg: ProxyConfig) -> Seq<char> {
    proxy_scheme(cfg.proxy_type) + "://"@ + trimmed(cfg.host@) + ":"@ + digits(cfg.port as nat)
        + "/"@
}

/// Whether an address with the text `url` can take `extra` as user name,
/// password or pair of its query and still be held.
pub open spec fn fits(url: Seq<char>, extra: Seq<char>) -> bool {
    url.len() <= 0x0FFF_FFFF && extra.len() <= 0x07FF_FFFF
}

/// The text of the address of the proxy: the parsed base, with user name
/// and password set if the user name is not blank.
pub open spec fn proxy_url(cfg: ProxyConfig) -> Result<Seq<char>, ProxyError> {
    if !cfg.spec_valid_endpoint() {
        Err(ProxyError::InvalidEndpoint)
    } else {
        match url_parsed(proxy_base(cfg)) {
            None => Err(ProxyError::BadUrl),
            Some(base) => {
                let name = trimmed(cfg.username@);
                if name.len() == 0 {
                    Ok(base)
                } else if !fits(base, name) {
                    Err(ProxyError::TooLong)
                } else {
                    let named = url_with_username(base, name);
                    if !fits(named, cfg.password@) {
                        Err(ProxyError::TooLong)
                    } else {
                        Ok(url_with_password(named, cfg.password@))
                    }
                }
            },
        }
    }
}

/// Whether an address with the text `url` can take `extra`.
pub(crate) fn check_fits(url: &Url, extra: &str) -> (b: bool)
    ensures
        b == fits(url_text(*url), extra@),
{
    let text = url_string(url);
    text.as_str().unicode_len() <= 0x0FFF_FFFF && extra.unicode_len() <= 0x07FF_FFFF
}

impl ProxyConfig {
    /// The address of the proxy before it is parsed.
    pub fn base_text(&self) -> (r: String)
        ensures
            r@ == proxy_base(*self),
    {
        let mut r = match self.proxy_type {
            ProxyType::Socks5 => "socks5h".to_owned(),
            _ => "http".to_owned(),
        };
        r.append("://");
        r.append(trim(self.host.as_str()).as_str());
        r.append(":");
        r.append(u64_to_string(self.port as u64).as_str());
        r.append("/");
        r
    }

    /// The address under which the proxy is reached.
    pub fn build_proxy_url(&self) -> (r: Result<Url, ProxyError>)
        ensures
            match r {
                Ok(u) => proxy_url(*self) == Ok::<Seq<char>, ProxyError>(url_text(u)),
                Err(e) => proxy_url(*self) == Err::<Seq<char>, ProxyError>(e),
            },
    {
        if !self.valid_endpoint() {
            return Err(ProxyError::InvalidEndpoint);
        }
        let base = self.base_text();
        let mut url = match parse_url(base.as_str()) {
            Some(u) => u,
            None => {
                return Err(ProxyError::BadUrl);
            },
        };
        let name = trim(self.username.as_str());
        if name.as_str().unicode_len() > 0 {
            if !check_fits(&url, name.as_str()) {
                return Err(ProxyError::TooLong);
            }
            set_username(&mut url, name.as_str());
            if !check_fits(&url, self.password.as_str()) {
                return Err(ProxyError::TooLong);
            }
            set_password(&mut url, self.password.as_str());
        }
        Ok(url)
    }

    /// The text of the address under which the proxy is reached.
    pub fn proxy_url_text(&self) -> (r: Result<String, ProxyError>)
        ensures
            match r {
                Ok(t) => proxy_url(*self) == Ok::<Seq<char>, ProxyError>(t@),
                Err(e) => proxy_url(*self) == Err::<Seq<char>, ProxyError>(e),
            },
    {
        match self.build_proxy_url() {
            Ok(u) => Ok(url_string(&u)),
            Err(e) => Err(e),
        }
    }

    /// Compiles the list of hosts that go around the proxy: one expression
    /// for each pattern that is not blank and compiles, in order.
    pub fn compile_bypass_regexes(&self) -> (r: Vec<Regex>)
        ensures
            patterns_of(r@) == bypass_patterns(strings_view(self.non_proxy_hosts_list@)),
    {
        let list = &self.non_proxy_hosts_list;
        let ghost all = strings_view(list@);
        let mut r: Vec<Regex> = Vec::new();
        let mut i: usize = 0;
        assert(all.take(0) =~= Seq::<Seq<char>>::empty());
        assert(patterns_of(r@) =~= Seq::<Seq<char>>::empty());
        while i < list.len()
            invariant
                i <= list@.len(),
                all == strings_view(list@),
                patterns_of(r@) == bypass_patterns(all.take(i as int)),
            decreases list@.len() - i,
        {
            let ghost next = all.take(i as int + 1);
            let ghost before = patterns_of(r@);
            assert(next.drop_last() =~= all.take(i as int));
            assert(next.last() == list@[i as int]@);
            match bypass_regex_text(list[i].as_str()) {
                Some(text) => match compile(text.as_str()) {
                    Some(re) => {
                        r.push(re);
                        assert(patterns_of(r@) =~= before.push(text@));
                    },
                    None => {},
                },
                None => {},
            }
            i += 1;
        }
        assert(all.take(i as int) =~= all);
        r
    }

    /// Whether `host` goes around the proxy: it is not blank, and one of the
    /// expressions matches in it, trimmed.
    pub fn is_bypassed_host(&self, host: &str, bypass: &Vec<Regex>) -> (b: bool)
        ensures
            b == (trimmed(host@).len() > 0 && any_matches(bypass@, trimmed(host@))),
    {
        let h = trim(host);
        if h.as_str().unicode_len() == 0 {
            return false;
        }
        bypasses(bypass, h.as_str())
    }
}

} // verus!
