//! What is taken on trust of the crates `regex` and `url`: their types, the
//! names of what their functions return, and the wrappers through which
//! they are called. Nothing here is proved; all else is proved from it.

use regex::Regex;
use url::Url;
use vstd::prelude::*;

verus! {

/// `regex::Regex`, a compiled expression: carried through, never looked
/// into.
#[verifier::external_type_specification]
#[verifier::external_body]
pub struct ExRegex(Regex);

/// `url::Url`, a parsed address: carried through, never looked into.
#[verifier::external_type_specification]
#[verifier::external_body]
pub struct ExUrl(Url);

/// The pattern that a compiled expression was made from.
pub uninterp spec fn regex_pattern(r: Regex) -> Seq<char>;

/// Whether `pattern` compiles to an expression.
pub uninterp spec fn regex_accepts(pattern: Seq<char>) -> bool;

/// Whether the compiled expression `re` matches somewhere in `text`.
pub uninterp spec fn regex_matches(re: Regex, text: Seq<char>) -> bool;

/// The text of a parsed address.
pub uninterp spec fn url_text(u: Url) -> Seq<char>;

/// The text of the address that `input` parses to, if it parses.
pub uninterp spec fn url_parsed(input: Seq<char>) -> Option<Seq<char>>;

/// The text of the address `url` after its user name was set to `name`.
pub uninterp spec fn url_with_username(url: Seq<char>, name: Seq<char>) -> Seq<char>;

/// The text of the address `url` after its password was set to `password`.
pub uninterp spec fn url_with_password(url: Seq<char>, password: Seq<char>) -> Seq<char>;

/// Whether `c` has a meaning of its own in an expression.
pub open spec fn is_meta(c: char) -> bool {
    c == '\\' || c == '.' || c == '+' || c == '*' || c == '?' || c == '(' || c == ')' || c == '|'
        || c == '[' || c == ']' || c == '{' || c == '}' || c == '^' || c == '$' || c == '#' || c
        == '&' || c == '-' || c == '~'
}

/// `s` with a backslash before every character that has a meaning of its own
/// in an expression.
pub open spec fn escaped(s: Seq<char>) -> Seq<char>
    decreases s.len(),
{
    if s.len() == 0 {
        Seq::empty()
    } else if is_meta(s.last()) {
        escaped(s.drop_last()).push('\\').push(s.last())
    } else {
        escaped(s.drop_last()).push(s.last())
    }
}

/// `regex::escape`: puts a backslash before each of the characters that
/// `regex_syntax::is_meta_character` lists and copies all others.
#[verifier::external_body]
pub(crate) fn escape(s: &str) -> (r: String)
    ensures
        r@ == escaped(s@),
{
    regex::escape(s)
}

/// `Regex::new`, with the error dropped: an expression for `pattern`, which
/// keeps the pattern it was made from, or none if the pattern is refused.
#[verifier::external_body]
pub(crate) fn compile(pattern: &str) -> (r: Option<Regex>)
    ensures
        r is Some <==> regex_accepts(pattern@),
        r matches Some(re) ==> regex_pattern(re) == pattern@,
{
    Regex::new(pattern).ok()
}

/// `Regex::is_match`: whether the expression matches somewhere in `text`.
#[verifier::external_body]
pub(crate) fn is_match(re: &Regex, text: &str) -> (b: bool)
    ensures
        b == regex_matches(*re, text@),
{
    re.is_match(text)
}

/// `Url::parse`, with the error dropped: the address that `input` parses
/// to, or none if it does not parse.
#[verifier::external_body]
pub(crate) fn parse_url(input: &str) -> (r: Option<Url>)
    ensures
        match r {
            Some(u) => url_parsed(input@) == Some(url_text(u)),
            None => url_parsed(input@) is None,
        },
{
    Url::parse(input).ok()
}

/// `Url::as_str`: the text of the address.
#[verifier::external_body]
pub(crate) fn url_string(u: &Url) -> (r: String)
    ensures
        r@ == url_text(*u),
{
    u.as_str().to_owned()
}

/// `Url::set_username`: sets the user name where the address can have one
/// and leaves the address as it is where it cannot. The address must stay
/// short enough for its 32-bit positions.
#[verifier::external_body]
pub(crate) fn set_username(u: &mut Url, name: &str)
    requires
        4 * url_text(*old(u)).len() + 12 * name@.len() + 2 <= u32::MAX,
    ensures
        url_text(*final(u)) == url_with_username(url_text(*old(u)), name@),
{
    let _ = u.set_username(name);
}

/// `Url::set_password`: sets the password where the address can have one
/// and leaves the address as it is where it cannot. The address must stay
/// short enough for its 32-bit positions.
#[verifier::external_body]
pub(crate) fn set_password(u: &mut Url, password: &str)
    requires
        4 * url_text(*old(u)).len() + 12 * password@.len() + 2 <= u32::MAX,
    ensures
        url_text(*final(u)) == url_with_password(url_text(*old(u)), password@),
{
    let _ = u.set_password(Some(password));
}

/// The text of the address that `input` gives when read against the address
/// `base`, if it gives one.
pub uninterp spec fn url_joined(base: Seq<char>, input: Seq<char>) -> Option<Seq<char>>;

/// The text of the address `url` after the pair `key=value` was added to
/// its query.
pub uninterp spec fn url_with_pair(url: Seq<char>, key: Seq<char>, value: Seq<char>) -> Seq<char>;

/// `Url::join`, with the error dropped: the address that `input` gives when
/// read against `base`, or none if it gives none.
#[verifier::external_body]
pub(crate) fn join_url(base: &Url, input: &str) -> (r: Option<Url>)
    ensures
        match r {
            Some(u) => url_joined(url_text(*base), input@) == Some(url_text(u)),
            None => url_joined(url_text(*base), input@) is None,
        },
{
    base.join(input).ok()
}

/// `Url::query_pairs_mut` and `Serializer::append_pair` on what it returns:
/// adds the pair to the query of the address. The address must stay short
/// enough for its 32-bit positions.
#[verifier::external_body]
pub(crate) fn append_query_pair(u: &mut Url, key: &str, value: &str)
    requires
        4 * url_text(*old(u)).len() + 12 * (key@.len() + value@.len()) + 3 <= u32::MAX,
    ensures
        url_text(*final(u)) == url_with_pair(url_text(*old(u)), key@, value@),
{
    u.query_pairs_mut().append_pair(key, value);
}

} // verus!
