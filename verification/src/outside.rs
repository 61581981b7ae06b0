//! Declarations for the outside crates the library calls: the URL type whose
//! query component feeds the binder, and cookie parsing and rendering.

use vstd::prelude::*;

verus! {

#[verifier::external_type_specification]
#[verifier::external_body]
pub struct ExUrl(url::Url);

/// Relies on url::Url::query: the query component of the URL, without the
/// leading `?`, or `None` where the URL has none.
#[verifier::external_body]
pub(crate) fn url_query<'a>(u: &'a url::Url) -> (r: Option<&'a str>) {
    u.query()
}

/// What cookie parsing yields on a header value: a name and a value, or
/// nothing where the text is not a cookie. The result depends on the text
/// alone.
pub uninterp spec fn cookie_pair_of(s: Seq<char>) -> Option<(Seq<char>, Seq<char>)>;

/// Relies on cookie::Cookie::parse: reads a `name=value` cookie text.
#[verifier::external_body]
pub(crate) fn parse_cookie(s: &str) -> (r: Option<(String, String)>)
    ensures
        match r {
            Some(p) => cookie_pair_of(s@) == Some((p.0@, p.1@)),
            None => cookie_pair_of(s@) is None,
        },
{
    match cookie::Cookie::parse(s) {
        Ok(c) => Some((c.name().to_owned(), c.value().to_owned())),
        Err(_) => None,
    }
}

/// The header text of a cookie with the given name and value, a function of
/// the two alone.
pub uninterp spec fn cookie_text_of(name: Seq<char>, value: Seq<char>) -> Seq<char>;

/// Relies on cookie::Cookie::new and its Display rendering: writes the cookie
/// as header text.
#[verifier::external_body]
pub(crate) fn cookie_text(name: &str, value: &str) -> (r: String)
    ensures
        r@ == cookie_text_of(name@, value@),
{
    cookie::Cookie::new(name, value).to_string()
}


/// Relies on String::push: appends one character.
#[verifier::external_body]
pub(crate) fn push_char(s: &mut String, c: char)
    ensures
        final(s)@ == old(s)@.push(c),
{
    s.push(c)
}

} // verus!
