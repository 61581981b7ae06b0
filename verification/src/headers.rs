//! A model of response headers as ordered name/value pairs, the two header
//! write operations, the conventional cross-origin headers applied from a
//! policy object, and cookie reading and writing over the header pairs.

use vstd::prelude::*;

use crate::decode::find_pair;
use crate::outside::cookie_pair_of;
use crate::outside::cookie_text;
use crate::outside::cookie_text_of;
use crate::outside::parse_cookie;
use crate::text::dec_digits;
use crate::text::eq_str;
use crate::text::strs_view;
use crate::text::u64_to_dec;
use crate::urlq::pairs_view;

verus! {

/// Ordered header name/value pairs.
#[derive(Debug, Clone, PartialEq)]
pub struct HttpHeaders {
    pub pairs: Vec<(String, String)>,
}

/// The pairs of `v` whose key is not `key`, in order.
pub open spec fn remove_key(
    pairs: Seq<(Seq<char>, Seq<char>)>,
    key: Seq<char>,
) -> Seq<(Seq<char>, Seq<char>)>
    decreases pairs.len(),
{
    if pairs.len() == 0 {
        seq![]
    } else {
        let rest = remove_key(pairs.drop_first(), key);
        if pairs[0].0 == key {
            rest
        } else {
            seq![pairs[0]] + rest
        }
    }
}

fn remove_key_exec(pairs: &Vec<(String, String)>, key: &str, idx: usize) -> (r: Vec<
    (String, String),
>)
    requires
        idx <= pairs@.len(),
    ensures
        pairs_view(r@) == remove_key(pairs_view(pairs@).skip(idx as int), key@),
    decreases pairs@.len() - idx,
{
    if idx >= pairs.len() {
        let r: Vec<(String, String)> = Vec::new();
        proof {
            assert(pairs_view(pairs@).skip(idx as int) =~= Seq::<(Seq<char>, Seq<char>)>::empty());
            assert(pairs_view(r@) =~= remove_key(pairs_view(pairs@).skip(idx as int), key@));
        }
        return r;
    }
    let mut rest = remove_key_exec(pairs, key, idx + 1);
    let ghost rest0 = rest@;
    proof {
        assert(pairs_view(pairs@).skip(idx as int)[0] == pairs_view(pairs@)[idx as int]);
        assert(pairs_view(pairs@).skip(idx as int).drop_first() =~= pairs_view(pairs@).skip(
            idx + 1,
        ));
    }
    if !eq_str(pairs[idx].0.as_str(), key) {
        rest.insert(0, (pairs[idx].0.clone(), pairs[idx].1.clone()));
        proof {
            assert(pairs_view(rest@) =~= seq![pairs_view(pairs@)[idx as int]] + pairs_view(rest0));
        }
    }
    proof {
        assert(pairs_view(rest@) =~= remove_key(pairs_view(pairs@).skip(idx as int), key@));
    }
    rest
}

impl HttpHeaders {
    /// Empty headers.
    pub fn new() -> (r: Self)
        ensures
            r.pairs@ =~= Seq::<(String, String)>::empty(),
    {
        HttpHeaders { pairs: Vec::new() }
    }

    /// The value of the first header with the given name, if any.
    pub fn get(&self, name: &str) -> (r: Option<String>)
        ensures
            match r {
                Some(v) => find_pair(pairs_view(self.pairs@), name@) == Some(v@),
                None => find_pair(pairs_view(self.pairs@), name@) is None,
            },
    {
        match crate::decode::find_pair_exec(&self.pairs, name) {
            Some(v) => Some(v.clone()),
            None => None,
        }
    }

    /// Whether a header with the given name is present.
    pub fn has(&self, name: &str) -> (r: bool)
        ensures
            r == (find_pair(pairs_view(self.pairs@), name@) is Some),
    {
        match crate::decode::find_pair_exec(&self.pairs, name) {
            Some(_) => true,
            None => false,
        }
    }

    /// Returns the number of header pairs.
    pub fn len(&self) -> (r: usize)
        ensures
            r == self.pairs@.len(),
    {
        self.pairs.len()
    }

    /// Returns `true` if the headers contain no pairs.
    pub fn is_empty(&self) -> (r: bool)
        ensures
            r == (self.pairs@.len() == 0),
    {
        self.pairs.len() == 0
    }

    /// Append a header, keeping any that were set with an equivalent name.
    pub fn append(&mut self, name: &str, value: &str)
        ensures
            pairs_view(final(self).pairs@) == pairs_view(old(self).pairs@) + seq![
                (name@, value@),
            ],
    {
        let ghost before = pairs_view(self.pairs@);
        self.pairs.push((name.to_owned(), value.to_owned()));
        proof {
            assert(pairs_view(self.pairs@) =~= before + seq![(name@, value@)]);
        }
    }

    /// Set a header: any pairs with an equivalent name are dropped and the
    /// new pair is appended.
    pub fn set(&mut self, name: &str, value: &str)
        ensures
            pairs_view(final(self).pairs@) == remove_key(pairs_view(old(self).pairs@), name@)
                + seq![(name@, value@)],
    {
        let mut kept = remove_key_exec(&self.pairs, name, 0);
        let ghost keptv = pairs_view(kept@);
        proof {
            assert(pairs_view(self.pairs@).skip(0) =~= pairs_view(self.pairs@));
        }
        kept.push((name.to_owned(), value.to_owned()));
        proof {
            assert(pairs_view(kept@) =~= keptv + seq![(name@, value@)]);
        }
        self.pairs = kept;
    }

    /// Delete every header with the given name.
    pub fn delete(&mut self, name: &str)
        ensures
            pairs_view(final(self).pairs@) == remove_key(pairs_view(old(self).pairs@), name@),
    {
        let kept = remove_key_exec(&self.pairs, name, 0);
        proof {
            assert(pairs_view(self.pairs@).skip(0) =~= pairs_view(self.pairs@));
        }
        self.pairs = kept;
    }

    /// All name/value pairs, in order.
    pub fn entries(&self) -> (r: Vec<(String, String)>)
        ensures
            pairs_view(r@) == pairs_view(self.pairs@),
    {
        let n = self.pairs.len();
        let mut out: Vec<(String, String)> = Vec::new();
        let mut i: usize = 0;
        while i < n
            invariant
                i <= n,
                n == self.pairs@.len(),
                pairs_view(out@) =~= pairs_view(self.pairs@).take(i as int),
            decreases n - i,
        {
            let ghost before = pairs_view(out@);
            out.push((self.pairs[i].0.clone(), self.pairs[i].1.clone()));
            proof {
                assert(pairs_view(out@) =~= before + seq![pairs_view(self.pairs@)[i as int]]);
                assert(pairs_view(out@) =~= pairs_view(self.pairs@).take(i + 1));
            }
            i += 1;
        }
        proof {
            assert(pairs_view(self.pairs@).take(n as int) =~= pairs_view(self.pairs@));
        }
        out
    }

    /// All header names, in order.
    pub fn keys(&self) -> (r: Vec<String>)
        ensures
            strs_view(r@) == pairs_view(self.pairs@).map_values(
                |p: (Seq<char>, Seq<char>)| p.0,
            ),
    {
        let n = self.pairs.len();
        let mut out: Vec<String> = Vec::new();
        let mut i: usize = 0;
        while i < n
            invariant
                i <= n,
                n == self.pairs@.len(),
                strs_view(out@) =~= pairs_view(self.pairs@).map_values(
                    |p: (Seq<char>, Seq<char>)| p.0,
                ).take(i as int),
            decreases n - i,
        {
            let ghost before = strs_view(out@);
            out.push(self.pairs[i].0.clone());
            proof {
                assert(strs_view(out@) =~= before + seq![self.pairs@[i as int].0@]);
                assert(strs_view(out@) =~= pairs_view(self.pairs@).map_values(
                    |p: (Seq<char>, Seq<char>)| p.0,
                ).take(i + 1));
            }
            i += 1;
        }
        proof {
            let m = pairs_view(self.pairs@).map_values(|p: (Seq<char>, Seq<char>)| p.0);
            assert(m.take(n as int) =~= m);
        }
        out
    }

    /// All header values, in order.
    pub fn values(&self) -> (r: Vec<String>)
        ensures
            strs_view(r@) == pairs_view(self.pairs@).map_values(
                |p: (Seq<char>, Seq<char>)| p.1,
            ),
    {
        let n = self.pairs.len();
        let mut out: Vec<String> = Vec::new();
        let mut i: usize = 0;
        while i < n
            invariant
                i <= n,
                n == self.pairs@.len(),
                strs_view(out@) =~= pairs_view(self.pairs@).map_values(
                    |p: (Seq<char>, Seq<char>)| p.1,
                ).take(i as int),
            decreases n - i,
        {
            let ghost before = strs_view(out@);
            out.push(self.pairs[i].1.clone());
            proof {
                assert(strs_view(out@) =~= before + seq![self.pairs@[i as int].1@]);
                assert(strs_view(out@) =~= pairs_view(self.pairs@).map_values(
                    |p: (Seq<char>, Seq<char>)| p.1,
                ).take(i + 1));
            }
            i += 1;
        }
        proof {
            let m = pairs_view(self.pairs@).map_values(|p: (Seq<char>, Seq<char>)| p.1);
            assert(m.take(n as int) =~= m);
        }
        out
    }
}

/// The two ways of writing a header.
pub enum HeadersOp {
    /// Replace any header with an equivalent name.
    Insert,
    /// Keep headers with an equivalent name and add another.
    Append,
}

impl HeadersOp {
    /// Apply the operation to the headers.
    pub fn set(&self, name: &str, value: &str, headers: &mut HttpHeaders)
        ensures
            pairs_view(final(headers).pairs@) == (match self {
                HeadersOp::Insert => remove_key(pairs_view(old(headers).pairs@), name@) + seq![
                    (name@, value@),
                ],
                HeadersOp::Append => pairs_view(old(headers).pairs@) + seq![(name@, value@)],
            }),
    {
        match self {
            HeadersOp::Insert => headers.set(name, value),
            HeadersOp::Append => headers.append(name, value),
        }
    }
}

/// A cross-origin policy: the values of the six conventional headers, each
/// optional.
#[derive(Debug, Clone, PartialEq)]
pub struct CorsPolicy {
    pub allow_origin: Option<String>,
    pub allow_methods: Option<String>,
    pub allow_headers: Option<String>,
    pub max_age: Option<u32>,
    pub allow_credentials: Option<bool>,
    pub expose_headers: Option<String>,
}

pub open spec fn opt_entry(name: Seq<char>, v: Option<Seq<char>>) -> Seq<(Seq<char>, Seq<char>)> {
    match v {
        Some(x) => seq![(name, x)],
        None => seq![],
    }
}

pub open spec fn bool_text(b: bool) -> Seq<char> {
    if b {
        "true"@
    } else {
        "false"@
    }
}

/// The header pairs a policy contributes, in a fixed order.
pub open spec fn cors_headers(c: CorsPolicy) -> Seq<(Seq<char>, Seq<char>)> {
    opt_entry(
        "access-control-allow-origin"@,
        match c.allow_origin {
            Some(s) => Some(s@),
            None => None,
        },
    ) + opt_entry(
        "access-control-allow-methods"@,
        match c.allow_methods {
            Some(s) => Some(s@),
            None => None,
        },
    ) + opt_entry(
        "access-control-allow-headers"@,
        match c.allow_headers {
            Some(s) => Some(s@),
            None => None,
        },
    ) + opt_entry(
        "access-control-max-age"@,
        match c.max_age {
            Some(n) => Some(dec_digits(n as int)),
            None => None,
        },
    ) + opt_entry(
        "access-control-allow-credentials"@,
        match c.allow_credentials {
            Some(b) => Some(bool_text(b)),
            None => None,
        },
    ) + opt_entry(
        "access-control-expose-headers"@,
        match c.expose_headers {
            Some(s) => Some(s@),
            None => None,
        },
    )
}

impl HttpHeaders {
    /// Append the six conventional cross-origin headers, as available from
    /// the policy, in a fixed order.
    #[verifier::rlimit(30)]
    pub fn apply_cors(&mut self, cors: &CorsPolicy)
        ensures
            pairs_view(final(self).pairs@) == pairs_view(old(self).pairs@) + cors_headers(*cors),
    {
        let ghost base = pairs_view(self.pairs@);
        let ghost e1 = opt_entry(
            "access-control-allow-origin"@,
            match &cors.allow_origin {
                Some(s) => Some(s@),
                None => None,
            },
        );
        let ghost e2 = opt_entry(
            "access-control-allow-methods"@,
            match &cors.allow_methods {
                Some(s) => Some(s@),
                None => None,
            },
        );
        let ghost e3 = opt_entry(
            "access-control-allow-headers"@,
            match &cors.allow_headers {
                Some(s) => Some(s@),
                None => None,
            },
        );
        let ghost e4 = opt_entry(
            "access-control-max-age"@,
            match &cors.max_age {
                Some(n) => Some(dec_digits(*n as int)),
                None => None,
            },
        );
        let ghost e5 = opt_entry(
            "access-control-allow-credentials"@,
            match &cors.allow_credentials {
                Some(b) => Some(bool_text(*b)),
                None => None,
            },
        );
        let ghost e6 = opt_entry(
            "access-control-expose-headers"@,
            match &cors.expose_headers {
                Some(s) => Some(s@),
                None => None,
            },
        );
        match &cors.allow_origin {
            Some(s) => self.append("access-control-allow-origin", s.as_str()),
            None => {},
        }
        proof {
            assert(pairs_view(self.pairs@) =~= base + e1);
        }
        match &cors.allow_methods {
            Some(s) => self.append("access-control-allow-methods", s.as_str()),
            None => {},
        }
        proof {
            assert(pairs_view(self.pairs@) =~= base + e1 + e2);
        }
        match &cors.allow_headers {
            Some(s) => self.append("access-control-allow-headers", s.as_str()),
            None => {},
        }
        proof {
            assert(pairs_view(self.pairs@) =~= base + e1 + e2 + e3);
        }
        match &cors.max_age {
            Some(n) => {
                let age = u64_to_dec(*n as u64);
                self.append("access-control-max-age", age.as_str());
            },
            None => {},
        }
        proof {
            assert(pairs_view(self.pairs@) =~= base + e1 + e2 + e3 + e4);
        }
        match &cors.allow_credentials {
            Some(b) => {
                let text: &'static str = if *b {
                    "true"
                } else {
                    "false"
                };
                self.append("access-control-allow-credentials", text);
            },
            None => {},
        }
        proof {
            assert(pairs_view(self.pairs@) =~= base + e1 + e2 + e3 + e4 + e5);
        }
        match &cors.expose_headers {
            Some(s) => self.append("access-control-expose-headers", s.as_str()),
            None => {},
        }
        proof {
            assert(pairs_view(self.pairs@) =~= base + e1 + e2 + e3 + e4 + e5 + e6);
            assert(cors_headers(*cors) == e1 + e2 + e3 + e4 + e5 + e6);
            assert(base + e1 + e2 + e3 + e4 + e5 + e6 =~= base + (e1 + e2 + e3 + e4 + e5 + e6));
        }
    }
}

// ---------------------------------------------------------------------------
// Cookies
// ---------------------------------------------------------------------------

/// The cookie pairs parsed from the headers from `idx` on whose name is
/// `header`; header values that do not parse as cookies are dropped.
pub open spec fn cookies_from(
    pairs: Seq<(Seq<char>, Seq<char>)>,
    header: Seq<char>,
    idx: int,
) -> Seq<(Seq<char>, Seq<char>)>
    decreases pairs.len() - idx,
{
    if idx < 0 || idx >= pairs.len() {
        seq![]
    } else {
        let rest = cookies_from(pairs, header, idx + 1);
        if pairs[idx].0 == header {
            match cookie_pair_of(pairs[idx].1) {
                Some(p) => seq![p] + rest,
                None => rest,
            }
        } else {
            rest
        }
    }
}

/// Reads or writes cookies through the matching header.
#[derive(Debug, Clone, Copy, PartialEq, Eq, Structural)]
pub enum CookieHelper {
    /// The response side: `set-cookie`.
    SetCookie,
    /// The request side: `cookie`.
    GetCookie,
}

impl CookieHelper {
    /// The header this helper reads or writes.
    pub open spec fn header_name_spec(self) -> Seq<char> {
        match self {
            CookieHelper::SetCookie => "set-cookie"@,
            CookieHelper::GetCookie => "cookie"@,
        }
    }

    /// The name of the header this helper reads or writes.
    pub fn header_name(&self) -> (r: &'static str)
        ensures
            r@ == self.header_name_spec(),
    {
        match self {
            CookieHelper::SetCookie => "set-cookie",
            CookieHelper::GetCookie => "cookie",
        }
    }

    /// The cookies carried by the matching headers, as name/value pairs.
    pub fn get(&self, headers: &HttpHeaders) -> (r: Vec<(String, String)>)
        ensures
            pairs_view(r@) == cookies_from(
                pairs_view(headers.pairs@),
                self.header_name_spec(),
                0,
            ),
    {
        cookies_rec(headers, self.header_name(), 0)
    }

    /// Add a cookie with the given name and value under the matching header.
    pub fn set(&self, headers: &mut HttpHeaders, name: &str, value: &str)
        ensures
            pairs_view(final(headers).pairs@) == pairs_view(old(headers).pairs@) + seq![
                (self.header_name_spec(), cookie_text_of(name@, value@)),
            ],
    {
        let text = cookie_text(name, value);
        HeadersOp::Append.set(self.header_name(), text.as_str(), headers);
    }
}

fn cookies_rec(headers: &HttpHeaders, header: &str, idx: usize) -> (r: Vec<(String, String)>)
    requires
        idx <= headers.pairs@.len(),
    ensures
        pairs_view(r@) == cookies_from(pairs_view(headers.pairs@), header@, idx as int),
    decreases headers.pairs@.len() - idx,
{
    if idx >= headers.pairs.len() {
        let r: Vec<(String, String)> = Vec::new();
        proof {
            assert(pairs_view(r@) =~= cookies_from(
                pairs_view(headers.pairs@),
                header@,
                idx as int,
            ));
        }
        return r;
    }
    let mut rest = cookies_rec(headers, header, idx + 1);
    let ghost rest0 = pairs_view(rest@);
    if eq_str(headers.pairs[idx].0.as_str(), header) {
        match parse_cookie(headers.pairs[idx].1.as_str()) {
            Some(p) => {
                rest.insert(0, p);
                proof {
                    assert(pairs_view(rest@) =~= seq![pairs_view(rest@)[0]] + rest0);
                }
            },
            None => {},
        }
    }
    proof {
        assert(pairs_view(rest@) =~= cookies_from(pairs_view(headers.pairs@), header@, idx as int));
    }
    rest
}

} // verus!
