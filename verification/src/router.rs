//! The dispatch table and its registrar: route groups declare a path
//! pattern, an ordered set of HTTP verbs, and an optional cross-origin
//! policy; declaring a verb twice in one group is a construction-time
//! failure. A group emits one registration per declared verb, in declaration
//! order, and where a policy is attached with the wrap flag a synthetic
//! preflight handler is registered exactly once.

use vstd::prelude::*;

use crate::text::concat2;
use crate::text::concat3;
use crate::text::contains_sub;
use crate::text::contains_sub_exec;
use crate::text::eq_str;
use crate::text::strs_view;
use crate::text::to_ascii_upper;
use crate::text::upper_spec;

verus! {

// ---------------------------------------------------------------------------
// Methods
// ---------------------------------------------------------------------------

/// An HTTP verb of the dispatch table, plus the unset placeholder.
#[derive(Debug, Clone, Copy, PartialEq, Eq, Structural)]
pub enum Method {
    Default,
    Delete,
    Get,
    Head,
    Options,
    Patch,
    Post,
    Put,
}

/// The verb selected by a numeric selector.
pub open spec fn to_method_spec(m: int) -> Option<Method> {
    if m == 1 {
        Some(Method::Delete)
    } else if m == 2 {
        Some(Method::Get)
    } else if m == 3 {
        Some(Method::Head)
    } else if m == 4 {
        Some(Method::Options)
    } else if m == 5 {
        Some(Method::Patch)
    } else if m == 6 {
        Some(Method::Post)
    } else if m == 7 {
        Some(Method::Put)
    } else {
        None
    }
}

/// The verb's upper-case name; the placeholder reads `NONE`.
pub open spec fn method_upper_name(m: Method) -> Seq<char> {
    match m {
        Method::Default => "NONE"@,
        Method::Delete => "DELETE"@,
        Method::Get => "GET"@,
        Method::Head => "HEAD"@,
        Method::Options => "OPTIONS"@,
        Method::Patch => "PATCH"@,
        Method::Post => "POST"@,
        Method::Put => "PUT"@,
    }
}

/// The verb's lower-case name; the placeholder reads the empty text.
pub open spec fn method_lower_name(m: Method) -> Seq<char> {
    match m {
        Method::Default => Seq::empty(),
        Method::Delete => "delete"@,
        Method::Get => "get"@,
        Method::Head => "head"@,
        Method::Options => "options"@,
        Method::Patch => "patch"@,
        Method::Post => "post"@,
        Method::Put => "put"@,
    }
}

/// Whether the text is one of the seven upper-case verb names.
pub open spec fn is_method_name(s: Seq<char>) -> bool {
    s == "DELETE"@ || s == "GET"@ || s == "HEAD"@ || s == "OPTIONS"@ || s == "PATCH"@ || s
        == "POST"@ || s == "PUT"@
}

/// The verb named by an upper-case verb name.
pub open spec fn method_of_name(s: Seq<char>) -> Method {
    if s == "DELETE"@ {
        Method::Delete
    } else if s == "GET"@ {
        Method::Get
    } else if s == "HEAD"@ {
        Method::Head
    } else if s == "OPTIONS"@ {
        Method::Options
    } else if s == "PATCH"@ {
        Method::Patch
    } else if s == "POST"@ {
        Method::Post
    } else {
        Method::Put
    }
}

/// The seven lower-case verb names a group declaring `all` expands to, in
/// the fixed expansion order.
pub open spec fn all_method_names() -> Seq<Seq<char>> {
    seq!["delete"@, "get"@, "head"@, "patch"@, "post"@, "put"@, "options"@]
}

/// The verb names accepted in a group declaration, upper-case.
pub open spec fn supported_method_names() -> Seq<Seq<char>> {
    seq!["ALL"@, "GET"@, "DELETE"@, "HEAD"@, "PATCH"@, "POST"@, "PUT"@, "OPTIONS"@]
}

impl Method {
    /// The verb selected by a numeric selector, if any.
    pub fn to_method(method: usize) -> (r: Option<Method>)
        ensures
            r == to_method_spec(method as int),
    {
        match method {
            1 => Some(Method::Delete),
            2 => Some(Method::Get),
            3 => Some(Method::Head),
            4 => Some(Method::Options),
            5 => Some(Method::Patch),
            6 => Some(Method::Post),
            7 => Some(Method::Put),
            _ => None,
        }
    }

    /// The seven lower-case verb names, in expansion order.
    pub fn all() -> (r: Vec<String>)
        ensures
            strs_view(r@) == all_method_names(),
    {
        let mut v: Vec<String> = Vec::new();
        v.push(String::from_str("delete"));
        v.push(String::from_str("get"));
        v.push(String::from_str("head"));
        v.push(String::from_str("patch"));
        v.push(String::from_str("post"));
        v.push(String::from_str("put"));
        v.push(String::from_str("options"));
        proof {
            assert(strs_view(v@) =~= all_method_names());
        }
        v
    }

    /// The verb named by an upper-case verb name.
    pub fn new(method: &str) -> (r: Method)
        requires
            is_method_name(method@),
        ensures
            r == method_of_name(method@),
    {
        if eq_str(method, "DELETE") {
            Method::Delete
        } else if eq_str(method, "GET") {
            Method::Get
        } else if eq_str(method, "HEAD") {
            Method::Head
        } else if eq_str(method, "OPTIONS") {
            Method::Options
        } else if eq_str(method, "PATCH") {
            Method::Patch
        } else if eq_str(method, "POST") {
            Method::Post
        } else {
            Method::Put
        }
    }

    /// The diagnostic emitted when a verb's attribute carries an unexpected
    /// token: it names the verb's own entry point as the valid form.
    pub fn to_compile_error(&self) -> (r: String)
        requires
            *self != Method::Default,
        ensures
            r@ == "unexpected token, valid token is #["@ + method_lower_name(*self)
                + "(\"/path\")]"@,
    {
        let name: &'static str = match self {
            Method::Default => "",
            Method::Delete => "delete",
            Method::Get => "get",
            Method::Head => "head",
            Method::Options => "options",
            Method::Patch => "patch",
            Method::Post => "post",
            Method::Put => "put",
        };
        concat3("unexpected token, valid token is #[", name, "(\"/path\")]")
    }

    /// The verb's upper-case name.
    pub fn to_name(&self) -> (r: &'static str)
        ensures
            r@ == method_upper_name(*self),
    {
        match self {
            Method::Default => "NONE",
            Method::Delete => "DELETE",
            Method::Get => "GET",
            Method::Head => "HEAD",
            Method::Options => "OPTIONS",
            Method::Patch => "PATCH",
            Method::Post => "POST",
            Method::Put => "PUT",
        }
    }
}

fn is_supported_method(m: &str) -> (r: bool)
    ensures
        r == supported_method_names().contains(m@),
{
    let r = eq_str(m, "ALL") || eq_str(m, "GET") || eq_str(m, "DELETE") || eq_str(m, "HEAD")
        || eq_str(m, "PATCH") || eq_str(m, "POST") || eq_str(m, "PUT") || eq_str(m, "OPTIONS");
    proof {
        let sm = supported_method_names();
        if r {
            assert(sm.contains(m@)) by {
                if m@ == "ALL"@ {
                    assert(sm[0] == m@);
                } else if m@ == "GET"@ {
                    assert(sm[1] == m@);
                } else if m@ == "DELETE"@ {
                    assert(sm[2] == m@);
                } else if m@ == "HEAD"@ {
                    assert(sm[3] == m@);
                } else if m@ == "PATCH"@ {
                    assert(sm[4] == m@);
                } else if m@ == "POST"@ {
                    assert(sm[5] == m@);
                } else if m@ == "PUT"@ {
                    assert(sm[6] == m@);
                } else {
                    assert(sm[7] == m@);
                }
            }
        } else {
            assert(!sm.contains(m@)) by {
                assert(forall|i: int| 0 <= i < sm.len() ==> sm[i] != m@);
            }
        }
    }
    r
}

fn contains_str(v: &Vec<String>, m: &str) -> (r: bool)
    ensures
        r == strs_view(v@).contains(m@),
{
    let n = v.len();
    let mut i: usize = 0;
    while i < n
        invariant
            i <= n,
            n == v@.len(),
            forall|j: int| 0 <= j < i ==> strs_view(v@)[j] != m@,
        decreases n - i,
    {
        if eq_str(v[i].as_str(), m) {
            proof {
                assert(strs_view(v@)[i as int] == m@);
            }
            return true;
        }
        proof {
            assert(strs_view(v@)[i as int] == v@[i as int]@);
        }
        i += 1;
    }
    proof {
        assert(!strs_view(v@).contains(m@));
    }
    false
}

// ---------------------------------------------------------------------------
// Registrar diagnostics
// ---------------------------------------------------------------------------

/// What went wrong while a route group was declared.
#[derive(Debug, Clone, Copy, PartialEq, Eq, Structural)]
pub enum ErrorSpan {
    DuplicateMethod,
    InvalidFormat,
    InvalidMethod,
    InvalidMethods,
    Method,
}

/// The diagnostic a declaration failure renders to.
pub open spec fn span_message(e: ErrorSpan, ident: Seq<char>) -> Seq<char> {
    match e {
        ErrorSpan::DuplicateMethod => "duplicate method found"@,
        ErrorSpan::InvalidFormat => "expected string literal, found "@ + ident,
        ErrorSpan::InvalidMethod => "expected \"get, head, delete, put, patch, post\", found "@
            + ident,
        ErrorSpan::InvalidMethods => "expected \"all, get, head, delete, put, patch, post\", found "@
            + ident,
        ErrorSpan::Method => "method's attribute is not supported when using "@ + ident
            + " attribute, use route instead or remove method"@,
    }
}

impl ErrorSpan {
    /// The diagnostic message, over the offending source text where one is
    /// needed.
    pub fn message(self, ident: Option<&str>) -> (r: String)
        requires
            self == ErrorSpan::DuplicateMethod || ident is Some,
        ensures
            r@ == span_message(
                self,
                match ident {
                    Some(i) => i@,
                    None => Seq::empty(),
                },
            ),
    {
        let id: &str = match ident {
            Some(i) => i,
            None => "",
        };
        match self {
            ErrorSpan::DuplicateMethod => String::from_str("duplicate method found"),
            ErrorSpan::InvalidFormat => concat2("expected string literal, found ", id),
            ErrorSpan::InvalidMethod => concat2(
                "expected \"get, head, delete, put, patch, post\", found ",
                id,
            ),
            ErrorSpan::InvalidMethods => concat2(
                "expected \"all, get, head, delete, put, patch, post\", found ",
                id,
            ),
            ErrorSpan::Method => concat3(
                "method's attribute is not supported when using ",
                id,
                " attribute, use route instead or remove method",
            ),
        }
    }
}

/// The diagnostic for a declaration failure over the offending source text.
pub fn to_error(e_span: ErrorSpan, ident: Option<&str>) -> (r: String)
    requires
        ident is Some,
    ensures
        r@ == span_message(
            e_span,
            match ident {
                Some(i) => i@,
                None => Seq::empty(),
            },
        ),
{
    e_span.message(ident)
}

// ---------------------------------------------------------------------------
// Route groups
// ---------------------------------------------------------------------------

/// Which kind of cross-origin declaration a group carries.
#[derive(Debug, Clone, Copy, PartialEq, Eq, Structural)]
pub enum CorsVariant {
    Default,
    Lazy,
}

impl CorsVariant {
    /// The declaration kind named by the attribute key.
    pub fn to_variant(variant: &str) -> (r: Self)
        ensures
            r == (if variant@ == "cors"@ {
                CorsVariant::Default
            } else {
                CorsVariant::Lazy
            }),
    {
        if eq_str(variant, "cors") {
            CorsVariant::Default
        } else {
            CorsVariant::Lazy
        }
    }
}

/// How a group's handlers reach their cross-origin policy.
#[derive(Debug, Clone, PartialEq)]
pub enum CorsChoice {
    /// A lazily initialized policy, by name.
    Lazy(String),
    /// A policy wrapped per request, by name.
    Wrapped(String),
}

/// A route group under construction: a path pattern, the declared verbs in
/// declaration order, the optional cross-origin declarations, and the wrap
/// flag that asks for a synthetic preflight handler.
#[derive(Debug, Clone, PartialEq)]
pub struct Route {
    pub path: Option<String>,
    pub cors: Option<String>,
    pub lazy_cors: Option<String>,
    pub methods: Vec<String>,
    pub wrap: bool,
    pub is_single: bool,
}

impl Default for Route {
    fn default() -> (r: Self)
        ensures
            r.path is None,
            r.cors is None,
            r.lazy_cors is None,
            r.methods@ =~= Seq::<String>::empty(),
            !r.wrap,
            !r.is_single,
    {
        Route {
            path: None,
            cors: None,
            lazy_cors: None,
            methods: Vec::new(),
            wrap: false,
            is_single: false,
        }
    }
}

/// What inserting a verb into a group yields: the new verb list, or the
/// failure and the text it reports.
pub open spec fn insert_method_check(
    is_single: bool,
    methods: Seq<Seq<char>>,
    m: Seq<char>,
) -> Result<Seq<Seq<char>>, (ErrorSpan, Seq<char>)> {
    if m == "all"@ {
        if methods.len() != 0 {
            if methods.len() == 7 {
                Err((ErrorSpan::DuplicateMethod, m))
            } else {
                Err((ErrorSpan::InvalidMethod, m))
            }
        } else {
            Ok(methods + all_method_names())
        }
    } else if is_single {
        Err((ErrorSpan::Method, m))
    } else if !supported_method_names().contains(upper_spec(m)) {
        Err((ErrorSpan::InvalidMethods, m))
    } else if methods.contains(m) {
        Err((ErrorSpan::DuplicateMethod, m))
    } else {
        Ok(methods.push(m))
    }
}

impl Route {
    /// A fresh group; a verb fixes the group to that single verb's entry
    /// point.
    pub fn new(method: Option<Method>) -> (r: Self)
        ensures
            r.path is None,
            r.cors is None,
            r.lazy_cors is None,
            !r.wrap,
            match method {
                Some(m) => r.is_single && strs_view(r.methods@) == seq![method_upper_name(m)],
                None => !r.is_single && r.methods@.len() == 0,
            },
    {
        let mut route = Route::default();
        match method {
            Some(m) => {
                route.is_single = true;
                route.methods.push(String::from_str(m.to_name()));
                proof {
                    assert(strs_view(route.methods@) =~= seq![method_upper_name(m)]);
                }
            },
            None => {},
        }
        route
    }

    /// Declare one more verb for the group. `all` expands to the full verb
    /// set and is valid only first; a verb already declared, an unsupported
    /// name, or any verb under a single-verb entry point is a
    /// construction-time failure, reported as its diagnostic message.
    pub fn insert_method(&mut self, method: String) -> (r: Result<(), String>)
        ensures
            match r {
                Ok(()) => {
                    &&& insert_method_check(
                        old(self).is_single,
                        strs_view(old(self).methods@),
                        method@,
                    ) == Ok::<_, (ErrorSpan, Seq<char>)>(strs_view(final(self).methods@))
                    &&& final(self).path == old(self).path
                    &&& final(self).cors == old(self).cors
                    &&& final(self).lazy_cors == old(self).lazy_cors
                    &&& final(self).wrap == old(self).wrap
                    &&& final(self).is_single == old(self).is_single
                },
                Err(msg) => {
                    &&& insert_method_check(
                        old(self).is_single,
                        strs_view(old(self).methods@),
                        method@,
                    ) matches Err((k, i)) && msg@ == span_message(k, i)
                    &&& *final(self) == *old(self)
                },
            },
    {
        if eq_str(method.as_str(), "all") {
            if self.methods.len() != 0 {
                if self.methods.len() == 7 {
                    return Err(ErrorSpan::DuplicateMethod.message(Some(method.as_str())));
                }
                return Err(ErrorSpan::InvalidMethod.message(Some(method.as_str())));
            }
            let ghost before = strs_view(self.methods@);
            let mut rest = Method::all();
            self.methods.append(&mut rest);
            proof {
                assert(strs_view(self.methods@) =~= before + all_method_names());
            }
        } else {
            if self.is_single {
                return Err(ErrorSpan::Method.message(Some(method.as_str())));
            }
            let upper = to_ascii_upper(method.as_str());
            if !is_supported_method(upper.as_str()) {
                return Err(ErrorSpan::InvalidMethods.message(Some(method.as_str())));
            }
            if contains_str(&self.methods, method.as_str()) {
                return Err(ErrorSpan::DuplicateMethod.message(Some(method.as_str())));
            }
            let ghost before = strs_view(self.methods@);
            self.methods.push(method);
            proof {
                assert(strs_view(self.methods@) =~= before.push(strs_view(self.methods@).last()));
            }
        }
        Ok(())
    }

    /// Ask for the synthetic preflight handler. Only valid once a
    /// cross-origin declaration is present, and never beside an explicit
    /// `options` handler short of the full verb set.
    pub fn wrap(&mut self) -> (r: Result<(), String>)
        ensures
            match r {
                Ok(()) => {
                    &&& old(self).cors is Some || old(self).lazy_cors is Some
                    &&& !(strs_view(old(self).methods@).contains("options"@) && old(
                        self,
                    ).methods@.len() != 7)
                    &&& *final(self) == Route { wrap: true, ..*old(self) }
                },
                Err(msg) => {
                    if old(self).cors is None && old(self).lazy_cors is None {
                        &&& msg@ == "wrap cannot be used when \"cors/lazy_cors\" are ommitted"@
                        &&& *final(self) == *old(self)
                    } else {
                        &&& strs_view(old(self).methods@).contains("options"@) && old(
                            self,
                        ).methods@.len() != 7
                        &&& msg@ == "wrap cannot be used when options handler is present"@
                        &&& *final(self) == Route { wrap: true, ..*old(self) }
                    }
                },
            },
    {
        if self.cors.is_none() && self.lazy_cors.is_none() {
            return Err(
                String::from_str("wrap cannot be used when \"cors/lazy_cors\" are ommitted"),
            );
        }
        self.wrap = true;
        if contains_str(&self.methods, "options") && self.methods.len() != 7 {
            return Err(String::from_str("wrap cannot be used when options handler is present"));
        }
        Ok(())
    }

    /// Record a cross-origin declaration under its attribute key.
    pub fn set_cors(&mut self, variant: CorsVariant, name: String)
        ensures
            match variant {
                CorsVariant::Default => *final(self) == Route {
                    cors: Some(name),
                    ..*old(self)
                },
                CorsVariant::Lazy => *final(self) == Route { lazy_cors: Some(name), ..*old(self) },
            },
    {
        match variant {
            CorsVariant::Default => self.cors = Some(name),
            CorsVariant::Lazy => self.lazy_cors = Some(name),
        }
    }

    /// How this group's handlers reach a policy: a per-request wrapped
    /// declaration wins over none, a lazy one over none, and both at once
    /// yield nothing.
    pub fn cors_choice(&self) -> (r: Option<CorsChoice>)
        ensures
            r == (match (self.cors, self.lazy_cors) {
                (Option::<String>::None, Option::<String>::Some(l)) => Some(CorsChoice::Lazy(l)),
                (Option::<String>::Some(c), Option::<String>::None) => Some(
                    CorsChoice::Wrapped(c),
                ),
                _ => None::<CorsChoice>,
            }),
    {
        match (&self.cors, &self.lazy_cors) {
            (None, Some(l)) => Some(CorsChoice::Lazy(l.clone())),
            (Some(c), None) => Some(CorsChoice::Wrapped(c.clone())),
            _ => None,
        }
    }
}

// ---------------------------------------------------------------------------
// Registrations
// ---------------------------------------------------------------------------

/// One entry of the dispatch table: a path pattern, a verb, and whether the
/// entry is the synthetic preflight responder.
#[derive(Debug, Clone, PartialEq)]
pub struct Registration {
    pub path: String,
    pub method: Method,
    pub preflight: bool,
}

pub open spec fn regs_view(v: Seq<Registration>) -> Seq<(Seq<char>, Method, bool)> {
    v.map_values(|r: Registration| (r.path@, r.method, r.preflight))
}

/// The registrations a group emits: one handler per declared verb in
/// declaration order; where a policy is attached with the wrap flag, the
/// preflight entry stands once at the end, replacing the final handler when
/// the group declared the full verb set (whose last verb is `options`).
pub open spec fn registrations_model(
    path: Seq<char>,
    methods: Seq<Seq<char>>,
    has_cors: bool,
    wrap: bool,
) -> Seq<(Seq<char>, Method, bool)> {
    let handlers = Seq::new(
        methods.len(),
        |i: int| (path, method_of_name(upper_spec(methods[i])), false),
    );
    if wrap && has_cors && methods.len() > 0 {
        if methods.len() == 7 {
            handlers.drop_last().push((path, Method::Options, true))
        } else {
            handlers.push((path, Method::Options, true))
        }
    } else {
        handlers
    }
}

/// Emit the call chain a route group stands for: each declared verb is
/// registered against the dispatch table in declaration order, and the
/// preflight handler is inserted only once.
pub fn route_registrations(route: &Route) -> (r: Vec<Registration>)
    requires
        route.path is Some,
        forall|i: int|
            0 <= i < route.methods@.len() ==> is_method_name(
                upper_spec(#[trigger] strs_view(route.methods@)[i]),
            ),
    ensures
        regs_view(r@) == registrations_model(
            (match route.path {
                Some(p) => p@,
                None => Seq::empty(),
            }),
            strs_view(route.methods@),
            route.cors is Some || route.lazy_cors is Some,
            route.wrap,
        ),
{
    let path: &String = match &route.path {
        Some(p) => p,
        None => {
            proof {
                assert(false);
            }
            unreached()
        },
    };
    let ghost names = strs_view(route.methods@);
    let ghost handlers = Seq::new(
        names.len(),
        |i: int| (path@, method_of_name(upper_spec(names[i])), false),
    );
    let n = route.methods.len();
    let mut out: Vec<Registration> = Vec::new();
    let mut i: usize = 0;
    while i < n
        invariant
            i <= n,
            n == route.methods@.len(),
            handlers == Seq::new(
                names.len(),
                |j: int| (path@, method_of_name(upper_spec(names[j])), false),
            ),
            names == strs_view(route.methods@),
            forall|j: int|
                0 <= j < names.len() ==> is_method_name(upper_spec(#[trigger] names[j])),
            regs_view(out@) =~= handlers.take(i as int),
        decreases n - i,
    {
        let upper = to_ascii_upper(route.methods[i].as_str());
        proof {
            assert(names[i as int] == route.methods@[i as int]@);
            assert(is_method_name(upper_spec(names[i as int])));
        }
        let m = Method::new(upper.as_str());
        let ghost before = regs_view(out@);
        out.push(Registration { path: path.clone(), method: m, preflight: false });
        proof {
            assert(regs_view(out@) =~= before.push((path@, m, false)));
            assert(regs_view(out@) =~= handlers.take(i + 1));
        }
        i += 1;
    }
    proof {
        assert(handlers.take(n as int) =~= handlers);
    }
    let has_cors = route.cors.is_some() || route.lazy_cors.is_some();
    if route.wrap && has_cors && n > 0 {
        let ghost before_adjust = regs_view(out@);
        if n == 7 {
            let _ = out.pop();
            proof {
                assert(regs_view(out@) =~= before_adjust.drop_last());
            }
        }
        let ghost before = regs_view(out@);
        out.push(Registration { path: path.clone(), method: Method::Options, preflight: true });
        proof {
            assert(regs_view(out@) =~= before.push((path@, Method::Options, true)));
        }
    }
    proof {
        assert(regs_view(out@) =~= registrations_model(
            path@,
            names,
            route.cors is Some || route.lazy_cors is Some,
            route.wrap,
        ));
    }
    out
}

// ---------------------------------------------------------------------------
// The dispatch table
// ---------------------------------------------------------------------------

/// The dispatch table: registrations in the order they were made.
#[derive(Debug, Clone, PartialEq)]
pub struct Router {
    pub routes: Vec<Registration>,
}

/// A route group that knows how to register itself.
pub trait RouteFactory {
    /// Register this group's handlers on the router.
    fn register(self, router: Router) -> Router;
}

/// Run a route factory against the dispatch table.
pub trait Configure: Sized {
    /// Let `f` register itself.
    fn configure<F: RouteFactory>(self, f: F) -> Self;
}

/// Run an external route configuration function.
pub trait Service: Sized {
    /// Apply a whole configuration step to the table.
    fn service<F: FnOnce(Self) -> Self>(self, f: F) -> (r: Self)
        requires
            call_requires(f, (self,)),
        ensures
            call_ensures(f, (self,), r),
    ;
}

impl Router {
    /// An empty dispatch table.
    pub fn new() -> (r: Self)
        ensures
            r.routes@ =~= Seq::<Registration>::empty(),
    {
        Router { routes: Vec::new() }
    }

    /// Register a handler for a verb under a path pattern, in call order.
    pub fn register(&mut self, pattern: &str, method: Method)
        requires
            method != Method::Default,
        ensures
            regs_view(final(self).routes@) == regs_view(old(self).routes@) + seq![
                (pattern@, method, false),
            ],
    {
        let ghost before = regs_view(self.routes@);
        self.routes.push(Registration { path: pattern.to_owned(), method, preflight: false });
        proof {
            assert(regs_view(self.routes@) =~= before + seq![(pattern@, method, false)]);
        }
    }
}

impl Configure for Router {
    fn configure<F: RouteFactory>(self, f: F) -> Self {
        f.register(self)
    }
}

impl Service for Router {
    fn service<F: FnOnce(Self) -> Self>(self, f: F) -> (r: Self) {
        f(self)
    }
}

// ---------------------------------------------------------------------------
// Handler argument shapes
// ---------------------------------------------------------------------------

/// What stands at one argument position of a wrapped handler.
#[derive(Debug, Clone, Copy, PartialEq, Eq, Structural)]
pub enum ParamSlot {
    /// The request value.
    ReqArg,
    /// The route context.
    CtxArg,
    /// The typed query value.
    QueryArg,
}

/// Which argument a wrapped handler receives at one-based position `i` of
/// `len` arguments: plain handlers take the request then the context; query
/// handlers take the query first, the context last, and the request between.
pub open spec fn param_slot(is_default: bool, i: int, len: int) -> ParamSlot {
    if is_default {
        if i < 2 {
            ParamSlot::ReqArg
        } else {
            ParamSlot::CtxArg
        }
    } else if (i == 3 && len == 3) || (i == 2 && len == 2) {
        ParamSlot::CtxArg
    } else if i == 1 {
        ParamSlot::QueryArg
    } else {
        ParamSlot::ReqArg
    }
}

/// The argument for one-based position `i` of `len`.
pub fn get_param(is_default: bool, i: usize, len: usize) -> (r: ParamSlot)
    ensures
        r == param_slot(is_default, i as int, len as int),
{
    if is_default {
        if i < 2 {
            ParamSlot::ReqArg
        } else {
            ParamSlot::CtxArg
        }
    } else if (i == 3 && len == 3) || (i == 2 && len == 2) {
        ParamSlot::CtxArg
    } else if i == 1 {
        ParamSlot::QueryArg
    } else {
        ParamSlot::ReqArg
    }
}

/// How a handler's arguments are wired.
#[derive(Debug, Clone, Copy, PartialEq, Eq, Structural)]
pub enum FnKind {
    /// `(query, context)`.
    WithQuery,
    /// `(query, request, context)`.
    WithReq,
}

/// The argument wiring for a handler of `len` parameters: each position's
/// slot, and whether the handler takes the request.
pub fn collect_args(is_default: bool, len: usize) -> (r: (Vec<ParamSlot>, FnKind))
    requires
        len < usize::MAX,
    ensures
        r.0@ == Seq::new(len as nat, |i: int| param_slot(is_default, i + 1, len as int)),
        r.1 == (if len < 3 {
            FnKind::WithQuery
        } else {
            FnKind::WithReq
        }),
{
    let mut slots: Vec<ParamSlot> = Vec::new();
    let mut i: usize = 0;
    while i < len
        invariant
            i <= len,
            len < usize::MAX,
            slots@ =~= Seq::new(i as nat, |j: int| param_slot(is_default, j + 1, len as int)),
        decreases len - i,
    {
        slots.push(get_param(is_default, i + 1, len));
        proof {
            assert(slots@ =~= Seq::new(
                (i + 1) as nat,
                |j: int| param_slot(is_default, j + 1, len as int),
            ));
        }
        i += 1;
    }
    let kind = if len < 3 {
        FnKind::WithQuery
    } else {
        FnKind::WithReq
    };
    (slots, kind)
}

/// How a handler is wrapped, read off its first query-like parameter type.
#[derive(Debug, Clone, Copy, PartialEq, Eq, Structural)]
pub enum WrapKind {
    /// The handler takes a typed query: bind before calling.
    WrapQuery,
    /// The handler takes the request directly.
    WrapDefault,
}

/// A handler signature under wrapping: the text of its first parameter type
/// and its parameter count.
#[derive(Debug, Clone, PartialEq)]
pub struct Wrapper {
    pub query: String,
    pub len: usize,
}

impl Wrapper {
    /// Record a handler signature.
    pub fn new(query: String, len: usize) -> (r: Self)
        ensures
            r.query == query,
            r.len == len,
    {
        Wrapper { query, len }
    }

    /// How the handler is wrapped: two or three parameters are accepted, and
    /// the query wrapper is chosen where the first parameter names `Query`.
    pub fn kind(&self) -> (r: Result<WrapKind, String>)
        ensures
            match r {
                Ok(k) => 2 <= self.len <= 3 && k == (if contains_sub(self.query@, "Query"@) {
                    WrapKind::WrapQuery
                } else {
                    WrapKind::WrapDefault
                }),
                Err(msg) => !(2 <= self.len <= 3) && msg@ == "invalid arguments"@,
            },
    {
        if 2 <= self.len && self.len <= 3 {
            if contains_sub_exec(self.query.as_str(), "Query") {
                Ok(WrapKind::WrapQuery)
            } else {
                Ok(WrapKind::WrapDefault)
            }
        } else {
            Err(String::from_str("invalid arguments"))
        }
    }
}

} // verus!
