//! The cross-origin policy: which requests of another origin are let
//! through, and the headers that tell the client so.
use vstd::prelude::*;
use crate::response::{
    has_header, lemma_lines_push, lines, Header, HeadView, HeaderName, ResponseHead,
};
use crate::router::{method_of, Method};
use crate::text::{
    append_text, chars_of, decimal, decimal_text, join, rows, same_ignoring_case, same_text,
    same_text_ignoring_case, split, split_text, string_of,
};

verus! {

/// The origins that may use the server.
#[derive(Clone, Debug, PartialEq, Eq)]
pub enum AllowedOrigins {
    /// Every origin; the origin `null` only where `allow_null` is set.
    Any { allow_null: bool },
    /// The origins of the list.
    Origins(Vec<String>),
}

/// Allowed origins as a plain value.
pub enum OriginsView {
    Any { allow_null: bool },
    Origins(Seq<Seq<char>>),
}

/// The strings of a vector, as plain values.
pub open spec fn names(strings: Seq<String>) -> Seq<Seq<char>> {
    Seq::new(strings.len(), |i: int| strings[i]@)
}

impl View for AllowedOrigins {
    type V = OriginsView;

    open spec fn view(&self) -> OriginsView {
        match *self {
            AllowedOrigins::Any { allow_null } => OriginsView::Any { allow_null },
            AllowedOrigins::Origins(list) => OriginsView::Origins(names(list@)),
        }
    }
}

/// The cross-origin policy of a server. It is set once and holds for every
/// route.
#[derive(Clone, Debug, PartialEq, Eq)]
pub struct CorsPolicy {
    pub allowed_origins: AllowedOrigins,
    /// The names of the request headers that a client may send.
    pub allowed_headers: Vec<String>,
    pub allowed_methods: Vec<Method>,
    pub allow_credentials: bool,
    /// For how many seconds a client may keep the answer to a preflight.
    pub max_age: Option<u64>,
    /// Whether `*` is named as the allowed origin in place of the request's
    /// own, where credentials are not allowed.
    pub prefer_wildcard: bool,
}

/// A policy as a plain value.
pub struct PolicyView {
    pub allowed_origins: OriginsView,
    pub allowed_headers: Seq<Seq<char>>,
    pub allowed_methods: Seq<Method>,
    pub allow_credentials: bool,
    pub max_age: Option<nat>,
    pub prefer_wildcard: bool,
}

impl View for CorsPolicy {
    type V = PolicyView;

    open spec fn view(&self) -> PolicyView {
        PolicyView {
            allowed_origins: self.allowed_origins@,
            allowed_headers: names(self.allowed_headers@),
            allowed_methods: self.allowed_methods@,
            allow_credentials: self.allow_credentials,
            max_age: match self.max_age {
                Some(secs) => Some(secs as nat),
                None => None,
            },
            prefer_wildcard: self.prefer_wildcard,
        }
    }
}

/// The number of seconds in an hour.
pub const ONE_HOUR_IN_SECONDS: u64 = 3600;

/// The origin that a browser names where it will not tell the page's own.
pub open spec fn null_origin() -> Seq<char> {
    seq!['n', 'u', 'l', 'l']
}

/// The name of the one request header that the playground's pages send.
pub open spec fn content_type_name() -> Seq<char> {
    seq!['C', 'o', 'n', 't', 'e', 'n', 't', '-', 'T', 'y', 'p', 'e']
}

/// The policy of the playground: any origin, `null` too; the request header
/// `Content-Type`; the methods `GET` and `POST`; no credentials; preflight
/// answers good for an hour; `*` as the allowed origin.
pub open spec fn reference_policy() -> PolicyView {
    PolicyView {
        allowed_origins: OriginsView::Any { allow_null: true },
        allowed_headers: seq![content_type_name()],
        allowed_methods: seq![Method::Get, Method::Post],
        allow_credentials: false,
        max_age: Some(3600nat),
        prefer_wildcard: true,
    }
}

/// Whether the policy lets the origin in.
pub open spec fn origin_permitted(policy: PolicyView, origin: Seq<char>) -> bool {
    match policy.allowed_origins {
        OriginsView::Any { allow_null } => allow_null || origin != null_origin(),
        OriginsView::Origins(list) => list.contains(origin),
    }
}

/// Whether a request is turned away for its origin. A request that names no
/// origin never is.
pub open spec fn origin_refused(policy: PolicyView, origin: Option<Seq<char>>) -> bool {
    origin matches Some(o) && !origin_permitted(policy, o)
}

/// The value of `Access-Control-Allow-Origin`: `*` where the policy prefers
/// it and allows no credentials, and the request's own origin otherwise. No
/// value where the origin is refused, and none to repeat where the request
/// names no origin.
pub open spec fn allow_origin_value(policy: PolicyView, origin: Option<Seq<char>>) -> Option<
    Seq<char>,
> {
    if origin_refused(policy, origin) {
        None
    } else if policy.prefer_wildcard && !policy.allow_credentials {
        Some(seq!['*'])
    } else {
        origin
    }
}

/// The token of a method.
pub open spec fn token_of(method: Method) -> Seq<char> {
    match method {
        Method::Get => seq!['G', 'E', 'T'],
        Method::Post => seq!['P', 'O', 'S', 'T'],
        Method::Put => seq!['P', 'U', 'T'],
        Method::Delete => seq!['D', 'E', 'L', 'E', 'T', 'E'],
        Method::Head => seq!['H', 'E', 'A', 'D'],
        Method::Options => seq!['O', 'P', 'T', 'I', 'O', 'N', 'S'],
        Method::Patch => seq!['P', 'A', 'T', 'C', 'H'],
        Method::Connect => seq!['C', 'O', 'N', 'N', 'E', 'C', 'T'],
        Method::Trace => seq!['T', 'R', 'A', 'C', 'E'],
    }
}

/// The tokens of the methods, in order.
pub open spec fn tokens(methods: Seq<Method>) -> Seq<Seq<char>> {
    Seq::new(methods.len(), |i: int| token_of(methods[i]))
}

/// One line where there is a value, and none where there is not.
pub open spec fn line_if(name: HeaderName, value: Option<Seq<char>>) -> Seq<
    (HeaderName, Seq<char>),
> {
    match value {
        Some(text) => seq![(name, text)],
        None => Seq::<(HeaderName, Seq<char>)>::empty(),
    }
}

/// The value of `Access-Control-Allow-Credentials`.
pub open spec fn credentials_value(policy: PolicyView, origin: Option<Seq<char>>) -> Option<
    Seq<char>,
> {
    if policy.allow_credentials && allow_origin_value(policy, origin) is Some {
        Some(seq!['t', 'r', 'u', 'e'])
    } else {
        None
    }
}

/// The value of `Access-Control-Max-Age`.
pub open spec fn max_age_value(policy: PolicyView) -> Option<Seq<char>> {
    match policy.max_age {
        Some(secs) => Some(decimal(secs)),
        None => None,
    }
}

/// The headers that the policy adds to a response, for a request of the
/// given origin: none where the origin is refused, and otherwise the same
/// lines on every response, whatever the route and the status.
pub open spec fn cors_lines(policy: PolicyView, origin: Option<Seq<char>>) -> Seq<
    (HeaderName, Seq<char>),
> {
    if origin_refused(policy, origin) {
        Seq::<(HeaderName, Seq<char>)>::empty()
    } else {
        line_if(HeaderName::AccessControlAllowOrigin, allow_origin_value(policy, origin)) + line_if(
            HeaderName::AccessControlAllowCredentials,
            credentials_value(policy, origin),
        ) + seq![
            (HeaderName::AccessControlAllowMethods, join(tokens(policy.allowed_methods), ',')),
            (HeaderName::AccessControlAllowHeaders, join(policy.allowed_headers, ',')),
        ] + line_if(HeaderName::AccessControlMaxAge, max_age_value(policy))
    }
}

/// What the policy makes of a request before it is routed.
#[derive(Clone, Copy, Debug, PartialEq, Eq, Structural)]
pub enum Verdict {
    /// The request is routed, and the policy's headers are added to the
    /// response.
    Proceed,
    /// The request is a preflight that the policy grants: it is answered at
    /// once, with status 204.
    Preflight,
    /// The request is turned away, with status 403.
    Denied,
}

/// Whether the policy allows a request header of this name. Header names
/// are compared without regard to case.
pub open spec fn header_allowed(policy: PolicyView, name: Seq<char>) -> bool {
    exists|i: int|
        0 <= i < policy.allowed_headers.len() && same_ignoring_case(
            #[trigger] policy.allowed_headers[i],
            name,
        )
}

/// Whether the policy allows each of the names.
pub open spec fn all_allowed(policy: PolicyView, asked: Seq<Seq<char>>) -> bool {
    forall|i: int| 0 <= i < asked.len() ==> header_allowed(policy, #[trigger] asked[i])
}

/// Whether the policy allows all the request headers that a preflight asks
/// for: the names of a comma-separated list, or none.
pub open spec fn headers_allowed(policy: PolicyView, requested: Option<Seq<char>>) -> bool {
    match requested {
        Some(list) => all_allowed(policy, split(list, ',')),
        None => true,
    }
}

/// Whether the policy allows the method that a preflight asks for.
pub open spec fn method_allowed(policy: PolicyView, requested: Seq<char>) -> bool {
    method_of(requested) matches Some(m) && policy.allowed_methods.contains(m)
}

/// Whether a request is a preflight: an `OPTIONS` request that names its
/// origin and the method it asks leave for.
pub open spec fn is_preflight(
    method: Option<Method>,
    origin: Option<Seq<char>>,
    requested_method: Option<Seq<char>>,
) -> bool {
    method == Some(Method::Options) && origin is Some && requested_method is Some
}

/// The verdict on a request. A request without origin is none of another
/// origin and proceeds. One of a refused origin is denied. A preflight is
/// granted where method and headers asked for are allowed, and denied
/// otherwise. Every other request proceeds.
pub open spec fn verdict(
    policy: PolicyView,
    method: Option<Method>,
    origin: Option<Seq<char>>,
    requested_method: Option<Seq<char>>,
    requested_headers: Option<Seq<char>>,
) -> Verdict {
    if origin_refused(policy, origin) {
        Verdict::Denied
    } else if is_preflight(method, origin, requested_method) {
        if method_allowed(policy, requested_method->Some_0) && headers_allowed(
            policy,
            requested_headers,
        ) {
            Verdict::Preflight
        } else {
            Verdict::Denied
        }
    } else {
        Verdict::Proceed
    }
}

/// The view of a string that may be missing.
pub open spec fn text_of(value: Option<String>) -> Option<Seq<char>> {
    match value {
        Some(s) => Some(s@),
        None => None,
    }
}

/// A response head with the lines added behind its own.
pub open spec fn with_lines(head: HeadView, more: Seq<(HeaderName, Seq<char>)>) -> HeadView {
    HeadView { status: head.status, headers: head.headers + more }
}

impl CorsPolicy {
    /// The policy of the playground.
    pub fn reference() -> (policy: CorsPolicy)
        ensures
            policy@ == reference_policy(),
    {
        let name: Vec<char> = vec!['C', 'o', 'n', 't', 'e', 'n', 't', '-', 'T', 'y', 'p', 'e'];
        assert(name@ == content_type_name());
        let allowed_headers: Vec<String> = vec![string_of(&name)];
        let allowed_methods: Vec<Method> = vec![Method::Get, Method::Post];
        let policy = CorsPolicy {
            allowed_origins: AllowedOrigins::Any { allow_null: true },
            allowed_headers,
            allowed_methods,
            allow_credentials: false,
            max_age: Some(ONE_HOUR_IN_SECONDS),
            prefer_wildcard: true,
        };
        proof {
            assert(policy@.allowed_headers =~= seq![content_type_name()]);
            assert(policy@.allowed_methods =~= seq![Method::Get, Method::Post]);
        }
        policy
    }

    /// Whether the policy lets the origin in.
    pub fn permits_origin(&self, origin: &str) -> (r: bool)
        ensures
            r == origin_permitted(self@, origin@),
    {
        match &self.allowed_origins {
            AllowedOrigins::Any { allow_null } => {
                if *allow_null {
                    true
                } else {
                    let text = chars_of(origin);
                    let null: Vec<char> = vec!['n', 'u', 'l', 'l'];
                    assert(null@ == null_origin());
                    !same_text(&text, &null)
                }
            },
            AllowedOrigins::Origins(list) => {
                let text = chars_of(origin);
                let mut i: usize = 0;
                while i < list.len()
                    invariant
                        i <= list.len(),
                        text@ == origin@,
                        self@.allowed_origins == OriginsView::Origins(names(list@)),
                        forall|j: int| 0 <= j < i ==> names(list@)[j] != origin@,
                    decreases list.len() - i,
                {
                    let known = chars_of(list[i].as_str());
                    if same_text(&known, &text) {
                        assert(names(list@)[i as int] == origin@);
                        assert(names(list@).contains(origin@));
                        return true;
                    }
                    i += 1;
                }
                false
            },
        }
    }

    /// Whether a request of this origin is turned away.
    pub fn refuses(&self, origin: &Option<String>) -> (r: bool)
        ensures
            r == origin_refused(self@, text_of(*origin)),
    {
        match origin {
            Some(o) => !self.permits_origin(o.as_str()),
            None => false,
        }
    }

    /// Whether the policy allows a request header of this name.
    pub fn allows_header(&self, name: &Vec<char>) -> (r: bool)
        ensures
            r == header_allowed(self@, name@),
    {
        let mut i: usize = 0;
        while i < self.allowed_headers.len()
            invariant
                i <= self.allowed_headers.len(),
                forall|j: int|
                    0 <= j < i ==> !same_ignoring_case(#[trigger] self@.allowed_headers[j], name@),
            decreases self.allowed_headers.len() - i,
        {
            let known = chars_of(self.allowed_headers[i].as_str());
            if same_text_ignoring_case(&known, name) {
                assert(same_ignoring_case(self@.allowed_headers[i as int], name@));
                return true;
            }
            i += 1;
        }
        false
    }

    /// Whether the policy allows the method.
    pub fn allows_method(&self, method: Method) -> (r: bool)
        ensures
            r == self@.allowed_methods.contains(method),
    {
        let mut i: usize = 0;
        while i < self.allowed_methods.len()
            invariant
                i <= self.allowed_methods.len(),
                forall|j: int| 0 <= j < i ==> self@.allowed_methods[j] != method,
            decreases self.allowed_methods.len() - i,
        {
            if self.allowed_methods[i] == method {
                return true;
            }
            i += 1;
        }
        false
    }

    /// Whether the policy allows all the request headers of a preflight.
    pub fn allows_headers(&self, requested: &Option<String>) -> (r: bool)
        ensures
            r == headers_allowed(self@, text_of(*requested)),
    {
        match requested {
            Some(list) => {
                let pieces = split_text(&chars_of(list.as_str()), ',');
                let mut i: usize = 0;
                while i < pieces.len()
                    invariant
                        i <= pieces.len(),
                        rows(pieces@) == split(list@, ','),
                        text_of(*requested) == Some(list@),
                        all_allowed(self@, split(list@, ',').take(i as int)),
                    decreases pieces.len() - i,
                {
                    let ghost asked = split(list@, ',');
                    assert(asked[i as int] == pieces@[i as int]@);
                    if !self.allows_header(&pieces[i]) {
                        assert(!header_allowed(self@, asked[i as int]));
                        return false;
                    }
                    proof {
                        assert forall|j: int| 0 <= j < i + 1 implies header_allowed(
                            self@,
                            #[trigger] asked.take(i + 1)[j],
                        ) by {
                            if j < i {
                                assert(asked.take(i as int)[j] == asked.take(i + 1)[j]);
                            }
                        }
                    }
                    i += 1;
                }
                proof {
                    assert(split(list@, ',').take(pieces@.len() as int) =~= split(list@, ','));
                }
                true
            },
            None => true,
        }
    }

    /// The verdict on a request, from its method, its `Origin` header and
    /// the two headers of a preflight, `Access-Control-Request-Method` and
    /// `Access-Control-Request-Headers`.
    pub fn check(
        &self,
        method: Option<Method>,
        origin: &Option<String>,
        requested_method: &Option<String>,
        requested_headers: &Option<String>,
    ) -> (r: Verdict)
        ensures
            r == verdict(
                self@,
                method,
                text_of(*origin),
                text_of(*requested_method),
                text_of(*requested_headers),
            ),
    {
        if self.refuses(origin) {
            return Verdict::Denied;
        }
        let options = match method {
            Some(Method::Options) => true,
            _ => false,
        };
        if options && origin.is_some() {
            if let Some(asked) = requested_method {
                let granted = match Method::from_token(asked.as_str()) {
                    Some(m) => self.allows_method(m),
                    None => false,
                };
                if granted && self.allows_headers(requested_headers) {
                    return Verdict::Preflight;
                } else {
                    return Verdict::Denied;
                }
            }
        }
        Verdict::Proceed
    }

    /// The headers that the policy adds to a response.
    pub fn headers(&self, origin: &Option<String>) -> (added: Vec<Header>)
        ensures
            lines(added@) == cors_lines(self@, text_of(*origin)),
    {
        let mut added: Vec<Header> = Vec::new();
        proof {
            assert(lines(added@) =~= Seq::<(HeaderName, Seq<char>)>::empty());
        }
        if self.refuses(origin) {
            return added;
        }
        let wildcard = self.prefer_wildcard && !self.allow_credentials;
        let allowed: Option<String> = if wildcard {
            let star: Vec<char> = vec!['*'];
            assert(star@ == seq!['*']);
            Some(string_of(&star))
        } else {
            match origin {
                Some(o) => Some(o.clone()),
                None => None,
            }
        };
        assert(text_of(allowed) == allow_origin_value(self@, text_of(*origin)));
        let named = allowed.is_some();
        if let Some(value) = allowed {
            let line = Header { name: HeaderName::AccessControlAllowOrigin, value };
            proof {
                lemma_lines_push(added@, line);
            }
            added.push(line);
        }
        if self.allow_credentials && named {
            let yes: Vec<char> = vec!['t', 'r', 'u', 'e'];
            assert(yes@ == seq!['t', 'r', 'u', 'e']);
            let line = Header {
                name: HeaderName::AccessControlAllowCredentials,
                value: string_of(&yes),
            };
            proof {
                lemma_lines_push(added@, line);
            }
            added.push(line);
        }
        let methods = Header {
            name: HeaderName::AccessControlAllowMethods,
            value: string_of(&self.method_list()),
        };
        proof {
            lemma_lines_push(added@, methods);
        }
        added.push(methods);
        let headers = Header {
            name: HeaderName::AccessControlAllowHeaders,
            value: string_of(&self.header_list()),
        };
        proof {
            lemma_lines_push(added@, headers);
        }
        added.push(headers);
        if let Some(secs) = self.max_age {
            let line = Header {
                name: HeaderName::AccessControlMaxAge,
                value: string_of(&decimal_text(secs)),
            };
            proof {
                lemma_lines_push(added@, line);
            }
            added.push(line);
        }
        proof {
            assert(lines(added@) =~= cors_lines(self@, text_of(*origin)));
        }
        added
    }

    /// The allowed methods as the value of a header.
    fn method_list(&self) -> (text: Vec<char>)
        ensures
            text@ == join(tokens(self@.allowed_methods), ','),
    {
        let mut text: Vec<char> = Vec::new();
        let mut i: usize = 0;
        let ghost all = tokens(self@.allowed_methods);
        proof {
            assert(all.take(0) =~= Seq::<Seq<char>>::empty());
        }
        while i < self.allowed_methods.len()
            invariant
                i <= self.allowed_methods.len(),
                all == tokens(self@.allowed_methods),
                text@ == join(all.take(i as int), ','),
            decreases self.allowed_methods.len() - i,
        {
            let token = token_text(self.allowed_methods[i]);
            proof {
                let upto = all.take(i + 1);
                assert(upto.drop_last() =~= all.take(i as int));
                assert(upto.last() == token@);
                if i == 0 {
                    assert(join(upto, ',') == upto[0]);
                    assert(text@ + token@ =~= token@);
                }
            }
            if i > 0 {
                text.push(',');
            }
            append_text(&mut text, &token);
            i += 1;
        }
        proof {
            assert(all.take(all.len() as int) =~= all);
        }
        text
    }

    /// The allowed request headers as the value of a header.
    fn header_list(&self) -> (text: Vec<char>)
        ensures
            text@ == join(self@.allowed_headers, ','),
    {
        let mut text: Vec<char> = Vec::new();
        let mut i: usize = 0;
        let ghost all = self@.allowed_headers;
        proof {
            assert(all.take(0) =~= Seq::<Seq<char>>::empty());
        }
        while i < self.allowed_headers.len()
            invariant
                i <= self.allowed_headers.len(),
                all == self@.allowed_headers,
                text@ == join(all.take(i as int), ','),
            decreases self.allowed_headers.len() - i,
        {
            let name = chars_of(self.allowed_headers[i].as_str());
            proof {
                let upto = all.take(i + 1);
                assert(upto.drop_last() =~= all.take(i as int));
                assert(upto.last() == name@);
                if i == 0 {
                    assert(join(upto, ',') == upto[0]);
                    assert(text@ + name@ =~= name@);
                }
            }
            if i > 0 {
                text.push(',');
            }
            append_text(&mut text, &name);
            i += 1;
        }
        proof {
            assert(all.take(all.len() as int) =~= all);
        }
        text
    }

    /// Adds the policy's headers to a response head.
    pub fn decorate(&self, head: ResponseHead, origin: &Option<String>) -> (decorated: ResponseHead)
        ensures
            decorated@ == with_lines(head@, cors_lines(self@, text_of(*origin))),
    {
        let ResponseHead { status, mut headers } = head;
        let ghost own = lines(headers@);
        let added = self.headers(origin);
        let mut i: usize = 0;
        proof {
            assert(lines(added@).take(0) =~= Seq::<(HeaderName, Seq<char>)>::empty());
            assert(own + lines(added@).take(0) =~= own);
        }
        while i < added.len()
            invariant
                i <= added.len(),
                lines(headers@) == own + lines(added@).take(i as int),
            decreases added.len() - i,
        {
            let line = Header { name: added[i].name, value: added[i].value.clone() };
            proof {
                lemma_lines_push(headers@, line);
                assert(line@ == lines(added@)[i as int]);
                assert((own + lines(added@).take(i as int)).push(line@) =~= own + lines(
                    added@,
                ).take(i + 1));
            }
            headers.push(line);
            i += 1;
        }
        proof {
            assert(lines(added@).take(added@.len() as int) =~= lines(added@));
        }
        ResponseHead { status, headers }
    }
}

/// The token of a method, computed.
pub fn token_text(method: Method) -> (text: Vec<char>)
    ensures
        text@ == token_of(method),
{
    let text: Vec<char> = match method {
        Method::Get => vec!['G', 'E', 'T'],
        Method::Post => vec!['P', 'O', 'S', 'T'],
        Method::Put => vec!['P', 'U', 'T'],
        Method::Delete => vec!['D', 'E', 'L', 'E', 'T', 'E'],
        Method::Head => vec!['H', 'E', 'A', 'D'],
        Method::Options => vec!['O', 'P', 'T', 'I', 'O', 'N', 'S'],
        Method::Patch => vec!['P', 'A', 'T', 'C', 'H'],
        Method::Connect => vec!['C', 'O', 'N', 'N', 'E', 'C', 'T'],
        Method::Trace => vec!['T', 'R', 'A', 'C', 'E'],
    };
    assert(text@ =~= token_of(method));
    text
}

/// Under the playground's policy no origin is refused, and every response
/// that the policy has added its headers to names `*` as the allowed origin:
/// whatever the request's origin, `null` or missing too, and whatever the
/// response was before.
pub proof fn law_every_response_allows_any_origin(head: HeadView, origin: Option<Seq<char>>)
    ensures
        !origin_refused(reference_policy(), origin),
        has_header(
            with_lines(head, cors_lines(reference_policy(), origin)).headers,
            HeaderName::AccessControlAllowOrigin,
        ),
        with_lines(head, cors_lines(reference_policy(), origin)).headers[head.headers.len() as int]
            == (HeaderName::AccessControlAllowOrigin, seq!['*']),
        with_lines(head, cors_lines(reference_policy(), origin)).status == head.status,
{
    let added = cors_lines(reference_policy(), origin);
    assert(added[0] == (HeaderName::AccessControlAllowOrigin, seq!['*']));
    let all = with_lines(head, added).headers;
    assert(all[head.headers.len() as int] == added[0]);
}

/// The headers that a policy adds do not depend on the route, the method
/// or the response: two requests of the same origin get the same lines.
pub proof fn law_same_lines_on_every_response(
    policy: PolicyView,
    origin: Option<Seq<char>>,
    first: HeadView,
    second: HeadView,
)
    ensures
        with_lines(first, cors_lines(policy, origin)).headers.skip(first.headers.len() as int)
            == with_lines(second, cors_lines(policy, origin)).headers.skip(
            second.headers.len() as int,
        ),
{
    let added = cors_lines(policy, origin);
    assert(with_lines(first, added).headers.skip(first.headers.len() as int) =~= added);
    assert(with_lines(second, added).headers.skip(second.headers.len() as int) =~= added);
}

} // verus!
