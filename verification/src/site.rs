//! The site as a whole: its resource groups under one route table and one
//! cross-origin policy, and what becomes of a request.
//!
//! The site reads nothing and sends nothing. `Site::accept` says what a
//! request asks for; whoever runs the server looks at the disk or calls the
//! sandbox, and hands the outcome to `Site::respond_file` or
//! `Site::respond_json` for the head of the response.
use vstd::prelude::*;
use vstd::pervasive::unreached;
use crate::cors::{
    cors_lines, is_preflight, reference_policy, text_of, verdict, with_lines, CorsPolicy, Verdict,
};
use crate::file_server::{
    child, head_of, start, AssetResponse, FileLookup, LookupView, ResponseView,
};
use crate::pattern::{ends_in_wildcard, path_pieces};
use crate::resources::{
    assets_routes, gist_routes, index_routes, meta_routes, sandbox_routes, Assets, Gist, Index,
    Meta, SandboxGateway,
};
use crate::response::{
    has_header, lemma_lines_push, lines, Header, HeadView, HeaderName, ResponseHead,
};
use crate::router::{
    distinct, empty_table, first_match, law_mount_without_doubles, method_of, same_route, table,
    try_route, with_wildcard, without_wildcard, Endpoint, MatchView, Method, RouteEntry,
    RouteMatch, RouteView, Router, TableView,
};
use crate::timestamp::{rfc2822_instant, timestamp_at, HttpTimestamp};

verus! {

/// The routes of the site in the order in which its groups are mounted.
pub open spec fn mount_order() -> Seq<RouteView> {
    index_routes() + assets_routes() + sandbox_routes() + meta_routes() + gist_routes()
}

/// The route table of the site.
pub open spec fn site_table() -> TableView {
    TableView {
        specific: index_routes() + sandbox_routes() + meta_routes() + gist_routes(),
        wildcard: assets_routes(),
    }
}

/// What the site reads of a request.
#[derive(Clone, Debug, PartialEq, Eq)]
pub struct RequestHead {
    /// The method token of the request line.
    pub method: String,
    /// The path of the request line, without query and with its percent
    /// escapes resolved.
    pub path: String,
    /// The `Origin` header.
    pub origin: Option<String>,
    /// The `If-Modified-Since` header.
    pub if_modified_since: Option<String>,
    /// The `Access-Control-Request-Method` header.
    pub requested_method: Option<String>,
    /// The `Access-Control-Request-Headers` header.
    pub requested_headers: Option<String>,
}

/// A request as a plain value.
pub struct RequestView {
    pub method: Seq<char>,
    pub path: Seq<char>,
    pub origin: Option<Seq<char>>,
    pub if_modified_since: Option<Seq<char>>,
    pub requested_method: Option<Seq<char>>,
    pub requested_headers: Option<Seq<char>>,
}

impl View for RequestHead {
    type V = RequestView;

    open spec fn view(&self) -> RequestView {
        RequestView {
            method: self.method@,
            path: self.path@,
            origin: text_of(self.origin),
            if_modified_since: text_of(self.if_modified_since),
            requested_method: text_of(self.requested_method),
            requested_headers: text_of(self.requested_headers),
        }
    }
}

/// What is to be done for a request.
#[derive(Debug, PartialEq, Eq)]
pub enum Step {
    /// Send this head, without body.
    Respond(ResponseHead),
    /// Look the file up on disk; the head of the response comes from
    /// `Site::respond_file`.
    Serve(FileLookup),
    /// Hand the request's body to the handler of the route; the head of the
    /// response comes from `Site::respond_json`.
    Forward(RouteMatch),
}

/// A step as a plain value.
pub enum StepView {
    Respond(HeadView),
    Serve(LookupView),
    Forward(MatchView),
}

impl View for Step {
    type V = StepView;

    open spec fn view(&self) -> StepView {
        match *self {
            Step::Respond(head) => StepView::Respond(head@),
            Step::Serve(lookup) => StepView::Serve(lookup@),
            Step::Forward(found) => StepView::Forward(found@),
        }
    }
}

/// A head with a status and no header.
pub open spec fn bare(status: int) -> HeadView {
    HeadView { status, headers: Seq::<(HeaderName, Seq<char>)>::empty() }
}

/// The head of a JSON response before the policy's headers.
pub open spec fn json_head(status: int) -> HeadView {
    HeadView { status, headers: seq![(HeaderName::ContentType, "application/json"@)] }
}

/// The time of the client's copy: what its `If-Modified-Since` header
/// names. A header that names no time is passed over.
pub open spec fn conditional_time(header: Option<Seq<char>>) -> Option<int> {
    match header {
        Some(text) => timestamp_at(rfc2822_instant(text)),
        None => None,
    }
}

/// The route of a request in the site's table. A request whose method token
/// names no method has none.
pub open spec fn routed(request: RequestView) -> Option<MatchView> {
    match method_of(request.method) {
        Some(method) => first_match(site_table().entries(), method, path_pieces(request.path)),
        None => None,
    }
}

/// The path that an asset route captured.
pub open spec fn captured_path(found: MatchView) -> Seq<char> {
    if found.captures.len() > 0 {
        found.captures[0]
    } else {
        Seq::<char>::empty()
    }
}

/// What a routed request asks for: the front page and its alias ask for
/// `index.html` below the root, an asset for the captured path below the
/// root's directory `assets`, and every other route for its handler.
pub open spec fn dispatch(root: Seq<char>, found: MatchView, if_modified_since: Option<int>)
    -> StepView {
    match found.handler {
        Endpoint::Index | Endpoint::Help => StepView::Serve(
            start(root, "index.html"@, if_modified_since),
        ),
        Endpoint::Asset => StepView::Serve(
            start(child(root, "assets"@), captured_path(found), if_modified_since),
        ),
        _ => StepView::Forward(found),
    }
}

/// The verdict of the site's policy on a request.
pub open spec fn site_verdict(request: RequestView) -> Verdict {
    verdict(
        reference_policy(),
        method_of(request.method),
        request.origin,
        request.requested_method,
        request.requested_headers,
    )
}

/// The headers that the site's policy adds to the response to a request.
pub open spec fn site_lines(origin: Option<Seq<char>>) -> Seq<(HeaderName, Seq<char>)> {
    cors_lines(reference_policy(), origin)
}

/// What is to be done for a request. The policy comes first: a preflight
/// that it grants is answered with 204 and one that it refuses with 403.
/// Then the route table: a request without route is answered with 404.
pub open spec fn plan(root: Seq<char>, request: RequestView) -> StepView {
    match site_verdict(request) {
        Verdict::Denied => StepView::Respond(with_lines(bare(403), site_lines(request.origin))),
        Verdict::Preflight => StepView::Respond(with_lines(bare(204), site_lines(request.origin))),
        Verdict::Proceed => match routed(request) {
            Some(found) => dispatch(root, found, conditional_time(request.if_modified_since)),
            None => StepView::Respond(with_lines(bare(404), site_lines(request.origin))),
        },
    }
}

/// The lines of two lists of entries, one behind the other.
proof fn lemma_table_add(a: Seq<RouteEntry>, b: Seq<RouteEntry>)
    ensures
        table(a + b) == table(a) + table(b),
{
    assert(table(a + b) =~= table(a) + table(b));
}

/// The routes of a list without wildcard are all of it, and those of a list
/// followed by another are those of the one followed by those of the other.
proof fn lemma_kinds_add(a: Seq<RouteView>, b: Seq<RouteView>)
    ensures
        without_wildcard(a + b) == without_wildcard(a) + without_wildcard(b),
        with_wildcard(a + b) == with_wildcard(a) + with_wildcard(b),
    decreases a.len(),
{
    if a.len() == 0 {
        assert(a + b =~= b);
        assert(without_wildcard(a) + without_wildcard(b) =~= without_wildcard(b));
        assert(with_wildcard(a) + with_wildcard(b) =~= with_wildcard(b));
    } else {
        assert((a + b).skip(1) =~= a.skip(1) + b);
        lemma_kinds_add(a.skip(1), b);
        assert((a + b)[0] == a[0]);
        assert(seq![a[0]] + (without_wildcard(a.skip(1)) + without_wildcard(b)) =~= (seq![a[0]]
            + without_wildcard(a.skip(1))) + without_wildcard(b));
        assert(seq![a[0]] + (with_wildcard(a.skip(1)) + with_wildcard(b)) =~= (seq![a[0]]
            + with_wildcard(a.skip(1))) + with_wildcard(b));
    }
}

/// A list in which no route has a wildcard is left whole by
/// `without_wildcard`, and empty by `with_wildcard`.
proof fn lemma_all_specific(a: Seq<RouteView>)
    requires
        forall|i: int| 0 <= i < a.len() ==> !ends_in_wildcard((#[trigger] a[i]).pattern),
    ensures
        without_wildcard(a) == a,
        with_wildcard(a) == Seq::<RouteView>::empty(),
    decreases a.len(),
{
    if a.len() > 0 {
        assert forall|i: int| 0 <= i < a.skip(1).len() implies !ends_in_wildcard(
            (#[trigger] a.skip(1)[i]).pattern,
        ) by {
            assert(a.skip(1)[i] == a[i + 1]);
        }
        lemma_all_specific(a.skip(1));
        assert(!ends_in_wildcard(a[0].pattern));
        assert(seq![a[0]] + a.skip(1) =~= a);
    } else {
        assert(without_wildcard(a) =~= a);
    }
}

/// The routes of the site sort into the site's table.
proof fn lemma_site_table_sorts()
    ensures
        without_wildcard(mount_order()) == site_table().specific,
        with_wildcard(mount_order()) == site_table().wildcard,
{
    let i = index_routes();
    let a = assets_routes();
    let s = sandbox_routes();
    let m = meta_routes();
    let g = gist_routes();
    lemma_all_specific(i);
    lemma_all_specific(s);
    lemma_all_specific(m);
    lemma_all_specific(g);
    assert(without_wildcard(a) =~= Seq::<RouteView>::empty() && with_wildcard(a) =~= a) by {
        reveal_with_fuel(without_wildcard, 3);
        reveal_with_fuel(with_wildcard, 3);
        assert(a.skip(1).len() == 0);
    }
    lemma_kinds_add(i, a);
    lemma_kinds_add(i + a, s);
    lemma_kinds_add(i + a + s, m);
    lemma_kinds_add(i + a + s + m, g);
    assert(without_wildcard(mount_order()) =~= i + s + m + g);
    assert(with_wildcard(mount_order()) =~= a);
}

/// What the words of the site's routes are made of.
proof fn lemma_route_words()
    ensures
        ""@.len() == 0,
        "help"@.len() == 4,
        "miri"@.len() == 4,
        "format"@.len() == 6 && "format"@[0] == 'f',
        "clippy"@.len() == 6 && "clippy"@[0] == 'c',
        "execute"@.len() == 7 && "execute"@[0] == 'e',
        "compile"@.len() == 7 && "compile"@[0] == 'c',
        "evaluate.json"@.len() == 13,
        "meta"@.len() == 4,
        "crates"@.len() == 6,
        "version"@.len() == 7,
        "stable"@.len() == 6,
        "beta"@.len() == 4,
        "nightly"@.len() == 7,
        "gist"@.len() == 4 && "gist"@[0] == 'g',
        "help"@[0] == 'h',
        "miri"@[0] == 'm',
{
    reveal_strlit("");
    reveal_strlit("help");
    reveal_strlit("miri");
    reveal_strlit("format");
    reveal_strlit("clippy");
    reveal_strlit("execute");
    reveal_strlit("compile");
    reveal_strlit("evaluate.json");
    reveal_strlit("meta");
    reveal_strlit("crates");
    reveal_strlit("version");
    reveal_strlit("stable");
    reveal_strlit("beta");
    reveal_strlit("nightly");
    reveal_strlit("gist");
}

/// No two routes of the site answer to the same method and pattern.
pub proof fn law_site_routes_differ()
    ensures
        distinct(mount_order()),
{
    lemma_route_words();
    let all = mount_order();
    assert(all.len() == 15);
    assert forall|i: int, j: int| 0 <= i < j < all.len() implies !same_route(
        #[trigger] all[i],
        #[trigger] all[j],
    ) by {
        let a = all[i];
        let b = all[j];
        if a.method == b.method && a.pattern.len() == b.pattern.len() {
            let n = a.pattern.len() as int;
            assert(a.pattern[n - 1] != b.pattern[n - 1]);
        }
    }
}

/// The head of a JSON response with the given status, before any policy's
/// headers.
pub fn json_response_head(status: u16) -> (head: ResponseHead)
    ensures
        head@ == json_head(status as int),
{
    let mut headers: Vec<Header> = Vec::new();
    let kind = Header { name: HeaderName::ContentType, value: "application/json".to_owned() };
    proof {
        assert(lines(headers@) =~= Seq::<(HeaderName, Seq<char>)>::empty());
        lemma_lines_push(headers@, kind);
    }
    headers.push(kind);
    let head = ResponseHead { status, headers };
    proof {
        assert(head@.headers =~= json_head(status as int).headers);
    }
    head
}

/// The site: the front page, the assets, the sandbox, the meta information
/// and the gists, behind one route table and one cross-origin policy.
#[derive(Debug)]
pub struct Site {
    index: Index,
    assets: Assets,
    gist: Gist,
    router: Router,
    policy: CorsPolicy,
}

impl Site {
    /// The directory below which the site's files lie.
    pub closed spec fn root(&self) -> Seq<char> {
        self.index.base()
    }

    /// The credential for the gist service.
    pub closed spec fn credential(&self) -> Seq<char> {
        self.gist.credential()
    }

    /// The site holds the table and the policy that it was made with.
    #[verifier::type_invariant]
    spec fn wf(&self) -> bool {
        &&& self.assets.base() == child(self.index.base(), "assets"@)
        &&& self.router@ == site_table()
        &&& self.router.wf()
        &&& self.policy@ == reference_policy()
    }

    /// The site whose files lie below `root` and whose gists are made with
    /// the credential `gh_token`. The groups are mounted in the order front
    /// page, assets, sandbox, meta information, gists.
    pub fn new(root: String, gh_token: String) -> (site: Site)
        ensures
            site.root() == root@,
            site.credential() == gh_token@,
    {
        let mut routes = Index::routes();
        let mut assets = Assets::routes();
        let mut sandbox = SandboxGateway::routes();
        let mut meta = Meta::routes();
        let mut gist = Gist::routes();
        proof {
            lemma_table_add(routes@, assets@);
            lemma_table_add(routes@ + assets@, sandbox@);
            lemma_table_add(routes@ + assets@ + sandbox@, meta@);
            lemma_table_add(routes@ + assets@ + sandbox@ + meta@, gist@);
        }
        routes.append(&mut assets);
        routes.append(&mut sandbox);
        routes.append(&mut meta);
        routes.append(&mut gist);
        assert(table(routes@) == mount_order());
        proof {
            law_site_routes_differ();
            assert(empty_table().entries() + mount_order() =~= mount_order());
            law_mount_without_doubles(empty_table(), mount_order());
            lemma_site_table_sorts();
            assert(Seq::<RouteView>::empty() + site_table().specific =~= site_table().specific);
            assert(Seq::<RouteView>::empty() + site_table().wildcard =~= site_table().wildcard);
        }
        let mut router = Router::new();
        match router.mount(routes) {
            Ok(()) => {},
            Err(_) => unreached(),
        }
        Site {
            index: Index::new(root.clone()),
            assets: Assets::new(root),
            gist: Gist::new(gh_token),
            router,
            policy: CorsPolicy::reference(),
        }
    }

    /// The route table.
    pub fn router(&self) -> (router: &Router)
        ensures
            router@ == site_table(),
            router.wf(),
    {
        proof {
            use_type_invariant(self);
        }
        &self.router
    }

    /// The cross-origin policy.
    pub fn policy(&self) -> (policy: &CorsPolicy)
        ensures
            policy@ == reference_policy(),
    {
        proof {
            use_type_invariant(self);
        }
        &self.policy
    }

    /// The credential for the gist service.
    pub fn gist_token(&self) -> (token: String)
        ensures
            token@ == self.credential(),
    {
        self.gist.token()
    }

    /// What is to be done for a request.
    pub fn accept(&self, request: &RequestHead) -> (step: Step)
        ensures
            step@ == plan(self.root(), request@),
    {
        proof {
            use_type_invariant(self);
        }
        let method = Method::from_token(request.method.as_str());
        let verdict = self.policy.check(
            method,
            &request.origin,
            &request.requested_method,
            &request.requested_headers,
        );
        match verdict {
            Verdict::Denied => Step::Respond(
                self.policy.decorate(ResponseHead::bare(403), &request.origin),
            ),
            Verdict::Preflight => Step::Respond(
                self.policy.decorate(ResponseHead::bare(204), &request.origin),
            ),
            Verdict::Proceed => {
                let found = match method {
                    Some(m) => self.router.route(m, request.path.as_str()),
                    None => None,
                };
                match found {
                    Some(found) => {
                        let if_modified_since = match &request.if_modified_since {
                            Some(text) => HttpTimestamp::parse(text.as_str()),
                            None => None,
                        };
                        match found.handler {
                            Endpoint::Index => Step::Serve(self.index.index(if_modified_since)),
                            Endpoint::Help => Step::Serve(self.index.help(if_modified_since)),
                            Endpoint::Asset => {
                                if found.captures.len() > 0 {
                                    Step::Serve(
                                        self.assets.asset(
                                            found.captures[0].as_str(),
                                            if_modified_since,
                                        ),
                                    )
                                } else {
                                    proof {
                                        reveal_strlit("");
                                    }
                                    Step::Serve(self.assets.asset("", if_modified_since))
                                }
                            },
                            _ => Step::Forward(found),
                        }
                    },
                    None => Step::Respond(
                        self.policy.decorate(ResponseHead::bare(404), &request.origin),
                    ),
                }
            },
        }
    }

    /// The head of the response that ends a file lookup.
    pub fn respond_file(&self, response: &AssetResponse, origin: &Option<String>) -> (head:
        ResponseHead)
        ensures
            head@ == with_lines(head_of(response@), site_lines(text_of(*origin))),
    {
        proof {
            use_type_invariant(self);
        }
        self.policy.decorate(response.head(), origin)
    }

    /// The head of the response of a forwarded request, whose status the
    /// handler has settled.
    pub fn respond_json(&self, status: u16, origin: &Option<String>) -> (head: ResponseHead)
        ensures
            head@ == with_lines(json_head(status as int), site_lines(text_of(*origin))),
    {
        proof {
            use_type_invariant(self);
        }
        self.policy.decorate(json_response_head(status), origin)
    }
}

/// A request that no entry of the route table matches is answered with
/// status 404, without body; unless it is a preflight, which the policy
/// answers before the table is looked at.
pub proof fn law_unrouted_is_not_found(root: Seq<char>, request: RequestView)
    requires
        !is_preflight(method_of(request.method), request.origin, request.requested_method),
        method_of(request.method) matches Some(method) ==> forall|i: int|
            0 <= i < site_table().entries().len() ==> try_route(
                #[trigger] site_table().entries()[i],
                method,
                path_pieces(request.path),
            ) is None,
    ensures
        plan(root, request) matches StepView::Respond(head) && head.status == 404,
{
    if let Some(method) = method_of(request.method) {
        crate::router::law_no_entry_no_route(
            site_table().entries(),
            method,
            path_pieces(request.path),
        );
    }
}

/// Every head that the site sends names `*` as the allowed origin: the
/// heads that `plan` answers with at once, and those of files and of
/// forwarded requests; whatever the origin of the request.
pub proof fn law_site_allows_any_origin(
    root: Seq<char>,
    request: RequestView,
    response: ResponseView,
    status: int,
)
    ensures
        plan(root, request) matches StepView::Respond(head) ==> has_header(
            head.headers,
            HeaderName::AccessControlAllowOrigin,
        ),
        has_header(
            with_lines(head_of(response), site_lines(request.origin)).headers,
            HeaderName::AccessControlAllowOrigin,
        ),
        has_header(
            with_lines(json_head(status), site_lines(request.origin)).headers,
            HeaderName::AccessControlAllowOrigin,
        ),
{
    crate::cors::law_every_response_allows_any_origin(bare(403), request.origin);
    crate::cors::law_every_response_allows_any_origin(bare(204), request.origin);
    crate::cors::law_every_response_allows_any_origin(bare(404), request.origin);
    crate::cors::law_every_response_allows_any_origin(head_of(response), request.origin);
    crate::cors::law_every_response_allows_any_origin(json_head(status), request.origin);
}

} // verus!
