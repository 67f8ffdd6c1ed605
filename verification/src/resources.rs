//! The resource groups of the site: what each serves, and under which
//! routes.
use vstd::prelude::*;
use vstd::pervasive::unreached;
use crate::file_server::{child, instant_of, start, FileLookup, FileX};
use crate::pattern::{shape, wildcard_last, Pattern, Segment, SegmentView};
use crate::router::{table, Endpoint, Method, Produces, RouteEntry, RouteView};
use crate::text::chars_of;
use crate::timestamp::HttpTimestamp;

verus! {

/// A literal segment with the characters of `text`.
fn literal(text: &str) -> (segment: Segment)
    ensures
        segment@ == SegmentView::Literal(text@),
{
    Segment::Literal(chars_of(text))
}

/// The entry of a route whose segments are known to make a pattern.
fn entry(method: Method, segments: Vec<Segment>, handler: Endpoint, produces: Produces) -> (r:
    RouteEntry)
    requires
        segments@.len() > 0,
        wildcard_last(shape(segments@)),
    ensures
        r@ == (RouteView { method, pattern: shape(segments@), handler, produces }),
{
    match Pattern::from_segments(segments) {
        Ok(pattern) => RouteEntry { method, pattern, handler, produces },
        Err(_) => unreached(),
    }
}

/// The pattern of a path of one literal segment below the root, such as
/// `/help`.
pub open spec fn below_root(name: Seq<char>) -> Seq<SegmentView> {
    seq![SegmentView::Literal(""@), SegmentView::Literal(name)]
}

/// The pattern of a path of two literal segments below the root.
pub open spec fn below_root2(first: Seq<char>, second: Seq<char>) -> Seq<SegmentView> {
    seq![SegmentView::Literal(""@), SegmentView::Literal(first), SegmentView::Literal(second)]
}

/// The pattern of a path of three literal segments below the root.
pub open spec fn below_root3(first: Seq<char>, second: Seq<char>, third: Seq<char>) -> Seq<
    SegmentView,
> {
    seq![
        SegmentView::Literal(""@),
        SegmentView::Literal(first),
        SegmentView::Literal(second),
        SegmentView::Literal(third),
    ]
}

/// A route that answers `GET` with a file.
pub open spec fn get_file(pattern: Seq<SegmentView>, handler: Endpoint) -> RouteView {
    RouteView { method: Method::Get, pattern, handler, produces: Produces::File }
}

/// A route that answers `GET` with JSON.
pub open spec fn get_json(pattern: Seq<SegmentView>, handler: Endpoint) -> RouteView {
    RouteView { method: Method::Get, pattern, handler, produces: Produces::Json }
}

/// A route that answers `POST` with JSON.
pub open spec fn post_json(pattern: Seq<SegmentView>, handler: Endpoint) -> RouteView {
    RouteView { method: Method::Post, pattern, handler, produces: Produces::Json }
}

fn route1(method: Method, name: &str, handler: Endpoint, produces: Produces) -> (r: RouteEntry)
    ensures
        r@ == (RouteView { method, pattern: below_root(name@), handler, produces }),
{
    let segments: Vec<Segment> = vec![literal(""), literal(name)];
    proof {
        assert(shape(segments@) =~= below_root(name@));
    }
    entry(method, segments, handler, produces)
}

fn route2(method: Method, first: &str, second: &str, handler: Endpoint, produces: Produces) -> (r:
    RouteEntry)
    ensures
        r@ == (RouteView { method, pattern: below_root2(first@, second@), handler, produces }),
{
    let segments: Vec<Segment> = vec![literal(""), literal(first), literal(second)];
    proof {
        assert(shape(segments@) =~= below_root2(first@, second@));
    }
    entry(method, segments, handler, produces)
}

fn route3(
    method: Method,
    first: &str,
    second: &str,
    third: &str,
    handler: Endpoint,
    produces: Produces,
) -> (r: RouteEntry)
    ensures
        r@ == (RouteView {
            method,
            pattern: below_root3(first@, second@, third@),
            handler,
            produces,
        }),
{
    let segments: Vec<Segment> = vec![
        literal(""),
        literal(first),
        literal(second),
        literal(third),
    ];
    proof {
        assert(shape(segments@) =~= below_root3(first@, second@, third@));
    }
    entry(method, segments, handler, produces)
}

/// The routes of the front page: `GET /` and its alias `GET /help`.
pub open spec fn index_routes() -> Seq<RouteView> {
    seq![
        get_file(seq![SegmentView::Literal(""@)], Endpoint::Index),
        get_file(below_root("help"@), Endpoint::Help),
    ]
}

/// The route of the assets: `GET /assets/*asset`.
pub open spec fn assets_routes() -> Seq<RouteView> {
    seq![
        get_file(
            seq![SegmentView::Literal(""@), SegmentView::Literal("assets"@), SegmentView::Wildcard],
            Endpoint::Asset,
        ),
    ]
}

/// The routes of the sandbox, all `POST`.
pub open spec fn sandbox_routes() -> Seq<RouteView> {
    seq![
        post_json(below_root("execute"@), Endpoint::Execute),
        post_json(below_root("compile"@), Endpoint::Compile),
        post_json(below_root("format"@), Endpoint::Format),
        post_json(below_root("clippy"@), Endpoint::Clippy),
        post_json(below_root("miri"@), Endpoint::Miri),
        post_json(below_root("evaluate.json"@), Endpoint::Evaluate),
    ]
}

/// The routes of the meta information: the crates and the three channels'
/// versions, all `GET`.
pub open spec fn meta_routes() -> Seq<RouteView> {
    seq![
        get_json(below_root2("meta"@, "crates"@), Endpoint::MetaCrates),
        get_json(below_root3("meta"@, "version"@, "stable"@), Endpoint::MetaVersionStable),
        get_json(below_root3("meta"@, "version"@, "beta"@), Endpoint::MetaVersionBeta),
        get_json(below_root3("meta"@, "version"@, "nightly"@), Endpoint::MetaVersionNightly),
    ]
}

/// The routes of the gists: `POST /meta/gist` and `GET /meta/gist/:id`.
pub open spec fn gist_routes() -> Seq<RouteView> {
    seq![
        post_json(below_root2("meta"@, "gist"@), Endpoint::GistCreate),
        get_json(
            seq![
                SegmentView::Literal(""@),
                SegmentView::Literal("meta"@),
                SegmentView::Literal("gist"@),
                SegmentView::Param,
            ],
            Endpoint::GistShow,
        ),
    ]
}

/// The front page.
#[derive(Debug)]
pub struct Index(FileX);

impl Index {
    /// The directory that holds the front page.
    pub closed spec fn base(&self) -> Seq<char> {
        self.0.base()
    }

    /// The front page of the site whose files lie below `base`.
    pub fn new(base: String) -> (index: Index)
        ensures
            index.base() == base@,
    {
        Index(FileX::new(base))
    }

    /// The routes of this group.
    pub fn routes() -> (routes: Vec<RouteEntry>)
        ensures
            table(routes@) == index_routes(),
    {
        let root: Vec<Segment> = vec![literal("")];
        proof {
            assert(shape(root@) =~= seq![SegmentView::Literal(""@)]);
        }
        let routes: Vec<RouteEntry> = vec![
            entry(Method::Get, root, Endpoint::Index, Produces::File),
            route1(Method::Get, "help", Endpoint::Help, Produces::File),
        ];
        proof {
            assert(table(routes@) =~= index_routes());
        }
        routes
    }

    /// Starts the lookup of the front page, `index.html`.
    pub fn index(&self, if_modified_since: Option<HttpTimestamp>) -> (lookup: FileLookup)
        ensures
            lookup@ == start(self.base(), "index.html"@, instant_of(if_modified_since)),
    {
        self.0.file("index.html", if_modified_since)
    }

    /// Starts the lookup of the help page, which is the front page.
    pub fn help(&self, if_modified_since: Option<HttpTimestamp>) -> (lookup: FileLookup)
        ensures
            lookup@ == start(self.base(), "index.html"@, instant_of(if_modified_since)),
    {
        self.index(if_modified_since)
    }
}

/// The assets of the site.
#[derive(Debug)]
pub struct Assets(FileX);

impl Assets {
    /// The directory that holds the assets.
    pub closed spec fn base(&self) -> Seq<char> {
        self.0.base()
    }

    /// The assets of the site whose files lie below `base`: they lie in its
    /// directory `assets`.
    pub fn new(base: String) -> (assets: Assets)
        ensures
            assets.base() == child(base@, "assets"@),
    {
        Assets(FileX::new(base).below("assets"))
    }

    /// The routes of this group.
    pub fn routes() -> (routes: Vec<RouteEntry>)
        ensures
            table(routes@) == assets_routes(),
    {
        let segments: Vec<Segment> = vec![literal(""), literal("assets"), Segment::Wildcard];
        proof {
            assert(shape(segments@) =~= seq![
                SegmentView::Literal(""@),
                SegmentView::Literal("assets"@),
                SegmentView::Wildcard,
            ]);
        }
        let routes: Vec<RouteEntry> = vec![
            entry(Method::Get, segments, Endpoint::Asset, Produces::File),
        ];
        proof {
            assert(table(routes@) =~= assets_routes());
        }
        routes
    }

    /// Starts the lookup of the asset at the path that the route captured.
    pub fn asset(&self, asset: &str, if_modified_since: Option<HttpTimestamp>) -> (lookup:
        FileLookup)
        ensures
            lookup@ == start(self.base(), asset@, instant_of(if_modified_since)),
    {
        self.0.file(asset, if_modified_since)
    }
}

/// The gateway to the sandbox that compiles and runs code.
#[derive(Clone, Copy, Debug, PartialEq, Eq, Structural)]
pub struct SandboxGateway;

impl SandboxGateway {
    /// The routes of this group.
    pub fn routes() -> (routes: Vec<RouteEntry>)
        ensures
            table(routes@) == sandbox_routes(),
    {
        let routes: Vec<RouteEntry> = vec![
            route1(Method::Post, "execute", Endpoint::Execute, Produces::Json),
            route1(Method::Post, "compile", Endpoint::Compile, Produces::Json),
            route1(Method::Post, "format", Endpoint::Format, Produces::Json),
            route1(Method::Post, "clippy", Endpoint::Clippy, Produces::Json),
            route1(Method::Post, "miri", Endpoint::Miri, Produces::Json),
            route1(Method::Post, "evaluate.json", Endpoint::Evaluate, Produces::Json),
        ];
        proof {
            assert(table(routes@) =~= sandbox_routes());
        }
        routes
    }
}

/// The meta information about the sandbox: its crates and compilers.
#[derive(Clone, Copy, Debug, PartialEq, Eq, Structural)]
pub struct Meta;

impl Meta {
    /// The routes of this group.
    pub fn routes() -> (routes: Vec<RouteEntry>)
        ensures
            table(routes@) == meta_routes(),
    {
        let routes: Vec<RouteEntry> = vec![
            route2(Method::Get, "meta", "crates", Endpoint::MetaCrates, Produces::Json),
            route3(
                Method::Get,
                "meta",
                "version",
                "stable",
                Endpoint::MetaVersionStable,
                Produces::Json,
            ),
            route3(
                Method::Get,
                "meta",
                "version",
                "beta",
                Endpoint::MetaVersionBeta,
                Produces::Json,
            ),
            route3(
                Method::Get,
                "meta",
                "version",
                "nightly",
                Endpoint::MetaVersionNightly,
                Produces::Json,
            ),
        ];
        proof {
            assert(table(routes@) =~= meta_routes());
        }
        routes
    }
}

/// The client of the gist service.
#[derive(Debug)]
pub struct Gist {
    token: String,
}

impl Default for Gist {
    /// A client without credential.
    fn default() -> (gist: Gist)
        ensures
            gist.credential() == Seq::<char>::empty(),
    {
        Gist { token: String::new() }
    }
}

impl Gist {
    /// The credential that the client shows to the service.
    pub closed spec fn credential(&self) -> Seq<char> {
        self.token@
    }

    /// A client with the credential `token`.
    pub fn new(token: String) -> (gist: Gist)
        ensures
            gist.credential() == token@,
    {
        Self { token }
    }

    /// The credential that the client shows to the service.
    pub fn token(&self) -> (token: String)
        ensures
            token@ == self.credential(),
    {
        self.token.clone()
    }

    /// The routes of this group.
    pub fn routes() -> (routes: Vec<RouteEntry>)
        ensures
            table(routes@) == gist_routes(),
    {
        let show: Vec<Segment> = vec![
            literal(""),
            literal("meta"),
            literal("gist"),
            Segment::Param,
        ];
        proof {
            assert(shape(show@) =~= seq![
                SegmentView::Literal(""@),
                SegmentView::Literal("meta"@),
                SegmentView::Literal("gist"@),
                SegmentView::Param,
            ]);
        }
        let routes: Vec<RouteEntry> = vec![
            route2(Method::Post, "meta", "gist", Endpoint::GistCreate, Produces::Json),
            entry(Method::Get, show, Endpoint::GistShow, Produces::Json),
        ];
        proof {
            assert(table(routes@) =~= gist_routes());
        }
        routes
    }
}

/// What the sandbox is asked to do.
#[derive(Clone, Copy, Debug, PartialEq, Eq, Structural)]
pub enum SandboxOperation {
    Execute,
    Compile,
    Format,
    Clippy,
    Miri,
}

/// The shape in which the outcome of a sandbox call is sent.
#[derive(Clone, Copy, Debug, PartialEq, Eq, Structural)]
pub enum Envelope {
    /// The shape of the operation's own route.
    Standard,
    /// The shape that `/evaluate.json` has always had, for the pages that
    /// embed the playground.
    Legacy,
}

/// What is asked of the cache of meta information.
#[derive(Clone, Copy, Debug, PartialEq, Eq, Structural)]
pub enum MetaQuery {
    Crates,
    VersionStable,
    VersionBeta,
    VersionNightly,
}

/// What the gist service is asked to do.
#[derive(Clone, Copy, Debug, PartialEq, Eq, Structural)]
pub enum GistOperation {
    /// Make a gist of the code in the request's body.
    Create,
    /// Load the gist whose identifier the route captured.
    Load,
}

/// Whom a handler turns to.
#[derive(Clone, Copy, Debug, PartialEq, Eq, Structural)]
pub enum Target {
    /// The files of the site.
    Files,
    Sandbox { operation: SandboxOperation, envelope: Envelope },
    MetaCache(MetaQuery),
    GistService(GistOperation),
}

/// Whom the handler of a route turns to. `/evaluate.json` asks the sandbox
/// for what `/execute` asks it for, and differs in the envelope alone.
pub open spec fn target_of(handler: Endpoint) -> Target {
    match handler {
        Endpoint::Index | Endpoint::Help | Endpoint::Asset => Target::Files,
        Endpoint::Execute => Target::Sandbox {
            operation: SandboxOperation::Execute,
            envelope: Envelope::Standard,
        },
        Endpoint::Evaluate => Target::Sandbox {
            operation: SandboxOperation::Execute,
            envelope: Envelope::Legacy,
        },
        Endpoint::Compile => Target::Sandbox {
            operation: SandboxOperation::Compile,
            envelope: Envelope::Standard,
        },
        Endpoint::Format => Target::Sandbox {
            operation: SandboxOperation::Format,
            envelope: Envelope::Standard,
        },
        Endpoint::Clippy => Target::Sandbox {
            operation: SandboxOperation::Clippy,
            envelope: Envelope::Standard,
        },
        Endpoint::Miri => Target::Sandbox {
            operation: SandboxOperation::Miri,
            envelope: Envelope::Standard,
        },
        Endpoint::MetaCrates => Target::MetaCache(MetaQuery::Crates),
        Endpoint::MetaVersionStable => Target::MetaCache(MetaQuery::VersionStable),
        Endpoint::MetaVersionBeta => Target::MetaCache(MetaQuery::VersionBeta),
        Endpoint::MetaVersionNightly => Target::MetaCache(MetaQuery::VersionNightly),
        Endpoint::GistCreate => Target::GistService(GistOperation::Create),
        Endpoint::GistShow => Target::GistService(GistOperation::Load),
    }
}

/// Whom the handler of a route turns to.
pub fn target(handler: Endpoint) -> (r: Target)
    ensures
        r == target_of(handler),
{
    match handler {
        Endpoint::Index | Endpoint::Help | Endpoint::Asset => Target::Files,
        Endpoint::Execute => Target::Sandbox {
            operation: SandboxOperation::Execute,
            envelope: Envelope::Standard,
        },
        Endpoint::Evaluate => Target::Sandbox {
            operation: SandboxOperation::Execute,
            envelope: Envelope::Legacy,
        },
        Endpoint::Compile => Target::Sandbox {
            operation: SandboxOperation::Compile,
            envelope: Envelope::Standard,
        },
        Endpoint::Format => Target::Sandbox {
            operation: SandboxOperation::Format,
            envelope: Envelope::Standard,
        },
        Endpoint::Clippy => Target::Sandbox {
            operation: SandboxOperation::Clippy,
            envelope: Envelope::Standard,
        },
        Endpoint::Miri => Target::Sandbox {
            operation: SandboxOperation::Miri,
            envelope: Envelope::Standard,
        },
        Endpoint::MetaCrates => Target::MetaCache(MetaQuery::Crates),
        Endpoint::MetaVersionStable => Target::MetaCache(MetaQuery::VersionStable),
        Endpoint::MetaVersionBeta => Target::MetaCache(MetaQuery::VersionBeta),
        Endpoint::MetaVersionNightly => Target::MetaCache(MetaQuery::VersionNightly),
        Endpoint::GistCreate => Target::GistService(GistOperation::Create),
        Endpoint::GistShow => Target::GistService(GistOperation::Load),
    }
}

} // verus!
