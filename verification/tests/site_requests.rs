use http_front::asset_path::ContentType;
use http_front::file_server::{AssetResponse, FileAction, FileEvent, ResolvedAsset};
use http_front::resources::{
    target, Assets, Envelope, Gist, GistOperation, Index, Meta, MetaQuery, SandboxGateway,
    SandboxOperation, Target,
};
use http_front::response::{Header, HeaderName, ResponseHead};
use http_front::router::{Endpoint, Method, Produces, RouteMatch};
use http_front::site::{RequestHead, Site, Step};
use http_front::timestamp::HttpTimestamp;

fn site() -> Site {
    Site::new("/srv/www".to_string(), "SECRET-REDACTED".to_string())
}

fn request(method: &str, path: &str) -> RequestHead {
    RequestHead {
        method: method.to_string(),
        path: path.to_string(),
        origin: None,
        if_modified_since: None,
        requested_method: None,
        requested_headers: None,
    }
}

fn header(name: HeaderName, value: &str) -> Header {
    Header { name, value: value.to_string() }
}

fn cors_lines() -> Vec<Header> {
    vec![
        header(HeaderName::AccessControlAllowOrigin, "*"),
        header(HeaderName::AccessControlAllowMethods, "GET,POST"),
        header(HeaderName::AccessControlAllowHeaders, "Content-Type"),
        header(HeaderName::AccessControlMaxAge, "3600"),
    ]
}

fn bare(status: u16) -> Step {
    Step::Respond(ResponseHead { status, headers: cors_lines() })
}

fn forwarded(handler: Endpoint, captures: &[&str]) -> Step {
    Step::Forward(RouteMatch {
        handler,
        produces: Produces::Json,
        captures: captures.iter().map(|s| s.to_string()).collect(),
    })
}

fn first_action(step: Step) -> FileAction {
    match step {
        Step::Serve(lookup) => lookup.action(),
        other => panic!("no lookup: {:?}", other),
    }
}

#[test]
fn front_page_and_help_serve_index_html() {
    let site = site();
    for path in ["/", "/help", "/help/", ""] {
        assert_eq!(
            first_action(site.accept(&request("GET", path))),
            FileAction::Open("/srv/www/index.html.gz".to_string()),
            "{}",
            path
        );
    }
    assert_eq!(site.accept(&request("GET", "/")), site.accept(&request("GET", "/help")));
}

#[test]
fn assets_are_served_from_the_assets_directory() {
    let site = site();
    assert_eq!(
        first_action(site.accept(&request("GET", "/assets/app.js"))),
        FileAction::Open("/srv/www/assets/app.js.gz".to_string())
    );
    assert_eq!(
        first_action(site.accept(&request("GET", "/assets/css/site.css"))),
        FileAction::Open("/srv/www/assets/css/site.css.gz".to_string())
    );
}

#[test]
fn assets_outside_the_directory_are_not_found() {
    let site = site();
    for path in ["/assets/../index.html", "/assets//etc/passwd", "/assets/a/../../b", "/assets//"] {
        assert_eq!(
            first_action(site.accept(&request("GET", path))),
            FileAction::Respond(AssetResponse::NotFound),
            "{}",
            path
        );
    }
}

#[test]
fn sandbox_routes_are_forwarded() {
    let site = site();
    for (path, handler) in [
        ("/execute", Endpoint::Execute),
        ("/compile", Endpoint::Compile),
        ("/format", Endpoint::Format),
        ("/clippy", Endpoint::Clippy),
        ("/miri", Endpoint::Miri),
        ("/evaluate.json", Endpoint::Evaluate),
    ] {
        assert_eq!(site.accept(&request("POST", path)), forwarded(handler, &[]), "{}", path);
        assert_eq!(site.accept(&request("GET", path)), bare(404), "{}", path);
    }
}

#[test]
fn meta_routes_are_forwarded() {
    let site = site();
    for (path, handler) in [
        ("/meta/crates", Endpoint::MetaCrates),
        ("/meta/version/stable", Endpoint::MetaVersionStable),
        ("/meta/version/beta", Endpoint::MetaVersionBeta),
        ("/meta/version/nightly", Endpoint::MetaVersionNightly),
    ] {
        assert_eq!(site.accept(&request("GET", path)), forwarded(handler, &[]), "{}", path);
        assert_eq!(site.accept(&request("POST", path)), bare(404), "{}", path);
    }
    assert_eq!(site.accept(&request("GET", "/meta/version/dev")), bare(404));
    assert_eq!(site.accept(&request("GET", "/meta/version")), bare(404));
}

#[test]
fn gist_routes_are_forwarded() {
    let site = site();
    assert_eq!(site.accept(&request("POST", "/meta/gist")), forwarded(Endpoint::GistCreate, &[]));
    assert_eq!(
        site.accept(&request("GET", "/meta/gist/abc123")),
        forwarded(Endpoint::GistShow, &["abc123"])
    );
    assert_eq!(site.accept(&request("GET", "/meta/gist")), bare(404));
    assert_eq!(site.accept(&request("POST", "/meta/gist/abc123")), bare(404));
    assert_eq!(site.gist_token(), "SECRET-REDACTED");
}

#[test]
fn requests_without_route_are_not_found() {
    let site = site();
    for (method, path) in [
        ("GET", "/nothing"),
        ("POST", "/"),
        ("PUT", "/execute"),
        ("DELETE", "/assets/app.js"),
        ("HEAD", "/"),
        ("BREW", "/"),
        ("get", "/"),
        ("GET", "/assets"),
        ("GET", "/assets/"),
        ("GET", "//"),
        ("GET", "/help/me"),
        ("OPTIONS", "/execute"),
    ] {
        assert_eq!(site.accept(&request(method, path)), bare(404), "{} {}", method, path);
    }
}

#[test]
fn every_head_names_the_allowed_origin() {
    let site = site();
    for origin in [None, Some("null".to_string()), Some("https://www.rust-lang.org".to_string())] {
        let mut missing = request("GET", "/nothing");
        missing.origin = origin.clone();
        match site.accept(&missing) {
            Step::Respond(head) => {
                assert_eq!(head.status, 404);
                assert_eq!(
                    head.header(HeaderName::AccessControlAllowOrigin),
                    Some("*".to_string())
                );
            }
            other => panic!("{:?}", other),
        }
        for response in [AssetResponse::NotFound, AssetResponse::NotModified] {
            let head = site.respond_file(&response, &origin);
            assert_eq!(head.status, response.status());
            assert_eq!(head.headers, cors_lines());
        }
        for status in [200u16, 400, 500] {
            let head = site.respond_json(status, &origin);
            assert_eq!(head.status, status);
            assert_eq!(head.header(HeaderName::AccessControlAllowOrigin), Some("*".to_string()));
            assert_eq!(head.header(HeaderName::ContentType), Some("application/json".to_string()));
            assert_eq!(head.headers.len(), 5);
        }
    }
}

#[test]
fn file_heads_carry_file_and_policy_lines() {
    let site = site();
    let response = AssetResponse::Full(ResolvedAsset {
        location: "/srv/www/assets/site.css.gz".to_string(),
        gzipped: true,
        last_modified: HttpTimestamp::from_unix_secs(0),
        content_type: ContentType::Css,
    });
    let mut expected = vec![
        header(HeaderName::ContentType, "text/css"),
        header(HeaderName::ContentEncoding, "gzip"),
        header(HeaderName::LastModified, "Thu, 1 Jan 1970 00:00:00 +0000"),
    ];
    expected.extend(cors_lines());
    assert_eq!(
        site.respond_file(&response, &None),
        ResponseHead { status: 200, headers: expected }
    );
}

#[test]
fn preflight_is_answered_at_once() {
    let site = site();
    let mut preflight = request("OPTIONS", "/execute");
    preflight.origin = Some("https://www.rust-lang.org".to_string());
    preflight.requested_method = Some("POST".to_string());
    preflight.requested_headers = Some("content-type".to_string());
    assert_eq!(site.accept(&preflight), bare(204));
    preflight.path = "/nothing/here".to_string();
    assert_eq!(site.accept(&preflight), bare(204));
    preflight.requested_method = Some("DELETE".to_string());
    assert_eq!(site.accept(&preflight), bare(403));
    preflight.requested_method = Some("GET".to_string());
    preflight.requested_headers = Some("authorization".to_string());
    assert_eq!(site.accept(&preflight), bare(403));
    preflight.requested_headers = None;
    assert_eq!(site.accept(&preflight), bare(204));
    preflight.origin = None;
    assert_eq!(site.accept(&preflight), bare(404));
}

#[test]
fn conditional_requests_go_by_the_header() {
    let site = site();
    let modified = HttpTimestamp::from_unix_secs(784_111_777);
    let events = [FileEvent::Failed, FileEvent::Opened, FileEvent::Metadata(modified)];
    let outcome = |header: Option<&str>| {
        let mut conditional = request("GET", "/assets/app.js");
        conditional.if_modified_since = header.map(|s| s.to_string());
        let mut lookup = match site.accept(&conditional) {
            Step::Serve(lookup) => lookup,
            other => panic!("{:?}", other),
        };
        for event in events {
            lookup = lookup.advance(event);
        }
        lookup.response().expect("a response").status()
    };
    assert_eq!(outcome(None), 200);
    assert_eq!(outcome(Some("Sun, 06 Nov 1994 08:49:37 GMT")), 304);
    assert_eq!(outcome(Some("Sun, 06 Nov 1994 08:49:38 GMT")), 304);
    assert_eq!(outcome(Some("Mon, 07 Nov 1994 00:00:00 GMT")), 304);
    assert_eq!(outcome(Some("Sun, 06 Nov 1994 08:49:36 GMT")), 200);
    assert_eq!(outcome(Some("Sat, 05 Nov 1994 08:49:37 GMT")), 200);
    assert_eq!(outcome(Some("not a date")), 200);
    assert_eq!(outcome(Some("Wed, 31 Dec 1969 23:59:59 GMT")), 200);
}

#[test]
fn route_table_lists_the_groups() {
    let site = site();
    let specific: Vec<(Method, Endpoint, Produces)> = site
        .router()
        .specific()
        .iter()
        .map(|e| (e.method, e.handler, e.produces))
        .collect();
    assert_eq!(
        specific,
        vec![
            (Method::Get, Endpoint::Index, Produces::File),
            (Method::Get, Endpoint::Help, Produces::File),
            (Method::Post, Endpoint::Execute, Produces::Json),
            (Method::Post, Endpoint::Compile, Produces::Json),
            (Method::Post, Endpoint::Format, Produces::Json),
            (Method::Post, Endpoint::Clippy, Produces::Json),
            (Method::Post, Endpoint::Miri, Produces::Json),
            (Method::Post, Endpoint::Evaluate, Produces::Json),
            (Method::Get, Endpoint::MetaCrates, Produces::Json),
            (Method::Get, Endpoint::MetaVersionStable, Produces::Json),
            (Method::Get, Endpoint::MetaVersionBeta, Produces::Json),
            (Method::Get, Endpoint::MetaVersionNightly, Produces::Json),
            (Method::Post, Endpoint::GistCreate, Produces::Json),
            (Method::Get, Endpoint::GistShow, Produces::Json),
        ]
    );
    let wildcard: Vec<(Method, Endpoint, Produces)> = site
        .router()
        .wildcard()
        .iter()
        .map(|e| (e.method, e.handler, e.produces))
        .collect();
    assert_eq!(wildcard, vec![(Method::Get, Endpoint::Asset, Produces::File)]);
    assert_eq!(site.policy(), &http_front::cors::CorsPolicy::reference());
}

#[test]
fn groups_declare_their_routes() {
    assert_eq!(Index::routes().len(), 2);
    assert_eq!(Assets::routes().len(), 1);
    assert_eq!(SandboxGateway::routes().len(), 6);
    assert_eq!(Meta::routes().len(), 4);
    assert_eq!(Gist::routes().len(), 2);
    assert_eq!(Gist::new("abc".to_string()).token(), "abc");
    let index = Index::new("/srv/www".to_string());
    assert_eq!(index.index(None).action(), FileAction::Open("/srv/www/index.html.gz".to_string()));
    assert_eq!(index.help(None), index.index(None));
    let assets = Assets::new("/srv/www".to_string());
    assert_eq!(
        assets.asset("logo.png", None).action(),
        FileAction::Open("/srv/www/assets/logo.png.gz".to_string())
    );
}

#[test]
fn evaluate_asks_the_sandbox_for_what_execute_asks() {
    assert_eq!(
        target(Endpoint::Execute),
        Target::Sandbox { operation: SandboxOperation::Execute, envelope: Envelope::Standard }
    );
    assert_eq!(
        target(Endpoint::Evaluate),
        Target::Sandbox { operation: SandboxOperation::Execute, envelope: Envelope::Legacy }
    );
}

#[test]
fn handlers_turn_to_their_collaborators() {
    assert_eq!(target(Endpoint::Index), Target::Files);
    assert_eq!(target(Endpoint::Help), Target::Files);
    assert_eq!(target(Endpoint::Asset), Target::Files);
    assert_eq!(
        target(Endpoint::Compile),
        Target::Sandbox { operation: SandboxOperation::Compile, envelope: Envelope::Standard }
    );
    assert_eq!(
        target(Endpoint::Format),
        Target::Sandbox { operation: SandboxOperation::Format, envelope: Envelope::Standard }
    );
    assert_eq!(
        target(Endpoint::Clippy),
        Target::Sandbox { operation: SandboxOperation::Clippy, envelope: Envelope::Standard }
    );
    assert_eq!(
        target(Endpoint::Miri),
        Target::Sandbox { operation: SandboxOperation::Miri, envelope: Envelope::Standard }
    );
    assert_eq!(target(Endpoint::MetaCrates), Target::MetaCache(MetaQuery::Crates));
    assert_eq!(target(Endpoint::MetaVersionStable), Target::MetaCache(MetaQuery::VersionStable));
    assert_eq!(target(Endpoint::MetaVersionBeta), Target::MetaCache(MetaQuery::VersionBeta));
    assert_eq!(target(Endpoint::MetaVersionNightly), Target::MetaCache(MetaQuery::VersionNightly));
    assert_eq!(target(Endpoint::GistCreate), Target::GistService(GistOperation::Create));
    assert_eq!(target(Endpoint::GistShow), Target::GistService(GistOperation::Load));
}

#[test]
fn execute_is_forwarded_and_answered_with_the_status_of_the_sandbox() {
    let site = site();
    let mut post = request("POST", "/execute");
    post.origin = Some("https://www.rust-lang.org".to_string());
    let found = match site.accept(&post) {
        Step::Forward(found) => found,
        other => panic!("{:?}", other),
    };
    assert_eq!(found.handler, Endpoint::Execute);
    assert_eq!(found.produces, Produces::Json);
    assert_eq!(
        target(found.handler),
        Target::Sandbox { operation: SandboxOperation::Execute, envelope: Envelope::Standard }
    );
    for status in [200u16, 400, 422, 500] {
        let mut expected = vec![header(HeaderName::ContentType, "application/json")];
        expected.extend(cors_lines());
        assert_eq!(
            site.respond_json(status, &post.origin),
            ResponseHead { status, headers: expected }
        );
    }
    assert_eq!(
        http_front::site::json_response_head(201),
        ResponseHead {
            status: 201,
            headers: vec![header(HeaderName::ContentType, "application/json")],
        }
    );
}
