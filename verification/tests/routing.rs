use http_front::pattern::{pieces_of, Pattern, PatternError, Segment};
use http_front::router::{
    Endpoint, Method, Produces, RouteEntry, RouteError, RouteMatch, Router,
};

fn pattern(text: &str) -> Pattern {
    Pattern::parse(text).expect("a pattern")
}

fn captures(pattern_text: &str, path: &str) -> Option<Vec<String>> {
    pattern(pattern_text).matches(path)
}

fn some(values: &[&str]) -> Option<Vec<String>> {
    Some(values.iter().map(|s| s.to_string()).collect())
}

fn entry(method: Method, text: &str, handler: Endpoint) -> RouteEntry {
    RouteEntry { method, pattern: pattern(text), handler, produces: Produces::Json }
}

fn handler(router: &Router, method: Method, path: &str) -> Option<Endpoint> {
    router.route(method, path).map(|found| found.handler)
}

fn chars(text: &str) -> Vec<char> {
    text.chars().collect()
}

#[test]
fn pieces_of_splits_a_path() {
    assert_eq!(pieces_of("/"), vec![chars("")]);
    assert_eq!(pieces_of(""), vec![chars("")]);
    assert_eq!(pieces_of("/a/b"), vec![chars(""), chars("a"), chars("b")]);
    assert_eq!(pieces_of("/a/b/"), vec![chars(""), chars("a"), chars("b")]);
    assert_eq!(pieces_of("//"), vec![chars(""), chars("")]);
    assert_eq!(pieces_of("a//b"), vec![chars("a"), chars(""), chars("b")]);
}

#[test]
fn pattern_text_is_read_segment_by_segment() {
    assert_eq!(
        Pattern::parse("/meta/gist/:id"),
        Pattern::from_segments(vec![
            Segment::Literal(chars("")),
            Segment::Literal(chars("meta")),
            Segment::Literal(chars("gist")),
            Segment::Param,
        ])
    );
    assert_eq!(
        Pattern::parse("/assets/*asset"),
        Pattern::from_segments(vec![
            Segment::Literal(chars("")),
            Segment::Literal(chars("assets")),
            Segment::Wildcard,
        ])
    );
    assert_eq!(Pattern::parse("/"), Pattern::from_segments(vec![Segment::Literal(chars(""))]));
    assert_eq!(Pattern::parse("/help/"), Pattern::parse("/help"));
    assert!(pattern("/assets/*asset").has_wildcard());
    assert!(!pattern("/meta/gist/:id").has_wildcard());
}

#[test]
fn wildcard_must_stand_last() {
    assert_eq!(Pattern::parse("/*rest/more"), Err(PatternError::WildcardNotLast));
    assert_eq!(Pattern::parse("/*a/*b"), Err(PatternError::WildcardNotLast));
    assert_eq!(
        Pattern::from_segments(vec![Segment::Wildcard, Segment::Param]),
        Err(PatternError::WildcardNotLast)
    );
    assert_eq!(Pattern::from_segments(vec![]), Err(PatternError::WildcardNotLast));
    assert!(Pattern::from_segments(vec![Segment::Wildcard]).is_ok());
}

#[test]
fn root_pattern_matches_the_root_only() {
    assert_eq!(captures("/", "/"), some(&[]));
    assert_eq!(captures("/", ""), some(&[]));
    assert_eq!(captures("/", "/foo"), None);
    assert_eq!(captures("/", "//"), None);
}

#[test]
fn literal_segments_match_exactly() {
    assert_eq!(captures("/foo", "/foo"), some(&[]));
    assert_eq!(captures("/foo", "/foo/"), some(&[]));
    assert_eq!(captures("/foo", "/"), None);
    assert_eq!(captures("/foo", "/bar"), None);
    assert_eq!(captures("/foo", "/Foo"), None);
    assert_eq!(captures("/foo", "/foo/bar"), None);
    assert_eq!(captures("/foo", "/fo"), None);
    assert_eq!(captures("/£", "/£"), some(&[]));
    assert_eq!(captures("/£", "/"), None);
}

#[test]
fn parameters_capture_one_segment() {
    assert_eq!(captures("/:id", "/foo"), some(&["foo"]));
    assert_eq!(captures("/:id", "/"), None);
    assert_eq!(captures("/:id", "/foo/bar"), None);
    assert_eq!(captures("/:one/:two", "/foo/bar"), some(&["foo", "bar"]));
    assert_eq!(captures("/meta/gist/:id", "/meta/gist/abc123"), some(&["abc123"]));
    assert_eq!(captures("/meta/gist/:id", "/meta/gist"), None);
    assert_eq!(captures("/a/:x/b", "/a//b"), some(&[""]));
}

#[test]
fn wildcard_captures_the_rest_with_its_separators() {
    assert_eq!(captures("/*foo", "/alpha"), some(&["alpha"]));
    assert_eq!(captures("/*foo", "/beta"), some(&["beta"]));
    assert_eq!(captures("/*foo", "/alpha/beta"), some(&["alpha/beta"]));
    assert_eq!(captures("/*foo", "/alpha/beta/gamma"), some(&["alpha/beta/gamma"]));
    assert_eq!(captures("/assets/*asset", "/assets/css/site.css"), some(&["css/site.css"]));
    assert_eq!(captures("/assets/*asset", "/assets/../secret"), some(&["../secret"]));
    assert_eq!(captures("/assets/*asset", "/assets//x"), some(&["/x"]));
}

#[test]
fn wildcard_needs_a_segment() {
    assert_eq!(captures("/assets/*asset", "/assets"), None);
    assert_eq!(captures("/assets/*asset", "/assets/"), None);
    assert_eq!(captures("/assets/*asset", "/other/x"), None);
    assert_eq!(captures("/assets/*asset", "/assets//"), some(&[""]));
}

#[test]
fn parameters_and_wildcard_together() {
    assert_eq!(captures("/:id/*foo", "/42"), None);
    assert_eq!(captures("/:id/*foo", "/42/"), None);
    assert_eq!(captures("/:id/*foo", "/42/a"), some(&["42", "a"]));
    assert_eq!(captures("/:id/*foo", "/42/a/b"), some(&["42", "a/b"]));
}

#[test]
fn patterns_compare_by_their_segments() {
    assert!(pattern("/a/:x").same(&pattern("/a/:y")));
    assert!(pattern("/a/*x").same(&pattern("/a/*rest")));
    assert!(!pattern("/a/:x").same(&pattern("/a/*x")));
    assert!(!pattern("/a").same(&pattern("/b")));
    assert!(!pattern("/a").same(&pattern("/a/b")));
    assert!(Segment::Literal(chars("a")).same(&Segment::Literal(chars("a"))));
    assert!(!Segment::Literal(chars("a")).same(&Segment::Param));
}

#[test]
fn method_tokens() {
    assert_eq!(Method::from_token("GET"), Some(Method::Get));
    assert_eq!(Method::from_token("POST"), Some(Method::Post));
    assert_eq!(Method::from_token("PUT"), Some(Method::Put));
    assert_eq!(Method::from_token("DELETE"), Some(Method::Delete));
    assert_eq!(Method::from_token("HEAD"), Some(Method::Head));
    assert_eq!(Method::from_token("OPTIONS"), Some(Method::Options));
    assert_eq!(Method::from_token("PATCH"), Some(Method::Patch));
    assert_eq!(Method::from_token("CONNECT"), Some(Method::Connect));
    assert_eq!(Method::from_token("TRACE"), Some(Method::Trace));
    assert_eq!(Method::from_token("get"), None);
    assert_eq!(Method::from_token("BREW"), None);
    assert_eq!(Method::from_token(""), None);
    assert_eq!(Method::from_token("GET "), None);
}

#[test]
fn empty_router_has_no_route() {
    let router = Router::new();
    assert_eq!(router.route(Method::Get, "/"), None);
    assert!(router.specific().is_empty());
    assert!(router.wildcard().is_empty());
}

#[test]
fn route_needs_method_and_path() {
    let mut router = Router::new();
    assert_eq!(router.add(entry(Method::Post, "/execute", Endpoint::Execute)), Ok(()));
    assert_eq!(
        router.route(Method::Post, "/execute"),
        Some(RouteMatch { handler: Endpoint::Execute, produces: Produces::Json, captures: vec![] })
    );
    assert_eq!(router.route(Method::Get, "/execute"), None);
    assert_eq!(router.route(Method::Post, "/compile"), None);
    assert_eq!(router.route(Method::Post, "/execute/more"), None);
}

#[test]
fn route_hands_back_the_captures() {
    let mut router = Router::new();
    router.add(entry(Method::Get, "/meta/gist/:id", Endpoint::GistShow)).expect("added");
    router.add(entry(Method::Get, "/assets/*asset", Endpoint::Asset)).expect("added");
    assert_eq!(
        router.route(Method::Get, "/meta/gist/0123abc"),
        Some(RouteMatch {
            handler: Endpoint::GistShow,
            produces: Produces::Json,
            captures: vec!["0123abc".to_string()],
        })
    );
    assert_eq!(
        router.route(Method::Get, "/assets/img/logo.png"),
        Some(RouteMatch {
            handler: Endpoint::Asset,
            produces: Produces::Json,
            captures: vec!["img/logo.png".to_string()],
        })
    );
}

#[test]
fn same_method_and_pattern_is_refused() {
    let mut router = Router::new();
    assert_eq!(router.add(entry(Method::Get, "/help", Endpoint::Help)), Ok(()));
    assert_eq!(
        router.add(entry(Method::Get, "/help", Endpoint::Index)),
        Err(RouteError::Duplicate)
    );
    assert_eq!(
        router.add(entry(Method::Get, "/help/", Endpoint::Index)),
        Err(RouteError::Duplicate)
    );
    assert_eq!(router.specific().len(), 1);
    assert_eq!(handler(&router, Method::Get, "/help"), Some(Endpoint::Help));
    assert_eq!(router.add(entry(Method::Post, "/help", Endpoint::Execute)), Ok(()));
    assert_eq!(router.add(entry(Method::Get, "/:x", Endpoint::GistShow)), Ok(()));
    assert_eq!(
        router.add(entry(Method::Get, "/:y", Endpoint::GistShow)),
        Err(RouteError::Duplicate)
    );
    assert_eq!(router.specific().len(), 3);
    assert!(router.holds(&entry(Method::Get, "/help", Endpoint::Asset)));
    assert!(!router.holds(&entry(Method::Put, "/help", Endpoint::Asset)));
}

#[test]
fn first_matching_entry_answers() {
    let mut router = Router::new();
    router.add(entry(Method::Get, "/:any", Endpoint::GistShow)).expect("added");
    router.add(entry(Method::Get, "/help", Endpoint::Help)).expect("added");
    assert_eq!(handler(&router, Method::Get, "/help"), Some(Endpoint::GistShow));
    assert_eq!(handler(&router, Method::Get, "/other"), Some(Endpoint::GistShow));
}

#[test]
fn entries_without_wildcard_are_tried_first() {
    let mut router = Router::new();
    router.add(entry(Method::Get, "/*anything", Endpoint::Asset)).expect("added");
    router.add(entry(Method::Get, "/help", Endpoint::Help)).expect("added");
    router.add(entry(Method::Get, "/meta/*rest", Endpoint::MetaCrates)).expect("added");
    router.add(entry(Method::Get, "/meta/crates", Endpoint::MetaVersionBeta)).expect("added");
    assert_eq!(handler(&router, Method::Get, "/help"), Some(Endpoint::Help));
    assert_eq!(handler(&router, Method::Get, "/meta/crates"), Some(Endpoint::MetaVersionBeta));
    assert_eq!(handler(&router, Method::Get, "/meta/other"), Some(Endpoint::Asset));
    assert_eq!(handler(&router, Method::Get, "/else"), Some(Endpoint::Asset));
    let specific: Vec<Endpoint> = router.specific().iter().map(|e| e.handler).collect();
    let wildcard: Vec<Endpoint> = router.wildcard().iter().map(|e| e.handler).collect();
    assert_eq!(specific, vec![Endpoint::Help, Endpoint::MetaVersionBeta]);
    assert_eq!(wildcard, vec![Endpoint::Asset, Endpoint::MetaCrates]);
}

#[test]
fn mount_stops_at_the_first_double() {
    let mut router = Router::new();
    let routes = vec![
        entry(Method::Get, "/a", Endpoint::Index),
        entry(Method::Get, "/b", Endpoint::Help),
        entry(Method::Get, "/a", Endpoint::Asset),
        entry(Method::Get, "/c", Endpoint::Execute),
    ];
    assert_eq!(router.mount(routes), Err(RouteError::Duplicate));
    assert_eq!(router.specific().len(), 2);
    assert_eq!(handler(&router, Method::Get, "/a"), Some(Endpoint::Index));
    assert_eq!(handler(&router, Method::Get, "/b"), Some(Endpoint::Help));
    assert_eq!(handler(&router, Method::Get, "/c"), None);
    assert_eq!(router.mount(vec![entry(Method::Get, "/c", Endpoint::Execute)]), Ok(()));
    assert_eq!(handler(&router, Method::Get, "/c"), Some(Endpoint::Execute));
    assert_eq!(router.mount(vec![]), Ok(()));
}
