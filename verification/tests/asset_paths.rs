use http_front::asset_path::{AssetPath, ContentType, PathError};
use http_front::file_server::FileX;

fn segments(text: &str) -> Result<Vec<String>, PathError> {
    AssetPath::parse(text).map(|path| {
        assert_eq!(path.segment(path.len()), None);
        (0..path.len()).map(|i| path.segment(i).expect("a segment")).collect()
    })
}

fn names(list: &[&str]) -> Result<Vec<String>, PathError> {
    Ok(list.iter().map(|s| s.to_string()).collect())
}

fn kind(text: &str) -> ContentType {
    AssetPath::parse(text).expect("a path").content_type()
}

fn places(base: &str, text: &str) -> (String, String) {
    FileX::new(base.to_string()).locate(&AssetPath::parse(text).expect("a path"))
}

#[test]
fn parse_splits_at_separators() {
    assert_eq!(segments("app.js"), names(&["app.js"]));
    assert_eq!(segments("css/site.css"), names(&["css", "site.css"]));
    assert_eq!(segments("a/b/c/d.txt"), names(&["a", "b", "c", "d.txt"]));
}

#[test]
fn parse_passes_over_empty_pieces_and_dots() {
    assert_eq!(segments("a//b/./c"), names(&["a", "b", "c"]));
    assert_eq!(segments("./a"), names(&["a"]));
    assert_eq!(segments("a/"), names(&["a"]));
    assert_eq!(segments("a/."), names(&["a"]));
    assert_eq!(segments("..."), names(&["..."]));
    assert_eq!(segments("..a"), names(&["..a"]));
}

#[test]
fn parse_refuses_parent_segments() {
    assert_eq!(segments(".."), Err(PathError::ParentSegment));
    assert_eq!(segments("../secret"), Err(PathError::ParentSegment));
    assert_eq!(segments("a/../b"), Err(PathError::ParentSegment));
    assert_eq!(segments("a/b/.."), Err(PathError::ParentSegment));
    assert_eq!(segments("a/.."), Err(PathError::ParentSegment));
}

#[test]
fn parse_refuses_paths_from_the_root() {
    assert_eq!(segments("/"), Err(PathError::Absolute));
    assert_eq!(segments("/etc/passwd"), Err(PathError::Absolute));
    assert_eq!(segments("/.."), Err(PathError::Absolute));
    assert_eq!(segments("//a"), Err(PathError::Absolute));
}

#[test]
fn parse_refuses_paths_without_a_name() {
    assert_eq!(segments(""), Err(PathError::Empty));
    assert_eq!(segments("."), Err(PathError::Empty));
    assert_eq!(segments("./"), Err(PathError::Empty));
    assert_eq!(segments("././/"), Err(PathError::Empty));
}

#[test]
fn content_type_goes_by_the_extension() {
    assert_eq!(kind("index.html"), ContentType::Html);
    assert_eq!(kind("site.css"), ContentType::Css);
    assert_eq!(kind("app.js"), ContentType::OctetStream);
    assert_eq!(kind("README"), ContentType::OctetStream);
    assert_eq!(kind("archive.tar.css"), ContentType::Css);
    assert_eq!(kind("deep/down/page.html"), ContentType::Html);
}

#[test]
fn content_type_edge_cases() {
    assert_eq!(kind(".html"), ContentType::OctetStream);
    assert_eq!(kind("a.HTML"), ContentType::OctetStream);
    assert_eq!(kind("page.html."), ContentType::OctetStream);
    assert_eq!(kind("dir.html/file"), ContentType::OctetStream);
    assert_eq!(kind("a.htm"), ContentType::OctetStream);
    assert_eq!(kind("..html"), ContentType::Html);
}

#[test]
fn media_types() {
    assert_eq!(ContentType::Html.media_type(), "text/html");
    assert_eq!(ContentType::Css.media_type(), "text/css");
    assert_eq!(ContentType::OctetStream.media_type(), "application/octet-stream");
}

#[test]
fn locate_joins_base_and_path() {
    assert_eq!(
        places("/srv/www", "app.js"),
        ("/srv/www/app.js".to_string(), "/srv/www/app.js.gz".to_string())
    );
    assert_eq!(
        places("/srv/www", "css/site.css"),
        ("/srv/www/css/site.css".to_string(), "/srv/www/css/site.css.gz".to_string())
    );
    assert_eq!(
        places("/srv/www", "index.html"),
        ("/srv/www/index.html".to_string(), "/srv/www/index.html.gz".to_string())
    );
}

#[test]
fn locate_adds_no_second_separator() {
    assert_eq!(
        places("/srv/www/", "app.js"),
        ("/srv/www/app.js".to_string(), "/srv/www/app.js.gz".to_string())
    );
    assert_eq!(places("", "app.js"), ("app.js".to_string(), "app.js.gz".to_string()));
    assert_eq!(places("/", "a/b"), ("/a/b".to_string(), "/a/b..gz".to_string()));
}

#[test]
fn sibling_of_a_name_without_extension_has_two_dots() {
    assert_eq!(
        places("/srv/www", "README"),
        ("/srv/www/README".to_string(), "/srv/www/README..gz".to_string())
    );
    assert_eq!(
        places("/srv/www", ".profile"),
        ("/srv/www/.profile".to_string(), "/srv/www/.profile..gz".to_string())
    );
    assert_eq!(
        places("/srv/www", "a.tar.gz"),
        ("/srv/www/a.tar.gz".to_string(), "/srv/www/a.tar.gz.gz".to_string())
    );
    assert_eq!(
        places("/srv/www", "trailing."),
        ("/srv/www/trailing.".to_string(), "/srv/www/trailing..gz".to_string())
    );
}

#[test]
fn below_names_a_directory_of_the_base() {
    let files = FileX::new("/srv/www".to_string()).below("assets");
    assert_eq!(files.base_dir(), "/srv/www/assets");
    assert_eq!(FileX::new("/srv/www/".to_string()).below("assets").base_dir(), "/srv/www/assets");
    assert_eq!(FileX::new(String::new()).below("assets").base_dir(), "assets");
    assert_eq!(FileX::new("/srv/www".to_string()).base_dir(), "/srv/www");
}
