use sitecache::url::UrlPath;
use sitecache::url::valid;

#[test]
fn test_url_path() {
    assert!(UrlPath::new("foo").is_none());
    assert!(UrlPath::new("/foo/bar.quz/").unwrap().extension().is_none());
    assert_eq!(
        UrlPath::new("/foo/bar.quz").unwrap().extension().unwrap(),
        "quz"
    );
}

#[test]
fn test_valid() {
    assert!(valid("/"));
    assert!(valid("/foo"));
    assert!(valid("/foo/"));
    assert!(valid("/foo/bar"));
    assert!(valid("/foo/bar/"));
    assert!(!valid(""));
    assert!(!valid("foo"));
    assert!(!valid("//"));
    assert!(!valid("/foo//bar"));
    assert!(!valid("/.hidden"));
    assert!(!valid("/_internal"));
    assert!(!valid("/foo/.bar"));
    assert!(!valid("/foo/_bar/"));
    assert!(!valid("/foo//"));
}

#[test]
fn test_path_accessors() {
    let p = UrlPath::new("/foo/bar.quz").unwrap();
    assert_eq!(p.path(), "/foo/bar.quz");
    assert_eq!(p.relative_path(), "foo/bar.quz");
    assert!(!p.has_final_slash());
    assert_eq!(p.last(), "bar.quz");

    let d = UrlPath::new("/foo/bar/").unwrap();
    assert_eq!(d.relative_path(), "foo/bar/");
    assert!(d.has_final_slash());
    assert_eq!(d.last(), "");
    assert!(d.extension().is_none());
}

#[test]
fn test_parent() {
    assert!(UrlPath::new("/").unwrap().parent().is_none());
    assert!(UrlPath::new("/foo").unwrap().parent().is_none());
    let p = UrlPath::new("/foo/bar").unwrap().parent().unwrap();
    assert_eq!(p.path(), "/foo");
    let q = UrlPath::new("/foo/bar/").unwrap().parent().unwrap();
    assert_eq!(q.path(), "/foo/bar");
    let r = UrlPath::new("/foo/").unwrap().parent().unwrap();
    assert_eq!(r.path(), "/foo");
}
