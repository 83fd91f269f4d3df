use sitecache::web::Route;
use sitecache::web::route;
use sitecache::web::render_page;
use sitecache::web::to_components;
use sitecache::web::MyError;

#[test]
fn test_to_components() {
    assert_eq!(to_components(""), None);
    assert_eq!(to_components("bla"), None);
    assert_eq!(to_components("/"), Some(vec![]));
    assert_eq!(to_components("/bla"), Some(vec!["bla"]));
    assert_eq!(to_components("/bla/"), Some(vec!["bla"]));
    assert_eq!(to_components("/bla/blo"), Some(vec!["bla", "blo"]));
    assert_eq!(to_components("/bla/blo/"), Some(vec!["bla", "blo"]));
}

#[test]
fn test_to_components_rejects_double_slash() {
    assert_eq!(to_components("//"), None);
    assert_eq!(to_components("/bla//blo"), None);
    assert_eq!(to_components("/bla//"), None);
}

#[test]
fn test_route_fixed_resources() {
    match route("/default.css") {
        Route::Stylesheet { source } => assert_eq!(source, "_style/default.scss"),
        _ => panic!("expected the stylesheet route"),
    }
    match route("/heart.svg") {
        Route::Static { file } => assert_eq!(file, "heart.svg"),
        _ => panic!("expected a static file"),
    }
    match route("/zero") {
        Route::Static { file } => assert_eq!(file, "zero"),
        _ => panic!("expected a static file"),
    }
    match route("/page1") {
        Route::Redirect { location } => assert_eq!(location, "/page1/"),
        _ => panic!("expected a redirect"),
    }
}

#[test]
fn test_route_pages() {
    match route("/") {
        Route::Page { source, template } => {
            assert_eq!(source, "page.md");
            assert_eq!(template, "_style/default.html");
        }
        _ => panic!("expected a page"),
    }
    match route("/notes/") {
        Route::Page { source, template } => {
            assert_eq!(source, "notes/page.md");
            assert_eq!(template, "_style/default.html");
        }
        _ => panic!("expected a page"),
    }
    assert!(matches!(route("/notes"), Route::NotFound));
}

#[test]
fn test_route_rejections() {
    assert!(matches!(route(""), Route::NotFound));
    assert!(matches!(route("bla"), Route::NotFound));
    assert!(matches!(route("//"), Route::NotFound));
    assert!(matches!(route("/.git/"), Route::NotFound));
    assert!(matches!(route("/_style/default.html"), Route::NotFound));
    assert!(matches!(route("/a//b"), Route::NotFound));
}

#[test]
fn test_render_page_plain() {
    let html = render_page("hello", "[{{{contents}}}]").unwrap();
    assert_eq!(html, "[<p>hello</p>\n]");
}

#[test]
fn test_render_page_with_header() {
    let doc = "---\ntitle = \"T\"\n---\nBody";
    let html = render_page(doc, "{{title}}:{{{contents}}}").unwrap();
    assert_eq!(html, "T:<p>Body</p>\n");
}

#[test]
fn test_render_page_bad_header() {
    let doc = "---\ntitle = 3\n---\nBody";
    assert!(matches!(render_page(doc, "x"), Err(MyError::NotFound)));
}

#[test]
fn test_render_page_bad_template() {
    match render_page("hello", "{{#if}}") {
        Err(MyError::Internal(msg)) => assert_eq!(msg, "invalid template"),
        _ => panic!("expected an internal error"),
    }
}
