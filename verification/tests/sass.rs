use sitecache::sass::sass;
use sitecache::web::MyError;

#[test]
fn test_sass_compiles_nested_rules() {
    let css = sass("p { a { color: red; } }".to_string()).unwrap();
    assert_eq!(css, "p a {\n  color: red;\n}\n");
}

#[test]
fn test_sass_plain_rule() {
    let css = sass("b { color: blue; }".to_string()).unwrap();
    assert_eq!(css, "b {\n  color: blue;\n}\n");
}

#[test]
fn test_sass_rejects_invalid() {
    assert!(matches!(
        sass("p { color: ".to_string()),
        Err(MyError::InvalidScss)
    ));
}
