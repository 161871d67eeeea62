//! Units for the text helpers and the literal path model.

use transclusion::dirs::{is_url, join_path, parent_dir, DirectoryStack};
use transclusion::text::{expr_name, starts_with, str_eq, trim};

#[test]
fn trim_removes_surrounding_whitespace() {
    assert_eq!(trim("  hello \t\n"), "hello");
    assert_eq!(trim("hello"), "hello");
    assert_eq!(trim("   "), "");
    assert_eq!(trim(""), "");
    assert_eq!(trim(" a b "), "a b");
}

#[test]
fn expr_name_strips_one_marker_layer() {
    assert_eq!(expr_name("{{site}}"), "site");
    assert_eq!(expr_name("  {{ site }} "), "site");
    assert_eq!(expr_name("site"), "site");
    assert_eq!(expr_name("{{{{x}}}}"), "{{x}}");
    assert_eq!(expr_name("{{}}"), "");
    assert_eq!(expr_name("{{"), "{{");
    assert_eq!(expr_name("{{x}"), "{{x}");
}

#[test]
fn str_eq_and_starts_with_work() {
    assert!(str_eq("abc", "abc"));
    assert!(!str_eq("abc", "abd"));
    assert!(!str_eq("abc", "ab"));
    assert!(starts_with("https://x", "https://"));
    assert!(!starts_with("http", "https://"));
}

#[test]
fn url_detection() {
    assert!(is_url("http://example.org"));
    assert!(is_url("https://example.org/a.md"));
    assert!(!is_url("ftp://example.org"));
    assert!(!is_url("docs/a.md"));
    assert!(!is_url(""));
}

#[test]
fn join_path_is_literal() {
    assert_eq!(join_path("/docs", "sub/page.md"), "/docs/sub/page.md");
    assert_eq!(join_path("/docs", "/abs.md"), "/abs.md");
    assert_eq!(join_path("", "a.md"), "/a.md");
}

#[test]
fn parent_dir_follows_the_path_model() {
    assert_eq!(parent_dir("/docs/sub/page.md"), Some(String::from("/docs/sub")));
    assert_eq!(parent_dir("page.md"), Some(String::new()));
    assert_eq!(parent_dir("/page.md"), Some(String::from("/")));
    assert_eq!(parent_dir(""), None);
    assert_eq!(parent_dir("/"), None);
}

#[test]
fn directory_stack_is_last_in_first_out() {
    let mut st = DirectoryStack::new();
    assert_eq!(st.top(), None);
    assert_eq!(st.pop(), None);
    st.push(String::from("/a"));
    st.push(String::from("/a/b"));
    assert_eq!(st.top(), Some(String::from("/a/b")));
    assert_eq!(st.pop(), Some(String::from("/a/b")));
    assert_eq!(st.top(), Some(String::from("/a")));
    assert_eq!(st.len(), 1);
}
