use futhorc::tag::{collect_tags, slug, Tag};
use futhorc::url::UrlBuf;

#[test]
fn slug_ignores_case_and_punctuation() {
    assert_eq!(slug("MacOS"), "macos");
    assert_eq!(slug("mac-os"), "macos");
    assert_eq!(slug("macOS"), "macos");
    assert_eq!(slug("MacOS"), slug("mac-os"));
    assert_eq!(slug("mac-os"), slug("macOS"));
}

#[test]
fn slug_is_idempotent() {
    for name in ["MacOS", "Hello, World!", "rust 2021", "", "---", "a_b"] {
        let once = slug(name);
        assert_eq!(slug(&once), once);
    }
}

#[test]
fn slug_keeps_digits_and_drops_the_rest() {
    assert_eq!(slug("Rust 2021!"), "rust2021");
    assert_eq!(slug("C++"), "c");
    assert_eq!(slug("Zürich"), "zrich");
    assert_eq!(slug("@Z[`{"), "z");
    assert_eq!(slug("/09:"), "09");
    assert_eq!(slug(""), "");
}

#[test]
fn slug_of_a_concatenation() {
    assert_eq!(slug("Mac OS"), format!("{}{}", slug("Mac"), slug(" OS")));
}

#[test]
fn tag_has_slug_and_index_address() {
    let index = UrlBuf::new("https://example.org/pages/");
    let tag = Tag::new("MacOS", &index).unwrap();
    assert_eq!(tag.name, "macos");
    assert_eq!(tag.url.as_str(), "https://example.org/pages/macos/index.html");
}

#[test]
fn tag_address_gets_a_slash_where_the_root_has_none() {
    let index = UrlBuf::new("https://example.org/pages");
    let tag = Tag::new("go", &index).unwrap();
    assert_eq!(tag.url.as_str(), "https://example.org/pages/go/index.html");
}

#[test]
fn empty_slug_is_no_tag() {
    let index = UrlBuf::new("https://example.org/pages/");
    assert!(Tag::new("---", &index).is_none());
    assert!(Tag::new("", &index).is_none());
}

#[test]
fn tags_are_equal_by_slug() {
    let one = Tag::new("macOS", &UrlBuf::new("https://a.example/")).unwrap();
    let other = Tag::new("MacOS", &UrlBuf::new("https://b.example/")).unwrap();
    assert!(one == other);
    let third = Tag::new("linux", &UrlBuf::new("https://a.example/")).unwrap();
    assert!(one != third);
}

#[test]
fn collected_tags_are_distinct_and_in_order() {
    let index = UrlBuf::new("https://example.org/pages/");
    let names = vec![
        "Rust".to_owned(),
        "macOS".to_owned(),
        "!!".to_owned(),
        "rust".to_owned(),
        "MacOS".to_owned(),
        "go".to_owned(),
    ];
    let tags = collect_tags(&names, &index);
    let slugs: Vec<&str> = tags.iter().map(|t| t.name.as_str()).collect();
    assert_eq!(slugs, vec!["rust", "macos", "go"]);
    assert_eq!(tags[2].url.as_str(), "https://example.org/pages/go/index.html");
}
