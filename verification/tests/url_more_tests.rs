use futhorc::normalize_url::{convert, md2html, replace_suffix};
use futhorc::url::{join_text, rewrite_reference, Converter, UrlBuf, UrlError};

#[test]
fn addresses_are_read_into_normal_form() {
    assert_eq!(
        UrlBuf::parse("https://example.org/a/../b/./c.md").unwrap().as_str(),
        "https://example.org/b/c.md"
    );
    assert_eq!(UrlBuf::parse("HTTPS://Example.ORG").unwrap().as_str(), "https://example.org/");
    assert_eq!(UrlBuf::parse("foo.md").unwrap_err(), UrlError::RelativeUrlWithoutBase);
    assert_eq!(UrlBuf::parse("https://[bad").unwrap_err(), UrlError::Invalid);
    assert_eq!(UrlBuf::parse("https://example.org:99999/").unwrap_err(), UrlError::Invalid);
}

#[test]
fn addresses_are_taken_as_they_are() {
    let url = UrlBuf::new("https://example.org/a/../b");
    assert_eq!(url.as_str(), "https://example.org/a/../b");
    assert_eq!(url.to_string(), "https://example.org/a/../b");
    assert_eq!(url.clone().as_str(), "https://example.org/a/../b");
}

#[test]
fn segments_are_put_below_an_address() {
    assert_eq!(
        UrlBuf::new("https://example.org/pages/").join("1.html").as_str(),
        "https://example.org/pages/1.html"
    );
    assert_eq!(
        UrlBuf::new("https://example.org/pages").join("1.html").as_str(),
        "https://example.org/pages/1.html"
    );
    assert_eq!(UrlBuf::new("").join("x").as_str(), "/x");
    assert_eq!(join_text("/out", "posts"), "/out/posts");
    assert_eq!(join_text("/out/", "posts"), "/out/posts");
    assert_eq!(join_text("/", ""), "/");
}

#[test]
fn references_are_resolved_against_an_address() {
    let base = UrlBuf::parse("https://example.org/a/b.html").unwrap();
    assert_eq!(base.resolve("c.png").unwrap().as_str(), "https://example.org/a/c.png");
    assert_eq!(base.resolve("../c d").unwrap().as_str(), "https://example.org/c%20d");
    assert_eq!(base.resolve("https://other.org").unwrap().as_str(), "https://other.org/");
    assert_eq!(base.resolve("https://[bad").unwrap_err(), UrlError::Invalid);
    let none = UrlBuf::new("not an address");
    assert_eq!(none.resolve("c.png").unwrap_err(), UrlError::RelativeUrlWithoutBase);
}

#[test]
fn suffixes_are_replaced_once() {
    assert_eq!(replace_suffix("a.md", ".md", ".html"), Some("a.html".to_owned()));
    assert_eq!(replace_suffix("a.md.md", ".md", ".html"), Some("a.md.html".to_owned()));
    assert_eq!(replace_suffix("a.mdx", ".md", ".html"), None);
    assert_eq!(replace_suffix("md", ".md", ".html"), None);
    assert_eq!(replace_suffix(".md", ".md", ""), Some("".to_owned()));
    assert_eq!(replace_suffix("abc", "", "d"), Some("abcd".to_owned()));
}

#[test]
fn sources_become_pages() {
    assert_eq!(md2html("foo.md"), "foo.html");
    assert_eq!(md2html("sub/index.md"), "sub.html");
    assert_eq!(md2html("a/b/index.md"), "a/b.html");
    assert_eq!(md2html("a/b/c.md"), "a/b/c.html");
    assert_eq!(md2html("index.md"), "index.html");
    assert_eq!(md2html("/index.md"), "index.html");
    assert_eq!(md2html("//sub/index.md"), "sub.html");
    assert_eq!(md2html("image.jpg"), "image.jpg");
    assert_eq!(md2html("/image.jpg"), "/image.jpg");
    assert_eq!(md2html("foo.md#part"), "foo.md#part");
    assert_eq!(md2html(""), "");
}

#[test]
fn bundles_are_recognized() {
    assert_eq!(Converter::parse_bundle_base("post/index.md"), Some("post".to_owned()));
    assert_eq!(Converter::parse_bundle_base("a/b/index.md"), Some("a/b".to_owned()));
    assert_eq!(Converter::parse_bundle_base("index.md"), None);
    assert_eq!(Converter::parse_bundle_base("post/index.html"), None);
    assert_eq!(Converter::parse_bundle_base("/index.md"), Some("".to_owned()));
}

#[test]
fn references_are_rewritten_or_left_alone() {
    assert_eq!(rewrite_reference(Some("foo.md")), Some("foo.html".to_owned()));
    assert_eq!(rewrite_reference(Some("post/index.md")), Some("post.html".to_owned()));
    assert_eq!(rewrite_reference(Some("../foo.md")), None);
    assert_eq!(rewrite_reference(Some("..foo.md")), Some("..foo.html".to_owned()));
    assert_eq!(rewrite_reference(Some("foo.html")), None);
    assert_eq!(rewrite_reference(Some("image.jpg")), None);
    assert_eq!(rewrite_reference(Some("")), None);
    assert_eq!(rewrite_reference(None), None);
}

#[test]
fn links_to_pages_stay_as_they_are() {
    let root = UrlBuf::parse("https://example.org/posts/").unwrap();
    let converter = Converter::new(&root, "bar.md").unwrap();
    for link in [
        "https://example.org/posts/foo.html",
        "https://example.org/posts/sub.html",
        "https://example.org/posts/post/image.jpg",
        "https://example.org/index.html",
        "https://remote.org/x.md",
    ] {
        assert_eq!(converter.convert(link).unwrap(), link);
    }
    assert_eq!(
        converter.convert("https://example.org/posts/a/../foo.html").unwrap(),
        "https://example.org/posts/foo.html"
    );
    let once = converter.convert("sub/index.md").unwrap();
    assert_eq!(once, "https://example.org/posts/sub.html");
    assert_eq!(converter.convert(&once).unwrap(), once);
}

#[test]
fn links_from_a_post_and_from_a_bundle() {
    let root = UrlBuf::parse("https://example.org/posts/").unwrap();
    assert_eq!(convert(&root, "bar.md", "foo.md").unwrap(), "https://example.org/posts/foo.html");
    assert_eq!(
        convert(&root, "bar.md", "sub/index.md").unwrap(),
        "https://example.org/posts/sub.html"
    );
    assert_eq!(
        convert(&root, "post/index.md", "image.jpg").unwrap(),
        "https://example.org/posts/post/image.jpg"
    );
    assert_eq!(
        convert(&root, "bar.md", "a/b/index.md").unwrap(),
        "https://example.org/posts/a/b.html"
    );
    assert_eq!(
        convert(&root, "bar.md", "../other/foo.md").unwrap(),
        "https://example.org/other/foo.md"
    );
}

#[test]
fn links_that_are_no_addresses_are_refused() {
    let root = UrlBuf::parse("https://example.org/posts/").unwrap();
    let converter = Converter::new(&root, "bar.md").unwrap();
    assert_eq!(converter.convert("https://[bad").unwrap_err(), UrlError::Invalid);
    assert_eq!(converter.convert("http://exa mple.org/").unwrap_err(), UrlError::Invalid);
    assert_eq!(convert(&root, "bar.md", "https://[bad").unwrap_err(), UrlError::Invalid);
    let none = UrlBuf::new("posts/");
    assert!(matches!(Converter::new(&none, "bar.md"), Err(UrlError::RelativeUrlWithoutBase)));
    assert_eq!(
        convert(&none, "bar.md", "foo.md").unwrap_err(),
        UrlError::RelativeUrlWithoutBase
    );
    let mail = UrlBuf::parse("mailto:me@example.org").unwrap();
    assert!(matches!(Converter::new(&mail, "bar.md"), Err(UrlError::Invalid)));
}

#[test]
fn the_parts_of_resolution() {
    let root = UrlBuf::parse("https://example.org/posts/").unwrap();
    let converter = Converter::new(&root, "post/index.md").unwrap();
    assert_eq!(
        converter.convert_unknown("foo.md").unwrap().as_str(),
        "https://example.org/posts/post/foo.html"
    );
    assert_eq!(
        converter
            .convert_absolute(UrlBuf::parse("https://example.org/posts/x/index.md").unwrap())
            .unwrap()
            .as_str(),
        "https://example.org/posts/x.html"
    );
    assert_eq!(
        converter.convert_absolute(UrlBuf::new("not an address")).unwrap().as_str(),
        "not an address"
    );
}
