use futhorc::normalize_url::convert;
use futhorc::url::{UrlBuf, UrlError};

struct TestCase {
    posts_url: UrlBuf,
    base: &'static str,
    url: &'static str,
    wanted: &'static str,
}

fn convert_test(test_case: &TestCase) -> Result<(), UrlError> {
    let result = convert(&test_case.posts_url, test_case.base, test_case.url)?;
    assert_eq!(
        test_case.wanted, result,
        "wanted \"{}\"; found \"{}\"",
        test_case.wanted, result
    );
    Ok(())
}

#[test]
fn test_convert_absolute_url_to_unbundled_post() -> Result<(), UrlError> {
    convert_test(&TestCase {
        posts_url: UrlBuf::parse("https://example.org/posts/")?,
        base: "base.html",
        url: "https://example.org/posts/post.md",
        wanted: "https://example.org/posts/post.html",
    })
}

#[test]
fn test_convert_relative_url_to_unbundled_post() -> Result<(), UrlError> {
    convert_test(&TestCase {
        posts_url: UrlBuf::parse("https://example.org/posts/")?,
        base: "base.html",
        url: "post.md",
        wanted: "https://example.org/posts/post.html",
    })
}

#[test]
fn test_convert_relative_url_to_unbundled_post_leading_dotslash() -> Result<(), UrlError> {
    convert_test(&TestCase {
        posts_url: UrlBuf::parse("https://example.org/posts/")?,
        base: "base.html",
        url: "./post.md",
        wanted: "https://example.org/posts/post.html",
    })
}

#[test]
fn test_convert_absolute_url_to_bundled_post() -> Result<(), UrlError> {
    convert_test(&TestCase {
        posts_url: UrlBuf::parse("https://example.org/posts/")?,
        base: ".",
        url: "https://example.org/posts/post/index.md",
        wanted: "https://example.org/posts/post.html",
    })
}

#[test]
fn test_convert_relative_url_to_bundled_post() -> Result<(), UrlError> {
    convert_test(&TestCase {
        posts_url: UrlBuf::parse("https://example.org/posts/")?,
        base: "base.html",
        url: "post/index.md",
        wanted: "https://example.org/posts/post.html",
    })
}

#[test]
fn test_convert_relative_url_to_bundled_post_leading_dotslash() -> Result<(), UrlError> {
    convert_test(&TestCase {
        posts_url: UrlBuf::parse("https://example.org/posts/")?,
        base: "base.html",
        url: "./post/index.md",
        wanted: "https://example.org/posts/post.html",
    })
}

#[test]
fn test_convert_relative_url_to_unbundled_post_from_bundle() -> Result<(), UrlError> {
    convert_test(&TestCase {
        posts_url: UrlBuf::parse("https://example.org/posts/")?,
        base: "post/index.md",
        url: "../foo.md",
        wanted: "https://example.org/posts/foo.html",
    })
}

#[test]
fn test_convert_relative_url_to_bundled_post_from_bundle() -> Result<(), UrlError> {
    convert_test(&TestCase {
        posts_url: UrlBuf::parse("https://example.org/posts/")?,
        base: "post/index.md",
        url: "foo.jpg",
        wanted: "https://example.org/posts/post/foo.jpg",
    })
}

#[test]
fn test_convert_indirect_relative_url_to_bundle_from_bundle() -> Result<(), UrlError> {
    convert_test(&TestCase {
        posts_url: UrlBuf::parse("https://example.org/posts/")?,
        base: "post/index.md",
        url: "../post/foo.jpg",
        wanted: "https://example.org/posts/post/foo.jpg",
    })
}

#[test]
fn test_convert_from_bundle_to_same_bundle() -> Result<(), UrlError> {
    convert_test(&TestCase {
        posts_url: UrlBuf::parse("https://example.org/posts/")?,
        base: "post/",
        url: "index.md",
        wanted: "https://example.org/posts/post.html",
    })
}

#[test]
fn test_convert_from_bundle_to_same_bundle_indirect() -> Result<(), UrlError> {
    convert_test(&TestCase {
        posts_url: UrlBuf::parse("https://example.org/posts/")?,
        base: "post/",
        url: "../post/index.md",
        wanted: "https://example.org/posts/post.html",
    })
}
