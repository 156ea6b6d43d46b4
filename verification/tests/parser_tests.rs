use futhorc::markdown::{Event, LinkType, Tag};
use futhorc::parser::{
    frontmatter_indices, post_id, source_parts, Error, Frontmatter, Parser, Source,
};
use futhorc::url::{UrlBuf, UrlError};

const SOURCE: &str = "---\nTitle: x\n---\nbody";

#[test]
fn front_matter_is_found() {
    assert!(matches!(frontmatter_indices(SOURCE), Ok((3, 13, 16))));
    assert!(matches!(frontmatter_indices("------"), Ok((3, 3, 6))));
    assert!(matches!(frontmatter_indices("---é---é"), Ok((3, 4, 7))));
    assert!(matches!(frontmatter_indices("---a------b"), Ok((3, 4, 7))));
}

#[test]
fn a_source_begins_with_a_fence() {
    assert!(matches!(frontmatter_indices("Title: x\n---\n"), Err(Error::FrontmatterMissingStartFence)));
    assert!(matches!(frontmatter_indices(""), Err(Error::FrontmatterMissingStartFence)));
    assert!(matches!(frontmatter_indices("--"), Err(Error::FrontmatterMissingStartFence)));
    assert!(matches!(frontmatter_indices(" ---\n---"), Err(Error::FrontmatterMissingStartFence)));
    match source_parts("hello", "x") {
        Err(Error::Annotated(note, cause)) => {
            assert_eq!(note, "parsing post `hello`");
            assert!(matches!(*cause, Error::FrontmatterMissingStartFence));
        }
        other => panic!("no annotated error: {:?}", other),
    }
}

#[test]
fn a_fence_ends_the_front_matter() {
    assert!(matches!(frontmatter_indices("---\nTitle: x\n"), Err(Error::FrontmatterMissingEndFence)));
    assert!(matches!(frontmatter_indices("---"), Err(Error::FrontmatterMissingEndFence)));
    assert!(matches!(frontmatter_indices("-----"), Err(Error::FrontmatterMissingEndFence)));
    match source_parts("a/b", "---\n--\n") {
        Err(Error::Annotated(note, cause)) => {
            assert_eq!(note, "parsing post `a/b`");
            assert!(matches!(*cause, Error::FrontmatterMissingEndFence));
        }
        other => panic!("no annotated error: {:?}", other),
    }
}

#[test]
fn a_source_has_two_parts() {
    let (yaml, body) = source_parts("x", SOURCE).unwrap();
    assert_eq!(yaml, "\nTitle: x\n");
    assert_eq!(body, "\nbody");
    let (yaml, body) = source_parts("x", "------").unwrap();
    assert_eq!(yaml, "");
    assert_eq!(body, "");
    let (yaml, body) = source_parts("x", "---é---è---").unwrap();
    assert_eq!(yaml, "é");
    assert_eq!(body, "è---");
}

#[test]
fn names_of_posts() {
    assert_eq!(post_id("hello.md"), Some("hello".to_owned()));
    assert_eq!(post_id("a.md.md"), Some("a".to_owned()));
    assert_eq!(post_id("a.b.md"), Some("a.b".to_owned()));
    assert_eq!(post_id(".md"), Some("".to_owned()));
    assert_eq!(post_id("notes.txt"), None);
    assert_eq!(post_id("md"), None);
    assert_eq!(post_id("a.md.txt"), None);
    assert_eq!(post_id(""), None);
}

fn frontmatter() -> Frontmatter {
    Frontmatter {
        title: "Hello, world!".to_owned(),
        date: "2021-04-16".to_owned(),
        tags: vec!["Greet".to_owned(), "greet".to_owned(), "---".to_owned(), "macOS".to_owned()],
    }
}

#[test]
fn a_post_is_made() {
    let index = UrlBuf::parse("https://example.org/pages/").unwrap();
    let posts = UrlBuf::parse("https://example.org/posts/").unwrap();
    let parser = Parser::new(&index, &posts, "/out/posts");
    let events = vec![
        Event::Start(Tag::Heading(1)),
        Event::Text("Hello".to_owned()),
        Event::End(Tag::Heading(1)),
        Event::Start(Tag::Link(LinkType::Inline, "other.md".to_owned(), "".to_owned())),
        Event::End(Tag::Link(LinkType::Inline, "other.md".to_owned(), "".to_owned())),
        Event::FootnoteReference("n".to_owned()),
    ];
    let post = parser
        .parse_post(Source {
            id: "hello".to_owned(),
            path: "hello.md".to_owned(),
            frontmatter: frontmatter(),
            events,
        })
        .unwrap();
    assert_eq!(post.id, "hello");
    assert_eq!(post.title, "Hello, world!");
    assert_eq!(post.date, "2021-04-16");
    assert_eq!(post.file_path, "/out/posts/hello.html");
    assert_eq!(post.url.as_str(), "https://example.org/posts/hello.html");
    let tags: Vec<(&str, &str)> =
        post.tags.iter().map(|t| (t.name.as_str(), t.url.as_str())).collect();
    assert_eq!(
        tags,
        vec![
            ("greet", "https://example.org/pages/greet/index.html"),
            ("macos", "https://example.org/pages/macos/index.html"),
        ]
    );
    assert_eq!(
        post.body,
        "<h3>Hello</h1><a href=\"https://example.org/posts/other.html\" title=\"\"></a>\
         <sup class=\"footnote-reference\">\
         <a href=\"https://example.org/posts/hello.html#n\">n</a></sup>"
    );
}

#[test]
fn the_address_of_a_post_is_in_normal_form() {
    let index = UrlBuf::parse("https://example.org/pages/").unwrap();
    let posts = UrlBuf::parse("https://example.org/posts/").unwrap();
    let parser = Parser::new(&index, &posts, "/out/posts/");
    let post = parser
        ._parse_post(Source {
            id: "my post".to_owned(),
            path: "my post.md".to_owned(),
            frontmatter: frontmatter(),
            events: Vec::new(),
        })
        .unwrap();
    assert_eq!(post.url.as_str(), "https://example.org/posts/my%20post.html");
    assert_eq!(post.file_path, "/out/posts/my post.html");
    assert_eq!(post.body, "");
}

#[test]
fn an_error_names_the_post() {
    let index = UrlBuf::parse("https://example.org/pages/").unwrap();
    let posts = UrlBuf::parse("https://example.org/posts/").unwrap();
    let parser = Parser::new(&index, &posts, "/out/posts");
    let bad = || Source {
        id: "hello".to_owned(),
        path: "hello.md".to_owned(),
        frontmatter: frontmatter(),
        events: vec![Event::Start(Tag::Link(
            LinkType::Inline,
            "https://[bad".to_owned(),
            "".to_owned(),
        ))],
    };
    match parser.parse_post(bad()) {
        Err(Error::Annotated(note, cause)) => {
            assert_eq!(note, "parsing post `hello`");
            assert!(matches!(*cause, Error::UrlParse(UrlError::Invalid)));
        }
        other => panic!("no annotated error: {:?}", other.map(|p| p.id)),
    }
    assert!(matches!(parser._parse_post(bad()), Err(Error::UrlParse(UrlError::Invalid))));
}

#[test]
fn a_post_needs_an_address() {
    let index = UrlBuf::parse("https://example.org/pages/").unwrap();
    let posts = UrlBuf::new("posts/");
    let parser = Parser::new(&index, &posts, "/out/posts");
    let source = Source {
        id: "hello".to_owned(),
        path: "hello.md".to_owned(),
        frontmatter: frontmatter(),
        events: Vec::new(),
    };
    assert!(matches!(
        parser._parse_post(source),
        Err(Error::UrlParse(UrlError::RelativeUrlWithoutBase))
    ));
}

fn source(id: &str, date: &str, link: &str) -> Source {
    Source {
        id: id.to_owned(),
        path: format!("{}.md", id),
        frontmatter: Frontmatter {
            title: id.to_owned(),
            date: date.to_owned(),
            tags: Vec::new(),
        },
        events: vec![Event::Start(Tag::Link(LinkType::Inline, link.to_owned(), "".to_owned()))],
    }
}

#[test]
fn posts_are_made_and_sorted() {
    let index = UrlBuf::parse("https://example.org/pages/").unwrap();
    let posts = UrlBuf::parse("https://example.org/posts/").unwrap();
    let parser = Parser::new(&index, &posts, "/out/posts");
    let sources = vec![
        source("a", "2021-01-02", "b.md"),
        source("b", "2021-03-01", "a.md"),
        source("c", "2021-01-02", "x.png"),
        source("d", "2021-03-01", "https://remote.org/"),
    ];
    let made = parser.parse_posts(sources).unwrap();
    let ids: Vec<&str> = made.iter().map(|p| p.id.as_str()).collect();
    assert_eq!(ids, vec!["b", "d", "a", "c"]);
    assert_eq!(made[0].body, "<a href=\"https://example.org/posts/a.html\" title=\"\">");
    assert_eq!(made[3].url.as_str(), "https://example.org/posts/c.html");
    assert_eq!(parser.parse_posts(Vec::new()).unwrap().len(), 0);
}

#[test]
fn the_first_bad_source_ends_the_work() {
    let index = UrlBuf::parse("https://example.org/pages/").unwrap();
    let posts = UrlBuf::parse("https://example.org/posts/").unwrap();
    let parser = Parser::new(&index, &posts, "/out/posts");
    let sources = vec![
        source("a", "2021-01-02", "b.md"),
        source("b", "2021-03-01", "https://[bad"),
        source("c", "2021-01-02", "https://[worse"),
    ];
    match parser.parse_posts(sources) {
        Err(Error::Annotated(note, cause)) => {
            assert_eq!(note, "parsing post `b`");
            assert!(matches!(*cause, Error::UrlParse(UrlError::Invalid)));
        }
        other => panic!("no annotated error: {:?}", other.map(|p| p.len())),
    }
}

#[test]
fn the_links_of_a_bundle_lead_into_the_bundle() {
    let index = UrlBuf::parse("https://example.org/pages/").unwrap();
    let posts = UrlBuf::parse("https://example.org/posts/").unwrap();
    let parser = Parser::new(&index, &posts, "/out/posts");
    let link = |to: &str| {
        Event::Start(Tag::Link(LinkType::Inline, to.to_owned(), "".to_owned()))
    };
    let bundle = Source {
        id: "trip".to_owned(),
        path: "trip/index.md".to_owned(),
        frontmatter: frontmatter(),
        events: vec![link("map.png"), link("../hello.md"), link("index.md")],
    };
    let post = parser.parse_post(bundle).unwrap();
    assert_eq!(post.url.as_str(), "https://example.org/posts/trip.html");
    assert_eq!(post.file_path, "/out/posts/trip.html");
    assert_eq!(
        post.body,
        "<a href=\"https://example.org/posts/trip/map.png\" title=\"\">\
         <a href=\"https://example.org/posts/hello.html\" title=\"\">\
         <a href=\"https://example.org/posts/trip.html\" title=\"\">"
    );
}

#[test]
fn parser_errors_say_what_went_wrong() {
    assert_eq!(Error::FrontmatterMissingStartFence.message(), "Post must begin with `---`");
    assert_eq!(Error::FrontmatterMissingEndFence.message(), "Missing closing `---`");
    assert_eq!(Error::UrlParse(UrlError::Invalid).message(), "invalid URL");
    assert_eq!(
        Error::UrlParse(UrlError::RelativeUrlWithoutBase).message(),
        "relative URL without a base"
    );
    let inner = Error::Annotated(
        "reading the body".to_owned(),
        Box::new(Error::UrlParse(UrlError::Invalid)),
    );
    let outer = Error::Annotated("parsing post `hello`".to_owned(), Box::new(inner));
    assert_eq!(outer.message(), "parsing post `hello`: reading the body: invalid URL");
    match source_parts("hello", "no fence") {
        Err(e) => assert_eq!(e.message(), "parsing post `hello`: Post must begin with `---`"),
        Ok(_) => panic!("a source without a fence was read"),
    }
}
