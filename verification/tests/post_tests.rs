use futhorc::post::Post;
use futhorc::tag::Tag;
use futhorc::url::UrlBuf;
use futhorc::value::Value;

fn post(body: &str) -> Post {
    let index = UrlBuf::new("https://example.org/pages/");
    Post {
        id: "hello".to_owned(),
        file_path: "/out/posts/hello.html".to_owned(),
        url: UrlBuf::new("https://example.org/posts/hello.html"),
        title: "Hello".to_owned(),
        date: "2021-04-16".to_owned(),
        body: body.to_owned(),
        tags: vec![Tag::new("Greet", &index).unwrap(), Tag::new("rust", &index).unwrap()],
    }
}

fn text(value: &Value) -> &str {
    match value {
        Value::String(s) => s.as_str(),
        other => panic!("no text: {:?}", other),
    }
}

fn fields(value: &Value) -> &Vec<(String, Value)> {
    match value {
        Value::Object(fields) => fields,
        other => panic!("no object: {:?}", other),
    }
}

#[test]
fn summary_ends_at_the_marker() {
    let p = post("<p>above</p><!-- more --><p>below</p>");
    assert_eq!(p.summary(), ("<p>above</p>", true));
}

#[test]
fn summary_ends_at_the_first_marker() {
    let p = post("a<!-- more -->b<!-- more -->c");
    assert_eq!(p.summary(), ("a", true));
}

#[test]
fn summary_is_the_body_without_a_marker() {
    let p = post("<p>all of it</p><!-- more");
    assert_eq!(p.summary(), ("<p>all of it</p><!-- more", false));
    assert_eq!(post("").summary(), ("", false));
}

#[test]
fn summary_counts_characters_not_bytes() {
    let p = post("héé<!-- more -->x");
    assert_eq!(p.summary(), ("héé", true));
}

#[test]
fn full_post_value() {
    let p = post("<p>body</p><!-- more -->rest");
    let value = p.to_value();
    let f = fields(&value);
    let names: Vec<&str> = f.iter().map(|(k, _)| k.as_str()).collect();
    assert_eq!(names, vec!["url", "title", "date", "body", "tags"]);
    assert_eq!(text(&f[0].1), "https://example.org/posts/hello.html");
    assert_eq!(text(&f[1].1), "Hello");
    assert_eq!(text(&f[2].1), "2021-04-16");
    assert_eq!(text(&f[3].1), "<p>body</p><!-- more -->rest");
    match &f[4].1 {
        Value::Array(tags) => {
            assert_eq!(tags.len(), 2);
            let first = fields(&tags[0]);
            assert_eq!(first[0].0, "tag");
            assert_eq!(text(&first[0].1), "greet");
            assert_eq!(first[1].0, "url");
            assert_eq!(text(&first[1].1), "https://example.org/pages/greet/index.html");
            assert_eq!(text(&fields(&tags[1])[0].1), "rust");
        }
        other => panic!("no list: {:?}", other),
    }
}

#[test]
fn summary_value() {
    let p = post("<p>body</p><!-- more -->rest");
    let value = p.summarize();
    let f = fields(&value);
    let names: Vec<&str> = f.iter().map(|(k, _)| k.as_str()).collect();
    assert_eq!(names, vec!["url", "title", "date", "summary", "summarized", "tags"]);
    assert_eq!(text(&f[3].1), "<p>body</p>");
    assert!(matches!(f[4].1, Value::Bool(true)));
    let whole = post("<p>body</p>").summarize();
    assert_eq!(text(&fields(&whole)[3].1), "<p>body</p>");
    assert!(matches!(fields(&whole)[4].1, Value::Bool(false)));
}

#[test]
fn link_values() {
    assert!(matches!(Value::from_link(&None), Value::Nil));
    let some = Value::from_link(&Some(UrlBuf::new("https://example.org/")));
    assert_eq!(text(&some), "https://example.org/");
}
