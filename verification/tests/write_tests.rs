use futhorc::page::Page;
use futhorc::post::Post;
use futhorc::slice::Slice;
use futhorc::tag::Tag;
use futhorc::url::UrlBuf;
use futhorc::value::Value;
use futhorc::write::{
    has_tag, index_pages, index_posts, index_to_batch, page_address, page_name, pages, paginate,
    post_pages, posts_to_batch, write_page, Error, Template, Writer,
};

fn post(i: usize, tags: &[&str]) -> Post {
    let index = UrlBuf::new("https://example.org/pages/");
    Post {
        id: format!("post{}", i),
        file_path: format!("/out/posts/post{}.html", i),
        url: UrlBuf::new(&format!("https://example.org/posts/post{}.html", i)),
        title: format!("Post {}", i),
        date: format!("2021-01-{:02}", 28 - i),
        body: format!("<p>{}</p>", i),
        tags: tags.iter().map(|t| Tag::new(t, &index).unwrap()).collect(),
    }
}

fn link(url: &Option<UrlBuf>) -> Option<&str> {
    url.as_ref().map(|u| u.as_str())
}

fn twenty_five() -> Vec<Post> {
    (0..25)
        .map(|i| if i == 3 || i == 9 || i == 24 { post(i, &["x"]) } else { post(i, &[]) })
        .collect()
}

#[test]
fn names_of_pages() {
    assert_eq!(page_name(0), "index");
    assert_eq!(page_name(1), "1");
    assert_eq!(page_name(12), "12");
    let base = UrlBuf::new("https://example.org/pages/");
    assert_eq!(page_address(&base, 0).as_str(), "https://example.org/pages/index.html");
    assert_eq!(page_address(&base, 3).as_str(), "https://example.org/pages/3.html");
    let bare = UrlBuf::new("https://example.org/pages/x");
    assert_eq!(page_address(&bare, 1).as_str(), "https://example.org/pages/x/1.html");
}

#[test]
fn number_of_pages_is_rounded_up() {
    let base = UrlBuf::new("https://example.org/pages/");
    let items: Vec<u32> = (0..25).collect();
    for (n, size, wanted) in [
        (25usize, 10usize, 3usize),
        (20, 10, 2),
        (21, 10, 3),
        (1, 10, 1),
        (10, 1, 10),
        (0, 10, 0),
        (25, 25, 1),
        (25, 26, 1),
        (25, usize::MAX, 1),
    ] {
        let pages = paginate(&items[..n], size, &base).unwrap();
        assert_eq!(pages.len(), wanted, "{} items, {} to a page", n, size);
        let total: usize = pages.iter().map(|p| p.item.len()).sum();
        assert_eq!(total, n);
    }
}

#[test]
fn pages_hold_consecutive_items() {
    let base = UrlBuf::new("https://example.org/pages/");
    let items: Vec<u32> = (0..25).collect();
    let pages = paginate(&items, 10, &base).unwrap();
    assert_eq!(pages[0].item.as_slice(), &items[0..10]);
    assert_eq!(pages[1].item.as_slice(), &items[10..20]);
    assert_eq!(pages[2].item.as_slice(), &items[20..25]);
    let seen: Vec<u32> = pages[2].item.iter().copied().collect();
    assert_eq!(seen, vec![20, 21, 22, 23, 24]);
}

#[test]
fn pages_are_named_and_linked() {
    let base = UrlBuf::new("https://example.org/pages/");
    let items: Vec<u32> = (0..25).collect();
    let pages = paginate(&items, 10, &base).unwrap();
    let ids: Vec<&str> = pages.iter().map(|p| p.id.as_str()).collect();
    assert_eq!(ids, vec!["index", "1", "2"]);
    assert_eq!(link(&pages[0].prev), None);
    assert_eq!(link(&pages[0].next), Some("https://example.org/pages/1.html"));
    assert_eq!(link(&pages[1].prev), Some("https://example.org/pages/index.html"));
    assert_eq!(link(&pages[1].next), Some("https://example.org/pages/2.html"));
    assert_eq!(link(&pages[2].prev), Some("https://example.org/pages/1.html"));
    assert_eq!(link(&pages[2].next), None);
}

#[test]
fn chain_of_index_pages_is_unbroken() {
    let base = UrlBuf::new("https://example.org/pages/");
    let items: Vec<u32> = (0..47).collect();
    let pages = paginate(&items, 4, &base).unwrap();
    assert_eq!(pages.len(), 12);
    for i in 0..pages.len() {
        assert_eq!(pages[i].id, page_name(i));
        if i + 1 < pages.len() {
            assert_eq!(link(&pages[i].next), Some(page_address(&base, i + 1).as_str()));
            assert_eq!(link(&pages[i + 1].prev), Some(page_address(&base, i).as_str()));
        } else {
            assert_eq!(link(&pages[i].next), None);
        }
    }
    assert_eq!(link(&pages[0].prev), None);
}

#[test]
fn page_size_zero_is_refused() {
    let base = UrlBuf::new("https://example.org/pages/");
    let items: Vec<u32> = (0..3).collect();
    assert!(matches!(paginate(&items, 0, &base), Err(Error::PageSize)));
    let none: Vec<u32> = Vec::new();
    assert!(matches!(paginate(&none, 0, &base), Err(Error::PageSize)));
}

#[test]
fn one_page_per_post() {
    let posts: Vec<Post> = (0..4).map(|i| post(i, &[])).collect();
    let pages = post_pages(&posts);
    assert_eq!(pages.len(), 4);
    for i in 0..4 {
        assert_eq!(pages[i].id, posts[i].id);
        assert_eq!(pages[i].item.title, posts[i].title);
        if i == 0 {
            assert_eq!(link(&pages[i].prev), None);
        } else {
            assert_eq!(link(&pages[i].prev), Some(posts[i - 1].url.as_str()));
        }
        if i == 3 {
            assert_eq!(link(&pages[i].next), None);
        } else {
            assert_eq!(link(&pages[i].next), Some(posts[i + 1].url.as_str()));
        }
    }
}

#[test]
fn no_post_and_one_post() {
    let none: Vec<Post> = Vec::new();
    assert_eq!(post_pages(&none).len(), 0);
    let one = vec![post(0, &[])];
    let pages = post_pages(&one);
    assert_eq!(pages.len(), 1);
    assert_eq!(link(&pages[0].prev), None);
    assert_eq!(link(&pages[0].next), None);
}

#[test]
fn posts_are_found_by_tag() {
    let p = post(0, &["Rust", "macOS"]);
    assert!(has_tag(&p, "rust"));
    assert!(has_tag(&p, "macos"));
    assert!(!has_tag(&p, "Rust"));
    assert!(!has_tag(&p, ""));
}

#[test]
fn indices_of_twenty_five_posts() {
    let posts = twenty_five();
    let base = UrlBuf::new("https://example.org/pages/");
    let indices = index_posts(&base, "/out/pages", &posts);
    assert_eq!(indices.len(), 2);

    let main = &indices[0];
    assert_eq!(main.tag, "");
    assert_eq!(main.url.as_str(), "https://example.org/pages/");
    assert_eq!(main.output_directory, "/out/pages");
    assert_eq!(main.posts.len(), 25);
    let pages = main.to_pages(10).unwrap();
    let ids: Vec<&str> = pages.iter().map(|p| p.id.as_str()).collect();
    assert_eq!(ids, vec!["index", "1", "2"]);
    assert_eq!(link(&pages[0].next), Some("https://example.org/pages/1.html"));
    assert_eq!(link(&pages[1].prev), Some("https://example.org/pages/index.html"));
    assert_eq!(link(&pages[1].next), Some("https://example.org/pages/2.html"));
    assert_eq!(link(&pages[2].prev), Some("https://example.org/pages/1.html"));
    assert_eq!(link(&pages[2].next), None);

    let x = &indices[1];
    assert_eq!(x.tag, "x");
    assert_eq!(x.url.as_str(), "https://example.org/pages/x");
    assert_eq!(x.output_directory, "/out/pages/x");
    let ids: Vec<&str> = x.posts.iter().map(|p| p.id.as_str()).collect();
    assert_eq!(ids, vec!["post3", "post9", "post24"]);
    let pages = x.to_pages(10).unwrap();
    assert_eq!(pages.len(), 1);
    assert_eq!(pages[0].id, "index");
    assert_eq!(link(&pages[0].prev), None);
    assert_eq!(link(&pages[0].next), None);
}

#[test]
fn tag_indices_come_in_the_order_of_first_use() {
    let posts = vec![
        post(0, &["b", "a"]),
        post(1, &[]),
        post(2, &["a", "c"]),
        post(3, &["b"]),
    ];
    let base = UrlBuf::new("https://example.org/pages/");
    let indices = index_posts(&base, "/out/pages/", &posts);
    let tags: Vec<&str> = indices.iter().map(|i| i.tag.as_str()).collect();
    assert_eq!(tags, vec!["", "b", "a", "c"]);
    let of = |k: usize| -> Vec<&str> { indices[k].posts.iter().map(|p| p.id.as_str()).collect() };
    assert_eq!(of(0), vec!["post0", "post1", "post2", "post3"]);
    assert_eq!(of(1), vec!["post0", "post3"]);
    assert_eq!(of(2), vec!["post0", "post2"]);
    assert_eq!(of(3), vec!["post2"]);
    assert_eq!(indices[3].output_directory, "/out/pages/c");
    assert_eq!(indices[3].url.as_str(), "https://example.org/pages/c");
}

#[test]
fn no_posts_give_the_main_index_alone() {
    let posts: Vec<Post> = Vec::new();
    let base = UrlBuf::new("https://example.org/pages/");
    let indices = index_posts(&base, "/out/pages", &posts);
    assert_eq!(indices.len(), 1);
    assert_eq!(indices[0].posts.len(), 0);
    assert_eq!(indices[0].to_pages(10).unwrap().len(), 0);
}

fn fields(value: &Value) -> &Vec<(String, Value)> {
    match value {
        Value::Object(fields) => fields,
        other => panic!("no object: {:?}", other),
    }
}

fn text(value: &Value) -> &str {
    match value {
        Value::String(s) => s.as_str(),
        other => panic!("no text: {:?}", other),
    }
}

#[test]
fn page_value_has_item_and_links() {
    let page = Page {
        item: Value::text("it"),
        id: "1".to_owned(),
        prev: Some(UrlBuf::new("https://example.org/pages/index.html")),
        next: None,
    };
    let value = page.to_value();
    let f = fields(&value);
    assert_eq!(f.len(), 3);
    assert_eq!(f[0].0, "item");
    assert_eq!(text(&f[0].1), "it");
    assert_eq!(f[1].0, "prev");
    assert_eq!(text(&f[1].1), "https://example.org/pages/index.html");
    assert_eq!(f[2].0, "next");
    assert!(matches!(f[2].1, Value::Nil));
}

fn writer<'a>(home: &'a UrlBuf, stat: &'a UrlBuf, index: &'a UrlBuf, size: usize) -> Writer<'a> {
    Writer {
        index_base_url: index,
        index_output_directory: "/out/pages",
        index_page_size: size,
        posts_output_directory: "/out/posts",
        home_page: home,
        static_url: stat,
    }
}

#[test]
fn the_whole_site_in_batches() {
    let posts = twenty_five();
    let home = UrlBuf::new("https://example.org/pages/index.html");
    let stat = UrlBuf::new("https://example.org/static/");
    let index = UrlBuf::new("https://example.org/pages/");
    let batches = writer(&home, &stat, &index, 10).write_posts(&posts).unwrap();
    assert_eq!(batches.len(), 3);

    assert_eq!(batches[0].directory, "/out/pages");
    assert_eq!(batches[0].template, Template::Index);
    let paths: Vec<&str> = batches[0].jobs.iter().map(|j| j.file_path.as_str()).collect();
    assert_eq!(paths, vec!["/out/pages/index.html", "/out/pages/1.html", "/out/pages/2.html"]);

    assert_eq!(batches[1].directory, "/out/pages/x");
    assert_eq!(batches[1].template, Template::Index);
    let paths: Vec<&str> = batches[1].jobs.iter().map(|j| j.file_path.as_str()).collect();
    assert_eq!(paths, vec!["/out/pages/x/index.html"]);

    assert_eq!(batches[2].directory, "/out/posts");
    assert_eq!(batches[2].template, Template::Posts);
    assert_eq!(batches[2].jobs.len(), 25);
    assert_eq!(batches[2].jobs[24].file_path, "/out/posts/post24.html");

    let context = fields(&batches[0].jobs[1].context);
    let names: Vec<&str> = context.iter().map(|(k, _)| k.as_str()).collect();
    assert_eq!(names, vec!["page", "home_page", "static_url"]);
    assert_eq!(text(&context[1].1), "https://example.org/pages/index.html");
    assert_eq!(text(&context[2].1), "https://example.org/static/");
    let page = fields(&context[0].1);
    assert_eq!(text(&page[1].1), "https://example.org/pages/index.html");
    assert_eq!(text(&page[2].1), "https://example.org/pages/2.html");
    match &page[0].1 {
        Value::Array(items) => {
            assert_eq!(items.len(), 10);
            assert_eq!(text(&fields(&items[0])[1].1), "Post 10");
            assert_eq!(fields(&items[0])[3].0, "summary");
        }
        other => panic!("no list: {:?}", other),
    }

    let context = fields(&batches[2].jobs[3].context);
    let page = fields(&context[0].1);
    assert_eq!(text(&fields(&page[0].1)[3].1), "<p>3</p>");
    assert_eq!(text(&page[1].1), "https://example.org/posts/post2.html");
    assert_eq!(text(&page[2].1), "https://example.org/posts/post4.html");
}

#[test]
fn a_site_needs_a_page_size() {
    let posts = twenty_five();
    let home = UrlBuf::new("https://example.org/pages/index.html");
    let stat = UrlBuf::new("https://example.org/static/");
    let index = UrlBuf::new("https://example.org/pages/");
    assert!(matches!(writer(&home, &stat, &index, 0).write_posts(&posts), Err(Error::PageSize)));
    assert!(matches!(
        index_pages(&posts, &index, "/out/pages", 0, &home, &stat),
        Err(Error::PageSize)
    ));
    let none: Vec<Post> = Vec::new();
    assert!(matches!(writer(&home, &stat, &index, 0).write_posts(&none), Err(Error::PageSize)));
}

#[test]
fn a_slice_lends_its_items() {
    let items = [1, 2, 3];
    let slice = Slice::new(&items);
    assert_eq!(slice.len(), 3);
    assert_eq!(slice.iter().sum::<i32>(), 6);
    assert_eq!(slice.as_slice(), &items[..]);
}

#[test]
fn a_page_becomes_a_job() {
    let home = UrlBuf::new("https://example.org/");
    let stat = UrlBuf::new("https://example.org/static/");
    let index = UrlBuf::new("https://example.org/pages/");
    let page = || Page {
        item: Value::text("it"),
        id: "7".to_owned(),
        prev: None,
        next: Some(UrlBuf::new("https://example.org/pages/8.html")),
    };
    let job = writer(&home, &stat, &index, 10).write_page(page(), "/out/pages/x/");
    assert_eq!(job.file_path, "/out/pages/x/7.html");
    let context = fields(&job.context);
    assert_eq!(context.len(), 3);
    assert_eq!(context[0].0, "page");
    let inner = fields(&context[0].1);
    assert_eq!(text(&inner[0].1), "it");
    assert!(matches!(inner[1].1, Value::Nil));
    assert_eq!(text(&inner[2].1), "https://example.org/pages/8.html");
    assert_eq!(text(&context[1].1), "https://example.org/");
    assert_eq!(text(&context[2].1), "https://example.org/static/");
    let same = write_page(page(), "/out/pages/x", &home, &stat);
    assert_eq!(same.file_path, "/out/pages/x/7.html");
}

#[test]
fn the_batches_one_by_one() {
    let posts = twenty_five();
    let home = UrlBuf::new("https://example.org/");
    let stat = UrlBuf::new("https://example.org/static/");
    let index = UrlBuf::new("https://example.org/pages/");
    let indices = index_posts(&index, "/out/pages", &posts);
    let batch = index_to_batch(&indices[1], 2, &home, &stat).unwrap();
    assert_eq!(batch.directory, "/out/pages/x");
    let paths: Vec<&str> = batch.jobs.iter().map(|j| j.file_path.as_str()).collect();
    assert_eq!(paths, vec!["/out/pages/x/index.html", "/out/pages/x/1.html"]);
    assert!(matches!(index_to_batch(&indices[1], 0, &home, &stat), Err(Error::PageSize)));
    let batch = posts_to_batch(&posts[..2], "/out/posts", &home, &stat);
    let paths: Vec<&str> = batch.jobs.iter().map(|j| j.file_path.as_str()).collect();
    assert_eq!(paths, vec!["/out/posts/post0.html", "/out/posts/post1.html"]);
    let all = pages(&writer(&home, &stat, &index, 25), &posts).unwrap();
    let sizes: Vec<usize> = all.iter().map(|b| b.jobs.len()).collect();
    assert_eq!(sizes, vec![1, 1, 25]);
    let batches = index_pages(&posts, &index, "/out/pages", 5, &home, &stat).unwrap();
    let sizes: Vec<usize> = batches.iter().map(|b| b.jobs.len()).collect();
    assert_eq!(sizes, vec![5, 1]);
}

#[test]
fn no_two_pages_of_an_index_share_a_file() {
    let base = UrlBuf::new("https://example.org/pages/");
    let items: Vec<u32> = (0..230).collect();
    let pages = paginate(&items, 2, &base).unwrap();
    let mut names: Vec<&str> = pages.iter().map(|p| p.id.as_str()).collect();
    names.sort();
    names.dedup();
    assert_eq!(names.len(), 115);
}

#[test]
fn write_errors_say_what_went_wrong() {
    assert_eq!(Error::PageSize.message(), "The number of posts per index page must be at least 1");
    assert_eq!(
        futhorc::markdown::Error::UrlParse(futhorc::url::UrlError::RelativeUrlWithoutBase)
            .message(),
        "relative URL without a base"
    );
}
