//! Posts, and what a template sees of them.

use vstd::prelude::*;
use crate::tag::Tag;
use crate::text::{absent, chars_of, find, first_occurrence, lemma_first_occurrence_unique};
use crate::url::UrlBuf;
use crate::value::{Node, Value, tag_node};

verus! {

/// A blog post.
#[derive(Debug)]
pub struct Post {
    /// The path of the source below the posts directory, without its extension.
    pub id: String,
    /// The path of the file that the post's page is written to.
    pub file_path: String,
    /// The address of the post's page.
    pub url: UrlBuf,
    /// The title of the post.
    pub title: String,
    /// The date of the post: a text that sorts as the dates do.
    pub date: String,
    /// The body of the post, as HTML.
    pub body: String,
    /// The tags of the post, none of them twice.
    pub tags: Vec<Tag>,
}

/// The text that ends a post's summary.
pub open spec fn summary_marker() -> Seq<char> {
    "<!-- more -->"@
}

/// The summary of a body: the body up to the first summary marker, and
/// whether there is one.
pub open spec fn summary_of(body: Seq<char>) -> (Seq<char>, bool) {
    if absent(body, summary_marker()) {
        (body, false)
    } else {
        (body.take(choose|at: int| first_occurrence(body, summary_marker(), at)), true)
    }
}

/// What the tags of a post are for a template, one entry per tag.
pub open spec fn tag_nodes(tags: Seq<Tag>) -> Seq<Node> {
    Seq::new(tags.len(), |i: int| tag_node(tags[i].name@, tags[i].url@))
}

/// What a full post is for a template.
pub open spec fn post_node(post: Post) -> Node {
    Node::Record(
        seq![
            ("url"@, Node::Text(post.url@)),
            ("title"@, Node::Text(post.title@)),
            ("date"@, Node::Text(post.date@)),
            ("body"@, Node::Text(post.body@)),
            ("tags"@, Node::List(tag_nodes(post.tags@))),
        ],
    )
}

/// What the summary of a post is for a template.
pub open spec fn summary_node(post: Post) -> Node {
    Node::Record(
        seq![
            ("url"@, Node::Text(post.url@)),
            ("title"@, Node::Text(post.title@)),
            ("date"@, Node::Text(post.date@)),
            ("summary"@, Node::Text(summary_of(post.body@).0)),
            ("summarized"@, Node::Bool(summary_of(post.body@).1)),
            ("tags"@, Node::List(tag_nodes(post.tags@))),
        ],
    )
}

impl Post {
    /// Every tag is well formed, and no two tags have the same slug.
    pub open spec fn wf(&self) -> bool {
        &&& forall|i: int| 0 <= i < self.tags@.len() ==> (#[trigger] self.tags@[i]).wf()
        &&& forall|i: int, j: int|
            0 <= i < j < self.tags@.len() ==> (#[trigger] self.tags@[i]).name@ != (
            #[trigger] self.tags@[j]).name@
    }

    /// Whether the post has the tag with the slug `slug`.
    pub open spec fn has_tag(&self, slug: Seq<char>) -> bool {
        exists|i: int| 0 <= i < self.tags@.len() && (#[trigger] self.tags@[i]).name@ == slug
    }

    /// The values for the post's tags.
    fn tag_values(&self) -> (out: Value)
        ensures
            out@ == Node::List(tag_nodes(self.tags@)),
    {
        let mut items: Vec<Value> = Vec::new();
        let mut i: usize = 0;
        while i < self.tags.len()
            invariant
                i <= self.tags@.len(),
                items@.len() == i,
                forall|k: int|
                    0 <= k < i ==> (#[trigger] items@[k])@ == tag_node(
                        self.tags@[k].name@,
                        self.tags@[k].url@,
                    ),
            decreases self.tags@.len() - i,
        {
            items.push(Value::from_tag(&self.tags[i]));
            i += 1;
        }
        let out = Value::Array(items);
        assert(out@->List_0 =~= tag_nodes(self.tags@));
        out
    }

    /// The value of the full post for a template, with the fields `url`,
    /// `title`, `date`, `body` and `tags`.
    pub fn to_value(&self) -> (out: Value)
        ensures
            out@ == post_node(*self),
    {
        let mut fields: Vec<(String, Value)> = Vec::new();
        fields.push(("url".to_owned(), Value::from_url(&self.url)));
        fields.push(("title".to_owned(), Value::text(self.title.as_str())));
        fields.push(("date".to_owned(), Value::text(self.date.as_str())));
        fields.push(("body".to_owned(), Value::text(self.body.as_str())));
        fields.push(("tags".to_owned(), self.tag_values()));
        let out = Value::Object(fields);
        assert(out@->Record_0 =~= post_node(*self)->Record_0);
        out
    }

    /// The body up to the first `<!-- more -->`, and `true`; or, where the
    /// body holds no such marker, the whole body, and `false`.
    pub fn summary(&self) -> (out: (&str, bool))
        ensures
            (out.0@, out.1) == summary_of(self.body@),
    {
        let body = chars_of(self.body.as_str());
        let marker = chars_of("<!-- more -->");
        match find(body.as_slice(), marker.as_slice()) {
            None => (self.body.as_str(), false),
            Some(at) => {
                proof {
                    let chosen = choose|c: int| first_occurrence(self.body@, summary_marker(), c);
                    lemma_first_occurrence_unique(
                        self.body@,
                        summary_marker(),
                        at as int,
                        chosen,
                    );
                }
                (self.body.as_str().substring_char(0, at), true)
            },
        }
    }

    /// The value of the post's summary for a template, with the fields
    /// `url`, `title`, `date`, `summary`, `summarized` and `tags`.
    pub fn summarize(&self) -> (out: Value)
        ensures
            out@ == summary_node(*self),
    {
        let (summary, summarized) = self.summary();
        let mut fields: Vec<(String, Value)> = Vec::new();
        fields.push(("url".to_owned(), Value::from_url(&self.url)));
        fields.push(("title".to_owned(), Value::text(self.title.as_str())));
        fields.push(("date".to_owned(), Value::text(self.date.as_str())));
        fields.push(("summary".to_owned(), Value::text(summary)));
        fields.push(("summarized".to_owned(), Value::boolean(summarized)));
        fields.push(("tags".to_owned(), self.tag_values()));
        let out = Value::Object(fields);
        proof {
            let wanted = summary_node(*self)->Record_0;
            assert(out@->Record_0 =~= wanted);
        }
        out
    }
}

} // verus!
