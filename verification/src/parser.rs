//! Makes posts from their sources. A source begins with a fence, `---`;
//! the front matter follows, up to the next fence; the rest is the body,
//! in markdown. Reading the front matter and the markdown is left to the
//! caller, who hands over what was read.

use vstd::prelude::*;
use vstd::slice::slice_subrange;
use vstd::string::StringExecFns;
use crate::markdown::{self, Event, event_views, rendered_body, to_html};
use crate::order::{dated, newest_first, sort_posts};
use crate::post::Post;
use crate::slice::reverse;
use crate::tag::{collect_tags, distinct_slugs, tag_slugs, tag_url};
use crate::text::{
    absent, chars_of, ends_with, find, first_occurrence, starts_with, text_of, texts,
};
use crate::url::{UrlBuf, UrlError, below, join_text, joined};

verus! {

/// Why a post could not be made from its source.
#[derive(Debug)]
pub enum Error {
    /// The source does not begin with a fence.
    FrontmatterMissingStartFence,
    /// No fence ends the front matter.
    FrontmatterMissingEndFence,
    /// The path of the post, or a link in its body, is no address.
    UrlParse(UrlError),
    /// An error, with a note on what was being done.
    Annotated(String, Box<Error>),
}

impl Error {
    /// What the error says: a note stands before what it notes, and a
    /// colon between the two.
    pub open spec fn message_text(self) -> Seq<char>
        decreases self,
    {
        match self {
            Error::FrontmatterMissingStartFence => "Post must begin with `---`"@,
            Error::FrontmatterMissingEndFence => "Missing closing `---`"@,
            Error::UrlParse(e) => e.message_text(),
            Error::Annotated(note, cause) => note@ + ": "@ + cause.message_text(),
        }
    }

    /// What the error says.
    pub fn message(&self) -> (out: String)
        ensures
            out@ == self.message_text(),
        decreases self,
    {
        match self {
            Error::FrontmatterMissingStartFence => "Post must begin with `---`".to_owned(),
            Error::FrontmatterMissingEndFence => "Missing closing `---`".to_owned(),
            Error::UrlParse(e) => e.message(),
            Error::Annotated(note, cause) => {
                let mut out = note.clone();
                out.append(": ");
                out.append(cause.message().as_str());
                out
            },
        }
    }
}

/// What the front matter of a source says of its post.
#[derive(Debug)]
pub struct Frontmatter {
    /// The title of the post.
    pub title: String,
    /// The date of the post.
    pub date: String,
    /// The tags of the post, as they are spelled.
    pub tags: Vec<String>,
}

/// What was read of the source of one post.
#[derive(Debug)]
pub struct Source {
    /// The name of the post.
    pub id: String,
    /// The path of the source below the directory of the sources: that
    /// of a file there, or that of the index of a bundle, a directory
    /// that holds the source together with what belongs to it.
    pub path: String,
    /// The front matter of the source.
    pub frontmatter: Frontmatter,
    /// The events of the body of the source.
    pub events: Vec<Event>,
}

/// The fence that stands before and after the front matter.
pub open spec fn fence() -> Seq<char> {
    "---"@
}

/// The extension of a source file.
pub open spec fn markdown_extension() -> Seq<char> {
    ".md"@
}

/// Where the front matter begins and ends and where the body begins,
/// counted in characters.
pub open spec fn is_frontmatter(input: Seq<char>, yaml_start: int, yaml_stop: int, body_start: int) -> bool {
    &&& fence().is_prefix_of(input)
    &&& yaml_start == fence().len()
    &&& first_occurrence(input.skip(yaml_start), fence(), yaml_stop - yaml_start)
    &&& body_start == yaml_stop + fence().len()
}

/// Finds the front matter in `input`: the positions, in characters, at
/// which it begins and ends and at which the body begins.
pub fn frontmatter_indices(input: &str) -> (out: Result<(usize, usize, usize), Error>)
    ensures
        match out {
            Ok((yaml_start, yaml_stop, body_start)) => is_frontmatter(
                input@,
                yaml_start as int,
                yaml_stop as int,
                body_start as int,
            ) && body_start <= input@.len(),
            Err(Error::FrontmatterMissingStartFence) => !fence().is_prefix_of(input@),
            Err(Error::FrontmatterMissingEndFence) => fence().is_prefix_of(input@) && absent(
                input@.skip(fence().len() as int),
                fence(),
            ),
            Err(_) => false,
        },
{
    let chars = chars_of(input);
    let fence = chars_of("---");
    if !starts_with(chars.as_slice(), fence.as_slice()) {
        return Err(Error::FrontmatterMissingStartFence);
    }
    let rest = slice_subrange(chars.as_slice(), fence.len(), chars.len());
    assert(rest@ == input@.skip(fence@.len() as int));
    match find(rest, fence.as_slice()) {
        None => Err(Error::FrontmatterMissingEndFence),
        Some(offset) => Ok((fence.len(), fence.len() + offset, fence.len() + offset + fence.len())),
    }
}

/// The note that says which post was being made.
pub open spec fn note_for(id: Seq<char>) -> Seq<char> {
    "parsing post `"@ + id + "`"@
}

/// The note that says which post was being made.
fn note(id: &str) -> (out: String)
    ensures
        out@ == note_for(id@),
{
    let mut note = "parsing post `".to_owned();
    note.append(id);
    note.append("`");
    note
}

/// The front matter and the body of the source `input` of the post `id`,
/// as they are written. An error says which post was being made.
pub fn source_parts(id: &str, input: &str) -> (out: Result<(String, String), Error>)
    ensures
        match out {
            Ok((yaml, body)) => exists|yaml_stop: int|
                #![trigger input@.subrange(fence().len() as int, yaml_stop)]
                is_frontmatter(
                    input@,
                    fence().len() as int,
                    yaml_stop,
                    yaml_stop + fence().len(),
                ) && yaml_stop + fence().len() <= input@.len() && yaml@ == input@.subrange(
                    fence().len() as int,
                    yaml_stop,
                ) && body@ == input@.skip(yaml_stop + fence().len()),
            Err(Error::Annotated(note, cause)) => note@ == note_for(id@) && match *cause {
                Error::FrontmatterMissingStartFence => !fence().is_prefix_of(input@),
                Error::FrontmatterMissingEndFence => fence().is_prefix_of(input@) && absent(
                    input@.skip(fence().len() as int),
                    fence(),
                ),
                _ => false,
            },
            Err(_) => false,
        },
{
    match frontmatter_indices(input) {
        Ok((yaml_start, yaml_stop, body_start)) => {
            let chars = chars_of(input);
            let yaml = text_of(chars.as_slice(), yaml_start, yaml_stop);
            let body = text_of(chars.as_slice(), body_start, chars.len());
            assert(body@ == input@.skip(body_start as int));
            Ok((yaml, body))
        },
        Err(e) => Err(Error::Annotated(note(id), Box::new(e))),
    }
}

/// `name` without the endings `suffix` that it has, taken off one after
/// the other.
pub open spec fn trimmed(name: Seq<char>, suffix: Seq<char>) -> Seq<char>
    decreases name.len(),
{
    if suffix.len() > 0 && suffix.is_suffix_of(name) {
        trimmed(name.take(name.len() - suffix.len()), suffix)
    } else {
        name
    }
}

/// The name of a post, given the name of a file in the directory of the
/// sources: the file name without its markdown extension; nothing for a
/// file that is no markdown source.
pub fn post_id(file_name: &str) -> (out: Option<String>)
    ensures
        match out {
            Some(id) => markdown_extension().is_suffix_of(file_name@) && id@ == trimmed(
                file_name@,
                markdown_extension(),
            ),
            None => !markdown_extension().is_suffix_of(file_name@),
        },
{
    let chars = chars_of(file_name);
    let extension = chars_of(".md");
    proof {
        reveal_strlit(".md");
    }
    if !ends_with(chars.as_slice(), extension.as_slice()) {
        return None;
    }
    let mut end: usize = chars.len();
    assert(chars@.take(end as int) == chars@);
    while end >= extension.len() && ends_with(
        slice_subrange(chars.as_slice(), 0, end),
        extension.as_slice(),
    )
        invariant
            end <= chars@.len(),
            extension@ == markdown_extension(),
            extension@.len() == 3,
            trimmed(chars@, extension@) == trimmed(chars@.take(end as int), extension@),
        decreases end,
    {
        assert(chars@.take(end as int).take(end - extension@.len()) == chars@.take(
            end - extension@.len(),
        ));
        end = end - extension.len();
    }
    Some(text_of(chars.as_slice(), 0, end))
}

/// Makes posts from sources.
pub struct Parser<'a> {
    /// The address below which the index pages live; the address of a
    /// tag's index is `{index_url}/{slug}/index.html`.
    index_url: &'a UrlBuf,
    /// The address below which the pages of the posts live; the address
    /// of a post is `{posts_url}/{id}.html`.
    posts_url: &'a UrlBuf,
    /// The directory that the pages of the posts are written to.
    posts_directory: &'a str,
}

/// The file name of the page of the post `id`.
pub open spec fn page_file_name(id: Seq<char>) -> Seq<char> {
    id + ".html"@
}

impl<'a> Parser<'a> {
    /// The address below which the index pages live.
    pub closed spec fn index_url(&self) -> Seq<char> {
        self.index_url@
    }

    /// The address below which the pages of the posts live.
    pub closed spec fn posts_url(&self) -> Seq<char> {
        self.posts_url@
    }

    /// The directory that the pages of the posts are written to.
    pub closed spec fn posts_directory(&self) -> Seq<char> {
        self.posts_directory@
    }

    /// The address of the page of the post `id`, or why it has none.
    pub open spec fn post_url(&self, id: Seq<char>) -> Result<Seq<char>, UrlError> {
        joined(self.posts_url(), page_file_name(id))
    }

    /// The body of the post at `path` as HTML, or why there is none.
    /// The links of footnote references lead to the page at `url`.
    pub open spec fn post_body(&self, path: Seq<char>, url: Seq<char>, events: Seq<Event>) -> Result<
        Seq<char>,
        UrlError,
    > {
        rendered_body(self.posts_url(), path, event_views(events), url)
    }

    /// `post` is the post `id` with the front matter `frontmatter`, the
    /// address `url` and the body `body`.
    pub open spec fn is_post(
        &self,
        post: Post,
        id: Seq<char>,
        frontmatter: Frontmatter,
        url: Seq<char>,
        body: Seq<char>,
    ) -> bool {
        &&& post.wf()
        &&& post.id@ == id
        &&& post.title@ == frontmatter.title@
        &&& post.date@ == frontmatter.date@
        &&& post.file_path@ == below(self.posts_directory(), page_file_name(id))
        &&& post.url@ == url
        &&& post.body@ == body
        &&& tag_slugs(post.tags@) == distinct_slugs(texts(frontmatter.tags@))
        &&& forall|i: int|
            0 <= i < post.tags@.len() ==> (#[trigger] post.tags@[i]).url@ == tag_url(
                self.index_url(),
                post.tags@[i].name@,
            )
    }

    /// Why no post can be made from `source`, if none can: its address
    /// or its body cannot be had.
    pub open spec fn post_error(&self, source: Source) -> Option<UrlError> {
        match self.post_url(source.id@) {
            Err(e) => Some(e),
            Ok(url) => match self.post_body(source.path@, url, source.events@) {
                Err(e) => Some(e),
                Ok(_) => None,
            },
        }
    }

    /// `post` is the post made from `source`.
    pub open spec fn is_post_of(&self, post: Post, source: Source) -> bool {
        &&& self.post_error(source) is None
        &&& self.is_post(
            post,
            source.id@,
            source.frontmatter,
            self.post_url(source.id@).unwrap(),
            self.post_body(
                source.path@,
                self.post_url(source.id@).unwrap(),
                source.events@,
            ).unwrap(),
        )
    }

    /// A parser for the posts of a site.
    pub fn new(index_url: &'a UrlBuf, posts_url: &'a UrlBuf, posts_directory: &'a str) -> (out:
        Parser<'a>)
        ensures
            out.index_url() == index_url@,
            out.posts_url() == posts_url@,
            out.posts_directory() == posts_directory@,
    {
        Parser { index_url, posts_url, posts_directory }
    }

    /// Makes a post from what was read of its source. An error says
    /// which post was being made.
    pub fn parse_post(&self, source: Source) -> (out: Result<Post, Error>)
        ensures
            match out {
                Ok(post) => self.is_post_of(post, source),
                Err(Error::Annotated(note, cause)) => note@ == note_for(source.id@)
                    && self.post_error(source) is Some && *cause == Error::UrlParse(
                    self.post_error(source).unwrap(),
                ),
                Err(_) => false,
            },
    {
        let note = note(source.id.as_str());
        match self._parse_post(source) {
            Ok(post) => Ok(post),
            Err(e) => Err(Error::Annotated(note, Box::new(e))),
        }
    }

    /// Makes a post from what was read of its source: the page of the
    /// post is named after the post, the tags are those that the front
    /// matter spells, and the body is rendered from the events, with
    /// links resolved against the path of the source.
    pub fn _parse_post(&self, source: Source) -> (out: Result<Post, Error>)
        ensures
            match out {
                Ok(post) => self.is_post_of(post, source),
                Err(Error::UrlParse(e)) => self.post_error(source) == Some(e),
                Err(_) => false,
            },
    {
        let mut file_name = source.id.clone();
        file_name.append(".html");
        let url = match self.posts_url.resolve(file_name.as_str()) {
            Ok(url) => url,
            Err(e) => {
                return Err(Error::UrlParse(e));
            },
        };
        let tags = collect_tags(&source.frontmatter.tags, self.index_url);
        let mut body = String::new();
        match to_html(
            &mut body,
            self.posts_url,
            source.path.as_str(),
            source.events,
            url.as_str(),
        ) {
            Ok(()) => {},
            Err(markdown::Error::UrlParse(e)) => {
                return Err(Error::UrlParse(e));
            },
        }
        assert(Seq::<char>::empty() + body@ == body@);
        let post = Post {
            id: source.id,
            title: source.frontmatter.title,
            date: source.frontmatter.date,
            file_path: join_text(self.posts_directory, file_name.as_str()),
            url,
            tags,
            body,
        };
        Ok(post)
    }
}

impl<'a> Parser<'a> {
    /// `made` holds the posts made from `sources`, one from each, in
    /// their order.
    pub open spec fn are_posts_of(&self, made: Seq<Post>, sources: Seq<Source>) -> bool {
        &&& made.len() == sources.len()
        &&& forall|i: int| 0 <= i < made.len() ==> self.is_post_of(#[trigger] made[i], sources[i])
    }

    /// Source `at` is the first of `sources` from which no post can be made.
    pub open spec fn is_first_failure(&self, sources: Seq<Source>, at: int) -> bool {
        &&& 0 <= at < sources.len()
        &&& self.post_error(sources[at]) is Some
        &&& forall|k: int| 0 <= k < at ==> self.post_error(#[trigger] sources[k]) is None
    }

    /// Makes a post from each of `sources` and sorts the posts by date,
    /// the newest first; posts of one date keep the order of their
    /// sources. The first source from which no post can be made ends the
    /// work, and the error says which post was being made.
    pub fn parse_posts(&self, sources: Vec<Source>) -> (out: Result<Vec<Post>, Error>)
        ensures
            match out {
                Ok(posts) => exists|made: Seq<Post>|
                    #![trigger self.are_posts_of(made, sources@)]
                    self.are_posts_of(made, sources@) && posts@.len() == made.len()
                        && newest_first(posts@) && forall|date: Seq<char>| #[trigger]
                        dated(posts@, date) == dated(made, date),
                Err(Error::Annotated(note, cause)) => exists|at: int|
                    #![trigger sources@[at]]
                    self.is_first_failure(sources@, at) && note@ == note_for(sources@[at].id@)
                        && *cause == Error::UrlParse(self.post_error(sources@[at]).unwrap()),
                Err(_) => false,
            },
    {
        let ghost all = sources@;
        let mut pending = reverse(sources);
        let mut posts: Vec<Post> = Vec::new();
        while pending.len() > 0
            invariant
                all == sources@,
                posts@.len() + pending@.len() == all.len(),
                pending@ == all.reverse().take(pending@.len() as int),
                forall|i: int|
                    0 <= i < posts@.len() ==> self.is_post_of(#[trigger] posts@[i], all[i]),
            decreases pending@.len(),
        {
            let ghost done = posts@.len() as int;
            match pending.pop() {
                Some(source) => {
                    assert(source == all[done]);
                    match self.parse_post(source) {
                        Ok(post) => {
                            posts.push(post);
                        },
                        Err(e) => {
                            proof {
                                assert forall|k: int| 0 <= k < done implies self.post_error(
                                    #[trigger] all[k],
                                ) is None by {
                                    assert(self.is_post_of(posts@[k], all[k]));
                                }
                                assert(self.is_first_failure(all, done));
                            }
                            return Err(e);
                        },
                    }
                },
                None => {},
            }
        }
        let ghost made = posts@;
        assert(self.are_posts_of(made, all));
        Ok(sort_posts(posts))
    }
}

} // verus!
