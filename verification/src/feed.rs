//! The feed of a site: one entry per post.

use vstd::prelude::*;
use vstd::string::StringExecFns;
use chrono::{Datelike, NaiveDate};
use crate::config::Author;
use crate::post::{Post, summary_of};
use crate::text::text_option;
use crate::url::UrlBuf;

verus! {

/// A day of the calendar.
#[derive(Clone, Copy, Debug, PartialEq, Eq, Structural)]
pub struct Date {
    pub year: i32,
    pub month: u32,
    pub day: u32,
}

/// What `chrono::NaiveDate::parse_from_str` makes of `text` with the
/// format `format`: the year, the month and the day of the date it
/// reads, or nothing where it reads none.
pub uninterp spec fn parsed_date(text: Seq<char>, format: Seq<char>) -> Option<Date>;

/// Calls `chrono::NaiveDate::parse_from_str` and hands back the year, the
/// month and the day of the date, as `year`, `month` and `day` give them.
#[verifier::external_body]
fn parse_date(text: &str, format: &str) -> (out: Option<Date>)
    ensures
        out == parsed_date(text@, format@),
{
    match NaiveDate::parse_from_str(text, format) {
        Ok(date) => Some(Date { year: date.year(), month: date.month(), day: date.day() }),
        Err(_) => None,
    }
}

/// Why a feed could not be made.
#[derive(Debug)]
pub enum Error {
    /// The date of a post is no day of the calendar; the date is attached.
    DateTimeParse(String),
}

impl Error {
    /// What the error says.
    pub open spec fn message_text(self) -> Seq<char> {
        match self {
            Error::DateTimeParse(date) => "The date `"@ + date@
                + "` is no day written as year, month and day"@,
        }
    }

    /// What the error says.
    pub fn message(&self) -> (out: String)
        ensures
            out@ == self.message_text(),
    {
        match self {
            Error::DateTimeParse(date) => {
                let mut out = "The date `".to_owned();
                out.append(date.as_str());
                out.append("` is no day written as year, month and day");
                out
            },
        }
    }
}

/// What a feed is made from.
pub struct FeedConfig {
    pub title: String,
    pub id: String,
    pub author: Option<Author>,
    pub home_page: UrlBuf,
}

/// A person named in a feed.
#[derive(Debug)]
pub struct Person {
    pub name: String,
    pub email: Option<String>,
}

/// A link of a feed or of an entry, and how it relates to it.
#[derive(Debug)]
pub struct Link {
    pub href: String,
    pub rel: String,
}

/// The entry of a post in a feed. The post was published, and last
/// updated, at the beginning of the day `updated`.
#[derive(Debug)]
pub struct Entry {
    pub id: String,
    pub title: String,
    pub updated: Date,
    pub authors: Vec<Person>,
    pub links: Vec<Link>,
    pub summary: Option<String>,
    pub published: Option<Date>,
}

/// A feed. When it was updated is for the one who writes it to say.
#[derive(Debug)]
pub struct Feed {
    pub title: String,
    pub id: String,
    pub authors: Vec<Person>,
    pub links: Vec<Link>,
    pub entries: Vec<Entry>,
}

/// The format in which the date of a post is written.
pub open spec fn date_format() -> Seq<char> {
    "%Y-%m-%d"@
}

/// `people` names `author`, where there is one, and nobody else.
pub open spec fn is_author(people: Seq<Person>, author: Option<Author>) -> bool {
    match author {
        Some(author) => people.len() == 1 && people[0].name@ == author.name@ && text_option(
            people[0].email,
        ) == text_option(author.email),
        None => people.len() == 0,
    }
}

/// `links` holds one link, which leads to `href` as another form of the same thing.
pub open spec fn is_alternate(links: Seq<Link>, href: Seq<char>) -> bool {
    links.len() == 1 && links[0].href@ == href && links[0].rel@ == "alternate"@
}

/// `entry` is the entry of `post` in the feed of `author`.
pub open spec fn is_entry(entry: Entry, post: Post, author: Option<Author>) -> bool {
    &&& entry.id@ == post.url@
    &&& entry.title@ == post.title@
    &&& Some(entry.updated) == parsed_date(post.date@, date_format())
    &&& entry.published == Some(entry.updated)
    &&& is_author(entry.authors@, author)
    &&& is_alternate(entry.links@, post.url@)
    &&& text_option(entry.summary) == Some(summary_of(post.body@).0)
}

/// The text `text`, where there is one, as a text of its own.
fn copy_text(text: &Option<String>) -> (out: Option<String>)
    ensures
        text_option(out) == text_option(*text),
{
    match text {
        Some(t) => Some(t.clone()),
        None => None,
    }
}

/// The people that a feed names for `author`.
pub fn author_to_people(author: &Option<Author>) -> (out: Vec<Person>)
    ensures
        is_author(out@, *author),
{
    let mut people: Vec<Person> = Vec::new();
    match author {
        Some(author) => {
            people.push(Person { name: author.name.clone(), email: copy_text(&author.email) });
        },
        None => {},
    }
    people
}

/// The one link of a feed or an entry: to `href`, as another form of it.
fn alternate(href: &str) -> (out: Vec<Link>)
    ensures
        is_alternate(out@, href@),
{
    let mut links: Vec<Link> = Vec::new();
    links.push(Link { href: href.to_owned(), rel: "alternate".to_owned() });
    links
}

/// The entries of `posts`, in their order. The first post whose date is
/// no day of the calendar, written as year, month and day, ends the work.
pub fn feed_entries(config: &FeedConfig, posts: &[Post]) -> (out: Result<Vec<Entry>, Error>)
    ensures
        match out {
            Ok(entries) => entries@.len() == posts@.len() && forall|i: int|
                0 <= i < entries@.len() ==> is_entry(
                    #[trigger] entries@[i],
                    posts@[i],
                    config.author,
                ),
            Err(Error::DateTimeParse(date)) => exists|i: int|
                0 <= i < posts@.len() && date@ == (#[trigger] posts@[i]).date@ && parsed_date(
                    posts@[i].date@,
                    date_format(),
                ) is None && forall|k: int|
                    0 <= k < i ==> parsed_date((#[trigger] posts@[k]).date@, date_format()) is Some,
        },
{
    let mut entries: Vec<Entry> = Vec::new();
    let mut i: usize = 0;
    while i < posts.len()
        invariant
            i <= posts@.len(),
            entries@.len() == i,
            forall|k: int|
                0 <= k < i ==> is_entry(#[trigger] entries@[k], posts@[k], config.author),
            forall|k: int|
                0 <= k < i ==> parsed_date((#[trigger] posts@[k]).date@, date_format()) is Some,
        decreases posts@.len() - i,
    {
        let post = &posts[i];
        let (summary, _) = post.summary();
        let date = match parse_date(post.date.as_str(), "%Y-%m-%d") {
            Some(date) => date,
            None => {
                return Err(Error::DateTimeParse(post.date.clone()));
            },
        };
        entries.push(
            Entry {
                id: post.url.to_string(),
                title: post.title.clone(),
                updated: date,
                authors: author_to_people(&config.author),
                links: alternate(post.url.as_str()),
                summary: Some(summary.to_owned()),
                published: Some(date),
            },
        );
        i += 1;
    }
    Ok(entries)
}

/// `feed` is the feed of `posts` that `config` asks for.
pub open spec fn is_feed(feed: Feed, config: FeedConfig, posts: Seq<Post>) -> bool {
    &&& feed.title@ == config.title@
    &&& feed.id@ == config.id@
    &&& is_author(feed.authors@, config.author)
    &&& is_alternate(feed.links@, config.home_page@)
    &&& feed.entries@.len() == posts.len()
    &&& forall|i: int|
        0 <= i < posts.len() ==> is_entry(#[trigger] feed.entries@[i], posts[i], config.author)
}

/// The first post of `posts` whose date is no day of the calendar.
pub open spec fn is_first_undated(posts: Seq<Post>, i: int) -> bool {
    &&& 0 <= i < posts.len()
    &&& parsed_date(posts[i].date@, date_format()) is None
    &&& forall|k: int| 0 <= k < i ==> parsed_date((#[trigger] posts[k]).date@, date_format()) is Some
}

/// The feed of `posts`.
pub fn feed(config: FeedConfig, posts: &[Post]) -> (out: Result<Feed, Error>)
    ensures
        match out {
            Ok(feed) => is_feed(feed, config, posts@),
            Err(Error::DateTimeParse(date)) => exists|i: int|
                is_first_undated(posts@, i) && date@ == (#[trigger] posts@[i]).date@,
        },
{
    let entries = match feed_entries(&config, posts) {
        Ok(entries) => entries,
        Err(Error::DateTimeParse(date)) => {
            proof {
                let i = choose|i: int|
                    0 <= i < posts@.len() && date@ == (#[trigger] posts@[i]).date@ && parsed_date(
                        posts@[i].date@,
                        date_format(),
                    ) is None && forall|k: int|
                        0 <= k < i ==> parsed_date((#[trigger] posts@[k]).date@, date_format())
                            is Some;
                assert(is_first_undated(posts@, i));
            }
            return Err(Error::DateTimeParse(date));
        },
    };
    let authors = author_to_people(&config.author);
    let links = alternate(config.home_page.as_str());
    Ok(Feed { title: config.title, id: config.id, authors, links, entries })
}

/// Makes the feed of `posts` for the one who writes it out.
pub fn write_feed(config: FeedConfig, posts: &[Post]) -> (out: Result<Feed, Error>)
    ensures
        match out {
            Ok(feed) => is_feed(feed, config, posts@),
            Err(Error::DateTimeParse(date)) => exists|i: int|
                is_first_undated(posts@, i) && date@ == (#[trigger] posts@[i]).date@,
        },
{
    feed(config, posts)
}

} // verus!
