//! The events that a markdown document is read into, and their conversion
//! for a post: headings are moved two levels down, below the title of the
//! site and the title of the post, and links to sources become links to
//! pages. The converted events are rendered to HTML.

use vstd::prelude::*;
use crate::htmlrenderer::{HtmlRenderer, event_html, rendering};
use crate::slice::reverse;
use crate::url::{Converter, UrlBuf, UrlError, joined, resolved};

verus! {

/// How a code block is written in the source.
#[derive(Debug)]
pub enum CodeBlockKind {
    Indented,
    /// A fenced block, with the text that follows the opening fence.
    Fenced(String),
}

/// How a link is written in the source.
#[derive(Clone, Copy, Debug, PartialEq, Eq, Structural)]
pub enum LinkType {
    Inline,
    Reference,
    ReferenceUnknown,
    Collapsed,
    CollapsedUnknown,
    Shortcut,
    ShortcutUnknown,
    Autolink,
    Email,
}

/// How the cells of a table column are aligned.
#[derive(Clone, Copy, Debug, PartialEq, Eq, Structural)]
pub enum Alignment {
    /// No alignment is asked for.
    Unaligned,
    Left,
    Center,
    Right,
}

/// An element that has a start and an end.
#[derive(Debug)]
pub enum Tag {
    Paragraph,
    /// A heading, with its level.
    Heading(u32),
    BlockQuote,
    CodeBlock(CodeBlockKind),
    /// A list; an ordered one has the number of its first item.
    List(Option<u64>),
    Item,
    /// The definition of a footnote, with its label.
    FootnoteDefinition(String),
    /// A table, with the alignment of each column.
    Table(Vec<Alignment>),
    TableHead,
    TableRow,
    TableCell,
    Emphasis,
    Strong,
    Strikethrough,
    /// A link, with its kind, its destination and its title.
    Link(LinkType, String, String),
    /// An image, with the kind of its link, its source and its title.
    Image(LinkType, String, String),
}

/// One step in reading a markdown document.
#[derive(Debug)]
pub enum Event {
    Start(Tag),
    End(Tag),
    Text(String),
    Code(String),
    Html(String),
    /// A reference to a footnote, with the footnote's label.
    FootnoteReference(String),
    SoftBreak,
    HardBreak,
    Rule,
    /// The box of a task in a list, checked or not.
    TaskListMarker(bool),
}

/// What a [`CodeBlockKind`] stands for.
pub ghost enum CodeBlockKindView {
    Indented,
    Fenced(Seq<char>),
}

/// What a [`Tag`] stands for.
pub ghost enum TagView {
    Paragraph,
    Heading(u32),
    BlockQuote,
    CodeBlock(CodeBlockKindView),
    List(Option<u64>),
    Item,
    FootnoteDefinition(Seq<char>),
    Table(Seq<Alignment>),
    TableHead,
    TableRow,
    TableCell,
    Emphasis,
    Strong,
    Strikethrough,
    Link(LinkType, Seq<char>, Seq<char>),
    Image(LinkType, Seq<char>, Seq<char>),
}

/// What an [`Event`] stands for.
pub ghost enum EventView {
    Start(TagView),
    End(TagView),
    Text(Seq<char>),
    Code(Seq<char>),
    Html(Seq<char>),
    FootnoteReference(Seq<char>),
    SoftBreak,
    HardBreak,
    Rule,
    TaskListMarker(bool),
}

impl View for CodeBlockKind {
    type V = CodeBlockKindView;

    open spec fn view(&self) -> CodeBlockKindView {
        match self {
            CodeBlockKind::Indented => CodeBlockKindView::Indented,
            CodeBlockKind::Fenced(info) => CodeBlockKindView::Fenced(info@),
        }
    }
}

impl View for Tag {
    type V = TagView;

    open spec fn view(&self) -> TagView {
        match self {
            Tag::Paragraph => TagView::Paragraph,
            Tag::Heading(level) => TagView::Heading(*level),
            Tag::BlockQuote => TagView::BlockQuote,
            Tag::CodeBlock(kind) => TagView::CodeBlock(kind@),
            Tag::List(first) => TagView::List(*first),
            Tag::Item => TagView::Item,
            Tag::FootnoteDefinition(label) => TagView::FootnoteDefinition(label@),
            Tag::Table(alignments) => TagView::Table(alignments@),
            Tag::TableHead => TagView::TableHead,
            Tag::TableRow => TagView::TableRow,
            Tag::TableCell => TagView::TableCell,
            Tag::Emphasis => TagView::Emphasis,
            Tag::Strong => TagView::Strong,
            Tag::Strikethrough => TagView::Strikethrough,
            Tag::Link(kind, destination, title) => TagView::Link(*kind, destination@, title@),
            Tag::Image(kind, source, title) => TagView::Image(*kind, source@, title@),
        }
    }
}

impl View for Event {
    type V = EventView;

    open spec fn view(&self) -> EventView {
        match self {
            Event::Start(tag) => EventView::Start(tag@),
            Event::End(tag) => EventView::End(tag@),
            Event::Text(text) => EventView::Text(text@),
            Event::Code(code) => EventView::Code(code@),
            Event::Html(html) => EventView::Html(html@),
            Event::FootnoteReference(label) => EventView::FootnoteReference(label@),
            Event::SoftBreak => EventView::SoftBreak,
            Event::HardBreak => EventView::HardBreak,
            Event::Rule => EventView::Rule,
            Event::TaskListMarker(checked) => EventView::TaskListMarker(*checked),
        }
    }
}

/// What each of `events` stands for.
pub open spec fn event_views(events: Seq<Event>) -> Seq<EventView> {
    Seq::new(events.len(), |i: int| events[i]@)
}

/// The number of levels that the headings of a post are moved down.
pub const HEADING_SHIFT: u32 = 2;

/// The level `level`, moved down; the deepest level there is stays.
pub open spec fn shifted(level: u32) -> u32 {
    if level + HEADING_SHIFT <= u32::MAX {
        (level + HEADING_SHIFT) as u32
    } else {
        u32::MAX
    }
}

/// Whether the destination of a link of this kind is resolved: that of
/// every kind but an e-mail address and a shortcut without a definition.
pub open spec fn is_resolved_kind(kind: LinkType) -> bool {
    kind != LinkType::Email && kind != LinkType::ShortcutUnknown
}

/// The tag `tag` as it is rendered in a post.
pub open spec fn converted_tag(posts_root: Seq<char>, document: Seq<char>, tag: TagView) -> Result<
    TagView,
    UrlError,
> {
    match tag {
        TagView::Heading(level) => Ok(TagView::Heading(shifted(level))),
        TagView::Link(kind, destination, title) => if is_resolved_kind(kind) {
            match resolved(posts_root, document, destination) {
                Ok(address) => Ok(TagView::Link(kind, address, title)),
                Err(e) => Err(e),
            }
        } else {
            Ok(tag)
        },
        _ => Ok(tag),
    }
}

/// The event `event` as it is rendered in a post: the tag of a start is
/// converted, everything else stays.
pub open spec fn converted_event(posts_root: Seq<char>, document: Seq<char>, event: EventView) -> Result<
    EventView,
    UrlError,
> {
    match event {
        EventView::Start(tag) => match converted_tag(posts_root, document, tag) {
            Ok(tag) => Ok(EventView::Start(tag)),
            Err(e) => Err(e),
        },
        _ => Ok(event),
    }
}

/// Converts the events of one post.
pub struct EventConverter<'a> {
    pub link_converter: Converter<'a>,
}

impl<'a> EventConverter<'a> {
    /// Converts a tag: a heading is moved two levels down, and the
    /// destination of a link is resolved against the post.
    pub fn convert_tag(&self, tag: Tag) -> (out: Result<Tag, UrlError>)
        ensures
            match out {
                Ok(t) => converted_tag(
                    self.link_converter.posts_root(),
                    self.link_converter.base(),
                    tag@,
                ) == Ok::<TagView, UrlError>(t@),
                Err(e) => converted_tag(
                    self.link_converter.posts_root(),
                    self.link_converter.base(),
                    tag@,
                ) == Err::<TagView, UrlError>(e),
            },
    {
        match tag {
            Tag::Heading(level) => Ok(Tag::Heading(level.saturating_add(HEADING_SHIFT))),
            Tag::Link(kind, destination, title) => {
                match kind {
                    LinkType::Email | LinkType::ShortcutUnknown => Ok(
                        Tag::Link(kind, destination, title),
                    ),
                    _ => match self.link_converter.convert(destination.as_str()) {
                        Ok(address) => Ok(Tag::Link(kind, address, title)),
                        Err(e) => Err(e),
                    },
                }
            },
            _ => Ok(tag),
        }
    }

    /// Converts an event: the tag of a start is converted, everything
    /// else stays.
    pub fn convert(&self, event: Event) -> (out: Result<Event, UrlError>)
        ensures
            match out {
                Ok(e) => converted_event(
                    self.link_converter.posts_root(),
                    self.link_converter.base(),
                    event@,
                ) == Ok::<EventView, UrlError>(e@),
                Err(e) => converted_event(
                    self.link_converter.posts_root(),
                    self.link_converter.base(),
                    event@,
                ) == Err::<EventView, UrlError>(e),
            },
    {
        match event {
            Event::Start(tag) => match self.convert_tag(tag) {
                Ok(tag) => Ok(Event::Start(tag)),
                Err(e) => Err(e),
            },
            _ => Ok(event),
        }
    }
}

/// Why a document could not be rendered.
#[derive(Clone, Copy, Debug, PartialEq, Eq, Structural)]
pub enum Error {
    /// A link of the document, or the path of the document, is no address.
    UrlParse(UrlError),
}

impl Error {
    /// What the error says.
    pub open spec fn message_text(self) -> Seq<char> {
        match self {
            Error::UrlParse(e) => e.message_text(),
        }
    }

    /// What the error says.
    pub fn message(&self) -> (out: String)
        ensures
            out@ == self.message_text(),
    {
        match self {
            Error::UrlParse(e) => e.message(),
        }
    }
}

/// The events of `events` as they are rendered in a post, up to the first
/// whose conversion fails.
pub open spec fn conversions(posts_root: Seq<char>, document: Seq<char>, events: Seq<EventView>) -> Seq<
    EventView,
>
    decreases events.len(),
{
    if events.len() == 0 {
        Seq::empty()
    } else {
        let before = conversions(posts_root, document, events.drop_last());
        if before.len() == events.len() - 1 {
            match converted_event(posts_root, document, events.last()) {
                Ok(event) => before.push(event),
                Err(_) => before,
            }
        } else {
            before
        }
    }
}

/// Why the conversion of `events` stops early, if it does.
pub open spec fn failure(posts_root: Seq<char>, document: Seq<char>, events: Seq<EventView>) -> Option<
    UrlError,
> {
    let done = conversions(posts_root, document, events);
    if done.len() < events.len() {
        match converted_event(posts_root, document, events[done.len() as int]) {
            Ok(_) => None,
            Err(e) => Some(e),
        }
    } else {
        None
    }
}

/// No more events are converted than there are.
pub proof fn lemma_conversions_len(posts_root: Seq<char>, document: Seq<char>, events: Seq<EventView>)
    ensures
        conversions(posts_root, document, events).len() <= events.len(),
    decreases events.len(),
{
    if events.len() > 0 {
        lemma_conversions_len(posts_root, document, events.drop_last());
    }
}

/// Once the conversion of an event has failed, the events after it change
/// nothing: the conversions are those of the events before it.
pub proof fn lemma_conversions_stop(
    posts_root: Seq<char>,
    document: Seq<char>,
    events: Seq<EventView>,
    at: int,
)
    requires
        0 <= at < events.len(),
        conversions(posts_root, document, events.take(at)).len() == at,
        converted_event(posts_root, document, events[at]) is Err,
    ensures
        conversions(posts_root, document, events) == conversions(
            posts_root,
            document,
            events.take(at),
        ),
    decreases events.len(),
{
    if events.len() == at + 1 {
        assert(events.drop_last() == events.take(at));
    } else {
        let front = events.drop_last();
        assert(front.take(at) == events.take(at));
        lemma_conversions_stop(posts_root, document, front, at);
    }
}

/// A failure is the error of the first event whose conversion fails.
pub proof fn lemma_failure_is_first(
    posts_root: Seq<char>,
    document: Seq<char>,
    events: Seq<EventView>,
)
    ensures
        conversions(posts_root, document, events).len() < events.len() ==> failure(
            posts_root,
            document,
            events,
        ) is Some,
    decreases events.len(),
{
    if events.len() > 0 {
        let front = events.drop_last();
        lemma_failure_is_first(posts_root, document, front);
        lemma_conversions_len(posts_root, document, front);
        let before = conversions(posts_root, document, front);
        if before.len() < front.len() {
            assert(front[before.len() as int] == events[before.len() as int]);
        }
    }
}

/// The HTML of the document at `source_path`, or why there is none.
pub open spec fn rendered_body(
    posts_url: Seq<char>,
    source_path: Seq<char>,
    events: Seq<EventView>,
    footnote_prefix: Seq<char>,
) -> Result<Seq<char>, UrlError> {
    match joined(posts_url, source_path) {
        Err(e) => Err(e),
        Ok(document) => match failure(posts_url, document, events) {
            Some(e) => Err(e),
            None => Ok(rendering(footnote_prefix, conversions(posts_url, document, events)).1),
        },
    }
}

/// Renders the events of the document at `source_path`, a path relative
/// to `posts_url`, at the end of `w`: every event is converted for the
/// post and then rendered. The first link that cannot be resolved ends
/// the work; what was rendered before it stays in `w`.
pub fn to_html(
    w: &mut String,
    posts_url: &UrlBuf,
    source_path: &str,
    events: Vec<Event>,
    footnote_prefix: &str,
) -> (out: Result<(), Error>)
    ensures
        match joined(posts_url@, source_path@) {
            Err(e) => out == Err::<(), Error>(Error::UrlParse(e)) && final(w)@ == old(w)@,
            Ok(document) => {
                &&& final(w)@ == old(w)@ + rendering(
                    footnote_prefix@,
                    conversions(posts_url@, document, event_views(events@)),
                ).1
                &&& out == match failure(posts_url@, document, event_views(events@)) {
                    Some(e) => Err::<(), Error>(Error::UrlParse(e)),
                    None => Ok::<(), Error>(()),
                }
            },
        },
{
    let ghost views = event_views(events@);
    let link_converter = match Converter::new(posts_url, source_path) {
        Ok(converter) => converter,
        Err(e) => {
            return Err(Error::UrlParse(e));
        },
    };
    let event_converter = EventConverter { link_converter };
    let ghost root = posts_url@;
    let ghost document = event_converter.link_converter.base();
    let mut html_renderer = HtmlRenderer::with_footnote_prefix(footnote_prefix);
    let mut pending = reverse(events);
    let mut done: usize = 0;
    assert(views.len() == pending.len());
    assert(views.take(0) == Seq::<EventView>::empty());
    while pending.len() > 0
        invariant
            views.len() <= usize::MAX,
            done + pending@.len() == views.len(),
            pending@ == events@.reverse().take(pending@.len() as int),
            root == posts_url@,
            root == event_converter.link_converter.posts_root(),
            document == event_converter.link_converter.base(),
            joined(posts_url@, source_path@) == Ok::<Seq<char>, UrlError>(document),
            views == event_views(events@),
            conversions(root, document, views.take(done as int)).len() == done,
            html_renderer@ == rendering(
                footnote_prefix@,
                conversions(root, document, views.take(done as int)),
            ).0,
            w@ == old(w)@ + rendering(
                footnote_prefix@,
                conversions(root, document, views.take(done as int)),
            ).1,
        decreases pending@.len(),
    {
        let ghost converted = conversions(root, document, views.take(done as int));
        let ghost before = rendering(footnote_prefix@, converted);
        match pending.pop() {
            Some(event) => {
                assert(event == events@[done as int]);
                assert(views.take(done + 1).drop_last() == views.take(done as int));
                match event_converter.convert(event) {
                    Ok(event) => {
                        assert(conversions(root, document, views.take(done + 1)) == converted.push(
                            event@,
                        ));
                        assert(converted.push(event@).drop_last() == converted);
                        html_renderer.on_event(w, event);
                        assert(old(w)@ + before.1 + event_html(before.0, event@) == old(w)@ + (
                        before.1 + event_html(before.0, event@)));
                        done += 1;
                    },
                    Err(e) => {
                        proof {
                            assert(converted_event(root, document, views[done as int]) is Err);
                            lemma_conversions_stop(root, document, views, done as int);
                            assert(conversions(root, document, views) == converted);
                            assert(failure(root, document, views) == Some(e));
                        }
                        return Err(Error::UrlParse(e));
                    },
                }
            },
            None => {},
        }
    }
    assert(views.take(views.len() as int) == views);
    Ok(())
}

} // verus!
