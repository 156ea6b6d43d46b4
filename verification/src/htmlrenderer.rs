//! Renders the events of a markdown document to HTML. The links of
//! footnote references carry a prefix, so that a reference still leads to
//! its footnote where the summary of a post stands on another page than
//! the footnote.

use vstd::prelude::*;
use vstd::string::StringExecFns;
use crate::markdown::{
    Alignment, CodeBlockKind, CodeBlockKindView, Event, EventView, LinkType, Tag, TagView,
    event_views,
};
use crate::slice::reverse;
use crate::text::{chars_of, decimal, push_decimal, text_of};

verus! {

/// Which part of a table is being rendered.
#[derive(Clone, Copy, Debug, PartialEq, Eq, Structural)]
pub enum TableState {
    Head,
    Body,
}

/// The state of rendering.
pub struct HtmlRenderer {
    /// The alignment of each column of the table that is being rendered.
    pub table_alignments: Vec<Alignment>,
    /// The part of the table that is being rendered.
    pub table_state: TableState,
    /// The column of the cell that is being rendered.
    pub table_cell_index: usize,
    /// The text put before the label in the link of a footnote reference.
    pub footnote_prefix: String,
}

/// What an [`HtmlRenderer`] stands for.
pub ghost struct RendererView {
    pub table_alignments: Seq<Alignment>,
    pub table_state: TableState,
    pub table_cell_index: nat,
    pub footnote_prefix: Seq<char>,
}

impl View for HtmlRenderer {
    type V = RendererView;

    open spec fn view(&self) -> RendererView {
        RendererView {
            table_alignments: self.table_alignments@,
            table_state: self.table_state,
            table_cell_index: self.table_cell_index as nat,
            footnote_prefix: self.footnote_prefix@,
        }
    }
}

/// The text for one character inside HTML: `"`, `&`, `<` and `>` are
/// replaced by their entities.
pub open spec fn html_escaped_char(c: char) -> Seq<char> {
    if c == '"' {
        "&quot;"@
    } else if c == '&' {
        "&amp;"@
    } else if c == '<' {
        "&lt;"@
    } else if c == '>' {
        "&gt;"@
    } else {
        seq![c]
    }
}

/// `text` as it stands inside HTML: each character escaped.
pub open spec fn html_escaped(text: Seq<char>) -> Seq<char>
    decreases text.len(),
{
    if text.len() == 0 {
        Seq::empty()
    } else {
        html_escaped(text.drop_last()) + html_escaped_char(text.last())
    }
}

/// What `pulldown_cmark::escape::escape_href` writes for `text`: the text
/// as it stands in the `href` or `src` attribute of an element.
pub uninterp spec fn href_escaped(text: Seq<char>) -> Seq<char>;

/// Calls `pulldown_cmark::escape::escape_html` with an empty string to
/// write to. That function replaces `"`, `&`, `<` and `>` by `&quot;`,
/// `&amp;`, `&lt;` and `&gt;` and copies every other character. Writing to
/// a string does not fail.
#[verifier::external_body]
fn escape_html(text: &str) -> (out: String)
    ensures
        out@ == html_escaped(text@),
{
    let mut out = String::new();
    let _ = pulldown_cmark::escape::escape_html(&mut out, text);
    out
}

/// Calls `pulldown_cmark::escape::escape_href` with an empty string to
/// write to. Writing to a string does not fail.
#[verifier::external_body]
fn escape_href(text: &str) -> (out: String)
    ensures
        out@ == href_escaped(text@),
{
    let mut out = String::new();
    let _ = pulldown_cmark::escape::escape_href(&mut out, text);
    out
}

/// The state in which rendering begins.
pub open spec fn initial_state(footnote_prefix: Seq<char>) -> RendererView {
    RendererView {
        table_alignments: Seq::empty(),
        table_state: TableState::Head,
        table_cell_index: 0,
        footnote_prefix,
    }
}

/// The language of a fenced code block: what stands before the first
/// space of the text after the opening fence.
pub open spec fn language(info: Seq<char>) -> Seq<char>
    decreases info.len(),
{
    if info.len() == 0 || info[0] == ' ' {
        Seq::empty()
    } else {
        seq![info[0]] + language(info.drop_first())
    }
}

/// The attribute that aligns the cell in column `cell`.
pub open spec fn align_attribute(alignments: Seq<Alignment>, cell: nat) -> Seq<char> {
    if cell < alignments.len() {
        match alignments[cell as int] {
            Alignment::Left => " align=\"left\""@,
            Alignment::Right => " align=\"right\""@,
            Alignment::Center => " align=\"center\""@,
            Alignment::Unaligned => ""@,
        }
    } else {
        ""@
    }
}

/// The name of the element for a cell in this part of a table.
pub open spec fn cell_element(state: TableState) -> Seq<char> {
    match state {
        TableState::Head => "th"@,
        TableState::Body => "td"@,
    }
}

/// The HTML that begins the element `tag`.
pub open spec fn start_html(state: RendererView, tag: TagView) -> Seq<char> {
    match tag {
        TagView::BlockQuote => "<blockquote>"@,
        TagView::CodeBlock(CodeBlockKindView::Fenced(info)) => if language(info).len() == 0 {
            "<pre><code>"@
        } else {
            "<pre><code class=\"language-"@ + language(info) + "\">"@
        },
        TagView::CodeBlock(CodeBlockKindView::Indented) => "<pre><code>"@,
        TagView::Emphasis => "<em>"@,
        TagView::FootnoteDefinition(label) => "<div class=\"footnote-definition\" id=\""@
            + html_escaped(label) + "\">"@ + html_escaped(label) + ". &nbsp;"@,
        TagView::Heading(level) => "<h"@ + decimal(level as nat) + ">"@,
        TagView::Image(_, source, title) => "<img src=\""@ + href_escaped(source)
            + "\" alt=\"\" title=\""@ + html_escaped(title) + "\">"@,
        TagView::Item => "<li>"@,
        TagView::Link(LinkType::Email, destination, title) => "<a href=\"mailto:"@ + href_escaped(
            destination,
        ) + "\" title=\""@ + html_escaped(title) + "\">"@,
        TagView::Link(_, destination, title) => "<a href=\""@ + href_escaped(destination)
            + "\" title=\""@ + html_escaped(title) + "\">"@,
        TagView::List(None) => "<ul>"@,
        TagView::List(Some(first)) => if first == 1 {
            "<ol>"@
        } else {
            "<ol start=\""@ + decimal(first as nat) + "\">"@
        },
        TagView::Paragraph => "<p>"@,
        TagView::Strikethrough => "<del>"@,
        TagView::Strong => "<strong>"@,
        TagView::Table(_) => "<table>"@,
        TagView::TableHead => "<thead><tr>"@,
        TagView::TableRow => "<tr>"@,
        TagView::TableCell => "<"@ + cell_element(state.table_state) + align_attribute(
            state.table_alignments,
            state.table_cell_index,
        ) + ">"@,
    }
}

/// The state after the start of the element `tag`.
pub open spec fn after_start(state: RendererView, tag: TagView) -> RendererView {
    match tag {
        TagView::Table(alignments) => RendererView { table_alignments: alignments, ..state },
        TagView::TableHead => RendererView {
            table_state: TableState::Head,
            table_cell_index: 0,
            ..state
        },
        TagView::TableRow => RendererView { table_cell_index: 0, ..state },
        _ => state,
    }
}

/// The HTML that ends the element `tag`.
pub open spec fn end_html(state: RendererView, tag: TagView) -> Seq<char> {
    match tag {
        TagView::BlockQuote => "</blockquote>"@,
        TagView::CodeBlock(_) => "</code></pre>"@,
        TagView::Emphasis => "</em>"@,
        TagView::FootnoteDefinition(_) => "</div>"@,
        TagView::Heading(level) => "</h"@ + decimal(level as nat) + ">"@,
        TagView::Image(_, _, _) => ""@,
        TagView::Item => "</li>"@,
        TagView::Link(_, _, _) => "</a>"@,
        TagView::List(Some(_)) => "</ol>"@,
        TagView::List(None) => "</ul>"@,
        TagView::Paragraph => "</p>"@,
        TagView::Strikethrough => "</del>"@,
        TagView::Strong => "</strong>"@,
        TagView::Table(_) => "</tbody></table>"@,
        TagView::TableHead => "</tr></thead><tbody>"@,
        TagView::TableRow => "</tr>"@,
        TagView::TableCell => "</"@ + cell_element(state.table_state) + ">"@,
    }
}

/// The column after column `cell`; the last column there can be stays.
pub open spec fn next_cell(cell: nat) -> nat {
    if cell < usize::MAX {
        cell + 1
    } else {
        cell
    }
}

/// The state after the end of the element `tag`.
pub open spec fn after_end(state: RendererView, tag: TagView) -> RendererView {
    match tag {
        TagView::TableHead => RendererView { table_state: TableState::Body, ..state },
        TagView::TableCell => RendererView {
            table_cell_index: next_cell(state.table_cell_index),
            ..state
        },
        _ => state,
    }
}

/// The HTML for the box of a task.
pub open spec fn task_marker_html(checked: bool) -> Seq<char> {
    "<input disabled=\"\" type=\"checkbox\" "@ + (if checked {
        "checked=\"\" "@
    } else {
        ""@
    }) + "/>"@
}

/// The HTML for a reference to the footnote `label`.
pub open spec fn footnote_reference_html(prefix: Seq<char>, label: Seq<char>) -> Seq<char> {
    "<sup class=\"footnote-reference\"><a href=\""@ + html_escaped(prefix) + "#"@ + label + "\">"@
        + label + "</a></sup>"@
}

/// The HTML for `event`.
pub open spec fn event_html(state: RendererView, event: EventView) -> Seq<char> {
    match event {
        EventView::Start(tag) => start_html(state, tag),
        EventView::End(tag) => end_html(state, tag),
        EventView::Code(code) => "<code>"@ + html_escaped(code) + "</code>"@,
        EventView::FootnoteReference(label) => footnote_reference_html(
            state.footnote_prefix,
            label,
        ),
        EventView::HardBreak => "<br />"@,
        EventView::Html(html) => html,
        EventView::Rule => "<hr />"@,
        EventView::SoftBreak => "\n"@,
        EventView::TaskListMarker(checked) => task_marker_html(checked),
        EventView::Text(text) => html_escaped(text),
    }
}

/// The state after `event`.
pub open spec fn after_event(state: RendererView, event: EventView) -> RendererView {
    match event {
        EventView::Start(tag) => after_start(state, tag),
        EventView::End(tag) => after_end(state, tag),
        _ => state,
    }
}

/// The language of a fenced code block whose opening fence is followed by `info`.
fn language_of(info: &str) -> (out: String)
    ensures
        out@ == language(info@),
{
    let chars = chars_of(info);
    let mut n: usize = 0;
    assert(chars@.take(0) + language(chars@.skip(0)) == language(chars@)) by {
        assert(chars@.skip(0) == chars@);
        assert(chars@.take(0) + language(chars@) == language(chars@));
    }
    while n < chars.len() && chars[n] != ' '
        invariant
            n <= chars@.len(),
            language(chars@) == chars@.take(n as int) + language(chars@.skip(n as int)),
        decreases chars@.len() - n,
    {
        assert(chars@.skip(n as int).drop_first() == chars@.skip(n + 1));
        assert(chars@.take(n as int) + (seq![chars@[n as int]] + language(chars@.skip(n + 1)))
            == chars@.take(n + 1) + language(chars@.skip(n + 1)));
        n += 1;
    }
    assert(chars@.take(n as int) + Seq::<char>::empty() == chars@.take(n as int));
    text_of(chars.as_slice(), 0, n)
}

/// The attribute that aligns the cell in column `cell`.
fn align_attribute_of(alignments: &Vec<Alignment>, cell: usize) -> (out: &'static str)
    ensures
        out@ == align_attribute(alignments@, cell as nat),
{
    if cell < alignments.len() {
        match alignments[cell] {
            Alignment::Left => " align=\"left\"",
            Alignment::Right => " align=\"right\"",
            Alignment::Center => " align=\"center\"",
            Alignment::Unaligned => "",
        }
    } else {
        ""
    }
}

/// The name of the element for a cell in this part of a table.
fn cell_element_of(state: TableState) -> (out: &'static str)
    ensures
        out@ == cell_element(state),
{
    match state {
        TableState::Head => "th",
        TableState::Body => "td",
    }
}

/// The element that opens a link or an image: `opening`, the escaped
/// address, `middle`, the escaped title, and the end of the tag.
fn with_address(opening: &str, address: &str, middle: &str, title: &str) -> (out: String)
    ensures
        out@ == opening@ + href_escaped(address@) + middle@ + html_escaped(title@) + "\">"@,
{
    let mut out = opening.to_owned();
    out.append(escape_href(address).as_str());
    out.append(middle);
    out.append(escape_html(title).as_str());
    out.append("\">");
    out
}

impl HtmlRenderer {
    /// A renderer at the beginning of a document, with no prefix for the
    /// links of footnote references.
    pub fn new() -> (out: Self)
        ensures
            out@ == initial_state(Seq::empty()),
    {
        HtmlRenderer {
            table_alignments: Vec::new(),
            table_state: TableState::Head,
            table_cell_index: 0,
            footnote_prefix: String::new(),
        }
    }

    /// A renderer at the beginning of a document.
    pub fn with_footnote_prefix(footnote_prefix: &str) -> (out: Self)
        ensures
            out@ == initial_state(footnote_prefix@),
    {
        let mut renderer = Self::new();
        renderer.footnote_prefix = footnote_prefix.to_owned();
        renderer
    }

    /// Renders the start of the element `tag` at the end of `w`.
    pub fn on_start(&mut self, w: &mut String, tag: Tag)
        ensures
            final(w)@ == old(w)@ + start_html(old(self)@, tag@),
            final(self)@ == after_start(old(self)@, tag@),
    {
        let ghost state = self@;
        let piece: String = match &tag {
            Tag::BlockQuote => "<blockquote>".to_owned(),
            Tag::CodeBlock(kind) => match kind {
                CodeBlockKind::Fenced(info) => {
                    let lang = language_of(info.as_str());
                    if lang.as_str().unicode_len() == 0 {
                        "<pre><code>".to_owned()
                    } else {
                        let mut piece = "<pre><code class=\"language-".to_owned();
                        piece.append(lang.as_str());
                        piece.append("\">");
                        piece
                    }
                },
                CodeBlockKind::Indented => "<pre><code>".to_owned(),
            },
            Tag::Emphasis => "<em>".to_owned(),
            Tag::FootnoteDefinition(label) => {
                let label = escape_html(label.as_str());
                let mut piece = "<div class=\"footnote-definition\" id=\"".to_owned();
                piece.append(label.as_str());
                piece.append("\">");
                piece.append(label.as_str());
                piece.append(". &nbsp;");
                piece
            },
            Tag::Heading(level) => {
                let mut piece = "<h".to_owned();
                push_decimal(&mut piece, *level as u64);
                piece.append(">");
                piece
            },
            Tag::Image(_, source, title) => with_address(
                "<img src=\"",
                source.as_str(),
                "\" alt=\"\" title=\"",
                title.as_str(),
            ),
            Tag::Item => "<li>".to_owned(),
            Tag::Link(kind, destination, title) => match kind {
                LinkType::Email => with_address(
                    "<a href=\"mailto:",
                    destination.as_str(),
                    "\" title=\"",
                    title.as_str(),
                ),
                _ => with_address(
                    "<a href=\"",
                    destination.as_str(),
                    "\" title=\"",
                    title.as_str(),
                ),
            },
            Tag::List(first) => match first {
                None => "<ul>".to_owned(),
                Some(first) => if *first == 1 {
                    "<ol>".to_owned()
                } else {
                    let mut piece = "<ol start=\"".to_owned();
                    push_decimal(&mut piece, *first);
                    piece.append("\">");
                    piece
                },
            },
            Tag::Paragraph => "<p>".to_owned(),
            Tag::Strikethrough => "<del>".to_owned(),
            Tag::Strong => "<strong>".to_owned(),
            Tag::Table(_) => "<table>".to_owned(),
            Tag::TableHead => "<thead><tr>".to_owned(),
            Tag::TableRow => "<tr>".to_owned(),
            Tag::TableCell => {
                let mut piece = "<".to_owned();
                piece.append(cell_element_of(self.table_state));
                piece.append(align_attribute_of(&self.table_alignments, self.table_cell_index));
                piece.append(">");
                piece
            },
        };
        assert(piece@ == start_html(state, tag@));
        match tag {
            Tag::Table(alignments) => {
                self.table_alignments = alignments;
            },
            Tag::TableHead => {
                self.table_state = TableState::Head;
                self.table_cell_index = 0;
            },
            Tag::TableRow => {
                self.table_cell_index = 0;
            },
            _ => {},
        }
        w.append(piece.as_str());
    }

    /// Renders the end of the element `tag` at the end of `w`.
    pub fn on_end(&mut self, w: &mut String, tag: Tag)
        ensures
            final(w)@ == old(w)@ + end_html(old(self)@, tag@),
            final(self)@ == after_end(old(self)@, tag@),
    {
        match tag {
            Tag::BlockQuote => w.append("</blockquote>"),
            Tag::CodeBlock(_) => w.append("</code></pre>"),
            Tag::Emphasis => w.append("</em>"),
            Tag::FootnoteDefinition(_) => w.append("</div>"),
            Tag::Heading(level) => {
                let mut piece = "</h".to_owned();
                push_decimal(&mut piece, level as u64);
                piece.append(">");
                w.append(piece.as_str());
            },
            Tag::Image(_, _, _) => w.append(""),
            Tag::Item => w.append("</li>"),
            Tag::Link(_, _, _) => w.append("</a>"),
            Tag::List(Some(_)) => w.append("</ol>"),
            Tag::List(None) => w.append("</ul>"),
            Tag::Paragraph => w.append("</p>"),
            Tag::Strikethrough => w.append("</del>"),
            Tag::Strong => w.append("</strong>"),
            Tag::Table(_) => w.append("</tbody></table>"),
            Tag::TableHead => {
                self.table_state = TableState::Body;
                w.append("</tr></thead><tbody>");
            },
            Tag::TableRow => w.append("</tr>"),
            Tag::TableCell => {
                let mut piece = "</".to_owned();
                piece.append(cell_element_of(self.table_state));
                piece.append(">");
                if self.table_cell_index < usize::MAX {
                    self.table_cell_index += 1;
                }
                w.append(piece.as_str());
            },
        }
    }

    /// Renders `s` as text at the end of `w`.
    pub fn on_text(&mut self, w: &mut String, s: &str)
        ensures
            final(w)@ == old(w)@ + html_escaped(s@),
            final(self)@ == old(self)@,
    {
        w.append(escape_html(s).as_str());
    }

    /// Renders `s` as code at the end of `w`.
    pub fn on_code(&mut self, w: &mut String, s: &str)
        ensures
            final(w)@ == old(w)@ + ("<code>"@ + html_escaped(s@) + "</code>"@),
            final(self)@ == old(self)@,
    {
        let mut piece = "<code>".to_owned();
        piece.append(escape_html(s).as_str());
        piece.append("</code>");
        w.append(piece.as_str());
    }

    /// Copies the HTML `s` to the end of `w`.
    pub fn on_html(&mut self, w: &mut String, s: &str)
        ensures
            final(w)@ == old(w)@ + s@,
            final(self)@ == old(self)@,
    {
        w.append(s);
    }

    /// Renders a line break of the source at the end of `w`.
    pub fn on_soft_break(&mut self, w: &mut String)
        ensures
            final(w)@ == old(w)@ + "\n"@,
            final(self)@ == old(self)@,
    {
        w.append("\n");
    }

    /// Renders a forced line break at the end of `w`.
    pub fn on_hard_break(&mut self, w: &mut String)
        ensures
            final(w)@ == old(w)@ + "<br />"@,
            final(self)@ == old(self)@,
    {
        w.append("<br />");
    }

    /// Renders a horizontal rule at the end of `w`.
    pub fn on_rule(&mut self, w: &mut String)
        ensures
            final(w)@ == old(w)@ + "<hr />"@,
            final(self)@ == old(self)@,
    {
        w.append("<hr />");
    }

    /// Renders the box of a task at the end of `w`.
    pub fn on_task_list_marker(&mut self, w: &mut String, checked: bool)
        ensures
            final(w)@ == old(w)@ + task_marker_html(checked),
            final(self)@ == old(self)@,
    {
        let mut piece = "<input disabled=\"\" type=\"checkbox\" ".to_owned();
        piece.append(
            if checked {
                "checked=\"\" "
            } else {
                ""
            },
        );
        piece.append("/>");
        w.append(piece.as_str());
    }

    /// Renders `event` at the end of `w`.
    pub fn on_event(&mut self, w: &mut String, event: Event)
        ensures
            final(w)@ == old(w)@ + event_html(old(self)@, event@),
            final(self)@ == after_event(old(self)@, event@),
    {
        match event {
            Event::Start(tag) => self.on_start(w, tag),
            Event::End(tag) => self.on_end(w, tag),
            Event::Code(code) => self.on_code(w, code.as_str()),
            Event::FootnoteReference(label) => {
                let mut piece = "<sup class=\"footnote-reference\"><a href=\"".to_owned();
                piece.append(escape_html(self.footnote_prefix.as_str()).as_str());
                piece.append("#");
                piece.append(label.as_str());
                piece.append("\">");
                piece.append(label.as_str());
                piece.append("</a></sup>");
                w.append(piece.as_str());
            },
            Event::HardBreak => self.on_hard_break(w),
            Event::Html(html) => self.on_html(w, html.as_str()),
            Event::Rule => self.on_rule(w),
            Event::SoftBreak => self.on_soft_break(w),
            Event::TaskListMarker(checked) => self.on_task_list_marker(w, checked),
            Event::Text(text) => self.on_text(w, text.as_str()),
        }
    }
}

/// The state and the HTML after rendering `events` from the beginning of
/// a document.
pub open spec fn rendering(footnote_prefix: Seq<char>, events: Seq<EventView>) -> (
    RendererView,
    Seq<char>,
)
    decreases events.len(),
{
    if events.len() == 0 {
        (initial_state(footnote_prefix), Seq::empty())
    } else {
        let before = rendering(footnote_prefix, events.drop_last());
        (after_event(before.0, events.last()), before.1 + event_html(before.0, events.last()))
    }
}

/// Renders `events` at the end of `out`, like a renderer of HTML that
/// knows nothing of footnotes on other pages, but with `footnote_prefix`
/// before the label in the link of every footnote reference.
pub fn push_html(out: &mut String, events: Vec<Event>, footnote_prefix: &str)
    ensures
        final(out)@ == old(out)@ + rendering(
            footnote_prefix@,
            event_views(events@),
        ).1,
{
    let ghost views = event_views(events@);
    let mut renderer = HtmlRenderer::with_footnote_prefix(footnote_prefix);
    let mut pending = reverse(events);
    let mut done: usize = 0;
    assert(views.len() == pending.len());
    assert(views.take(0) == Seq::<EventView>::empty());
    while pending.len() > 0
        invariant
            views.len() <= usize::MAX,
            done + pending@.len() == views.len(),
            pending@ == events@.reverse().take(pending@.len() as int),
            views == event_views(events@),
            renderer@ == rendering(footnote_prefix@, views.take(done as int)).0,
            out@ == old(out)@ + rendering(footnote_prefix@, views.take(done as int)).1,
        decreases pending@.len(),
    {
        let ghost before = rendering(footnote_prefix@, views.take(done as int));
        match pending.pop() {
            Some(event) => {
                assert(event == events@[done as int]);
                assert(views.take(done + 1).drop_last() == views.take(done as int));
                renderer.on_event(out, event);
                assert(old(out)@ + before.1 + event_html(before.0, views[done as int]) == old(
                    out,
                )@ + (before.1 + event_html(before.0, views[done as int])));
                done += 1;
            },
            None => {},
        }
    }
    assert(views.take(views.len() as int) == views);
}

} // verus!
