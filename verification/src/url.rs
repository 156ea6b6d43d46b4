//! Addresses of pages, and the resolution of the links that documents hold.
//!
//! A link in a document points at a source file, by an absolute address or
//! relative to the document. [`Converter`] turns it into the address of the
//! page that is made from that source. Reading, joining and relativizing
//! addresses is the work of the `url` crate; what it returns is named by
//! [`parsed`], [`joined`] and [`relative`], and this module proves what it
//! makes of those results.

use vstd::prelude::*;
use vstd::string::StringExecFns;
use ::url::{ParseError, Url};
use crate::normalize_url::{md2html, md2html_text};
use crate::text::{chars_of, ends_with, starts_with, text_of, text_option};

verus! {

/// Why a text could not be read as an address.
#[derive(Clone, Copy, Debug, PartialEq, Eq, Structural)]
pub enum UrlError {
    /// The text is a relative reference, and there was no base to resolve it against.
    RelativeUrlWithoutBase,
    /// The text is no address for any other reason.
    Invalid,
}

impl UrlError {
    /// What the error says.
    pub open spec fn message_text(self) -> Seq<char> {
        match self {
            UrlError::RelativeUrlWithoutBase => "relative URL without a base"@,
            UrlError::Invalid => "invalid URL"@,
        }
    }

    /// What the error says.
    pub fn message(&self) -> (out: String)
        ensures
            out@ == self.message_text(),
    {
        match self {
            UrlError::RelativeUrlWithoutBase => "relative URL without a base".to_owned(),
            UrlError::Invalid => "invalid URL".to_owned(),
        }
    }
}

/// What `url::Url::parse` makes of `input`: the serialization of the address
/// it reads, or why it reads none.
pub uninterp spec fn parsed(input: Seq<char>) -> Result<Seq<char>, UrlError>;

/// What `url::Url::join` makes of `input` against the address written as
/// `base`: the serialization of the resolved address, or why there is none.
pub uninterp spec fn joined(base: Seq<char>, input: Seq<char>) -> Result<Seq<char>, UrlError>;

/// What `url::Url::make_relative` returns for the addresses written as `base`
/// and `target`: the reference that leads from `base` to `target`, if there
/// is one.
pub uninterp spec fn relative(base: Seq<char>, target: Seq<char>) -> Option<Seq<char>>;

/// The outcome `r`, with the text of a success as a sequence of characters.
pub open spec fn text_result(r: Result<String, UrlError>) -> Result<Seq<char>, UrlError> {
    match r {
        Ok(text) => Ok(text@),
        Err(e) => Err(e),
    }
}

/// The outcome `r`, with the address of a success as a sequence of characters.
pub open spec fn url_result(r: Result<UrlBuf, UrlError>) -> Result<Seq<char>, UrlError> {
    match r {
        Ok(url) => Ok(url@),
        Err(e) => Err(e),
    }
}

/// Calls `url::Url::parse` on `input` and hands back the serialization of the
/// address. The error is `RelativeUrlWithoutBase` exactly when the crate
/// reports that variant, and `Invalid` for any other variant.
#[verifier::external_body]
fn parse_url(input: &str) -> (r: Result<String, UrlError>)
    ensures
        text_result(r) == parsed(input@),
{
    match Url::parse(input) {
        Ok(url) => Ok(String::from(url)),
        Err(ParseError::RelativeUrlWithoutBase) => Err(UrlError::RelativeUrlWithoutBase),
        Err(_) => Err(UrlError::Invalid),
    }
}

/// Reads `base` with `url::Url::parse`, calls `url::Url::join` on it with
/// `input`, and hands back the serialization of the result. A `base` that is
/// no address gives the error of reading it.
#[verifier::external_body]
fn join_url(base: &str, input: &str) -> (r: Result<String, UrlError>)
    ensures
        text_result(r) == joined(base@, input@),
{
    let resolved = match Url::parse(base) {
        Ok(base) => base.join(input),
        Err(e) => Err(e),
    };
    match resolved {
        Ok(url) => Ok(String::from(url)),
        Err(ParseError::RelativeUrlWithoutBase) => Err(UrlError::RelativeUrlWithoutBase),
        Err(_) => Err(UrlError::Invalid),
    }
}

/// Reads `base` and `target` with `url::Url::parse` and calls
/// `url::Url::make_relative` on the first with the second. Where either is
/// no address the result is `None`.
#[verifier::external_body]
fn relative_url(base: &str, target: &str) -> (r: Option<String>)
    ensures
        text_option(r) == relative(base@, target@),
{
    match (Url::parse(base), Url::parse(target)) {
        (Ok(base), Ok(target)) => base.make_relative(&target),
        _ => None,
    }
}

/// An address, held as text.
#[derive(Debug)]
pub struct UrlBuf {
    text: String,
}

impl View for UrlBuf {
    type V = Seq<char>;

    closed spec fn view(&self) -> Seq<char> {
        self.text@
    }
}

impl Clone for UrlBuf {
    fn clone(&self) -> (out: Self)
        ensures
            out@ == self@,
    {
        UrlBuf { text: self.text.clone() }
    }
}

/// `base` with a slash at its end, unless it has one already.
pub open spec fn with_trailing_slash(base: Seq<char>) -> Seq<char> {
    if base.len() > 0 && base.last() == '/' {
        base
    } else {
        base.push('/')
    }
}

/// The address of `segment` directly below `base`.
pub open spec fn below(base: Seq<char>, segment: Seq<char>) -> Seq<char> {
    with_trailing_slash(base) + segment
}

/// The text of `segment` directly below `base`: a slash stands between the
/// two, and none is added where `base` ends with one.
pub fn join_text(base: &str, segment: &str) -> (out: String)
    ensures
        out@ == below(base@, segment@),
{
    let chars = chars_of(base);
    let mut out = base.to_owned();
    if chars.len() == 0 || chars[chars.len() - 1] != '/' {
        out.append("/");
        proof {
            reveal_strlit("/");
            assert("/"@ =~= seq!['/']);
            assert(base@ + seq!['/'] =~= base@.push('/'));
        }
    }
    out.append(segment);
    out
}

impl UrlBuf {
    /// The address written as `text`, taken as it is.
    pub fn new(text: &str) -> (out: UrlBuf)
        ensures
            out@ == text@,
    {
        UrlBuf { text: text.to_owned() }
    }

    /// Reads `input` as an absolute address and keeps its normal form.
    pub fn parse(input: &str) -> (out: Result<UrlBuf, UrlError>)
        ensures
            url_result(out) == parsed(input@),
    {
        match parse_url(input) {
            Ok(text) => Ok(UrlBuf { text }),
            Err(e) => Err(e),
        }
    }

    /// Resolves `input`, which may be relative, against this address.
    pub fn resolve(&self, input: &str) -> (out: Result<UrlBuf, UrlError>)
        ensures
            url_result(out) == joined(self@, input@),
    {
        match join_url(self.text.as_str(), input) {
            Ok(text) => Ok(UrlBuf { text }),
            Err(e) => Err(e),
        }
    }

    /// The text of the address.
    pub fn as_str(&self) -> (out: &str)
        ensures
            out@ == self@,
    {
        self.text.as_str()
    }

    /// The text of the address, as a string of its own.
    pub fn to_string(&self) -> (out: String)
        ensures
            out@ == self@,
    {
        self.text.clone()
    }

    /// The address of `segment` directly below this one: a slash stands
    /// between the two, and none is added where this address ends with one.
    pub fn join(&self, segment: &str) -> (out: UrlBuf)
        ensures
            out@ == below(self@, segment@),
    {
        let text = join_text(self.text.as_str(), segment);
        UrlBuf { text }
    }
}

/// Whether a reference that leads from the posts root to a link's target
/// names a markdown source below that root: it does not climb out of the
/// root, and it ends with the markdown extension.
pub open spec fn names_source(reference: Seq<char>) -> bool {
    !"../"@.is_prefix_of(reference) && ".md"@.is_suffix_of(reference)
}

/// The page path that a link's target is rewritten to, given the reference
/// that leads to the target from the posts root: `None` where the target is
/// left alone.
pub open spec fn rewritten_reference(reference: Option<Seq<char>>) -> Option<Seq<char>> {
    match reference {
        Some(path) => if names_source(path) {
            Some(md2html_text(path))
        } else {
            None
        },
        None => None,
    }
}

/// The address that a link with the absolute target `target` gets.
pub open spec fn rewritten(posts_root: Seq<char>, target: Seq<char>) -> Result<Seq<char>, UrlError> {
    match rewritten_reference(relative(posts_root, target)) {
        Some(path) => joined(posts_root, path),
        None => Ok(target),
    }
}

/// The address that the link `link` gets in a document whose own address is
/// `document`.
pub open spec fn resolved(posts_root: Seq<char>, document: Seq<char>, link: Seq<char>) -> Result<
    Seq<char>,
    UrlError,
> {
    match parsed(link) {
        Ok(target) => rewritten(posts_root, target),
        Err(UrlError::RelativeUrlWithoutBase) => match joined(document, link) {
            Ok(target) => rewritten(posts_root, target),
            Err(e) => Err(e),
        },
        Err(e) => Err(e),
    }
}

/// A reference that ends like a page names no markdown source.
pub proof fn lemma_page_is_no_source(reference: Seq<char>)
    requires
        ".html"@.is_suffix_of(reference),
    ensures
        !names_source(reference),
        rewritten_reference(Some(reference)) is None,
{
    reveal_strlit(".html");
    reveal_strlit(".md");
    if ".md"@.is_suffix_of(reference) {
        let n = reference.len() as int;
        assert(reference.subrange(n - 5, n)[4] == 'l');
        assert(reference.subrange(n - 3, n)[2] == 'd');
    }
}

/// A link that is in its final form stays as it is. Where the target of
/// `link` is the address `target`, whether `link` is written as an address
/// or relative to the document, and no reference that names a markdown
/// source leads to `target` from the posts root (it is outside the root,
/// an asset, or a page), the link resolves to `target`.
pub proof fn lemma_final_link_unchanged(
    posts_root: Seq<char>,
    document: Seq<char>,
    link: Seq<char>,
    target: Seq<char>,
)
    requires
        parsed(link) == Ok::<Seq<char>, UrlError>(target) || (parsed(link) == Err::<
            Seq<char>,
            UrlError,
        >(UrlError::RelativeUrlWithoutBase) && joined(document, link) == Ok::<Seq<char>, UrlError>(
            target,
        )),
        rewritten_reference(relative(posts_root, target)) is None,
    ensures
        resolved(posts_root, document, link) == Ok::<Seq<char>, UrlError>(target),
{
}

/// The directory of a bundle, given the path of the bundle's index source.
pub open spec fn bundle_base(path: Seq<char>) -> Option<Seq<char>> {
    if "/index.md"@.is_suffix_of(path) {
        Some(path.take(path.len() - "/index.md"@.len()))
    } else {
        None
    }
}

/// Decides what becomes of a link's target, given the reference that leads to
/// it from the posts root (`None` where no reference leads there): the page
/// path to link to instead, or `None` to keep the target.
pub fn rewrite_reference(reference: Option<&str>) -> (out: Option<String>)
    ensures
        text_option(out) == rewritten_reference(
            match reference {
                Some(path) => Some(path@),
                None => None,
            },
        ),
{
    match reference {
        Some(path) => {
            let chars = chars_of(path);
            let up = chars_of("../");
            let extension = chars_of(".md");
            if !starts_with(chars.as_slice(), up.as_slice()) && ends_with(
                chars.as_slice(),
                extension.as_slice(),
            ) {
                Some(md2html(path))
            } else {
                None
            }
        },
        None => None,
    }
}

/// Resolves the links of one document.
pub struct Converter<'a> {
    posts_root: &'a UrlBuf,
    base: UrlBuf,
}

impl<'a> Converter<'a> {
    /// The address below which all posts live.
    pub closed spec fn posts_root(&self) -> Seq<char> {
        self.posts_root@
    }

    /// The address of the document whose links are resolved.
    pub closed spec fn base(&self) -> Seq<char> {
        self.base@
    }

    /// A converter for the links of the document at `base`, a path relative
    /// to `posts_root`.
    pub fn new(posts_root: &'a UrlBuf, base: &str) -> (out: Result<Converter<'a>, UrlError>)
        ensures
            match out {
                Ok(converter) => converter.posts_root() == posts_root@ && joined(posts_root@, base@)
                    == Ok::<Seq<char>, UrlError>(converter.base()),
                Err(e) => joined(posts_root@, base@) == Err::<Seq<char>, UrlError>(e),
            },
    {
        match join_url(posts_root.as_str(), base) {
            Ok(text) => Ok(Converter { posts_root, base: UrlBuf { text } }),
            Err(e) => Err(e),
        }
    }

    /// The directory of the bundle whose index source is at `normalized`,
    /// if `normalized` is the path of such an index.
    pub fn parse_bundle_base(normalized: &str) -> (out: Option<String>)
        ensures
            text_option(out) == bundle_base(normalized@),
    {
        let chars = chars_of(normalized);
        let index = chars_of("/index.md");
        if ends_with(chars.as_slice(), index.as_slice()) {
            Some(text_of(chars.as_slice(), 0, chars.len() - index.len()))
        } else {
            None
        }
    }

    /// The address for a link whose target is the absolute address `absolute`.
    pub fn convert_absolute(&self, absolute: UrlBuf) -> (out: Result<UrlBuf, UrlError>)
        ensures
            url_result(out) == rewritten(self.posts_root(), absolute@),
    {
        let reference = relative_url(self.posts_root.as_str(), absolute.as_str());
        let path = match &reference {
            Some(text) => rewrite_reference(Some(text.as_str())),
            None => rewrite_reference(None),
        };
        match path {
            Some(page) => match join_url(self.posts_root.as_str(), page.as_str()) {
                Ok(text) => Ok(UrlBuf { text }),
                Err(e) => Err(e),
            },
            None => Ok(absolute),
        }
    }

    /// The address for the link `url`, which is absolute or relative to the
    /// document.
    pub fn convert_unknown(&self, url: &str) -> (out: Result<UrlBuf, UrlError>)
        ensures
            url_result(out) == resolved(self.posts_root(), self.base(), url@),
    {
        match parse_url(url) {
            Ok(text) => self.convert_absolute(UrlBuf { text }),
            Err(UrlError::RelativeUrlWithoutBase) => match join_url(self.base.as_str(), url) {
                Ok(text) => self.convert_absolute(UrlBuf { text }),
                Err(e) => Err(e),
            },
            Err(e) => Err(e),
        }
    }

    /// The address, as text, for the link `url`.
    pub fn convert(&self, url: &str) -> (out: Result<String, UrlError>)
        ensures
            text_result(out) == resolved(self.posts_root(), self.base(), url@),
    {
        match self.convert_unknown(url) {
            Ok(address) => Ok(address.to_string()),
            Err(e) => Err(e),
        }
    }
}

} // verus!
