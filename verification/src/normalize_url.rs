//! Turns the path of a markdown source into the path of the page made from it.

use vstd::prelude::*;
use vstd::string::StringExecFns;
use crate::text::{chars_of, ends_with, text_of};
use crate::url::{Converter, UrlBuf, UrlError, bundle_base, joined, resolved, text_result};

verus! {

/// `input` without its ending `before`, followed by `after`; nothing when
/// `input` does not end with `before`.
pub open spec fn replaced_suffix(input: Seq<char>, before: Seq<char>, after: Seq<char>) -> Option<
    Seq<char>,
> {
    if before.is_suffix_of(input) {
        Some(input.take(input.len() - before.len()) + after)
    } else {
        None
    }
}

/// `s` without the slashes it begins with.
pub open spec fn skip_slashes(s: Seq<char>) -> Seq<char>
    decreases s.len(),
{
    if s.len() > 0 && s[0] == '/' {
        skip_slashes(s.drop_first())
    } else {
        s
    }
}

/// The page path for a source path that is relative to the posts root:
/// `dir/index.md` becomes `dir.html`, any other `name.md` becomes
/// `name.html`, and a path that is no markdown file stays as it is.
pub open spec fn md2html_text(relative: Seq<char>) -> Seq<char> {
    let path = skip_slashes(relative);
    if let Some(directory) = bundle_base(path) {
        directory + ".html"@
    } else if let Some(out) = replaced_suffix(path, ".md"@, ".html"@) {
        out
    } else {
        relative
    }
}

/// Replaces the ending `before` of `input` by `after`.
pub fn replace_suffix(input: &str, before: &str, after: &str) -> (out: Option<String>)
    ensures
        match out {
            Some(text) => replaced_suffix(input@, before@, after@) == Some(text@),
            None => replaced_suffix(input@, before@, after@) is None,
        },
{
    let chars = chars_of(input);
    let suffix = chars_of(before);
    if ends_with(chars.as_slice(), suffix.as_slice()) {
        let mut out = text_of(chars.as_slice(), 0, chars.len() - suffix.len());
        out.append(after);
        return Some(out);
    }
    return None;
}

/// The number of slashes that `chars` begins with.
fn leading_slashes(chars: &[char]) -> (n: usize)
    ensures
        n <= chars@.len(),
        skip_slashes(chars@) == chars@.skip(n as int),
{
    let mut n: usize = 0;
    assert(chars@.skip(0) == chars@);
    while n < chars.len() && chars[n] == '/'
        invariant
            n <= chars@.len(),
            skip_slashes(chars@) == skip_slashes(chars@.skip(n as int)),
        decreases chars@.len() - n,
    {
        assert(chars@.skip(n as int).drop_first() == chars@.skip(n + 1));
        n += 1;
    }
    n
}

/// Maps the path of a markdown source, relative to the posts root, to the
/// path of its page.
pub fn md2html(relative: &str) -> (out: String)
    ensures
        out@ == md2html_text(relative@),
{
    let chars = chars_of(relative);
    let n = leading_slashes(chars.as_slice());
    let path = text_of(chars.as_slice(), n, chars.len());
    if let Some(directory) = Converter::parse_bundle_base(path.as_str()) {
        let mut out = directory;
        out.append(".html");
        return out;
    }
    if let Some(out) = replace_suffix(path.as_str(), ".md", ".html") {
        return out;
    }
    return relative.to_owned();
}

/// Resolves the link `url`, found in the document at `base` below
/// `posts_url`, to the address it has in the rendered site.
pub fn convert(posts_url: &UrlBuf, base: &str, url: &str) -> (out: Result<String, UrlError>)
    ensures
        text_result(out) == match joined(posts_url@, base@) {
            Ok(document) => resolved(posts_url@, document, url@),
            Err(e) => Err(e),
        },
{
    match Converter::new(posts_url, base) {
        Ok(converter) => converter.convert(url),
        Err(e) => Err(e),
    }
}

} // verus!
