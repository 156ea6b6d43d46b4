//! Tags, and the slug that identifies one.
//!
//! Two spellings name the same tag exactly when they have the same slug:
//! the ASCII letters and digits of the spelling, in order, letters in lower
//! case. The empty slug is kept for the index of all posts, so no tag has it.

use vstd::prelude::*;
use crate::text::{chars_of, push_char, same_text, texts};
use crate::url::{UrlBuf, below};

verus! {

/// An upper-case ASCII letter.
pub open spec fn is_upper(c: char) -> bool {
    'A' <= c <= 'Z'
}

/// A character that a slug may hold: a lower-case ASCII letter or a digit.
pub open spec fn is_slug_char(c: char) -> bool {
    'a' <= c <= 'z' || '0' <= c <= '9'
}

/// An ASCII letter or digit.
pub open spec fn is_alphanumeric(c: char) -> bool {
    is_upper(c) || is_slug_char(c)
}

/// `c` in lower case, where it is an upper-case ASCII letter; else `c`.
pub open spec fn lower(c: char) -> char {
    if is_upper(c) {
        ((c as u8) + 32) as char
    } else {
        c
    }
}

/// The slug of a spelling.
pub open spec fn slug_text(name: Seq<char>) -> Seq<char>
    decreases name.len(),
{
    if name.len() == 0 {
        Seq::empty()
    } else if is_alphanumeric(name.last()) {
        slug_text(name.drop_last()).push(lower(name.last()))
    } else {
        slug_text(name.drop_last())
    }
}

/// Every character of `s` may stand in a slug.
pub open spec fn is_slug(s: Seq<char>) -> bool {
    forall|i: int| 0 <= i < s.len() ==> is_slug_char(#[trigger] s[i])
}

/// `seen`, followed by the texts of `names` that are neither empty nor in
/// `seen`, each once, in the order in which they first occur.
pub open spec fn first_seen(seen: Seq<Seq<char>>, names: Seq<Seq<char>>) -> Seq<Seq<char>>
    decreases names.len(),
{
    if names.len() == 0 {
        seen
    } else {
        let before = first_seen(seen, names.drop_last());
        if names.last().len() == 0 || before.contains(names.last()) {
            before
        } else {
            before.push(names.last())
        }
    }
}

/// The slug of each of `names`.
pub open spec fn slugs(names: Seq<Seq<char>>) -> Seq<Seq<char>> {
    Seq::new(names.len(), |i: int| slug_text(names[i]))
}

/// The slugs of `names` in the order in which they first occur, each once,
/// the empty slug left out.
pub open spec fn distinct_slugs(names: Seq<Seq<char>>) -> Seq<Seq<char>> {
    first_seen(Seq::empty(), slugs(names))
}

/// The address of the first index page of the tag with the slug `slug`.
pub open spec fn tag_url(index_url: Seq<char>, slug: Seq<char>) -> Seq<char> {
    below(below(index_url, slug), "index.html"@)
}

/// The slug of a list of characters is the slug of its front part followed
/// by the slug of its back part.
pub proof fn lemma_slug_concat(front: Seq<char>, back: Seq<char>)
    ensures
        slug_text(front + back) == slug_text(front) + slug_text(back),
    decreases back.len(),
{
    if back.len() == 0 {
        assert(front + back == front);
        assert(slug_text(front) + slug_text(back) == slug_text(front));
    } else {
        lemma_slug_concat(front, back.drop_last());
        assert((front + back).drop_last() == front + back.drop_last());
        assert((front + back).last() == back.last());
        if is_alphanumeric(back.last()) {
            assert((slug_text(front) + slug_text(back.drop_last())).push(lower(back.last()))
                == slug_text(front) + slug_text(back.drop_last()).push(lower(back.last())));
        }
    }
}

/// A slug holds slug characters only.
pub proof fn lemma_slug_is_slug(name: Seq<char>)
    ensures
        is_slug(slug_text(name)),
    decreases name.len(),
{
    if name.len() > 0 {
        lemma_slug_is_slug(name.drop_last());
    }
}

/// The slug of a text that holds slug characters only is that text.
pub proof fn lemma_slug_of_slug(s: Seq<char>)
    requires
        is_slug(s),
    ensures
        slug_text(s) == s,
    decreases s.len(),
{
    if s.len() > 0 {
        lemma_slug_of_slug(s.drop_last());
        assert(is_slug_char(s.last()));
        assert(s.drop_last().push(s.last()) == s);
    }
}

/// Slugging is idempotent: the slug of a slug is that slug.
pub proof fn lemma_slug_idempotent(name: Seq<char>)
    ensures
        slug_text(slug_text(name)) == slug_text(name),
{
    lemma_slug_is_slug(name);
    lemma_slug_of_slug(slug_text(name));
}

/// Slugging ignores case: two spellings of one length that differ only in
/// the case of their ASCII letters have the same slug.
pub proof fn lemma_slug_ignores_case(one: Seq<char>, other: Seq<char>)
    requires
        one.len() == other.len(),
        forall|i: int| 0 <= i < one.len() ==> lower(#[trigger] one[i]) == lower(other[i]),
    ensures
        slug_text(one) == slug_text(other),
    decreases one.len(),
{
    if one.len() > 0 {
        assert forall|i: int| 0 <= i < one.drop_last().len() implies lower(
            #[trigger] one.drop_last()[i],
        ) == lower(other.drop_last()[i]) by {
            assert(lower(one[i]) == lower(other[i]));
        }
        lemma_slug_ignores_case(one.drop_last(), other.drop_last());
        assert(lower(one[one.len() - 1]) == lower(other[one.len() - 1]));
    }
}

/// Slugging ignores punctuation: a character that is no ASCII letter or
/// digit can be put anywhere into a spelling without changing its slug.
pub proof fn lemma_slug_ignores_punctuation(front: Seq<char>, c: char, back: Seq<char>)
    requires
        !is_alphanumeric(c),
    ensures
        slug_text(front.push(c) + back) == slug_text(front + back),
{
    lemma_slug_concat(front.push(c), back);
    lemma_slug_concat(front, back);
    assert(front.push(c).drop_last() == front);
}

/// Nothing occurs twice in `first_seen(seen, names)`, and nothing in it is
/// empty, where this holds of `seen`.
pub proof fn lemma_first_seen_distinct(seen: Seq<Seq<char>>, names: Seq<Seq<char>>)
    requires
        seen.no_duplicates(),
        forall|i: int| 0 <= i < seen.len() ==> (#[trigger] seen[i]).len() > 0,
    ensures
        first_seen(seen, names).no_duplicates(),
        forall|i: int|
            0 <= i < first_seen(seen, names).len() ==> (#[trigger] first_seen(seen, names)[i]).len()
                > 0,
    decreases names.len(),
{
    if names.len() > 0 {
        lemma_first_seen_distinct(seen, names.drop_last());
    }
}

/// `first_seen(seen, names)` begins with `seen`.
pub proof fn lemma_first_seen_extends(seen: Seq<Seq<char>>, names: Seq<Seq<char>>)
    ensures
        seen.is_prefix_of(first_seen(seen, names)),
    decreases names.len(),
{
    if names.len() > 0 {
        lemma_first_seen_extends(seen, names.drop_last());
    }
}

/// `first_seen(seen, names)` holds exactly the members of `seen` and the
/// members of `names` that are not empty.
pub proof fn lemma_first_seen_contains(seen: Seq<Seq<char>>, names: Seq<Seq<char>>, name: Seq<char>)
    ensures
        first_seen(seen, names).contains(name) <==> seen.contains(name) || (name.len() > 0
            && names.contains(name)),
    decreases names.len(),
{
    if names.len() > 0 {
        let front = names.drop_last();
        let before = first_seen(seen, front);
        let after = first_seen(seen, names);
        lemma_first_seen_contains(seen, front, name);
        if names.contains(name) && !front.contains(name) {
            let i = choose|i: int| 0 <= i < names.len() && names[i] == name;
            if i < names.len() - 1 {
                assert(front[i] == name);
            }
            assert(names.last() == name);
        }
        if front.contains(name) {
            let i = choose|i: int| 0 <= i < front.len() && front[i] == name;
            assert(names[i] == name);
        }
        if before.contains(name) {
            let k = choose|k: int| 0 <= k < before.len() && before[k] == name;
            assert(after[k] == name);
        }
        if after.contains(name) && !before.contains(name) {
            let k = choose|k: int| 0 <= k < after.len() && after[k] == name;
            assert(after == before.push(names.last()));
            if k < before.len() {
                assert(before[k] == name);
            }
            assert(name == names.last());
            assert(names[names.len() - 1] == name);
        }
        if name.len() > 0 && names.last() == name && !before.contains(name) {
            assert(after.last() == name);
        }
    }
}

/// No slug occurs twice among the distinct slugs of `names`, and none is empty.
pub proof fn lemma_distinct_slugs_no_duplicates(names: Seq<Seq<char>>)
    ensures
        distinct_slugs(names).no_duplicates(),
        forall|i: int|
            0 <= i < distinct_slugs(names).len() ==> (#[trigger] distinct_slugs(names)[i]).len()
                > 0,
{
    lemma_first_seen_distinct(Seq::empty(), slugs(names));
}

/// The distinct slugs of `names` are exactly the slugs of its members that
/// are not empty.
pub proof fn lemma_distinct_slugs_complete(names: Seq<Seq<char>>, slug: Seq<char>)
    ensures
        distinct_slugs(names).contains(slug) <==> slug.len() > 0 && exists|i: int|
            0 <= i < names.len() && slug_text(#[trigger] names[i]) == slug,
{
    lemma_first_seen_contains(Seq::empty(), slugs(names), slug);
    if slugs(names).contains(slug) {
        let i = choose|i: int| 0 <= i < slugs(names).len() && slugs(names)[i] == slug;
        assert(slug_text(names[i]) == slug);
    }
    if exists|i: int| 0 <= i < names.len() && slug_text(#[trigger] names[i]) == slug {
        let i = choose|i: int| 0 <= i < names.len() && slug_text(#[trigger] names[i]) == slug;
        assert(slugs(names)[i] == slug);
    }
}

/// The slug of `name`.
pub fn slug(name: &str) -> (out: String)
    ensures
        out@ == slug_text(name@),
{
    let chars = chars_of(name);
    let mut out = String::new();
    let mut i: usize = 0;
    while i < chars.len()
        invariant
            i <= chars@.len(),
            out@ == slug_text(chars@.take(i as int)),
        decreases chars@.len() - i,
    {
        let c = chars[i];
        assert(chars@.take(i + 1).drop_last() == chars@.take(i as int));
        if 'A' <= c && c <= 'Z' {
            push_char(&mut out, ((c as u8) + 32) as char);
        } else if ('a' <= c && c <= 'z') || ('0' <= c && c <= '9') {
            push_char(&mut out, c);
        }
        i += 1;
    }
    assert(chars@.take(chars@.len() as int) == chars@);
    out
}

/// A tag of a post.
#[derive(Debug)]
pub struct Tag {
    /// The slug of the tag.
    pub name: String,
    /// The address of the first page of the tag's index.
    pub url: UrlBuf,
}

impl Clone for Tag {
    fn clone(&self) -> (out: Self)
        ensures
            out.name@ == self.name@,
            out.url@ == self.url@,
    {
        Tag { name: self.name.clone(), url: self.url.clone() }
    }
}

impl PartialEq for Tag {
    /// Two tags are the same tag exactly when their slugs are equal.
    fn eq(&self, other: &Self) -> (same: bool) {
        self.name == other.name
    }
}

impl vstd::std_specs::cmp::PartialEqSpecImpl for Tag {
    open spec fn obeys_eq_spec() -> bool {
        true
    }

    open spec fn eq_spec(&self, other: &Self) -> bool {
        self.name@ == other.name@
    }
}

impl Eq for Tag {

}

impl Tag {
    /// The name is a slug and not empty.
    pub open spec fn wf(&self) -> bool {
        self.name@.len() > 0 && is_slug(self.name@)
    }

    /// The tag that `name` spells, with the address of its index below
    /// `index_url`; `None` where the slug of `name` is empty.
    pub fn new(name: &str, index_url: &UrlBuf) -> (out: Option<Tag>)
        ensures
            out is Some <==> slug_text(name@).len() > 0,
            out matches Some(tag) ==> tag.wf() && tag.name@ == slug_text(name@) && tag.url@
                == tag_url(index_url@, tag.name@),
    {
        let slug = slug(name);
        proof {
            lemma_slug_is_slug(name@);
        }
        if slug.as_str().unicode_len() == 0 {
            return None;
        }
        let url = index_url.join(slug.as_str()).join("index.html");
        Some(Tag { name: slug, url })
    }
}

/// The slugs of `tags`, in their order.
pub open spec fn tag_slugs(tags: Seq<Tag>) -> Seq<Seq<char>> {
    Seq::new(tags.len(), |i: int| tags[i].name@)
}

/// Whether `tags` holds a tag with the slug `slug`.
fn has_slug(tags: &Vec<Tag>, slug: &str) -> (found: bool)
    ensures
        found == tag_slugs(tags@).contains(slug@),
{
    let mut k: usize = 0;
    while k < tags.len()
        invariant
            k <= tags@.len(),
            forall|m: int| 0 <= m < k ==> (#[trigger] tag_slugs(tags@)[m]) != slug@,
        decreases tags@.len() - k,
    {
        if same_text(tags[k].name.as_str(), slug) {
            assert(tag_slugs(tags@)[k as int] == slug@);
            return true;
        }
        k += 1;
    }
    false
}

/// The tags that `names` spell, each once, in the order in which they
/// first occur; a spelling whose slug is empty spells no tag.
pub fn collect_tags(names: &Vec<String>, index_url: &UrlBuf) -> (out: Vec<Tag>)
    ensures
        tag_slugs(out@) == distinct_slugs(texts(names@)),
        forall|i: int|
            0 <= i < out@.len() ==> (#[trigger] out@[i]).wf() && out@[i].url@ == tag_url(
                index_url@,
                out@[i].name@,
            ),
        forall|i: int, j: int|
            0 <= i < j < out@.len() ==> (#[trigger] out@[i]).name@ != (#[trigger] out@[j]).name@,
{
    let mut out: Vec<Tag> = Vec::new();
    let mut i: usize = 0;
    let ghost all = slugs(texts(names@));
    assert(all.take(0) == Seq::<Seq<char>>::empty());
    while i < names.len()
        invariant
            i <= names@.len(),
            all == slugs(texts(names@)),
            tag_slugs(out@) == first_seen(Seq::empty(), all.take(i as int)),
            forall|k: int|
                0 <= k < out@.len() ==> (#[trigger] out@[k]).wf() && out@[k].url@ == tag_url(
                    index_url@,
                    out@[k].name@,
                ),
        decreases names@.len() - i,
    {
        assert(all.take(i + 1).drop_last() == all.take(i as int));
        assert(all.take(i + 1).last() == slug_text(names@[i as int]@));
        let ghost before = tag_slugs(out@);
        match Tag::new(names[i].as_str(), index_url) {
            Some(tag) => {
                if !has_slug(&out, tag.name.as_str()) {
                    out.push(tag);
                    assert(tag_slugs(out@) == before.push(tag.name@));
                }
            },
            None => {},
        }
        i += 1;
    }
    assert(all.take(names@.len() as int) == all);
    proof {
        lemma_first_seen_distinct(Seq::empty(), all);
        assert forall|i: int, j: int| 0 <= i < j < out@.len() implies (#[trigger] out@[i]).name@
            != (#[trigger] out@[j]).name@ by {
            assert(tag_slugs(out@)[i] == out@[i].name@);
            assert(tag_slugs(out@)[j] == out@[j].name@);
        }
    }
    out
}

} // verus!
