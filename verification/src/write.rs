//! The pages of a site: the index of all posts and one index per tag, each
//! cut into pages of a fixed size, and one page per post.

use vstd::prelude::*;
use vstd::slice::slice_subrange;
use vstd::string::StringExecFns;
use crate::page::{Page, link_text};
use crate::post::{Post, post_node, summary_node};
use crate::slice::Slice;
use crate::tag::{
    first_seen, is_slug, is_slug_char, lemma_first_seen_contains, lemma_first_seen_distinct,
};
use crate::text::{
    decimal, lemma_decimal_digits, lemma_decimal_injective, lemma_decimal_len, push_decimal,
    same_text, texts,
};
use crate::url::{UrlBuf, below, join_text, with_trailing_slash};
use crate::value::{Node, Value, link_node};

verus! {

/// Why the pages of a site could not be laid out.
#[derive(Clone, Copy, Debug, PartialEq, Eq, Structural)]
pub enum Error {
    /// The number of posts per index page is zero.
    PageSize,
}

impl Error {
    /// What the error says.
    pub open spec fn message_text(self) -> Seq<char> {
        match self {
            Error::PageSize => "The number of posts per index page must be at least 1"@,
        }
    }

    /// What the error says.
    pub fn message(&self) -> (out: String)
        ensures
            out@ == self.message_text(),
    {
        match self {
            Error::PageSize => "The number of posts per index page must be at least 1".to_owned(),
        }
    }
}

/// The number of pages that `count` items fill, `size` items to a page.
pub open spec fn page_count(count: nat, size: nat) -> nat
    recommends
        size > 0,
{
    if count % size == 0 {
        count / size
    } else {
        count / size + 1
    }
}

/// The name of page `i` of a sequence, without its extension: `index` for
/// the first page, the number of the page for the others.
pub open spec fn page_id(i: nat) -> Seq<char> {
    if i == 0 {
        "index"@
    } else {
        decimal(i)
    }
}

/// The file name of page `i` of a sequence.
pub open spec fn page_file(i: nat) -> Seq<char> {
    page_id(i) + ".html"@
}

/// The address of page `i` of the sequence below `base`.
pub open spec fn page_url(base: Seq<char>, i: nat) -> Seq<char> {
    below(base, page_file(i))
}

/// The items of page `i`, `size` items to a page.
pub open spec fn page_items<T>(items: Seq<T>, size: nat, i: nat) -> Seq<T> {
    items.subrange(
        (i * size) as int,
        if (i + 1) * size <= items.len() {
            ((i + 1) * size) as int
        } else {
            items.len() as int
        },
    )
}

/// The address before page `i`: none for the first page.
pub open spec fn prev_url(base: Seq<char>, i: nat) -> Option<Seq<char>> {
    if i == 0 {
        None
    } else {
        Some(page_url(base, (i - 1) as nat))
    }
}

/// The address after page `i` of `total` pages: none for the last page.
pub open spec fn next_url(base: Seq<char>, i: nat, total: nat) -> Option<Seq<char>> {
    if i + 1 < total {
        Some(page_url(base, i + 1))
    } else {
        None
    }
}

/// `page` is page `i` of `items`, cut into pages of `size` items below `base`.
pub open spec fn is_index_page<T>(
    page: Page<Slice<'_, T>>,
    items: Seq<T>,
    size: nat,
    base: Seq<char>,
    i: nat,
) -> bool {
    &&& page.id@ == page_id(i)
    &&& page.item@ == page_items(items, size, i)
    &&& link_text(page.prev) == prev_url(base, i)
    &&& link_text(page.next) == next_url(base, i, page_count(items.len(), size))
}

/// Where page `i` of `count` items begins and ends.
pub proof fn lemma_page_bounds(count: nat, size: nat, i: nat)
    requires
        size > 0,
        i < page_count(count, size),
    ensures
        i * size < count,
        i + 1 < page_count(count, size) ==> (i + 1) * size <= count,
        i + 1 == page_count(count, size) ==> count <= (i + 1) * size,
        page_count(count, size) <= count,
{
    let q = count / size;
    let r = count % size;
    vstd::arithmetic::div_mod::lemma_fundamental_div_mod(count as int, size as int);
    assert(count == size * q + r);
    assert(0 <= r < size);
    assert(i * size < count && (i + 1 < page_count(count, size) ==> (i + 1) * size <= count) && (i
        + 1 == page_count(count, size) ==> count <= (i + 1) * size) && page_count(count, size)
        <= count) by (nonlinear_arith)
        requires
            count == size * q + r,
            0 <= r < size,
            size > 0,
            i < page_count(count, size),
            page_count(count, size) == (if r == 0 {
                q
            } else {
                q + 1
            }),
    ;
}

/// In an unbroken chain every page but the last names the page after it,
/// and that page names it back.
pub proof fn lemma_index_links_unbroken(base: Seq<char>, i: nat, total: nat)
    requires
        i + 1 < total,
    ensures
        next_url(base, i, total) == Some(page_url(base, i + 1)),
        prev_url(base, i + 1) == Some(page_url(base, i)),
        prev_url(base, 0) is None,
        next_url(base, (total - 1) as nat, total) is None,
{
}

/// Of the pages of one sequence, the first alone names no page before
/// it, and the last alone names no page after it.
pub proof fn lemma_index_ends(base: Seq<char>, i: nat, total: nat)
    requires
        i < total,
    ensures
        prev_url(base, i) is None <==> i == 0,
        next_url(base, i, total) is None <==> i + 1 == total,
{
}

/// Different pages of a sequence have different names.
pub proof fn lemma_page_id_injective(i: nat, j: nat)
    requires
        page_id(i) == page_id(j),
    ensures
        i == j,
{
    reveal_strlit("index");
    if i == 0 && j != 0 {
        lemma_decimal_len(j);
        lemma_decimal_digits(j, 0);
        assert("index"@[0] == 'i');
    } else if i != 0 && j == 0 {
        lemma_decimal_len(i);
        lemma_decimal_digits(i, 0);
        assert("index"@[0] == 'i');
    } else if i != 0 && j != 0 {
        lemma_decimal_injective(i, j);
    }
}

/// Different texts below one base are different.
pub proof fn lemma_below_injective(base: Seq<char>, one: Seq<char>, other: Seq<char>)
    requires
        below(base, one) == below(base, other),
    ensures
        one == other,
{
    let front = with_trailing_slash(base);
    assert(one == (front + one).subrange(front.len() as int, (front + one).len() as int));
    assert(other == (front + other).subrange(front.len() as int, (front + other).len() as int));
}

/// Different pages of a sequence have different addresses, and are
/// written to different files: no page overwrites another.
pub proof fn lemma_page_url_injective(base: Seq<char>, i: nat, j: nat)
    requires
        page_url(base, i) == page_url(base, j),
    ensures
        i == j,
{
    lemma_below_injective(base, page_file(i), page_file(j));
    let end = ".html"@;
    assert(page_id(i) == (page_id(i) + end).subrange(0, page_id(i).len() as int));
    assert(page_id(j) == (page_id(j) + end).subrange(0, page_id(j).len() as int));
    assert(page_id(i).len() + end.len() == page_id(j).len() + end.len());
    lemma_page_id_injective(i, j);
}

/// The name of page `i`, without its extension.
pub fn page_name(i: usize) -> (out: String)
    ensures
        out@ == page_id(i as nat),
{
    if i == 0 {
        "index".to_owned()
    } else {
        let mut out = String::new();
        push_decimal(&mut out, i as u64);
        assert(Seq::<char>::empty() + decimal(i as nat) == decimal(i as nat));
        out
    }
}

/// The address of page `i` of the sequence below `base`.
pub fn page_address(base: &UrlBuf, i: usize) -> (out: UrlBuf)
    ensures
        out@ == page_url(base@, i as nat),
{
    let mut file = page_name(i);
    file.append(".html");
    base.join(file.as_str())
}

/// Cuts `items` into pages of `page_size` items each, the last page taking
/// what is left. The pages live below `base_url`; each names the page
/// before and the page after it.
pub fn paginate<'a, T>(items: &'a [T], page_size: usize, base_url: &UrlBuf) -> (out: Result<
    Vec<Page<Slice<'a, T>>>,
    Error,
>)
    ensures
        out is Err <==> page_size == 0,
        out matches Ok(pages) ==> {
            &&& pages@.len() == page_count(items@.len(), page_size as nat)
            &&& forall|i: int|
                0 <= i < pages@.len() ==> is_index_page(
                    #[trigger] pages@[i],
                    items@,
                    page_size as nat,
                    base_url@,
                    i as nat,
                )
        },
{
    if page_size == 0 {
        return Err(Error::PageSize);
    }
    let count = items.len();
    proof {
        if count % page_size != 0 {
            lemma_page_bounds(count as nat, page_size as nat, 0);
        }
    }
    let total = if count % page_size == 0 {
        count / page_size
    } else {
        count / page_size + 1
    };
    let mut pages: Vec<Page<Slice<'a, T>>> = Vec::new();
    let mut i: usize = 0;
    while i < total
        invariant
            page_size > 0,
            count == items@.len(),
            total == page_count(count as nat, page_size as nat),
            i <= total,
            pages@.len() == i,
            forall|k: int|
                0 <= k < i ==> is_index_page(
                    #[trigger] pages@[k],
                    items@,
                    page_size as nat,
                    base_url@,
                    k as nat,
                ),
        decreases total - i,
    {
        proof {
            lemma_page_bounds(count as nat, page_size as nat, i as nat);
        }
        let start = i * page_size;
        assert(start + page_size == (i + 1) * page_size) by (nonlinear_arith)
            requires
                start == i * page_size,
        ;
        let end = if i + 1 < total {
            start + page_size
        } else {
            count
        };
        let prev = if i == 0 {
            None
        } else {
            Some(page_address(base_url, i - 1))
        };
        let next = if i + 1 < total {
            Some(page_address(base_url, i + 1))
        } else {
            None
        };
        let page = Page {
            item: Slice::new(slice_subrange(items, start, end)),
            id: page_name(i),
            prev,
            next,
        };
        pages.push(page);
        i += 1;
    }
    Ok(pages)
}

/// `page` is the page of post `i` of `posts`.
pub open spec fn is_post_page(page: Page<&Post>, posts: Seq<Post>, i: int) -> bool {
    &&& *page.item == posts[i]
    &&& page.id@ == posts[i].id@
    &&& link_text(page.prev) == (if i == 0 {
        None
    } else {
        Some(posts[i - 1].url@)
    })
    &&& link_text(page.next) == (if i + 1 < posts.len() {
        Some(posts[i + 1].url@)
    } else {
        None
    })
}

/// In the chain of the pages of the posts every page but the first names
/// the address of the page before it, every page but the last names the
/// address of the page after it, and the two ends name nothing beyond them.
pub proof fn lemma_post_chain(pages: Seq<Page<&Post>>, posts: Seq<Post>, i: int)
    requires
        pages.len() == posts.len(),
        forall|k: int| 0 <= k < pages.len() ==> is_post_page(#[trigger] pages[k], posts, k),
        0 <= i < pages.len(),
    ensures
        i == 0 <==> pages[i].prev is None,
        i == pages.len() - 1 <==> pages[i].next is None,
        i > 0 ==> link_text(pages[i].prev) == Some(pages[i - 1].item.url@),
        i < pages.len() - 1 ==> link_text(pages[i].next) == Some(pages[i + 1].item.url@),
{
    assert(is_post_page(pages[i], posts, i));
    if i > 0 {
        assert(is_post_page(pages[i - 1], posts, i - 1));
    }
    if i < pages.len() - 1 {
        assert(is_post_page(pages[i + 1], posts, i + 1));
    }
}

/// In the chain of the pages of an index every page but the last names
/// the address of the page after it, and that page names it back; the
/// addresses are those of the pages with the names that the pages have.
pub proof fn lemma_index_chain<T>(
    pages: Seq<Page<Slice<'_, T>>>,
    items: Seq<T>,
    size: nat,
    base: Seq<char>,
    i: int,
)
    requires
        pages.len() == page_count(items.len(), size),
        forall|k: int|
            0 <= k < pages.len() ==> is_index_page(#[trigger] pages[k], items, size, base, k as nat),
        0 <= i < pages.len() - 1,
    ensures
        link_text(pages[i].next) == Some(below(base, pages[i + 1].id@ + ".html"@)),
        link_text(pages[i + 1].prev) == Some(below(base, pages[i].id@ + ".html"@)),
        pages[0].id@ == "index"@,
        pages[i + 1].id@ == decimal((i + 1) as nat),
{
    assert(is_index_page(pages[i], items, size, base, i as nat));
    assert(is_index_page(pages[i + 1], items, size, base, (i + 1) as nat));
    assert(is_index_page(pages[0], items, size, base, 0));
}

/// One page per post, in the order of `posts`. Each page names the posts
/// that stand before and after its own; the first has none before it, the
/// last none after it.
pub fn post_pages<'a>(posts: &'a [Post]) -> (out: Vec<Page<&'a Post>>)
    ensures
        out@.len() == posts@.len(),
        forall|i: int| 0 <= i < out@.len() ==> is_post_page(#[trigger] out@[i], posts@, i),
{
    let mut pages: Vec<Page<&'a Post>> = Vec::new();
    let mut i: usize = 0;
    while i < posts.len()
        invariant
            i <= posts@.len(),
            pages@.len() == i,
            forall|k: int| 0 <= k < i ==> is_post_page(#[trigger] pages@[k], posts@, k),
        decreases posts@.len() - i,
    {
        let prev = if i < 1 {
            None
        } else {
            Some(posts[i - 1].url.clone())
        };
        let next = if i + 1 < posts.len() {
            Some(posts[i + 1].url.clone())
        } else {
            None
        };
        pages.push(Page { item: &posts[i], id: posts[i].id.clone(), prev, next });
        i += 1;
    }
    pages
}

/// The posts of `posts` that have the tag `slug`, in their order.
pub open spec fn tagged(posts: Seq<Post>, slug: Seq<char>) -> Seq<Post>
    decreases posts.len(),
{
    if posts.len() == 0 {
        Seq::empty()
    } else if posts.last().has_tag(slug) {
        tagged(posts.drop_last(), slug).push(posts.last())
    } else {
        tagged(posts.drop_last(), slug)
    }
}

/// Whether a post of `posts` has the tag `slug`.
pub open spec fn in_use(posts: Seq<Post>, slug: Seq<char>) -> bool {
    exists|i: int| 0 <= i < posts.len() && (#[trigger] posts[i]).has_tag(slug)
}

/// The slugs of the tags of `post`, in their order.
pub open spec fn tag_names_of(post: Post) -> Seq<Seq<char>> {
    Seq::new(post.tags@.len(), |j: int| post.tags@[j].name@)
}

/// The slugs of the tags of `posts`, each once, in the order in which they
/// first occur, the empty slug left out.
pub open spec fn tag_order(posts: Seq<Post>) -> Seq<Seq<char>>
    decreases posts.len(),
{
    if posts.len() == 0 {
        Seq::empty()
    } else {
        first_seen(tag_order(posts.drop_last()), tag_names_of(posts.last()))
    }
}

/// The posts of one tag, or all posts: what a sequence of index pages lists.
pub struct Index<'a> {
    /// The slug of the tag; empty for the index of all posts.
    pub tag: String,
    /// The address below which the pages of the index live.
    pub url: UrlBuf,
    /// The directory that the pages of the index are written to.
    pub output_directory: String,
    /// The posts of the index, in the order of the collection they come from.
    pub posts: Vec<&'a Post>,
}

/// What an [`Index`] stands for.
pub ghost struct IndexView {
    pub tag: Seq<char>,
    pub url: Seq<char>,
    pub output_directory: Seq<char>,
    pub entries: Seq<Post>,
}

/// The posts that `posts` refers to.
pub open spec fn referred(posts: Seq<&Post>) -> Seq<Post> {
    Seq::new(posts.len(), |i: int| *posts[i])
}

impl<'a> View for Index<'a> {
    type V = IndexView;

    open spec fn view(&self) -> IndexView {
        IndexView {
            tag: self.tag@,
            url: self.url@,
            output_directory: self.output_directory@,
            entries: referred(self.posts@),
        }
    }
}

/// The index of all posts: it has the empty slug and lives at the root of
/// the indices.
pub open spec fn main_index(base_url: Seq<char>, base_directory: Seq<char>, posts: Seq<Post>) -> IndexView {
    IndexView { tag: Seq::empty(), url: base_url, output_directory: base_directory, entries: posts }
}

/// The index of the tag `tag`: it lists the posts that have the tag and
/// lives below the root of the indices under the tag's slug.
pub open spec fn tag_index(
    base_url: Seq<char>,
    base_directory: Seq<char>,
    posts: Seq<Post>,
    tag: Seq<char>,
) -> IndexView {
    IndexView {
        tag,
        url: below(base_url, tag),
        output_directory: below(base_directory, tag),
        entries: tagged(posts, tag),
    }
}

/// The indices of `posts`: the index of all posts, then one per tag.
pub open spec fn indices_of(base_url: Seq<char>, base_directory: Seq<char>, posts: Seq<Post>) -> Seq<
    IndexView,
> {
    Seq::new(
        1 + tag_order(posts).len(),
        |k: int|
            if k == 0 {
                main_index(base_url, base_directory, posts)
            } else {
                tag_index(base_url, base_directory, posts, tag_order(posts)[k - 1])
            },
    )
}

/// What each of `indices` stands for.
pub open spec fn index_views(indices: Seq<Index<'_>>) -> Seq<IndexView> {
    Seq::new(indices.len(), |k: int| indices[k]@)
}

/// No tag has two indices, and no tag index has the empty slug, which is
/// that of the index of all posts.
pub proof fn lemma_tag_order_distinct(posts: Seq<Post>)
    ensures
        tag_order(posts).no_duplicates(),
        forall|k: int| 0 <= k < tag_order(posts).len() ==> (#[trigger] tag_order(posts)[k]).len() > 0,
    decreases posts.len(),
{
    if posts.len() > 0 {
        lemma_tag_order_distinct(posts.drop_last());
        lemma_first_seen_distinct(tag_order(posts.drop_last()), tag_names_of(posts.last()));
    }
}

/// A slug has an index exactly when it is not empty and the tag of a post.
pub proof fn lemma_tag_order_complete(posts: Seq<Post>, slug: Seq<char>)
    ensures
        tag_order(posts).contains(slug) <==> slug.len() > 0 && in_use(posts, slug),
    decreases posts.len(),
{
    if posts.len() == 0 {
    } else {
        let front = posts.drop_last();
        let last = posts.last();
        lemma_tag_order_complete(front, slug);
        lemma_first_seen_contains(tag_order(front), tag_names_of(last), slug);
        if tag_names_of(last).contains(slug) {
            let j = choose|j: int| 0 <= j < tag_names_of(last).len() && tag_names_of(last)[j] == slug;
            assert(last.tags@[j].name@ == slug);
            assert(posts[posts.len() - 1].has_tag(slug));
        }
        if in_use(front, slug) {
            let i = choose|i: int| 0 <= i < front.len() && (#[trigger] front[i]).has_tag(slug);
            assert(posts[i].has_tag(slug));
        }
        if in_use(posts, slug) {
            let i = choose|i: int| 0 <= i < posts.len() && (#[trigger] posts[i]).has_tag(slug);
            if i < posts.len() - 1 {
                assert(front[i].has_tag(slug));
            } else {
                let j = choose|j: int|
                    0 <= j < last.tags@.len() && (#[trigger] last.tags@[j]).name@ == slug;
                assert(tag_names_of(last)[j] == slug);
            }
        }
    }
}

/// Every post with a tag is listed in the index of that tag, and every post
/// that such an index lists has the tag.
pub proof fn lemma_tagged_members(posts: Seq<Post>, slug: Seq<char>, post: Post)
    ensures
        tagged(posts, slug).contains(post) <==> posts.contains(post) && post.has_tag(slug),
    decreases posts.len(),
{
    if posts.len() > 0 {
        let front = posts.drop_last();
        lemma_tagged_members(front, slug, post);
        let before = tagged(front, slug);
        let after = tagged(posts, slug);
        if front.contains(post) {
            let i = choose|i: int| 0 <= i < front.len() && front[i] == post;
            assert(posts[i] == post);
        }
        if posts.contains(post) && !front.contains(post) {
            let i = choose|i: int| 0 <= i < posts.len() && posts[i] == post;
            if i < posts.len() - 1 {
                assert(front[i] == post);
            }
            assert(posts.last() == post);
        }
        if before.contains(post) {
            let k = choose|k: int| 0 <= k < before.len() && before[k] == post;
            assert(after[k] == post);
        }
        if after.contains(post) && !before.contains(post) {
            let k = choose|k: int| 0 <= k < after.len() && after[k] == post;
            if k < before.len() {
                assert(before[k] == post);
            }
            assert(posts.last() == post);
            assert(posts[posts.len() - 1] == post);
        }
        if posts.last() == post && post.has_tag(slug) {
            assert(after.last() == post);
        }
    }
}

impl<'a> Index<'a> {
    /// Cuts the index into pages of `index_page_size` posts each.
    pub fn to_pages(&self, index_page_size: usize) -> (out: Result<
        Vec<Page<Slice<'_, &'a Post>>>,
        Error,
    >)
        ensures
            out is Err <==> index_page_size == 0,
            out matches Ok(pages) ==> {
                &&& pages@.len() == page_count(self.posts@.len(), index_page_size as nat)
                &&& forall|i: int|
                    0 <= i < pages@.len() ==> is_index_page(
                        #[trigger] pages@[i],
                        self.posts@,
                        index_page_size as nat,
                        self.url@,
                        i as nat,
                    )
            },
    {
        paginate(self.posts.as_slice(), index_page_size, &self.url)
    }
}

/// Whether `post` has the tag with the slug `slug`.
pub fn has_tag(post: &Post, slug: &str) -> (found: bool)
    ensures
        found == post.has_tag(slug@),
{
    let mut j: usize = 0;
    while j < post.tags.len()
        invariant
            j <= post.tags@.len(),
            forall|k: int| 0 <= k < j ==> (#[trigger] post.tags@[k]).name@ != slug@,
        decreases post.tags@.len() - j,
    {
        if same_text(post.tags[j].name.as_str(), slug) {
            return true;
        }
        j += 1;
    }
    false
}

/// The posts of `posts` that have the tag `slug`, in their order.
fn collect_tagged<'a>(posts: &'a [Post], slug: &str) -> (out: Vec<&'a Post>)
    ensures
        referred(out@) == tagged(posts@, slug@),
{
    let mut out: Vec<&'a Post> = Vec::new();
    let mut i: usize = 0;
    while i < posts.len()
        invariant
            i <= posts@.len(),
            referred(out@) == tagged(posts@.take(i as int), slug@),
        decreases posts@.len() - i,
    {
        assert(posts@.take(i + 1).drop_last() == posts@.take(i as int));
        let ghost before = referred(out@);
        if has_tag(&posts[i], slug) {
            out.push(&posts[i]);
            assert(referred(out@) == before.push(posts@[i as int]));
        }
        i += 1;
    }
    assert(posts@.take(posts@.len() as int) == posts@);
    out
}

/// Whether `names` holds the text `name`.
fn holds(names: &Vec<String>, name: &str) -> (found: bool)
    ensures
        found == texts(names@).contains(name@),
{
    let mut k: usize = 0;
    while k < names.len()
        invariant
            k <= names@.len(),
            forall|m: int| 0 <= m < k ==> (#[trigger] texts(names@)[m]) != name@,
        decreases names@.len() - k,
    {
        if same_text(names[k].as_str(), name) {
            assert(texts(names@)[k as int] == name@);
            return true;
        }
        k += 1;
    }
    false
}

/// The slugs of the tags of `posts`, each once, in the order in which they
/// first occur, the empty one left out.
fn tag_names(posts: &[Post]) -> (names: Vec<String>)
    ensures
        texts(names@) == tag_order(posts@),
{
    let mut names: Vec<String> = Vec::new();
    let mut i: usize = 0;
    assert(texts(names@) == tag_order(posts@.take(0)));
    while i < posts.len()
        invariant
            i <= posts@.len(),
            texts(names@) == tag_order(posts@.take(i as int)),
        decreases posts@.len() - i,
    {
        let post = &posts[i];
        let mut j: usize = 0;
        assert(tag_names_of(*post).take(0) == Seq::<Seq<char>>::empty());
        while j < post.tags.len()
            invariant
                i < posts@.len(),
                *post == posts@[i as int],
                j <= post.tags@.len(),
                texts(names@) == first_seen(
                    tag_order(posts@.take(i as int)),
                    tag_names_of(*post).take(j as int),
                ),
            decreases post.tags@.len() - j,
        {
            let name = post.tags[j].name.as_str();
            let ghost before = texts(names@);
            assert(tag_names_of(*post).take(j + 1).drop_last() == tag_names_of(*post).take(
                j as int,
            ));
            assert(tag_names_of(*post).take(j + 1).last() == name@);
            if name.unicode_len() > 0 && !holds(&names, name) {
                names.push(name.to_owned());
                assert(texts(names@) == before.push(name@));
            }
            j += 1;
        }
        assert(tag_names_of(*post).take(post.tags@.len() as int) == tag_names_of(*post));
        assert(posts@.take(i + 1).drop_last() == posts@.take(i as int));
        i += 1;
    }
    assert(posts@.take(posts@.len() as int) == posts@);
    names
}

/// Groups `posts` by tag. The first index lists all posts and lives at
/// `base_url`, in `base_directory`. One index follows for every slug that
/// is the tag of a post, in the order in which the slugs first occur: it
/// lists the posts that have the tag, in their order, and lives below
/// `base_url` and `base_directory` under the slug.
pub fn index_posts<'a>(base_url: &UrlBuf, base_directory: &str, posts: &'a [Post]) -> (out: Vec<
    Index<'a>,
>)
    ensures
        index_views(out@) == indices_of(base_url@, base_directory@, posts@),
{
    let mut all: Vec<&'a Post> = Vec::new();
    let mut i: usize = 0;
    while i < posts.len()
        invariant
            i <= posts@.len(),
            all@.len() == i,
            forall|k: int| 0 <= k < i ==> *(#[trigger] all@[k]) == posts@[k],
        decreases posts@.len() - i,
    {
        all.push(&posts[i]);
        i += 1;
    }
    let main = Index {
        tag: String::new(),
        url: base_url.clone(),
        output_directory: base_directory.to_owned(),
        posts: all,
    };
    assert(main@.entries == posts@);
    assert(main@ == main_index(base_url@, base_directory@, posts@));
    let mut indices: Vec<Index<'a>> = Vec::new();
    indices.push(main);
    let names = tag_names(posts);
    let mut k: usize = 0;
    while k < names.len()
        invariant
            k <= names@.len(),
            texts(names@) == tag_order(posts@),
            indices@.len() == k + 1,
            forall|m: int|
                0 <= m < indices@.len() ==> (#[trigger] indices@[m])@ == indices_of(
                    base_url@,
                    base_directory@,
                    posts@,
                )[m],
        decreases names@.len() - k,
    {
        let name = names[k].as_str();
        assert(texts(names@)[k as int] == name@);
        let index = Index {
            tag: name.to_owned(),
            url: base_url.join(name),
            output_directory: join_text(base_directory, name),
            posts: collect_tagged(posts, name),
        };
        assert(index@ == tag_index(base_url@, base_directory@, posts@, name@));
        indices.push(index);
        k += 1;
    }
    assert(texts(names@).len() == names@.len());
    assert(index_views(indices@) =~= indices_of(base_url@, base_directory@, posts@));
    indices
}

/// The template that a page is rendered with.
#[derive(Clone, Copy, Debug, PartialEq, Eq, Structural)]
pub enum Template {
    /// The template for the pages of an index.
    Index,
    /// The template for the page of a post.
    Posts,
}

/// One file to write: where it goes and what its template is rendered against.
pub struct Job {
    pub file_path: String,
    pub context: Value,
}

/// What a [`Job`] stands for.
pub ghost struct JobView {
    pub file_path: Seq<char>,
    pub context: Node,
}

impl View for Job {
    type V = JobView;

    open spec fn view(&self) -> JobView {
        JobView { file_path: self.file_path@, context: self.context@ }
    }
}

/// The files of one directory, which has to exist before any of them is
/// written, and the template that renders them.
pub struct Batch {
    pub directory: String,
    pub template: Template,
    pub jobs: Vec<Job>,
}

/// What a [`Batch`] stands for.
pub ghost struct BatchView {
    pub directory: Seq<char>,
    pub template: Template,
    pub jobs: Seq<JobView>,
}

/// What each of `jobs` stands for.
pub open spec fn job_views(jobs: Seq<Job>) -> Seq<JobView> {
    Seq::new(jobs.len(), |i: int| jobs[i]@)
}

impl View for Batch {
    type V = BatchView;

    open spec fn view(&self) -> BatchView {
        BatchView {
            directory: self.directory@,
            template: self.template,
            jobs: job_views(self.jobs@),
        }
    }
}

/// What each of `batches` stands for.
pub open spec fn batch_views(batches: Seq<Batch>) -> Seq<BatchView> {
    Seq::new(batches.len(), |i: int| batches[i]@)
}

/// What a template sees of a page: its item and the addresses of the pages
/// before and after it.
pub open spec fn page_node(item: Node, prev: Option<Seq<char>>, next: Option<Seq<char>>) -> Node {
    Node::Record(seq![("item"@, item), ("prev"@, link_node(prev)), ("next"@, link_node(next))])
}

/// What a template is rendered against: the page, and the addresses of the
/// home page and of the static files, which are the same for all pages.
pub open spec fn context_node(page: Node, home_page: Seq<char>, static_url: Seq<char>) -> Node {
    Node::Record(
        seq![
            ("page"@, page),
            ("home_page"@, Node::Text(home_page)),
            ("static_url"@, Node::Text(static_url)),
        ],
    )
}

/// The job that writes the page `id` into `directory`.
pub open spec fn page_job(
    directory: Seq<char>,
    id: Seq<char>,
    page: Node,
    home_page: Seq<char>,
    static_url: Seq<char>,
) -> JobView {
    JobView {
        file_path: below(directory, id + ".html"@),
        context: context_node(page, home_page, static_url),
    }
}

/// What a template sees of the posts on an index page: a summary of each.
pub open spec fn summaries(posts: Seq<Post>) -> Node {
    Node::List(Seq::new(posts.len(), |i: int| summary_node(posts[i])))
}

/// The job for page `i` of `index`.
pub open spec fn index_job(
    index: IndexView,
    size: nat,
    i: nat,
    home_page: Seq<char>,
    static_url: Seq<char>,
) -> JobView {
    page_job(
        index.output_directory,
        page_id(i),
        page_node(
            summaries(page_items(index.entries, size, i)),
            prev_url(index.url, i),
            next_url(index.url, i, page_count(index.entries.len(), size)),
        ),
        home_page,
        static_url,
    )
}

/// The pages of `index`, `size` posts to a page.
pub open spec fn index_batch(
    index: IndexView,
    size: nat,
    home_page: Seq<char>,
    static_url: Seq<char>,
) -> BatchView {
    BatchView {
        directory: index.output_directory,
        template: Template::Index,
        jobs: Seq::new(
            page_count(index.entries.len(), size),
            |i: int| index_job(index, size, i as nat, home_page, static_url),
        ),
    }
}

/// The job for the page of post `i` of `posts`.
pub open spec fn post_job(
    posts: Seq<Post>,
    directory: Seq<char>,
    i: int,
    home_page: Seq<char>,
    static_url: Seq<char>,
) -> JobView {
    page_job(
        directory,
        posts[i].id@,
        page_node(
            post_node(posts[i]),
            if i == 0 {
                None
            } else {
                Some(posts[i - 1].url@)
            },
            if i + 1 < posts.len() {
                Some(posts[i + 1].url@)
            } else {
                None
            },
        ),
        home_page,
        static_url,
    )
}

/// The pages of the posts.
pub open spec fn posts_batch(
    posts: Seq<Post>,
    directory: Seq<char>,
    home_page: Seq<char>,
    static_url: Seq<char>,
) -> BatchView {
    BatchView {
        directory,
        template: Template::Posts,
        jobs: Seq::new(posts.len(), |i: int| post_job(posts, directory, i, home_page, static_url)),
    }
}

/// The pages of all indices of `posts`, one batch per index.
pub open spec fn index_batches(
    posts: Seq<Post>,
    base_url: Seq<char>,
    base_directory: Seq<char>,
    size: nat,
    home_page: Seq<char>,
    static_url: Seq<char>,
) -> Seq<BatchView> {
    Seq::new(
        indices_of(base_url, base_directory, posts).len(),
        |k: int|
            index_batch(indices_of(base_url, base_directory, posts)[k], size, home_page, static_url),
    )
}

/// The posts that the references on a page refer to are the posts on that
/// page of what all the references refer to.
proof fn lemma_referred_page(posts: Seq<&Post>, size: nat, i: nat)
    requires
        size > 0,
        i < page_count(posts.len(), size),
    ensures
        referred(page_items(posts, size, i)) == page_items(referred(posts), size, i),
{
    lemma_page_bounds(posts.len(), size, i);
    let start = (i * size) as int;
    let end = if (i + 1) * size <= posts.len() {
        ((i + 1) * size) as int
    } else {
        posts.len() as int
    };
    assert(start + size == (i + 1) * size) by (nonlinear_arith)
        requires
            start == i * size,
    ;
    assert(0 <= start <= end <= posts.len());
    let left = referred(page_items(posts, size, i));
    let right = page_items(referred(posts), size, i);
    assert(left.len() == end - start);
    assert(right.len() == end - start);
    assert forall|k: int| 0 <= k < left.len() implies left[k] == right[k] by {
        assert(page_items(posts, size, i)[k] == posts[start + k]);
        assert(referred(posts)[start + k] == *posts[start + k]);
    }
    assert(left =~= right);
}

/// The file name of a page holds no slash.
pub proof fn lemma_page_file_is_flat(i: nat, at: int)
    requires
        0 <= at < page_file(i).len(),
    ensures
        page_file(i)[at] != '/',
{
    reveal_strlit("index");
    reveal_strlit(".html");
    if at < page_id(i).len() {
        if i != 0 {
            lemma_decimal_digits(i, at);
        }
    }
}

/// Every tag that has an index is the tag of a post; where the tags of
/// all posts are well formed, it is a slug.
pub proof fn lemma_indexed_tags_are_slugs(posts: Seq<Post>, k: int)
    requires
        forall|i: int| 0 <= i < posts.len() ==> (#[trigger] posts[i]).wf(),
        0 <= k < tag_order(posts).len(),
    ensures
        is_slug(tag_order(posts)[k]),
        tag_order(posts)[k].len() > 0,
{
    let slug = tag_order(posts)[k];
    assert(tag_order(posts).contains(slug));
    lemma_tag_order_complete(posts, slug);
    let i = choose|i: int| 0 <= i < posts.len() && (#[trigger] posts[i]).has_tag(slug);
    let j = choose|j: int| 0 <= j < posts[i].tags@.len() && (#[trigger] posts[i].tags@[j]).name@ == slug;
    assert(posts[i].wf());
    assert(posts[i].tags@[j].wf());
}

/// Two paths that each have a slug, a slash and a flat file name are the
/// same only where the slugs and the file names are.
proof fn lemma_slug_paths(one: Seq<char>, file: Seq<char>, other: Seq<char>, name: Seq<char>)
    requires
        is_slug(one),
        is_slug(other),
        one.push('/') + file == other.push('/') + name,
    ensures
        one == other,
        file == name,
{
    let left = one.push('/') + file;
    let right = other.push('/') + name;
    if one.len() < other.len() {
        assert(left[one.len() as int] == '/');
        assert(right[one.len() as int] == other[one.len() as int]);
    } else if other.len() < one.len() {
        assert(right[other.len() as int] == '/');
        assert(left[other.len() as int] == one[other.len() as int]);
    }
    assert(one == left.subrange(0, one.len() as int));
    assert(other == right.subrange(0, other.len() as int));
    assert(file == left.subrange(one.len() as int + 1, left.len() as int));
    assert(name == right.subrange(other.len() as int + 1, right.len() as int));
}

/// The path of page `i` of index `k` of the indices of `posts`.
pub open spec fn index_file(
    posts: Seq<Post>,
    base_url: Seq<char>,
    base_directory: Seq<char>,
    k: int,
    i: nat,
) -> Seq<char> {
    below(indices_of(base_url, base_directory, posts)[k].output_directory, page_file(i))
}

/// No two index pages of a site are written to the same file, whatever
/// indices they belong to: the pages can be written in any order, and at
/// the same time.
pub proof fn lemma_index_files_distinct(
    posts: Seq<Post>,
    base_url: Seq<char>,
    base_directory: Seq<char>,
    k: int,
    i: nat,
    m: int,
    j: nat,
)
    requires
        forall|p: int| 0 <= p < posts.len() ==> (#[trigger] posts[p]).wf(),
        0 <= k < indices_of(base_url, base_directory, posts).len(),
        0 <= m < indices_of(base_url, base_directory, posts).len(),
        index_file(posts, base_url, base_directory, k, i) == index_file(
            posts,
            base_url,
            base_directory,
            m,
            j,
        ),
    ensures
        k == m,
        i == j,
{
    let root = with_trailing_slash(base_directory);
    let tags = tag_order(posts);
    let one = index_file(posts, base_url, base_directory, k, i);
    let other = index_file(posts, base_url, base_directory, m, j);
    lemma_tag_order_distinct(posts);
    if k > 0 {
        lemma_indexed_tags_are_slugs(posts, k - 1);
        let tag = tags[k - 1];
        assert(is_slug_char(tag[tag.len() - 1]));
        assert((root + tag).last() == tag.last());
        assert(one == root + (tag.push('/') + page_file(i)));
    } else {
        assert(one == root + page_file(i));
    }
    if m > 0 {
        lemma_indexed_tags_are_slugs(posts, m - 1);
        let tag = tags[m - 1];
        assert(is_slug_char(tag[tag.len() - 1]));
        assert((root + tag).last() == tag.last());
        assert(other == root + (tag.push('/') + page_file(j)));
    } else {
        assert(other == root + page_file(j));
    }
    if k > 0 && m > 0 {
        let left = tags[k - 1].push('/') + page_file(i);
        let right = tags[m - 1].push('/') + page_file(j);
        assert(left == (root + left).subrange(root.len() as int, (root + left).len() as int));
        assert(right == (root + right).subrange(root.len() as int, (root + right).len() as int));
        lemma_slug_paths(tags[k - 1], page_file(i), tags[m - 1], page_file(j));
        assert(below(base_url, page_file(i)) == below(base_url, page_file(j)));
        lemma_page_url_injective(base_url, i, j);
    } else if k == 0 && m == 0 {
        assert(below(base_directory, page_file(i)) == below(base_directory, page_file(j)));
        lemma_below_injective(base_directory, page_file(i), page_file(j));
        assert(below(base_url, page_file(i)) == below(base_url, page_file(j)));
        lemma_page_url_injective(base_url, i, j);
    } else if k == 0 {
        let right = tags[m - 1].push('/') + page_file(j);
        assert(page_file(i) == (root + page_file(i)).subrange(
            root.len() as int,
            (root + page_file(i)).len() as int,
        ));
        assert(right == (root + right).subrange(root.len() as int, (root + right).len() as int));
        assert(right[tags[m - 1].len() as int] == '/');
        lemma_page_file_is_flat(i, tags[m - 1].len() as int);
    } else {
        let left = tags[k - 1].push('/') + page_file(i);
        assert(page_file(j) == (root + page_file(j)).subrange(
            root.len() as int,
            (root + page_file(j)).len() as int,
        ));
        assert(left == (root + left).subrange(root.len() as int, (root + left).len() as int));
        assert(left[tags[k - 1].len() as int] == '/');
        lemma_page_file_is_flat(j, tags[k - 1].len() as int);
    }
}

impl Page<Value> {
    /// What a template sees of the page, with the fields `item`, `prev`
    /// and `next`; an address that the page lacks is `Nil`.
    pub fn to_value(self) -> (out: Value)
        ensures
            out@ == page_node(self.item@, link_text(self.prev), link_text(self.next)),
    {
        let prev = Value::from_link(&self.prev);
        let next = Value::from_link(&self.next);
        let mut fields: Vec<(String, Value)> = Vec::new();
        fields.push(("item".to_owned(), self.item));
        fields.push(("prev".to_owned(), prev));
        fields.push(("next".to_owned(), next));
        let out = Value::Object(fields);
        assert(out@->Record_0 =~= page_node(
            self.item@,
            link_text(self.prev),
            link_text(self.next),
        )->Record_0);
        out
    }
}

/// The address `url`, where there is one, as an address of its own.
fn copy_link(url: &Option<UrlBuf>) -> (out: Option<UrlBuf>)
    ensures
        link_text(out) == link_text(*url),
{
    match url {
        Some(u) => Some(u.clone()),
        None => None,
    }
}

/// The summaries of `posts` for a template.
fn summarize_all(posts: &[&Post]) -> (out: Value)
    ensures
        out@ == summaries(referred(posts@)),
{
    let mut items: Vec<Value> = Vec::new();
    let mut i: usize = 0;
    while i < posts.len()
        invariant
            i <= posts@.len(),
            items@.len() == i,
            forall|k: int| 0 <= k < i ==> (#[trigger] items@[k])@ == summary_node(*posts@[k]),
        decreases posts@.len() - i,
    {
        items.push(posts[i].summarize());
        i += 1;
    }
    let out = Value::Array(items);
    assert(out@->List_0 =~= summaries(referred(posts@))->List_0);
    out
}

/// Settings for laying out the pages of a site.
pub struct Writer<'a> {
    /// The address below which the index pages live: the pages of the main
    /// index directly below it, those of a tag below it under the tag's slug.
    pub index_base_url: &'a UrlBuf,
    /// The directory that the index pages are written to.
    pub index_output_directory: &'a str,
    /// The number of posts per index page.
    pub index_page_size: usize,
    /// The directory that the pages of the posts are written to.
    pub posts_output_directory: &'a str,
    /// The address of the home page, which every template may link to.
    pub home_page: &'a UrlBuf,
    /// The address of the static files, which every template may link to.
    pub static_url: &'a UrlBuf,
}

/// Describes how to write `page` into `directory`: the file is named after
/// the page, and the template is rendered against the page and the two
/// addresses that all pages share.
pub fn write_page(page: Page<Value>, directory: &str, home_page: &UrlBuf, static_url: &UrlBuf) -> (out:
    Job)
    ensures
        out@ == page_job(
            directory@,
            page.id@,
            page_node(page.item@, link_text(page.prev), link_text(page.next)),
            home_page@,
            static_url@,
        ),
{
    let mut file = page.id.clone();
    file.append(".html");
    let file_path = join_text(directory, file.as_str());
    let mut fields: Vec<(String, Value)> = Vec::new();
    fields.push(("page".to_owned(), page.to_value()));
    fields.push(("home_page".to_owned(), Value::from_url(home_page)));
    fields.push(("static_url".to_owned(), Value::from_url(static_url)));
    let context = Value::Object(fields);
    assert(context@->Record_0 =~= context_node(
        page_node(page.item@, link_text(page.prev), link_text(page.next)),
        home_page@,
        static_url@,
    )->Record_0);
    Job { file_path, context }
}

/// The pages of `index`, ready to be written.
pub fn index_to_batch(index: &Index<'_>, page_size: usize, home_page: &UrlBuf, static_url: &UrlBuf) -> (out:
    Result<Batch, Error>)
    ensures
        out is Err <==> page_size == 0,
        out matches Ok(batch) ==> batch@ == index_batch(
            index@,
            page_size as nat,
            home_page@,
            static_url@,
        ),
{
    let pages = match index.to_pages(page_size) {
        Ok(pages) => pages,
        Err(e) => {
            return Err(e);
        },
    };
    let mut jobs: Vec<Job> = Vec::new();
    let mut i: usize = 0;
    while i < pages.len()
        invariant
            page_size > 0,
            i <= pages@.len(),
            jobs@.len() == i,
            pages@.len() == page_count(index.posts@.len(), page_size as nat),
            forall|k: int|
                0 <= k < pages@.len() ==> is_index_page(
                    #[trigger] pages@[k],
                    index.posts@,
                    page_size as nat,
                    index.url@,
                    k as nat,
                ),
            forall|k: int|
                0 <= k < i ==> (#[trigger] jobs@[k])@ == index_job(
                    index@,
                    page_size as nat,
                    k as nat,
                    home_page@,
                    static_url@,
                ),
        decreases pages@.len() - i,
    {
        let page = &pages[i];
        assert(is_index_page(*page, index.posts@, page_size as nat, index.url@, i as nat));
        let item = summarize_all(page.item.as_slice());
        proof {
            lemma_referred_page(index.posts@, page_size as nat, i as nat);
        }
        let summarized = Page {
            item,
            id: page.id.clone(),
            prev: copy_link(&page.prev),
            next: copy_link(&page.next),
        };
        jobs.push(
            write_page(summarized, index.output_directory.as_str(), home_page, static_url),
        );
        i += 1;
    }
    let batch = Batch {
        directory: index.output_directory.clone(),
        template: Template::Index,
        jobs,
    };
    assert(batch@.jobs =~= index_batch(index@, page_size as nat, home_page@, static_url@).jobs);
    Ok(batch)
}

/// The pages of all indices of `posts`, one batch per index: first that of
/// the index of all posts, then those of the tags.
pub fn index_pages(
    posts: &[Post],
    index_base_url: &UrlBuf,
    index_output_directory: &str,
    index_page_size: usize,
    home_page: &UrlBuf,
    static_url: &UrlBuf,
) -> (out: Result<Vec<Batch>, Error>)
    ensures
        out is Err <==> index_page_size == 0,
        out matches Ok(batches) ==> batch_views(batches@) == index_batches(
            posts@,
            index_base_url@,
            index_output_directory@,
            index_page_size as nat,
            home_page@,
            static_url@,
        ),
{
    if index_page_size == 0 {
        return Err(Error::PageSize);
    }
    let indices = index_posts(index_base_url, index_output_directory, posts);
    let ghost wanted = index_batches(
        posts@,
        index_base_url@,
        index_output_directory@,
        index_page_size as nat,
        home_page@,
        static_url@,
    );
    let mut batches: Vec<Batch> = Vec::new();
    let mut k: usize = 0;
    assert(index_views(indices@).len() == indices@.len());
    while k < indices.len()
        invariant
            index_page_size > 0,
            k <= indices@.len(),
            batches@.len() == k,
            index_views(indices@) == indices_of(index_base_url@, index_output_directory@, posts@),
            wanted == index_batches(
                posts@,
                index_base_url@,
                index_output_directory@,
                index_page_size as nat,
                home_page@,
                static_url@,
            ),
            indices@.len() == wanted.len(),
            forall|m: int| 0 <= m < k ==> (#[trigger] batches@[m])@ == wanted[m],
        decreases indices@.len() - k,
    {
        assert(index_views(indices@)[k as int] == indices@[k as int]@);
        match index_to_batch(&indices[k], index_page_size, home_page, static_url) {
            Ok(batch) => {
                batches.push(batch);
            },
            Err(e) => {
                return Err(e);
            },
        }
        k += 1;
    }
    assert(batch_views(batches@) =~= wanted);
    Ok(batches)
}

/// The pages of the posts, ready to be written into `directory`.
pub fn posts_to_batch(posts: &[Post], directory: &str, home_page: &UrlBuf, static_url: &UrlBuf) -> (out:
    Batch)
    ensures
        out@ == posts_batch(posts@, directory@, home_page@, static_url@),
{
    let pages = post_pages(posts);
    let mut jobs: Vec<Job> = Vec::new();
    let mut i: usize = 0;
    while i < pages.len()
        invariant
            i <= pages@.len(),
            jobs@.len() == i,
            pages@.len() == posts@.len(),
            forall|k: int| 0 <= k < pages@.len() ==> is_post_page(#[trigger] pages@[k], posts@, k),
            forall|k: int|
                0 <= k < i ==> (#[trigger] jobs@[k])@ == post_job(
                    posts@,
                    directory@,
                    k,
                    home_page@,
                    static_url@,
                ),
        decreases pages@.len() - i,
    {
        let page = &pages[i];
        assert(is_post_page(*page, posts@, i as int));
        let full = Page {
            item: page.item.to_value(),
            id: page.id.clone(),
            prev: copy_link(&page.prev),
            next: copy_link(&page.next),
        };
        jobs.push(write_page(full, directory, home_page, static_url));
        i += 1;
    }
    let batch = Batch { directory: directory.to_owned(), template: Template::Posts, jobs };
    assert(batch@.jobs =~= posts_batch(posts@, directory@, home_page@, static_url@).jobs);
    batch
}

/// All pages of the site: the batches of the indices, then the batch of
/// the posts.
pub open spec fn site_batches(writer: Writer<'_>, posts: Seq<Post>) -> Seq<BatchView> {
    index_batches(
        posts,
        writer.index_base_url@,
        writer.index_output_directory@,
        writer.index_page_size as nat,
        writer.home_page@,
        writer.static_url@,
    ).push(
        posts_batch(
            posts,
            writer.posts_output_directory@,
            writer.home_page@,
            writer.static_url@,
        ),
    )
}

/// All pages of the site, ready to be written: those of every index, then
/// those of the posts.
pub fn pages(writer: &Writer<'_>, posts: &[Post]) -> (out: Result<Vec<Batch>, Error>)
    ensures
        out is Err <==> writer.index_page_size == 0,
        out matches Ok(batches) ==> batch_views(batches@) == site_batches(*writer, posts@),
{
    let mut batches = match index_pages(
        posts,
        writer.index_base_url,
        writer.index_output_directory,
        writer.index_page_size,
        writer.home_page,
        writer.static_url,
    ) {
        Ok(batches) => batches,
        Err(e) => {
            return Err(e);
        },
    };
    let ghost before = batch_views(batches@);
    batches.push(
        posts_to_batch(posts, writer.posts_output_directory, writer.home_page, writer.static_url),
    );
    assert(batch_views(batches@) =~= before.push(batches@[batches@.len() - 1]@));
    Ok(batches)
}

impl Writer<'_> {
    /// Describes how to write `page` into `directory` for this site.
    pub fn write_page(&self, page: Page<Value>, directory: &str) -> (out: Job)
        ensures
            out@ == page_job(
                directory@,
                page.id@,
                page_node(page.item@, link_text(page.prev), link_text(page.next)),
                self.home_page@,
                self.static_url@,
            ),
    {
        write_page(page, directory, self.home_page, self.static_url)
    }

    /// Indexes `posts` by tag and describes every page of the site: what
    /// to write, where, and with which template. Fails where the number
    /// of posts per index page is zero.
    pub fn write_posts(&self, posts: &[Post]) -> (out: Result<Vec<Batch>, Error>)
        ensures
            out is Err <==> self.index_page_size == 0,
            out matches Ok(batches) ==> batch_views(batches@) == site_batches(*self, posts@),
    {
        pages(self, posts)
    }
}

} // verus!
