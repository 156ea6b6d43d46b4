//! The order of posts: the newest first, and posts of one date in the
//! order in which they were found.

use vstd::prelude::*;
use crate::post::Post;
use crate::slice::reverse;
use crate::text::chars_of;

verus! {

/// `a` stands before `b` in the order of texts: at the first position at
/// which the two differ `a` has the smaller character, or `a` ends there
/// and `b` does not.
pub open spec fn text_lt(a: Seq<char>, b: Seq<char>) -> bool
    decreases a.len(),
{
    if b.len() == 0 {
        false
    } else if a.len() == 0 {
        true
    } else if a[0] != b[0] {
        a[0] < b[0]
    } else {
        text_lt(a.drop_first(), b.drop_first())
    }
}

/// No text stands before itself.
pub proof fn lemma_text_lt_irreflexive(a: Seq<char>)
    ensures
        !text_lt(a, a),
    decreases a.len(),
{
    if a.len() > 0 {
        lemma_text_lt_irreflexive(a.drop_first());
    }
}

/// The order of texts is transitive.
pub proof fn lemma_text_lt_transitive(a: Seq<char>, b: Seq<char>, c: Seq<char>)
    requires
        text_lt(a, b),
        text_lt(b, c),
    ensures
        text_lt(a, c),
    decreases a.len(),
{
    if a.len() > 0 && a[0] == b[0] && b[0] == c[0] {
        lemma_text_lt_transitive(a.drop_first(), b.drop_first(), c.drop_first());
    }
}

/// Of two different texts one stands before the other.
pub proof fn lemma_text_lt_total(a: Seq<char>, b: Seq<char>)
    requires
        a != b,
    ensures
        text_lt(a, b) || text_lt(b, a),
    decreases a.len(),
{
    if a.len() > 0 && b.len() > 0 && a[0] == b[0] {
        if a.drop_first() == b.drop_first() {
            assert(a =~= seq![a[0]] + a.drop_first());
            assert(b =~= seq![b[0]] + b.drop_first());
        }
        lemma_text_lt_total(a.drop_first(), b.drop_first());
    } else if a.len() == 0 && b.len() == 0 {
        assert(a =~= b);
    }
}

/// No two texts stand before each other.
pub proof fn lemma_text_lt_asymmetric(a: Seq<char>, b: Seq<char>)
    requires
        text_lt(a, b),
    ensures
        !text_lt(b, a),
{
    if text_lt(b, a) {
        lemma_text_lt_transitive(a, b, a);
        lemma_text_lt_irreflexive(a);
    }
}

/// Whether `a` stands before `b` in the order of texts.
pub fn precedes(a: &[char], b: &[char]) -> (before: bool)
    ensures
        before == text_lt(a@, b@),
{
    let mut i: usize = 0;
    assert(a@.skip(0) == a@ && b@.skip(0) == b@);
    loop
        invariant
            i <= a@.len(),
            i <= b@.len(),
            text_lt(a@, b@) == text_lt(a@.skip(i as int), b@.skip(i as int)),
        decreases a@.len() - i,
    {
        if i >= b.len() {
            return false;
        }
        if i >= a.len() {
            return true;
        }
        if a[i] != b[i] {
            return a[i] < b[i];
        }
        assert(a@.skip(i as int).drop_first() == a@.skip(i + 1));
        assert(b@.skip(i as int).drop_first() == b@.skip(i + 1));
        i += 1;
    }
}

/// The posts of `posts` with the date `date`, in their order.
pub open spec fn dated(posts: Seq<Post>, date: Seq<char>) -> Seq<Post>
    decreases posts.len(),
{
    if posts.len() == 0 {
        Seq::empty()
    } else if posts.last().date@ == date {
        dated(posts.drop_last(), date).push(posts.last())
    } else {
        dated(posts.drop_last(), date)
    }
}

/// No post stands before a post with a later date.
pub open spec fn newest_first(posts: Seq<Post>) -> bool {
    forall|i: int, j: int|
        0 <= i < j < posts.len() ==> !text_lt(
            (#[trigger] posts[i]).date@,
            (#[trigger] posts[j]).date@,
        )
}

/// `at` is where a post with the date `date` goes into `posts`: behind
/// every post that is not older, and before every post that is older.
pub open spec fn is_place(posts: Seq<Post>, date: Seq<char>, at: int) -> bool {
    &&& 0 <= at <= posts.len()
    &&& forall|i: int| 0 <= i < at ==> !text_lt((#[trigger] posts[i]).date@, date)
    &&& forall|i: int| at <= i < posts.len() ==> text_lt((#[trigger] posts[i]).date@, date)
}

/// The posts with a date among what two sequences hold together are
/// those of the first followed by those of the second.
pub proof fn lemma_dated_concat(front: Seq<Post>, back: Seq<Post>, date: Seq<char>)
    ensures
        dated(front + back, date) == dated(front, date) + dated(back, date),
    decreases back.len(),
{
    if back.len() == 0 {
        assert(front + back == front);
        assert(dated(front, date) + dated(back, date) == dated(front, date));
    } else {
        lemma_dated_concat(front, back.drop_last(), date);
        assert((front + back).drop_last() == front + back.drop_last());
        assert((front + back).last() == back.last());
        if back.last().date@ == date {
            assert((dated(front, date) + dated(back.drop_last(), date)).push(back.last())
                == dated(front, date) + dated(back.drop_last(), date).push(back.last()));
        }
    }
}

/// Among posts that are all older than `date` none has the date `date`.
pub proof fn lemma_dated_older(posts: Seq<Post>, date: Seq<char>)
    requires
        forall|i: int| 0 <= i < posts.len() ==> text_lt((#[trigger] posts[i]).date@, date),
    ensures
        dated(posts, date) == Seq::<Post>::empty(),
    decreases posts.len(),
{
    if posts.len() > 0 {
        assert(text_lt(posts[posts.len() - 1].date@, date));
        lemma_text_lt_irreflexive(date);
        assert forall|i: int| 0 <= i < posts.drop_last().len() implies text_lt(
            (#[trigger] posts.drop_last()[i]).date@,
            date,
        ) by {
            assert(text_lt(posts[i].date@, date));
        }
        lemma_dated_older(posts.drop_last(), date);
    }
}

/// Putting a post into its place keeps the newest first.
pub proof fn lemma_place_keeps_order(posts: Seq<Post>, post: Post, at: int)
    requires
        newest_first(posts),
        is_place(posts, post.date@, at),
    ensures
        newest_first(posts.insert(at, post)),
{
    let after = posts.insert(at, post);
    assert forall|i: int, j: int| 0 <= i < j < after.len() implies !text_lt(
        (#[trigger] after[i]).date@,
        (#[trigger] after[j]).date@,
    ) by {
        if i < at {
            assert(after[i] == posts[i]);
            if j == at {
                assert(after[j] == post);
            } else if j < at {
                assert(after[j] == posts[j]);
            } else {
                assert(after[j] == posts[j - 1]);
            }
        } else if i == at {
            assert(after[i] == post);
            assert(after[j] == posts[j - 1]);
            assert(text_lt(posts[j - 1].date@, post.date@));
            lemma_text_lt_asymmetric(posts[j - 1].date@, post.date@);
        } else {
            assert(after[i] == posts[i - 1]);
            assert(after[j] == posts[j - 1]);
        }
    }
}

/// Putting a post into its place puts it behind the posts of its date
/// and leaves the posts of every other date as they are.
pub proof fn lemma_place_keeps_dates(posts: Seq<Post>, post: Post, at: int, date: Seq<char>)
    requires
        is_place(posts, post.date@, at),
    ensures
        dated(posts.insert(at, post), date) == (if post.date@ == date {
            dated(posts, date).push(post)
        } else {
            dated(posts, date)
        }),
{
    let front = posts.subrange(0, at);
    let back = posts.subrange(at, posts.len() as int);
    assert(posts == front + back);
    assert(front.push(post).drop_last() == front);
    lemma_dated_concat(front.push(post), back, date);
    lemma_dated_concat(front, back, date);
    if post.date@ == date {
        assert forall|i: int| 0 <= i < back.len() implies text_lt(
            (#[trigger] back[i]).date@,
            date,
        ) by {
            assert(back[i] == posts[at + i]);
        }
        lemma_dated_older(back, date);
        assert(dated(front, date).push(post) + Seq::<Post>::empty() == dated(front, date).push(
            post,
        ));
        assert(dated(front, date) + Seq::<Post>::empty() == dated(front, date));
    }
}

/// The posts with a date are the posts that have that date.
pub proof fn lemma_dated_members(posts: Seq<Post>, date: Seq<char>, post: Post)
    ensures
        dated(posts, date).contains(post) <==> posts.contains(post) && post.date@ == date,
    decreases posts.len(),
{
    if posts.len() > 0 {
        let front = posts.drop_last();
        lemma_dated_members(front, date, post);
        let before = dated(front, date);
        let after = dated(posts, date);
        if front.contains(post) {
            let i = choose|i: int| 0 <= i < front.len() && front[i] == post;
            assert(posts[i] == post);
        }
        if posts.contains(post) && !front.contains(post) {
            let i = choose|i: int| 0 <= i < posts.len() && posts[i] == post;
            if i < posts.len() - 1 {
                assert(front[i] == post);
            }
            assert(posts.last() == post);
        }
        if before.contains(post) {
            let k = choose|k: int| 0 <= k < before.len() && before[k] == post;
            assert(after[k] == post);
        }
        if after.contains(post) && !before.contains(post) {
            let k = choose|k: int| 0 <= k < after.len() && after[k] == post;
            if k < before.len() {
                assert(before[k] == post);
            }
            assert(posts.last() == post);
            assert(posts[posts.len() - 1] == post);
        }
        if posts.last() == post && post.date@ == date {
            assert(after.last() == post);
        }
    }
}

/// Sorting loses no post and makes none up: two sequences that hold the
/// same posts of every date hold the same posts.
pub proof fn lemma_same_posts(sorted: Seq<Post>, posts: Seq<Post>, post: Post)
    requires
        forall|date: Seq<char>| #[trigger] dated(sorted, date) == dated(posts, date),
    ensures
        sorted.contains(post) <==> posts.contains(post),
{
    lemma_dated_members(sorted, post.date@, post);
    lemma_dated_members(posts, post.date@, post);
    assert(dated(sorted, post.date@) == dated(posts, post.date@));
}

/// Where a post with the date `date` goes into `posts`.
fn place(posts: &Vec<Post>, date: &[char]) -> (at: usize)
    requires
        newest_first(posts@),
    ensures
        is_place(posts@, date@, at as int),
{
    let mut at: usize = 0;
    while at < posts.len()
        invariant
            at <= posts@.len(),
            newest_first(posts@),
            forall|i: int| 0 <= i < at ==> !text_lt((#[trigger] posts@[i]).date@, date@),
        decreases posts@.len() - at,
    {
        let other = chars_of(posts[at].date.as_str());
        if precedes(other.as_slice(), date) {
            proof {
                assert forall|i: int| at <= i < posts@.len() implies text_lt(
                    (#[trigger] posts@[i]).date@,
                    date@,
                ) by {
                    let first = posts@[at as int].date@;
                    let later = posts@[i].date@;
                    if i > at {
                        assert(!text_lt(first, later));
                        if later == date@ {
                        } else {
                            lemma_text_lt_total(later, date@);
                            if text_lt(date@, later) {
                                lemma_text_lt_transitive(first, date@, later);
                            }
                        }
                    }
                }
            }
            return at;
        }
        at += 1;
    }
    at
}

/// Sorts `posts` by date, the newest first. Posts of one date keep the
/// order that they have in `posts`.
pub fn sort_posts(posts: Vec<Post>) -> (out: Vec<Post>)
    ensures
        out@.len() == posts@.len(),
        newest_first(out@),
        forall|date: Seq<char>| #[trigger] dated(out@, date) == dated(posts@, date),
{
    let ghost all = posts@;
    let mut pending = reverse(posts);
    let mut out: Vec<Post> = Vec::new();
    assert(all.take(0) == Seq::<Post>::empty());
    while pending.len() > 0
        invariant
            out@.len() + pending@.len() == all.len(),
            pending@ == all.reverse().take(pending@.len() as int),
            newest_first(out@),
            forall|date: Seq<char>|
                #[trigger] dated(out@, date) == dated(all.take(out@.len() as int), date),
        decreases pending@.len(),
    {
        let ghost done = out@.len() as int;
        let ghost before = out@;
        match pending.pop() {
            Some(post) => {
                assert(post == all[done]);
                assert(all.take(done + 1).drop_last() == all.take(done));
                let date = chars_of(post.date.as_str());
                let at = place(&out, date.as_slice());
                proof {
                    lemma_place_keeps_order(before, post, at as int);
                    assert forall|d: Seq<char>| #[trigger]
                        dated(before.insert(at as int, post), d) == dated(
                            all.take(done + 1),
                            d,
                        ) by {
                        lemma_place_keeps_dates(before, post, at as int, d);
                        assert(dated(before, d) == dated(all.take(done), d));
                    }
                }
                out.insert(at, post);
            },
            None => {},
        }
    }
    assert(all.take(all.len() as int) == all);
    out
}

} // verus!
