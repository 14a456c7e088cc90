//! The sidebar of a site: its newest posts, its most used tags and its
//! largest categories.

use vstd::prelude::*;
use crate::post::{is_newest_first_of, post_views, sort_posts, Post, PostView};
use crate::taxonomy::{census, is_census, is_tag_census, NameCount};
use crate::post::PostParser;
use crate::text::{text_lists, texts};

verus! {

/// Number of posts that the sidebar lists.
pub const HOT_POSTS: usize = 10;

/// Number of tags that the sidebar lists.
pub const HOT_TAGS: usize = 20;

/// Number of categories that the sidebar lists.
pub const HOT_CATEGORIES: usize = 8;

/// What the sidebar shows of a post.
#[derive(Debug, Clone, PartialEq, Eq)]
pub struct HotPost {
    pub slug: Option<String>,
    pub title: Option<String>,
    pub date_ymd: Option<String>,
    pub categories: Vec<String>,
}

impl HotPost {
    /// Whether `self` shows the post `post`.
    pub open spec fn is_of(self, post: PostView) -> bool {
        &&& crate::post::opt_text(self.slug) == post.slug
        &&& crate::post::opt_text(self.title) == post.title
        &&& crate::post::opt_text(self.date_ymd) == post.date
        &&& texts(self.categories@) == post.categories
    }
}

/// The sidebar: the newest posts, the most used tags, and the outermost
/// categories with the most posts.
#[derive(Debug, Clone, PartialEq, Eq)]
pub struct Sidebar {
    pub hot_posts: Vec<HotPost>,
    pub hot_tags: Vec<NameCount>,
    pub hot_categories: Vec<NameCount>,
}

/// A name with its count, as plain values.
pub open spec fn count_views(counts: Seq<NameCount>) -> Seq<(Seq<char>, usize)> {
    Seq::new(counts.len(), |i: int| (counts[i].name@, counts[i].count))
}

/// Whether `output` lists the entries of `input` by falling count, entries
/// of one count in the order of `input`; `source[k]` is the place in
/// `input` of the entry at place `k` of `output`.
pub open spec fn is_ranking_of(
    input: Seq<(Seq<char>, usize)>,
    output: Seq<(Seq<char>, usize)>,
    source: Seq<int>,
) -> bool {
    &&& output.len() == input.len()
    &&& source.len() == input.len()
    &&& forall|k: int|
        0 <= k < output.len() ==> 0 <= #[trigger] source[k] < input.len() && output[k]
            == input[source[k]]
    &&& forall|k: int, l: int|
        0 <= k < l < output.len() ==> (#[trigger] output[k]).1 > (#[trigger] output[l]).1 || (
        output[k].1 == output[l].1 && source[k] < source[l])
}

/// The first `n` elements of `s`, and `s` itself where it has fewer.
pub open spec fn spec_top<A>(s: Seq<A>, n: nat) -> Seq<A> {
    if s.len() <= n {
        s
    } else {
        s.take(n as int)
    }
}

/// The outermost category of each post, as a list of one or none.
pub open spec fn spec_top_level_lists(posts: Seq<PostView>) -> Seq<Seq<Seq<char>>> {
    Seq::new(
        posts.len(),
        |i: int|
            if posts[i].categories.len() > 0 {
                seq![posts[i].categories[0]]
            } else {
                Seq::empty()
            },
    )
}

/// Orders counts by falling count; entries of one count keep their order.
pub fn rank_by_count(counts: Vec<NameCount>) -> (ranked: Vec<NameCount>)
    ensures
        exists|source: Seq<int>| is_ranking_of(count_views(counts@), count_views(ranked@), source),
{
    let ghost input = count_views(counts@);
    let mut rest = counts;
    let mut ranked: Vec<NameCount> = Vec::new();
    let ghost mut source: Seq<int> = Seq::empty();
    let ghost mut done: int = 0;
    while rest.len() > 0
        invariant
            0 <= done <= input.len(),
            rest.len() == input.len() - done,
            forall|i: int|
                0 <= i < rest.len() ==> ((#[trigger] rest@[i]).name@, rest@[i].count) == input[done
                    + i],
            ranked.len() == done,
            source.len() == done,
            forall|k: int|
                0 <= k < done ==> 0 <= #[trigger] source[k] < done && (
                    ranked@[k].name@,
                    ranked@[k].count,
                ) == input[source[k]],
            forall|k: int, l: int|
                0 <= k < l < done ==> (#[trigger] ranked@[k]).count > (#[trigger] ranked@[l]).count
                    || (ranked@[k].count == ranked@[l].count && source[k] < source[l]),
        decreases rest.len(),
    {
        let entry = rest.remove(0);
        let mut at: usize = ranked.len();
        while at > 0 && ranked[at - 1].count < entry.count
            invariant
                at <= ranked.len(),
                forall|l: int| at <= l < ranked.len() ==> (#[trigger] ranked@[l]).count < entry.count,
            decreases at,
        {
            at -= 1;
        }
        proof {
            source = source.insert(at as int, done);
        }
        ranked.insert(at, entry);
        proof {
            done = done + 1;
        }
    }
    proof {
        assert(is_ranking_of(input, count_views(ranked@), source));
    }
    ranked
}

/// The posts that the sidebar lists: the newest ten, newest first.
pub fn hot_posts(posts: &Vec<Post>) -> (hot: Vec<HotPost>)
    ensures
        exists|sorted: Seq<PostView>, source: Seq<int>|
            is_newest_first_of(post_views(posts@), sorted, source) && hot.len() == spec_top(
                sorted,
                HOT_POSTS as nat,
            ).len() && forall|i: int|
                0 <= i < hot.len() ==> (#[trigger] hot@[i]).is_of(sorted[i]),
{
    let mut copies: Vec<Post> = Vec::new();
    let mut k: usize = 0;
    while k < posts.len()
        invariant
            k <= posts.len(),
            copies.len() == k,
            forall|i: int| 0 <= i < k ==> (#[trigger] copies@[i])@ == posts@[i]@,
        decreases posts.len() - k,
    {
        copies.push(posts[k].duplicate());
        k += 1;
    }
    assert(post_views(copies@) =~= post_views(posts@));
    let sorted = sort_posts(copies);
    let ghost source = choose|source: Seq<int>|
        is_newest_first_of(post_views(posts@), post_views(sorted@), source);
    let mut hot: Vec<HotPost> = Vec::new();
    let mut i: usize = 0;
    while i < sorted.len() && i < HOT_POSTS
        invariant
            i <= sorted.len(),
            i <= HOT_POSTS,
            hot.len() == i,
            forall|j: int| 0 <= j < i ==> (#[trigger] hot@[j]).is_of(sorted@[j]@),
        decreases sorted.len() - i,
    {
        let post = &sorted[i];
        let copy = post.duplicate();
        hot.push(
            HotPost {
                slug: copy.slug,
                title: copy.title,
                date_ymd: copy.date,
                categories: copy.categories,
            },
        );
        i += 1;
    }
    proof {
        let views = post_views(sorted@);
        assert(is_newest_first_of(post_views(posts@), views, source));
        assert forall|j: int| 0 <= j < hot.len() implies (#[trigger] hot@[j]).is_of(views[j]) by {
            assert(hot@[j].is_of(sorted@[j]@));
        }
    }
    hot
}

fn top(ranked: Vec<NameCount>, n: usize) -> (first: Vec<NameCount>)
    ensures
        count_views(first@) == spec_top(count_views(ranked@), n as nat),
{
    let mut first = ranked;
    if first.len() > n {
        first.truncate(n);
        assert(count_views(first@) =~= count_views(ranked@).take(n as int));
    }
    first
}

/// The tags that the sidebar lists: the twenty that most posts carry, by
/// falling count, tags of one count by name.
pub fn hot_tags(posts: &Vec<Post>) -> (hot: Vec<NameCount>)
    ensures
        exists|counts: Seq<NameCount>, ranked: Seq<(Seq<char>, usize)>, source: Seq<int>|
            is_tag_census(post_views(posts@), counts) && is_ranking_of(
                count_views(counts),
                ranked,
                source,
            ) && count_views(hot@) == spec_top(ranked, HOT_TAGS as nat),
{
    let counts = PostParser::collect_tags(posts);
    let ranked = rank_by_count(counts);
    let ghost source = choose|source: Seq<int>|
        is_ranking_of(count_views(counts@), count_views(ranked@), source);
    let hot = top(ranked, HOT_TAGS);
    assert(is_tag_census(post_views(posts@), counts@) && is_ranking_of(
        count_views(counts@),
        count_views(ranked@),
        source,
    ) && count_views(hot@) == spec_top(count_views(ranked@), HOT_TAGS as nat));
    hot
}

/// The categories that the sidebar lists: the eight outermost categories
/// with the most posts, by falling count, categories of one count by name.
pub fn hot_categories(posts: &Vec<Post>) -> (hot: Vec<NameCount>)
    ensures
        exists|counts: Seq<NameCount>, ranked: Seq<(Seq<char>, usize)>, source: Seq<int>|
            is_census(spec_top_level_lists(post_views(posts@)), counts) && is_ranking_of(
                count_views(counts),
                ranked,
                source,
            ) && count_views(hot@) == spec_top(ranked, HOT_CATEGORIES as nat),
{
    let mut labels: Vec<Vec<String>> = Vec::new();
    let mut k: usize = 0;
    while k < posts.len()
        invariant
            k <= posts.len(),
            labels.len() == k,
            forall|m: int|
                0 <= m < k ==> texts((#[trigger] labels@[m])@) == spec_top_level_lists(
                    post_views(posts@),
                )[m],
        decreases posts.len() - k,
    {
        let mut own: Vec<String> = Vec::new();
        if posts[k].categories.len() > 0 {
            own.push(posts[k].categories[0].clone());
            assert(texts(own@) =~= seq![posts@[k as int]@.categories[0]]);
        } else {
            assert(texts(own@) =~= Seq::<Seq<char>>::empty());
        }
        labels.push(own);
        k += 1;
    }
    assert(text_lists(labels@) =~= spec_top_level_lists(post_views(posts@)));
    let counts = census(&labels);
    let ranked = rank_by_count(counts);
    let ghost source = choose|source: Seq<int>|
        is_ranking_of(count_views(counts@), count_views(ranked@), source);
    let hot = top(ranked, HOT_CATEGORIES);
    assert(is_census(spec_top_level_lists(post_views(posts@)), counts@) && is_ranking_of(
        count_views(counts@),
        count_views(ranked@),
        source,
    ) && count_views(hot@) == spec_top(count_views(ranked@), HOT_CATEGORIES as nat));
    hot
}

impl Sidebar {
    /// Whether `self` is the sidebar of `posts`.
    pub open spec fn is_for(self, posts: Seq<PostView>) -> bool {
        &&& exists|sorted: Seq<PostView>, source: Seq<int>|
            is_newest_first_of(posts, sorted, source) && self.hot_posts.len() == spec_top(
                sorted,
                HOT_POSTS as nat,
            ).len() && forall|i: int|
                0 <= i < self.hot_posts.len() ==> (#[trigger] self.hot_posts@[i]).is_of(sorted[i])
        &&& exists|counts: Seq<NameCount>, ranked: Seq<(Seq<char>, usize)>, source: Seq<int>|
            is_tag_census(posts, counts) && is_ranking_of(count_views(counts), ranked, source)
                && count_views(self.hot_tags@) == spec_top(ranked, HOT_TAGS as nat)
        &&& exists|counts: Seq<NameCount>, ranked: Seq<(Seq<char>, usize)>, source: Seq<int>|
            is_census(spec_top_level_lists(posts), counts) && is_ranking_of(
                count_views(counts),
                ranked,
                source,
            ) && count_views(self.hot_categories@) == spec_top(ranked, HOT_CATEGORIES as nat)
    }

    /// The sidebar of `posts`.
    pub fn of(posts: &Vec<Post>) -> (sidebar: Sidebar)
        ensures
            sidebar.is_for(post_views(posts@)),
    {
        Sidebar {
            hot_posts: hot_posts(posts),
            hot_tags: hot_tags(posts),
            hot_categories: hot_categories(posts),
        }
    }
}

} // verus!
