//! What changed since the last build, and which listings that touches.

use vstd::prelude::*;
use crate::paginate::{lemma_page_of, page_of, spec_page_of, spec_total_pages, total_pages};
use crate::post::{post_views, Post, PostView};
use crate::seqs::{
    distinct_paths, distinct_texts, flatten_texts, has_text, prefix_of, spec_concat, spec_distinct,
    spec_select,
};
use crate::text::{chars_of, clone_strings, string_of, text_lists, texts};

verus! {

/// Whether a post changed since the build at `last_build_time`: it was
/// modified after it, or there was no build (`last_build_time` is 0).
pub open spec fn is_changed(last_build_time: i64) -> spec_fn(PostView) -> bool {
    |post: PostView| last_build_time == 0 || post.modified() > last_build_time
}

/// Whether a post did not change since the build at `last_build_time`.
pub open spec fn is_unchanged(last_build_time: i64) -> spec_fn(PostView) -> bool {
    |post: PostView| !(last_build_time == 0 || post.modified() > last_build_time)
}

/// The places that a list of indices names.
pub open spec fn places(which: Seq<usize>) -> Seq<int> {
    Seq::new(which.len(), |i: int| which[i] as int)
}

/// The posts at the places `which`, in that order.
pub open spec fn spec_pick(posts: Seq<PostView>, which: Seq<int>) -> Seq<PostView> {
    Seq::new(which.len(), |i: int| posts[which[i]])
}

/// The posts that changed since the build at `last_build_time`.
pub open spec fn spec_changed(posts: Seq<PostView>, last_build_time: i64) -> Seq<PostView> {
    spec_pick(posts, spec_select(posts, is_changed(last_build_time)))
}

/// The tags of each post.
pub open spec fn spec_tag_lists(posts: Seq<PostView>) -> Seq<Seq<Seq<char>>> {
    Seq::new(posts.len(), |i: int| posts[i].tags)
}

/// The tags of `posts`, each once, in order of first occurrence.
pub open spec fn spec_tags(posts: Seq<PostView>) -> Seq<Seq<char>> {
    spec_distinct(spec_concat(spec_tag_lists(posts)))
}

/// The prefixes of `path` that are not empty, shortest first.
pub open spec fn spec_prefixes(path: Seq<Seq<char>>) -> Seq<Seq<Seq<char>>> {
    Seq::new(path.len(), |i: int| path.take(i + 1))
}

/// The category paths that each post belongs to.
pub open spec fn spec_prefix_lists(posts: Seq<PostView>) -> Seq<Seq<Seq<Seq<char>>>> {
    Seq::new(posts.len(), |i: int| spec_prefixes(posts[i].categories))
}

/// The category paths of `posts`: every prefix of every post's path, each
/// once, in order of first occurrence.
pub open spec fn spec_category_paths(posts: Seq<PostView>) -> Seq<Seq<Seq<char>>> {
    spec_distinct(spec_concat(spec_prefix_lists(posts)))
}

/// The year of a date: its first four characters, where it has that many.
pub open spec fn spec_year_of(date: Option<Seq<char>>) -> Option<Seq<char>> {
    match date {
        Some(d) => if d.len() >= 4 {
            Some(d.take(4))
        } else {
            None
        },
        None => None,
    }
}

/// The year of each post, as a list of one or none.
pub open spec fn spec_year_lists(posts: Seq<PostView>) -> Seq<Seq<Seq<char>>> {
    Seq::new(
        posts.len(),
        |i: int|
            match spec_year_of(posts[i].date) {
                Some(y) => seq![y],
                None => Seq::empty(),
            },
    )
}

/// The years of `posts`, each once, in order of first occurrence.
pub open spec fn spec_years(posts: Seq<PostView>) -> Seq<Seq<char>> {
    spec_distinct(spec_concat(spec_year_lists(posts)))
}

/// Where there was no build, every post counts as changed, whenever it was
/// modified.
pub proof fn lemma_everything_changed_without_build(posts: Seq<PostView>)
    ensures
        spec_select(posts, is_changed(0)) == Seq::new(posts.len(), |i: int| i),
        spec_changed(posts, 0) == posts,
    decreases posts.len(),
{
    if posts.len() > 0 {
        lemma_everything_changed_without_build(posts.drop_last());
        assert(is_changed(0)(posts.last()));
        assert(spec_select(posts, is_changed(0)) =~= Seq::new(posts.len(), |i: int| i));
    } else {
        assert(spec_select(posts, is_changed(0)) =~= Seq::new(posts.len(), |i: int| i));
    }
    assert(spec_changed(posts, 0) =~= posts);
}

/// Splits the posts into those that changed since the build at
/// `last_build_time` and those that did not; each list holds places in
/// `posts`, in ascending order.
pub fn classify(posts: &Vec<Post>, last_build_time: i64) -> (r: (Vec<usize>, Vec<usize>))
    ensures
        places(r.0@) == spec_select(post_views(posts@), is_changed(last_build_time)),
        places(r.1@) == spec_select(post_views(posts@), is_unchanged(last_build_time)),
        last_build_time == 0 ==> r.0.len() == posts.len() && r.1.len() == 0,
        forall|i: int| 0 <= i < r.0.len() ==> #[trigger] r.0@[i] < posts.len(),
        forall|i: int| 0 <= i < r.1.len() ==> #[trigger] r.1@[i] < posts.len(),
{
    let ghost views = post_views(posts@);
    let mut changed: Vec<usize> = Vec::new();
    let mut unchanged: Vec<usize> = Vec::new();
    let mut k: usize = 0;
    assert(places(changed@) =~= spec_select(views.take(0), is_changed(last_build_time)));
    assert(places(unchanged@) =~= spec_select(views.take(0), is_unchanged(last_build_time)));
    while k < posts.len()
        invariant
            k <= posts.len(),
            views == post_views(posts@),
            places(changed@) == spec_select(views.take(k as int), is_changed(last_build_time)),
            places(unchanged@) == spec_select(views.take(k as int), is_unchanged(last_build_time)),
            last_build_time == 0 ==> changed.len() == k && unchanged.len() == 0,
            forall|i: int| 0 <= i < changed.len() ==> #[trigger] changed@[i] < k,
            forall|i: int| 0 <= i < unchanged.len() ==> #[trigger] unchanged@[i] < k,
        decreases posts.len() - k,
    {
        let modified: i64 = match posts[k].modified_epoch {
            Some(t) => t,
            None => 0,
        };
        proof {
            let next = views.take(k + 1);
            assert(next.drop_last() =~= views.take(k as int));
            assert(next.last() == posts@[k as int]@);
            assert(posts@[k as int]@.modified() == modified);
        }
        if last_build_time == 0 || modified > last_build_time {
            proof {
                assert(places(changed@.push(k)) =~= places(changed@).push(k as int));
            }
            changed.push(k);
        } else {
            proof {
                assert(places(unchanged@.push(k)) =~= places(unchanged@).push(k as int));
            }
            unchanged.push(k);
        }
        k += 1;
    }
    assert(views.take(posts.len() as int) =~= views);
    (changed, unchanged)
}

/// The places `0..n`.
pub fn all_places(n: usize) -> (which: Vec<usize>)
    ensures
        which.len() == n,
        forall|i: int| 0 <= i < n ==> #[trigger] which@[i] == i,
{
    let mut which: Vec<usize> = Vec::new();
    let mut i: usize = 0;
    while i < n
        invariant
            i <= n,
            which.len() == i,
            forall|j: int| 0 <= j < i ==> #[trigger] which@[j] == j,
        decreases n - i,
    {
        which.push(i);
        i += 1;
    }
    which
}

/// Picking every place gives the posts themselves.
pub proof fn lemma_pick_all(posts: Seq<PostView>, which: Seq<usize>)
    requires
        which.len() == posts.len(),
        forall|i: int| 0 <= i < which.len() ==> #[trigger] which[i] == i,
    ensures
        spec_pick(posts, places(which)) == posts,
{
    assert(spec_pick(posts, places(which)) =~= posts);
}

/// The tags of the posts at `which`, each once, in order of first
/// occurrence.
pub fn tags_at(posts: &Vec<Post>, which: &Vec<usize>) -> (tags: Vec<String>)
    requires
        forall|i: int| 0 <= i < which.len() ==> #[trigger] which@[i] < posts.len(),
    ensures
        texts(tags@) == spec_tags(spec_pick(post_views(posts@), places(which@))),
{
    let ghost picked = spec_pick(post_views(posts@), places(which@));
    let mut lists: Vec<Vec<String>> = Vec::new();
    let mut k: usize = 0;
    while k < which.len()
        invariant
            k <= which.len(),
            picked == spec_pick(post_views(posts@), places(which@)),
            forall|i: int| 0 <= i < which.len() ==> #[trigger] which@[i] < posts.len(),
            lists.len() == k,
            forall|m: int| 0 <= m < k ==> texts((#[trigger] lists@[m])@) == picked[m].tags,
        decreases which.len() - k,
    {
        let own = clone_strings(&posts[which[k]].tags);
        lists.push(own);
        k += 1;
    }
    assert(text_lists(lists@) =~= spec_tag_lists(picked));
    let flat = flatten_texts(&lists);
    distinct_texts(&flat)
}

/// The year of a date.
pub fn year_of(date: &Option<String>) -> (year: Option<String>)
    ensures
        crate::post::opt_text(year) == spec_year_of(crate::post::opt_text(*date)),
{
    match date {
        Some(d) => {
            let chars = chars_of(d.as_str());
            if chars.len() >= 4 {
                let mut first: Vec<char> = Vec::new();
                let mut i: usize = 0;
                while i < 4
                    invariant
                        i <= 4 <= chars.len(),
                        first@ == chars@.take(i as int),
                    decreases 4 - i,
                {
                    first.push(chars[i]);
                    assert(chars@.take(i + 1) =~= chars@.take(i as int).push(chars@[i as int]));
                    i += 1;
                }
                Some(string_of(&first))
            } else {
                None
            }
        },
        None => None,
    }
}

/// Whether a post is of the year `year`, by its date.
pub open spec fn is_of_year(year: Seq<char>) -> spec_fn(PostView) -> bool {
    |post: PostView| spec_year_of(post.date) == Some(year)
}

/// The places of the posts of the year `year` among `posts`, in ascending
/// order: the posts that the archive of the year lists.
pub fn year_members(posts: &Vec<Post>, year: &str) -> (members: Vec<usize>)
    ensures
        places(members@) == spec_select(post_views(posts@), is_of_year(year@)),
        forall|i: int| 0 <= i < members.len() ==> #[trigger] members@[i] < posts.len(),
{
    let ghost views = post_views(posts@);
    let mut members: Vec<usize> = Vec::new();
    let mut k: usize = 0;
    assert(places(members@) =~= spec_select(views.take(0), is_of_year(year@)));
    while k < posts.len()
        invariant
            k <= posts.len(),
            views == post_views(posts@),
            places(members@) == spec_select(views.take(k as int), is_of_year(year@)),
            forall|i: int| 0 <= i < members.len() ==> #[trigger] members@[i] < k,
        decreases posts.len() - k,
    {
        proof {
            let next = views.take(k + 1);
            assert(next.drop_last() =~= views.take(k as int));
            assert(next.last() == posts@[k as int]@);
        }
        let belongs = match year_of(&posts[k].date) {
            Some(own) => crate::text::text_eq(own.as_str(), year),
            None => false,
        };
        if belongs {
            proof {
                assert(places(members@.push(k)) =~= places(members@).push(k as int));
            }
            members.push(k);
        }
        k += 1;
    }
    assert(views.take(posts.len() as int) =~= views);
    members
}

/// The years of the posts at `which`, each once, in order of first
/// occurrence.
pub fn years_at(posts: &Vec<Post>, which: &Vec<usize>) -> (years: Vec<String>)
    requires
        forall|i: int| 0 <= i < which.len() ==> #[trigger] which@[i] < posts.len(),
    ensures
        texts(years@) == spec_years(spec_pick(post_views(posts@), places(which@))),
{
    let ghost picked = spec_pick(post_views(posts@), places(which@));
    let mut lists: Vec<Vec<String>> = Vec::new();
    let mut k: usize = 0;
    while k < which.len()
        invariant
            k <= which.len(),
            picked == spec_pick(post_views(posts@), places(which@)),
            forall|i: int| 0 <= i < which.len() ==> #[trigger] which@[i] < posts.len(),
            lists.len() == k,
            forall|m: int|
                0 <= m < k ==> texts((#[trigger] lists@[m])@) == spec_year_lists(picked)[m],
        decreases which.len() - k,
    {
        let mut own: Vec<String> = Vec::new();
        match year_of(&posts[which[k]].date) {
            Some(y) => {
                assert(texts(own@.push(y)) =~= seq![y@]);
                own.push(y);
            },
            None => {
                assert(texts(own@) =~= Seq::<Seq<char>>::empty());
            },
        }
        lists.push(own);
        k += 1;
    }
    assert(text_lists(lists@) =~= spec_year_lists(picked));
    let flat = flatten_texts(&lists);
    distinct_texts(&flat)
}

/// The category paths of the posts at `which`: every prefix of their paths,
/// each once, in order of first occurrence.
pub fn category_paths_at(posts: &Vec<Post>, which: &Vec<usize>) -> (paths: Vec<Vec<String>>)
    requires
        forall|i: int| 0 <= i < which.len() ==> #[trigger] which@[i] < posts.len(),
    ensures
        text_lists(paths@) == spec_category_paths(spec_pick(post_views(posts@), places(which@))),
{
    let ghost picked = spec_pick(post_views(posts@), places(which@));
    let ghost lists = spec_prefix_lists(picked);
    let mut flat: Vec<Vec<String>> = Vec::new();
    let mut k: usize = 0;
    assert(text_lists(flat@) =~= spec_concat(lists.take(0)));
    while k < which.len()
        invariant
            k <= which.len(),
            picked == spec_pick(post_views(posts@), places(which@)),
            lists == spec_prefix_lists(picked),
            forall|i: int| 0 <= i < which.len() ==> #[trigger] which@[i] < posts.len(),
            text_lists(flat@) == spec_concat(lists.take(k as int)),
        decreases which.len() - k,
    {
        let path = &posts[which[k]].categories;
        let ghost start = text_lists(flat@);
        let ghost own = spec_prefixes(texts(path@));
        assert(own == lists[k as int]);
        let mut n: usize = 0;
        while n < path.len()
            invariant
                n <= path.len(),
                own == spec_prefixes(texts(path@)),
                text_lists(flat@) == start + own.take(n as int),
            decreases path.len() - n,
        {
            let prefix = prefix_of(path, n + 1);
            proof {
                assert(text_lists(flat@.push(prefix)) =~= text_lists(flat@).push(texts(prefix@)));
                assert(own.take(n + 1) =~= own.take(n as int).push(own[n as int]));
                assert(text_lists(flat@).push(texts(prefix@)) =~= start + own.take(n + 1));
            }
            flat.push(prefix);
            n += 1;
        }
        proof {
            assert(own.take(path.len() as int) =~= own);
            let next = lists.take(k + 1);
            assert(next.drop_last() =~= lists.take(k as int));
            assert(next.last() == own);
        }
        k += 1;
    }
    assert(lists.take(which.len() as int) =~= lists);
    distinct_paths(flat)
}

/// Whether the home page of number `page` has to be written again: it holds
/// a changed post, or it is a numbered page above the highest one that was
/// written before. `changed` holds the places of the changed posts among the
/// `n` posts, newest first; the numbered pages are those below the last.
pub open spec fn spec_is_affected_page(
    n: nat,
    page_size: nat,
    changed: Seq<int>,
    existing_max_page: nat,
    page: nat,
) -> bool {
    ||| exists|i: int|
        0 <= i < changed.len() && spec_page_of(n, page_size, #[trigger] changed[i] as nat) == page
    ||| existing_max_page < page < spec_total_pages(n, page_size)
}

/// Whether the numbers of `pages` ascend strictly.
pub open spec fn are_ascending_pages(pages: Seq<usize>) -> bool {
    forall|i: int, j: int| 0 <= i < j < pages.len() ==> #[trigger] pages[i] < #[trigger] pages[j]
}

/// The home pages that have to be written again, in ascending order.
pub fn affected_pages(
    n: usize,
    page_size: usize,
    changed: &Vec<usize>,
    existing_max_page: usize,
) -> (pages: Vec<usize>)
    requires
        page_size >= 1,
        forall|i: int| 0 <= i < changed.len() ==> #[trigger] changed@[i] < n,
    ensures
        are_ascending_pages(pages@),
        forall|page: usize| #[trigger]
            pages@.contains(page) <==> spec_is_affected_page(
                n as nat,
                page_size as nat,
                places(changed@),
                existing_max_page as nat,
                page as nat,
            ),
        forall|i: int|
            0 <= i < pages.len() ==> 1 <= #[trigger] pages@[i] <= spec_total_pages(
                n as nat,
                page_size as nat,
            ),
{
    let total = total_pages(n, page_size);
    let ghost where_ = places(changed@);
    // marks[p - 1] tells whether page p is affected
    let mut marks: Vec<bool> = Vec::new();
    let mut p: usize = 0;
    while p < total
        invariant
            p <= total,
            marks.len() == p,
            forall|q: int| 0 <= q < p ==> !(#[trigger] marks@[q]),
        decreases total - p,
    {
        marks.push(false);
        p += 1;
    }
    let mut k: usize = 0;
    while k < changed.len()
        invariant
            k <= changed.len(),
            page_size >= 1,
            total == spec_total_pages(n as nat, page_size as nat),
            where_ == places(changed@),
            forall|i: int| 0 <= i < changed.len() ==> #[trigger] changed@[i] < n,
            marks.len() == total,
            forall|q: int|
                0 <= q < total ==> (#[trigger] marks@[q] <==> exists|i: int|
                    0 <= i < k && spec_page_of(
                        n as nat,
                        page_size as nat,
                        #[trigger] where_[i] as nat,
                    ) == q + 1),
        decreases changed.len() - k,
    {
        let page = page_of(n, page_size, changed[k]);
        let ghost before = marks@;
        marks.set(page - 1, true);
        proof {
            assert(where_[k as int] == changed@[k as int]);
            assert forall|q: int| 0 <= q < total implies (#[trigger] marks@[q] <==> exists|i: int|
                0 <= i < k + 1 && spec_page_of(
                    n as nat,
                    page_size as nat,
                    #[trigger] where_[i] as nat,
                ) == q + 1) by {
                if q == page - 1 {
                    assert(spec_page_of(n as nat, page_size as nat, where_[k as int] as nat) == q
                        + 1);
                } else {
                    assert(marks@[q] == before[q]);
                    if exists|i: int|
                        0 <= i < k + 1 && spec_page_of(
                            n as nat,
                            page_size as nat,
                            #[trigger] where_[i] as nat,
                        ) == q + 1 {
                        let i = choose|i: int|
                            0 <= i < k + 1 && spec_page_of(
                                n as nat,
                                page_size as nat,
                                #[trigger] where_[i] as nat,
                            ) == q + 1;
                        assert(i < k);
                    }
                }
            }
        }
        k += 1;
    }
    let ghost held = marks@;
    let mut fresh: usize = existing_max_page;
    while fresh < total - 1
        invariant
            existing_max_page <= fresh,
            fresh <= total - 1 || fresh == existing_max_page,
            total >= 1,
            marks.len() == total,
            forall|q: int|
                0 <= q < total ==> (#[trigger] marks@[q] <==> held[q] || existing_max_page < q + 1
                    <= fresh),
        decreases total - fresh,
    {
        fresh += 1;
        marks.set(fresh - 1, true);
    }
    let mut pages: Vec<usize> = Vec::new();
    let mut q: usize = 0;
    while q < total
        invariant
            q <= total,
            marks.len() == total,
            forall|i: int| 0 <= i < pages.len() ==> 1 <= #[trigger] pages@[i] <= q,
            are_ascending_pages(pages@),
            forall|page: usize| #[trigger]
                pages@.contains(page) <==> 1 <= page <= q && marks@[page - 1],
        decreases total - q,
    {
        if marks[q] {
            let ghost before = pages@;
            pages.push(q + 1);
            proof {
                assert forall|page: usize| #[trigger]
                    pages@.contains(page) <==> 1 <= page <= q + 1 && marks@[page - 1] by {
                    if pages@.contains(page) {
                        let i = choose|i: int| 0 <= i < pages.len() && pages@[i] == page;
                        if i < before.len() {
                            assert(before[i] == page);
                            assert(before.contains(page));
                        }
                    }
                    if 1 <= page <= q + 1 && marks@[page - 1] {
                        if page == q + 1 {
                            assert(pages@[pages.len() - 1] == page);
                        } else {
                            assert(before.contains(page));
                            let i = choose|i: int| 0 <= i < before.len() && before[i] == page;
                            assert(pages@[i] == page);
                        }
                    }
                }
            }
        }
        q += 1;
    }
    proof {
        assert forall|page: usize| #[trigger]
            pages@.contains(page) <==> spec_is_affected_page(
                n as nat,
                page_size as nat,
                where_,
                existing_max_page as nat,
                page as nat,
            ) by {
            if pages@.contains(page) {
                assert(1 <= page <= total && marks@[page - 1]);
                assert(held[page - 1] || existing_max_page < page <= fresh);
                if held[page - 1] {
                    let i = choose|i: int|
                        0 <= i < changed.len() && spec_page_of(
                            n as nat,
                            page_size as nat,
                            #[trigger] where_[i] as nat,
                        ) == page;
                    assert(spec_page_of(n as nat, page_size as nat, where_[i] as nat) == page);
                }
            }
            if spec_is_affected_page(
                n as nat,
                page_size as nat,
                where_,
                existing_max_page as nat,
                page as nat,
            ) {
                if exists|i: int|
                    0 <= i < where_.len() && spec_page_of(
                        n as nat,
                        page_size as nat,
                        #[trigger] where_[i] as nat,
                    ) == page {
                    let i = choose|i: int|
                        0 <= i < where_.len() && spec_page_of(
                            n as nat,
                            page_size as nat,
                            #[trigger] where_[i] as nat,
                        ) == page;
                    assert(where_[i] == changed@[i]);
                    lemma_page_of(n as nat, page_size as nat, where_[i] as nat);
                    assert(held[page - 1]);
                }
            }
        }
    }
    pages
}

/// Whether one of `tags` has no directory yet, so that the overview of all
/// tags has to be written again.
pub fn needs_tags_overview(tags: &Vec<String>, existing: &Vec<String>) -> (needed: bool)
    ensures
        needed <==> exists|i: int|
            0 <= i < tags.len() && !texts(existing@).contains(#[trigger] texts(tags@)[i]),
{
    let mut i: usize = 0;
    while i < tags.len()
        invariant
            i <= tags.len(),
            forall|k: int| 0 <= k < i ==> texts(existing@).contains(#[trigger] texts(tags@)[k]),
        decreases tags.len() - i,
    {
        if !has_text(existing, tags[i].as_str()) {
            assert(!texts(existing@).contains(texts(tags@)[i as int]));
            return true;
        }
        i += 1;
    }
    false
}

/// What an incremental build has to write again.
#[derive(Debug, Clone, PartialEq, Eq)]
pub struct Affected {
    /// The places of the changed posts among the posts, newest first.
    pub changed: Vec<usize>,
    /// The home pages, in ascending order.
    pub pages: Vec<usize>,
    /// The tags whose feeds changed.
    pub tags: Vec<String>,
    /// Whether the overview of all tags changed.
    pub tags_overview: bool,
    /// The category paths whose feeds changed.
    pub categories: Vec<Vec<String>>,
    /// The years whose archives changed.
    pub years: Vec<String>,
}

impl Affected {
    /// Whether `self` is what the posts that changed since the build at
    /// `last_build_time` touch.
    pub open spec fn is_for(
        self,
        posts: Seq<PostView>,
        last_build_time: i64,
        page_size: nat,
        existing_max_page: nat,
        existing_tags: Seq<Seq<char>>,
    ) -> bool {
        let changed = spec_changed(posts, last_build_time);
        &&& places(self.changed@) == spec_select(posts, is_changed(last_build_time))
        &&& are_ascending_pages(self.pages@)
        &&& forall|page: usize| #[trigger]
            self.pages@.contains(page) <==> spec_is_affected_page(
                posts.len(),
                page_size,
                places(self.changed@),
                existing_max_page,
                page as nat,
            )
        &&& texts(self.tags@) == spec_tags(changed)
        &&& self.tags_overview <==> exists|i: int|
            0 <= i < self.tags.len() && !existing_tags.contains(#[trigger] texts(self.tags@)[i])
        &&& text_lists(self.categories@) == spec_category_paths(changed)
        &&& texts(self.years@) == spec_years(changed)
    }
}

/// What an incremental build of `posts`, newest first, has to write again
/// after the build at `last_build_time`. `existing_max_page` is the highest
/// number of a home page in the output, `existing_tags` are the tags that
/// have a directory there.
pub fn affected_sets(
    posts: &Vec<Post>,
    last_build_time: i64,
    page_size: usize,
    existing_max_page: usize,
    existing_tags: &Vec<String>,
) -> (affected: Affected)
    requires
        page_size >= 1,
    ensures
        affected.is_for(
            post_views(posts@),
            last_build_time,
            page_size as nat,
            existing_max_page as nat,
            texts(existing_tags@),
        ),
{
    let (changed, _) = classify(posts, last_build_time);
    let pages = affected_pages(posts.len(), page_size, &changed, existing_max_page);
    let tags = tags_at(posts, &changed);
    let tags_overview = needs_tags_overview(&tags, existing_tags);
    let categories = category_paths_at(posts, &changed);
    let years = years_at(posts, &changed);
    proof {
        let views = post_views(posts@);
        assert(views.len() == posts.len());
        assert(spec_changed(views, last_build_time) == spec_pick(views, places(changed@)));
    }
    let affected = Affected { changed, pages, tags, tags_overview, categories, years };
    proof {
        let views = post_views(posts@);
        let c = spec_changed(views, last_build_time);
        assert(texts(affected.tags@) == spec_tags(c));
        assert(text_lists(affected.categories@) == spec_category_paths(c));
        assert(texts(affected.years@) == spec_years(c));
        assert(affected.tags_overview <==> exists|i: int|
            0 <= i < affected.tags.len() && !texts(existing_tags@).contains(
                #[trigger] texts(affected.tags@)[i],
            ));
    }
    affected
}

/// Every prefix of a post's category path that is not empty is among the
/// category paths of a collection that holds the post.
pub proof fn lemma_category_paths_hold_prefixes(posts: Seq<PostView>, k: int, n: int)
    requires
        0 <= k < posts.len(),
        1 <= n <= posts[k].categories.len(),
    ensures
        spec_category_paths(posts).contains(posts[k].categories.take(n)),
{
    let lists = spec_prefix_lists(posts);
    let own = spec_prefixes(posts[k].categories);
    assert(lists[k] == own);
    assert(own[n - 1] == posts[k].categories.take(n));
    assert(own.contains(posts[k].categories.take(n)));
    lemma_concat_holds(lists, k, posts[k].categories.take(n));
    crate::seqs::lemma_distinct(spec_concat(lists));
}

/// The category paths are closed under prefixes: with a path of two or more
/// names they hold the path without its last name.
pub proof fn lemma_category_paths_closed(posts: Seq<PostView>, path: Seq<Seq<char>>)
    requires
        spec_category_paths(posts).contains(path),
        path.len() >= 2,
    ensures
        spec_category_paths(posts).contains(path.drop_last()),
{
    let lists = spec_prefix_lists(posts);
    crate::seqs::lemma_distinct(spec_concat(lists));
    assert(spec_concat(lists).contains(path));
    lemma_concat_from(lists, path);
    let k = choose|k: int| 0 <= k < lists.len() && (#[trigger] lists[k]).contains(path);
    let own = spec_prefixes(posts[k].categories);
    let m = choose|m: int| 0 <= m < own.len() && own[m] == path;
    assert(path == posts[k].categories.take(m + 1));
    assert(path.drop_last() =~= posts[k].categories.take(m));
    lemma_category_paths_hold_prefixes(posts, k, m);
}

/// What one of the parts holds, their concatenation holds.
pub proof fn lemma_concat_holds<A>(parts: Seq<Seq<A>>, k: int, x: A)
    requires
        0 <= k < parts.len(),
        parts[k].contains(x),
    ensures
        spec_concat(parts).contains(x),
    decreases parts.len(),
{
    let before = spec_concat(parts.drop_last());
    if k == parts.len() - 1 {
        let i = choose|i: int| 0 <= i < parts[k].len() && parts[k][i] == x;
        assert(spec_concat(parts)[before.len() + i] == x);
    } else {
        assert(parts.drop_last()[k] == parts[k]);
        lemma_concat_holds(parts.drop_last(), k, x);
        let i = choose|i: int| 0 <= i < before.len() && before[i] == x;
        assert(spec_concat(parts)[i] == x);
    }
}

/// What the concatenation holds, one of the parts holds.
pub proof fn lemma_concat_from<A>(parts: Seq<Seq<A>>, x: A)
    requires
        spec_concat(parts).contains(x),
    ensures
        exists|k: int| 0 <= k < parts.len() && (#[trigger] parts[k]).contains(x),
    decreases parts.len(),
{
    if parts.len() > 0 {
        let before = spec_concat(parts.drop_last());
        let i = choose|i: int| 0 <= i < spec_concat(parts).len() && spec_concat(parts)[i] == x;
        if i < before.len() {
            assert(before[i] == x);
            assert(before.contains(x));
            lemma_concat_from(parts.drop_last(), x);
            let k = choose|k: int|
                0 <= k < parts.drop_last().len() && (#[trigger] parts.drop_last()[k]).contains(x);
            assert(parts[k] == parts.drop_last()[k]);
            assert(parts[k].contains(x));
        } else {
            assert(parts.last()[i - before.len()] == x);
            assert(parts[parts.len() - 1].contains(x));
        }
    }
}

} // verus!
