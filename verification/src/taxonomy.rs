//! Tags, years and categories of a collection of posts, with their counts.

use vstd::prelude::*;
use crate::changes::{all_places, category_paths_at, lemma_pick_all, places, spec_category_paths};
use crate::post::{post_views, Post, PostParser, PostView};
use crate::seqs::{
    has_no_repetition, has_text, insert_ascending, is_ascending, lemma_distinct,
    lemma_select_alike, spec_count, starts_with_texts,
};
use crate::text::{
    chars_of, clone_strings, compare_chars, lemma_lex_lt_total, lex_lt, text_lists, texts, Order,
};

verus! {

/// A name and the number of posts that carry it.
#[derive(Debug, Clone, PartialEq, Eq)]
pub struct NameCount {
    pub name: String,
    pub count: usize,
}

/// The names of a list of counts.
pub open spec fn names_of(counts: Seq<NameCount>) -> Seq<Seq<char>> {
    Seq::new(counts.len(), |i: int| counts[i].name@)
}

/// Whether a list of labels holds `name`.
pub open spec fn holds(name: Seq<char>) -> spec_fn(Seq<Seq<char>>) -> bool {
    |labels: Seq<Seq<char>>| labels.contains(name)
}

/// Whether a post carries the tag `tag`.
pub open spec fn has_tag(tag: Seq<char>) -> spec_fn(PostView) -> bool {
    |post: PostView| post.tags.contains(tag)
}

/// Whether a post is of the year `year`.
pub open spec fn has_year(year: Seq<char>) -> spec_fn(PostView) -> bool {
    |post: PostView| post.year == Some(year)
}

/// Whether `counts` is the census of `labels`, a list of labels for each
/// post: every label that occurs has one entry, the entries ascend by name,
/// and an entry counts the posts whose list holds its name.
pub open spec fn is_census(labels: Seq<Seq<Seq<char>>>, counts: Seq<NameCount>) -> bool {
    &&& is_ascending(names_of(counts))
    &&& forall|x: Seq<char>| #[trigger]
        names_of(counts).contains(x) <==> exists|k: int|
            0 <= k < labels.len() && (#[trigger] labels[k]).contains(x)
    &&& forall|i: int|
        0 <= i < counts.len() ==> (#[trigger] counts[i]).count == spec_count(
            labels,
            holds(counts[i].name@),
        )
}

/// Whether `counts` is the census of the tags of `posts`.
pub open spec fn is_tag_census(posts: Seq<PostView>, counts: Seq<NameCount>) -> bool {
    &&& is_ascending(names_of(counts))
    &&& forall|x: Seq<char>| #[trigger]
        names_of(counts).contains(x) <==> exists|k: int|
            0 <= k < posts.len() && (#[trigger] posts[k]).tags.contains(x)
    &&& forall|i: int|
        0 <= i < counts.len() ==> (#[trigger] counts[i]).count == spec_count(
            posts,
            has_tag(counts[i].name@),
        )
}

/// Whether `counts` is the census of the years of `posts`.
pub open spec fn is_year_census(posts: Seq<PostView>, counts: Seq<NameCount>) -> bool {
    &&& is_ascending(names_of(counts))
    &&& forall|x: Seq<char>| #[trigger]
        names_of(counts).contains(x) <==> exists|k: int|
            0 <= k < posts.len() && (#[trigger] posts[k]).year == Some(x)
    &&& forall|i: int|
        0 <= i < counts.len() ==> (#[trigger] counts[i]).count == spec_count(
            posts,
            has_year(counts[i].name@),
        )
}

/// Number of the lists of `labels` that hold `name`.
pub fn count_holding(labels: &Vec<Vec<String>>, name: &str) -> (count: usize)
    ensures
        count == spec_count(text_lists(labels@), holds(name@)),
{
    let ghost all = text_lists(labels@);
    let mut count: usize = 0;
    let mut k: usize = 0;
    while k < labels.len()
        invariant
            k <= labels.len(),
            all == text_lists(labels@),
            count == spec_count(all.take(k as int), holds(name@)),
            count <= k,
        decreases labels.len() - k,
    {
        proof {
            let next = all.take(k + 1);
            assert(next.drop_last() =~= all.take(k as int));
            assert(next.last() == texts(labels@[k as int]@));
        }
        if has_text(&labels[k], name) {
            count += 1;
        }
        k += 1;
    }
    assert(all.take(labels.len() as int) =~= all);
    count
}

/// The census of `labels`.
pub fn census(labels: &Vec<Vec<String>>) -> (counts: Vec<NameCount>)
    ensures
        is_census(text_lists(labels@), counts@),
{
    let ghost all = text_lists(labels@);
    let mut names: Vec<String> = Vec::new();
    let mut k: usize = 0;
    while k < labels.len()
        invariant
            k <= labels.len(),
            all == text_lists(labels@),
            is_ascending(texts(names@)),
            forall|x: Seq<char>| #[trigger]
                texts(names@).contains(x) <==> exists|m: int|
                    0 <= m < k && (#[trigger] all[m]).contains(x),
        decreases labels.len() - k,
    {
        let list = &labels[k];
        let ghost own = texts(list@);
        assert(own == all[k as int]);
        let mut j: usize = 0;
        while j < list.len()
            invariant
                j <= list.len(),
                k < labels.len(),
                all == text_lists(labels@),
                own == texts(list@),
                own == all[k as int],
                is_ascending(texts(names@)),
                forall|x: Seq<char>| #[trigger]
                    texts(names@).contains(x) <==> (exists|m: int|
                        0 <= m < k && (#[trigger] all[m]).contains(x)) || (exists|n: int|
                        0 <= n < j && #[trigger] own[n] == x),
            decreases list.len() - j,
        {
            let ghost before = texts(names@);
            insert_ascending(&mut names, list[j].clone());
            proof {
                let added = own[j as int];
                assert forall|x: Seq<char>| #[trigger]
                    texts(names@).contains(x) <==> (exists|m: int|
                        0 <= m < k && (#[trigger] all[m]).contains(x)) || (exists|n: int|
                        0 <= n < j + 1 && #[trigger] own[n] == x) by {
                    assert(texts(names@).contains(x) <==> before.contains(x) || x == added);
                    if x == added {
                        assert(own[j as int] == x);
                    }
                    if exists|n: int| 0 <= n < j + 1 && #[trigger] own[n] == x {
                        let n = choose|n: int| 0 <= n < j + 1 && #[trigger] own[n] == x;
                        if n < j {
                        }
                    }
                }
            }
            j += 1;
        }
        proof {
            assert forall|x: Seq<char>| #[trigger]
                texts(names@).contains(x) <==> exists|m: int|
                    0 <= m < k + 1 && (#[trigger] all[m]).contains(x) by {
                if exists|n: int| 0 <= n < list.len() && #[trigger] own[n] == x {
                    assert(own.contains(x));
                    assert(all[k as int].contains(x));
                }
                if exists|m: int| 0 <= m < k + 1 && (#[trigger] all[m]).contains(x) {
                    let m = choose|m: int| 0 <= m < k + 1 && (#[trigger] all[m]).contains(x);
                    if m == k {
                        let n = choose|n: int| 0 <= n < own.len() && own[n] == x;
                        assert(own[n] == x);
                    }
                }
            }
        }
        k += 1;
    }
    let mut counts: Vec<NameCount> = Vec::new();
    let mut i: usize = 0;
    while i < names.len()
        invariant
            i <= names.len(),
            all == text_lists(labels@),
            counts.len() == i,
            forall|n: int| 0 <= n < i ==> (#[trigger] counts@[n]).name@ == texts(names@)[n],
            forall|n: int|
                0 <= n < i ==> (#[trigger] counts@[n]).count == spec_count(
                    all,
                    holds(counts@[n].name@),
                ),
        decreases names.len() - i,
    {
        let name = names[i].clone();
        let count = count_holding(labels, name.as_str());
        counts.push(NameCount { name, count });
        i += 1;
    }
    proof {
        assert(names_of(counts@) =~= texts(names@));
    }
    counts
}

/// Whether a post lies below the category path `path`.
pub open spec fn is_below(path: Seq<Seq<char>>) -> spec_fn(PostView) -> bool {
    |post: PostView| path.is_prefix_of(post.categories)
}

/// Whether `path` is `parent` with one more name.
pub open spec fn is_child_of(path: Seq<Seq<char>>, parent: Seq<Seq<char>>) -> bool {
    path.len() == parent.len() + 1 && path.drop_last() == parent
}

/// Whether `children` lists the places in `paths` of the children of
/// `parent`, each once, in ascending order of their names.
pub open spec fn is_child_list(
    children: Seq<usize>,
    paths: Seq<Seq<Seq<char>>>,
    parent: Seq<Seq<char>>,
) -> bool {
    &&& forall|c: int|
        0 <= c < children.len() ==> #[trigger] children[c] < paths.len() && is_child_of(
            paths[children[c] as int],
            parent,
        )
    &&& forall|c: int, d: int|
        0 <= c < d < children.len() ==> lex_lt(
            paths[#[trigger] children[c] as int].last(),
            paths[#[trigger] children[d] as int].last(),
        )
    &&& forall|j: int|
        0 <= j < paths.len() && is_child_of(#[trigger] paths[j], parent) ==> exists|c: int|
            0 <= c < children.len() && #[trigger] children[c] == j
}

/// One category: a node of the tree of categories.
#[derive(Debug, Clone, PartialEq, Eq)]
pub struct CategoryNode {
    /// The last name of the path.
    pub name: String,
    /// Number of posts below the path.
    pub count: usize,
    /// The path from the outermost category to this one.
    pub path: Vec<String>,
    /// The places of the node's children among the nodes of the tree, in
    /// ascending order of their names.
    pub children: Vec<usize>,
}

/// The categories of a collection of posts as a tree, its nodes held in a
/// list and named by their places in it.
#[derive(Debug, Clone, PartialEq, Eq)]
pub struct CategoryTree {
    /// Every category path of the collection, each once.
    pub nodes: Vec<CategoryNode>,
    /// The places of the outermost categories, in ascending order of their
    /// names.
    pub roots: Vec<usize>,
}

impl CategoryTree {
    /// Whether `self` is the tree of the categories of `posts`.
    pub open spec fn is_for(self, posts: Seq<PostView>) -> bool {
        let paths = spec_category_paths(posts);
        &&& self.nodes.len() == paths.len()
        &&& forall|i: int|
            0 <= i < self.nodes.len() ==> {
                let node = #[trigger] self.nodes@[i];
                &&& texts(node.path@) == paths[i]
                &&& node.name@ == paths[i].last()
                &&& node.count == spec_count(posts, is_below(paths[i]))
                &&& is_child_list(node.children@, paths, paths[i])
            }
        &&& is_child_list(self.roots@, paths, Seq::empty())
    }
}

/// Number of `posts` below the category path `path`.
pub fn count_below(posts: &Vec<Post>, path: &Vec<String>) -> (count: usize)
    ensures
        count == spec_count(post_views(posts@), is_below(texts(path@))),
{
    let ghost views = post_views(posts@);
    let mut count: usize = 0;
    let mut k: usize = 0;
    while k < posts.len()
        invariant
            k <= posts.len(),
            views == post_views(posts@),
            count == spec_count(views.take(k as int), is_below(texts(path@))),
            count <= k,
        decreases posts.len() - k,
    {
        proof {
            let next = views.take(k + 1);
            assert(next.drop_last() =~= views.take(k as int));
            assert(next.last() == posts@[k as int]@);
        }
        if starts_with_texts(&posts[k].categories, path) {
            count += 1;
        }
        k += 1;
    }
    assert(views.take(posts.len() as int) =~= views);
    count
}

fn is_child(path: &Vec<String>, parent: &Vec<String>) -> (b: bool)
    ensures
        b == is_child_of(texts(path@), texts(parent@)),
{
    if path.len() == 0 || path.len() - 1 != parent.len() {
        return false;
    }
    let b = starts_with_texts(path, parent);
    proof {
        let p = texts(path@);
        let q = texts(parent@);
        if b {
            assert(p.drop_last() =~= q);
        } else {
            if p.drop_last() == q {
                assert(q =~= p.subrange(0, q.len() as int));
            }
        }
    }
    b
}

/// The places in `paths` of the children of `parent`, in ascending order of
/// their names.
pub fn child_list(paths: &Vec<Vec<String>>, parent: &Vec<String>) -> (children: Vec<usize>)
    requires
        has_no_repetition(text_lists(paths@)),
    ensures
        is_child_list(children@, text_lists(paths@), texts(parent@)),
{
    let ghost all = text_lists(paths@);
    let ghost up = texts(parent@);
    let mut children: Vec<usize> = Vec::new();
    let mut j: usize = 0;
    while j < paths.len()
        invariant
            j <= paths.len(),
            all == text_lists(paths@),
            up == texts(parent@),
            has_no_repetition(all),
            forall|c: int|
                0 <= c < children.len() ==> #[trigger] children@[c] < j && is_child_of(
                    all[children@[c] as int],
                    up,
                ),
            forall|c: int, d: int|
                0 <= c < d < children.len() ==> lex_lt(
                    all[#[trigger] children@[c] as int].last(),
                    all[#[trigger] children@[d] as int].last(),
                ),
            forall|i: int|
                0 <= i < j && is_child_of(#[trigger] all[i], up) ==> exists|c: int|
                    0 <= c < children.len() && #[trigger] children@[c] == i,
        decreases paths.len() - j,
    {
        if is_child(&paths[j], parent) {
            let own = &paths[j];
            let name = chars_of(own[own.len() - 1].as_str());
            assert(name@ == all[j as int].last());
            let mut at: usize = 0;
            let mut placed = false;
            while !placed && at < children.len()
                invariant
                    at <= children.len(),
                    j < paths.len(),
                    all == text_lists(paths@),
                    has_no_repetition(all),
                    is_child_of(all[j as int], up),
                    name@ == all[j as int].last(),
                    forall|c: int|
                        0 <= c < children.len() ==> #[trigger] children@[c] < j && is_child_of(
                            all[children@[c] as int],
                            up,
                        ),
                    forall|c: int|
                        0 <= c < at ==> lex_lt(all[#[trigger] children@[c] as int].last(), name@),
                    placed ==> at < children.len() && lex_lt(
                        name@,
                        all[children@[at as int] as int].last(),
                    ),
                decreases children.len() - at + (if placed { 0int } else { 1int }),
            {
                let other = &paths[children[at]];
                let theirs = chars_of(other[other.len() - 1].as_str());
                proof {
                    let a = all[children@[at as int] as int];
                    let b = all[j as int];
                    assert(theirs@ == a.last());
                    lemma_lex_lt_total(theirs@, name@);
                    if theirs@ == name@ {
                        assert(a =~= a.drop_last().push(a.last()));
                        assert(b =~= b.drop_last().push(b.last()));
                        assert(a == b);
                    }
                }
                match compare_chars(&theirs, &name) {
                    Order::Less => {
                        at += 1;
                    },
                    _ => {
                        placed = true;
                    },
                }
            }
            let ghost before = children@;
            children.insert(at, j);
            proof {
                assert forall|c: int, d: int| 0 <= c < d < children.len() implies lex_lt(
                    all[#[trigger] children@[c] as int].last(),
                    all[#[trigger] children@[d] as int].last(),
                ) by {
                    if d < at {
                        assert(children@[c] == before[c] && children@[d] == before[d]);
                    } else if d == at {
                        assert(children@[c] == before[c]);
                    } else if c < at {
                        assert(children@[c] == before[c] && children@[d] == before[d - 1]);
                    } else if c == at {
                        assert(children@[d] == before[d - 1]);
                        if d - 1 > at {
                            assert(lex_lt(
                                all[before[at as int] as int].last(),
                                all[before[d - 1] as int].last(),
                            ));
                            crate::text::lemma_lex_lt_transitive(
                                name@,
                                all[before[at as int] as int].last(),
                                all[before[d - 1] as int].last(),
                            );
                        }
                    } else {
                        assert(children@[c] == before[c - 1] && children@[d] == before[d - 1]);
                    }
                }
                assert forall|c: int| 0 <= c < children.len() implies #[trigger] children@[c] < j
                    + 1 && is_child_of(all[children@[c] as int], up) by {
                    if c < at {
                        assert(children@[c] == before[c]);
                    } else if c > at {
                        assert(children@[c] == before[c - 1]);
                    }
                }
                assert forall|i: int| 0 <= i < j + 1 && is_child_of(
                    #[trigger] all[i],
                    up,
                ) implies exists|c: int| 0 <= c < children.len() && #[trigger] children@[c] == i by {
                    if i == j {
                        assert(children@[at as int] == i);
                    } else {
                        let c = choose|c: int| 0 <= c < before.len() && #[trigger] before[c] == i;
                        if c < at {
                            assert(children@[c] == i);
                        } else {
                            assert(children@[c + 1] == i);
                        }
                    }
                }
            }
        }
        j += 1;
    }
    children
}

impl PostParser {
    /// The category paths of `posts`: every prefix of every post's path,
    /// each once, in order of first occurrence.
    pub fn category_paths(posts: &Vec<Post>) -> (paths: Vec<Vec<String>>)
        ensures
            text_lists(paths@) == spec_category_paths(post_views(posts@)),
    {
        let which = all_places(posts.len());
        proof {
            lemma_pick_all(post_views(posts@), which@);
        }
        category_paths_at(posts, &which)
    }

    /// The tree of the categories of `posts`. A node counts the posts below
    /// its path, so a category counts at least what each of its children
    /// counts.
    pub fn generate_hierarchical_categories(posts: &Vec<Post>) -> (tree: CategoryTree)
        ensures
            tree.is_for(post_views(posts@)),
    {
        let paths = PostParser::category_paths(posts);
        let ghost all = text_lists(paths@);
        proof {
            lemma_distinct(crate::seqs::spec_concat(crate::changes::spec_prefix_lists(post_views(posts@))));
            lemma_paths_not_empty(post_views(posts@));
        }
        let mut nodes: Vec<CategoryNode> = Vec::new();
        let mut i: usize = 0;
        while i < paths.len()
            invariant
                i <= paths.len(),
                all == text_lists(paths@),
                all == spec_category_paths(post_views(posts@)),
                has_no_repetition(all),
                forall|k: int| 0 <= k < all.len() ==> (#[trigger] all[k]).len() > 0,
                nodes.len() == i,
                forall|k: int|
                    0 <= k < i ==> {
                        let node = #[trigger] nodes@[k];
                        &&& texts(node.path@) == all[k]
                        &&& node.name@ == all[k].last()
                        &&& node.count == spec_count(post_views(posts@), is_below(all[k]))
                        &&& is_child_list(node.children@, all, all[k])
                    },
            decreases paths.len() - i,
        {
            let path = clone_strings(&paths[i]);
            assert(texts(path@) == all[i as int]);
            assert(all[i as int].len() > 0);
            let name = path[path.len() - 1].clone();
            let count = count_below(posts, &path);
            let children = child_list(&paths, &path);
            nodes.push(CategoryNode { name, count, path, children });
            i += 1;
        }
        let top: Vec<String> = Vec::new();
        assert(texts(top@) =~= Seq::<Seq<char>>::empty());
        let roots = child_list(&paths, &top);
        CategoryTree { nodes, roots }
    }

    /// Every tag of `posts` with the number of posts that carry it, in
    /// ascending order of the tags.
    pub fn collect_tags(posts: &Vec<Post>) -> (counts: Vec<NameCount>)
        ensures
            is_tag_census(post_views(posts@), counts@),
    {
        let mut labels: Vec<Vec<String>> = Vec::new();
        let mut k: usize = 0;
        while k < posts.len()
            invariant
                k <= posts.len(),
                labels.len() == k,
                forall|m: int| 0 <= m < k ==> texts((#[trigger] labels@[m])@) == posts@[m]@.tags,
            decreases posts.len() - k,
        {
            let tags = clone_strings(&posts[k].tags);
            labels.push(tags);
            k += 1;
        }
        let counts = census(&labels);
        proof {
            let all = text_lists(labels@);
            let views = post_views(posts@);
            assert forall|x: Seq<char>| #[trigger]
                names_of(counts@).contains(x) <==> exists|k: int|
                    0 <= k < views.len() && (#[trigger] views[k]).tags.contains(x) by {
                if exists|k: int| 0 <= k < all.len() && (#[trigger] all[k]).contains(x) {
                    let k = choose|k: int| 0 <= k < all.len() && (#[trigger] all[k]).contains(x);
                    assert(all[k] == posts@[k]@.tags);
                    assert(views[k].tags.contains(x));
                }
                if exists|k: int| 0 <= k < views.len() && (#[trigger] views[k]).tags.contains(x) {
                    let k = choose|k: int|
                        0 <= k < views.len() && (#[trigger] views[k]).tags.contains(x);
                    assert(all[k] == posts@[k]@.tags);
                    assert(all[k].contains(x));
                }
            }
            assert forall|i: int| 0 <= i < counts.len() implies (#[trigger] counts@[i]).count
                == spec_count(views, has_tag(counts@[i].name@)) by {
                let name = counts@[i].name@;
                assert forall|m: int| 0 <= m < all.len() implies holds(name)(#[trigger] all[m])
                    == has_tag(name)(views[m]) by {
                    assert(all[m] == posts@[m]@.tags);
                }
                lemma_select_alike(all, holds(name), views, has_tag(name));
            }
        }
        counts
    }

    /// Every year of `posts` with the number of posts of that year, in
    /// ascending order of the years.
    pub fn collect_years(posts: &Vec<Post>) -> (counts: Vec<NameCount>)
        ensures
            is_year_census(post_views(posts@), counts@),
    {
        let mut labels: Vec<Vec<String>> = Vec::new();
        let mut k: usize = 0;
        while k < posts.len()
            invariant
                k <= posts.len(),
                labels.len() == k,
                forall|m: int|
                    0 <= m < k ==> texts((#[trigger] labels@[m])@) == (match posts@[m]@.year {
                        Some(y) => seq![y],
                        None => Seq::empty(),
                    }),
            decreases posts.len() - k,
        {
            let mut own: Vec<String> = Vec::new();
            match &posts[k].year {
                Some(y) => {
                    own.push(y.clone());
                    assert(texts(own@) =~= seq![y@]);
                },
                None => {
                    assert(texts(own@) =~= Seq::<Seq<char>>::empty());
                },
            }
            labels.push(own);
            k += 1;
        }
        let counts = census(&labels);
        proof {
            let all = text_lists(labels@);
            let views = post_views(posts@);
            assert forall|m: int, x: Seq<char>| 0 <= m < all.len() implies (#[trigger] all[m].contains(
                x,
            ) <==> views[m].year == Some(x)) by {
                let _ = text_lists(labels@)[m];
                match views[m].year {
                    Some(y) => {
                        assert(all[m] == seq![y]);
                        assert(seq![y][0] == y);
                    },
                    None => {},
                }
            }
            assert forall|x: Seq<char>| #[trigger]
                names_of(counts@).contains(x) <==> exists|k: int|
                    0 <= k < views.len() && (#[trigger] views[k]).year == Some(x) by {
                if exists|k: int| 0 <= k < all.len() && (#[trigger] all[k]).contains(x) {
                    let k = choose|k: int| 0 <= k < all.len() && (#[trigger] all[k]).contains(x);
                    assert(views[k].year == Some(x));
                }
                if exists|k: int| 0 <= k < views.len() && (#[trigger] views[k]).year == Some(x) {
                    let k = choose|k: int|
                        0 <= k < views.len() && (#[trigger] views[k]).year == Some(x);
                    assert(all[k].contains(x));
                }
            }
            assert forall|i: int| 0 <= i < counts.len() implies (#[trigger] counts@[i]).count
                == spec_count(views, has_year(counts@[i].name@)) by {
                let name = counts@[i].name@;
                assert forall|m: int| 0 <= m < all.len() implies holds(name)(#[trigger] all[m])
                    == has_year(name)(views[m]) by {
                    assert(all[m].contains(name) <==> views[m].year == Some(name));
                }
                lemma_select_alike(all, holds(name), views, has_year(name));
            }
        }
        counts
    }
}

/// No category path is empty.
pub proof fn lemma_paths_not_empty(posts: Seq<PostView>)
    ensures
        forall|k: int|
            0 <= k < spec_category_paths(posts).len() ==> (#[trigger] spec_category_paths(
                posts,
            )[k]).len() > 0,
{
    let lists = crate::changes::spec_prefix_lists(posts);
    let flat = crate::seqs::spec_concat(lists);
    lemma_distinct(flat);
    assert forall|k: int| 0 <= k < spec_category_paths(posts).len() implies (
    #[trigger] spec_category_paths(posts)[k]).len() > 0 by {
        let path = spec_category_paths(posts)[k];
        assert(spec_category_paths(posts).contains(path));
        assert(flat.contains(path));
        crate::changes::lemma_concat_from(lists, path);
        let m = choose|m: int| 0 <= m < lists.len() && (#[trigger] lists[m]).contains(path);
        let n = choose|n: int| 0 <= n < lists[m].len() && lists[m][n] == path;
        assert(path == posts[m].categories.take(n + 1));
    }
}

/// A category counts at least what a category below it counts.
pub proof fn lemma_parent_counts_more(
    posts: Seq<PostView>,
    parent: Seq<Seq<char>>,
    child: Seq<Seq<char>>,
)
    requires
        parent.is_prefix_of(child),
    ensures
        spec_count(posts, is_below(child)) <= spec_count(posts, is_below(parent)),
    decreases posts.len(),
{
    if posts.len() > 0 {
        lemma_parent_counts_more(posts.drop_last(), parent, child);
        let last = posts.last();
        if child.is_prefix_of(last.categories) {
            assert(parent =~= last.categories.subrange(0, parent.len() as int)) by {
                assert(parent == child.subrange(0, parent.len() as int));
                assert(child == last.categories.subrange(0, child.len() as int));
            }
        }
    }
}

} // verus!
