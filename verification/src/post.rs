//! Content items and the order in which a site lists them.

use vstd::prelude::*;
use crate::text::{chars_of, clone_strings, compare_chars, lex_lt, texts, Order};

verus! {

/// One document of the site, as its front matter and its place in the source
/// tree describe it.
#[derive(Debug, Clone, PartialEq, Eq)]
pub struct Post {
    /// The title; the slug where the front matter gives none.
    pub title: Option<String>,
    /// The name of the page, unique within its category path.
    pub slug: Option<String>,
    /// The body, rendered to HTML.
    pub content: Option<String>,
    /// The category path, outermost first; empty for a post without category.
    pub categories: Vec<String>,
    /// The tags, in the order of the front matter.
    pub tags: Vec<String>,
    /// The day of publication, as `YYYY-MM-DD`.
    pub date: Option<String>,
    /// The year of publication.
    pub year: Option<String>,
    /// The month of publication, as `YYYY-MM`.
    pub year_month: Option<String>,
    /// When the document was last modified, in seconds since the epoch.
    pub modified_epoch: Option<i64>,
}

/// Reads posts out of documents and derives listings from them.
pub struct PostParser;

/// What a post holds, as plain values.
pub struct PostView {
    pub title: Option<Seq<char>>,
    pub slug: Option<Seq<char>>,
    pub content: Option<Seq<char>>,
    pub categories: Seq<Seq<char>>,
    pub tags: Seq<Seq<char>>,
    pub date: Option<Seq<char>>,
    pub year: Option<Seq<char>>,
    pub year_month: Option<Seq<char>>,
    pub modified_epoch: Option<i64>,
}

/// The text of an optional string.
pub open spec fn opt_text(o: Option<String>) -> Option<Seq<char>> {
    match o {
        Some(s) => Some(s@),
        None => None,
    }
}

/// The text of an optional string slice.
pub open spec fn opt_str_text(o: Option<&str>) -> Option<Seq<char>> {
    match o {
        Some(s) => Some(s@),
        None => None,
    }
}

impl View for Post {
    type V = PostView;

    open spec fn view(&self) -> PostView {
        PostView {
            title: opt_text(self.title),
            slug: opt_text(self.slug),
            content: opt_text(self.content),
            categories: texts(self.categories@),
            tags: texts(self.tags@),
            date: opt_text(self.date),
            year: opt_text(self.year),
            year_month: opt_text(self.year_month),
            modified_epoch: self.modified_epoch,
        }
    }
}

/// The views of a sequence of posts.
pub open spec fn post_views(posts: Seq<Post>) -> Seq<PostView> {
    Seq::new(posts.len(), |i: int| posts[i]@)
}

impl PostView {
    /// The text by which posts are ordered: the date, and the empty text where
    /// there is none, which makes such a post the oldest.
    pub open spec fn date_key(self) -> Seq<char> {
        match self.date {
            Some(d) => d,
            None => Seq::empty(),
        }
    }

    /// The moment of the last modification, 0 where it is not known.
    pub open spec fn modified(self) -> int {
        match self.modified_epoch {
            Some(t) => t as int,
            None => 0,
        }
    }
}

fn opt_as_str(o: &Option<String>) -> (r: Option<&str>)
    ensures
        opt_str_text(r) == opt_text(*o),
{
    match o {
        Some(s) => Some(s.as_str()),
        None => None,
    }
}

fn clone_opt(o: &Option<String>) -> (r: Option<String>)
    ensures
        r == *o,
{
    match o {
        Some(s) => Some(s.clone()),
        None => None,
    }
}

impl Post {
    /// The title.
    pub fn title(&self) -> (r: Option<&str>)
        ensures
            opt_str_text(r) == self@.title,
    {
        opt_as_str(&self.title)
    }

    /// The slug.
    pub fn slug(&self) -> (r: Option<&str>)
        ensures
            opt_str_text(r) == self@.slug,
    {
        opt_as_str(&self.slug)
    }

    /// The rendered body.
    pub fn content(&self) -> (r: Option<&str>)
        ensures
            opt_str_text(r) == self@.content,
    {
        opt_as_str(&self.content)
    }

    /// The category path.
    pub fn categories(&self) -> (r: Vec<String>)
        ensures
            texts(r@) == self@.categories,
            r@ == self.categories@,
    {
        clone_strings(&self.categories)
    }

    /// The tags.
    pub fn tags(&self) -> (r: Vec<String>)
        ensures
            texts(r@) == self@.tags,
            r@ == self.tags@,
    {
        clone_strings(&self.tags)
    }

    /// The day of publication.
    pub fn date(&self) -> (r: Option<&str>)
        ensures
            opt_str_text(r) == self@.date,
    {
        opt_as_str(&self.date)
    }

    /// The moment of the last modification.
    pub fn modified_epoch(&self) -> (r: Option<i64>)
        ensures
            r == self@.modified_epoch,
    {
        self.modified_epoch
    }

    /// A copy of the post.
    pub fn duplicate(&self) -> (r: Post)
        ensures
            r@ == self@,
            r.categories@ == self.categories@,
            r.tags@ == self.tags@,
    {
        Post {
            title: clone_opt(&self.title),
            slug: clone_opt(&self.slug),
            content: clone_opt(&self.content),
            categories: clone_strings(&self.categories),
            tags: clone_strings(&self.tags),
            date: clone_opt(&self.date),
            year: clone_opt(&self.year),
            year_month: clone_opt(&self.year_month),
            modified_epoch: self.modified_epoch,
        }
    }

    /// The characters of the text by which the post is ordered.
    pub fn date_key(&self) -> (key: Vec<char>)
        ensures
            key@ == self@.date_key(),
    {
        match &self.date {
            Some(d) => chars_of(d.as_str()),
            None => Vec::new(),
        }
    }
}

/// Whether `output` lists the posts of `input` newest first, posts of one
/// date in the order of `input`; `source[k]` is the place in `input` of the
/// post at place `k` of `output`.
pub open spec fn is_newest_first_of(
    input: Seq<PostView>,
    output: Seq<PostView>,
    source: Seq<int>,
) -> bool {
    &&& output.len() == input.len()
    &&& source.len() == input.len()
    &&& forall|k: int|
        0 <= k < output.len() ==> 0 <= #[trigger] source[k] < input.len() && output[k]
            == input[source[k]]
    &&& forall|k: int, l: int|
        0 <= k < l < output.len() ==> lex_lt(
            (#[trigger] output[l]).date_key(),
            (#[trigger] output[k]).date_key(),
        ) || (output[l].date_key() == output[k].date_key() && source[k] < source[l])
}

/// Whether no post of `posts` is newer than a post before it.
pub open spec fn is_newest_first(posts: Seq<PostView>) -> bool {
    forall|k: int, l: int|
        0 <= k < l < posts.len() ==> !lex_lt(
            (#[trigger] posts[k]).date_key(),
            (#[trigger] posts[l]).date_key(),
        )
}

/// The canonical page of a feed that is ordered newest first and not empty
/// holds the post of the latest date: the feed's first post is on it, and
/// no post of the feed has a later date.
pub proof fn lemma_canonical_page_holds_latest(posts: Seq<PostView>, page_size: nat)
    requires
        page_size >= 1,
        posts.len() > 0,
        is_newest_first(posts),
    ensures
        crate::paginate::spec_page_items(
            posts,
            page_size,
            crate::paginate::spec_total_pages(posts.len(), page_size),
        ).contains(posts[0]),
        forall|k: int| 0 <= k < posts.len() ==> !lex_lt(posts[0].date_key(), #[trigger] posts[k].date_key()),
{
    crate::paginate::lemma_canonical_page_holds_newest(posts, page_size);
    let items = crate::paginate::spec_page_items(
        posts,
        page_size,
        crate::paginate::spec_total_pages(posts.len(), page_size),
    );
    assert(items[0] == posts[0]);
    assert forall|k: int| 0 <= k < posts.len() implies !lex_lt(
        posts[0].date_key(),
        #[trigger] posts[k].date_key(),
    ) by {
        if k > 0 {
            assert(!lex_lt(posts[0].date_key(), posts[k].date_key()));
        } else {
            crate::text::lemma_lex_lt_irreflexive(posts[0].date_key());
        }
    }
}

/// Orders posts by date, newest first; posts of one date keep their order.
pub fn sort_posts(posts: Vec<Post>) -> (sorted: Vec<Post>)
    ensures
        exists|source: Seq<int>| is_newest_first_of(post_views(posts@), post_views(sorted@), source),
        is_newest_first(post_views(sorted@)),
{
    let ghost input = post_views(posts@);
    let mut rest = posts;
    let mut sorted: Vec<Post> = Vec::new();
    let ghost mut source: Seq<int> = Seq::empty();
    let ghost mut done: int = 0;
    while rest.len() > 0
        invariant
            0 <= done <= input.len(),
            rest.len() == input.len() - done,
            forall|i: int| 0 <= i < rest.len() ==> (#[trigger] rest@[i])@ == input[done + i],
            sorted.len() == done,
            source.len() == done,
            forall|k: int|
                0 <= k < done ==> 0 <= #[trigger] source[k] < done && sorted@[k]@
                    == input[source[k]],
            forall|k: int, l: int|
                0 <= k < l < done ==> lex_lt(
                    (#[trigger] sorted@[l])@.date_key(),
                    (#[trigger] sorted@[k])@.date_key(),
                ) || (sorted@[l]@.date_key() == sorted@[k]@.date_key() && source[k] < source[l]),
        decreases rest.len(),
    {
        let post = rest.remove(0);
        let key = post.date_key();
        // the new post goes behind every post that is not older than it
        let mut at: usize = sorted.len();
        while at > 0 && is_older(&sorted[at - 1], &key)
            invariant
                at <= sorted.len(),
                key@ == post@.date_key(),
                forall|l: int|
                    at <= l < sorted.len() ==> lex_lt(
                        (#[trigger] sorted@[l])@.date_key(),
                        post@.date_key(),
                    ),
            decreases at,
        {
            at -= 1;
        }
        proof {
            let ghost before = sorted@;
            assert forall|k: int| 0 <= k < at implies !lex_lt(
                (#[trigger] before[k])@.date_key(),
                post@.date_key(),
            ) by {
                if at > 0 && k < at - 1 {
                    // before[k] is not older than before[at - 1], which is not older than post
                    let a = before[k]@.date_key();
                    let b = before[at - 1]@.date_key();
                    let c = post@.date_key();
                    crate::text::lemma_lex_lt_total(a, b);
                    crate::text::lemma_lex_lt_total(b, c);
                    crate::text::lemma_lex_lt_total(a, c);
                    if lex_lt(a, c) {
                        if a == b {
                        } else if b == c {
                        } else {
                            crate::text::lemma_lex_lt_transitive(c, b, a);
                        }
                    }
                }
            }
            assert forall|k: int| 0 <= k < at implies lex_lt(
                post@.date_key(),
                (#[trigger] before[k])@.date_key(),
            ) || post@.date_key() == before[k]@.date_key() by {
                crate::text::lemma_lex_lt_total(before[k]@.date_key(), post@.date_key());
            }
            source = source.insert(at as int, done);
        }
        sorted.insert(at, post);
        proof {
            done = done + 1;
        }
    }
    proof {
        assert(is_newest_first_of(input, post_views(sorted@), source));
        assert forall|k: int, l: int| 0 <= k < l < sorted.len() implies !lex_lt(
            (#[trigger] post_views(sorted@)[k]).date_key(),
            (#[trigger] post_views(sorted@)[l]).date_key(),
        ) by {
            crate::text::lemma_lex_lt_total(sorted@[k]@.date_key(), sorted@[l]@.date_key());
        }
    }
    sorted
}

fn is_older(post: &Post, key: &Vec<char>) -> (r: bool)
    ensures
        r == lex_lt(post@.date_key(), key@),
{
    let own = post.date_key();
    proof {
        crate::text::lemma_lex_lt_total(own@, key@);
    }
    match compare_chars(&own, key) {
        Order::Less => true,
        _ => false,
    }
}

} // verus!
