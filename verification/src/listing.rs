//! The pages of a feed as a template shows them.

use vstd::prelude::*;
use crate::changes::places;
use crate::error::Error;
use crate::paginate::{
    lemma_pages_adjoin, lemma_total_pages_bounds, paginate, spec_page_end, spec_page_start,
    spec_total_pages, Feed, FeedView, Page,
};
use crate::post::{post_views, Post, PostView};
use crate::seqs::{has_text, spec_select, starts_with_texts};
use crate::taxonomy::{has_tag, is_below};

verus! {

/// A link to one page of a feed.
#[derive(Debug, Clone, PartialEq, Eq)]
pub struct PageLink {
    /// The number shown to the reader, which counts from the newest page.
    pub number: usize,
    /// Where the page is.
    pub url: String,
    /// Whether this is the page that is shown.
    pub is_current: bool,
}

/// One page of a feed with what surrounds it.
#[derive(Debug, Clone, PartialEq, Eq)]
pub struct Listing {
    /// The page.
    pub page: Page,
    /// The places of the posts on the page, newest first.
    pub items: Vec<usize>,
    /// The next newer page, where there is one.
    pub previous: Option<String>,
    /// The next older page, where there is one.
    pub next: Option<String>,
    /// Number of posts of the feed.
    pub total_posts: usize,
    /// Rank of the oldest post on the page, where the oldest post of the
    /// feed has rank 1; 0 on an empty page.
    pub start_index: usize,
    /// Rank of the newest post on the page; 0 on an empty page.
    pub end_index: usize,
    /// A link to every page of the feed, from page 1 up.
    pub pages: Vec<PageLink>,
}

/// Whether a post belongs to every feed of posts.
pub open spec fn is_any() -> spec_fn(PostView) -> bool {
    |post: PostView| true
}

impl FeedView {
    /// The places of the posts of the feed among `posts`, in ascending
    /// order.
    pub open spec fn members(self, posts: Seq<PostView>) -> Seq<int> {
        match self {
            FeedView::Home => spec_select(posts, is_any()),
            FeedView::Tag(tag) => spec_select(posts, has_tag(tag)),
            FeedView::Category(path) => spec_select(posts, is_below(path)),
        }
    }

    /// Whether `listing` shows page `page` of the feed, whose posts are at
    /// the places `members`.
    pub open spec fn is_listing(
        self,
        members: Seq<usize>,
        page_size: nat,
        page: nat,
        listing: Listing,
    ) -> bool {
        let n = members.len();
        let total = spec_total_pages(n, page_size);
        let start = spec_page_start(n, page_size, page);
        let end = spec_page_end(n, page_size, page);
        &&& listing.page == Page::spec_new(n, page_size, page)
        &&& listing.items@ == members.subrange(start as int, end as int)
        &&& crate::post::opt_text(listing.previous) == (if page < total {
            Some(self.page_url(page + 1, total))
        } else {
            None
        })
        &&& crate::post::opt_text(listing.next) == (if page > 1 {
            Some(self.page_url((page - 1) as nat, total))
        } else {
            None
        })
        &&& listing.total_posts == n
        &&& listing.start_index == (if n == 0 {
            0
        } else {
            n - end + 1
        })
        &&& listing.end_index == (if n == 0 {
            0
        } else {
            n - start
        })
        &&& listing.pages.len() == total
        &&& forall|i: int|
            0 <= i < total ==> {
                let link = #[trigger] listing.pages@[i];
                &&& link.number == total - i
                &&& link.url@ == self.page_url((i + 1) as nat, total)
                &&& link.is_current == (i + 1 == page)
            }
    }

}

impl Feed {
    /// The places of the posts of the feed among `posts`, in ascending
    /// order: newest first where `posts` is.
    pub fn members(&self, posts: &Vec<Post>) -> (members: Vec<usize>)
        ensures
            places(members@) == self@.members(post_views(posts@)),
            forall|i: int| 0 <= i < members.len() ==> #[trigger] members@[i] < posts.len(),
            members.len() <= posts.len(),
    {
        let ghost views = post_views(posts@);
        let mut members: Vec<usize> = Vec::new();
        let mut k: usize = 0;
        assert(places(members@) =~= self@.members(views.take(0)));
        while k < posts.len()
            invariant
                k <= posts.len(),
                views == post_views(posts@),
                places(members@) == self@.members(views.take(k as int)),
                forall|i: int| 0 <= i < members.len() ==> #[trigger] members@[i] < k,
                members.len() <= k,
            decreases posts.len() - k,
        {
            proof {
                let next = views.take(k + 1);
                assert(next.drop_last() =~= views.take(k as int));
                assert(next.last() == posts@[k as int]@);
            }
            let belongs = match self {
                Feed::Home => true,
                Feed::Tag(tag) => has_text(&posts[k].tags, tag.as_str()),
                Feed::Category(path) => starts_with_texts(&posts[k].categories, path),
            };
            if belongs {
                proof {
                    assert(places(members@.push(k)) =~= places(members@).push(k as int));
                }
                members.push(k);
            }
            k += 1;
        }
        assert(views.take(posts.len() as int) =~= views);
        members
    }

    /// Page `page` of the feed whose posts are at the places `members`,
    /// newest first, or the error for a page that the feed does not have.
    pub fn listing(&self, members: &Vec<usize>, page_size: usize, page: usize) -> (r: Result<
        Listing,
        Error,
    >)
        requires
            page_size >= 1,
        ensures
            r is Ok <==> 1 <= page <= spec_total_pages(members.len() as nat, page_size as nat),
            r matches Ok(listing) ==> self@.is_listing(
                members@,
                page_size as nat,
                page as nat,
                listing,
            ),
            r matches Err(e) ==> e == (Error::InvalidPage {
                page,
                total_pages: spec_total_pages(members.len() as nat, page_size as nat) as usize,
            }),
    {
        let n = members.len();
        let found = match paginate(n, page_size, page) {
            Ok(p) => p,
            Err(e) => {
                return Err(e);
            },
        };
        let total = found.total_pages;
        proof {
            lemma_total_pages_bounds(n as nat, page_size as nat);
            lemma_pages_adjoin(n as nat, page_size as nat, page as nat);
        }
        let mut items: Vec<usize> = Vec::new();
        let mut k: usize = found.start;
        while k < found.end
            invariant
                found.start <= k <= found.end <= members.len(),
                items@ == members@.subrange(found.start as int, k as int),
            decreases found.end - k,
        {
            items.push(members[k]);
            assert(members@.subrange(found.start as int, k + 1) =~= members@.subrange(
                found.start as int,
                k as int,
            ).push(members@[k as int]));
            k += 1;
        }
        let previous = if page < total {
            Some(self.page_url(page + 1, total))
        } else {
            None
        };
        let next = if page > 1 {
            Some(self.page_url(page - 1, total))
        } else {
            None
        };
        let mut pages: Vec<PageLink> = Vec::new();
        let mut i: usize = 0;
        while i < total
            invariant
                i <= total,
                pages.len() == i,
                forall|j: int|
                    0 <= j < i ==> {
                        let link = #[trigger] pages@[j];
                        &&& link.number == total - j
                        &&& link.url@ == self@.page_url((j + 1) as nat, total as nat)
                        &&& link.is_current == (j + 1 == page)
                    },
            decreases total - i,
        {
            let url = self.page_url(i + 1, total);
            pages.push(PageLink { number: total - i, url, is_current: i + 1 == page });
            i += 1;
        }
        let start_index = if n == 0 {
            0
        } else {
            n - found.end + 1
        };
        let end_index = if n == 0 {
            0
        } else {
            n - found.start
        };
        Ok(
            Listing {
                page: found,
                items,
                previous,
                next,
                total_posts: n,
                start_index,
                end_index,
                pages,
            },
        )
    }
}

} // verus!
