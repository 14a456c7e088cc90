//! Reverse pagination.
//!
//! A feed is a sequence of items, newest first. Its pages are numbered from
//! the oldest end: page 1 holds the oldest `page_size` items, and the page
//! with the highest number holds the newest ones, together with whatever
//! remainder does not fill a page. That last page is the canonical one and is
//! written to `index.html`; every other page `n` is written to
//! `index{n}.html`. A growing feed therefore only touches its newest page and
//! adds page numbers above the old maximum.

use vstd::prelude::*;
use vstd::string::StringExecFns;
use vstd::arithmetic::div_mod::lemma_fundamental_div_mod;
use vstd::arithmetic::mul::lemma_mul_inequality;
use crate::error::Error;
use crate::text::{decimal, join, spec_decimal, spec_join, spec_number, texts};

verus! {

/// Number of pages for `n` items at `page_size` items per page: the quotient
/// rounded up, and one page where there is no item.
pub open spec fn spec_total_pages(n: nat, page_size: nat) -> nat {
    if n == 0 {
        1
    } else {
        ((n - 1) / page_size as int + 1) as nat
    }
}

/// Index, in the newest-first sequence, of the first item on page `page`.
pub open spec fn spec_page_start(n: nat, page_size: nat, page: nat) -> nat {
    if page * page_size >= n {
        0
    } else {
        (n - page * page_size) as nat
    }
}

/// Index, in the newest-first sequence, one past the last item on page `page`.
pub open spec fn spec_page_end(n: nat, page_size: nat, page: nat) -> nat {
    if page == 0 || (page - 1) * page_size >= n {
        0
    } else {
        (n - (page - 1) * page_size) as nat
    }
}

/// Number of items on page `page`.
pub open spec fn spec_page_len(n: nat, page_size: nat, page: nat) -> nat {
    (spec_page_end(n, page_size, page) - spec_page_start(n, page_size, page)) as nat
}

/// The items on page `page` of a newest-first sequence.
pub open spec fn spec_page_items<A>(items: Seq<A>, page_size: nat, page: nat) -> Seq<A> {
    items.subrange(
        spec_page_start(items.len(), page_size, page) as int,
        spec_page_end(items.len(), page_size, page) as int,
    )
}

/// The page that holds the item at index `index` of a newest-first sequence
/// of `n` items.
pub open spec fn spec_page_of(n: nat, page_size: nat, index: nat) -> nat {
    ((n - 1 - index) / page_size as int + 1) as nat
}

/// Number of items on pages `1..=upto` together.
pub open spec fn spec_items_up_to(n: nat, page_size: nat, upto: nat) -> nat
    decreases upto,
{
    if upto == 0 {
        0
    } else {
        spec_items_up_to(n, page_size, (upto - 1) as nat) + spec_page_len(n, page_size, upto)
    }
}

/// One page of a feed.
#[derive(Clone, Copy, Debug, PartialEq, Eq, Structural)]
pub struct Page {
    /// The page's own number, from 1 for the oldest page.
    pub number: usize,
    /// Number of pages of the feed.
    pub total_pages: usize,
    /// Index of the page's first item in the newest-first sequence.
    pub start: usize,
    /// Index one past the page's last item.
    pub end: usize,
}

impl Page {
    /// The page of number `page` of a feed of `n` items.
    pub open spec fn spec_new(n: nat, page_size: nat, page: nat) -> Page {
        Page {
            number: page as usize,
            total_pages: spec_total_pages(n, page_size) as usize,
            start: spec_page_start(n, page_size, page) as usize,
            end: spec_page_end(n, page_size, page) as usize,
        }
    }

    /// Whether this is the page of the newest items, which is written to the
    /// canonical path.
    pub fn is_canonical(&self) -> (b: bool)
        ensures
            b == (self.number == self.total_pages),
    {
        self.number == self.total_pages
    }

    /// Number of items on the page.
    pub fn len(&self) -> (l: usize)
        requires
            self.start <= self.end,
        ensures
            l == self.end - self.start,
    {
        self.end - self.start
    }

    /// The number shown to the reader, which counts from the newest page.
    pub fn display_number(&self) -> (d: usize)
        requires
            1 <= self.number <= self.total_pages,
        ensures
            d == self.total_pages - self.number + 1,
    {
        self.total_pages - self.number + 1
    }

    /// Whether a newer page exists.
    pub fn has_previous(&self) -> (b: bool)
        ensures
            b == (self.number < self.total_pages),
    {
        self.number < self.total_pages
    }

    /// Whether an older page exists.
    pub fn has_next(&self) -> (b: bool)
        ensures
            b == (self.number > 1),
    {
        self.number > 1
    }

    /// Number of the next newer page, which "previous" links to.
    pub fn previous(&self) -> (p: Option<usize>)
        ensures
            p == (if self.number < self.total_pages {
                Some((self.number + 1) as usize)
            } else {
                None
            }),
    {
        if self.number < self.total_pages {
            Some(self.number + 1)
        } else {
            None
        }
    }

    /// Number of the next older page, which "next" links to.
    pub fn next(&self) -> (p: Option<usize>)
        ensures
            p == (if self.number > 1 {
                Some((self.number - 1) as usize)
            } else {
                None
            }),
    {
        if self.number > 1 {
            Some(self.number - 1)
        } else {
            None
        }
    }
}

/// The bounds that the number of pages obeys.
pub proof fn lemma_total_pages_bounds(n: nat, page_size: nat)
    requires
        page_size >= 1,
    ensures
        spec_total_pages(n, page_size) >= 1,
        n == 0 ==> spec_total_pages(n, page_size) == 1,
        n > 0 ==> (spec_total_pages(n, page_size) - 1) * page_size < n,
        n <= spec_total_pages(n, page_size) * page_size,
        spec_total_pages(n, page_size) <= n || n == 0,
{
    if n > 0 {
        let q = (n - 1) / page_size as int;
        lemma_fundamental_div_mod(n - 1, page_size as int);
        assert(n - 1 == page_size * q + (n - 1) % (page_size as int));
        assert(q * page_size == page_size * q) by (nonlinear_arith);
        assert((q + 1) * page_size == q * page_size + page_size) by (nonlinear_arith);
        assert(q >= 0) by (nonlinear_arith)
            requires
                n - 1 >= 0,
                page_size >= 1,
                q == (n - 1) / page_size as int,
        ;
        assert(q <= n - 1) by (nonlinear_arith)
            requires
                q >= 0,
                page_size >= 1,
                q * page_size <= n - 1,
        ;
    }
}

/// A page other than the last starts where the next one ends, page 1 ends
/// with the oldest item, and the last page starts with the newest.
pub proof fn lemma_pages_adjoin(n: nat, page_size: nat, page: nat)
    requires
        page_size >= 1,
        1 <= page <= spec_total_pages(n, page_size),
    ensures
        spec_page_start(n, page_size, page) <= spec_page_end(n, page_size, page) <= n,
        spec_page_end(n, page_size, 1) == n,
        spec_page_start(n, page_size, spec_total_pages(n, page_size)) == 0,
        page < spec_total_pages(n, page_size) ==> spec_page_start(n, page_size, page)
            == spec_page_end(n, page_size, page + 1),
        page < spec_total_pages(n, page_size) ==> spec_page_len(n, page_size, page) == page_size,
        spec_page_len(n, page_size, page) <= page_size,
        n > 0 ==> spec_page_len(n, page_size, page) >= 1,
        spec_page_end(n, page_size, page) == n - (page - 1) * page_size,
{
    let t = spec_total_pages(n, page_size);
    lemma_total_pages_bounds(n, page_size);
    assert((page - 1) * page_size <= (t - 1) * page_size) by {
        lemma_mul_inequality(page - 1, t - 1, page_size as int);
    }
    assert(page * page_size == (page - 1) * page_size + page_size) by (nonlinear_arith);
    assert(0 * page_size == 0) by (nonlinear_arith);
    if page < t {
        assert(page * page_size <= (t - 1) * page_size) by {
            lemma_mul_inequality(page as int, t - 1, page_size as int);
        }
        assert((page + 1 - 1) * page_size == page * page_size);
    }
}

/// The pages hold every item once: their lengths add up to the number of
/// items, and each page but the last is full.
pub proof fn lemma_pages_cover(n: nat, page_size: nat)
    requires
        page_size >= 1,
    ensures
        spec_items_up_to(n, page_size, spec_total_pages(n, page_size)) == n,
        forall|page: nat|
            1 <= page < spec_total_pages(n, page_size) ==> #[trigger] spec_page_len(
                n,
                page_size,
                page,
            ) == page_size,
{
    let t = spec_total_pages(n, page_size);
    lemma_items_up_to(n, page_size, t);
    lemma_pages_adjoin(n, page_size, t);
    assert forall|page: nat| 1 <= page < t implies #[trigger] spec_page_len(n, page_size, page)
        == page_size by {
        lemma_pages_adjoin(n, page_size, page);
    }
}

/// Pages `1..=upto` hold the items from the start of page `upto` to the
/// oldest.
pub proof fn lemma_items_up_to(n: nat, page_size: nat, upto: nat)
    requires
        page_size >= 1,
        upto <= spec_total_pages(n, page_size),
    ensures
        upto >= 1 ==> spec_items_up_to(n, page_size, upto) == n - spec_page_start(
            n,
            page_size,
            upto,
        ),
        upto == 0 ==> spec_items_up_to(n, page_size, upto) == 0,
    decreases upto,
{
    if upto >= 1 {
        lemma_items_up_to(n, page_size, (upto - 1) as nat);
        lemma_pages_adjoin(n, page_size, upto);
        if upto >= 2 {
            lemma_pages_adjoin(n, page_size, (upto - 1) as nat);
        }
    }
}

/// The item at `index` lies on the page that `spec_page_of` names, and on no
/// other.
pub proof fn lemma_page_of(n: nat, page_size: nat, index: nat)
    requires
        page_size >= 1,
        index < n,
    ensures
        1 <= spec_page_of(n, page_size, index) <= spec_total_pages(n, page_size),
        spec_page_start(n, page_size, spec_page_of(n, page_size, index)) <= index
            < spec_page_end(n, page_size, spec_page_of(n, page_size, index)),
        forall|page: nat|
            1 <= page <= spec_total_pages(n, page_size) && #[trigger] spec_page_start(
                n,
                page_size,
                page,
            ) <= index < spec_page_end(n, page_size, page) ==> page == spec_page_of(
                n,
                page_size,
                index,
            ),
{
    let s = page_size as int;
    let age = n - 1 - index;
    let q = age / s;
    let p = spec_page_of(n, page_size, index);
    lemma_fundamental_div_mod(age, s);
    assert(age == s * q + age % s);
    assert(q >= 0) by (nonlinear_arith)
        requires
            age >= 0,
            s >= 1,
            q == age / s,
    ;
    assert(p == q + 1);
    assert((p - 1) * s == s * q) by (nonlinear_arith)
        requires
            p == q + 1,
    ;
    assert(p * s == s * q + s) by (nonlinear_arith)
        requires
            p == q + 1,
    ;
    let t = spec_total_pages(n, page_size);
    lemma_total_pages_bounds(n, page_size);
    if p > t {
        assert((t + 1 - 1) * s <= (p - 1) * s) by {
            lemma_mul_inequality(t as int, p - 1, s);
        }
    }
    assert forall|page: nat|
        1 <= page <= t && #[trigger] spec_page_start(n, page_size, page) <= index < spec_page_end(
            n,
            page_size,
            page,
        ) implies page == p by {
        lemma_pages_adjoin(n, page_size, page);
        assert(page * s == (page - 1) * s + s) by (nonlinear_arith);
        if page < p {
            assert(page * s <= (p - 1) * s) by {
                lemma_mul_inequality(page as int, p - 1, s);
            }
        } else if page > p {
            assert(p * s <= (page - 1) * s) by {
                lemma_mul_inequality(p as int, page - 1, s);
            }
        }
    }
}

/// The canonical page of a feed that is not empty holds the feed's first,
/// that is newest, item.
pub proof fn lemma_canonical_page_holds_newest<A>(items: Seq<A>, page_size: nat)
    requires
        page_size >= 1,
        items.len() > 0,
    ensures
        spec_page_items(items, page_size, spec_total_pages(items.len(), page_size)).len() > 0,
        spec_page_items(items, page_size, spec_total_pages(items.len(), page_size))[0] == items[0],
        spec_page_of(items.len(), page_size, 0) == spec_total_pages(items.len(), page_size),
{
    let n = items.len();
    let t = spec_total_pages(n, page_size);
    lemma_pages_adjoin(n, page_size, t);
    lemma_page_of(n, page_size, 0);
}

/// Growth: when one item is put in front of a feed, the number of pages
/// stays or grows by one, and every page that was full keeps its number and
/// its items. Every page below the old last one was full.
pub proof fn lemma_growth_keeps_full_pages<A>(items: Seq<A>, newest: A, page_size: nat)
    requires
        page_size >= 1,
    ensures
        ({
            let grown = seq![newest] + items;
            let before = spec_total_pages(items.len(), page_size);
            let after = spec_total_pages(grown.len(), page_size);
            &&& (after == before || after == before + 1)
            &&& after == before + 1 <==> items.len() > 0 && spec_page_len(
                items.len(),
                page_size,
                before,
            ) == page_size
            &&& forall|page: nat|
                1 <= page <= before && #[trigger] spec_page_len(items.len(), page_size, page)
                    == page_size ==> spec_page_items(grown, page_size, page) == spec_page_items(
                    items,
                    page_size,
                    page,
                )
            &&& forall|page: nat|
                1 <= page < before ==> #[trigger] spec_page_items(grown, page_size, page)
                    == spec_page_items(items, page_size, page)
        }),
{
    let grown = seq![newest] + items;
    let n = items.len();
    let s = page_size as int;
    let before = spec_total_pages(n, page_size);
    let after = spec_total_pages(grown.len(), page_size);
    assert(grown.len() == n + 1);
    lemma_total_pages_bounds(n, page_size);
    lemma_total_pages_bounds(n + 1, page_size);
    lemma_pages_adjoin(n, page_size, before);
    // after is the least count of pages that can hold n + 1 items
    if after > before + 1 {
        assert((before + 1) * s <= (after - 1) * s) by {
            lemma_mul_inequality((before + 1) as int, after - 1, s);
        }
        assert((before + 1) * s == before * s + s) by (nonlinear_arith);
    }
    if after < before {
        assert(after * s <= (before - 1) * s) by {
            lemma_mul_inequality(after as int, before - 1, s);
        }
    }
    assert(before * s == (before - 1) * s + s) by (nonlinear_arith);
    assert(after * s == (after - 1) * s + s) by (nonlinear_arith);
    assert forall|page: nat|
        1 <= page <= before && #[trigger] spec_page_len(n, page_size, page)
            == page_size implies spec_page_items(grown, page_size, page) == spec_page_items(
        items,
        page_size,
        page,
    ) by {
        lemma_pages_adjoin(n, page_size, page);
        assert(page * s == (page - 1) * s + s) by (nonlinear_arith);
        if page > after {
            assert(after * s <= (page - 1) * s) by {
                lemma_mul_inequality(after as int, page - 1, s);
            }
        }
        let a = spec_page_start(n, page_size, page) as int;
        let b = spec_page_end(n, page_size, page) as int;
        assert(spec_page_start(n + 1, page_size, page) == a + 1);
        assert(spec_page_end(n + 1, page_size, page) == b + 1);
        assert(grown.subrange(a + 1, b + 1) =~= items.subrange(a, b));
    }
    assert forall|page: nat| 1 <= page < before implies #[trigger] spec_page_items(
        grown,
        page_size,
        page,
    ) == spec_page_items(items, page_size, page) by {
        lemma_pages_adjoin(n, page_size, page);
        assert(spec_page_len(n, page_size, page) == page_size);
    }
}

/// A page that is not the last keeps its file when the number of pages
/// changes: its name holds its own number and nothing else.
pub proof fn lemma_numbered_page_keeps_its_file(
    feed: FeedView,
    page: nat,
    total_before: nat,
    total_after: nat,
)
    requires
        page != total_before,
        page != total_after,
    ensures
        feed.page_path(page, total_before) == feed.page_path(page, total_after),
        feed.page_url(page, total_before) == feed.page_url(page, total_after),
{
}

/// The page of number `page` of a feed of `n` items, or the error for a
/// number that the feed does not have.
pub fn paginate(n: usize, page_size: usize, page: usize) -> (r: Result<Page, Error>)
    requires
        page_size >= 1,
    ensures
        r is Ok <==> 1 <= page <= spec_total_pages(n as nat, page_size as nat),
        r matches Ok(p) ==> p == Page::spec_new(n as nat, page_size as nat, page as nat),
        r matches Err(e) ==> e == (Error::InvalidPage {
            page,
            total_pages: spec_total_pages(n as nat, page_size as nat) as usize,
        }),
{
    let total = total_pages(n, page_size);
    if page < 1 || page > total {
        return Err(Error::InvalidPage { page, total_pages: total });
    }
    proof {
        lemma_total_pages_bounds(n as nat, page_size as nat);
        lemma_pages_adjoin(n as nat, page_size as nat, page as nat);
        assert(page as nat * page_size as nat == (page - 1) * page_size + page_size)
            by (nonlinear_arith);
    }
    let older: usize = (page - 1) * page_size;
    let end: usize = n - older;
    let start: usize = if end > page_size {
        end - page_size
    } else {
        0
    };
    Ok(Page { number: page, total_pages: total, start, end })
}

/// Number of pages for `n` items.
pub fn total_pages(n: usize, page_size: usize) -> (pages: usize)
    requires
        page_size >= 1,
    ensures
        pages == spec_total_pages(n as nat, page_size as nat),
        pages >= 1,
{
    proof {
        lemma_total_pages_bounds(n as nat, page_size as nat);
    }
    if n == 0 {
        1
    } else {
        (n - 1) / page_size + 1
    }
}

/// The page that holds the item at `index` of a newest-first feed of `n`
/// items.
pub fn page_of(n: usize, page_size: usize, index: usize) -> (page: usize)
    requires
        page_size >= 1,
        index < n,
    ensures
        page == spec_page_of(n as nat, page_size as nat, index as nat),
        1 <= page <= spec_total_pages(n as nat, page_size as nat),
{
    proof {
        lemma_page_of(n as nat, page_size as nat, index as nat);
        lemma_total_pages_bounds(n as nat, page_size as nat);
    }
    (n - 1 - index) / page_size + 1
}

/// File name of page `page` among `total_pages`: the last page has the
/// canonical name, every other page carries its own number.
pub open spec fn spec_page_file_name(page: nat, total_pages: nat) -> Seq<char> {
    if page == total_pages {
        "index.html"@
    } else {
        "index"@ + spec_decimal(page) + ".html"@
    }
}

/// File name of page `page` among `total_pages`.
pub fn page_file_name(page: usize, total_pages: usize) -> (name: String)
    ensures
        name@ == spec_page_file_name(page as nat, total_pages as nat),
{
    if page == total_pages {
        String::from_str("index.html")
    } else {
        let mut name = String::from_str("index");
        let number = decimal(page);
        name.append(number.as_str());
        name.append(".html");
        name
    }
}

/// The number of the page that a file name names: `n` for `index{n}.html`
/// with `n` in decimal, and none for any other name, the canonical
/// `index.html` among them.
pub open spec fn spec_page_number_of(name: Seq<char>) -> Option<nat> {
    if name.len() >= 10 && name.take(5) == "index"@ && name.skip(name.len() - 5) == ".html"@ {
        spec_number(name.subrange(5, name.len() - 5))
    } else {
        None
    }
}

/// The file name of a numbered page names that page.
pub proof fn lemma_page_number_of_file_name(page: nat, total_pages: nat)
    requires
        page != total_pages,
    ensures
        spec_page_number_of(spec_page_file_name(page, total_pages)) == Some(page),
{
    reveal_strlit("index");
    reveal_strlit(".html");
    let name = spec_page_file_name(page, total_pages);
    let digits = spec_decimal(page);
    crate::text::lemma_decimal_length(page);
    crate::text::lemma_number_of_decimal(page);
    assert(name.len() == 10 + digits.len());
    assert(name.take(5) =~= "index"@);
    assert(name.skip(name.len() - 5) =~= ".html"@);
    assert(name.subrange(5, name.len() - 5) =~= digits);
}

/// A name that names a page is the file name of that page, where the page
/// is not the last.
pub proof fn lemma_file_name_of_page_number(name: Seq<char>, total_pages: nat)
    requires
        spec_page_number_of(name) is Some,
        spec_page_number_of(name)->0 != total_pages,
    ensures
        spec_page_file_name(spec_page_number_of(name)->0, total_pages) == name,
{
    reveal_strlit("index");
    reveal_strlit(".html");
    let digits = name.subrange(5, name.len() - 5);
    crate::text::lemma_decimal_of_number(digits);
    assert(name =~= name.take(5) + digits + name.skip(name.len() - 5));
}

/// The number of the page that the file name `name` names, where it names
/// one whose number can be counted.
pub fn page_number_of(name: &str) -> (page: Option<usize>)
    ensures
        page matches Some(n) ==> spec_page_number_of(name@) == Some(n as nat),
        page is None ==> (spec_page_number_of(name@) matches Some(n) ==> n > usize::MAX),
{
    let chars = crate::text::chars_of(name);
    let head = crate::text::chars_of("index");
    let tail = crate::text::chars_of(".html");
    proof {
        reveal_strlit("index");
        reveal_strlit(".html");
    }
    if chars.len() < 10 {
        return None;
    }
    let mut i: usize = 0;
    while i < 5
        invariant
            i <= 5,
            chars.len() >= 10,
            chars@ == name@,
            head@ == "index"@,
            tail@ == ".html"@,
            head.len() == 5,
            tail.len() == 5,
            forall|k: int| 0 <= k < i ==> chars@[k] == head@[k],
            forall|k: int| 0 <= k < i ==> chars@[chars.len() - 5 + k] == tail@[k],
        decreases 5 - i,
    {
        if chars[i] != head[i] {
            assert(chars@.take(5)[i as int] != head@[i as int]);
            assert(chars@.take(5) != "index"@);
            return None;
        }
        if chars[chars.len() - 5 + i] != tail[i] {
            assert(chars@.skip(chars.len() - 5)[i as int] != tail@[i as int]);
            assert(chars@.skip(chars.len() - 5) != ".html"@);
            return None;
        }
        i += 1;
    }
    assert(chars@.take(5) =~= "index"@);
    assert(chars@.skip(chars.len() - 5) =~= ".html"@);
    let mut digits: Vec<char> = Vec::new();
    let mut k: usize = 5;
    while k < chars.len() - 5
        invariant
            5 <= k <= chars.len() - 5,
            digits@ == chars@.subrange(5, k as int),
        decreases chars.len() - k,
    {
        digits.push(chars[k]);
        assert(chars@.subrange(5, k + 1) =~= chars@.subrange(5, k as int).push(chars@[k as int]));
        k += 1;
    }
    crate::text::number_of(&digits)
}

/// The feeds of a site, each with its own pages and its own directory.
#[derive(Debug, Clone, PartialEq, Eq)]
pub enum Feed {
    /// Every post, at the root of the site.
    Home,
    /// The posts that carry a tag, under `tags/{tag}/`.
    Tag(String),
    /// The posts below a category path, under `{category}/{path}/`.
    Category(Vec<String>),
}

/// A feed, as plain values.
pub enum FeedView {
    Home,
    Tag(Seq<char>),
    Category(Seq<Seq<char>>),
}

impl View for Feed {
    type V = FeedView;

    open spec fn view(&self) -> FeedView {
        match self {
            Feed::Home => FeedView::Home,
            Feed::Tag(tag) => FeedView::Tag(tag@),
            Feed::Category(path) => FeedView::Category(texts(path@)),
        }
    }
}

impl FeedView {
    /// The directory of the feed below the root of the site: empty for the
    /// root itself, else with a slash at its end.
    pub open spec fn directory(self) -> Seq<char> {
        match self {
            FeedView::Home => Seq::empty(),
            FeedView::Tag(tag) => "tags/"@ + tag + "/"@,
            FeedView::Category(path) => spec_join(path, "/"@) + "/"@,
        }
    }

    /// The file of page `page` among `total_pages`, below the root of the
    /// site.
    pub open spec fn page_path(self, page: nat, total_pages: nat) -> Seq<char> {
        self.directory() + spec_page_file_name(page, total_pages)
    }

    /// The URL of page `page` among `total_pages`.
    pub open spec fn page_url(self, page: nat, total_pages: nat) -> Seq<char> {
        "/"@ + self.page_path(page, total_pages)
    }
}

impl Feed {
    /// The directory of the feed below the root of the site.
    pub fn directory(&self) -> (dir: String)
        ensures
            dir@ == self@.directory(),
    {
        match self {
            Feed::Home => String::new(),
            Feed::Tag(tag) => {
                let mut dir = String::from_str("tags/");
                dir.append(tag.as_str());
                dir.append("/");
                dir
            },
            Feed::Category(path) => {
                let mut dir = join(path, "/");
                dir.append("/");
                dir
            },
        }
    }

    /// The file of page `page` among `total_pages`, below the root of the
    /// site.
    pub fn page_path(&self, page: usize, total_pages: usize) -> (path: String)
        ensures
            path@ == self@.page_path(page as nat, total_pages as nat),
    {
        let mut path = self.directory();
        let name = page_file_name(page, total_pages);
        path.append(name.as_str());
        path
    }

    /// The URL of page `page` among `total_pages`.
    pub fn page_url(&self, page: usize, total_pages: usize) -> (url: String)
        ensures
            url@ == self@.page_url(page as nat, total_pages as nat),
    {
        let mut url = String::from_str("/");
        let path = self.page_path(page, total_pages);
        url.append(path.as_str());
        url
    }

    /// A copy of the feed.
    pub fn duplicate(&self) -> (copy: Feed)
        ensures
            copy@ == self@,
    {
        match self {
            Feed::Home => Feed::Home,
            Feed::Tag(tag) => Feed::Tag(tag.clone()),
            Feed::Category(path) => Feed::Category(crate::text::clone_strings(path)),
        }
    }
}

} // verus!
