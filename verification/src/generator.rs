//! What a build writes: the files of a full build and of an incremental
//! build, each with what it is made from.

use vstd::prelude::*;
use vstd::string::StringExecFns;
use crate::config::Config;
use crate::changes::{
    affected_sets, all_places, category_paths_at, is_changed, lemma_pick_all, places,
    spec_category_paths, spec_tags, spec_years, tags_at, years_at, Affected,
};
use crate::paginate::{spec_total_pages, total_pages, Feed, FeedView};
use crate::post::{post_views, Post, PostView};
use crate::seqs::{lemma_select, spec_concat, spec_count};
use crate::taxonomy::{has_tag, is_below};
use crate::text::{clone_strings, join, spec_join, text_lists, texts};

verus! {

/// What the generator needs to know of a site's configuration.
#[derive(Debug, Clone, PartialEq, Eq)]
pub struct Settings {
    /// Posts on one page of the home feed.
    pub home_page_size: usize,
    /// Posts on one page of a tag's feed.
    pub tag_page_size: usize,
    /// Posts on one page of a category's feed.
    pub category_page_size: usize,
    /// Whether the RSS feed is written.
    pub rss: bool,
    /// Whether the sitemap is written.
    pub sitemap: bool,
    /// The name of the site.
    pub site_name: String,
    /// One line on the site.
    pub site_description: String,
    /// The address under which the site is published.
    pub base_url: String,
}

impl Settings {
    /// Whether every page size is at least one.
    pub open spec fn is_valid(self) -> bool {
        self.home_page_size >= 1 && self.tag_page_size >= 1 && self.category_page_size >= 1
    }
}

/// What a file of the site is made from.
#[derive(Debug, Clone, PartialEq, Eq)]
pub enum Kind {
    /// One page of a feed.
    FeedPage { feed: Feed, page: usize },
    /// The page of the post at `place`.
    PostPage { place: usize },
    /// The overview of all tags.
    TagsOverview,
    /// The overview of all categories.
    CategoriesOverview,
    /// The overview of all years.
    Archives,
    /// The posts of one year.
    YearArchive { year: String },
    About,
    Friends,
    Search,
    NotFound,
    /// The index that the search page reads.
    SearchIndex,
    Rss,
    Sitemap,
}

/// What a file of the site is made from, as plain values.
pub enum KindView {
    FeedPage { feed: FeedView, page: nat },
    PostPage { place: nat },
    TagsOverview,
    CategoriesOverview,
    Archives,
    YearArchive { year: Seq<char> },
    About,
    Friends,
    Search,
    NotFound,
    SearchIndex,
    Rss,
    Sitemap,
}

impl View for Kind {
    type V = KindView;

    open spec fn view(&self) -> KindView {
        match self {
            Kind::FeedPage { feed, page } => KindView::FeedPage { feed: feed@, page: *page as nat },
            Kind::PostPage { place } => KindView::PostPage { place: *place as nat },
            Kind::TagsOverview => KindView::TagsOverview,
            Kind::CategoriesOverview => KindView::CategoriesOverview,
            Kind::Archives => KindView::Archives,
            Kind::YearArchive { year } => KindView::YearArchive { year: year@ },
            Kind::About => KindView::About,
            Kind::Friends => KindView::Friends,
            Kind::Search => KindView::Search,
            Kind::NotFound => KindView::NotFound,
            Kind::SearchIndex => KindView::SearchIndex,
            Kind::Rss => KindView::Rss,
            Kind::Sitemap => KindView::Sitemap,
        }
    }
}

/// One file that a build writes.
#[derive(Debug, Clone, PartialEq, Eq)]
pub struct Output {
    /// The file, below the output directory.
    pub path: String,
    /// What it is made from.
    pub kind: Kind,
}

/// One file that a build writes, as plain values.
pub struct OutputView {
    pub path: Seq<char>,
    pub kind: KindView,
}

impl View for Output {
    type V = OutputView;

    open spec fn view(&self) -> OutputView {
        OutputView { path: self.path@, kind: self.kind@ }
    }
}

/// The views of a list of outputs.
pub open spec fn output_views(outputs: Seq<Output>) -> Seq<OutputView> {
    Seq::new(outputs.len(), |i: int| outputs[i]@)
}

/// The file of a post below the output directory: the slug with `.html`,
/// in the directory of the post's category path.
pub open spec fn spec_post_path(post: PostView) -> Seq<char> {
    let slug = match post.slug {
        Some(s) => s,
        None => Seq::empty(),
    };
    if post.categories.len() == 0 {
        slug + ".html"@
    } else {
        spec_join(post.categories, "/"@) + "/"@ + slug + ".html"@
    }
}

/// The URL of a post.
pub open spec fn spec_post_url(post: PostView) -> Seq<char> {
    "/"@ + spec_post_path(post)
}

/// The file of a year's archive below the output directory.
pub open spec fn spec_year_path(year: Seq<char>) -> Seq<char> {
    "archives/"@ + year + ".html"@
}

/// The page `page` of a feed of `total` pages as an output.
pub open spec fn spec_feed_output(feed: FeedView, page: nat, total: nat) -> OutputView {
    OutputView { path: feed.page_path(page, total), kind: KindView::FeedPage { feed, page } }
}

/// Every page of a feed of `n` posts, from page 1 up.
pub open spec fn spec_feed_outputs(feed: FeedView, n: nat, page_size: nat) -> Seq<OutputView> {
    Seq::new(
        spec_total_pages(n, page_size),
        |i: int| spec_feed_output(feed, (i + 1) as nat, spec_total_pages(n, page_size)),
    )
}

/// The pages `pages` of the home feed of `n` posts.
pub open spec fn spec_home_outputs(pages: Seq<usize>, n: nat, page_size: nat) -> Seq<OutputView> {
    Seq::new(
        pages.len(),
        |i: int|
            spec_feed_output(FeedView::Home, pages[i] as nat, spec_total_pages(n, page_size)),
    )
}

/// Every page of the feed of each of `tags`.
pub open spec fn spec_tag_outputs(posts: Seq<PostView>, tags: Seq<Seq<char>>, page_size: nat) -> Seq<
    OutputView,
> {
    spec_concat(
        Seq::new(
            tags.len(),
            |i: int|
                spec_feed_outputs(
                    FeedView::Tag(tags[i]),
                    spec_count(posts, has_tag(tags[i])),
                    page_size,
                ),
        ),
    )
}

/// Every page of the feed of each of `paths`.
pub open spec fn spec_category_outputs(
    posts: Seq<PostView>,
    paths: Seq<Seq<Seq<char>>>,
    page_size: nat,
) -> Seq<OutputView> {
    spec_concat(
        Seq::new(
            paths.len(),
            |i: int|
                spec_feed_outputs(
                    FeedView::Category(paths[i]),
                    spec_count(posts, is_below(paths[i])),
                    page_size,
                ),
        ),
    )
}

/// The archive of each of `years`.
pub open spec fn spec_year_outputs(years: Seq<Seq<char>>) -> Seq<OutputView> {
    Seq::new(
        years.len(),
        |i: int|
            OutputView {
                path: spec_year_path(years[i]),
                kind: KindView::YearArchive { year: years[i] },
            },
    )
}

/// The page of the post at `place`, as a list of one; no page for a post
/// without a slug.
pub open spec fn spec_post_output(posts: Seq<PostView>, place: int) -> Seq<OutputView> {
    if posts[place].slug is Some {
        seq![
            OutputView {
                path: spec_post_path(posts[place]),
                kind: KindView::PostPage { place: place as nat },
            },
        ]
    } else {
        Seq::empty()
    }
}

/// The pages of the posts at `which`.
pub open spec fn spec_post_outputs(posts: Seq<PostView>, which: Seq<int>) -> Seq<OutputView> {
    spec_concat(Seq::new(which.len(), |i: int| spec_post_output(posts, which[i])))
}

/// A file with a fixed name.
pub open spec fn spec_fixed(path: Seq<char>, kind: KindView) -> Seq<OutputView> {
    seq![OutputView { path, kind }]
}

/// The files written whatever changed: the search index, and the RSS feed
/// and the sitemap where they are switched on.
pub open spec fn spec_always(rss: bool, sitemap: bool) -> Seq<OutputView> {
    spec_fixed("search.json"@, KindView::SearchIndex) + (if rss {
        spec_fixed("rss.xml"@, KindView::Rss)
    } else {
        Seq::empty()
    }) + (if sitemap {
        spec_fixed("sitemap.xml"@, KindView::Sitemap)
    } else {
        Seq::empty()
    })
}

/// The places `0..n`.
pub open spec fn spec_all_places(n: nat) -> Seq<int> {
    Seq::new(n, |i: int| i)
}

/// The files of a full build of `posts`.
pub open spec fn spec_full_build(posts: Seq<PostView>, settings: Settings) -> Seq<OutputView> {
    spec_feed_outputs(FeedView::Home, posts.len(), settings.home_page_size as nat)
        + spec_post_outputs(posts, spec_all_places(posts.len())) + spec_fixed(
        "tags.html"@,
        KindView::TagsOverview,
    ) + spec_tag_outputs(posts, spec_tags(posts), settings.tag_page_size as nat) + spec_fixed(
        "categories.html"@,
        KindView::CategoriesOverview,
    ) + spec_category_outputs(
        posts,
        spec_category_paths(posts),
        settings.category_page_size as nat,
    ) + spec_fixed("archives.html"@, KindView::Archives) + spec_year_outputs(spec_years(posts))
        + spec_fixed("about.html"@, KindView::About) + spec_fixed(
        "friends.html"@,
        KindView::Friends,
    ) + spec_fixed("search.html"@, KindView::Search) + spec_fixed("404.html"@, KindView::NotFound)
        + spec_always(settings.rss, settings.sitemap)
}

/// The files of an incremental build of `posts` that writes again what
/// `affected` names.
pub open spec fn spec_incremental_build(
    posts: Seq<PostView>,
    affected: Affected,
    settings: Settings,
) -> Seq<OutputView> {
    spec_post_outputs(posts, places(affected.changed@)) + spec_home_outputs(
        affected.pages@,
        posts.len(),
        settings.home_page_size as nat,
    ) + (if affected.tags_overview {
        spec_fixed("tags.html"@, KindView::TagsOverview)
    } else {
        Seq::empty()
    }) + spec_tag_outputs(posts, texts(affected.tags@), settings.tag_page_size as nat)
        + spec_category_outputs(
        posts,
        text_lists(affected.categories@),
        settings.category_page_size as nat,
    ) + spec_year_outputs(texts(affected.years@)) + spec_always(settings.rss, settings.sitemap)
}

/// A full build of the same posts with the same settings writes the same
/// files, made from the same things: what it writes does not depend on when
/// it runs or on what was built before.
pub proof fn lemma_full_build_repeats(
    first: Seq<PostView>,
    second: Seq<PostView>,
    first_settings: Settings,
    second_settings: Settings,
)
    requires
        first == second,
        first_settings.home_page_size == second_settings.home_page_size,
        first_settings.tag_page_size == second_settings.tag_page_size,
        first_settings.category_page_size == second_settings.category_page_size,
        first_settings.rss == second_settings.rss,
        first_settings.sitemap == second_settings.sitemap,
    ensures
        spec_full_build(first, first_settings) == spec_full_build(second, second_settings),
{
}

/// Appending lists of outputs appends their views.
pub proof fn lemma_output_views_add(a: Seq<Output>, b: Seq<Output>)
    ensures
        output_views(a + b) == output_views(a) + output_views(b),
{
    assert(output_views(a + b) =~= output_views(a) + output_views(b));
}

/// The file of a post below the output directory.
pub fn post_path(post: &Post) -> (path: String)
    ensures
        path@ == spec_post_path(post@),
{
    let mut path = if post.categories.len() == 0 {
        String::new()
    } else {
        let mut dir = join(&post.categories, "/");
        dir.append("/");
        dir
    };
    match &post.slug {
        Some(s) => {
            path.append(s.as_str());
        },
        None => {
            assert(path@ + Seq::<char>::empty() =~= path@);
        },
    }
    path.append(".html");
    proof {
        if post.categories.len() == 0 {
            let slug = match post@.slug {
                Some(s) => s,
                None => Seq::empty(),
            };
            assert(Seq::<char>::empty() + slug + ".html"@ =~= slug + ".html"@);
        }
    }
    path
}

/// The URL of a post.
pub fn post_url(post: &Post) -> (url: String)
    ensures
        url@ == spec_post_url(post@),
{
    let mut url = String::from_str("/");
    let path = post_path(post);
    url.append(path.as_str());
    url
}

fn fixed(path: &str, kind: Kind) -> (outputs: Vec<Output>)
    ensures
        output_views(outputs@) == spec_fixed(path@, kind@),
{
    let mut outputs: Vec<Output> = Vec::new();
    outputs.push(Output { path: String::from_str(path), kind });
    assert(output_views(outputs@) =~= spec_fixed(path@, kind@));
    outputs
}

fn extend(outputs: &mut Vec<Output>, more: Vec<Output>)
    ensures
        output_views(final(outputs)@) == output_views(old(outputs)@) + output_views(more@),
{
    let mut more = more;
    proof {
        lemma_output_views_add(outputs@, more@);
    }
    outputs.append(&mut more);
}

fn always(rss: bool, sitemap: bool) -> (outputs: Vec<Output>)
    ensures
        output_views(outputs@) == spec_always(rss, sitemap),
{
    let mut outputs = fixed("search.json", Kind::SearchIndex);
    if rss {
        extend(&mut outputs, fixed("rss.xml", Kind::Rss));
    } else {
        assert(output_views(outputs@) + Seq::<OutputView>::empty() =~= output_views(outputs@));
    }
    if sitemap {
        extend(&mut outputs, fixed("sitemap.xml", Kind::Sitemap));
    } else {
        assert(output_views(outputs@) + Seq::<OutputView>::empty() =~= output_views(outputs@));
    }
    outputs
}

/// Every page of a feed of `n` posts.
pub fn feed_outputs(feed: &Feed, n: usize, page_size: usize) -> (outputs: Vec<Output>)
    requires
        page_size >= 1,
    ensures
        output_views(outputs@) == spec_feed_outputs(feed@, n as nat, page_size as nat),
{
    let total = total_pages(n, page_size);
    let mut outputs: Vec<Output> = Vec::new();
    let mut i: usize = 0;
    while i < total
        invariant
            i <= total,
            total == spec_total_pages(n as nat, page_size as nat),
            outputs.len() == i,
            forall|k: int|
                0 <= k < i ==> (#[trigger] outputs@[k])@ == spec_feed_output(
                    feed@,
                    (k + 1) as nat,
                    total as nat,
                ),
        decreases total - i,
    {
        let path = feed.page_path(i + 1, total);
        outputs.push(Output { path, kind: Kind::FeedPage { feed: feed.duplicate(), page: i + 1 } });
        i += 1;
    }
    assert(output_views(outputs@) =~= spec_feed_outputs(feed@, n as nat, page_size as nat));
    outputs
}

/// The pages `pages` of the home feed of `n` posts.
pub fn generate_index_pages_for(pages: &Vec<usize>, n: usize, page_size: usize) -> (outputs: Vec<
    Output,
>)
    requires
        page_size >= 1,
    ensures
        output_views(outputs@) == spec_home_outputs(pages@, n as nat, page_size as nat),
{
    let total = total_pages(n, page_size);
    let feed = Feed::Home;
    let mut outputs: Vec<Output> = Vec::new();
    let mut i: usize = 0;
    while i < pages.len()
        invariant
            i <= pages.len(),
            total == spec_total_pages(n as nat, page_size as nat),
            feed@ == FeedView::Home,
            outputs.len() == i,
            forall|k: int|
                0 <= k < i ==> (#[trigger] outputs@[k])@ == spec_feed_output(
                    FeedView::Home,
                    pages@[k] as nat,
                    total as nat,
                ),
        decreases pages.len() - i,
    {
        let path = feed.page_path(pages[i], total);
        outputs.push(Output { path, kind: Kind::FeedPage { feed: Feed::Home, page: pages[i] } });
        i += 1;
    }
    assert(output_views(outputs@) =~= spec_home_outputs(pages@, n as nat, page_size as nat));
    outputs
}

/// Every page of the home feed of `n` posts.
pub fn generate_index_pages(n: usize, page_size: usize) -> (outputs: Vec<Output>)
    requires
        page_size >= 1,
    ensures
        output_views(outputs@) == spec_feed_outputs(FeedView::Home, n as nat, page_size as nat),
{
    feed_outputs(&Feed::Home, n, page_size)
}

/// Every page of the feed of each of `tags`.
pub fn generate_tag_pages_for(posts: &Vec<Post>, tags: &Vec<String>, page_size: usize) -> (outputs:
    Vec<Output>)
    requires
        page_size >= 1,
    ensures
        output_views(outputs@) == spec_tag_outputs(
            post_views(posts@),
            texts(tags@),
            page_size as nat,
        ),
{
    let ghost views = post_views(posts@);
    let ghost parts = Seq::new(
        tags.len() as nat,
        |i: int|
            spec_feed_outputs(
                FeedView::Tag(texts(tags@)[i]),
                spec_count(views, has_tag(texts(tags@)[i])),
                page_size as nat,
            ),
    );
    let mut outputs: Vec<Output> = Vec::new();
    let mut i: usize = 0;
    assert(output_views(outputs@) =~= spec_concat(parts.take(0)));
    while i < tags.len()
        invariant
            i <= tags.len(),
            page_size >= 1,
            views == post_views(posts@),
            parts == Seq::new(
                tags.len() as nat,
                |i: int|
                    spec_feed_outputs(
                        FeedView::Tag(texts(tags@)[i]),
                        spec_count(views, has_tag(texts(tags@)[i])),
                        page_size as nat,
                    ),
            ),
            output_views(outputs@) == spec_concat(parts.take(i as int)),
        decreases tags.len() - i,
    {
        let feed = Feed::Tag(tags[i].clone());
        let members = feed.members(posts);
        proof {
            assert(places(members@).len() == members.len());
            let next = parts.take(i + 1);
            assert(next.drop_last() =~= parts.take(i as int));
            assert(next.last() == parts[i as int]);
        }
        extend(&mut outputs, feed_outputs(&feed, members.len(), page_size));
        i += 1;
    }
    assert(parts.take(tags.len() as int) =~= parts);
    outputs
}

/// Every page of the feed of each of `paths`.
pub fn generate_category_pages_for(
    posts: &Vec<Post>,
    paths: &Vec<Vec<String>>,
    page_size: usize,
) -> (outputs: Vec<Output>)
    requires
        page_size >= 1,
    ensures
        output_views(outputs@) == spec_category_outputs(
            post_views(posts@),
            text_lists(paths@),
            page_size as nat,
        ),
{
    let ghost views = post_views(posts@);
    let ghost parts = Seq::new(
        paths.len() as nat,
        |i: int|
            spec_feed_outputs(
                FeedView::Category(text_lists(paths@)[i]),
                spec_count(views, is_below(text_lists(paths@)[i])),
                page_size as nat,
            ),
    );
    let mut outputs: Vec<Output> = Vec::new();
    let mut i: usize = 0;
    assert(output_views(outputs@) =~= spec_concat(parts.take(0)));
    while i < paths.len()
        invariant
            i <= paths.len(),
            page_size >= 1,
            views == post_views(posts@),
            parts == Seq::new(
                paths.len() as nat,
                |i: int|
                    spec_feed_outputs(
                        FeedView::Category(text_lists(paths@)[i]),
                        spec_count(views, is_below(text_lists(paths@)[i])),
                        page_size as nat,
                    ),
            ),
            output_views(outputs@) == spec_concat(parts.take(i as int)),
        decreases paths.len() - i,
    {
        let feed = Feed::Category(clone_strings(&paths[i]));
        let members = feed.members(posts);
        proof {
            assert(places(members@).len() == members.len());
            let next = parts.take(i + 1);
            assert(next.drop_last() =~= parts.take(i as int));
            assert(next.last() == parts[i as int]);
        }
        extend(&mut outputs, feed_outputs(&feed, members.len(), page_size));
        i += 1;
    }
    assert(parts.take(paths.len() as int) =~= parts);
    outputs
}

/// Every page of the feed of every tag of `posts`, the tags in order of first
/// occurrence.
pub fn generate_tag_pages(posts: &Vec<Post>, page_size: usize) -> (outputs: Vec<Output>)
    requires
        page_size >= 1,
    ensures
        output_views(outputs@) == spec_tag_outputs(
            post_views(posts@),
            spec_tags(post_views(posts@)),
            page_size as nat,
        ),
{
    let which = all_places(posts.len());
    proof {
        lemma_pick_all(post_views(posts@), which@);
    }
    let tags = tags_at(posts, &which);
    generate_tag_pages_for(posts, &tags, page_size)
}

/// Every page of the feed of every category path of `posts`, the paths in
/// order of first occurrence.
pub fn generate_category_pages(posts: &Vec<Post>, page_size: usize) -> (outputs: Vec<Output>)
    requires
        page_size >= 1,
    ensures
        output_views(outputs@) == spec_category_outputs(
            post_views(posts@),
            spec_category_paths(post_views(posts@)),
            page_size as nat,
        ),
{
    let which = all_places(posts.len());
    proof {
        lemma_pick_all(post_views(posts@), which@);
    }
    let paths = category_paths_at(posts, &which);
    generate_category_pages_for(posts, &paths, page_size)
}

/// The archive of every year of `posts`, the years in order of first
/// occurrence.
pub fn generate_year_archive_pages(posts: &Vec<Post>) -> (outputs: Vec<Output>)
    ensures
        output_views(outputs@) == spec_year_outputs(spec_years(post_views(posts@))),
{
    let which = all_places(posts.len());
    proof {
        lemma_pick_all(post_views(posts@), which@);
    }
    let years = years_at(posts, &which);
    generate_year_archive_pages_for(&years)
}

/// The archive of each of `years`.
pub fn generate_year_archive_pages_for(years: &Vec<String>) -> (outputs: Vec<Output>)
    ensures
        output_views(outputs@) == spec_year_outputs(texts(years@)),
{
    let mut outputs: Vec<Output> = Vec::new();
    let mut i: usize = 0;
    while i < years.len()
        invariant
            i <= years.len(),
            outputs.len() == i,
            forall|k: int|
                0 <= k < i ==> (#[trigger] outputs@[k])@ == (OutputView {
                    path: spec_year_path(years@[k]@),
                    kind: KindView::YearArchive { year: years@[k]@ },
                }),
        decreases years.len() - i,
    {
        let mut path = String::from_str("archives/");
        path.append(years[i].as_str());
        path.append(".html");
        outputs.push(Output { path, kind: Kind::YearArchive { year: years[i].clone() } });
        i += 1;
    }
    assert(output_views(outputs@) =~= spec_year_outputs(texts(years@)));
    outputs
}

/// The pages of the posts at `which`.
pub fn generate_post_pages_for(posts: &Vec<Post>, which: &Vec<usize>) -> (outputs: Vec<Output>)
    requires
        forall|i: int| 0 <= i < which.len() ==> #[trigger] which@[i] < posts.len(),
    ensures
        output_views(outputs@) == spec_post_outputs(post_views(posts@), places(which@)),
{
    let ghost views = post_views(posts@);
    let ghost parts = Seq::new(
        which.len() as nat,
        |i: int| spec_post_output(views, places(which@)[i]),
    );
    let mut outputs: Vec<Output> = Vec::new();
    let mut i: usize = 0;
    assert(output_views(outputs@) =~= spec_concat(parts.take(0)));
    while i < which.len()
        invariant
            i <= which.len(),
            views == post_views(posts@),
            forall|i: int| 0 <= i < which.len() ==> #[trigger] which@[i] < posts.len(),
            parts == Seq::new(
                which.len() as nat,
                |i: int| spec_post_output(views, places(which@)[i]),
            ),
            output_views(outputs@) == spec_concat(parts.take(i as int)),
        decreases which.len() - i,
    {
        let place = which[i];
        let post = &posts[place];
        proof {
            let next = parts.take(i + 1);
            assert(next.drop_last() =~= parts.take(i as int));
            assert(next.last() == spec_post_output(views, place as int));
            assert(views[place as int] == post@);
        }
        if post.slug.is_some() {
            let path = post_path(post);
            let ghost before = outputs@;
            outputs.push(Output { path, kind: Kind::PostPage { place } });
            proof {
                assert(output_views(outputs@) =~= output_views(before) + spec_post_output(
                    views,
                    place as int,
                ));
            }
        } else {
            assert(output_views(outputs@) + spec_post_output(views, place as int) =~= output_views(
                outputs@,
            ));
        }
        i += 1;
    }
    assert(parts.take(which.len() as int) =~= parts);
    outputs
}

/// Decides what a build writes.
#[derive(Debug)]
pub struct Generator {
    settings: Settings,
}

impl Generator {
    /// Every page size of a generator is at least one.
    #[verifier::type_invariant]
    spec fn has_valid_settings(self) -> bool {
        self.settings.is_valid()
    }

    /// The settings that the generator works with.
    pub closed spec fn settings(self) -> Settings {
        self.settings
    }

    /// A generator for the site with the configuration `config`.
    pub fn new(config: &Config) -> (generator: Self)
        ensures
            config.tells(generator.settings()),
            generator.settings().is_valid(),
    {
        Generator { settings: config.settings() }
    }

    /// A generator for a site with the settings `settings`, whose page sizes
    /// are at least one.
    pub fn with_settings(settings: Settings) -> (generator: Self)
        requires
            settings.is_valid(),
        ensures
            generator.settings() == settings,
    {
        Generator { settings }
    }

    /// The settings of the site.
    pub fn get_settings(&self) -> (settings: &Settings)
        ensures
            *settings == self.settings(),
            settings.is_valid(),
    {
        proof {
            use_type_invariant(self);
        }
        &self.settings
    }

    /// The files of a full build of `posts`, newest first: every page of the
    /// home feed, every post, the overviews, every page of every tag's and
    /// every category's feed, the archive of every year, the pages with
    /// fixed names, the search index, and the RSS feed and the sitemap where
    /// they are switched on. What it writes depends on the posts and the
    /// settings alone.
    pub fn build(&self, posts: &Vec<Post>) -> (outputs: Vec<Output>)
        ensures
            output_views(outputs@) == spec_full_build(post_views(posts@), self.settings()),
    {
        proof {
            use_type_invariant(self);
        }
        let ghost views = post_views(posts@);
        let which = all_places(posts.len());
        proof {
            lemma_pick_all(views, which@);
            assert(places(which@) =~= spec_all_places(views.len()));
        }
        let mut outputs = generate_index_pages(posts.len(), self.settings.home_page_size);
        extend(&mut outputs, generate_post_pages_for(posts, &which));
        extend(&mut outputs, fixed("tags.html", Kind::TagsOverview));
        extend(&mut outputs, generate_tag_pages(posts, self.settings.tag_page_size));
        extend(&mut outputs, fixed("categories.html", Kind::CategoriesOverview));
        extend(&mut outputs, generate_category_pages(posts, self.settings.category_page_size));
        extend(&mut outputs, fixed("archives.html", Kind::Archives));
        extend(&mut outputs, generate_year_archive_pages(posts));
        extend(&mut outputs, fixed("about.html", Kind::About));
        extend(&mut outputs, fixed("friends.html", Kind::Friends));
        extend(&mut outputs, fixed("search.html", Kind::Search));
        extend(&mut outputs, fixed("404.html", Kind::NotFound));
        extend(&mut outputs, always(self.settings.rss, self.settings.sitemap));
        outputs
    }

    /// The files of an incremental build of `posts`, newest first, after the
    /// build at `last_build_time`: the pages of the posts that changed since,
    /// the home pages, tag feeds, category feeds and year archives that they
    /// touch, the overview of tags where a tag is new, and the files that
    /// every build writes. `existing_max_page` is the highest number of a
    /// home page in the output, `existing_tags` are the tags that have a
    /// directory there.
    pub fn build_incremental(
        &self,
        posts: &Vec<Post>,
        last_build_time: i64,
        existing_max_page: usize,
        existing_tags: &Vec<String>,
    ) -> (r: (Affected, Vec<Output>))
        ensures
            r.0.is_for(
                post_views(posts@),
                last_build_time,
                self.settings().home_page_size as nat,
                existing_max_page as nat,
                texts(existing_tags@),
            ),
            output_views(r.1@) == spec_incremental_build(
                post_views(posts@),
                r.0,
                self.settings(),
            ),
    {
        proof {
            use_type_invariant(self);
        }
        let affected = affected_sets(
            posts,
            last_build_time,
            self.settings.home_page_size,
            existing_max_page,
            existing_tags,
        );
        proof {
            lemma_select(post_views(posts@), is_changed(last_build_time));
            assert forall|i: int| 0 <= i < affected.changed.len() implies #[trigger] affected.changed@[i]
                < posts.len() by {
                assert(places(affected.changed@)[i] == affected.changed@[i]);
            }
        }
        let mut outputs = generate_post_pages_for(posts, &affected.changed);
        extend(
            &mut outputs,
            generate_index_pages_for(&affected.pages, posts.len(), self.settings.home_page_size),
        );
        if affected.tags_overview {
            extend(&mut outputs, fixed("tags.html", Kind::TagsOverview));
        } else {
            assert(output_views(outputs@) + Seq::<OutputView>::empty() =~= output_views(outputs@));
        }
        extend(
            &mut outputs,
            generate_tag_pages_for(posts, &affected.tags, self.settings.tag_page_size),
        );
        extend(
            &mut outputs,
            generate_category_pages_for(
                posts,
                &affected.categories,
                self.settings.category_page_size,
            ),
        );
        extend(&mut outputs, generate_year_archive_pages_for(&affected.years));
        extend(&mut outputs, always(self.settings.rss, self.settings.sitemap));
        (affected, outputs)
    }
}

} // verus!
