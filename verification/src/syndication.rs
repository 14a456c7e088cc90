//! The sitemap, the RSS feed and the search index of a site.

use vstd::prelude::*;
use vstd::string::StringExecFns;
use crate::changes::{
    all_places, lemma_pick_all, places, spec_category_paths, spec_tags, spec_years,
};
use crate::generator::{
    generate_category_pages, generate_index_pages, generate_post_pages_for, generate_tag_pages,
    generate_year_archive_pages, lemma_output_views_add, output_views,
    post_url, spec_all_places, spec_category_outputs, spec_feed_outputs, spec_post_outputs,
    spec_post_url, spec_tag_outputs, spec_year_outputs, Generator, OutputView, Settings,
};
use crate::paginate::FeedView;
use crate::post::{post_views, Post, PostView};
use crate::text::{
    clone_strings, escape_xml, first_chars, space_tags, spec_escape_xml, spec_first,
    spec_space_tags, spec_trim, spec_trim_end_slashes, texts, trim, trim_end_slashes,
};
use crate::utils::{spec_strip_html_tags, strip_html_tags};

verus! {

/// The text of an optional text, empty where there is none.
pub open spec fn text_or_empty(o: Option<Seq<char>>) -> Seq<char> {
    match o {
        Some(s) => s,
        None => Seq::empty(),
    }
}

fn or_empty(o: &Option<String>) -> (s: String)
    ensures
        s@ == text_or_empty(crate::post::opt_text(*o)),
{
    match o {
        Some(s) => s.clone(),
        None => String::new(),
    }
}

/// The words of a post's body, without its markup.
pub open spec fn spec_plain_text(post: PostView) -> Seq<char> {
    spec_strip_html_tags(spec_space_tags(text_or_empty(post.content)))
}

/// The words of a post's body, without its markup.
pub fn plain_text(post: &Post) -> (text: String)
    ensures
        text@ == spec_plain_text(post@),
{
    let content = or_empty(&post.content);
    let spaced = space_tags(content.as_str());
    strip_html_tags(spaced.as_str())
}

/// The paths of the pages that the sitemap lists, in its order: the pages
/// of the home feed, the posts, the pages of every tag's and every
/// category's feed, the archives of the years.
pub open spec fn spec_site_pages(posts: Seq<PostView>, settings: Settings) -> Seq<OutputView> {
    spec_feed_outputs(FeedView::Home, posts.len(), settings.home_page_size as nat)
        + spec_post_outputs(posts, spec_all_places(posts.len())) + spec_tag_outputs(
        posts,
        spec_tags(posts),
        settings.tag_page_size as nat,
    ) + spec_category_outputs(
        posts,
        spec_category_paths(posts),
        settings.category_page_size as nat,
    ) + spec_year_outputs(spec_years(posts))
}

/// The line of the sitemap for the page at `path`.
pub open spec fn spec_sitemap_line(base: Seq<char>, path: Seq<char>) -> Seq<char> {
    "  <url><loc>"@ + base + "/"@ + path + "</loc></url>\n"@
}

/// The lines of the sitemap for `pages`.
pub open spec fn spec_sitemap_lines(base: Seq<char>, pages: Seq<OutputView>) -> Seq<char>
    decreases pages.len(),
{
    if pages.len() == 0 {
        Seq::empty()
    } else {
        spec_sitemap_lines(base, pages.drop_last()) + spec_sitemap_line(base, pages.last().path)
    }
}

/// The lines of the sitemap for the pages with fixed names.
pub open spec fn spec_sitemap_fixed(base: Seq<char>) -> Seq<char> {
    spec_sitemap_line(base, "tags.html"@) + spec_sitemap_line(base, "categories.html"@)
        + spec_sitemap_line(base, "archives.html"@) + spec_sitemap_line(base, "about.html"@)
        + spec_sitemap_line(base, "friends.html"@) + spec_sitemap_line(base, "search.html"@)
}

/// The sitemap of a site: one line for each page, under the site's address
/// without the slashes at its end.
pub open spec fn spec_sitemap(posts: Seq<PostView>, settings: Settings) -> Seq<char> {
    let base = spec_trim_end_slashes(settings.base_url@);
    "<?xml version=\"1.0\" encoding=\"UTF-8\"?>\n"@
        + "<urlset xmlns=\"http://www.sitemaps.org/schemas/sitemap/0.9\">\n"@ + spec_sitemap_lines(
        base,
        spec_site_pages(posts, settings),
    ) + spec_sitemap_fixed(base) + "</urlset>\n"@
}

/// What the RSS feed tells of a post: at most 400 characters of its words.
pub open spec fn spec_summary(post: PostView) -> Seq<char> {
    spec_trim(spec_first(spec_plain_text(post), 400))
}

/// The entry of a post in the RSS feed.
pub open spec fn spec_rss_item(base: Seq<char>, post: PostView) -> Seq<char> {
    let link = base + spec_post_url(post);
    "  <item>\n    <title>"@ + spec_escape_xml(text_or_empty(post.title))
        + "</title>\n    <link>"@ + link + "</link>\n    <guid isPermaLink=\"true\">"@ + link
        + "</guid>\n    <description>"@ + spec_escape_xml(spec_summary(post))
        + "</description>\n    <pubDate>"@ + text_or_empty(post.date)
        + "</pubDate>\n  </item>\n"@
}

/// The entries of `posts` in the RSS feed.
pub open spec fn spec_rss_items(base: Seq<char>, posts: Seq<PostView>) -> Seq<char>
    decreases posts.len(),
{
    if posts.len() == 0 {
        Seq::empty()
    } else {
        spec_rss_items(base, posts.drop_last()) + spec_rss_item(base, posts.last())
    }
}

/// The RSS feed of a site: its name, its address and its description, and
/// one entry for each post.
pub open spec fn spec_rss(posts: Seq<PostView>, settings: Settings) -> Seq<char> {
    let base = spec_trim_end_slashes(settings.base_url@);
    "<?xml version=\"1.0\" encoding=\"UTF-8\"?>\n<rss version=\"2.0\">\n<channel>\n  <title>"@
        + spec_escape_xml(settings.site_name@) + "</title>\n  <link>"@ + spec_escape_xml(
        settings.base_url@,
    ) + "</link>\n  <description>"@ + spec_escape_xml(settings.site_description@)
        + "</description>\n"@ + spec_rss_items(base, posts) + "\n</channel>\n</rss>\n"@
}

/// What the search index holds of one post.
#[derive(Debug, Clone, PartialEq, Eq)]
pub struct SearchEntry {
    /// The place of the post among the posts.
    pub id: usize,
    pub title: String,
    /// The words of the body.
    pub content: String,
    pub tags: Vec<String>,
    pub categories: Vec<String>,
    pub slug: String,
    pub date: String,
    pub url: String,
}

impl SearchEntry {
    /// Whether `self` is the entry of the post `post` at `place`.
    pub open spec fn is_for(self, post: PostView, place: int) -> bool {
        &&& self.id == place
        &&& self.title@ == text_or_empty(post.title)
        &&& self.content@ == spec_plain_text(post)
        &&& texts(self.tags@) == post.tags
        &&& texts(self.categories@) == post.categories
        &&& self.slug@ == text_or_empty(post.slug)
        &&& self.date@ == text_or_empty(post.date)
        &&& self.url@ == spec_post_url(post)
    }
}

fn sitemap_line(xml: &mut String, base: &str, path: &str)
    ensures
        final(xml)@ == old(xml)@ + spec_sitemap_line(base@, path@),
{
    let mut line = String::from_str("  <url><loc>");
    line.append(base);
    line.append("/");
    line.append(path);
    line.append("</loc></url>\n");
    xml.append(line.as_str());
}

impl Generator {
    /// The sitemap of the site.
    pub fn generate_sitemap(&self, posts: &Vec<Post>) -> (xml: String)
        ensures
            xml@ == spec_sitemap(post_views(posts@), self.settings()),
    {
        let settings = self.get_settings();
        let ghost views = post_views(posts@);
        let which = all_places(posts.len());
        proof {
            lemma_pick_all(views, which@);
            assert(places(which@) =~= spec_all_places(views.len()));
        }
        let mut pages = generate_index_pages(posts.len(), settings.home_page_size);
        let mut more = generate_post_pages_for(posts, &which);
        proof {
            lemma_output_views_add(pages@, more@);
        }
        pages.append(&mut more);
        let mut more = generate_tag_pages(posts, settings.tag_page_size);
        proof {
            lemma_output_views_add(pages@, more@);
        }
        pages.append(&mut more);
        let mut more = generate_category_pages(posts, settings.category_page_size);
        proof {
            lemma_output_views_add(pages@, more@);
        }
        pages.append(&mut more);
        let mut more = generate_year_archive_pages(posts);
        proof {
            lemma_output_views_add(pages@, more@);
        }
        pages.append(&mut more);
        assert(output_views(pages@) == spec_site_pages(views, *settings));
        let base = trim_end_slashes(settings.base_url.as_str());
        let mut lines = String::new();
        let mut i: usize = 0;
        let ghost all = output_views(pages@);
        assert(lines@ =~= spec_sitemap_lines(base@, all.take(0)));
        while i < pages.len()
            invariant
                i <= pages.len(),
                all == output_views(pages@),
                lines@ == spec_sitemap_lines(base@, all.take(i as int)),
            decreases pages.len() - i,
        {
            proof {
                let next = all.take(i + 1);
                assert(next.drop_last() =~= all.take(i as int));
                assert(next.last().path == pages@[i as int].path@);
            }
            sitemap_line(&mut lines, base.as_str(), pages[i].path.as_str());
            i += 1;
        }
        assert(all.take(pages.len() as int) =~= all);
        let mut xml = String::from_str("<?xml version=\"1.0\" encoding=\"UTF-8\"?>\n");
        xml.append("<urlset xmlns=\"http://www.sitemaps.org/schemas/sitemap/0.9\">\n");
        xml.append(lines.as_str());
        let mut named = String::new();
        assert(named@ + spec_sitemap_line(base@, "tags.html"@) =~= spec_sitemap_line(
            base@,
            "tags.html"@,
        ));
        sitemap_line(&mut named, base.as_str(), "tags.html");
        sitemap_line(&mut named, base.as_str(), "categories.html");
        sitemap_line(&mut named, base.as_str(), "archives.html");
        sitemap_line(&mut named, base.as_str(), "about.html");
        sitemap_line(&mut named, base.as_str(), "friends.html");
        sitemap_line(&mut named, base.as_str(), "search.html");
        xml.append(named.as_str());
        xml.append("</urlset>\n");
        xml
    }

    /// The RSS feed of the site.
    pub fn generate_rss(&self, posts: &Vec<Post>) -> (xml: String)
        ensures
            xml@ == spec_rss(post_views(posts@), self.settings()),
    {
        let settings = self.get_settings();
        let ghost views = post_views(posts@);
        let base = trim_end_slashes(settings.base_url.as_str());
        let mut items = String::new();
        let mut i: usize = 0;
        assert(items@ =~= spec_rss_items(base@, views.take(0)));
        while i < posts.len()
            invariant
                i <= posts.len(),
                views == post_views(posts@),
                items@ == spec_rss_items(base@, views.take(i as int)),
            decreases posts.len() - i,
        {
            let post = &posts[i];
            proof {
                let next = views.take(i + 1);
                assert(next.drop_last() =~= views.take(i as int));
                assert(next.last() == post@);
            }
            let item = rss_item(base.as_str(), post);
            items.append(item.as_str());
            i += 1;
        }
        assert(views.take(posts.len() as int) =~= views);
        let mut xml = String::from_str(
            "<?xml version=\"1.0\" encoding=\"UTF-8\"?>\n<rss version=\"2.0\">\n<channel>\n  <title>",
        );
        let name = escape_xml(settings.site_name.as_str());
        xml.append(name.as_str());
        xml.append("</title>\n  <link>");
        let address = escape_xml(settings.base_url.as_str());
        xml.append(address.as_str());
        xml.append("</link>\n  <description>");
        let description = escape_xml(settings.site_description.as_str());
        xml.append(description.as_str());
        xml.append("</description>\n");
        xml.append(items.as_str());
        xml.append("\n</channel>\n</rss>\n");
        xml
    }

    /// The entries of the search index, one for each post.
    pub fn generate_search_index(&self, posts: &Vec<Post>) -> (entries: Vec<SearchEntry>)
        ensures
            entries.len() == posts.len(),
            forall|i: int|
                0 <= i < posts.len() ==> (#[trigger] entries@[i]).is_for(posts@[i]@, i),
    {
        let mut entries: Vec<SearchEntry> = Vec::new();
        let mut i: usize = 0;
        while i < posts.len()
            invariant
                i <= posts.len(),
                entries.len() == i,
                forall|k: int| 0 <= k < i ==> (#[trigger] entries@[k]).is_for(posts@[k]@, k),
            decreases posts.len() - i,
        {
            let post = &posts[i];
            entries.push(
                SearchEntry {
                    id: i,
                    title: or_empty(&post.title),
                    content: plain_text(post),
                    tags: clone_strings(&post.tags),
                    categories: clone_strings(&post.categories),
                    slug: or_empty(&post.slug),
                    date: or_empty(&post.date),
                    url: post_url(post),
                },
            );
            i += 1;
        }
        entries
    }
}

fn rss_item(base: &str, post: &Post) -> (item: String)
    ensures
        item@ == spec_rss_item(base@, post@),
{
    let mut link = String::from_str(base);
    let url = post_url(post);
    link.append(url.as_str());
    let title = or_empty(&post.title);
    let title = escape_xml(title.as_str());
    let words = plain_text(post);
    let summary = first_chars(words.as_str(), 400);
    let summary = trim(summary.as_str());
    let summary = escape_xml(summary.as_str());
    let date = or_empty(&post.date);
    let mut item = String::from_str("  <item>\n    <title>");
    item.append(title.as_str());
    item.append("</title>\n    <link>");
    item.append(link.as_str());
    item.append("</link>\n    <guid isPermaLink=\"true\">");
    item.append(link.as_str());
    item.append("</guid>\n    <description>");
    item.append(summary.as_str());
    item.append("</description>\n    <pubDate>");
    item.append(date.as_str());
    item.append("</pubDate>\n  </item>\n");
    item
}

} // verus!
