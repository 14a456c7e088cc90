//! From a document to a post: the front matter is read as YAML by
//! `serde_yaml`, the body is rendered by `pulldown_cmark`, and the rest is
//! decided here.

use vstd::prelude::*;
use vstd::string::StringExecFns;
use crate::error::Error;
use crate::field::{spec_lookup, Field, FieldView};
use crate::post::{
    is_newest_first, is_newest_first_of, post_views, sort_posts, Post, PostParser, PostView,
};
use crate::source::{
    categories_from_path, file_stem, is_markdown, spec_categories_from_path, spec_file_stem,
    spec_is_markdown, spec_split_front_matter, split_front_matter,
};
use crate::text::{chars_of, first_chars, spec_first, texts};

verus! {

/// `serde_yaml::Value`: a YAML document. Nothing of its inside is known
/// here.
#[verifier::external_type_specification]
#[verifier::external_body]
pub struct ExYamlValue(serde_yaml::Value);

/// The entries of a YAML document that is a mapping: each key that is a
/// string, with what its value is. A string, an integer that fits 64 bits
/// and a truth value are that; a sequence is the list of its items, an item
/// that is a string as that string; a value of any other kind is
/// `FieldView::Other`. A document that is no mapping has no entries.
pub uninterp spec fn yaml_fields(doc: serde_yaml::Value) -> Map<Seq<char>, FieldView>;

/// The HTML that `pulldown_cmark` writes for a Markdown text when the
/// extensions whose bits are set in `options` are switched on.
pub uninterp spec fn markdown_html(markdown: Seq<char>, options: u32) -> Seq<char>;

/// The extensions with which the body of a document is read: tables,
/// footnotes, strikethrough and task lists, as `pulldown_cmark::Options`
/// numbers them.
pub const MARKDOWN_OPTIONS: u32 = 30;

/// `pulldown_cmark::Options::from_bits_truncate`,
/// `pulldown_cmark::Parser::new_ext` and `pulldown_cmark::html::push_html`:
/// the HTML of a Markdown text, read with the extensions whose bits are set
/// in `options`.
#[verifier::external_body]
fn render_markdown(markdown: &str, options: u32) -> (html: String)
    ensures
        html@ == markdown_html(markdown@, options),
{
    let options = pulldown_cmark::Options::from_bits_truncate(options);
    let parser = pulldown_cmark::Parser::new_ext(markdown, options);
    let mut html = String::new();
    pulldown_cmark::html::push_html(&mut html, parser);
    html
}

/// What the parser of `serde_yaml` makes of a text: the entries of the YAML
/// document that the text holds, or the parser's message for a text that
/// holds none.
pub uninterp spec fn yaml_document(text: Seq<char>) -> Result<Map<Seq<char>, FieldView>, Seq<char>>;

/// `serde_yaml::from_str`: the document that a YAML text holds, or the
/// parser's message for a text that holds none. The same text gives the same
/// document or the same message, which `yaml_document` names.
#[verifier::external_body]
fn yaml_parse(text: &str) -> (r: Result<serde_yaml::Value, String>)
    ensures
        match r {
            Ok(doc) => yaml_document(text@) == Ok::<Map<Seq<char>, FieldView>, Seq<char>>(
                yaml_fields(doc),
            ),
            Err(message) => yaml_document(text@) == Err::<Map<Seq<char>, FieldView>, Seq<char>>(
                message@,
            ),
        },
{
    serde_yaml::from_str::<serde_yaml::Value>(text).map_err(|e| e.to_string())
}

/// `serde_yaml::Value::get`: what the document holds under the key `key`,
/// and `Field::Absent` where it has no such key or is no mapping.
#[verifier::external_body]
fn yaml_get(doc: &serde_yaml::Value, key: &str) -> (field: Field)
    ensures
        field@ == spec_lookup(yaml_fields(*doc), key@),
        field is Absent <==> !yaml_fields(*doc).contains_key(key@),
{
    match doc.get(key) {
        None => Field::Absent,
        Some(serde_yaml::Value::String(s)) => Field::Text(s.clone()),
        Some(serde_yaml::Value::Number(n)) => n.as_i64().map_or(Field::Other, Field::Number),
        Some(serde_yaml::Value::Bool(b)) => Field::Flag(*b),
        Some(serde_yaml::Value::Sequence(items)) => Field::List(
            items.iter().map(|item| item.as_str().map(str::to_string)).collect(),
        ),
        Some(_) => Field::Other,
    }
}

/// One document of the source tree.
#[derive(Debug, Clone, PartialEq, Eq)]
pub struct SourceFile {
    /// Where the document is.
    pub path: String,
    /// What it holds.
    pub content: String,
    /// When it was last modified, in seconds since the epoch.
    pub modified: i64,
}

/// The body of a document, behind its front matter.
pub open spec fn spec_body(content: Seq<char>) -> Seq<char> {
    match spec_split_front_matter(content) {
        Some((_, body)) => body,
        None => Seq::empty(),
    }
}

/// The text of a field that is a string.
pub open spec fn spec_text(field: FieldView) -> Option<Seq<char>> {
    match field {
        FieldView::Text(t) => Some(t),
        _ => None,
    }
}

/// The items of `items` that are strings, in order.
pub open spec fn spec_strings(items: Seq<Option<Seq<char>>>) -> Seq<Seq<char>>
    decreases items.len(),
{
    if items.len() == 0 {
        Seq::empty()
    } else {
        match items.last() {
            Some(s) => spec_strings(items.drop_last()).push(s),
            None => spec_strings(items.drop_last()),
        }
    }
}

/// The slug of a document: `slug` of the front matter where that is a
/// string and not empty, else the stem of the file.
pub open spec fn spec_slug(fields: Map<Seq<char>, FieldView>, stem: Seq<char>) -> Seq<char> {
    match spec_lookup(fields, "slug"@) {
        FieldView::Text(s) => if s.len() > 0 {
            s
        } else {
            stem
        },
        _ => stem,
    }
}

/// The title of a document: `title` of the front matter where that is a
/// string, the slug where the front matter has no title, none where the
/// title is no string.
pub open spec fn spec_title(fields: Map<Seq<char>, FieldView>, slug: Seq<char>) -> Option<
    Seq<char>,
> {
    match spec_lookup(fields, "title"@) {
        FieldView::Absent => Some(slug),
        FieldView::Text(t) => Some(t),
        _ => None,
    }
}

/// The tags of a document: the strings in the list `tags` of the front
/// matter.
pub open spec fn spec_tag_list(fields: Map<Seq<char>, FieldView>) -> Seq<Seq<char>> {
    match spec_lookup(fields, "tags"@) {
        FieldView::List(items) => spec_strings(items),
        _ => Seq::empty(),
    }
}

/// The day of a document: the first ten characters of `createTime` where
/// that is a string, else `date_ymd` of the front matter.
pub open spec fn spec_day(fields: Map<Seq<char>, FieldView>) -> Option<Seq<char>> {
    match spec_lookup(fields, "createTime"@) {
        FieldView::Text(c) => Some(spec_first(c, 10)),
        _ => spec_text(spec_lookup(fields, "date_ymd"@)),
    }
}

/// The first `n` characters of `createTime`, where that is a string of seven
/// characters at least; else what the front matter holds under `key`.
pub open spec fn spec_part_of_day(fields: Map<Seq<char>, FieldView>, n: nat, key: Seq<char>)
    -> Option<Seq<char>> {
    match spec_lookup(fields, "createTime"@) {
        FieldView::Text(c) => if c.len() >= 7 {
            Some(spec_first(c, n))
        } else {
            spec_text(spec_lookup(fields, key))
        },
        _ => spec_text(spec_lookup(fields, key)),
    }
}

/// The moment of the last modification: `modified_epoch` of the front
/// matter where that is an integer, else that of the file.
pub open spec fn spec_modified(fields: Map<Seq<char>, FieldView>, file: i64) -> i64 {
    match spec_lookup(fields, "modified_epoch"@) {
        FieldView::Number(n) => n,
        _ => file,
    }
}

/// The post of a document with the front matter `fields`, the rendered body
/// `html`, the file stem `stem` and the category path `categories`, last
/// modified at `modified`.
pub open spec fn spec_post(
    fields: Map<Seq<char>, FieldView>,
    html: Seq<char>,
    stem: Seq<char>,
    categories: Seq<Seq<char>>,
    modified: i64,
) -> PostView {
    PostView {
        title: spec_title(fields, spec_slug(fields, stem)),
        slug: Some(spec_slug(fields, stem)),
        content: Some(html),
        categories,
        tags: spec_tag_list(fields),
        date: spec_day(fields),
        year: spec_part_of_day(fields, 4, "year"@),
        year_month: spec_part_of_day(fields, 7, "year_month"@),
        modified_epoch: Some(spec_modified(fields, modified)),
    }
}

/// The post of the document at `path` in the source tree at `md_dir`, with
/// the front matter `doc` and the body `body`.
pub open spec fn spec_post_of(
    doc: serde_yaml::Value,
    body: Seq<char>,
    path: Seq<char>,
    md_dir: Seq<char>,
    modified: i64,
) -> PostView {
    spec_post(
        yaml_fields(doc),
        markdown_html(body, MARKDOWN_OPTIONS),
        spec_file_stem(path),
        spec_categories_from_path(path, md_dir),
        modified,
    )
}

/// What becomes of the document `content` at `path` in the source tree at
/// `md_dir`: no post where it has no front matter, the post that its front
/// matter and its body give, or the text of the error where its front matter
/// is no YAML.
pub open spec fn spec_parse_post(
    content: Seq<char>,
    path: Seq<char>,
    md_dir: Seq<char>,
    modified: i64,
) -> Result<Option<PostView>, Seq<char>> {
    match spec_split_front_matter(content) {
        None => Ok(None),
        Some((front, body)) => match yaml_document(front) {
            Ok(fields) => Ok(
                Some(
                    spec_post(
                        fields,
                        markdown_html(body, MARKDOWN_OPTIONS),
                        spec_file_stem(path),
                        spec_categories_from_path(path, md_dir),
                        modified,
                    ),
                ),
            ),
            Err(message) => Err("解析front matter失败 \""@ + path + "\": "@ + message),
        },
    }
}

/// What becomes of a file of the source tree: nothing where it is no
/// Markdown document or has no front matter, else its post or the text of
/// its error.
pub open spec fn spec_outcome(file: SourceFile, md_dir: Seq<char>) -> Option<
    Result<PostView, Seq<char>>,
> {
    if !spec_is_markdown(file.path@) {
        None
    } else {
        match spec_parse_post(file.content@, file.path@, md_dir, file.modified) {
            Ok(None) => None,
            Ok(Some(post)) => Some(Ok(post)),
            Err(text) => Some(Err(text)),
        }
    }
}

/// The posts of the files `files`, in the order of the files.
pub open spec fn spec_parsed(files: Seq<SourceFile>, md_dir: Seq<char>) -> Seq<PostView>
    decreases files.len(),
{
    if files.len() == 0 {
        Seq::empty()
    } else {
        match spec_outcome(files.last(), md_dir) {
            Some(Ok(post)) => spec_parsed(files.drop_last(), md_dir).push(post),
            _ => spec_parsed(files.drop_last(), md_dir),
        }
    }
}

/// The texts of the errors of the files `files`, in the order of the files.
pub open spec fn spec_rejected(files: Seq<SourceFile>, md_dir: Seq<char>) -> Seq<Seq<char>>
    decreases files.len(),
{
    if files.len() == 0 {
        Seq::empty()
    } else {
        match spec_outcome(files.last(), md_dir) {
            Some(Err(text)) => spec_rejected(files.drop_last(), md_dir).push(text),
            _ => spec_rejected(files.drop_last(), md_dir),
        }
    }
}

/// Whether `errors` are the errors of documents whose front matter is no
/// YAML, with the texts `texts`.
pub open spec fn are_rejections(errors: Seq<Error>, texts: Seq<Seq<char>>) -> bool {
    &&& errors.len() == texts.len()
    &&& forall|i: int|
        0 <= i < errors.len() ==> (#[trigger] errors[i] matches Error::Markdown(text) && text@
            == texts[i])
}

fn text_of(field: Field) -> (text: Option<String>)
    ensures
        crate::post::opt_text(text) == spec_text(field@),
{
    match field {
        Field::Text(t) => Some(t),
        _ => None,
    }
}

fn strings(items: Vec<Option<String>>) -> (list: Vec<String>)
    ensures
        texts(list@) == spec_strings(Seq::new(items@.len(), |i: int| crate::post::opt_text(items@[i]))),
{
    let ghost all = Seq::new(items@.len(), |i: int| crate::post::opt_text(items@[i]));
    let mut list: Vec<String> = Vec::new();
    let mut i: usize = 0;
    assert(texts(list@) =~= spec_strings(all.take(0)));
    while i < items.len()
        invariant
            i <= items.len(),
            all == Seq::new(items@.len(), |i: int| crate::post::opt_text(items@[i])),
            texts(list@) == spec_strings(all.take(i as int)),
        decreases items.len() - i,
    {
        proof {
            let next = all.take(i + 1);
            assert(next.drop_last() =~= all.take(i as int));
            assert(next.last() == crate::post::opt_text(items@[i as int]));
        }
        match &items[i] {
            Some(s) => {
                proof {
                    assert(texts(list@.push(*s)) =~= texts(list@).push(s@));
                }
                list.push(s.clone());
            },
            None => {},
        }
        i += 1;
    }
    assert(all.take(items.len() as int) =~= all);
    list
}

fn part_of_day(doc: &serde_yaml::Value, n: usize, key: &str) -> (part: Option<String>)
    ensures
        crate::post::opt_text(part) == spec_part_of_day(yaml_fields(*doc), n as nat, key@),
{
    match yaml_get(doc, "createTime") {
        Field::Text(c) => {
            let length = chars_of(c.as_str()).len();
            if length >= 7 {
                Some(first_chars(c.as_str(), n))
            } else {
                text_of(yaml_get(doc, key))
            }
        },
        _ => text_of(yaml_get(doc, key)),
    }
}

impl PostParser {
    /// The HTML of a Markdown text, with tables, footnotes, strikethrough
    /// and task lists switched on.
    pub fn markdown_to_html(markdown: &str) -> (html: String)
        ensures
            html@ == markdown_html(markdown@, MARKDOWN_OPTIONS),
    {
        render_markdown(markdown, MARKDOWN_OPTIONS)
    }

    /// The category path of the document at `path` in the source tree at
    /// `md_dir`: the directories between the two.
    pub fn extract_categories_from_path(path: &str, md_dir: &str) -> (categories: Vec<String>)
        ensures
            texts(categories@) == spec_categories_from_path(path@, md_dir@),
    {
        categories_from_path(path, md_dir)
    }

    /// The post of the document at `path` in the source tree at `md_dir`,
    /// with the front matter `doc` and the body `body`, last modified at
    /// `modified` where the front matter does not say when.
    pub fn assemble(
        doc: &serde_yaml::Value,
        body: &str,
        path: &str,
        md_dir: &str,
        modified: i64,
    ) -> (post: Post)
        ensures
            post@ == spec_post_of(*doc, body@, path@, md_dir@, modified),
    {
        let stem = file_stem(path);
        let slug = match yaml_get(doc, "slug") {
            Field::Text(s) => {
                if chars_of(s.as_str()).len() > 0 {
                    s
                } else {
                    stem
                }
            },
            _ => stem,
        };
        let title = match yaml_get(doc, "title") {
            Field::Absent => Some(slug.clone()),
            Field::Text(t) => Some(t),
            _ => None,
        };
        let tags = match yaml_get(doc, "tags") {
            Field::List(items) => strings(items),
            _ => {
                let none: Vec<String> = Vec::new();
                assert(texts(none@) =~= Seq::<Seq<char>>::empty());
                none
            },
        };
        let date = match yaml_get(doc, "createTime") {
            Field::Text(c) => Some(first_chars(c.as_str(), 10)),
            _ => text_of(yaml_get(doc, "date_ymd")),
        };
        let modified_epoch = match yaml_get(doc, "modified_epoch") {
            Field::Number(n) => n,
            _ => modified,
        };
        Post {
            title,
            slug: Some(slug),
            content: Some(PostParser::markdown_to_html(body)),
            categories: categories_from_path(path, md_dir),
            tags,
            date,
            year: part_of_day(doc, 4, "year"),
            year_month: part_of_day(doc, 7, "year_month"),
            modified_epoch: Some(modified_epoch),
        }
    }

    /// The post of the document `content` at `path` in the source tree at
    /// `md_dir`, together with its front matter as the parser gave it. A
    /// document without front matter is no post; a document whose front
    /// matter is no YAML is an error.
    pub fn parse_document(content: &str, path: &str, md_dir: &str, modified: i64) -> (r: Result<
        Option<(Post, serde_yaml::Value)>,
        Error,
    >)
        ensures
            match spec_parse_post(content@, path@, md_dir@, modified) {
                Ok(None) => r matches Ok(None),
                Ok(Some(view)) => r matches Ok(Some((post, doc))) && post@ == view && spec_post_of(
                    doc,
                    spec_body(content@),
                    path@,
                    md_dir@,
                    modified,
                ) == view,
                Err(text) => r matches Err(Error::Markdown(message)) && message@ == text,
            },
    {
        let (front, body) = match split_front_matter(content) {
            Some(parts) => parts,
            None => {
                return Ok(None);
            },
        };
        match yaml_parse(front.as_str()) {
            Ok(doc) => {
                let post = PostParser::assemble(&doc, body.as_str(), path, md_dir, modified);
                Ok(Some((post, doc)))
            },
            Err(message) => {
                let mut text = String::from_str("解析front matter失败 \"");
                text.append(path);
                text.append("\": ");
                text.append(message.as_str());
                Err(Error::Markdown(text))
            },
        }
    }

    /// The post of the document `content` at `path` in the source tree at
    /// `md_dir`. A document without front matter is no post; a document
    /// whose front matter is no YAML is an error.
    pub fn parse_post(content: &str, path: &str, md_dir: &str, modified: i64) -> (r: Result<
        Option<Post>,
        Error,
    >)
        ensures
            match spec_parse_post(content@, path@, md_dir@, modified) {
                Ok(None) => r matches Ok(None),
                Ok(Some(view)) => r matches Ok(Some(post)) && post@ == view,
                Err(text) => r matches Err(Error::Markdown(message)) && message@ == text,
            },
    {
        match PostParser::parse_document(content, path, md_dir, modified) {
            Ok(Some((post, _))) => Ok(Some(post)),
            Ok(None) => Ok(None),
            Err(e) => Err(e),
        }
    }

    /// The posts of the documents `files` of the source tree at `md_dir`,
    /// newest first, posts of one date in the order of `files`; and one
    /// error for each Markdown document that was left out because its front
    /// matter is no YAML, in the order of `files`. Files that are no
    /// Markdown documents and documents without front matter are left out
    /// silently.
    pub fn list_posts(files: &Vec<SourceFile>, md_dir: &str) -> (r: (Vec<Post>, Vec<Error>))
        ensures
            is_newest_first(post_views(r.0@)),
            exists|source: Seq<int>|
                is_newest_first_of(spec_parsed(files@, md_dir@), post_views(r.0@), source),
            r.0.len() == spec_parsed(files@, md_dir@).len(),
            are_rejections(r.1@, spec_rejected(files@, md_dir@)),
    {
        let mut posts: Vec<Post> = Vec::new();
        let mut warnings: Vec<Error> = Vec::new();
        let mut i: usize = 0;
        assert(post_views(posts@) =~= spec_parsed(files@.take(0), md_dir@));
        while i < files.len()
            invariant
                i <= files.len(),
                post_views(posts@) == spec_parsed(files@.take(i as int), md_dir@),
                are_rejections(warnings@, spec_rejected(files@.take(i as int), md_dir@)),
            decreases files.len() - i,
        {
            let file = &files[i];
            proof {
                let next = files@.take(i + 1);
                assert(next.drop_last() =~= files@.take(i as int));
                assert(next.last() == files@[i as int]);
            }
            if is_markdown(file.path.as_str()) {
                match PostParser::parse_post(
                    file.content.as_str(),
                    file.path.as_str(),
                    md_dir,
                    file.modified,
                ) {
                    Ok(Some(post)) => {
                        proof {
                            assert(post_views(posts@.push(post)) =~= post_views(posts@).push(
                                post@,
                            ));
                        }
                        posts.push(post);
                    },
                    Ok(None) => {},
                    Err(e) => {
                        warnings.push(e);
                    },
                }
            }
            i += 1;
        }
        assert(files@.take(files.len() as int) =~= files@);
        let ghost parsed = post_views(posts@);
        let sorted = sort_posts(posts);
        let ghost listed = post_views(sorted@);
        assert(exists|source: Seq<int>| is_newest_first_of(parsed, listed, source));
        assert(listed.len() == parsed.len());
        let r = (sorted, warnings);
        assert(post_views(r.0@) == listed);
        r
    }
}

} // verus!
