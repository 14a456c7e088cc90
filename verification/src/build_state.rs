//! The build-state file of a project: when the project was last built, how
//! it wants to be built, and the sidebar, which is worked out once and then
//! left to its editor. The file is shared with that editor, so nothing but
//! the entry that a function names is ever touched.

use std::fmt::Write;
use vstd::prelude::*;
use crate::error::Error;
use crate::field::{entries_of, spec_lookup, Field, FieldView, Tree};
use crate::post::{post_views, Post};
use crate::sidebar::{HotPost, Sidebar};
use crate::store::{
    table_get, table_insert, table_new, table_remove, toml_document, toml_parse, toml_render,
    toml_text, toml_tree, toml_trees, trees_of, value_array, value_number, value_table,
    value_text,
};
use crate::text::texts;
use crate::taxonomy::NameCount;
use crate::utils::{build_mode_of, spec_read_build_mode, BuildMode, ModeSetting};

verus! {

/// The form in which the time of a build is kept.
pub open spec fn spec_stamp_format() -> Seq<char> {
    "%Y-%m-%d %H:%M:%S"@
}

/// The form in which the time of a build is kept.
pub fn stamp_format() -> (format: &'static str)
    ensures
        format@ == spec_stamp_format(),
{
    "%Y-%m-%d %H:%M:%S"
}

/// `chrono::NaiveDateTime::and_local_timezone` with `chrono::Local`, `single`
/// and `timestamp`, on the date and time that `chrono::DateTime::from_timestamp`
/// makes of `seconds`: the seconds since the epoch at which the local clock
/// showed that date and time; `None` where it never did or did so twice.
/// The result depends on the time zone of the machine, so nothing is claimed
/// of it.
#[verifier::external_body]
fn local_epoch(seconds: i64) -> (epoch: Option<i64>) {
    let naive = chrono::DateTime::from_timestamp(seconds, 0)?.naive_utc();
    naive.and_local_timezone(chrono::Local).single().map(|moment| moment.timestamp())
}

/// `chrono::Local::now` and `format`: what the local clock shows, written in
/// the form `format`; `None` where `format` is no form. Nothing is claimed
/// of the text.
#[verifier::external_body]
fn local_now(format: &str) -> (stamp: Option<String>) {
    let mut stamp = String::new();
    write!(stamp, "{}", chrono::Local::now().format(format)).ok().map(|_| stamp)
}

/// What the local clock shows, in the form in which the time of a build is
/// kept.
pub fn now_stamp() -> (stamp: Option<String>) {
    local_now(stamp_format())
}

/// The moment of the last build in seconds since the epoch, and 0 where the
/// kept time names none: then every post counts as changed.
pub fn epoch_or_zero(seconds: Option<i64>) -> (epoch: i64)
    ensures
        epoch == (match seconds {
            Some(s) => s,
            None => 0,
        }),
{
    match seconds {
        Some(s) => s,
        None => 0,
    }
}

/// The date and time that `stamp` names when it is read in the form
/// `format`, as the seconds that a clock in UTC counts from the epoch to it;
/// `None` for a text that is not of that form.
pub uninterp spec fn stamp_seconds(stamp: Seq<char>, format: Seq<char>) -> Option<i64>;

/// `chrono::NaiveDateTime::parse_from_str`, with `and_utc` and `timestamp`
/// to hand the date and time on as a number: the date and time that `stamp`
/// names in the form `format`, and `None` where it is not of that form.
#[verifier::external_body]
fn parse_stamp(stamp: &str, format: &str) -> (seconds: Option<i64>)
    ensures
        seconds == stamp_seconds(stamp@, format@),
{
    chrono::NaiveDateTime::parse_from_str(stamp, format).ok().map(|t| t.and_utc().timestamp())
}

/// The build-state file, as the table of its entries.
pub struct BuildFile {
    table: toml::map::Map<String, toml::Value>,
}

/// The text under a field, where it is one.
pub open spec fn spec_text_of(field: FieldView) -> Option<Seq<char>> {
    match field {
        FieldView::Text(t) => Some(t),
        _ => None,
    }
}

/// The truth value under a field, where it is one.
pub open spec fn spec_flag_of(field: FieldView) -> Option<bool> {
    match field {
        FieldView::Flag(b) => Some(b),
        _ => None,
    }
}

/// The mode setting that a field stands for.
pub open spec fn spec_mode_of(field: Field) -> ModeSetting {
    match field {
        Field::Absent => ModeSetting::Absent,
        Field::Text(w) => ModeSetting::Word(w),
        Field::Flag(b) => ModeSetting::Flag(b),
        _ => ModeSetting::Other,
    }
}

fn mode_of(field: Field) -> (mode: ModeSetting)
    ensures
        mode == spec_mode_of(field),
{
    match field {
        Field::Absent => ModeSetting::Absent,
        Field::Text(w) => ModeSetting::Word(w),
        Field::Flag(b) => ModeSetting::Flag(b),
        _ => ModeSetting::Other,
    }
}

/// A count as the integer that a document holds: the count itself, and the
/// largest integer where the count is larger.
pub open spec fn spec_count_number(count: usize) -> i64 {
    if count <= i64::MAX {
        count as i64
    } else {
        i64::MAX
    }
}

/// A list of texts as a value.
pub open spec fn spec_texts_tree(list: Seq<Seq<char>>) -> Tree {
    Tree::List(Seq::new(list.len(), |i: int| Tree::Text(list[i])))
}

/// `table` with `text` under `key`, where there is a text.
pub open spec fn spec_with_text(
    table: Map<Seq<char>, Tree>,
    key: Seq<char>,
    text: Option<String>,
) -> Map<Seq<char>, Tree> {
    match text {
        Some(t) => table.insert(key, Tree::Text(t@)),
        None => table,
    }
}

/// A post of the sidebar as a table: `slug`, `title` and `date_ymd` where
/// it has them, and `categories` where its category path is not empty.
pub open spec fn spec_hot_post_tree(post: HotPost) -> Tree {
    let named = spec_with_text(
        spec_with_text(
            spec_with_text(Map::empty(), "slug"@, post.slug),
            "title"@,
            post.title,
        ),
        "date_ymd"@,
        post.date_ymd,
    );
    Tree::Table(
        if post.categories.len() > 0 {
            named.insert("categories"@, spec_texts_tree(texts(post.categories@)))
        } else {
            named
        },
    )
}

/// A name with its count as a table of `name` and `count`.
pub open spec fn spec_name_count_tree(entry: NameCount) -> Tree {
    Tree::Table(
        Map::empty().insert("name"@, Tree::Text(entry.name@)).insert(
            "count"@,
            Tree::Number(spec_count_number(entry.count)),
        ),
    )
}

/// A list of names with their counts as a value.
pub open spec fn spec_counts_tree(counts: Seq<NameCount>) -> Tree {
    Tree::List(Seq::new(counts.len(), |i: int| spec_name_count_tree(counts[i])))
}

/// The sidebar as a table of three lists: `hot_posts`, `hot_tags` and
/// `hot_categories`, each in the order of the sidebar.
pub open spec fn spec_sidebar_tree(sidebar: Sidebar) -> Tree {
    Tree::Table(
        Map::empty().insert(
            "hot_posts"@,
            Tree::List(
                Seq::new(
                    sidebar.hot_posts@.len(),
                    |i: int| spec_hot_post_tree(sidebar.hot_posts@[i]),
                ),
            ),
        ).insert("hot_tags"@, spec_counts_tree(sidebar.hot_tags@)).insert(
            "hot_categories"@,
            spec_counts_tree(sidebar.hot_categories@),
        ),
    )
}

fn empty_table() -> (table: toml::map::Map<String, toml::Value>)
    ensures
        toml_trees(table) == Map::<Seq<char>, Tree>::empty(),
{
    let table = table_new();
    assert(toml_trees(table) =~= Map::<Seq<char>, Tree>::empty());
    table
}

fn count_value(count: usize) -> (value: toml::Value)
    ensures
        toml_tree(value) == Tree::Number(spec_count_number(count)),
{
    if count as u64 <= i64::MAX as u64 {
        value_number(count as i64)
    } else {
        value_number(i64::MAX)
    }
}

fn texts_value(list: &Vec<String>) -> (value: toml::Value)
    ensures
        toml_tree(value) == spec_texts_tree(texts(list@)),
{
    let mut items: Vec<toml::Value> = Vec::new();
    let mut i: usize = 0;
    while i < list.len()
        invariant
            i <= list.len(),
            items.len() == i,
            forall|j: int| 0 <= j < i ==> toml_tree(#[trigger] items@[j]) == Tree::Text(list@[j]@),
        decreases list.len() - i,
    {
        items.push(value_text(list[i].as_str()));
        i += 1;
    }
    assert(trees_of(items@) =~= Seq::new(
        texts(list@).len(),
        |i: int| Tree::Text(texts(list@)[i]),
    ));
    value_array(items)
}

fn insert_text(table: &mut toml::map::Map<String, toml::Value>, key: &str, text: &Option<String>)
    ensures
        toml_trees(*final(table)) == spec_with_text(toml_trees(*old(table)), key@, *text),
{
    match text {
        Some(t) => {
            table_insert(table, key, value_text(t.as_str()));
        },
        None => {},
    }
}

/// A post of the sidebar as a table: its slug, its title and its date where
/// it has them, and its category path where that is not empty.
pub fn hot_post_value(post: &HotPost) -> (value: toml::Value)
    ensures
        toml_tree(value) == spec_hot_post_tree(*post),
{
    let mut item = empty_table();
    insert_text(&mut item, "slug", &post.slug);
    insert_text(&mut item, "title", &post.title);
    insert_text(&mut item, "date_ymd", &post.date_ymd);
    if post.categories.len() > 0 {
        table_insert(&mut item, "categories", texts_value(&post.categories));
    }
    value_table(item)
}

/// A name with its count as a table.
pub fn name_count_value(entry: &NameCount) -> (value: toml::Value)
    ensures
        toml_tree(value) == spec_name_count_tree(*entry),
{
    let mut item = empty_table();
    table_insert(&mut item, "name", value_text(entry.name.as_str()));
    table_insert(&mut item, "count", count_value(entry.count));
    value_table(item)
}

fn counts_value(counts: &Vec<NameCount>) -> (value: toml::Value)
    ensures
        toml_tree(value) == spec_counts_tree(counts@),
{
    let mut items: Vec<toml::Value> = Vec::new();
    let mut i: usize = 0;
    while i < counts.len()
        invariant
            i <= counts.len(),
            items.len() == i,
            forall|j: int|
                0 <= j < i ==> toml_tree(#[trigger] items@[j]) == spec_name_count_tree(counts@[j]),
        decreases counts.len() - i,
    {
        items.push(name_count_value(&counts[i]));
        i += 1;
    }
    assert(trees_of(items@) =~= Seq::new(
        counts@.len(),
        |i: int| spec_name_count_tree(counts@[i]),
    ));
    value_array(items)
}

/// The sidebar as a table of three lists: `hot_posts`, `hot_tags` and
/// `hot_categories`.
pub fn sidebar_value(sidebar: &Sidebar) -> (value: toml::Value)
    ensures
        toml_tree(value) == spec_sidebar_tree(*sidebar),
{
    let mut posts: Vec<toml::Value> = Vec::new();
    let mut i: usize = 0;
    while i < sidebar.hot_posts.len()
        invariant
            i <= sidebar.hot_posts.len(),
            posts.len() == i,
            forall|j: int|
                0 <= j < i ==> toml_tree(#[trigger] posts@[j]) == spec_hot_post_tree(
                    sidebar.hot_posts@[j],
                ),
        decreases sidebar.hot_posts.len() - i,
    {
        posts.push(hot_post_value(&sidebar.hot_posts[i]));
        i += 1;
    }
    assert(trees_of(posts@) =~= Seq::new(
        sidebar.hot_posts@.len(),
        |i: int| spec_hot_post_tree(sidebar.hot_posts@[i]),
    ));
    let mut table = empty_table();
    table_insert(&mut table, "hot_posts", value_array(posts));
    table_insert(&mut table, "hot_tags", counts_value(&sidebar.hot_tags));
    table_insert(&mut table, "hot_categories", counts_value(&sidebar.hot_categories));
    value_table(table)
}

impl BuildFile {
    /// What the file holds: each key with its value and everything in it.
    pub closed spec fn trees(self) -> Map<Seq<char>, Tree> {
        toml_trees(self.table)
    }

    /// The entries of the file: each key with what its value is, without
    /// what is in a list or a table.
    pub open spec fn entries(self) -> Map<Seq<char>, FieldView> {
        entries_of(self.trees())
    }

    /// The TOML document that the serializer writes for the file, or its
    /// message where it writes none.
    pub closed spec fn document(self) -> Result<Seq<char>, Seq<char>> {
        toml_text(self.table)
    }

    /// The mode that the file asks for: `compile_mode` decides where the
    /// file has that key, else `build_mode`, and `incremental` where neither
    /// is a word or a truth value.
    pub open spec fn spec_mode(self, compile_mode: Field, build_mode: Field) -> BuildMode {
        spec_read_build_mode(
            if compile_mode is Absent {
                spec_mode_of(build_mode)
            } else {
                spec_mode_of(compile_mode)
            },
            spec_flag_of(spec_lookup(self.entries(), "incremental"@)),
        )
    }

    /// A file without entries.
    pub fn new() -> (file: BuildFile)
        ensures
            file.trees() == Map::<Seq<char>, Tree>::empty(),
    {
        BuildFile { table: empty_table() }
    }

    /// The file of the text `text`: the entries of the TOML document that the
    /// text is, and a file without entries where the text is none.
    pub fn load(text: &str) -> (file: BuildFile)
        ensures
            match toml_document(text@) {
                Ok(document) => file.trees() == document,
                Err(_) => file.trees() == Map::<Seq<char>, Tree>::empty(),
            },
    {
        match toml_parse(text) {
            Ok(table) => BuildFile { table },
            Err(_) => BuildFile::new(),
        }
    }

    /// The file as a TOML document, or the error with the serializer's
    /// message where it cannot be written as one.
    pub fn save(&self) -> (text: Result<String, Error>)
        ensures
            match text {
                Ok(document) => self.document() == Ok::<Seq<char>, Seq<char>>(document@),
                Err(e) => e matches Error::Other(message) && self.document() == Err::<
                    Seq<char>,
                    Seq<char>,
                >(message@),
            },
    {
        match toml_render(&self.table) {
            Ok(text) => Ok(text),
            Err(message) => Err(Error::Other(message)),
        }
    }

    /// What the file holds under `key`.
    pub fn get(&self, key: &str) -> (field: Field)
        ensures
            field@ == spec_lookup(self.entries(), key@),
    {
        table_get(&self.table, key)
    }

    /// When the last build ended, as the file tells it.
    pub fn last_build_time(&self) -> (stamp: Option<String>)
        ensures
            crate::post::opt_text(stamp) == spec_text_of(
                spec_lookup(self.entries(), "last_build_time"@),
            ),
    {
        match table_get(&self.table, "last_build_time") {
            Field::Text(t) => Some(t),
            _ => None,
        }
    }

    /// The date and time of the last build as the file tells it, in the
    /// seconds that a clock in UTC counts from the epoch to it; `None` where
    /// the file tells no time or one that is not of the form in which the
    /// time of a build is kept.
    pub fn last_build_seconds(&self) -> (seconds: Option<i64>)
        ensures
            seconds == (match spec_text_of(spec_lookup(self.entries(), "last_build_time"@)) {
                Some(stamp) => stamp_seconds(stamp, spec_stamp_format()),
                None => None,
            }),
    {
        match self.last_build_time() {
            Some(stamp) => parse_stamp(stamp.as_str(), stamp_format()),
            None => None,
        }
    }

    /// The moment of the last build in seconds since the epoch: the moment
    /// at which the local clock showed the date and time that the file
    /// tells; 0 where the file tells no time, or one that is not of the form
    /// in which the time of a build is kept, or one that the local clock
    /// never showed.
    pub fn last_build_epoch(&self) -> (epoch: i64)
        ensures
            match spec_text_of(spec_lookup(self.entries(), "last_build_time"@)) {
                Some(stamp) => stamp_seconds(stamp, spec_stamp_format()) is None ==> epoch == 0,
                None => epoch == 0,
            },
    {
        match self.last_build_seconds() {
            Some(seconds) => epoch_or_zero(local_epoch(seconds)),
            None => 0,
        }
    }

    /// Whether the file holds a sidebar.
    pub fn has_sidebar(&self) -> (has: bool)
        ensures
            has == self.entries().contains_key("sidebar"@),
    {
        match table_get(&self.table, "sidebar") {
            Field::Absent => false,
            _ => true,
        }
    }
}

/// Works out the sidebar of `posts` and puts it into the file, where the
/// file has none; a file that has one stays as it is. Gives the sidebar that
/// it put there.
pub fn ensure_sidebar_data(file: &mut BuildFile, posts: &Vec<Post>) -> (made: Option<Sidebar>)
    ensures
        made is None <==> old(file).trees().contains_key("sidebar"@),
        made is None ==> final(file).trees() == old(file).trees(),
        made matches Some(sidebar) ==> sidebar.is_for(post_views(posts@)) && final(file).trees()
            == old(file).trees().insert("sidebar"@, spec_sidebar_tree(sidebar)),
{
    if file.has_sidebar() {
        None
    } else {
        let sidebar = Sidebar::of(posts);
        table_insert(&mut file.table, "sidebar", sidebar_value(&sidebar));
        Some(sidebar)
    }
}

/// Works out the sidebar of `posts` and puts it into the file, in place of
/// the one that the file may have. Every other entry of the file stays as it
/// is.
pub fn regenerate_sidebar(file: &mut BuildFile, posts: &Vec<Post>) -> (sidebar: Sidebar)
    ensures
        sidebar.is_for(post_views(posts@)),
        final(file).trees() == old(file).trees().insert("sidebar"@, spec_sidebar_tree(sidebar)),
{
    table_remove(&mut file.table, "sidebar");
    let sidebar = Sidebar::of(posts);
    table_insert(&mut file.table, "sidebar", sidebar_value(&sidebar));
    assert(file.trees() =~= old(file).trees().insert("sidebar"@, spec_sidebar_tree(sidebar)));
    sidebar
}

/// Records in the file that a build ended at `now`. Every other entry of the
/// file stays as it is.
pub fn log_build_info(file: &mut BuildFile, now: &str)
    ensures
        final(file).trees() == old(file).trees().insert("last_build_time"@, Tree::Text(now@)),
{
    table_insert(&mut file.table, "last_build_time", value_text(now));
}

/// The build mode that the file asks for.
pub fn read_build_mode(file: &BuildFile) -> (mode: BuildMode)
    ensures
        exists|compile_mode: Field, build_mode: Field|
            compile_mode@ == spec_lookup(file.entries(), "compile_mode"@) && build_mode@
                == spec_lookup(file.entries(), "build_mode"@) && mode == file.spec_mode(
                compile_mode,
                build_mode,
            ),
{
    let compile_mode = table_get(&file.table, "compile_mode");
    let build_mode = table_get(&file.table, "build_mode");
    let ghost first = compile_mode;
    let ghost second = build_mode;
    let setting = match compile_mode {
        Field::Absent => mode_of(build_mode),
        other => mode_of(other),
    };
    let incremental = match table_get(&file.table, "incremental") {
        Field::Flag(b) => Some(b),
        _ => None,
    };
    let mode = build_mode_of(&setting, incremental);
    assert(first@ == spec_lookup(file.entries(), "compile_mode"@) && second@ == spec_lookup(
        file.entries(),
        "build_mode"@,
    ) && mode == file.spec_mode(first, second));
    mode
}

} // verus!
