//! The configuration of a site.

use vstd::prelude::*;
use vstd::string::StringExecFns;
use crate::error::Error;
use crate::field::{has_nested, spec_lookup_in, Field, FieldView, Tree};
use crate::generator::Settings;
use crate::store::{
    table_get, table_new, table_section, table_value, toml_document, toml_nested, toml_parse,
    toml_tree, toml_trees, value_table,
};

verus! {

/// Posts on a page of the home feed where the configuration names no size.
pub const DEFAULT_HOME_PAGE_SIZE: usize = 10;

/// Posts on a page of any other feed where the configuration names no size.
pub const DEFAULT_PAGE_SIZE: usize = 8;

/// The configuration of a site, as the table of its document.
pub struct Config {
    /// The entries of the document.
    pub data: toml::map::Map<String, toml::Value>,
}

/// The page size that a field names: an integer of at least one; no more
/// than the largest size that can be counted.
pub open spec fn spec_size_of(field: FieldView) -> Option<usize> {
    match field {
        FieldView::Number(n) => if n < 1 {
            None
        } else if n > usize::MAX {
            Some(usize::MAX)
        } else {
            Some(n as usize)
        },
        _ => None,
    }
}

/// The text of a field that is a string, else `default`.
pub open spec fn spec_text_or(field: FieldView, default: Seq<char>) -> Seq<char> {
    match field {
        FieldView::Text(t) => t,
        _ => default,
    }
}

/// The truth value of a field that is one, else `default`.
pub open spec fn spec_flag_or(field: FieldView, default: bool) -> bool {
    match field {
        FieldView::Flag(b) => b,
        _ => default,
    }
}

fn size_of(field: &Field) -> (size: Option<usize>)
    ensures
        size == spec_size_of(field@),
{
    match field {
        Field::Number(n) => {
            if *n < 1 {
                None
            } else if *n as u64 > usize::MAX as u64 {
                Some(usize::MAX)
            } else {
                Some(*n as usize)
            }
        },
        _ => None,
    }
}

fn text_or(field: Field, default: &str) -> (text: String)
    ensures
        text@ == spec_text_or(field@, default@),
{
    match field {
        Field::Text(t) => t,
        _ => String::from_str(default),
    }
}

fn flag_or(field: &Field, default: bool) -> (flag: bool)
    ensures
        flag == spec_flag_or(field@, default),
{
    match field {
        Field::Flag(b) => *b,
        _ => default,
    }
}

impl Config {
    /// What the configuration holds: each key with its value.
    pub open spec fn trees(self) -> Map<Seq<char>, Tree> {
        toml_trees(self.data)
    }

    /// What the configuration holds under `key` of the table `section`.
    pub open spec fn at(self, section: Seq<char>, key: Seq<char>) -> FieldView {
        spec_lookup_in(toml_nested(self.data), section, key)
    }

    /// The size of the pages of the home feed: `homepage.posts_per_page`,
    /// and 10 where that names none.
    pub open spec fn spec_home_page_size(self) -> usize {
        match spec_size_of(self.at("homepage"@, "posts_per_page"@)) {
            Some(n) => n,
            None => DEFAULT_HOME_PAGE_SIZE,
        }
    }

    /// The size of the pages of the feeds of `section`: its own
    /// `posts_per_page`, else that of the home feed, else 8.
    pub open spec fn spec_page_size(self, section: Seq<char>) -> usize {
        match spec_size_of(self.at(section, "posts_per_page"@)) {
            Some(n) => n,
            None => match spec_size_of(self.at("homepage"@, "posts_per_page"@)) {
                Some(n) => n,
                None => DEFAULT_PAGE_SIZE,
            },
        }
    }

    /// The address of the site: `site.domain`, else `site.base_url`, else
    /// empty.
    pub open spec fn spec_base_url(self) -> Seq<char> {
        spec_text_or(
            self.at("site"@, "domain"@),
            spec_text_or(self.at("site"@, "base_url"@), Seq::empty()),
        )
    }

    /// Whether `settings` is what the configuration tells the generator.
    pub open spec fn tells(self, settings: Settings) -> bool {
        &&& settings.home_page_size == self.spec_home_page_size()
        &&& settings.tag_page_size == self.spec_page_size("tags"@)
        &&& settings.category_page_size == self.spec_page_size("categories"@)
        &&& settings.rss == spec_flag_or(self.at("features"@, "rss"@), true)
        &&& settings.sitemap == spec_flag_or(self.at("features"@, "sitemap"@), true)
        &&& settings.site_name@ == spec_text_or(self.at("site"@, "name"@), "RustPress Blog"@)
        &&& settings.site_description@ == spec_text_or(
            self.at("site"@, "description"@),
            "A RustPress site"@,
        )
        &&& settings.base_url@ == self.spec_base_url()
    }

    /// A configuration without entries, under which every setting has its
    /// default.
    pub fn new() -> (config: Config)
        ensures
            forall|section: Seq<char>, key: Seq<char>|
                config.at(section, key) == FieldView::Absent,
    {
        Config { data: table_new() }
    }

    /// The configuration that the text `content` holds; for a text that is
    /// no TOML document, a configuration without entries together with the
    /// error, so that a build goes on with the defaults.
    pub fn load(content: &str) -> (r: (Config, Option<Error>))
        ensures
            match toml_document(content@) {
                Ok(document) => r.1 is None && r.0.trees() == document,
                Err(message) => (r.1 matches Some(e) && is_format_error(e, message)) && forall|
                    section: Seq<char>,
                    key: Seq<char>,
                |
                    r.0.at(section, key) == FieldView::Absent,
            },
    {
        match Config::from_text(content) {
            Ok(config) => (config, None),
            Err(e) => (Config::new(), Some(e)),
        }
    }

    /// The configuration that the text `content` holds, or the error with
    /// the parser's message for a text that is no TOML document.
    pub fn from_text(content: &str) -> (r: Result<Config, Error>)
        ensures
            match toml_document(content@) {
                Ok(document) => r matches Ok(config) && config.trees() == document,
                Err(message) => r matches Err(e) && is_format_error(e, message),
            },
    {
        match toml_parse(content) {
            Ok(data) => Ok(Config { data }),
            Err(message) => {
                let mut text = String::from_str("配置文件格式错误: ");
                text.append(message.as_str());
                Err(Error::Config(text))
            },
        }
    }

    /// What the configuration holds under `key` of the table `section`.
    pub fn get(&self, section: &str, key: &str) -> (field: Field)
        ensures
            field@ == self.at(section@, key@),
    {
        match table_section(&self.data, section) {
            Some(inner) => table_get(inner, key),
            None => Field::Absent,
        }
    }

    /// The table `site`, and a table without entries where the
    /// configuration has none.
    pub fn site(&self) -> (site: toml::Value)
        ensures
            toml_tree(site) == (if self.trees().contains_key("site"@) {
                self.trees()["site"@]
            } else {
                Tree::Table(Map::empty())
            }),
    {
        match table_value(&self.data, "site") {
            Some(site) => site,
            None => {
                let empty = table_new();
                assert(toml_trees(empty) =~= Map::<Seq<char>, Tree>::empty());
                value_table(empty)
            },
        }
    }

    /// What the configuration holds under `taxonomies`.
    pub fn taxonomies(&self) -> (taxonomies: Option<toml::Value>)
        ensures
            match taxonomies {
                Some(value) => self.trees().contains_key("taxonomies"@) && toml_tree(value)
                    == self.trees()["taxonomies"@],
                None => !self.trees().contains_key("taxonomies"@),
            },
    {
        table_value(&self.data, "taxonomies")
    }

    /// What the configuration holds under `theme`.
    pub fn theme(&self) -> (theme: Option<toml::Value>)
        ensures
            match theme {
                Some(value) => self.trees().contains_key("theme"@) && toml_tree(value)
                    == self.trees()["theme"@],
                None => !self.trees().contains_key("theme"@),
            },
    {
        table_value(&self.data, "theme")
    }

    /// The name of the theme: `theme.name`, and `default` where that is no
    /// string.
    pub fn theme_name(&self) -> (name: String)
        ensures
            name@ == spec_text_or(self.at("theme"@, "name"@), "default"@),
    {
        text_or(self.get("theme", "name"), "default")
    }

    /// What the table `site` holds under `author`.
    pub fn author(&self) -> (author: Option<toml::Value>)
        ensures
            match author {
                Some(value) => has_nested(self.trees(), "site"@, "author"@) && toml_tree(value)
                    == self.trees()["site"@]->Table_0["author"@],
                None => !has_nested(self.trees(), "site"@, "author"@),
            },
    {
        self.value_in("site", "author")
    }

    /// What the table `site` holds under `social`.
    pub fn social(&self) -> (social: Option<toml::Value>)
        ensures
            match social {
                Some(value) => has_nested(self.trees(), "site"@, "social"@) && toml_tree(value)
                    == self.trees()["site"@]->Table_0["social"@],
                None => !has_nested(self.trees(), "site"@, "social"@),
            },
    {
        self.value_in("site", "social")
    }

    /// The value under `key` of the table `section`, where there is one.
    fn value_in(&self, section: &str, key: &str) -> (found: Option<toml::Value>)
        ensures
            match found {
                Some(value) => has_nested(self.trees(), section@, key@) && toml_tree(value)
                    == self.trees()[section@]->Table_0[key@],
                None => !has_nested(self.trees(), section@, key@),
            },
    {
        match table_section(&self.data, section) {
            Some(inner) => table_value(inner, key),
            None => None,
        }
    }

    /// What the configuration tells the generator. Page sizes below one
    /// count as not given, so every page size is at least one.
    pub fn settings(&self) -> (settings: Settings)
        ensures
            self.tells(settings),
            settings.is_valid(),
    {
        let home = size_of(&self.get("homepage", "posts_per_page"));
        let home_page_size = match home {
            Some(n) => n,
            None => DEFAULT_HOME_PAGE_SIZE,
        };
        let tag_page_size = match size_of(&self.get("tags", "posts_per_page")) {
            Some(n) => n,
            None => match home {
                Some(n) => n,
                None => DEFAULT_PAGE_SIZE,
            },
        };
        let category_page_size = match size_of(&self.get("categories", "posts_per_page")) {
            Some(n) => n,
            None => match home {
                Some(n) => n,
                None => DEFAULT_PAGE_SIZE,
            },
        };
        let base = text_or(self.get("site", "base_url"), "");
        proof {
            reveal_strlit("");
            assert(""@ =~= Seq::<char>::empty());
        }
        let base_url = text_or(self.get("site", "domain"), base.as_str());
        Settings {
            home_page_size,
            tag_page_size,
            category_page_size,
            rss: flag_or(&self.get("features", "rss"), true),
            sitemap: flag_or(&self.get("features", "sitemap"), true),
            site_name: text_or(self.get("site", "name"), "RustPress Blog"),
            site_description: text_or(self.get("site", "description"), "A RustPress site"),
            base_url,
        }
    }
}

/// Whether `error` is the error for a configuration that is no TOML
/// document, with the parser's message `message`.
pub open spec fn is_format_error(error: Error, message: Seq<char>) -> bool {
    error matches Error::Config(text) && text@ == "配置文件格式错误: "@ + message
}

} // verus!
