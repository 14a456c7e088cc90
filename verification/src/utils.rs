//! Paths of a project, the build mode, and plain text out of HTML.

use vstd::prelude::*;
use vstd::string::StringExecFns;
use crate::text::{
    chars_of, is_space, join, spec_is_space, spec_join, string_of, text_eq, texts,
};

verus! {

/// `name` below the directory `base`: the two joined by one slash, and
/// `name` alone where `base` is empty.
pub open spec fn spec_join_path(base: Seq<char>, name: Seq<char>) -> Seq<char> {
    if base.len() == 0 {
        name
    } else if base.last() == '/' {
        base + name
    } else {
        base + "/"@ + name
    }
}

/// `name` below the directory `base`.
pub fn join_path(base: &str, name: &str) -> (path: String)
    ensures
        path@ == spec_join_path(base@, name@),
{
    let b = chars_of(base);
    if b.len() == 0 {
        String::from_str(name)
    } else {
        let mut path = String::from_str(base);
        if b[b.len() - 1] != '/' {
            path.append("/");
        }
        path.append(name);
        path
    }
}

/// Where the files of a project are.
#[derive(Debug, Clone, PartialEq, Eq)]
pub struct RuntimePaths {
    /// The build-state file.
    pub build_toml_path: String,
    /// The directory of the theme.
    pub theme_dir: String,
    /// The templates of the theme.
    pub theme_templates_dir: String,
    /// The static files of the theme.
    pub theme_static_dir: String,
}

/// Which of the places that a project may keep its files in exist.
#[derive(Debug, Clone, Copy, PartialEq, Eq, Structural)]
pub struct Existing {
    /// `build.toml` in the source directory.
    pub source_build_toml: bool,
    /// The theme's directory under `themes/` at the project root.
    pub root_theme: bool,
    /// `public` in the theme's directory at the project root.
    pub root_theme_public: bool,
    /// The theme's directory under `themes/` in the source directory.
    pub source_theme: bool,
    /// `public` in the theme's directory in the source directory.
    pub source_theme_public: bool,
}

/// Collects what the paths of a project depend on.
#[derive(Debug, Default, Clone, PartialEq, Eq)]
pub struct RuntimePathsBuilder {
    md_dir: Option<String>,
    theme_name: Option<String>,
}

/// The source directory that a builder works with: `.` where none was given.
pub open spec fn spec_source_dir(md_dir: Option<String>) -> Seq<char> {
    match md_dir {
        Some(d) => d@,
        None => "."@,
    }
}

/// The theme that a builder works with: `default` where none was given.
pub open spec fn spec_theme(theme_name: Option<String>) -> Seq<char> {
    match theme_name {
        Some(t) => t@,
        None => "default"@,
    }
}

/// The theme's directory below `base`.
pub open spec fn spec_theme_dir(base: Seq<char>, theme: Seq<char>) -> Seq<char> {
    spec_join_path(spec_join_path(base, "themes"@), theme)
}

/// The static files of the theme at `theme_dir`: its `public` directory
/// where that exists, else its `static` directory.
pub open spec fn spec_static_dir(theme_dir: Seq<char>, public_exists: bool) -> Seq<char> {
    if public_exists {
        spec_join_path(theme_dir, "public"@)
    } else {
        spec_join_path(theme_dir, "static"@)
    }
}

fn root_theme_dir(theme: &str) -> (dir: String)
    ensures
        dir@ == spec_theme_dir(Seq::empty(), theme@),
{
    proof {
        reveal_strlit("");
        assert(""@ =~= Seq::<char>::empty());
    }
    theme_dir_below("", theme)
}

fn theme_dir_below(base: &str, theme: &str) -> (dir: String)
    ensures
        dir@ == spec_theme_dir(base@, theme@),
{
    let themes = join_path(base, "themes");
    join_path(themes.as_str(), theme)
}

fn static_dir_of(theme_dir: &str, public_exists: bool) -> (dir: String)
    ensures
        dir@ == spec_static_dir(theme_dir@, public_exists),
{
    if public_exists {
        join_path(theme_dir, "public")
    } else {
        join_path(theme_dir, "static")
    }
}

impl RuntimePathsBuilder {
    /// The source directory given, if any.
    pub closed spec fn source(self) -> Option<String> {
        self.md_dir
    }

    /// The theme given, if any.
    pub closed spec fn theme(self) -> Option<String> {
        self.theme_name
    }

    /// The theme's directory at the project root.
    pub open spec fn spec_root_theme_dir(self) -> Seq<char> {
        spec_theme_dir(Seq::empty(), spec_theme(self.theme()))
    }

    /// The theme's directory in the source directory.
    pub open spec fn spec_source_theme_dir(self) -> Seq<char> {
        spec_theme_dir(spec_source_dir(self.source()), spec_theme(self.theme()))
    }

    /// The paths that `build` gives when `found` tells what exists.
    pub open spec fn spec_build(self, found: Existing) -> (
        Seq<char>,
        Seq<char>,
        Seq<char>,
        Seq<char>,
    ) {
        let build_toml = spec_resolve_build_toml_path_read(
            spec_source_dir(self.source()),
            found.source_build_toml,
        );
        if found.root_theme || !found.source_theme {
            let dir = self.spec_root_theme_dir();
            (
                build_toml,
                dir,
                spec_join_path(dir, "templates"@),
                spec_static_dir(dir, found.root_theme_public),
            )
        } else {
            let dir = self.spec_source_theme_dir();
            (
                build_toml,
                dir,
                spec_join_path(dir, "templates"@),
                spec_static_dir(dir, found.source_theme_public),
            )
        }
    }

    /// A builder that knows neither source directory nor theme.
    pub fn new() -> (b: Self)
        ensures
            b.source() is None,
            b.theme() is None,
    {
        RuntimePathsBuilder { md_dir: None, theme_name: None }
    }

    /// Sets the source directory.
    pub fn md_dir(self, md_dir: &str) -> (b: Self)
        ensures
            b.source() matches Some(d) && d@ == md_dir@,
            b.theme() == self.theme(),
    {
        RuntimePathsBuilder { md_dir: Some(String::from_str(md_dir)), theme_name: self.theme_name }
    }

    /// Sets the theme.
    pub fn theme_name(self, name: &str) -> (b: Self)
        ensures
            b.theme() matches Some(t) && t@ == name@,
            b.source() == self.source(),
    {
        RuntimePathsBuilder { md_dir: self.md_dir, theme_name: Some(String::from_str(name)) }
    }

    /// The places whose existence `build` asks about: the build-state file in
    /// the source directory, the theme's directory at the project root and
    /// its `public`, the theme's directory in the source directory and its
    /// `public`.
    pub fn places(&self) -> (p: (String, String, String, String, String))
        ensures
            p.0@ == spec_join_path(spec_source_dir(self.source()), "build.toml"@),
            p.1@ == self.spec_root_theme_dir(),
            p.2@ == spec_join_path(self.spec_root_theme_dir(), "public"@),
            p.3@ == self.spec_source_theme_dir(),
            p.4@ == spec_join_path(self.spec_source_theme_dir(), "public"@),
    {
        let source = self.source_dir();
        let theme = self.theme_or_default();
        let build = join_path(source.as_str(), "build.toml");
        let root = root_theme_dir(theme.as_str());
        let root_public = join_path(root.as_str(), "public");
        let inner = theme_dir_below(source.as_str(), theme.as_str());
        let inner_public = join_path(inner.as_str(), "public");
        (build, root, root_public, inner, inner_public)
    }

    fn source_dir(&self) -> (dir: String)
        ensures
            dir@ == spec_source_dir(self.source()),
    {
        match &self.md_dir {
            Some(d) => d.clone(),
            None => String::from_str("."),
        }
    }

    fn theme_or_default(&self) -> (theme: String)
        ensures
            theme@ == spec_theme(self.theme()),
    {
        match &self.theme_name {
            Some(t) => t.clone(),
            None => String::from_str("default"),
        }
    }

    /// The paths of the project. The theme is taken from the project root
    /// where it exists there, else from the source directory where it exists
    /// there, else from the project root.
    pub fn build(self, found: &Existing) -> (paths: RuntimePaths)
        ensures
            (
                paths.build_toml_path@,
                paths.theme_dir@,
                paths.theme_templates_dir@,
                paths.theme_static_dir@,
            ) == self.spec_build(*found),
    {
        let source = self.source_dir();
        let theme = self.theme_or_default();
        let build_toml_path = resolve_build_toml_path_read(source.as_str(), found.source_build_toml);
        if found.root_theme || !found.source_theme {
            let dir = root_theme_dir(theme.as_str());
            let templates = join_path(dir.as_str(), "templates");
            let statics = static_dir_of(dir.as_str(), found.root_theme_public);
            RuntimePaths {
                build_toml_path,
                theme_dir: dir,
                theme_templates_dir: templates,
                theme_static_dir: statics,
            }
        } else {
            let dir = theme_dir_below(source.as_str(), theme.as_str());
            let templates = join_path(dir.as_str(), "templates");
            let statics = static_dir_of(dir.as_str(), found.source_theme_public);
            RuntimePaths {
                build_toml_path,
                theme_dir: dir,
                theme_templates_dir: templates,
                theme_static_dir: statics,
            }
        }
    }
}

/// Where the build state is read from: `build.toml` in the source directory
/// where it exists, else `build.toml` at the project root.
pub open spec fn spec_resolve_build_toml_path_read(md_dir: Seq<char>, in_source: bool) -> Seq<
    char,
> {
    if in_source {
        spec_join_path(md_dir, "build.toml"@)
    } else {
        "build.toml"@
    }
}

/// Where the build state is read from. `in_source` tells whether
/// `build.toml` exists in the source directory.
pub fn resolve_build_toml_path_read(md_dir: &str, in_source: bool) -> (path: String)
    ensures
        path@ == spec_resolve_build_toml_path_read(md_dir@, in_source),
{
    if in_source {
        join_path(md_dir, "build.toml")
    } else {
        String::from_str("build.toml")
    }
}

/// Where the build state is written to: the file in the source directory
/// where it exists, else the file at the project root where that exists,
/// else a new file in the source directory.
pub open spec fn spec_resolve_build_toml_path_write(
    md_dir: Seq<char>,
    in_source: bool,
    at_root: bool,
) -> Seq<char> {
    if !in_source && at_root {
        "build.toml"@
    } else {
        spec_join_path(md_dir, "build.toml"@)
    }
}

/// Where the build state is written to. `in_source` and `at_root` tell
/// whether `build.toml` exists in the source directory and at the project
/// root.
pub fn resolve_build_toml_path_write(md_dir: &str, in_source: bool, at_root: bool) -> (path: String)
    ensures
        path@ == spec_resolve_build_toml_path_write(md_dir@, in_source, at_root),
{
    if in_source {
        join_path(md_dir, "build.toml")
    } else if at_root {
        String::from_str("build.toml")
    } else {
        join_path(md_dir, "build.toml")
    }
}

/// Where the configuration is read from: the file in the source directory
/// where it exists, else the file of that name at the project root.
pub open spec fn spec_resolve_config_toml_path_read(
    md_dir: Seq<char>,
    config_filename: Seq<char>,
    in_source: bool,
) -> Seq<char> {
    if in_source {
        spec_join_path(md_dir, config_filename)
    } else {
        config_filename
    }
}

/// Where the configuration is read from. `in_source` tells whether the file
/// exists in the source directory.
pub fn resolve_config_toml_path_read(md_dir: &str, config_filename: &str, in_source: bool) -> (path:
    String)
    ensures
        path@ == spec_resolve_config_toml_path_read(md_dir@, config_filename@, in_source),
{
    if in_source {
        join_path(md_dir, config_filename)
    } else {
        String::from_str(config_filename)
    }
}

/// The name under which npm is started: `npm.cmd` on Windows, `npm`
/// elsewhere.
pub fn get_npm_command(windows: bool) -> (name: &'static str)
    ensures
        name@ == (if windows {
            "npm.cmd"@
        } else {
            "npm"@
        }),
{
    if windows {
        "npm.cmd"
    } else {
        "npm"
    }
}

/// Whether a build regenerates everything or only what changed.
#[derive(Debug, Clone, Copy, PartialEq, Eq, Structural)]
pub enum BuildMode {
    Incremental,
    Full,
}

/// What the build-state file gives under `compile_mode` or `build_mode`.
#[derive(Debug, Clone, PartialEq, Eq)]
pub enum ModeSetting {
    /// No such key.
    Absent,
    /// A word.
    Word(String),
    /// A truth value: whether the build is incremental.
    Flag(bool),
    /// A value of another type.
    Other,
}

/// An upper-case ASCII letter as its lower-case letter, any other character
/// as itself.
pub open spec fn spec_ascii_lower(c: char) -> char {
    if 'A' <= c <= 'Z' {
        ((c as u8) + 32) as char
    } else {
        c
    }
}

/// Whether `word` is `target` but for the case of ASCII letters.
pub open spec fn spec_is_word(word: Seq<char>, target: Seq<char>) -> bool {
    word.map_values(|c: char| spec_ascii_lower(c)) == target
}

/// Whether a word asks for a full build.
pub open spec fn spec_word_is_full(word: Seq<char>) -> bool {
    spec_is_word(word, "full"@) || spec_is_word(word, "normal"@) || spec_is_word(word, "all"@)
}

/// The build mode that the build-state file asks for: the mode setting
/// decides where it is a word or a truth value; else the `incremental` flag
/// decides; else the build is incremental.
pub open spec fn spec_read_build_mode(mode: ModeSetting, incremental: Option<bool>) -> BuildMode {
    match mode {
        ModeSetting::Word(w) => if spec_word_is_full(w@) {
            BuildMode::Full
        } else {
            BuildMode::Incremental
        },
        ModeSetting::Flag(b) => if b {
            BuildMode::Incremental
        } else {
            BuildMode::Full
        },
        _ => match incremental {
            Some(false) => BuildMode::Full,
            _ => BuildMode::Incremental,
        },
    }
}

fn ascii_lower(c: char) -> (l: char)
    ensures
        l == spec_ascii_lower(c),
{
    if 'A' <= c && c <= 'Z' {
        ((c as u8) + 32) as char
    } else {
        c
    }
}

fn is_word(word: &str, target: &str) -> (b: bool)
    ensures
        b == spec_is_word(word@, target@),
{
    let w = chars_of(word);
    let mut low: Vec<char> = Vec::new();
    let mut i: usize = 0;
    while i < w.len()
        invariant
            i <= w.len(),
            low@ == w@.take(i as int).map_values(|c: char| spec_ascii_lower(c)),
        decreases w.len() - i,
    {
        low.push(ascii_lower(w[i]));
        assert(w@.take(i + 1).map_values(|c: char| spec_ascii_lower(c)) =~= w@.take(
            i as int,
        ).map_values(|c: char| spec_ascii_lower(c)).push(spec_ascii_lower(w@[i as int])));
        i += 1;
    }
    assert(w@.take(w.len() as int) =~= w@);
    let lowered = string_of(&low);
    text_eq(lowered.as_str(), target)
}

/// The build mode that the settings of a build-state file ask for.
pub fn build_mode_of(mode: &ModeSetting, incremental: Option<bool>) -> (m: BuildMode)
    ensures
        m == spec_read_build_mode(*mode, incremental),
{
    match mode {
        ModeSetting::Word(w) => {
            if is_word(w.as_str(), "full") || is_word(w.as_str(), "normal") || is_word(
                w.as_str(),
                "all",
            ) {
                BuildMode::Full
            } else {
                BuildMode::Incremental
            }
        },
        ModeSetting::Flag(b) => {
            if *b {
                BuildMode::Incremental
            } else {
                BuildMode::Full
            }
        },
        _ => {
            match incremental {
                Some(false) => BuildMode::Full,
                _ => BuildMode::Incremental,
            }
        },
    }
}

/// The mode of the build that is run: the first build of an output
/// directory is full; later ones are incremental where the command line asks
/// for it or the build-state file does.
pub open spec fn spec_effective_build_mode(
    asked_incremental: bool,
    file_mode: BuildMode,
    first_build: bool,
) -> BuildMode {
    if first_build {
        BuildMode::Full
    } else if asked_incremental {
        BuildMode::Incremental
    } else {
        file_mode
    }
}

/// The mode of the build that is run. `first_build` tells that the output
/// directory is missing or empty.
pub fn effective_build_mode(asked_incremental: bool, file_mode: BuildMode, first_build: bool) -> (m:
    BuildMode)
    ensures
        m == spec_effective_build_mode(asked_incremental, file_mode, first_build),
{
    if first_build {
        BuildMode::Full
    } else if asked_incremental {
        BuildMode::Incremental
    } else {
        file_mode
    }
}

/// Whether the text `s` ends inside a tag: its last angle bracket opens one.
pub open spec fn spec_in_tag(s: Seq<char>) -> bool
    decreases s.len(),
{
    if s.len() == 0 {
        false
    } else if s.last() == '<' {
        true
    } else if s.last() == '>' {
        false
    } else {
        spec_in_tag(s.drop_last())
    }
}

/// The characters of `s` that stand outside tags. A tag runs from `<` to the
/// next `>`, both included; a `>` outside a tag is dropped too.
pub open spec fn spec_visible(s: Seq<char>) -> Seq<char>
    decreases s.len(),
{
    if s.len() == 0 {
        Seq::empty()
    } else if s.last() == '<' || s.last() == '>' || spec_in_tag(s.drop_last()) {
        spec_visible(s.drop_last())
    } else {
        spec_visible(s.drop_last()).push(s.last())
    }
}

/// The words of `s`: its longest runs of characters that are not white
/// space.
pub open spec fn spec_words(s: Seq<char>) -> Seq<Seq<char>>
    decreases s.len(),
{
    if s.len() == 0 {
        Seq::empty()
    } else if spec_is_space(s.last()) {
        spec_words(s.drop_last())
    } else if s.len() == 1 || spec_is_space(s[s.len() - 2]) {
        spec_words(s.drop_last()).push(seq![s.last()])
    } else {
        let before = spec_words(s.drop_last());
        before.drop_last().push(before.last().push(s.last()))
    }
}

/// The text of `html` without its tags: the words outside tags, with one
/// space between neighbours.
pub open spec fn spec_strip_html_tags(html: Seq<char>) -> Seq<char> {
    spec_join(spec_words(spec_visible(html)), " "@)
}

fn visible(s: &Vec<char>) -> (v: Vec<char>)
    ensures
        v@ == spec_visible(s@),
{
    let mut v: Vec<char> = Vec::new();
    let mut in_tag = false;
    let mut i: usize = 0;
    while i < s.len()
        invariant
            i <= s.len(),
            v@ == spec_visible(s@.take(i as int)),
            in_tag == spec_in_tag(s@.take(i as int)),
        decreases s.len() - i,
    {
        let c = s[i];
        proof {
            let next = s@.take(i + 1);
            assert(next.drop_last() =~= s@.take(i as int));
            assert(next.last() == c);
        }
        if c == '<' {
            in_tag = true;
        } else if c == '>' {
            in_tag = false;
        } else if !in_tag {
            v.push(c);
        }
        i += 1;
    }
    assert(s@.take(s.len() as int) =~= s@);
    v
}

fn words(s: &Vec<char>) -> (w: Vec<String>)
    ensures
        texts(w@) == spec_words(s@),
{
    let mut w: Vec<String> = Vec::new();
    let mut word: Vec<char> = Vec::new();
    let mut i: usize = 0;
    while i < s.len()
        invariant
            i <= s.len(),
            word.len() == 0 ==> texts(w@) == spec_words(s@.take(i as int)),
            word.len() == 0 ==> i == 0 || spec_is_space(s@[i - 1]),
            word.len() > 0 ==> texts(w@).push(word@) == spec_words(s@.take(i as int)),
            word.len() > 0 ==> i > 0 && !spec_is_space(s@[i - 1]),
        decreases s.len() - i,
    {
        let c = s[i];
        proof {
            let next = s@.take(i + 1);
            assert(next.drop_last() =~= s@.take(i as int));
            assert(next.last() == c);
            if i > 0 {
                assert(next[next.len() - 2] == s@[i - 1]);
            }
        }
        if is_space(c) {
            if word.len() > 0 {
                let done = string_of(&word);
                proof {
                    assert(texts(w@.push(done)) =~= texts(w@).push(word@));
                }
                w.push(done);
                word = Vec::new();
            }
        } else {
            proof {
                if word.len() > 0 {
                    let before = texts(w@).push(word@);
                    assert(before.drop_last() =~= texts(w@));
                    assert(before.last() == word@);
                } else {
                    assert(word@.push(c) =~= seq![c]);
                }
            }
            word.push(c);
        }
        i += 1;
    }
    assert(s@.take(s.len() as int) =~= s@);
    if word.len() > 0 {
        let done = string_of(&word);
        proof {
            assert(texts(w@.push(done)) =~= texts(w@).push(word@));
        }
        w.push(done);
    }
    w
}

/// The text of `html` without its tags and with every run of white space
/// turned into one space.
pub fn strip_html_tags(html: &str) -> (text: String)
    ensures
        text@ == spec_strip_html_tags(html@),
{
    let chars = chars_of(html);
    let outside = visible(&chars);
    let parts = words(&outside);
    join(&parts, " ")
}

} // verus!
