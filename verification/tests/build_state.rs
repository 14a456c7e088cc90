use rustpress::build_state::{
    ensure_sidebar_data, epoch_or_zero, hot_post_value, log_build_info, name_count_value,
    now_stamp, read_build_mode, regenerate_sidebar, sidebar_value, stamp_format, BuildFile,
};
use rustpress::config::Config;
use rustpress::error::Error;
use rustpress::field::Field;
use rustpress::post::Post;
use rustpress::sidebar::{hot_categories, hot_posts, hot_tags, rank_by_count, HotPost, Sidebar};
use rustpress::taxonomy::NameCount;
use rustpress::utils::{build_mode_of, effective_build_mode, BuildMode, ModeSetting};

fn post(slug: &str, date: &str, tags: &[&str], categories: &[&str]) -> Post {
    Post {
        title: Some(format!("T {}", slug)),
        slug: Some(slug.to_string()),
        content: None,
        categories: categories.iter().map(|c| c.to_string()).collect(),
        tags: tags.iter().map(|t| t.to_string()).collect(),
        date: Some(date.to_string()),
        year: None,
        year_month: None,
        modified_epoch: None,
    }
}

fn entry(name: &str, count: usize) -> NameCount {
    NameCount { name: name.to_string(), count }
}

fn posts() -> Vec<Post> {
    vec![
        post("b", "2024-01-02", &["x", "y"], &["tech", "rust"]),
        post("c", "2024-01-03", &["y"], &["life"]),
        post("a", "2024-01-01", &["y", "z", "x"], &["tech"]),
        post("d", "2023-01-01", &["w"], &[]),
    ]
}

#[test]
fn an_unreadable_file_is_an_empty_one() {
    let file = BuildFile::load("this is = not [ toml");
    assert_eq!(file.last_build_time(), None);
    assert_eq!(file.last_build_epoch(), 0);
    assert!(!file.has_sidebar());
    assert_eq!(file.save(), Ok(String::new()));
    let file = BuildFile::new();
    assert_eq!(file.get("anything"), Field::Absent);
    assert_eq!(file.save(), Ok(String::new()));
}

#[test]
fn the_file_tells_when_it_was_last_built() {
    let file = BuildFile::load("last_build_time = \"2024-05-06 07:08:09\"\nother = 3\n");
    assert_eq!(file.last_build_time(), Some("2024-05-06 07:08:09".to_string()));
    assert_eq!(file.get("other"), Field::Number(3));
    let epoch = file.last_build_epoch();
    // whatever the time zone of the machine, the moment lies within a day of
    // 2024-05-06 07:08:09 UTC
    assert!((epoch - 1_714_979_289).abs() <= 86_400, "{}", epoch);
    let file = BuildFile::load("last_build_time = 5\n");
    assert_eq!(file.last_build_time(), None);
    assert_eq!(file.last_build_epoch(), 0);
    let file = BuildFile::load("last_build_time = \"yesterday\"\n");
    assert_eq!(file.last_build_epoch(), 0);
}

#[test]
fn a_missing_time_is_the_epoch() {
    assert_eq!(epoch_or_zero(None), 0);
    assert_eq!(epoch_or_zero(Some(17)), 17);
    assert_eq!(epoch_or_zero(Some(-3)), -3);
    assert_eq!(stamp_format(), "%Y-%m-%d %H:%M:%S");
    let now = now_stamp().unwrap();
    assert_eq!(now.len(), 19);
    assert_eq!(&now[4..5], "-");
    assert_eq!(&now[10..11], " ");
}

#[test]
fn recording_a_build_keeps_every_other_entry() {
    let mut file = BuildFile::load(
        "incremental = true\nlast_build_time = \"2020-01-01 00:00:00\"\n\n[sidebar]\nnote = \"mine\"\n\n[[sidebar.hot_tags]]\nname = \"a\"\ncount = 2\n\n[custom]\nkey = [1, 2]\n",
    );
    log_build_info(&mut file, "2024-05-06 07:08:09");
    assert_eq!(file.last_build_time(), Some("2024-05-06 07:08:09".to_string()));
    let text = file.save().unwrap();
    let parsed: toml::Table = text.parse().unwrap();
    let mut expected: toml::Table =
        "incremental = true\nlast_build_time = \"2024-05-06 07:08:09\"\n\n[sidebar]\nnote = \"mine\"\n\n[[sidebar.hot_tags]]\nname = \"a\"\ncount = 2\n\n[custom]\nkey = [1, 2]\n"
            .parse()
            .unwrap();
    assert_eq!(parsed, expected);
    expected.remove("custom");
    assert_ne!(parsed, expected);
    let mut fresh = BuildFile::new();
    log_build_info(&mut fresh, "now");
    assert_eq!(fresh.save(), Ok("last_build_time = \"now\"\n".to_string()));
}

#[test]
fn the_sidebar_is_worked_out_once() {
    let mut file = BuildFile::load("last_build_time = \"2020-01-01 00:00:00\"\n");
    let made = ensure_sidebar_data(&mut file, &posts()).unwrap();
    assert_eq!(made, Sidebar::of(&posts()));
    assert!(file.has_sidebar());
    assert_eq!(file.get("sidebar"), Field::Other);
    let first = file.save().unwrap();
    // a second time nothing happens, whatever the posts
    assert_eq!(ensure_sidebar_data(&mut file, &Vec::new()), None);
    assert_eq!(file.save().unwrap(), first);
    let parsed: toml::Table = first.parse().unwrap();
    assert_eq!(parsed["last_build_time"].as_str(), Some("2020-01-01 00:00:00"));
    let sidebar = parsed["sidebar"].as_table().unwrap();
    let hot = sidebar["hot_posts"].as_array().unwrap();
    assert_eq!(hot.len(), 4);
    assert_eq!(hot[0]["slug"].as_str(), Some("c"));
    assert_eq!(hot[0]["title"].as_str(), Some("T c"));
    assert_eq!(hot[0]["date_ymd"].as_str(), Some("2024-01-03"));
    assert_eq!(hot[0]["categories"].as_array().unwrap().len(), 1);
    assert!(hot[3].get("categories").is_none());
    let tags = sidebar["hot_tags"].as_array().unwrap();
    assert_eq!(tags[0]["name"].as_str(), Some("y"));
    assert_eq!(tags[0]["count"].as_integer(), Some(3));
    let categories = sidebar["hot_categories"].as_array().unwrap();
    assert_eq!(categories[0]["name"].as_str(), Some("tech"));
    assert_eq!(categories[0]["count"].as_integer(), Some(2));
}

#[test]
fn a_sidebar_that_was_edited_is_left_alone() {
    let text = "[sidebar]\nhot_posts = []\nmine = true\n";
    let mut file = BuildFile::load(text);
    assert_eq!(ensure_sidebar_data(&mut file, &posts()), None);
    let parsed: toml::Table = file.save().unwrap().parse().unwrap();
    let expected: toml::Table = text.parse().unwrap();
    assert_eq!(parsed, expected);
}

#[test]
fn the_sidebar_is_worked_out_anew_on_demand() {
    let mut file = BuildFile::load("keep = 1\n\n[sidebar]\nhot_posts = []\nmine = true\n");
    let made = regenerate_sidebar(&mut file, &posts());
    assert_eq!(made, Sidebar::of(&posts()));
    let parsed: toml::Table = file.save().unwrap().parse().unwrap();
    assert_eq!(parsed["keep"].as_integer(), Some(1));
    let sidebar = parsed["sidebar"].as_table().unwrap();
    assert!(sidebar.get("mine").is_none());
    assert_eq!(sidebar["hot_posts"].as_array().unwrap().len(), 4);
}

#[test]
fn the_sidebar_lists_the_newest_and_the_most_used() {
    let sidebar = Sidebar::of(&posts());
    let slugs: Vec<&str> = sidebar.hot_posts.iter().map(|p| p.slug.as_deref().unwrap()).collect();
    assert_eq!(slugs, vec!["c", "b", "a", "d"]);
    assert_eq!(sidebar.hot_posts[1].categories, vec!["tech".to_string(), "rust".to_string()]);
    assert_eq!(sidebar.hot_tags, vec![entry("y", 3), entry("x", 2), entry("w", 1), entry("z", 1)]);
    assert_eq!(sidebar.hot_categories, vec![entry("tech", 2), entry("life", 1)]);
    assert_eq!(hot_tags(&posts()), sidebar.hot_tags);
    assert_eq!(hot_categories(&posts()), sidebar.hot_categories);
    assert_eq!(hot_posts(&posts()), sidebar.hot_posts);
}

#[test]
fn the_sidebar_is_cut_to_its_sizes() {
    let mut many = Vec::new();
    for i in 0..30 {
        let tag = format!("t{:02}", i);
        let category = format!("c{:02}", i);
        many.push(post(&format!("p{:02}", i), &format!("2024-01-{:02}", i + 1), &[&tag, "all"], &[&category]));
    }
    let sidebar = Sidebar::of(&many);
    assert_eq!(sidebar.hot_posts.len(), 10);
    assert_eq!(sidebar.hot_posts[0].slug, Some("p29".to_string()));
    assert_eq!(sidebar.hot_posts[9].slug, Some("p20".to_string()));
    assert_eq!(sidebar.hot_tags.len(), 20);
    assert_eq!(sidebar.hot_tags[0], entry("all", 30));
    assert_eq!(sidebar.hot_tags[1], entry("t00", 1));
    assert_eq!(sidebar.hot_tags[19], entry("t18", 1));
    assert_eq!(sidebar.hot_categories.len(), 8);
    assert_eq!(sidebar.hot_categories[7], entry("c07", 1));
}

#[test]
fn counts_are_ranked_and_ties_keep_their_order() {
    let ranked = rank_by_count(vec![entry("a", 1), entry("b", 3), entry("c", 1), entry("d", 3), entry("e", 2)]);
    assert_eq!(ranked, vec![entry("b", 3), entry("d", 3), entry("e", 2), entry("a", 1), entry("c", 1)]);
    assert!(rank_by_count(Vec::new()).is_empty());
}

#[test]
fn sidebar_entries_are_tables() {
    let hot = HotPost {
        slug: Some("s".to_string()),
        title: None,
        date_ymd: Some("2024-01-01".to_string()),
        categories: vec!["a".to_string(), "b".to_string()],
    };
    let value = hot_post_value(&hot);
    let table = value.as_table().unwrap();
    assert_eq!(table.len(), 3);
    assert_eq!(table["slug"].as_str(), Some("s"));
    assert_eq!(table["date_ymd"].as_str(), Some("2024-01-01"));
    assert_eq!(table["categories"], toml::Value::Array(vec!["a".into(), "b".into()]));
    let value = name_count_value(&entry("n", 4));
    assert_eq!(value["name"].as_str(), Some("n"));
    assert_eq!(value["count"].as_integer(), Some(4));
    let value = name_count_value(&entry("n", usize::MAX));
    let largest = if usize::MAX as u64 > i64::MAX as u64 { i64::MAX } else { usize::MAX as i64 };
    assert_eq!(value["count"].as_integer(), Some(largest));
    let empty = Sidebar { hot_posts: Vec::new(), hot_tags: Vec::new(), hot_categories: Vec::new() };
    let value = sidebar_value(&empty);
    assert_eq!(value.as_table().unwrap().len(), 3);
}

#[test]
fn the_file_asks_for_a_build_mode() {
    assert_eq!(read_build_mode(&BuildFile::new()), BuildMode::Incremental);
    assert_eq!(read_build_mode(&BuildFile::load("compile_mode = \"FULL\"\n")), BuildMode::Full);
    assert_eq!(read_build_mode(&BuildFile::load("build_mode = \"Normal\"\n")), BuildMode::Full);
    assert_eq!(read_build_mode(&BuildFile::load("build_mode = \"all\"\n")), BuildMode::Full);
    assert_eq!(read_build_mode(&BuildFile::load("build_mode = \"fast\"\nincremental = false\n")), BuildMode::Incremental);
    assert_eq!(read_build_mode(&BuildFile::load("compile_mode = false\n")), BuildMode::Full);
    assert_eq!(read_build_mode(&BuildFile::load("compile_mode = true\nincremental = false\n")), BuildMode::Incremental);
    // compile_mode goes before build_mode
    assert_eq!(read_build_mode(&BuildFile::load("compile_mode = \"inc\"\nbuild_mode = \"full\"\n")), BuildMode::Incremental);
    // a setting of another kind leaves the decision to the flag
    assert_eq!(read_build_mode(&BuildFile::load("compile_mode = 3\nbuild_mode = \"full\"\nincremental = false\n")), BuildMode::Full);
    assert_eq!(read_build_mode(&BuildFile::load("compile_mode = 3\nbuild_mode = \"full\"\n")), BuildMode::Incremental);
    assert_eq!(read_build_mode(&BuildFile::load("incremental = false\n")), BuildMode::Full);
    assert_eq!(read_build_mode(&BuildFile::load("incremental = true\n")), BuildMode::Incremental);
    assert_eq!(read_build_mode(&BuildFile::load("incremental = \"false\"\n")), BuildMode::Incremental);
}

#[test]
fn mode_words_are_read_without_regard_to_case() {
    for word in ["full", "FULL", "Full", "normal", "NORMAL", "all", "aLL"] {
        assert_eq!(build_mode_of(&ModeSetting::Word(word.to_string()), None), BuildMode::Full);
        assert!(matches!(word.to_lowercase().as_str(), "full" | "normal" | "all"));
    }
    for word in ["", "ful", "fulll", "incremental", "ａll", "nörmal"] {
        assert_eq!(build_mode_of(&ModeSetting::Word(word.to_string()), Some(false)), BuildMode::Incremental);
        assert!(!matches!(word.to_lowercase().as_str(), "full" | "normal" | "all"));
    }
    assert_eq!(build_mode_of(&ModeSetting::Absent, None), BuildMode::Incremental);
    assert_eq!(build_mode_of(&ModeSetting::Other, Some(false)), BuildMode::Full);
    assert_eq!(build_mode_of(&ModeSetting::Flag(false), Some(true)), BuildMode::Full);
}

#[test]
fn the_first_build_is_a_full_one() {
    assert_eq!(effective_build_mode(true, BuildMode::Incremental, true), BuildMode::Full);
    assert_eq!(effective_build_mode(true, BuildMode::Full, false), BuildMode::Incremental);
    assert_eq!(effective_build_mode(false, BuildMode::Full, false), BuildMode::Full);
    assert_eq!(effective_build_mode(false, BuildMode::Incremental, false), BuildMode::Incremental);
    assert_eq!(effective_build_mode(false, BuildMode::Incremental, true), BuildMode::Full);
}

#[test]
fn the_configuration_tells_the_generator_its_settings() {
    let config = Config::from_text(
        "[site]\nname = \"Blog\"\ndescription = \"D\"\nbase_url = \"http://b\"\ndomain = \"https://d/\"\n\n[homepage]\nposts_per_page = 5\n\n[tags]\nposts_per_page = 3\n\n[features]\nrss = false\n\n[theme]\nname = \"dark\"\n",
    )
    .unwrap();
    let settings = config.settings();
    assert_eq!(settings.home_page_size, 5);
    assert_eq!(settings.tag_page_size, 3);
    assert_eq!(settings.category_page_size, 5);
    assert!(!settings.rss);
    assert!(settings.sitemap);
    assert_eq!(settings.site_name, "Blog");
    assert_eq!(settings.site_description, "D");
    assert_eq!(settings.base_url, "https://d/");
    assert_eq!(config.theme_name(), "dark");
    assert_eq!(config.get("homepage", "posts_per_page"), Field::Number(5));
    assert_eq!(config.get("homepage", "missing"), Field::Absent);
    assert_eq!(config.get("missing", "posts_per_page"), Field::Absent);
    assert_eq!(config.get("site", "name"), Field::Text("Blog".to_string()));
    assert_eq!(config.get("features", "rss"), Field::Flag(false));
    assert!(config.site().as_table().unwrap().contains_key("name"));
    assert!(config.theme().is_some());
    assert!(config.taxonomies().is_none());
    assert!(config.author().is_none());
}

#[test]
fn a_configuration_without_entries_has_defaults() {
    let config = Config::from_text("").unwrap();
    let settings = config.settings();
    assert_eq!(settings.home_page_size, 10);
    assert_eq!(settings.tag_page_size, 8);
    assert_eq!(settings.category_page_size, 8);
    assert!(settings.rss && settings.sitemap);
    assert_eq!(settings.site_name, "RustPress Blog");
    assert_eq!(settings.site_description, "A RustPress site");
    assert_eq!(settings.base_url, "");
    assert_eq!(config.theme_name(), "default");
    assert_eq!(config.site(), toml::Value::Table(toml::Table::new()));
    assert!(config.social().is_none());
}

#[test]
fn page_sizes_below_one_do_not_count() {
    let config = Config::from_text(
        "homepage = 3\n[site]\nbase_url = \"http://b\"\nauthor = \"me\"\n[tags]\nposts_per_page = 0\n[categories]\nposts_per_page = -4\n[theme]\nname = 7\n",
    )
    .unwrap();
    let settings = config.settings();
    assert_eq!(settings.home_page_size, 10);
    assert_eq!(settings.tag_page_size, 8);
    assert_eq!(settings.category_page_size, 8);
    assert_eq!(settings.base_url, "http://b");
    assert_eq!(config.theme_name(), "default");
    assert_eq!(config.author(), Some(toml::Value::String("me".to_string())));
    let config = Config::from_text("[homepage]\nposts_per_page = \"5\"\n[categories]\nposts_per_page = 2\n").unwrap();
    let settings = config.settings();
    assert_eq!((settings.home_page_size, settings.tag_page_size, settings.category_page_size), (10, 8, 2));
}

#[test]
fn a_build_goes_on_with_defaults_when_the_configuration_is_no_toml() {
    let (config, error) = Config::load("[site\nname = ");
    assert!(matches!(error, Some(Error::Config(_))));
    assert_eq!(config.settings(), Config::new().settings());
    assert_eq!(config.settings().home_page_size, 10);
    assert_eq!(config.theme_name(), "default");
    let (config, error) = Config::load("[theme]\nname = \"x\"\n");
    assert_eq!(error, None);
    assert_eq!(config.theme_name(), "x");
}

#[test]
fn a_configuration_that_is_no_toml_is_an_error() {
    match Config::from_text("[site\nname = ") {
        Err(Error::Config(message)) => assert!(message.starts_with("配置文件格式错误: "), "{}", message),
        other => panic!("{:?}", other.map(|c| c.data)),
    }
}

#[test]
fn the_same_file_is_written_the_same_way() {
    let text = "b = 2\na = \"x\"\n\n[t]\nk = true\n";
    let file = BuildFile::load(text);
    let again = BuildFile::load(text);
    assert_eq!(file.save(), again.save());
    assert_eq!(file.save(), Ok("a = \"x\"\nb = 2\n\n[t]\nk = true\n".to_string()));
}

#[test]
fn the_site_table_holds_author_and_social() {
    let config = Config::from_text(
        "[site]\nsocial = { github = \"g\" }\n\n[site.author]\nname = \"me\"\n",
    )
    .unwrap();
    let author = config.author().unwrap();
    assert_eq!(author["name"].as_str(), Some("me"));
    let social = config.social().unwrap();
    assert_eq!(social["github"].as_str(), Some("g"));
    let config = Config::from_text("site = 3\nauthor = \"top\"\n").unwrap();
    assert_eq!(config.author(), None);
    assert_eq!(config.social(), None);
}

#[test]
fn a_time_that_is_not_of_the_kept_form_is_no_time() {
    for stamp in ["2024-05-06", "2024-05-06T07:08:09", "2024-13-01 00:00:00", "", "07:08:09"] {
        let file = BuildFile::load(&format!("last_build_time = \"{}\"\n", stamp));
        assert_eq!(file.last_build_time(), Some(stamp.to_string()));
        assert_eq!(file.last_build_epoch(), 0, "{}", stamp);
    }
}
