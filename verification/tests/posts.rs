use rustpress::error::Error;
use rustpress::front_matter::SourceFile;
use rustpress::post::{Post, PostParser};
use rustpress::source::{
    categories_from_path, components, file_stem, is_markdown, split, split_front_matter,
};

fn list(items: &[&str]) -> Vec<String> {
    items.iter().map(|s| s.to_string()).collect()
}

fn file(path: &str, content: &str, modified: i64) -> SourceFile {
    SourceFile { path: path.to_string(), content: content.to_string(), modified }
}

#[test]
fn front_matter_stands_between_two_marks() {
    assert_eq!(
        split_front_matter("---\ntitle: a\n---\nbody\n"),
        Some(("\ntitle: a\n".to_string(), "\nbody\n".to_string()))
    );
    assert_eq!(
        split_front_matter("+++\nx\n+++\nrest"),
        Some(("\nx\n".to_string(), "\nrest".to_string()))
    );
    // a mark at the end of its line is preferred to an earlier one inside a line
    assert_eq!(
        split_front_matter("---\na: x---y\n---\nbody"),
        Some(("\na: x---y\n".to_string(), "\nbody".to_string()))
    );
    // without a mark that ends its line, the first mark closes
    assert_eq!(split_front_matter("---\na\n---"), Some(("\na\n".to_string(), String::new())));
    assert_eq!(split_front_matter("------"), Some((String::new(), String::new())));
    assert_eq!(split_front_matter("--- a --- b"), Some((" a ".to_string(), " b".to_string())));
    assert_eq!(split_front_matter("no front matter"), None);
    assert_eq!(split_front_matter("---\nnever closed"), None);
    assert_eq!(split_front_matter("---"), None);
    assert_eq!(split_front_matter(""), None);
    assert_eq!(split_front_matter(" ---\na\n---\n"), None);
    assert_eq!(split_front_matter("---\na\n+++\n"), None);
}

#[test]
fn paths_are_split_into_components() {
    assert_eq!(split("a/b//c", '/'), list(&["a", "b", "", "c"]));
    assert_eq!(split("", '/'), list(&[""]));
    assert_eq!(split("/", '/'), list(&["", ""]));
    assert_eq!(components("a/b//c/"), list(&["a", "b", "c"]));
    assert_eq!(components("./a/./b"), list(&[".", "a", "b"]));
    assert_eq!(components("/./a/../b"), list(&["a", "..", "b"]));
    assert!(components("").is_empty());
}

#[test]
fn categories_are_the_directories_between_tree_and_document() {
    assert_eq!(categories_from_path("source/tech/rust/post.md", "source"), list(&["tech", "rust"]));
    assert_eq!(PostParser::extract_categories_from_path("source/tech/post.md", "source/"), list(&["tech"]));
    assert!(categories_from_path("source/post.md", "source").is_empty());
    assert!(categories_from_path("source", "source").is_empty());
    assert!(categories_from_path("other/tech/post.md", "source").is_empty());
    assert!(categories_from_path("/source/tech/post.md", "source").is_empty());
    assert_eq!(categories_from_path("/srv/source/a/b/c.md", "/srv/source"), list(&["a", "b"]));
    assert_eq!(categories_from_path("./source/a/x.md", "./source"), list(&["a"]));
    assert_eq!(categories_from_path("a/b.md", ""), list(&["a"]));
    assert_eq!(categories_from_path("source/a/../b/x.md", "source"), list(&["a", "b"]));
    for (path, root) in [
        ("source/tech/rust/post.md", "source"),
        ("source//tech/./post.md", "source"),
        ("a/b/c", "a"),
        ("a/b", "a/b/c"),
        ("/x/y/z.md", "/x"),
    ] {
        let mut expected: Vec<String> = Vec::new();
        if let Ok(rel) = std::path::Path::new(path).strip_prefix(root) {
            if let Some(parent) = rel.parent() {
                for c in parent.components() {
                    if let std::path::Component::Normal(name) = c {
                        expected.push(name.to_str().unwrap().to_string());
                    }
                }
            }
        }
        assert_eq!(categories_from_path(path, root), expected, "{} in {}", path, root);
    }
}

#[test]
fn stems_and_extensions_follow_the_last_dot() {
    for path in [
        "a/b/post.md",
        "post.md",
        "a/.hidden",
        "a/.hidden.md",
        "archive.tar.gz",
        "noext",
        "a/b/",
        "trailing.",
        "x/..",
        "",
        "a.md/b",
        "readme.MD",
        "doc.md.bak",
    ] {
        let p = std::path::Path::new(path);
        let stem = p.file_stem().and_then(|s| s.to_str()).unwrap_or("");
        assert_eq!(file_stem(path), stem, "stem of {:?}", path);
        assert_eq!(is_markdown(path), p.extension().map_or(false, |e| e == "md"), "{:?}", path);
    }
    assert_eq!(file_stem("source/tech/hello-world.md"), "hello-world");
    assert!(is_markdown("source/tech/hello-world.md"));
    assert!(!is_markdown("source/tech/hello-world.txt"));
}

#[test]
fn a_document_becomes_a_post() {
    let content = "---\ntitle: Hello\ncreateTime: 2024-03-05 10:00:00\ntags:\n  - rust\n  - 7\n  - blog\nslug: custom\n---\n# Heading\n\nSome *text*.\n";
    let post = PostParser::parse_post(content, "source/tech/rust/hello.md", "source", 42)
        .unwrap()
        .unwrap();
    assert_eq!(post.title(), Some("Hello"));
    assert_eq!(post.slug(), Some("custom"));
    assert_eq!(post.content(), Some("<h1>Heading</h1>\n<p>Some <em>text</em>.</p>\n"));
    assert_eq!(post.categories(), list(&["tech", "rust"]));
    assert_eq!(post.tags(), list(&["rust", "blog"]));
    assert_eq!(post.date(), Some("2024-03-05"));
    assert_eq!(post.year, Some("2024".to_string()));
    assert_eq!(post.year_month, Some("2024-03".to_string()));
    assert_eq!(post.modified_epoch(), Some(42));
    assert_eq!(post.duplicate(), post);
}

#[test]
fn what_the_front_matter_leaves_out_is_filled_in() {
    let post = PostParser::parse_post("---\na: 1\n---\nx", "source/my-post.md", "source", 9)
        .unwrap()
        .unwrap();
    assert_eq!(post.title(), Some("my-post"));
    assert_eq!(post.slug(), Some("my-post"));
    assert_eq!(post.content(), Some("<p>x</p>\n"));
    assert!(post.categories().is_empty());
    assert!(post.tags().is_empty());
    assert_eq!(post.date(), None);
    assert_eq!(post.year, None);
    assert_eq!(post.modified_epoch(), Some(9));
    // an empty slug and a title that is no string
    let post = PostParser::parse_post(
        "---\nslug: \"\"\ntitle: 5\ndate_ymd: 2020-01-01\nyear: \"2020\"\nmodified_epoch: 77\ncreateTime: 2021\n---\n",
        "p.md",
        "",
        9,
    )
    .unwrap()
    .unwrap();
    assert_eq!(post.slug(), Some("p"));
    assert_eq!(post.title(), None);
    // createTime is a number here, so the date of the front matter counts
    assert_eq!(post.date(), Some("2020-01-01"));
    assert_eq!(post.year, Some("2020".to_string()));
    assert_eq!(post.modified_epoch(), Some(77));
    // a short createTime gives a date and no year
    let post = PostParser::parse_post("---\ncreateTime: \"2024\"\n---\n", "p.md", "", 9)
        .unwrap()
        .unwrap();
    assert_eq!(post.date(), Some("2024"));
    assert_eq!(post.year, None);
    assert_eq!(post.year_month, None);
    // front matter that is no mapping
    let post = PostParser::parse_post("---\njust text\n---\nbody", "q.md", "", 3).unwrap().unwrap();
    assert_eq!(post.slug(), Some("q"));
    assert_eq!(post.title(), Some("q"));
}

#[test]
fn a_document_without_front_matter_is_no_post() {
    assert_eq!(PostParser::parse_post("# just markdown", "a.md", "", 0), Ok(None));
    assert_eq!(PostParser::parse_post("", "a.md", "", 0), Ok(None));
}

#[test]
fn front_matter_that_is_no_yaml_is_an_error() {
    let r = PostParser::parse_post("---\na: [unclosed\n---\nbody", "source/bad.md", "source", 0);
    match r {
        Err(Error::Markdown(message)) => {
            assert!(message.starts_with("解析front matter失败 \"source/bad.md\": "), "{}", message);
        }
        other => panic!("{:?}", other),
    }
}

#[test]
fn assembling_reads_the_document_that_it_is_given() {
    let doc: serde_yaml::Value = serde_yaml::from_str("title: T\ntags: [a, b]\n").unwrap();
    let post = PostParser::assemble(&doc, "hi", "source/c/x.md", "source", 5);
    assert_eq!(post.title(), Some("T"));
    assert_eq!(post.slug(), Some("x"));
    assert_eq!(post.tags(), list(&["a", "b"]));
    assert_eq!(post.categories(), list(&["c"]));
    assert_eq!(post.content(), Some("<p>hi</p>\n"));
}

#[test]
fn markdown_is_rendered_to_html() {
    assert_eq!(PostParser::markdown_to_html("# Title"), "<h1>Title</h1>\n");
    assert_eq!(PostParser::markdown_to_html(""), "");
    assert_eq!(
        PostParser::markdown_to_html("a [link](http://x) and `code`"),
        "<p>a <a href=\"http://x\">link</a> and <code>code</code></p>\n"
    );
    // smart punctuation is not switched on
    assert_eq!(PostParser::markdown_to_html("\"q\" -- x"), "<p>\"q\" -- x</p>\n");
}

#[test]
fn every_document_with_front_matter_gives_a_post_or_an_error() {
    let files = vec![
        file("a.md", "---\nx: 1\n---\n", 0),
        file("b.md", "---\n[\n---\n", 0),
        file("c.txt", "---\nx: 1\n---\n", 0),
        file("d.md", "nothing", 0),
        file("e.md", "+++\ny: 2\n+++\n", 0),
    ];
    let (posts, warnings) = PostParser::list_posts(&files, "");
    assert_eq!(posts.len(), 2);
    assert_eq!(warnings.len(), 1);
}

#[test]
fn markdown_extensions_are_switched_on() {
    let doc: serde_yaml::Value = serde_yaml::from_str("{}").unwrap();
    let post = PostParser::assemble(&doc, "~~gone~~\n\n- [x] done\n", "x.md", "", 0);
    let html = post.content().unwrap().to_string();
    assert!(html.contains("<del>gone</del>"), "{}", html);
    assert!(html.contains("type=\"checkbox\""), "{}", html);
    let post = PostParser::assemble(&doc, "| a | b |\n|---|---|\n| 1 | 2 |\n", "x.md", "", 0);
    assert!(post.content().unwrap().contains("<table>"));
}

#[test]
fn posts_are_listed_newest_first_and_bad_documents_are_left_out() {
    let files = vec![
        file("source/a.md", "---\ncreateTime: 2024-01-02\n---\nA", 1),
        file("source/notes.txt", "---\ncreateTime: 2030-01-01\n---\nT", 1),
        file("source/b.md", "---\ncreateTime: 2024-05-01\n---\nB", 2),
        file("source/bad.md", "---\n: : :\n  - [\n---\nX", 3),
        file("source/plain.md", "no front matter", 4),
        file("source/x/c.md", "---\ncreateTime: 2024-01-02\n---\nC", 5),
        file("source/d.md", "---\ntitle: undated\n---\nD", 6),
    ];
    let (posts, warnings) = PostParser::list_posts(&files, "source");
    let slugs: Vec<&str> = posts.iter().map(|p| p.slug().unwrap()).collect();
    assert_eq!(slugs, vec!["b", "a", "c", "d"]);
    assert_eq!(warnings.len(), 1);
    assert!(matches!(warnings[0], Error::Markdown(_)));
    assert_eq!(posts[2].categories(), list(&["x"]));
    let (posts, warnings) = PostParser::list_posts(&Vec::new(), "source");
    assert!(posts.is_empty() && warnings.is_empty());
}

#[test]
fn accessors_give_what_the_post_holds() {
    let post = Post {
        title: None,
        slug: Some("s".to_string()),
        content: None,
        categories: list(&["a"]),
        tags: list(&["t", "u"]),
        date: Some("2024-01-01".to_string()),
        year: None,
        year_month: None,
        modified_epoch: None,
    };
    assert_eq!(post.title(), None);
    assert_eq!(post.slug(), Some("s"));
    assert_eq!(post.content(), None);
    assert_eq!(post.categories(), list(&["a"]));
    assert_eq!(post.tags(), list(&["t", "u"]));
    assert_eq!(post.date(), Some("2024-01-01"));
    assert_eq!(post.modified_epoch(), None);
    assert_eq!(post.date_key(), "2024-01-01".chars().collect::<Vec<char>>());
}

#[test]
fn a_document_is_handed_out_with_its_front_matter() {
    let found = PostParser::parse_document(
        "---\ntitle: F\nfriends:\n  - name: a\n---\nbody",
        "source/friends.md",
        "source",
        1,
    )
    .unwrap()
    .unwrap();
    assert_eq!(found.0.title(), Some("F"));
    assert_eq!(found.0.content(), Some("<p>body</p>\n"));
    assert_eq!(found.1["friends"][0]["name"].as_str(), Some("a"));
    assert_eq!(PostParser::parse_document("plain", "a.md", "", 0), Ok(None));
    assert!(matches!(
        PostParser::parse_document("---\n[\n---\n", "a.md", "", 0),
        Err(Error::Markdown(_))
    ));
}

#[test]
fn good_documents_give_posts_whatever_stands_among_them() {
    let mut files = Vec::new();
    for i in 0..7 {
        files.push(file(&format!("d{}.md", i), &format!("---\ncreateTime: 2024-01-0{}\n---\nx", i + 1), 0));
    }
    files.insert(3, file("bad.md", "---\n{ [\n---\n", 0));
    let (posts, warnings) = PostParser::list_posts(&files, "");
    let slugs: Vec<&str> = posts.iter().map(|p| p.slug().unwrap()).collect();
    assert_eq!(slugs, vec!["d6", "d5", "d4", "d3", "d2", "d1", "d0"]);
    assert_eq!(warnings.len(), 1);
    match &warnings[0] {
        Error::Markdown(text) => assert!(text.starts_with("解析front matter失败 \"bad.md\": "), "{}", text),
        other => panic!("{:?}", other),
    }
}
