use rustpress::paginate::{total_pages, Feed};
use rustpress::post::{sort_posts, Post, PostParser};
use rustpress::taxonomy::{census, child_list, count_below, count_holding, NameCount};

fn post(slug: &str, date: Option<&str>, tags: &[&str], categories: &[&str]) -> Post {
    Post {
        title: Some(slug.to_string()),
        slug: Some(slug.to_string()),
        content: None,
        categories: categories.iter().map(|c| c.to_string()).collect(),
        tags: tags.iter().map(|t| t.to_string()).collect(),
        date: date.map(|d| d.to_string()),
        year: date.filter(|d| d.len() >= 4).map(|d| d[0..4].to_string()),
        year_month: None,
        modified_epoch: None,
    }
}

fn entry(name: &str, count: usize) -> NameCount {
    NameCount { name: name.to_string(), count }
}

#[test]
fn tags_are_counted_by_posts_and_ordered_by_name() {
    let posts = vec![
        post("a", Some("2024-01-03"), &["rust", "blog", "rust"], &[]),
        post("b", Some("2024-01-02"), &["zeta", "Rust"], &[]),
        post("c", Some("2024-01-01"), &["blog"], &[]),
    ];
    assert_eq!(
        PostParser::collect_tags(&posts),
        vec![entry("Rust", 1), entry("blog", 2), entry("rust", 1), entry("zeta", 1)]
    );
    assert!(PostParser::collect_tags(&Vec::new()).is_empty());
}

#[test]
fn years_are_counted_and_ordered() {
    let mut posts = vec![
        post("a", Some("2024-01-03"), &[], &[]),
        post("b", Some("2022-01-02"), &[], &[]),
        post("c", Some("2024-01-01"), &[], &[]),
        post("d", None, &[], &[]),
    ];
    posts[3].year = None;
    assert_eq!(PostParser::collect_years(&posts), vec![entry("2022", 1), entry("2024", 2)]);
}

#[test]
fn a_census_counts_lists_that_hold_a_name() {
    let labels = vec![
        vec!["b".to_string(), "a".to_string()],
        vec![],
        vec!["a".to_string(), "a".to_string()],
    ];
    assert_eq!(census(&labels), vec![entry("a", 2), entry("b", 1)]);
    assert_eq!(count_holding(&labels, "a"), 2);
    assert_eq!(count_holding(&labels, "c"), 0);
}

#[test]
fn the_category_tree_counts_posts_below_each_path() {
    let posts = vec![
        post("a", Some("2024-01-05"), &[], &["tech", "rust"]),
        post("b", Some("2024-01-04"), &[], &["tech", "go"]),
        post("c", Some("2024-01-03"), &[], &["life"]),
        post("d", Some("2024-01-02"), &[], &["tech", "rust", "async"]),
        post("e", Some("2024-01-01"), &[], &[]),
        post("f", Some("2024-01-01"), &[], &["tech"]),
    ];
    let tree = PostParser::generate_hierarchical_categories(&posts);
    let paths: Vec<String> = tree.nodes.iter().map(|n| n.path.join("/")).collect();
    assert_eq!(paths, vec!["tech", "tech/rust", "tech/go", "life", "tech/rust/async"]);
    let names: Vec<&str> = tree.nodes.iter().map(|n| n.name.as_str()).collect();
    assert_eq!(names, vec!["tech", "rust", "go", "life", "async"]);
    let counts: Vec<usize> = tree.nodes.iter().map(|n| n.count).collect();
    assert_eq!(counts, vec![4, 2, 1, 1, 1]);
    // life before tech; go before rust
    assert_eq!(tree.roots, vec![3, 0]);
    assert_eq!(tree.nodes[0].children, vec![2, 1]);
    assert_eq!(tree.nodes[1].children, vec![4]);
    assert!(tree.nodes[2].children.is_empty());
    assert!(tree.nodes[3].children.is_empty());
    for node in &tree.nodes {
        for child in &node.children {
            assert!(tree.nodes[*child].count <= node.count);
        }
    }
    let empty = PostParser::generate_hierarchical_categories(&Vec::new());
    assert!(empty.nodes.is_empty() && empty.roots.is_empty());
}

#[test]
fn children_are_found_by_their_parent() {
    let paths: Vec<Vec<String>> = vec![
        vec!["b".to_string()],
        vec!["b".to_string(), "y".to_string()],
        vec!["a".to_string()],
        vec!["b".to_string(), "x".to_string()],
        vec!["a".to_string(), "x".to_string()],
    ];
    assert_eq!(child_list(&paths, &Vec::new()), vec![2, 0]);
    assert_eq!(child_list(&paths, &vec!["b".to_string()]), vec![3, 1]);
    assert_eq!(child_list(&paths, &vec!["a".to_string()]), vec![4]);
    assert!(child_list(&paths, &vec!["c".to_string()]).is_empty());
}

#[test]
fn posts_below_a_path_are_counted() {
    let posts = vec![
        post("a", None, &[], &["x", "y"]),
        post("b", None, &[], &["x"]),
        post("c", None, &[], &["xy"]),
    ];
    assert_eq!(count_below(&posts, &vec!["x".to_string()]), 2);
    assert_eq!(count_below(&posts, &vec!["x".to_string(), "y".to_string()]), 1);
    assert_eq!(count_below(&posts, &Vec::new()), 3);
    assert_eq!(count_below(&posts, &vec!["y".to_string()]), 0);
}

#[test]
fn posts_are_ordered_newest_first_and_keep_their_order_within_a_day() {
    let posts = vec![
        post("a", Some("2024-01-02"), &[], &[]),
        post("b", None, &[], &[]),
        post("c", Some("2024-03-01"), &[], &[]),
        post("d", Some("2024-01-02"), &[], &[]),
        post("e", Some(""), &[], &[]),
        post("f", Some("2024-03-01"), &[], &[]),
        post("g", Some("2023-12-31"), &[], &[]),
    ];
    let sorted = sort_posts(posts);
    let slugs: Vec<&str> = sorted.iter().map(|p| p.slug().unwrap()).collect();
    assert_eq!(slugs, vec!["c", "f", "a", "d", "g", "b", "e"]);
    assert!(sort_posts(Vec::new()).is_empty());
}

#[test]
fn the_canonical_page_shows_the_post_of_the_latest_date() {
    let mut posts = Vec::new();
    for (i, day) in [7, 21, 3, 14, 9, 1, 30, 12, 25].iter().enumerate() {
        posts.push(post(&format!("p{}", i), Some(&format!("2024-05-{:02}", day)), &[], &[]));
    }
    let latest = "2024-05-30";
    for size in 1..12 {
        let sorted = sort_posts(posts.clone());
        let members = Feed::Home.members(&sorted);
        let total = total_pages(members.len(), size);
        let listing = Feed::Home.listing(&members, size, total).unwrap();
        assert!(listing.page.is_canonical());
        assert_eq!(sorted[listing.items[0]].date(), Some(latest));
        assert!(sorted.iter().all(|p| p.date().unwrap() <= latest));
    }
}

#[test]
fn a_feed_holds_the_posts_that_belong_to_it() {
    let posts = vec![
        post("a", Some("2024-01-05"), &["x"], &["tech", "rust"]),
        post("b", Some("2024-01-04"), &["y", "x"], &["tech"]),
        post("c", Some("2024-01-03"), &[], &["life"]),
        post("d", Some("2024-01-02"), &["y"], &["technology"]),
    ];
    assert_eq!(Feed::Home.members(&posts), vec![0, 1, 2, 3]);
    assert_eq!(Feed::Tag("x".to_string()).members(&posts), vec![0, 1]);
    assert_eq!(Feed::Tag("y".to_string()).members(&posts), vec![1, 3]);
    assert!(Feed::Tag("z".to_string()).members(&posts).is_empty());
    assert_eq!(Feed::Category(vec!["tech".to_string()]).members(&posts), vec![0, 1]);
    assert_eq!(Feed::Category(vec!["tech".to_string(), "rust".to_string()]).members(&posts), vec![0]);
    assert_eq!(Feed::Category(Vec::new()).members(&posts), vec![0, 1, 2, 3]);
}
