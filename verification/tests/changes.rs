use rustpress::changes::{
    affected_pages, affected_sets, category_paths_at, classify, needs_tags_overview, tags_at,
    year_members, year_of, years_at,
};
use rustpress::post::{Post, PostParser};

fn post(slug: &str, date: &str, modified: i64, tags: &[&str], categories: &[&str]) -> Post {
    Post {
        title: Some(slug.to_string()),
        slug: Some(slug.to_string()),
        content: Some(String::new()),
        categories: categories.iter().map(|c| c.to_string()).collect(),
        tags: tags.iter().map(|t| t.to_string()).collect(),
        date: Some(date.to_string()),
        year: None,
        year_month: None,
        modified_epoch: Some(modified),
    }
}

fn twenty_two(newest_modified: i64) -> Vec<Post> {
    let mut posts = Vec::new();
    for i in 0..22 {
        let day = 22 - i;
        let modified = if i == 0 { newest_modified } else { 100 };
        posts.push(post(&format!("p{}", i), &format!("2024-01-{:02}", day), modified, &["t"], &[]));
    }
    posts
}

#[test]
fn no_earlier_build_means_everything_changed() {
    let posts = vec![
        post("a", "2024-01-03", 500, &[], &[]),
        post("b", "2024-01-02", 0, &[], &[]),
        post("c", "2024-01-01", -7, &[], &[]),
    ];
    let (changed, unchanged) = classify(&posts, 0);
    assert_eq!(changed, vec![0, 1, 2]);
    assert!(unchanged.is_empty());
}

#[test]
fn a_post_changed_when_it_was_modified_after_the_build() {
    let mut posts = vec![
        post("a", "2024-01-03", 1001, &[], &[]),
        post("b", "2024-01-02", 1000, &[], &[]),
        post("c", "2024-01-01", 999, &[], &[]),
        post("d", "2023-01-01", 5000, &[], &[]),
    ];
    posts[2].modified_epoch = None;
    let (changed, unchanged) = classify(&posts, 1000);
    assert_eq!(changed, vec![0, 3]);
    assert_eq!(unchanged, vec![1, 2]);
    let (changed, unchanged) = classify(&Vec::new(), 1000);
    assert!(changed.is_empty() && unchanged.is_empty());
}

#[test]
fn changing_the_newest_post_touches_only_the_canonical_page() {
    let posts = twenty_two(2000);
    let affected = affected_sets(&posts, 1000, 10, 2, &vec!["t".to_string()]);
    assert_eq!(affected.changed, vec![0]);
    assert_eq!(affected.pages, vec![3]);
    assert_eq!(affected.tags, vec!["t".to_string()]);
    assert!(!affected.tags_overview);
    assert!(affected.categories.is_empty());
    assert_eq!(affected.years, vec!["2024".to_string()]);
}

#[test]
fn a_changed_post_touches_the_page_that_holds_it() {
    // the post at place 2 lies on page 2 of 3
    assert_eq!(affected_pages(22, 10, &vec![2], 2), vec![2]);
    assert_eq!(affected_pages(22, 10, &vec![21, 0, 12], 2), vec![1, 3]);
    assert_eq!(affected_pages(22, 10, &Vec::new(), 2), Vec::<usize>::new());
    assert_eq!(affected_pages(0, 10, &Vec::new(), 0), Vec::<usize>::new());
}

#[test]
fn new_page_numbers_are_written() {
    // 21 posts make pages 1, 2 and the canonical page 3; only index1.html exists
    assert_eq!(affected_pages(21, 10, &vec![0], 1), vec![2, 3]);
    // nothing exists yet
    assert_eq!(affected_pages(21, 10, &vec![0], 0), vec![1, 2, 3]);
    assert_eq!(affected_pages(21, 10, &Vec::new(), 0), vec![1, 2]);
    // more exists than is needed
    assert_eq!(affected_pages(21, 10, &vec![0], 7), vec![3]);
}

#[test]
fn affected_tags_are_the_tags_of_the_changed_posts() {
    let posts = vec![
        post("a", "2024-01-03", 2000, &["x", "y", "x"], &[]),
        post("b", "2024-01-02", 10, &["z"], &[]),
        post("c", "2024-01-01", 2000, &["y", "w"], &[]),
    ];
    let affected = affected_sets(&posts, 1000, 10, 0, &vec!["x".to_string(), "y".to_string()]);
    assert_eq!(affected.tags, vec!["x".to_string(), "y".to_string(), "w".to_string()]);
    assert!(affected.tags_overview);
    assert_eq!(tags_at(&posts, &vec![1]), vec!["z".to_string()]);
    assert!(tags_at(&posts, &Vec::new()).is_empty());
}

#[test]
fn the_overview_of_tags_is_written_for_a_new_tag() {
    let existing = vec!["a".to_string(), "b".to_string()];
    assert!(!needs_tags_overview(&vec!["b".to_string(), "a".to_string()], &existing));
    assert!(needs_tags_overview(&vec!["b".to_string(), "c".to_string()], &existing));
    assert!(!needs_tags_overview(&Vec::new(), &existing));
    assert!(needs_tags_overview(&vec!["a".to_string()], &Vec::new()));
}

#[test]
fn category_paths_hold_every_prefix() {
    let posts = vec![
        post("a", "2024-01-03", 1, &[], &["A", "B", "C"]),
        post("b", "2024-01-02", 1, &[], &["A", "D"]),
        post("c", "2024-01-01", 1, &[], &[]),
        post("d", "2024-01-01", 1, &[], &["E"]),
    ];
    let paths = PostParser::category_paths(&posts);
    let expected: Vec<Vec<String>> = vec![
        vec!["A".to_string()],
        vec!["A".to_string(), "B".to_string()],
        vec!["A".to_string(), "B".to_string(), "C".to_string()],
        vec!["A".to_string(), "D".to_string()],
        vec!["E".to_string()],
    ];
    assert_eq!(paths, expected);
    let some = category_paths_at(&posts, &vec![1, 3]);
    assert_eq!(
        some,
        vec![
            vec!["A".to_string()],
            vec!["A".to_string(), "D".to_string()],
            vec!["E".to_string()]
        ]
    );
}

#[test]
fn the_year_is_the_start_of_the_date() {
    assert_eq!(year_of(&Some("2024-05-06".to_string())), Some("2024".to_string()));
    assert_eq!(year_of(&Some("2024".to_string())), Some("2024".to_string()));
    assert_eq!(year_of(&Some("202".to_string())), None);
    assert_eq!(year_of(&Some(String::new())), None);
    assert_eq!(year_of(&None), None);
    let mut posts = vec![
        post("a", "2024-01-03", 1, &[], &[]),
        post("b", "2023-01-02", 1, &[], &[]),
        post("c", "2024-01-01", 1, &[], &[]),
        post("d", "x", 1, &[], &[]),
    ];
    posts[3].date = None;
    assert_eq!(years_at(&posts, &vec![0, 1, 2, 3]), vec!["2024".to_string(), "2023".to_string()]);
}

#[test]
fn the_archive_of_a_year_lists_the_posts_of_that_year() {
    let mut posts = vec![
        post("a", "2024-01-03", 1, &[], &[]),
        post("b", "2023-01-02", 1, &[], &[]),
        post("c", "2024", 1, &[], &[]),
        post("d", "202", 1, &[], &[]),
        post("e", "2024-12-31", 1, &[], &[]),
    ];
    posts[1].year = Some("2024".to_string());
    assert_eq!(year_members(&posts, "2024"), vec![0, 2, 4]);
    assert_eq!(year_members(&posts, "2023"), vec![1]);
    assert!(year_members(&posts, "202").is_empty());
    assert!(year_members(&posts, "").is_empty());
    assert!(year_members(&Vec::new(), "2024").is_empty());
}
