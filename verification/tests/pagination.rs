use rustpress::error::Error;
use rustpress::listing::Listing;
use rustpress::paginate::{
    page_file_name, page_number_of, page_of, paginate, total_pages, Feed, Page,
};

#[test]
fn twenty_two_items_make_three_pages() {
    assert_eq!(total_pages(22, 10), 3);
    let oldest = paginate(22, 10, 1).unwrap();
    assert_eq!((oldest.start, oldest.end), (12, 22));
    let middle = paginate(22, 10, 2).unwrap();
    assert_eq!((middle.start, middle.end), (2, 12));
    let newest = paginate(22, 10, 3).unwrap();
    assert_eq!((newest.start, newest.end), (0, 2));
    assert_eq!(Feed::Home.page_url(1, 3), "/index1.html");
    assert_eq!(Feed::Home.page_url(2, 3), "/index2.html");
    assert_eq!(Feed::Home.page_url(3, 3), "/index.html");
    assert!(newest.is_canonical());
    assert!(!oldest.is_canonical());
    assert_eq!(newest.display_number(), 1);
    assert_eq!(middle.display_number(), 2);
    assert_eq!(oldest.display_number(), 3);
}

#[test]
fn an_empty_feed_has_one_empty_page() {
    assert_eq!(total_pages(0, 10), 1);
    assert_eq!(paginate(0, 10, 1), Ok(Page { number: 1, total_pages: 1, start: 0, end: 0 }));
}

#[test]
fn total_pages_rounds_up() {
    assert_eq!(total_pages(1, 10), 1);
    assert_eq!(total_pages(10, 10), 1);
    assert_eq!(total_pages(11, 10), 2);
    assert_eq!(total_pages(20, 10), 2);
    assert_eq!(total_pages(21, 10), 3);
    assert_eq!(total_pages(7, 1), 7);
    assert_eq!(total_pages(usize::MAX, 1), usize::MAX);
    assert_eq!(total_pages(usize::MAX, usize::MAX), 1);
}

#[test]
fn a_page_outside_the_feed_is_an_error() {
    assert_eq!(paginate(22, 10, 0), Err(Error::InvalidPage { page: 0, total_pages: 3 }));
    assert_eq!(paginate(22, 10, 4), Err(Error::InvalidPage { page: 4, total_pages: 3 }));
    assert_eq!(paginate(0, 10, 2), Err(Error::InvalidPage { page: 2, total_pages: 1 }));
    assert!(paginate(22, 10, 3).is_ok());
}

#[test]
fn the_lengths_of_the_pages_add_up() {
    for n in 0..60usize {
        for size in 1..9usize {
            let total = total_pages(n, size);
            let mut sum = 0;
            let mut next_end = n;
            for number in 1..=total {
                let page = paginate(n, size, number).unwrap();
                assert_eq!(page.end, next_end);
                if number < total {
                    assert_eq!(page.len(), size);
                }
                sum += page.len();
                next_end = page.start;
            }
            assert_eq!(next_end, 0);
            assert_eq!(sum, n);
        }
    }
}

#[test]
fn every_item_lies_on_the_page_that_page_of_names() {
    for n in 1..40usize {
        for size in 1..7usize {
            for index in 0..n {
                let number = page_of(n, size, index);
                let page = paginate(n, size, number).unwrap();
                assert!(page.start <= index && index < page.end);
            }
        }
    }
    assert_eq!(page_of(22, 10, 0), 3);
    assert_eq!(page_of(22, 10, 1), 3);
    assert_eq!(page_of(22, 10, 2), 2);
    assert_eq!(page_of(22, 10, 11), 2);
    assert_eq!(page_of(22, 10, 12), 1);
    assert_eq!(page_of(22, 10, 21), 1);
}

#[test]
fn the_newest_item_is_on_the_canonical_page() {
    for n in 1..40usize {
        for size in 1..7usize {
            let total = total_pages(n, size);
            let page = paginate(n, size, total).unwrap();
            assert_eq!(page.start, 0);
            assert!(page.end > 0);
            assert_eq!(page_of(n, size, 0), total);
        }
    }
}

#[test]
fn growth_leaves_full_pages_alone() {
    for n in 0..40usize {
        for size in 1..7usize {
            let before = total_pages(n, size);
            let after = total_pages(n + 1, size);
            assert!(after == before || after == before + 1);
            for number in 1..=before {
                let old = paginate(n, size, number).unwrap();
                if old.len() == size {
                    let new = paginate(n + 1, size, number).unwrap();
                    // the same items: one place further from the newest end
                    assert_eq!((new.start, new.end), (old.start + 1, old.end + 1));
                }
                if number < before {
                    assert_eq!(page_file_name(number, before), page_file_name(number, after));
                }
            }
        }
    }
    assert_eq!(total_pages(20, 10), 2);
    assert_eq!(total_pages(21, 10), 3);
}

#[test]
fn file_names_carry_the_own_number() {
    assert_eq!(page_file_name(3, 3), "index.html");
    assert_eq!(page_file_name(1, 3), "index1.html");
    assert_eq!(page_file_name(12, 30), "index12.html");
    assert_eq!(page_file_name(1, 1), "index.html");
    assert_eq!(page_file_name(0, 1), "index0.html");
    assert_eq!(page_file_name(1234567890, 0), "index1234567890.html");
}

#[test]
fn feeds_have_their_own_directories() {
    let tag = Feed::Tag("rust".to_string());
    assert_eq!(tag.page_url(2, 2), "/tags/rust/index.html");
    assert_eq!(tag.page_url(1, 2), "/tags/rust/index1.html");
    assert_eq!(tag.page_path(1, 2), "tags/rust/index1.html");
    assert_eq!(tag.directory(), "tags/rust/");
    let category = Feed::Category(vec!["A".to_string(), "B".to_string()]);
    assert_eq!(category.page_url(5, 5), "/A/B/index.html");
    assert_eq!(category.page_url(4, 5), "/A/B/index4.html");
    assert_eq!(category.page_path(5, 5), "A/B/index.html");
    assert_eq!(Feed::Home.page_path(2, 3), "index2.html");
    assert_eq!(Feed::Home.directory(), "");
    assert_eq!(category.duplicate(), category);
}

#[test]
fn navigation_points_to_the_neighbours() {
    let oldest = paginate(22, 10, 1).unwrap();
    assert_eq!(oldest.previous(), Some(2));
    assert_eq!(oldest.next(), None);
    assert!(oldest.has_previous());
    assert!(!oldest.has_next());
    let newest = paginate(22, 10, 3).unwrap();
    assert_eq!(newest.previous(), None);
    assert_eq!(newest.next(), Some(2));
    assert!(!newest.has_previous());
    assert!(newest.has_next());
    let only = paginate(3, 10, 1).unwrap();
    assert_eq!(only.previous(), None);
    assert_eq!(only.next(), None);
}

#[test]
fn a_listing_shows_a_page_with_its_surroundings() {
    let members: Vec<usize> = (100..122).collect();
    let feed = Feed::Tag("t".to_string());
    let listing: Listing = feed.listing(&members, 10, 2).unwrap();
    assert_eq!(listing.page, Page { number: 2, total_pages: 3, start: 2, end: 12 });
    assert_eq!(listing.items, (102..112).collect::<Vec<usize>>());
    assert_eq!(listing.previous, Some("/tags/t/index.html".to_string()));
    assert_eq!(listing.next, Some("/tags/t/index1.html".to_string()));
    assert_eq!(listing.total_posts, 22);
    assert_eq!(listing.start_index, 11);
    assert_eq!(listing.end_index, 20);
    assert_eq!(listing.pages.len(), 3);
    assert_eq!(listing.pages[0].number, 3);
    assert_eq!(listing.pages[0].url, "/tags/t/index1.html");
    assert!(!listing.pages[0].is_current);
    assert_eq!(listing.pages[1].number, 2);
    assert!(listing.pages[1].is_current);
    assert_eq!(listing.pages[2].number, 1);
    assert_eq!(listing.pages[2].url, "/tags/t/index.html");
    let newest = feed.listing(&members, 10, 3).unwrap();
    assert_eq!(newest.items, vec![100, 101]);
    assert_eq!((newest.start_index, newest.end_index), (21, 22));
    assert_eq!(newest.previous, None);
    let empty = Feed::Home.listing(&Vec::new(), 10, 1).unwrap();
    assert_eq!((empty.start_index, empty.end_index, empty.total_posts), (0, 0, 0));
    assert!(empty.items.is_empty());
    assert_eq!(empty.pages.len(), 1);
    assert_eq!(
        feed.listing(&members, 10, 4),
        Err(Error::InvalidPage { page: 4, total_pages: 3 })
    );
}

#[test]
fn a_numbered_file_name_names_its_page() {
    assert_eq!(page_number_of("index1.html"), Some(1));
    assert_eq!(page_number_of("index12.html"), Some(12));
    assert_eq!(page_number_of("index0.html"), Some(0));
    assert_eq!(page_number_of("index.html"), None);
    assert_eq!(page_number_of("index01.html"), None);
    assert_eq!(page_number_of("index+1.html"), None);
    assert_eq!(page_number_of("index1a.html"), None);
    assert_eq!(page_number_of("index-1.html"), None);
    assert_eq!(page_number_of("index1.htm"), None);
    assert_eq!(page_number_of("Index1.html"), None);
    assert_eq!(page_number_of("xindex1.html"), None);
    assert_eq!(page_number_of("index１.html"), None);
    assert_eq!(page_number_of(""), None);
    assert_eq!(page_number_of(&format!("index{}.html", usize::MAX)), Some(usize::MAX));
    assert_eq!(page_number_of(&format!("index{}0.html", usize::MAX)), None);
    assert_eq!(page_number_of("index99999999999999999999999999.html"), None);
    for total in [1usize, 5, 40] {
        for page in 0..60usize {
            let name = page_file_name(page, total);
            let expected = if page == total { None } else { Some(page) };
            assert_eq!(page_number_of(&name), expected);
        }
    }
}
