use std::cmp::Ordering;

use moss::repo::{ModRepoItem, ModSource};
use moss::repo_order::{compare_listings, Filter, Metadata};

fn listing(name: &str, authors: Option<&[&str]>, created: Option<i64>, edited: Option<i64>, score: Option<isize>) -> ModRepoItem {
    ModRepoItem {
        name: name.to_string(),
        summary: None,
        description: None,
        mod_version: None,
        game_version: None,
        authors: authors.map(|a| a.iter().map(|s| s.to_string()).collect()),
        urls: None,
        sources: None,
        categories: None,
        created,
        edited,
        show_description: false,
        display: true,
        score,
    }
}

#[test]
fn listing_orders() {
    let a = listing("Alpha", Some(&["Zed"]), Some(10), None, Some(3));
    let b = listing("Beta", Some(&["Zed", "Amy"]), Some(20), Some(5), None);
    assert_eq!(compare_listings(Metadata::Name, &a, &b), Ordering::Less);
    assert_eq!(compare_listings(Metadata::Created, &a, &b), Ordering::Greater);
    assert_eq!(compare_listings(Metadata::Updated, &a, &b), Ordering::Less);
    assert_eq!(compare_listings(Metadata::Authors, &a, &b), Ordering::Less);
    assert_eq!(compare_listings(Metadata::Authors, &b, &b), Ordering::Equal);
    assert_eq!(compare_listings(Metadata::Score, &a, &b), Ordering::Less);
    let none = listing("Gamma", None, None, None, None);
    assert_eq!(compare_listings(Metadata::Authors, &none, &a), Ordering::Less);
    assert_eq!(compare_listings(Metadata::Created, &none, &a), Ordering::Greater);
}

#[test]
fn listing_order_matches_the_fields_order() {
    let items = [
        listing("b", Some(&["x", "y"]), Some(1), Some(9), Some(-1)),
        listing("a", Some(&["x"]), None, Some(2), None),
        listing("a", None, Some(3), None, Some(7)),
        listing("c", Some(&["w", "zz"]), Some(3), Some(3), Some(7)),
    ];
    for l in &items {
        for r in &items {
            assert_eq!(compare_listings(Metadata::Name, l, r), l.name.cmp(&r.name));
            assert_eq!(compare_listings(Metadata::Created, l, r), r.created.cmp(&l.created));
            assert_eq!(compare_listings(Metadata::Updated, l, r), r.edited.or(r.created).cmp(&l.edited.or(l.created)));
            assert_eq!(compare_listings(Metadata::Authors, l, r), l.authors.cmp(&r.authors));
            assert_eq!(compare_listings(Metadata::Score, l, r), r.score.cmp(&l.score));
        }
    }
}

#[test]
fn listing_labels() {
    assert_eq!(Metadata::default_sorting(), Metadata::Name);
    assert_eq!(Metadata::Updated.label(), "Updated At");
    assert_eq!(Metadata::Authors.label(), "Author(s)");
    assert_eq!(Filter::Source(ModSource::Discord).label(), "Discord");
    assert_eq!(Filter::Search("lazy".to_string()).label(), "Search");
}
