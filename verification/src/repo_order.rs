//! The orders and filters of the mod repository browser.

use vstd::prelude::*;
use std::cmp::Ordering;

use crate::repo::{source_label, ModRepoItem, ModSource};
use crate::sorting::{compare_scores, compare_text, flipped, lemma_text_order_flips, score_order, text_order};

verus! {

/// What the repository listing is sorted by.
#[derive(Debug, Clone, Copy, PartialEq, Eq, Structural)]
pub enum Metadata {
    Name,
    Created,
    Updated,
    Authors,
    Score,
}

/// What narrows the repository listing: a source, or the search box.
#[derive(Debug, Clone, PartialEq, Eq)]
pub enum Filter {
    Source(ModSource),
    Search(String),
}

/// How a filter is named in the listing's controls.
pub open spec fn filter_label(f: Filter) -> Seq<char> {
    match f {
        Filter::Source(s) => source_label(s),
        Filter::Search(_) => "Search"@,
    }
}

impl Filter {
    /// The filter's name: its source's, or `Search`.
    pub fn label(&self) -> (r: &'static str)
        ensures
            r@ == filter_label(*self),
    {
        match self {
            Filter::Source(s) => s.label(),
            Filter::Search(_) => "Search",
        }
    }
}

/// How a sorting is named; the score has no name.
pub open spec fn metadata_label(m: Metadata) -> Seq<char> {
    match m {
        Metadata::Name => "Name"@,
        Metadata::Created => "Created At"@,
        Metadata::Updated => "Updated At"@,
        Metadata::Authors => "Author(s)"@,
        Metadata::Score => seq![],
    }
}

impl Metadata {
    /// The listing's sorting when none is chosen.
    pub fn default_sorting() -> (r: Metadata)
        ensures
            r == Metadata::Name,
    {
        Metadata::Name
    }

    /// The sorting's name, for every sorting but the score.
    pub fn label(&self) -> (r: &'static str)
        requires
            *self != Metadata::Score,
        ensures
            r@ == metadata_label(*self),
    {
        match self {
            Metadata::Name => "Name",
            Metadata::Created => "Created At",
            Metadata::Updated => "Updated At",
            Metadata::Authors => "Author(s)",
            Metadata::Score => "",
        }
    }
}

/// The order of two optional times: no time first, then earlier first.
pub open spec fn time_order(a: Option<i64>, b: Option<i64>) -> Ordering {
    match (a, b) {
        (None, None) => Ordering::Equal,
        (None, Some(_)) => Ordering::Less,
        (Some(_), None) => Ordering::Greater,
        (Some(x), Some(y)) => if x == y {
            Ordering::Equal
        } else if x < y {
            Ordering::Less
        } else {
            Ordering::Greater
        },
    }
}

/// The order of two lists of texts: element by element, a list before the
/// longer lists it begins.
pub open spec fn texts_order(a: Seq<Seq<char>>, b: Seq<Seq<char>>) -> Ordering
    decreases a.len(),
{
    if a.len() == 0 {
        if b.len() == 0 {
            Ordering::Equal
        } else {
            Ordering::Less
        }
    } else if b.len() == 0 {
        Ordering::Greater
    } else if text_order(a[0], b[0]) != Ordering::Equal {
        text_order(a[0], b[0])
    } else {
        texts_order(a.skip(1), b.skip(1))
    }
}

/// The order of two optional author lists: no list first.
pub open spec fn authors_order(a: Option<Seq<Seq<char>>>, b: Option<Seq<Seq<char>>>) -> Ordering {
    match (a, b) {
        (None, None) => Ordering::Equal,
        (None, Some(_)) => Ordering::Less,
        (Some(_), None) => Ordering::Greater,
        (Some(x), Some(y)) => texts_order(x, y),
    }
}

/// When a listing was last changed: its edit, else its creation.
pub open spec fn last_change(i: ModRepoItem) -> Option<i64> {
    match i.edited {
        Some(t) => Some(t),
        None => i.created,
    }
}

/// The order of two listings under a sorting: names and authors ascending,
/// times and scores newest or highest first.
pub open spec fn listing_order(m: Metadata, l: ModRepoItem, r: ModRepoItem) -> Ordering {
    match m {
        Metadata::Name => text_order(l.name@, r.name@),
        Metadata::Created => time_order(r.created, l.created),
        Metadata::Updated => time_order(last_change(r), last_change(l)),
        Metadata::Authors => authors_order(l.authors.deep_view(), r.authors.deep_view()),
        Metadata::Score => score_order(r.score, l.score),
    }
}

fn compare_times(a: Option<i64>, b: Option<i64>) -> (r: Ordering)
    ensures
        r == time_order(a, b),
{
    match (a, b) {
        (None, None) => Ordering::Equal,
        (None, Some(_)) => Ordering::Less,
        (Some(_), None) => Ordering::Greater,
        (Some(x), Some(y)) => if x == y {
            Ordering::Equal
        } else if x < y {
            Ordering::Less
        } else {
            Ordering::Greater
        },
    }
}

fn compare_texts(a: &Vec<String>, b: &Vec<String>) -> (r: Ordering)
    ensures
        r == texts_order(a.deep_view(), b.deep_view()),
{
    let mut i: usize = 0;
    let ghost mut j: int = 0;
    proof {
        assert(a.deep_view().skip(0) =~= a.deep_view());
        assert(b.deep_view().skip(0) =~= b.deep_view());
    }
    while i < a.len() && i < b.len()
        invariant
            j == i,
            i <= a@.len(),
            i <= b@.len(),
            texts_order(a.deep_view(), b.deep_view()) == texts_order(a.deep_view().skip(j), b.deep_view().skip(j)),
        decreases a@.len() - i,
    {
        let o = compare_text(&a[i], &b[i]);
        proof {
            assert(a.deep_view().skip(j)[0] == a@[j]@);
            assert(b.deep_view().skip(j)[0] == b@[j]@);
            assert(a.deep_view().skip(j).skip(1) =~= a.deep_view().skip(j + 1));
            assert(b.deep_view().skip(j).skip(1) =~= b.deep_view().skip(j + 1));
        }
        match o {
            Ordering::Equal => {},
            _ => {
                return o;
            },
        }
        i = i + 1;
        proof {
            j = j + 1;
        }
    }
    if i < b.len() {
        Ordering::Less
    } else if i < a.len() {
        Ordering::Greater
    } else {
        Ordering::Equal
    }
}

/// The order of two listings under the sorting `m` (see `listing_order`).
pub fn compare_listings(m: Metadata, l: &ModRepoItem, r: &ModRepoItem) -> (o: Ordering)
    ensures
        o == listing_order(m, *l, *r),
{
    match m {
        Metadata::Name => compare_text(&l.name, &r.name),
        Metadata::Created => compare_times(r.created, l.created),
        Metadata::Updated => {
            let rt = match r.edited {
                Some(t) => Some(t),
                None => r.created,
            };
            let lt = match l.edited {
                Some(t) => Some(t),
                None => l.created,
            };
            compare_times(rt, lt)
        },
        Metadata::Authors => match (&l.authors, &r.authors) {
            (None, None) => Ordering::Equal,
            (None, Some(_)) => Ordering::Less,
            (Some(_), None) => Ordering::Greater,
            (Some(x), Some(y)) => compare_texts(x, y),
        },
        Metadata::Score => compare_scores(r.score, l.score),
    }
}

proof fn lemma_texts_order_flips(a: Seq<Seq<char>>, b: Seq<Seq<char>>)
    ensures
        texts_order(b, a) == flipped(texts_order(a, b)),
    decreases a.len(),
{
    if a.len() > 0 && b.len() > 0 {
        lemma_text_order_flips(a[0], b[0]);
        lemma_texts_order_flips(a.skip(1), b.skip(1));
    }
}

/// Swapping two listings reverses their order under every sorting, as the
/// listing's sort needs of its comparison.
pub proof fn law_listing_order_antisymmetric(m: Metadata, l: ModRepoItem, r: ModRepoItem)
    ensures
        listing_order(m, r, l) == flipped(listing_order(m, l, r)),
{
    lemma_text_order_flips(l.name@, r.name@);
    match (l.authors.deep_view(), r.authors.deep_view()) {
        (Some(x), Some(y)) => lemma_texts_order_flips(x, y),
        _ => {},
    }
}

} // verus!
