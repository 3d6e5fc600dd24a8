//! The mod repository browser: where a listed mod comes from, its links, the
//! text clean-up applied to a listing, and the paging of the listing.

use vstd::prelude::*;

verus! {

/// Where a listed mod is published.
#[derive(Debug, Clone, Copy, PartialEq, Eq, Structural)]
pub enum ModSource {
    Forum,
    ModdingSubforum,
    Discord,
    NexusMods,
    Index,
}

/// The kind of a listed mod's link.
#[derive(Debug, Clone, Copy, PartialEq, Eq, Structural)]
pub enum UrlSource {
    Forum,
    Discord,
    NexusMods,
    DirectDownload,
    DownloadPage,
}

/// How each source is named.
pub open spec fn source_label(s: ModSource) -> Seq<char> {
    match s {
        ModSource::Forum => "Fractal Mod Forums"@,
        ModSource::ModdingSubforum => "Fractal Mod Forums"@,
        ModSource::Discord => "Discord"@,
        ModSource::NexusMods => "Nexus Mods"@,
        ModSource::Index => "Fractal Mod Index"@,
    }
}

/// How each kind of link is named.
pub open spec fn url_label(u: UrlSource) -> Seq<char> {
    match u {
        UrlSource::Forum => "Fractal Mod Forums"@,
        UrlSource::Discord => "Discord"@,
        UrlSource::NexusMods => "Nexus Mods"@,
        UrlSource::DirectDownload => "Raw Url"@,
        UrlSource::DownloadPage => "Other"@,
    }
}

impl ModSource {
    /// The source's name.
    pub fn label(&self) -> (r: &'static str)
        ensures
            r@ == source_label(*self),
    {
        match self {
            ModSource::Forum | ModSource::ModdingSubforum => "Fractal Mod Forums",
            ModSource::Discord => "Discord",
            ModSource::NexusMods => "Nexus Mods",
            ModSource::Index => "Fractal Mod Index",
        }
    }
}

impl UrlSource {
    /// The link kind's name.
    pub fn label(&self) -> (r: &'static str)
        ensures
            r@ == url_label(*self),
    {
        match self {
            UrlSource::Forum => "Fractal Mod Forums",
            UrlSource::Discord => "Discord",
            UrlSource::NexusMods => "Nexus Mods",
            UrlSource::DirectDownload => "Raw Url",
            UrlSource::DownloadPage => "Other",
        }
    }
}

/// A listed mod.
#[derive(Debug, Clone, PartialEq, Eq)]
pub struct ModRepoItem {
    pub name: String,
    pub summary: Option<String>,
    pub description: Option<String>,
    pub mod_version: Option<String>,
    pub game_version: Option<String>,
    pub authors: Option<Vec<String>>,
    pub urls: Option<Vec<(UrlSource, String)>>,
    pub sources: Option<Vec<ModSource>>,
    pub categories: Option<Vec<String>>,
    /// Creation time, in seconds since the Unix epoch.
    pub created: Option<i64>,
    /// Last edit time, in seconds since the Unix epoch.
    pub edited: Option<i64>,
    pub show_description: bool,
    pub display: bool,
    pub score: Option<isize>,
}

/// The ASCII transliteration that `deunicode::deunicode` gives for a text.
pub uninterp spec fn transliterated(text: Seq<char>) -> Seq<char>;

/// Calls `deunicode::deunicode`. Its result is named `transliterated`; the
/// facts stated are the two its documentation guarantees: the result is
/// ASCII, and ASCII text is left as it is.
#[verifier::external_body]
fn deunicode_text(text: &str) -> (r: String)
    ensures
        r@ == transliterated(text@),
        forall|i: int| 0 <= i < r@.len() ==> (#[trigger] r@[i] as u32) < 128,
        (forall|i: int| 0 <= i < text@.len() ==> (#[trigger] text@[i] as u32) < 128) ==> r@ == text@,
{
    deunicode::deunicode(text)
}

fn transliterate_option(text: &Option<String>) -> (r: Option<String>)
    ensures
        r.deep_view() == (match text.deep_view() {
            Some(t) => Some(transliterated(t)),
            None => None,
        }),
{
    match text {
        Some(t) => Some(deunicode_text(t.as_str())),
        None => None,
    }
}

impl ModRepoItem {
    /// The listing with its name, summary and description transliterated to
    /// ASCII, as the repository is read; nothing else changes.
    pub fn normalized(self) -> (r: ModRepoItem)
        ensures
            r.name@ == transliterated(self.name@),
            r.summary.deep_view() == (match self.summary.deep_view() {
                Some(t) => Some(transliterated(t)),
                None => None,
            }),
            r.description.deep_view() == (match self.description.deep_view() {
                Some(t) => Some(transliterated(t)),
                None => None,
            }),
            r.mod_version == self.mod_version,
            r.game_version == self.game_version,
            r.authors == self.authors,
            r.urls == self.urls,
            r.sources == self.sources,
            r.categories == self.categories,
            r.created == self.created,
            r.edited == self.edited,
            r.show_description == self.show_description,
            r.display == self.display,
            r.score == self.score,
    {
        let mut item = self;
        item.summary = transliterate_option(&item.summary);
        item.description = transliterate_option(&item.description);
        item.name = deunicode_text(item.name.as_str());
        item
    }
}

/// The mod repository as the browser pages through it.
#[derive(Debug)]
pub struct ModRepo {
    pub items: Vec<ModRepoItem>,
    /// Last update of the repository, in seconds since the Unix epoch.
    pub last_updated: i64,
    pub modal: Option<String>,
    pub search: String,
    pub filters: Vec<ModSource>,
    pub page_size: Option<usize>,
    pub page_number: usize,
}

/// How many items come before the current page.
pub open spec fn page_start(page_number: nat, page_size: Option<usize>) -> nat {
    page_number * (match page_size {
        Some(p) => p as nat,
        None => 0,
    })
}

/// The positions of the items on the current page: those after the earlier
/// pages, at most a page's worth (all of them without paging).
pub open spec fn page_ids(count: nat, page_number: nat, page_size: Option<usize>) -> Seq<nat> {
    let start = page_start(page_number, page_size);
    let end = match page_size {
        Some(p) => if start + p < count {
            (start + p) as nat
        } else {
            count
        },
        None => count,
    };
    if start < count {
        Seq::new((end - start) as nat, |i: int| (start + i) as nat)
    } else {
        seq![]
    }
}

impl ModRepo {
    /// Whether a link confirmation is open.
    pub fn modal_open(&self) -> (r: bool)
        ensures
            r == self.modal is Some,
    {
        self.modal.is_some()
    }

    /// The size of a page when nothing else is set.
    pub fn default_page_size() -> (r: Option<usize>)
        ensures
            r == Some(50usize),
    {
        Some(50)
    }

    /// The positions of the items on the current page (see `page_ids`).
    pub fn ids(&self) -> (r: Vec<usize>)
        requires
            page_start(self.page_number as nat, self.page_size) <= usize::MAX,
        ensures
            r@.len() == page_ids(self.items@.len(), self.page_number as nat, self.page_size).len(),
            forall|i: int|
                0 <= i < r@.len() ==> r@[i] as nat == page_ids(self.items@.len(), self.page_number as nat, self.page_size)[i],
    {
        let count = self.items.len();
        let step: usize = match self.page_size {
            Some(p) => p,
            None => 0,
        };
        proof {
            assert(self.page_number * step == page_start(self.page_number as nat, self.page_size));
        }
        let start: usize = self.page_number * step;
        let end: usize = match self.page_size {
            Some(p) => if start < count && p < count - start {
                start + p
            } else {
                count
            },
            None => count,
        };
        let mut r: Vec<usize> = Vec::new();
        if start < count {
            let mut i: usize = start;
            while i < end
                invariant
                    start <= i <= end <= count,
                    r@.len() == i - start,
                    forall|j: int| 0 <= j < r@.len() ==> r@[j] == start + j,
                decreases end - i,
            {
                r.push(i);
                i = i + 1;
            }
        }
        r
    }

    /// The number of items on the current page; the items must reach at
    /// least to the current page.
    pub fn len(&self) -> (r: usize)
        requires
            page_start(self.page_number as nat, self.page_size) <= self.items@.len(),
        ensures
            r == (if self.items@.len() >= page_start(self.page_number as nat, self.page_size) + (match self.page_size {
                Some(p) => p as nat,
                None => 0,
            }) {
                match self.page_size {
                    Some(p) => p as nat,
                    None => self.items@.len(),
                }
            } else {
                (self.items@.len() - page_start(self.page_number as nat, self.page_size)) as nat
            }),
    {
        let step: usize = match self.page_size {
            Some(p) => p,
            None => 0,
        };
        let count = self.items.len();
        proof {
            assert(self.page_number * step == page_start(self.page_number as nat, self.page_size));
            assert(self.page_number * step <= count);
        }
        let prefix = self.page_number * step;
        if self.items.len() - prefix >= step {
            match self.page_size {
                Some(p) => p,
                None => self.items.len(),
            }
        } else {
            self.items.len() - prefix
        }
    }
}

/// A page shows as many items as its length says, whenever the items reach
/// the page.
pub proof fn law_page_length_matches_ids(count: nat, page_number: nat, page_size: Option<usize>)
    requires
        page_start(page_number, page_size) <= count,
    ensures
        page_ids(count, page_number, page_size).len() == (if count >= page_start(page_number, page_size) + (match page_size {
            Some(p) => p as nat,
            None => 0,
        }) {
            match page_size {
                Some(p) => p as nat,
                None => count,
            }
        } else {
            (count - page_start(page_number, page_size)) as nat
        }),
{
    let start = page_start(page_number, page_size);
    match page_size {
        None => {
            assert(start == 0);
        },
        Some(p) => {},
    }
}

} // verus!
