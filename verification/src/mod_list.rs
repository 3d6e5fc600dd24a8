//! The mod list: its entries as the list shows them, the tool menu's filters,
//! the search box, the column a list is sorted by, and the order of two
//! entries under each sorting.

use vstd::prelude::*;

use crate::mod_version::{
    differences_fit, law_update_status_follows_order, law_version_order_total, spec_update_status, version_lt,
    ModVersionMeta, UpdateStatus, Version,
};
use crate::sorting::{goes_after, in_order, law_entry_order_transitive, lemma_after_then_before};
use crate::text::{chars_of, contains_string, push_str, string_of};

verus! {

/// An installed mod as the list shows it.
#[derive(Debug)]
pub struct ModEntry {
    pub id: String,
    pub name: String,
    pub author: String,
    pub game_version: String,
    pub enabled: bool,
    pub update_status: Option<UpdateStatus>,
    /// Whether the published version can be downloaded directly.
    pub direct_download: bool,
    pub display: bool,
    pub search_score: Option<isize>,
    /// The mod's own version checker file, when it has one.
    pub version_checker: Option<ModVersionMeta>,
    /// The version file last fetched from the checker's address.
    pub remote_version: Option<ModVersionMeta>,
    /// The mod's folder.
    pub path: String,
}

/// The entries of the tool menu.
#[derive(Debug, Clone, Copy, PartialEq, Eq, Structural)]
pub enum ToolOptions {
    Default,
    EnableAll,
    DisableAll,
    FilterEnabled,
    FilterDisabled,
    FilterOutdated,
    FilterError,
    FilterUnsupported,
    FilterDiscrepancy,
    FilterNone,
    Refresh,
}

/// The entries of the install menu.
#[derive(Debug, Clone, PartialEq, Eq)]
pub enum InstallOptions {
    FromMultipleArchive,
    FromSingleArchive,
    FromFolder,
    FromDownload(String, String, String),
    Default,
}

/// The column the list is sorted by.
#[derive(Debug, Clone, Copy, PartialEq, Eq, Structural)]
pub enum ModEntryComp {
    ID,
    Name,
    Author,
    GameVersion,
    Enabled,
    Version,
    Score,
    AutoUpdateSupport,
}

/// The tool menu's title for each entry.
pub open spec fn tool_label(t: ToolOptions) -> Seq<char> {
    match t {
        ToolOptions::Default => "Tools"@,
        ToolOptions::EnableAll => "Enable All"@,
        ToolOptions::DisableAll => "Disable All"@,
        ToolOptions::FilterEnabled => "Show Enabled"@,
        ToolOptions::FilterDisabled => "Show Disabled"@,
        ToolOptions::FilterOutdated => "Show New Version Available"@,
        ToolOptions::FilterError => "Show Version Check Failed"@,
        ToolOptions::FilterUnsupported => "Show Version Check Unsupported"@,
        ToolOptions::FilterDiscrepancy => "Show Version Discrepancy"@,
        ToolOptions::FilterNone => "Show All"@,
        ToolOptions::Refresh => "Refresh Mod List"@,
    }
}

/// The install menu's title for each entry.
pub open spec fn install_label(o: InstallOptions) -> Seq<char> {
    match o {
        InstallOptions::Default => "Install Mod"@,
        InstallOptions::FromMultipleArchive => "From Multiple Archives"@,
        InstallOptions::FromSingleArchive => "From Single Archive"@,
        InstallOptions::FromDownload(_, _, _) => "From Download"@,
        InstallOptions::FromFolder => "From Folder"@,
    }
}

/// Whether a filter of the tool menu shows an entry that is enabled as
/// `enabled` and has update status `status`; `None` for the entries that are
/// not filters.
pub open spec fn filter_shows(t: ToolOptions, enabled: bool, status: Option<UpdateStatus>) -> Option<bool> {
    match t {
        ToolOptions::FilterEnabled => Some(enabled),
        ToolOptions::FilterDisabled => Some(!enabled),
        ToolOptions::FilterOutdated => Some(
            status matches Some(s) && (s is Major || s is Minor || s is Patch),
        ),
        ToolOptions::FilterError => Some(status matches Some(s) && s is Error),
        ToolOptions::FilterUnsupported => Some(status is None),
        ToolOptions::FilterDiscrepancy => Some(status matches Some(s) && s is Discrepancy),
        ToolOptions::FilterNone => Some(true),
        _ => None,
    }
}

impl ToolOptions {
    /// The entry's title.
    pub fn label(&self) -> (r: &'static str)
        ensures
            r@ == tool_label(*self),
    {
        match self {
            ToolOptions::Default => "Tools",
            ToolOptions::EnableAll => "Enable All",
            ToolOptions::DisableAll => "Disable All",
            ToolOptions::FilterEnabled => "Show Enabled",
            ToolOptions::FilterDisabled => "Show Disabled",
            ToolOptions::FilterOutdated => "Show New Version Available",
            ToolOptions::FilterError => "Show Version Check Failed",
            ToolOptions::FilterUnsupported => "Show Version Check Unsupported",
            ToolOptions::FilterDiscrepancy => "Show Version Discrepancy",
            ToolOptions::FilterNone => "Show All",
            ToolOptions::Refresh => "Refresh Mod List",
        }
    }

    /// The entries the menu lists, in order.
    pub fn shown() -> (r: Vec<ToolOptions>)
        ensures
            r@ == seq![
                ToolOptions::EnableAll,
                ToolOptions::DisableAll,
                ToolOptions::FilterEnabled,
                ToolOptions::FilterDisabled,
                ToolOptions::FilterOutdated,
                ToolOptions::FilterError,
                ToolOptions::FilterUnsupported,
                ToolOptions::FilterDiscrepancy,
                ToolOptions::FilterNone,
                ToolOptions::Refresh,
            ],
    {
        let mut r: Vec<ToolOptions> = Vec::new();
        r.push(ToolOptions::EnableAll);
        r.push(ToolOptions::DisableAll);
        r.push(ToolOptions::FilterEnabled);
        r.push(ToolOptions::FilterDisabled);
        r.push(ToolOptions::FilterOutdated);
        r.push(ToolOptions::FilterError);
        r.push(ToolOptions::FilterUnsupported);
        r.push(ToolOptions::FilterDiscrepancy);
        r.push(ToolOptions::FilterNone);
        r.push(ToolOptions::Refresh);
        proof {
            assert(r@ =~= seq![
                ToolOptions::EnableAll,
                ToolOptions::DisableAll,
                ToolOptions::FilterEnabled,
                ToolOptions::FilterDisabled,
                ToolOptions::FilterOutdated,
                ToolOptions::FilterError,
                ToolOptions::FilterUnsupported,
                ToolOptions::FilterDiscrepancy,
                ToolOptions::FilterNone,
                ToolOptions::Refresh,
            ]);
        }
        r
    }

    /// Whether this filter shows an entry (see `filter_shows`).
    pub fn shows(&self, entry: &ModEntry) -> (r: Option<bool>)
        ensures
            r == filter_shows(*self, entry.enabled, entry.update_status),
    {
        match self {
            ToolOptions::FilterEnabled => Some(entry.enabled),
            ToolOptions::FilterDisabled => Some(!entry.enabled),
            ToolOptions::FilterOutdated => Some(
                match &entry.update_status {
                    Some(UpdateStatus::Major(_)) | Some(UpdateStatus::Minor(_)) | Some(UpdateStatus::Patch(_)) => true,
                    _ => false,
                },
            ),
            ToolOptions::FilterError => Some(
                match &entry.update_status {
                    Some(UpdateStatus::Error) => true,
                    _ => false,
                },
            ),
            ToolOptions::FilterUnsupported => Some(entry.update_status.is_none()),
            ToolOptions::FilterDiscrepancy => Some(
                match &entry.update_status {
                    Some(UpdateStatus::Discrepancy(_)) => true,
                    _ => false,
                },
            ),
            ToolOptions::FilterNone => Some(true),
            _ => None,
        }
    }
}

impl InstallOptions {
    /// The entry's title.
    pub fn label(&self) -> (r: &'static str)
        ensures
            r@ == install_label(*self),
    {
        match self {
            InstallOptions::Default => "Install Mod",
            InstallOptions::FromMultipleArchive => "From Multiple Archives",
            InstallOptions::FromSingleArchive => "From Single Archive",
            InstallOptions::FromDownload(_, _, _) => "From Download",
            InstallOptions::FromFolder => "From Folder",
        }
    }

    /// The entries the menu lists, in order.
    pub fn shown() -> (r: Vec<InstallOptions>)
        ensures
            r@ == seq![
                InstallOptions::FromMultipleArchive,
                InstallOptions::FromSingleArchive,
                InstallOptions::FromFolder,
            ],
    {
        let mut r: Vec<InstallOptions> = Vec::new();
        r.push(InstallOptions::FromMultipleArchive);
        r.push(InstallOptions::FromSingleArchive);
        r.push(InstallOptions::FromFolder);
        proof {
            assert(r@ =~= seq![
                InstallOptions::FromMultipleArchive,
                InstallOptions::FromSingleArchive,
                InstallOptions::FromFolder,
            ]);
        }
        r
    }
}

/// Two entries agree in everything but whether they are shown and enabled.
pub open spec fn same_but_shown_enabled(a: ModEntry, b: ModEntry) -> bool {
    &&& a.id@ == b.id@
    &&& a.name@ == b.name@
    &&& a.author@ == b.author@
    &&& a.game_version@ == b.game_version@
    &&& a.update_status == b.update_status
    &&& a.direct_download == b.direct_download
    &&& a.search_score == b.search_score
    &&& a.version_checker == b.version_checker
    &&& a.remote_version == b.remote_version
    &&& a.path@ == b.path@
}

/// Shows each entry exactly when the filter `t` shows it; the other menu
/// entries change nothing here.
pub fn apply_filter(entries: &mut Vec<ModEntry>, t: ToolOptions)
    ensures
        final(entries)@.len() == old(entries)@.len(),
        forall|i: int|
            0 <= i < old(entries)@.len() ==> same_but_shown_enabled(#[trigger] final(entries)@[i], old(entries)@[i])
                && final(entries)@[i].enabled == old(entries)@[i].enabled && final(entries)@[i].display == (match filter_shows(
                t,
                old(entries)@[i].enabled,
                old(entries)@[i].update_status,
            ) {
                Some(b) => b,
                None => old(entries)@[i].display,
            }),
{
    let ghost orig = entries@;
    let mut rest: Vec<ModEntry> = Vec::new();
    std::mem::swap(&mut rest, entries);
    let n = rest.len();
    let mut done: Vec<ModEntry> = Vec::new();
    while rest.len() > 0
        invariant
            orig.len() == n,
            done@.len() + rest@.len() == n,
            rest@ == orig.skip(done@.len() as int),
            forall|i: int|
                0 <= i < done@.len() ==> same_but_shown_enabled(#[trigger] done@[i], orig[i]) && done@[i].enabled
                    == orig[i].enabled && done@[i].display == (match filter_shows(t, orig[i].enabled, orig[i].update_status) {
                    Some(b) => b,
                    None => orig[i].display,
                }),
        decreases rest@.len(),
    {
        let k = done.len();
        let mut e = rest.remove(0);
        proof {
            assert(e == orig[k as int]);
            assert(rest@ =~= orig.skip(k + 1));
        }
        match t.shows(&e) {
            Some(b) => {
                e.display = b;
            },
            None => {},
        }
        done.push(e);
    }
    *entries = done;
}

/// Enables or disables every entry.
pub fn set_all_enabled(entries: &mut Vec<ModEntry>, enabled: bool)
    ensures
        final(entries)@.len() == old(entries)@.len(),
        forall|i: int|
            0 <= i < old(entries)@.len() ==> same_but_shown_enabled(#[trigger] final(entries)@[i], old(entries)@[i])
                && final(entries)@[i].enabled == enabled && final(entries)@[i].display == old(entries)@[i].display,
{
    let ghost orig = entries@;
    let mut rest: Vec<ModEntry> = Vec::new();
    std::mem::swap(&mut rest, entries);
    let n = rest.len();
    let mut done: Vec<ModEntry> = Vec::new();
    while rest.len() > 0
        invariant
            orig.len() == n,
            done@.len() + rest@.len() == n,
            rest@ == orig.skip(done@.len() as int),
            forall|i: int|
                0 <= i < done@.len() ==> same_but_shown_enabled(#[trigger] done@[i], orig[i]) && done@[i].enabled
                    == enabled && done@[i].display == orig[i].display,
        decreases rest@.len(),
    {
        let k = done.len();
        let mut e = rest.remove(0);
        proof {
            assert(e == orig[k as int]);
            assert(rest@ =~= orig.skip(k + 1));
        }
        e.enabled = enabled;
        done.push(e);
    }
    *entries = done;
}

/// `k` is the first entry of `es` whose ID is `id`.
pub open spec fn first_with_id(es: Seq<ModEntry>, id: Seq<char>, k: int) -> bool {
    &&& 0 <= k < es.len()
    &&& es[k].id@ == id
    &&& forall|j: int| 0 <= j < k ==> es[j].id@ != id
}

/// The entry `e`, which has a version checker, once its published version
/// file was fetched (`Ok`) or could not be (`Err`): it keeps the fetched file
/// and takes the status of its own version against the fetched one, or the
/// error status.
pub open spec fn with_master_version(e: ModEntry, res: Result<ModVersionMeta, String>) -> ModEntry {
    match res {
        Ok(r) => ModEntry {
            update_status: Some(spec_update_status(e.version_checker->0.version, r.version)),
            remote_version: Some(r),
            ..e
        },
        Err(_) => ModEntry { update_status: Some(UpdateStatus::Error), ..e },
    }
}

/// The first entry whose ID is `id`, if there is one.
pub(crate) fn find_id(entries: &Vec<ModEntry>, id: &str) -> (r: Option<usize>)
    ensures
        match r {
            Some(k) => first_with_id(entries@, id@, k as int),
            None => forall|k: int| 0 <= k < entries@.len() ==> entries@[k].id@ != id@,
        },
{
    let own = String::from_str(id);
    let mut i: usize = 0;
    while i < entries.len()
        invariant
            i <= entries@.len(),
            own@ == id@,
            forall|j: int| 0 <= j < i ==> entries@[j].id@ != id@,
        decreases entries@.len() - i,
    {
        if entries[i].id.eq(&own) {
            return Some(i);
        }
        i = i + 1;
    }
    None
}

/// Takes in the published version file of mod `id`, as fetched from its
/// version checker's address (`Err` when it could not be had). The first
/// entry with that ID, when it has a version checker, keeps the fetched file
/// and gets the status of its own version against it (see
/// `with_master_version`); otherwise the list is left as it is.
pub fn master_version_received(entries: &mut Vec<ModEntry>, id: &str, res: Result<ModVersionMeta, String>)
    requires
        res matches Ok(r) ==> forall|k: int|
            first_with_id(old(entries)@, id@, k) && old(entries)@[k].version_checker is Some ==> differences_fit(
                old(entries)@[k].version_checker->0.version,
                r.version,
            ),
    ensures
        forall|k: int|
            first_with_id(old(entries)@, id@, k) && old(entries)@[k].version_checker is Some ==> final(entries)@
                == old(entries)@.update(k, with_master_version(old(entries)@[k], res)),
        (forall|k: int| !(first_with_id(old(entries)@, id@, k) && old(entries)@[k].version_checker is Some))
            ==> final(entries)@ == old(entries)@,
{
    let k = match find_id(entries, id) {
        Some(k) => k,
        None => return ,
    };
    if entries[k].version_checker.is_none() {
        return ;
    }
    let ghost orig = entries@;
    let ghost fetched = res;
    let mut e = entries.remove(k);
    let status = match &res {
        Ok(r) => match &e.version_checker {
            Some(m) => UpdateStatus::from_versions(&m.version, Some(&r.version)),
            None => UpdateStatus::Error,
        },
        Err(_) => UpdateStatus::Error,
    };
    e.update_status = Some(status);
    match res {
        Ok(r) => {
            e.remote_version = Some(r);
        },
        Err(_) => {},
    }
    entries.insert(k, e);
    proof {
        assert(e == with_master_version(orig[k as int], fetched));
        assert(entries@ =~= orig.update(k as int, with_master_version(orig[k as int], fetched)));
        assert forall|j: int| first_with_id(orig, id@, j) implies j == k by {
            if j < k {
                assert(orig[j].id@ != id@);
            } else if j > k {
                assert(orig[k as int].id@ != id@);
            }
        }
    }
}

/// Enables or disables the first entry with ID `id`, if there is one.
pub(crate) fn set_enabled_of(entries: &mut Vec<ModEntry>, id: &str, enabled: bool)
    ensures
        forall|k: int|
            first_with_id(old(entries)@, id@, k) ==> final(entries)@ == old(entries)@.update(
                k,
                ModEntry { enabled, ..old(entries)@[k] },
            ),
        (forall|k: int| !first_with_id(old(entries)@, id@, k)) ==> final(entries)@ == old(entries)@,
{
    let k = match find_id(entries, id) {
        Some(k) => k,
        None => return ,
    };
    let ghost orig = entries@;
    let mut e = entries.remove(k);
    e.enabled = enabled;
    entries.insert(k, e);
    proof {
        assert(entries@ =~= orig.update(k as int, ModEntry { enabled, ..orig[k as int] }));
        assert forall|j: int| first_with_id(orig, id@, j) implies j == k by {
            if j < k {
                assert(orig[j].id@ != id@);
            } else if j > k {
                assert(orig[k as int].id@ != id@);
            }
        }
    }
}

/// `k` is the first entry of `es` kept in the folder `path`.
pub open spec fn first_at_path(es: Seq<ModEntry>, path: Seq<char>, k: int) -> bool {
    &&& 0 <= k < es.len()
    &&& es[k].path@ == path
    &&& forall|j: int| 0 <= j < k ==> es[j].path@ != path
}

/// The ID of the mod kept in the folder `path`, which the question about a
/// clashing folder names; `None` when no mod of the list is kept there.
pub fn id_of_folder(entries: &Vec<ModEntry>, path: &str) -> (r: Option<String>)
    ensures
        r is None <==> forall|k: int| 0 <= k < entries@.len() ==> entries@[k].path@ != path@,
        r matches Some(id) ==> exists|k: int| first_at_path(entries@, path@, k) && id@ == entries@[k].id@,
{
    let own = String::from_str(path);
    let mut i: usize = 0;
    while i < entries.len()
        invariant
            i <= entries@.len(),
            own@ == path@,
            forall|j: int| 0 <= j < i ==> entries@[j].path@ != path@,
        decreases entries@.len() - i,
    {
        if entries[i].path.eq(&own) {
            proof {
                assert(first_at_path(entries@, path@, i as int));
            }
            return Some(entries[i].id.clone());
        }
        i = i + 1;
    }
    None
}

/// The ids of the enabled entries, in the list's order.
pub open spec fn enabled_ids_of(es: Seq<ModEntry>) -> Seq<Seq<char>>
    decreases es.len(),
{
    if es.len() == 0 {
        seq![]
    } else if es.last().enabled {
        enabled_ids_of(es.drop_last()).push(es.last().id@)
    } else {
        enabled_ids_of(es.drop_last())
    }
}

/// The ids of the enabled entries, in the list's order: what is saved as
/// the game's list of enabled mods.
pub fn enabled_ids(entries: &Vec<ModEntry>) -> (r: Vec<String>)
    ensures
        r.deep_view() == enabled_ids_of(entries@),
{
    let mut r: Vec<String> = Vec::new();
    let mut i: usize = 0;
    while i < entries.len()
        invariant
            i <= entries@.len(),
            r.deep_view() == enabled_ids_of(entries@.take(i as int)),
        decreases entries@.len() - i,
    {
        proof {
            assert(entries@.take(i + 1).drop_last() =~= entries@.take(i as int));
        }
        if entries[i].enabled {
            r.push(entries[i].id.clone());
            proof {
                assert(r.deep_view() =~= enabled_ids_of(entries@.take(i as int)).push(entries@[i as int].id@));
            }
        }
        i = i + 1;
    }
    proof {
        assert(entries@.take(entries@.len() as int) =~= entries@);
    }
    r
}

/// Enables exactly the entries whose id is in the game's list of enabled
/// mods, as reading the mods folder does.
pub fn mark_enabled(entries: &mut Vec<ModEntry>, enabled: &Vec<String>)
    ensures
        final(entries)@.len() == old(entries)@.len(),
        forall|i: int|
            0 <= i < old(entries)@.len() ==> same_but_shown_enabled(#[trigger] final(entries)@[i], old(entries)@[i])
                && final(entries)@[i].enabled == enabled.deep_view().contains(old(entries)@[i].id@)
                && final(entries)@[i].display == old(entries)@[i].display,
{
    let ghost orig = entries@;
    let mut rest: Vec<ModEntry> = Vec::new();
    std::mem::swap(&mut rest, entries);
    let n = rest.len();
    let mut done: Vec<ModEntry> = Vec::new();
    while rest.len() > 0
        invariant
            orig.len() == n,
            done@.len() + rest@.len() == n,
            rest@ == orig.skip(done@.len() as int),
            forall|i: int|
                0 <= i < done@.len() ==> same_but_shown_enabled(#[trigger] done@[i], orig[i]) && done@[i].enabled
                    == enabled.deep_view().contains(orig[i].id@) && done@[i].display == orig[i].display,
        decreases rest@.len(),
    {
        let k = done.len();
        let mut e = rest.remove(0);
        proof {
            assert(e == orig[k as int]);
            assert(rest@ =~= orig.skip(k + 1));
        }
        e.enabled = contains_string(enabled, e.id.as_str());
        done.push(e);
    }
    *entries = done;
}

/// The position of the first line feed in `s`, if there is one.
pub open spec fn first_line_feed(s: Seq<char>) -> Option<int> {
    if exists|i: int| 0 <= i < s.len() && s[i] == '\n' {
        Some(choose|i: int| 0 <= i < s.len() && s[i] == '\n' && forall|k: int| 0 <= k < i ==> s[k] != '\n')
    } else {
        None
    }
}

/// The first line of `text` as `BufRead::lines` reads it: the line ends at
/// a line feed, which is dropped together with a carriage return before it.
pub open spec fn spec_first_line(text: Seq<char>) -> Seq<char> {
    match first_line_feed(text) {
        None => text,
        Some(q) => {
            let line = text.take(q);
            if line.len() > 0 && line.last() == '\r' {
                line.drop_last()
            } else {
                line
            }
        },
    }
}

/// The second line of `text` as `BufRead::lines` reads it; an empty
/// remainder after the first line feed is no line.
pub open spec fn spec_second_line(text: Seq<char>) -> Option<Seq<char>> {
    match first_line_feed(text) {
        None => None,
        Some(p) => if p + 1 == text.len() {
            None
        } else {
            Some(spec_first_line(text.skip(p + 1)))
        },
    }
}

/// The position of the first line feed in `s` at or after `from`.
fn find_line_feed(s: &Vec<char>, from: usize) -> (r: Option<usize>)
    requires
        from <= s@.len(),
    ensures
        match r {
            Some(p) => from <= p < s@.len() && s@[p as int] == '\n' && forall|k: int| from <= k < p ==> s@[k] != '\n',
            None => forall|k: int| from <= k < s@.len() ==> s@[k] != '\n',
        },
{
    let mut i = from;
    while i < s.len()
        invariant
            from <= i <= s@.len(),
            forall|k: int| from <= k < i ==> s@[k] != '\n',
        decreases s@.len() - i,
    {
        if s[i] == '\n' {
            return Some(i);
        }
        i = i + 1;
    }
    None
}

/// What `first_line_feed` is when the first line feed is known.
proof fn lemma_first_line_feed(s: Seq<char>, p: Option<int>)
    requires
        match p {
            Some(i) => 0 <= i < s.len() && s[i] == '\n' && forall|k: int| 0 <= k < i ==> s[k] != '\n',
            None => forall|k: int| 0 <= k < s.len() ==> s[k] != '\n',
        },
    ensures
        first_line_feed(s) == p,
{
    if let Some(i) = p {
        let c = choose|j: int| 0 <= j < s.len() && s[j] == '\n' && forall|k: int| 0 <= k < j ==> s[k] != '\n';
        assert(c == i) by {
            if c < i {
                assert(s[c] != '\n');
            } else if c > i {
                assert(s[i] != '\n');
            }
        }
    }
}

/// The characters of `s` from `start` up to `stop`.
fn chars_between(s: &Vec<char>, start: usize, stop: usize) -> (r: Vec<char>)
    requires
        start <= stop <= s@.len(),
    ensures
        r@ == s@.subrange(start as int, stop as int),
{
    let mut piece: Vec<char> = Vec::new();
    let mut k = start;
    while k < stop
        invariant
            start <= k <= stop,
            stop <= s@.len(),
            piece@ == s@.subrange(start as int, k as int),
        decreases stop - k,
    {
        piece.push(s[k]);
        k = k + 1;
        proof {
            assert(piece@ =~= s@.subrange(start as int, k as int));
        }
    }
    piece
}

/// The line of `s` that begins at `start` (see `spec_first_line`).
#[verifier::spinoff_prover]
#[verifier::rlimit(30)]
fn line_from(s: &Vec<char>, start: usize) -> (r: Vec<char>)
    requires
        start <= s@.len(),
    ensures
        r@ == spec_first_line(s@.skip(start as int)),
{
    let ghost rest = s@.skip(start as int);
    let found = find_line_feed(s, start);
    proof {
        lemma_first_line_feed(rest, match found {
            Some(q) => Some(q - start),
            None => None,
        });
    }
    match found {
        None => {
            let r = chars_between(s, start, s.len());
            proof {
                assert(r@ =~= rest);
            }
            r
        },
        Some(q) => {
            let mut stop = q;
            if q > start && s[q - 1] == '\r' {
                stop = q - 1;
            }
            let r = chars_between(s, start, stop);
            proof {
                let line = rest.take(q - start);
                if line.len() > 0 && line.last() == '\r' {
                    assert(r@ =~= line.drop_last());
                } else {
                    assert(r@ =~= line);
                }
            }
            r
        },
    }
}

/// The name of a mod's version file: the second line of its
/// `version_files.csv` (the first is the column heading).
pub fn version_file_entry(csv: &str) -> (r: Option<String>)
    ensures
        r.deep_view() == spec_second_line(csv@),
{
    let s = chars_of(csv);
    let first = find_line_feed(&s, 0);
    proof {
        lemma_first_line_feed(csv@, match first {
            Some(p) => Some(p as int),
            None => None,
        });
    }
    match first {
        None => None,
        Some(p) => {
            if p == s.len() - 1 {
                None
            } else {
                let line = line_from(&s, p + 1);
                Some(string_of(&line))
            }
        },
    }
}

/// An id is among the saved ids exactly when an enabled entry has it.
proof fn lemma_enabled_ids_contain(es: Seq<ModEntry>, id: Seq<char>)
    ensures
        enabled_ids_of(es).contains(id) <==> exists|i: int|
            0 <= i < es.len() && (#[trigger] es[i]).enabled && es[i].id@ == id,
    decreases es.len(),
{
    if es.len() > 0 {
        let init = es.drop_last();
        lemma_enabled_ids_contain(init, id);
        if exists|i: int| 0 <= i < init.len() && (#[trigger] init[i]).enabled && init[i].id@ == id {
            let i = choose|i: int| 0 <= i < init.len() && (#[trigger] init[i]).enabled && init[i].id@ == id;
            assert(es[i] == init[i]);
        }
        if exists|i: int| 0 <= i < es.len() && (#[trigger] es[i]).enabled && es[i].id@ == id {
            let i = choose|i: int| 0 <= i < es.len() && (#[trigger] es[i]).enabled && es[i].id@ == id;
            if i < es.len() - 1 {
                assert(init[i] == es[i]);
            } else {
                assert(enabled_ids_of(es) == enabled_ids_of(init).push(es.last().id@));
                assert(enabled_ids_of(es)[enabled_ids_of(init).len() as int] == id);
            }
        }
        if es.last().enabled {
            assert(enabled_ids_of(es) == enabled_ids_of(init).push(es.last().id@));
            if enabled_ids_of(es).contains(id) {
                let j = choose|j: int| 0 <= j < enabled_ids_of(es).len() && enabled_ids_of(es)[j] == id;
                if j < enabled_ids_of(init).len() {
                    assert(enabled_ids_of(init)[j] == id);
                } else {
                    assert(es[es.len() - 1].enabled && es[es.len() - 1].id@ == id);
                }
            }
            if enabled_ids_of(init).contains(id) {
                let j = choose|j: int| 0 <= j < enabled_ids_of(init).len() && enabled_ids_of(init)[j] == id;
                assert(enabled_ids_of(es)[j] == id);
            }
        }
    }
}

/// Saving the enabled entries' ids and reading them back gives every entry
/// its flag again, as long as no two entries share an id.
pub proof fn law_enabled_list_round_trip(es: Seq<ModEntry>)
    requires
        forall|i: int, j: int| 0 <= i < es.len() && 0 <= j < es.len() && i != j ==> es[i].id@ != es[j].id@,
    ensures
        forall|i: int| 0 <= i < es.len() ==> enabled_ids_of(es).contains(#[trigger] es[i].id@) == es[i].enabled,
{
    assert forall|i: int| 0 <= i < es.len() implies enabled_ids_of(es).contains(#[trigger] es[i].id@) == es[i].enabled by {
        lemma_enabled_ids_contain(es, es[i].id@);
        if enabled_ids_of(es).contains(es[i].id@) {
            let k = choose|k: int| 0 <= k < es.len() && (#[trigger] es[k]).enabled && es[k].id@ == es[i].id@;
            assert(k == i);
        }
    }
}

/// The sorting after a column's heading is pressed: the same column flips
/// its direction, another column sorts ascending.
pub fn heading_pressed(current: (ModEntryComp, bool), pressed: ModEntryComp) -> (r: (ModEntryComp, bool))
    ensures
        r == (if current.0 == pressed {
            (pressed, !current.1)
        } else {
            (pressed, false)
        }),
{
    if current.0 == pressed {
        (pressed, !current.1)
    } else {
        (pressed, false)
    }
}

/// The larger of two optional scores, where no score is below every score.
pub open spec fn max_score(a: Option<isize>, b: Option<isize>) -> Option<isize> {
    match (a, b) {
        (None, _) => b,
        (Some(x), None) => a,
        (Some(x), Some(y)) => if x <= y {
            b
        } else {
            a
        },
    }
}

/// The score `sublime_fuzzy::best_match` gives `target` for `query` (case
/// ignored), or `None` when the query does not match it.
pub uninterp spec fn fuzzy_score(query: Seq<char>, target: Seq<char>) -> Option<isize>;

/// Calls `sublime_fuzzy::best_match` and takes the match's score. The score
/// is named `fuzzy_score`; the one fact stated is the documented one that an
/// empty target matches nothing.
#[verifier::external_body]
fn best_match_score(query: &str, target: &str) -> (r: Option<isize>)
    ensures
        r == fuzzy_score(query@, target@),
        target@.len() == 0 ==> r is None,
{
    sublime_fuzzy::best_match(query, target).map(|m| m.score())
}

/// What the search gives an entry: whether it is shown (the query matches its
/// id, name or author) and its score (the best of the three).
pub open spec fn search_result(query: Seq<char>, e: ModEntry) -> (bool, Option<isize>) {
    let a = fuzzy_score(query, e.id@);
    let b = fuzzy_score(query, e.name@);
    let c = fuzzy_score(query, e.author@);
    (a is Some || b is Some || c is Some, max_score(max_score(a, b), c))
}

fn max_option(a: Option<isize>, b: Option<isize>) -> (r: Option<isize>)
    ensures
        r == max_score(a, b),
{
    match (a, b) {
        (None, _) => b,
        (Some(x), None) => a,
        (Some(x), Some(y)) => if x <= y {
            b
        } else {
            a
        },
    }
}

/// Entry `e` is entry `o` after a search for `query`: only whether it is
/// shown and its score change. A non-empty query shows it when one of its
/// fields matches and keeps the best score (see `search_result`); an empty
/// query shows it and leaves its score.
pub open spec fn searched(o: ModEntry, e: ModEntry, query: Seq<char>) -> bool {
    &&& e.id@ == o.id@
    &&& e.name@ == o.name@
    &&& e.author@ == o.author@
    &&& e.game_version@ == o.game_version@
    &&& e.enabled == o.enabled
    &&& e.update_status == o.update_status
    &&& e.direct_download == o.direct_download
    &&& e.version_checker == o.version_checker
    &&& e.remote_version == o.remote_version
    &&& e.path@ == o.path@
    &&& if query.len() > 0 {
        (e.display, e.search_score) == search_result(query, o)
    } else {
        e.display && e.search_score == o.search_score
    }
}


/// Runs a search: for a non-empty query every entry is scored (see
/// `search_result`) and the list sorted by score, best first; an empty query
/// shows every entry and sorts by id.
pub fn search(entries: &mut Vec<ModEntry>, query: &str) -> (r: (ModEntryComp, bool))
    ensures
        final(entries)@.len() == old(entries)@.len(),
        query@.len() > 0 ==> r == (ModEntryComp::Score, true),
        query@.len() == 0 ==> r == (ModEntryComp::ID, false),
        forall|i: int|
            0 <= i < old(entries)@.len() ==> searched(old(entries)@[i], #[trigger] final(entries)@[i], query@),
{
    let q = chars_of(query);
    let nonempty = q.len() > 0;
    let ghost orig = entries@;
    let mut rest: Vec<ModEntry> = Vec::new();
    std::mem::swap(&mut rest, entries);
    let n = rest.len();
    let mut done: Vec<ModEntry> = Vec::new();
    while rest.len() > 0
        invariant
            orig.len() == n,
            done@.len() + rest@.len() == n,
            rest@ == orig.skip(done@.len() as int),
            nonempty == (query@.len() > 0),
            forall|i: int| 0 <= i < done@.len() ==> searched(orig[i], #[trigger] done@[i], query@),
        decreases rest@.len(),
    {
        let k = done.len();
        let mut e = rest.remove(0);
        proof {
            assert(e == orig[k as int]);
            assert(rest@ =~= orig.skip(k + 1));
        }
        if nonempty {
            let a = best_match_score(query, e.id.as_str());
            let b = best_match_score(query, e.name.as_str());
            let c = best_match_score(query, e.author.as_str());
            e.display = a.is_some() || b.is_some() || c.is_some();
            let ab = max_option(a, b);
            e.search_score = max_option(ab, c);
        } else {
            e.display = true;
        }
        done.push(e);
    }
    *entries = done;
    if nonempty {
        (ModEntryComp::Score, true)
    } else {
        (ModEntryComp::ID, false)
    }
}

/// The message shown when installations end: the mods installed, then the
/// mods that failed, each list joined by `, `; nothing when both are empty.
pub open spec fn install_summary(successful: Seq<Seq<char>>, failed: Seq<Seq<char>>) -> Option<Seq<char>> {
    if successful.len() > 0 || failed.len() > 0 {
        Some(
            (if successful.len() > 0 {
                "Succesfully installed:\n"@ + joined(successful) + "\n"@
            } else {
                seq![]
            }) + (if failed.len() > 0 {
                "Failed to install:\n"@ + joined(failed)
            } else {
                seq![]
            }),
        )
    } else {
        None
    }
}

/// The pieces joined by `, `.
pub open spec fn joined(pieces: Seq<Seq<char>>) -> Seq<char>
    decreases pieces.len(),
{
    if pieces.len() == 0 {
        seq![]
    } else if pieces.len() == 1 {
        pieces[0]
    } else {
        joined(pieces.drop_last()) + ", "@ + pieces.last()
    }
}

/// Appends the pieces joined by `, ` to `out`.
fn push_joined(out: &mut Vec<char>, pieces: &Vec<String>)
    ensures
        final(out)@ == old(out)@ + joined(pieces.deep_view()),
{
    let ghost start = out@;
    let mut i: usize = 0;
    proof {
        assert(start + joined(pieces.deep_view().take(0)) =~= start);
    }
    while i < pieces.len()
        invariant
            i <= pieces@.len(),
            out@ == start + joined(pieces.deep_view().take(i as int)),
        decreases pieces@.len() - i,
    {
        let ghost before = out@;
        proof {
            assert(pieces.deep_view().take(i + 1).drop_last() =~= pieces.deep_view().take(i as int));
            assert(pieces.deep_view().take(i + 1).last() == pieces@[i as int]@);
        }
        if i > 0 {
            push_str(out, ", ");
        }
        push_str(out, pieces[i].as_str());
        proof {
            if i == 0 {
                assert(pieces.deep_view().take(1) =~= seq![pieces@[0]@]);
                assert(out@ =~= start + joined(pieces.deep_view().take(1)));
            } else {
                assert(out@ =~= start + joined(pieces.deep_view().take(i + 1)));
            }
        }
        i = i + 1;
    }
    proof {
        assert(pieces.deep_view().take(pieces@.len() as int) =~= pieces.deep_view());
    }
}

/// The message shown when installations end (see `install_summary`).
pub fn installation_summary(successful: &Vec<String>, failed: &Vec<String>) -> (r: Option<String>)
    ensures
        r.deep_view() == install_summary(successful.deep_view(), failed.deep_view()),
{
    if successful.len() == 0 && failed.len() == 0 {
        return None;
    }
    let mut out: Vec<char> = Vec::new();
    if successful.len() > 0 {
        push_str(&mut out, "Succesfully installed:\n");
        push_joined(&mut out, successful);
        push_str(&mut out, "\n");
    }
    let ghost mid = out@;
    if failed.len() > 0 {
        push_str(&mut out, "Failed to install:\n");
        push_joined(&mut out, failed);
    }
    proof {
        let s = successful.deep_view();
        let f = failed.deep_view();
        let first = if s.len() > 0 {
            "Succesfully installed:\n"@ + joined(s) + "\n"@
        } else {
            seq![]
        };
        let second = if f.len() > 0 {
            "Failed to install:\n"@ + joined(f)
        } else {
            seq![]
        };
        assert(mid =~= first);
        assert(out@ =~= first + second);
    }
    Some(string_of(&out))
}

/// The sentence closing both questions asked about a duplicate install.
pub open spec fn replace_question_end() -> Seq<char> {
    " already exists. Do you want to replace it?\nClicking no will cancel the installation of this mod."@
}

/// The question asked when the folder an install would write already exists,
/// naming the mod found in it, if any.
pub open spec fn spec_folder_exists_question(folder_name: Seq<char>, mod_id: Option<Seq<char>>) -> Seq<char> {
    "A folder named `"@ + folder_name + "`"@ + (match mod_id {
        Some(id) => ", containing mod with ID `"@ + id + "`, "@,
        None => seq![],
    }) + replace_question_end()
}

/// The question asked when a mod with the installed mod's ID already exists.
pub open spec fn spec_id_exists_question(id: Seq<char>, name: Seq<char>) -> Seq<char> {
    "A mod with ID `"@ + id + "`, named `"@ + name + "`,"@ + replace_question_end()
}

/// The question asked before an install replaces an existing folder.
pub fn folder_exists_question(folder_name: &str, mod_id: Option<&str>) -> (r: String)
    ensures
        r@ == spec_folder_exists_question(folder_name@, mod_id.deep_view()),
{
    let mut out: Vec<char> = Vec::new();
    push_str(&mut out, "A folder named `");
    push_str(&mut out, folder_name);
    push_str(&mut out, "`");
    let ghost head = out@;
    match mod_id {
        Some(id) => {
            push_str(&mut out, ", containing mod with ID `");
            push_str(&mut out, id);
            push_str(&mut out, "`, ");
        },
        None => {},
    }
    let ghost middle = out@;
    push_str(&mut out, " already exists. Do you want to replace it?\nClicking no will cancel the installation of this mod.");
    proof {
        let named = match mod_id {
            Some(id) => ", containing mod with ID `"@ + id@ + "`, "@,
            None => Seq::<char>::empty(),
        };
        assert(middle =~= head + named);
        assert(out@ =~= spec_folder_exists_question(folder_name@, mod_id.deep_view()));
    }
    string_of(&out)
}

/// The question asked before an install replaces the mod with the same ID.
pub fn id_exists_question(id: &str, name: &str) -> (r: String)
    ensures
        r@ == spec_id_exists_question(id@, name@),
{
    let mut out: Vec<char> = Vec::new();
    push_str(&mut out, "A mod with ID `");
    push_str(&mut out, id);
    push_str(&mut out, "`, named `");
    push_str(&mut out, name);
    push_str(&mut out, "`,");
    push_str(&mut out, " already exists. Do you want to replace it?\nClicking no will cancel the installation of this mod.");
    proof {
        assert(out@ =~= spec_id_exists_question(id@, name@));
    }
    string_of(&out)
}

/// Every position in `r` names an entry before `k` that is shown.
pub open spec fn shown_below(entries: Seq<ModEntry>, r: Seq<usize>, k: int) -> bool {
    forall|j: int| 0 <= j < r.len() ==> (#[trigger] r[j]) < k && entries[r[j] as int].display
}

/// Every shown entry before `k` has its position in `r`.
pub open spec fn covers_shown(entries: Seq<ModEntry>, r: Seq<usize>, k: int) -> bool {
    forall|i: int| 0 <= i < k && (#[trigger] entries[i]).display ==> r.contains(i as usize)
}

/// Each entry named in `r` may come before the next one named.
pub open spec fn sorted_under(entries: Seq<ModEntry>, r: Seq<usize>, sorting: (ModEntryComp, bool)) -> bool {
    forall|j: int| 0 <= j < r.len() - 1 ==> in_order(entries[#[trigger] r[j] as int], entries[r[j + 1] as int], sorting)
}

/// Each entry named in `r` may come before every entry named after it.
pub open spec fn sorted_throughout(entries: Seq<ModEntry>, r: Seq<usize>, sorting: (ModEntryComp, bool)) -> bool {
    forall|i: int, j: int|
        0 <= i < j < r.len() ==> in_order(entries[#[trigger] r[i] as int], entries[#[trigger] r[j] as int], sorting)
}

proof fn lemma_in_order_between(entries: Seq<ModEntry>, r: Seq<usize>, sorting: (ModEntryComp, bool), i: int, j: int)
    requires
        sorted_under(entries, r, sorting),
        0 <= i < j < r.len(),
    ensures
        in_order(entries[r[i] as int], entries[r[j] as int], sorting),
    decreases j - i,
{
    if j == i + 1 {
        assert(in_order(entries[r[i] as int], entries[r[i + 1] as int], sorting));
    } else {
        lemma_in_order_between(entries, r, sorting, i, j - 1);
        assert(in_order(entries[r[j - 1] as int], entries[r[j - 1 + 1] as int], sorting));
        law_entry_order_transitive(entries[r[i] as int], entries[r[j - 1] as int], entries[r[j] as int], sorting);
    }
}

proof fn lemma_sorted_throughout(entries: Seq<ModEntry>, r: Seq<usize>, sorting: (ModEntryComp, bool))
    requires
        sorted_under(entries, r, sorting),
    ensures
        sorted_throughout(entries, r, sorting),
{
    assert forall|i: int, j: int| 0 <= i < j < r.len() implies in_order(
        entries[#[trigger] r[i] as int],
        entries[#[trigger] r[j] as int],
        sorting,
    ) by {
        lemma_in_order_between(entries, r, sorting, i, j);
    }
}

proof fn lemma_insert_keeps_sorted(entries: Seq<ModEntry>, old_r: Seq<usize>, p: int, k: usize, sorting: (ModEntryComp, bool))
    requires
        0 <= p <= old_r.len(),
        k < entries.len(),
        sorted_under(entries, old_r, sorting),
        p > 0 ==> in_order(entries[old_r[p - 1] as int], entries[k as int], sorting),
        p < old_r.len() ==> in_order(entries[k as int], entries[old_r[p] as int], sorting),
    ensures
        sorted_under(entries, old_r.insert(p, k), sorting),
{
    let r = old_r.insert(p, k);
    assert forall|j: int| 0 <= j < r.len() - 1 implies in_order(entries[#[trigger] r[j] as int], entries[r[j + 1] as int], sorting) by {
        if j < p - 1 {
            assert(r[j] == old_r[j] && r[j + 1] == old_r[j + 1]);
        } else if j == p - 1 {
            assert(r[j] == old_r[j] && r[j + 1] == k);
        } else if j == p {
            assert(r[j] == k && r[j + 1] == old_r[j]);
        } else {
            assert(r[j] == old_r[j - 1] && r[j + 1] == old_r[j]);
        }
    }
}

proof fn lemma_insert_keeps_members(entries: Seq<ModEntry>, old_r: Seq<usize>, p: int, k: usize)
    requires
        0 <= p <= old_r.len(),
        k < entries.len(),
        entries[k as int].display,
        old_r.no_duplicates(),
        shown_below(entries, old_r, k as int),
        covers_shown(entries, old_r, k as int),
    ensures
        old_r.insert(p, k).no_duplicates(),
        shown_below(entries, old_r.insert(p, k), k + 1),
        covers_shown(entries, old_r.insert(p, k), k + 1),
{
    let r = old_r.insert(p, k);
    assert(!old_r.contains(k));
    assert forall|j: int| 0 <= j < r.len() implies (#[trigger] r[j]) < k + 1 && entries[r[j] as int].display by {
        if j < p {
            assert(r[j] == old_r[j]);
        } else if j > p {
            assert(r[j] == old_r[j - 1]);
        }
    }
    assert forall|i: int| 0 <= i < k + 1 && (#[trigger] entries[i]).display implies r.contains(i as usize) by {
        if i == k {
            assert(r[p] == k);
        } else {
            let w = choose|w: int| 0 <= w < old_r.len() && old_r[w] == i as usize;
            if w < p {
                assert(r[w] == i as usize);
            } else {
                assert(r[w + 1] == i as usize);
            }
        }
    }
    assert forall|a: int, b: int| 0 <= a < r.len() && 0 <= b < r.len() && a != b implies r[a] != r[b] by {
        if a != p && b != p {
            let oa = if a < p { a } else { a - 1 };
            let ob = if b < p { b } else { b - 1 };
            assert(r[a] == old_r[oa] && r[b] == old_r[ob]);
        } else if a == p {
            let ob = if b < p { b } else { b - 1 };
            assert(r[b] == old_r[ob]);
        } else {
            let oa = if a < p { a } else { a - 1 };
            assert(r[a] == old_r[oa]);
        }
    }
}

/// Puts the shown entry `k` into the sorted positions `r`, after every entry
/// that may come before it.
fn insert_shown(entries: &Vec<ModEntry>, r: &mut Vec<usize>, k: usize, sorting: (ModEntryComp, bool))
    requires
        k < entries@.len(),
        entries@[k as int].display,
        old(r)@.no_duplicates(),
        shown_below(entries@, old(r)@, k as int),
        covers_shown(entries@, old(r)@, k as int),
        sorted_under(entries@, old(r)@, sorting),
    ensures
        final(r)@.no_duplicates(),
        shown_below(entries@, final(r)@, k + 1),
        covers_shown(entries@, final(r)@, k + 1),
        sorted_under(entries@, final(r)@, sorting),
{
    let mut p: usize = r.len();
    while p > 0 && goes_after(&entries[r[p - 1]], &entries[k], sorting)
        invariant
            p <= r@.len(),
            k < entries@.len(),
            shown_below(entries@, r@, k as int),
            forall|j: int| p <= j < r@.len() ==> !in_order(entries@[#[trigger] r@[j] as int], entries@[k as int], sorting),
        decreases p,
    {
        p = p - 1;
    }
    let ghost old_r = r@;
    proof {
        if p < old_r.len() {
            lemma_after_then_before(entries@[old_r[p as int] as int], entries@[k as int], sorting);
        }
        lemma_insert_keeps_sorted(entries@, old_r, p as int, k, sorting);
        lemma_insert_keeps_members(entries@, old_r, p as int, k);
    }
    r.insert(p, k);
    proof {
        assert(r@ =~= old_r.insert(p as int, k));
    }
}

/// The entries the list shows, as positions in `entries`, in the order of
/// `sorting`: every shown entry exactly once, none that is hidden, and each
/// allowed to come before the next. Entries that are equal keep their order.
pub fn display_order(entries: &Vec<ModEntry>, sorting: (ModEntryComp, bool)) -> (r: Vec<usize>)
    ensures
        r@.no_duplicates(),
        shown_below(entries@, r@, entries@.len() as int),
        covers_shown(entries@, r@, entries@.len() as int),
        sorted_under(entries@, r@, sorting),
        sorted_throughout(entries@, r@, sorting),
{
    let mut r: Vec<usize> = Vec::new();
    let mut k: usize = 0;
    while k < entries.len()
        invariant
            k <= entries@.len(),
            r@.no_duplicates(),
            shown_below(entries@, r@, k as int),
            covers_shown(entries@, r@, k as int),
            sorted_under(entries@, r@, sorting),
        decreases entries@.len() - k,
    {
        if entries[k].display {
            insert_shown(entries, &mut r, k, sorting);
        } else {
            proof {
                assert forall|i: int| 0 <= i < k + 1 && (#[trigger] entries@[i]).display implies r@.contains(i as usize) by {
                }
            }
        }
        k = k + 1;
    }
    proof {
        lemma_sorted_throughout(entries@, r@, sorting);
    }
    r
}


/// The "new version available" filter shows an entry exactly when the
/// published version is newer than the installed one: on a major, minor or
/// patch update alike.
pub proof fn law_outdated_filter_shows_updates(local: Version, remote: Version, enabled: bool)
    ensures
        filter_shows(ToolOptions::FilterOutdated, enabled, Some(spec_update_status(local, remote))) == Some(
            version_lt(local, remote),
        ),
{
    law_version_order_total(local, remote);
    law_update_status_follows_order(local, remote);
}

/// A search shows an entry exactly when it scores it, and its score is the
/// best of the scores of its id, name and author: at least each of them, and
/// one of them.
pub proof fn law_search_shows_scored(query: Seq<char>, e: ModEntry)
    ensures
        search_result(query, e).0 == search_result(query, e).1 is Some,
        fuzzy_score(query, e.id@) matches Some(x) ==> (search_result(query, e).1 matches Some(y) && x <= y),
        fuzzy_score(query, e.name@) matches Some(x) ==> (search_result(query, e).1 matches Some(y) && x <= y),
        fuzzy_score(query, e.author@) matches Some(x) ==> (search_result(query, e).1 matches Some(y) && x <= y),
        search_result(query, e).1 matches Some(y) ==> (fuzzy_score(query, e.id@) == Some(y) || fuzzy_score(
            query,
            e.name@,
        ) == Some(y) || fuzzy_score(query, e.author@) == Some(y)),
{
}


/// What each filter of the tool menu shows: the enabled mods, the disabled
/// ones (the other mods), every mod, the mods without a status (no version
/// checker), those whose check failed (never one whose published version was
/// fetched), and those whose published version is older than the installed
/// one. The other menu entries are no filters.
pub proof fn law_filters_show(enabled: bool, status: Option<UpdateStatus>, local: Version, remote: Version)
    ensures
        filter_shows(ToolOptions::FilterEnabled, enabled, status) == Some(enabled),
        filter_shows(ToolOptions::FilterDisabled, enabled, status) == Some(
            !filter_shows(ToolOptions::FilterEnabled, enabled, status)->0,
        ),
        filter_shows(ToolOptions::FilterNone, enabled, status) == Some(true),
        filter_shows(ToolOptions::FilterUnsupported, enabled, status) == Some(status is None),
        filter_shows(ToolOptions::FilterError, enabled, Some(UpdateStatus::Error)) == Some(true),
        filter_shows(ToolOptions::FilterError, enabled, Some(spec_update_status(local, remote))) == Some(false),
        filter_shows(ToolOptions::FilterError, enabled, None) == Some(false),
        filter_shows(ToolOptions::FilterDiscrepancy, enabled, Some(spec_update_status(local, remote))) == Some(
            version_lt(remote, local),
        ),
        filter_shows(ToolOptions::FilterOutdated, enabled, Some(UpdateStatus::Error)) == Some(false),
        filter_shows(ToolOptions::Default, enabled, status) is None,
        filter_shows(ToolOptions::EnableAll, enabled, status) is None,
        filter_shows(ToolOptions::DisableAll, enabled, status) is None,
        filter_shows(ToolOptions::Refresh, enabled, status) is None,
{
    law_version_order_total(local, remote);
    law_update_status_follows_order(local, remote);
}

/// An empty search shows every entry and leaves its score and everything
/// else as it was.
pub proof fn law_empty_search_shows_all(o: ModEntry, e: ModEntry)
    requires
        searched(o, e, Seq::<char>::empty()),
    ensures
        e.display,
        e.search_score == o.search_score,
        e.enabled == o.enabled && e.update_status == o.update_status && e.id@ == o.id@,
{
}

} // verus!