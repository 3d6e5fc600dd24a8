//! The order of two entries of the mod list under each sorting.

use vstd::prelude::*;
use std::cmp::Ordering;

use crate::mod_list::{ModEntry, ModEntryComp};
use crate::mod_version::{
    chars_lt, law_version_order_total, law_version_order_transitive, lemma_text_lt_asymmetric, lemma_text_lt_irreflexive,
    lemma_text_lt_total, lemma_text_lt_transitive, text_lt, version_eq, version_lt, UpdateStatus, Version,
};
use crate::text::chars_of;

verus! {

/// The order of two texts: by their characters, as strings are ordered.
pub open spec fn text_order(a: Seq<char>, b: Seq<char>) -> Ordering {
    if a == b {
        Ordering::Equal
    } else if text_lt(a, b) {
        Ordering::Less
    } else {
        Ordering::Greater
    }
}

/// The order of two flags: `false` first.
pub open spec fn flag_order(a: bool, b: bool) -> Ordering {
    if a == b {
        Ordering::Equal
    } else if !a {
        Ordering::Less
    } else {
        Ordering::Greater
    }
}

/// The order of two optional scores: no score first, then by value.
pub open spec fn score_order(a: Option<isize>, b: Option<isize>) -> Ordering {
    match (a, b) {
        (None, None) => Ordering::Equal,
        (None, Some(_)) => Ordering::Less,
        (Some(_), None) => Ordering::Greater,
        (Some(x), Some(y)) => if x == y {
            Ordering::Equal
        } else if x < y {
            Ordering::Less
        } else {
            Ordering::Greater
        },
    }
}

/// The order of two versions (see `version_lt`).
pub open spec fn version_order(a: Version, b: Version) -> Ordering {
    if version_eq(a, b) {
        Ordering::Equal
    } else if version_lt(a, b) {
        Ordering::Less
    } else {
        Ordering::Greater
    }
}

/// The position of a status kind in the order of statuses.
pub open spec fn status_rank(s: UpdateStatus) -> int {
    match s {
        UpdateStatus::Error => 0,
        UpdateStatus::Major(_) => 1,
        UpdateStatus::Minor(_) => 2,
        UpdateStatus::Patch(_) => 3,
        UpdateStatus::UpToDate => 4,
        UpdateStatus::Discrepancy(_) => 5,
    }
}

/// The order of two statuses: by kind (error, major, minor, patch, up to
/// date, discrepancy), then by the version they carry.
pub open spec fn status_order(a: UpdateStatus, b: UpdateStatus) -> Ordering {
    if status_rank(a) < status_rank(b) {
        Ordering::Less
    } else if status_rank(a) > status_rank(b) {
        Ordering::Greater
    } else {
        match (a, b) {
            (UpdateStatus::Major(x), UpdateStatus::Major(y)) => version_order(x, y),
            (UpdateStatus::Minor(x), UpdateStatus::Minor(y)) => version_order(x, y),
            (UpdateStatus::Patch(x), UpdateStatus::Patch(y)) => version_order(x, y),
            (UpdateStatus::Discrepancy(x), UpdateStatus::Discrepancy(y)) => version_order(x, y),
            _ => Ordering::Equal,
        }
    }
}

/// The order by update status: entries without a status last, equal
/// statuses by name.
pub open spec fn by_status(l: ModEntry, r: ModEntry) -> Ordering {
    match (l.update_status, r.update_status) {
        (None, None) => text_order(l.name@, r.name@),
        (None, Some(_)) => Ordering::Greater,
        (Some(_), None) => Ordering::Less,
        (Some(a), Some(b)) => if status_order(a, b) == Ordering::Equal {
            text_order(l.name@, r.name@)
        } else {
            status_order(a, b)
        },
    }
}

/// The order of two entries of the list under a sorting (column, descending).
/// Scores always go best first. Ascending orders go by id, name, author, game
/// version or enabled flag; by update status (see `by_status`); and by
/// direct-download support with supported entries first. Descending orders
/// reverse these, except that equal update statuses still go by name
/// ascending (entries without a status then come first).
pub open spec fn entry_order(l: ModEntry, r: ModEntry, sorting: (ModEntryComp, bool)) -> Ordering {
    match sorting {
        (ModEntryComp::Score, _) => score_order(r.search_score, l.search_score),
        (ModEntryComp::ID, false) => text_order(l.id@, r.id@),
        (ModEntryComp::Name, false) => text_order(l.name@, r.name@),
        (ModEntryComp::Author, false) => text_order(l.author@, r.author@),
        (ModEntryComp::Enabled, false) => flag_order(l.enabled, r.enabled),
        (ModEntryComp::GameVersion, false) => text_order(l.game_version@, r.game_version@),
        (ModEntryComp::Version, false) => by_status(l, r),
        (ModEntryComp::AutoUpdateSupport, true) => flag_order(l.direct_download, r.direct_download),
        (ModEntryComp::ID, true) => text_order(r.id@, l.id@),
        (ModEntryComp::Name, true) => text_order(r.name@, l.name@),
        (ModEntryComp::Author, true) => text_order(r.author@, l.author@),
        (ModEntryComp::Enabled, true) => flag_order(r.enabled, l.enabled),
        (ModEntryComp::GameVersion, true) => text_order(r.game_version@, l.game_version@),
        (ModEntryComp::Version, true) => match (r.update_status, l.update_status) {
            (None, None) => text_order(l.name@, r.name@),
            (None, Some(_)) => Ordering::Greater,
            (Some(_), None) => Ordering::Less,
            (Some(a), Some(b)) => if status_order(a, b) == Ordering::Equal {
                text_order(l.name@, r.name@)
            } else {
                status_order(a, b)
            },
        },
        (ModEntryComp::AutoUpdateSupport, false) => flag_order(r.direct_download, l.direct_download),
    }
}

/// The order of two texts.
pub fn compare_text(a: &String, b: &String) -> (r: Ordering)
    ensures
        r == text_order(a@, b@),
{
    if a.eq(b) {
        Ordering::Equal
    } else {
        let x = chars_of(a.as_str());
        let y = chars_of(b.as_str());
        if chars_lt(&x, &y) {
            Ordering::Less
        } else {
            Ordering::Greater
        }
    }
}

fn compare_flags(a: bool, b: bool) -> (r: Ordering)
    ensures
        r == flag_order(a, b),
{
    if a == b {
        Ordering::Equal
    } else if !a {
        Ordering::Less
    } else {
        Ordering::Greater
    }
}

pub(crate) fn compare_scores(a: Option<isize>, b: Option<isize>) -> (r: Ordering)
    ensures
        r == score_order(a, b),
{
    match (a, b) {
        (None, None) => Ordering::Equal,
        (None, Some(_)) => Ordering::Less,
        (Some(_), None) => Ordering::Greater,
        (Some(x), Some(y)) => if x == y {
            Ordering::Equal
        } else if x < y {
            Ordering::Less
        } else {
            Ordering::Greater
        },
    }
}

fn compare_versions(a: &Version, b: &Version) -> (r: Ordering)
    ensures
        r == version_order(*a, *b),
{
    if a.same_as(b) {
        Ordering::Equal
    } else if a.is_older_than(b) {
        Ordering::Less
    } else {
        Ordering::Greater
    }
}

fn rank(s: &UpdateStatus) -> (r: u8)
    ensures
        r == status_rank(*s),
{
    match s {
        UpdateStatus::Error => 0,
        UpdateStatus::Major(_) => 1,
        UpdateStatus::Minor(_) => 2,
        UpdateStatus::Patch(_) => 3,
        UpdateStatus::UpToDate => 4,
        UpdateStatus::Discrepancy(_) => 5,
    }
}

/// The order of two statuses (see `status_order`).
pub fn compare_statuses(a: &UpdateStatus, b: &UpdateStatus) -> (r: Ordering)
    ensures
        r == status_order(*a, *b),
{
    let ra = rank(a);
    let rb = rank(b);
    if ra < rb {
        Ordering::Less
    } else if ra > rb {
        Ordering::Greater
    } else {
        match (a, b) {
            (UpdateStatus::Major(x), UpdateStatus::Major(y)) => compare_versions(x, y),
            (UpdateStatus::Minor(x), UpdateStatus::Minor(y)) => compare_versions(x, y),
            (UpdateStatus::Patch(x), UpdateStatus::Patch(y)) => compare_versions(x, y),
            (UpdateStatus::Discrepancy(x), UpdateStatus::Discrepancy(y)) => compare_versions(x, y),
            _ => Ordering::Equal,
        }
    }
}

fn compare_by_status(
    first: &Option<UpdateStatus>,
    second: &Option<UpdateStatus>,
    l: &ModEntry,
    r: &ModEntry,
) -> (o: Ordering)
    ensures
        o == (match (*first, *second) {
            (None, None) => text_order(l.name@, r.name@),
            (None, Some(_)) => Ordering::Greater,
            (Some(_), None) => Ordering::Less,
            (Some(a), Some(b)) => if status_order(a, b) == Ordering::Equal {
                text_order(l.name@, r.name@)
            } else {
                status_order(a, b)
            },
        }),
{
    match (first, second) {
        (None, None) => compare_text(&l.name, &r.name),
        (None, Some(_)) => Ordering::Greater,
        (Some(_), None) => Ordering::Less,
        (Some(a), Some(b)) => {
            let o = compare_statuses(a, b);
            match o {
                Ordering::Equal => compare_text(&l.name, &r.name),
                _ => o,
            }
        },
    }
}

/// The order of two entries under a sorting (see `entry_order`).
pub fn compare_entries(l: &ModEntry, r: &ModEntry, sorting: (ModEntryComp, bool)) -> (o: Ordering)
    ensures
        o == entry_order(*l, *r, sorting),
{
    match sorting {
        (ModEntryComp::Score, _) => compare_scores(r.search_score, l.search_score),
        (ModEntryComp::ID, false) => compare_text(&l.id, &r.id),
        (ModEntryComp::Name, false) => compare_text(&l.name, &r.name),
        (ModEntryComp::Author, false) => compare_text(&l.author, &r.author),
        (ModEntryComp::Enabled, false) => compare_flags(l.enabled, r.enabled),
        (ModEntryComp::GameVersion, false) => compare_text(&l.game_version, &r.game_version),
        (ModEntryComp::Version, false) => compare_by_status(&l.update_status, &r.update_status, l, r),
        (ModEntryComp::AutoUpdateSupport, true) => compare_flags(l.direct_download, r.direct_download),
        (ModEntryComp::ID, true) => compare_text(&r.id, &l.id),
        (ModEntryComp::Name, true) => compare_text(&r.name, &l.name),
        (ModEntryComp::Author, true) => compare_text(&r.author, &l.author),
        (ModEntryComp::Enabled, true) => compare_flags(r.enabled, l.enabled),
        (ModEntryComp::GameVersion, true) => compare_text(&r.game_version, &l.game_version),
        (ModEntryComp::Version, true) => compare_by_status(&r.update_status, &l.update_status, l, r),
        (ModEntryComp::AutoUpdateSupport, false) => compare_flags(r.direct_download, l.direct_download),
    }
}

/// The opposite of an order.
pub open spec fn flipped(o: Ordering) -> Ordering {
    match o {
        Ordering::Less => Ordering::Greater,
        Ordering::Greater => Ordering::Less,
        Ordering::Equal => Ordering::Equal,
    }
}

/// Whether `l` may come before `r` under a sorting: it does not go after it.
pub open spec fn in_order(l: ModEntry, r: ModEntry, sorting: (ModEntryComp, bool)) -> bool {
    entry_order(l, r, sorting) != Ordering::Greater
}

pub proof fn lemma_text_order_flips(a: Seq<char>, b: Seq<char>)
    ensures
        text_order(b, a) == flipped(text_order(a, b)),
{
    lemma_text_lt_asymmetric(a, b);
    lemma_text_lt_total(a, b);
}

proof fn lemma_status_order_flips(a: UpdateStatus, b: UpdateStatus)
    ensures
        status_order(b, a) == flipped(status_order(a, b)),
{
    match (a, b) {
        (UpdateStatus::Major(x), UpdateStatus::Major(y)) => law_version_order_total(x, y),
        (UpdateStatus::Minor(x), UpdateStatus::Minor(y)) => law_version_order_total(x, y),
        (UpdateStatus::Patch(x), UpdateStatus::Patch(y)) => law_version_order_total(x, y),
        (UpdateStatus::Discrepancy(x), UpdateStatus::Discrepancy(y)) => law_version_order_total(x, y),
        _ => {},
    }
}

/// Swapping two entries reverses their order under every sorting: one goes
/// before the other exactly when the other goes after it, and they are
/// equal in either order alike.
pub proof fn law_entry_order_antisymmetric(l: ModEntry, r: ModEntry, sorting: (ModEntryComp, bool))
    ensures
        entry_order(r, l, sorting) == flipped(entry_order(l, r, sorting)),
{
    lemma_text_order_flips(l.id@, r.id@);
    lemma_text_order_flips(l.name@, r.name@);
    lemma_text_order_flips(l.author@, r.author@);
    lemma_text_order_flips(l.game_version@, r.game_version@);
    match (l.update_status, r.update_status) {
        (Some(a), Some(b)) => lemma_status_order_flips(a, b),
        _ => {},
    }
}

/// An entry is equal to itself under every sorting.
pub proof fn law_entry_order_reflexive(e: ModEntry, sorting: (ModEntryComp, bool))
    ensures
        entry_order(e, e, sorting) == Ordering::Equal,
{
    lemma_text_lt_irreflexive(e.name@);
    match e.update_status {
        Some(a) => lemma_status_order_flips(a, a),
        None => {},
    }
}

proof fn lemma_text_order_transitive(a: Seq<char>, b: Seq<char>, c: Seq<char>)
    requires
        text_order(a, b) != Ordering::Greater,
        text_order(b, c) != Ordering::Greater,
    ensures
        text_order(a, c) != Ordering::Greater,
{
    if a != b && b != c {
        lemma_text_lt_transitive(a, b, c);
        if a == c {
            lemma_text_lt_irreflexive(a);
        }
    }
}

proof fn lemma_version_order_transitive(a: Version, b: Version, c: Version)
    requires
        version_order(a, b) != Ordering::Greater,
        version_order(b, c) != Ordering::Greater,
    ensures
        version_order(a, c) != Ordering::Greater,
{
    law_version_order_total(a, c);
    if version_lt(a, b) && version_lt(b, c) {
        law_version_order_transitive(a, b, c);
    }
}

proof fn lemma_status_order_transitive(a: UpdateStatus, b: UpdateStatus, c: UpdateStatus)
    requires
        status_order(a, b) != Ordering::Greater,
        status_order(b, c) != Ordering::Greater,
    ensures
        status_order(a, c) != Ordering::Greater,
{
    match (a, b, c) {
        (UpdateStatus::Major(x), UpdateStatus::Major(y), UpdateStatus::Major(z)) => lemma_version_order_transitive(x, y, z),
        (UpdateStatus::Minor(x), UpdateStatus::Minor(y), UpdateStatus::Minor(z)) => lemma_version_order_transitive(x, y, z),
        (UpdateStatus::Patch(x), UpdateStatus::Patch(y), UpdateStatus::Patch(z)) => lemma_version_order_transitive(x, y, z),
        (UpdateStatus::Discrepancy(x), UpdateStatus::Discrepancy(y), UpdateStatus::Discrepancy(z)) => {
            lemma_version_order_transitive(x, y, z)
        },
        _ => {},
    }
}

/// Statuses ordered "by status, then by name": the order of two entries by
/// their statuses `a`, `b` and names `m`, `n`.
spec fn status_then_name(a: UpdateStatus, b: UpdateStatus, m: Seq<char>, n: Seq<char>) -> Ordering {
    if status_order(a, b) == Ordering::Equal {
        text_order(m, n)
    } else {
        status_order(a, b)
    }
}

proof fn lemma_status_then_name_transitive(
    a: UpdateStatus,
    b: UpdateStatus,
    c: UpdateStatus,
    m: Seq<char>,
    n: Seq<char>,
    o: Seq<char>,
)
    requires
        status_then_name(a, b, m, n) != Ordering::Greater,
        status_then_name(b, c, n, o) != Ordering::Greater,
    ensures
        status_then_name(a, c, m, o) != Ordering::Greater,
{
    lemma_status_order_transitive(a, b, c);
    lemma_status_order_flips(a, b);
    lemma_status_order_flips(b, c);
    lemma_status_order_flips(a, c);
    if status_order(a, c) == Ordering::Equal {
        lemma_status_order_transitive(b, c, a);
        lemma_status_order_transitive(c, a, b);
        lemma_text_order_transitive(m, n, o);
    }
}

/// "May come before" is transitive under every sorting, so a list whose
/// neighbours are in order is sorted throughout.
pub proof fn law_entry_order_transitive(a: ModEntry, b: ModEntry, c: ModEntry, sorting: (ModEntryComp, bool))
    requires
        in_order(a, b, sorting),
        in_order(b, c, sorting),
    ensures
        in_order(a, c, sorting),
{
    match sorting {
        (ModEntryComp::ID, false) => lemma_text_order_transitive(a.id@, b.id@, c.id@),
        (ModEntryComp::Name, false) => lemma_text_order_transitive(a.name@, b.name@, c.name@),
        (ModEntryComp::Author, false) => lemma_text_order_transitive(a.author@, b.author@, c.author@),
        (ModEntryComp::GameVersion, false) => lemma_text_order_transitive(
            a.game_version@,
            b.game_version@,
            c.game_version@,
        ),
        (ModEntryComp::ID, true) => lemma_text_order_transitive(c.id@, b.id@, a.id@),
        (ModEntryComp::Name, true) => lemma_text_order_transitive(c.name@, b.name@, a.name@),
        (ModEntryComp::Author, true) => lemma_text_order_transitive(c.author@, b.author@, a.author@),
        (ModEntryComp::GameVersion, true) => lemma_text_order_transitive(
            c.game_version@,
            b.game_version@,
            a.game_version@,
        ),
        (ModEntryComp::Version, false) => match (a.update_status, b.update_status, c.update_status) {
            (None, None, None) => lemma_text_order_transitive(a.name@, b.name@, c.name@),
            (Some(x), Some(y), Some(z)) => lemma_status_then_name_transitive(x, y, z, a.name@, b.name@, c.name@),
            _ => {},
        },
        (ModEntryComp::Version, true) => match (a.update_status, b.update_status, c.update_status) {
            (None, None, None) => lemma_text_order_transitive(a.name@, b.name@, c.name@),
            (Some(x), Some(y), Some(z)) => {
                assert(status_then_name(y, x, a.name@, b.name@) != Ordering::Greater);
                assert(status_then_name(z, y, b.name@, c.name@) != Ordering::Greater);
                lemma_status_order_transitive(z, y, x);
                lemma_status_order_flips(x, y);
                lemma_status_order_flips(y, z);
                lemma_status_order_flips(x, z);
                if status_order(z, x) == Ordering::Equal {
                    lemma_status_order_transitive(y, x, z);
                    lemma_status_order_transitive(x, z, y);
                    lemma_text_order_transitive(a.name@, b.name@, c.name@);
                }
            },
            _ => {},
        },
        _ => {},
    }
}

/// When `l` goes after `r`, `r` may come before `l`.
pub proof fn lemma_after_then_before(l: ModEntry, r: ModEntry, sorting: (ModEntryComp, bool))
    requires
        !in_order(l, r, sorting),
    ensures
        in_order(r, l, sorting),
{
    law_entry_order_antisymmetric(l, r, sorting);
}

/// Whether `l` goes after `r` under the sorting.
pub fn goes_after(l: &ModEntry, r: &ModEntry, sorting: (ModEntryComp, bool)) -> (b: bool)
    ensures
        b == !in_order(*l, *r, sorting),
{
    match compare_entries(l, r, sorting) {
        Ordering::Greater => true,
        _ => false,
    }
}


/// The reverse of an order.
pub open spec fn reversed(o: Ordering) -> Ordering {
    match o {
        Ordering::Less => Ordering::Greater,
        Ordering::Equal => Ordering::Equal,
        Ordering::Greater => Ordering::Less,
    }
}

/// Ordering texts the other way round reverses their order.
proof fn lemma_text_order_swap(a: Seq<char>, b: Seq<char>)
    ensures
        text_order(b, a) == reversed(text_order(a, b)),
{
    lemma_text_lt_total(a, b);
    lemma_text_lt_asymmetric(a, b);
}

/// For every column but the search score and the update status, sorting in
/// descending order puts two entries the other way round from ascending
/// order.
pub proof fn law_descending_reverses_ascending(l: ModEntry, r: ModEntry, c: ModEntryComp)
    requires
        c != ModEntryComp::Score,
        c != ModEntryComp::Version,
    ensures
        entry_order(l, r, (c, true)) == reversed(entry_order(l, r, (c, false))),
{
    lemma_text_order_swap(l.id@, r.id@);
    lemma_text_order_swap(l.name@, r.name@);
    lemma_text_order_swap(l.author@, r.author@);
    lemma_text_order_swap(l.game_version@, r.game_version@);
}

/// What ascending order puts first: the text that comes first (by id, name,
/// author or game version), a disabled mod before an enabled one, and a mod
/// that can be downloaded directly before one that cannot. Under the search
/// score, in either direction, the higher score comes first and a scored
/// entry before an unscored one. Equal fields keep entries level.
pub proof fn law_ascending_orders(l: ModEntry, r: ModEntry)
    ensures
        text_lt(l.id@, r.id@) ==> entry_order(l, r, (ModEntryComp::ID, false)) == Ordering::Less,
        text_lt(l.name@, r.name@) ==> entry_order(l, r, (ModEntryComp::Name, false)) == Ordering::Less,
        text_lt(l.author@, r.author@) ==> entry_order(l, r, (ModEntryComp::Author, false)) == Ordering::Less,
        text_lt(l.game_version@, r.game_version@) ==> entry_order(l, r, (ModEntryComp::GameVersion, false))
            == Ordering::Less,
        l.id@ == r.id@ ==> entry_order(l, r, (ModEntryComp::ID, false)) == Ordering::Equal,
        !l.enabled && r.enabled ==> entry_order(l, r, (ModEntryComp::Enabled, false)) == Ordering::Less,
        l.enabled == r.enabled ==> entry_order(l, r, (ModEntryComp::Enabled, false)) == Ordering::Equal,
        l.direct_download && !r.direct_download ==> entry_order(l, r, (ModEntryComp::AutoUpdateSupport, false))
            == Ordering::Less,
        forall|d: bool|
            (l.search_score matches Some(x) && (r.search_score matches Some(y) && x > y)) ==> #[trigger] entry_order(
                l,
                r,
                (ModEntryComp::Score, d),
            ) == Ordering::Less,
        forall|d: bool|
            (l.search_score is Some && r.search_score is None) ==> #[trigger] entry_order(l, r, (ModEntryComp::Score, d))
                == Ordering::Less,
{
    lemma_text_lt_irreflexive(l.id@);
    lemma_text_lt_irreflexive(l.name@);
    lemma_text_lt_irreflexive(l.author@);
    lemma_text_lt_irreflexive(l.game_version@);
}


/// Comparing two versions the other way round reverses their order.
proof fn lemma_version_order_swap(a: Version, b: Version)
    ensures
        version_order(b, a) == reversed(version_order(a, b)),
{
    law_version_order_total(a, b);
    law_version_order_total(b, a);
}

/// Comparing two statuses the other way round reverses their order.
proof fn lemma_status_order_swap(a: UpdateStatus, b: UpdateStatus)
    ensures
        status_order(b, a) == reversed(status_order(a, b)),
{
    match (a, b) {
        (UpdateStatus::Major(x), UpdateStatus::Major(y)) => lemma_version_order_swap(x, y),
        (UpdateStatus::Minor(x), UpdateStatus::Minor(y)) => lemma_version_order_swap(x, y),
        (UpdateStatus::Patch(x), UpdateStatus::Patch(y)) => lemma_version_order_swap(x, y),
        (UpdateStatus::Discrepancy(x), UpdateStatus::Discrepancy(y)) => lemma_version_order_swap(x, y),
        _ => {},
    }
}

/// Sorting by update status. Ascending, entries with a status come before
/// those without; statuses of different kinds go error, major, minor, patch,
/// up to date, discrepancy; updates of one kind go by the version they bring,
/// older first; level statuses, and entries without one, go by name.
/// Descending reverses the order of statuses that are not level, puts
/// entries without a status first, and still takes level ones by name.
pub proof fn law_status_sorting(l: ModEntry, r: ModEntry)
    ensures
        l.update_status is Some && r.update_status is None ==> entry_order(l, r, (ModEntryComp::Version, false))
            == Ordering::Less && entry_order(l, r, (ModEntryComp::Version, true)) == Ordering::Greater,
        l.update_status is None && r.update_status is None ==> entry_order(l, r, (ModEntryComp::Version, false))
            == text_order(l.name@, r.name@) && entry_order(l, r, (ModEntryComp::Version, true)) == text_order(
            l.name@,
            r.name@,
        ),
        l.update_status is Some && r.update_status is Some ==> {
            let a = l.update_status->0;
            let b = r.update_status->0;
            let up = entry_order(l, r, (ModEntryComp::Version, false));
            let down = entry_order(l, r, (ModEntryComp::Version, true));
            &&& (a is Error && !(b is Error)) ==> up == Ordering::Less
            &&& (a is Major && (b is Minor || b is Patch || b is UpToDate || b is Discrepancy)) ==> up == Ordering::Less
            &&& (a is Minor && (b is Patch || b is UpToDate || b is Discrepancy)) ==> up == Ordering::Less
            &&& (a is Patch && (b is UpToDate || b is Discrepancy)) ==> up == Ordering::Less
            &&& (a is UpToDate && b is Discrepancy) ==> up == Ordering::Less
            &&& (a matches UpdateStatus::Major(x) && b matches UpdateStatus::Major(y) && version_lt(x, y)) ==> up
                == Ordering::Less
            &&& (a matches UpdateStatus::Patch(x) && b matches UpdateStatus::Patch(y) && version_lt(x, y)) ==> up
                == Ordering::Less
            &&& (a is UpToDate && b is UpToDate) ==> up == text_order(l.name@, r.name@)
            &&& status_order(a, b) != Ordering::Equal ==> down == reversed(up)
            &&& status_order(a, b) == Ordering::Equal ==> down == up
        },
{
    if l.update_status is Some && r.update_status is Some {
        let a = l.update_status->0;
        let b = r.update_status->0;
        lemma_status_order_swap(a, b);
        match (a, b) {
            (UpdateStatus::Major(x), UpdateStatus::Major(y)) => law_version_order_total(x, y),
            (UpdateStatus::Patch(x), UpdateStatus::Patch(y)) => law_version_order_total(x, y),
            _ => {},
        }
    }
}

} // verus!
