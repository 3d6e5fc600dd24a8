//! Mod versions (`major.minor.patch`), their order, and how a mod's local
//! version compares with the one its author publishes.

use vstd::prelude::*;
use vstd::std_specs::cmp::PartialEqSpecImpl;
use vstd::std_specs::cmp::PartialOrdSpecImpl;

use crate::text::{format_i32, push_chars, push_str, spec_format_i32, string_of};

verus! {

/// A mod version: numeric major and minor parts and a free-form patch part.
#[derive(Debug)]
pub struct Version {
    pub major: i32,
    pub minor: i32,
    pub patch: String,
}

/// Whether `a` comes before `b` in lexicographic order of their characters,
/// which for strings is the order of their UTF-8 bytes.
pub open spec fn text_lt(a: Seq<char>, b: Seq<char>) -> bool
    decreases a.len(),
{
    if a.len() == 0 {
        b.len() > 0
    } else if b.len() == 0 {
        false
    } else if a[0] != b[0] {
        (a[0] as int) < (b[0] as int)
    } else {
        text_lt(a.skip(1), b.skip(1))
    }
}

/// Whether version `a` comes before version `b`: by major part, then minor
/// part, then patch text.
pub open spec fn version_lt(a: Version, b: Version) -> bool {
    a.major < b.major || (a.major == b.major && (a.minor < b.minor || (a.minor == b.minor && text_lt(a.patch@, b.patch@))))
}

/// Whether two versions have equal parts.
pub open spec fn version_eq(a: Version, b: Version) -> bool {
    a.major == b.major && a.minor == b.minor && a.patch@ == b.patch@
}

/// Whether `a` comes before `b` (the strict order of `text_lt`).
pub fn chars_lt(a: &[char], b: &[char]) -> (r: bool)
    ensures
        r == text_lt(a@, b@),
{
    let mut i: usize = 0;
    proof {
        assert(a@.skip(0) =~= a@);
        assert(b@.skip(0) =~= b@);
    }
    while i < a.len() && i < b.len()
        invariant
            i <= a@.len(),
            i <= b@.len(),
            forall|k: int| 0 <= k < i ==> a@[k] == b@[k],
            text_lt(a@, b@) == text_lt(a@.skip(i as int), b@.skip(i as int)),
        decreases a@.len() - i,
    {
        if a[i] != b[i] {
            proof {
                assert(a@.skip(i as int)[0] == a@[i as int]);
                assert(b@.skip(i as int)[0] == b@[i as int]);
            }
            return a[i] < b[i];
        }
        proof {
            assert(a@.skip(i as int).skip(1) =~= a@.skip(i + 1));
            assert(b@.skip(i as int).skip(1) =~= b@.skip(i + 1));
        }
        i = i + 1;
    }
    i == a.len() && i < b.len()
}

impl Version {
    /// A version with the given parts.
    pub fn new(major: i32, minor: i32, patch: String) -> (r: Self)
        ensures
            r.major == major,
            r.minor == minor,
            r.patch@ == patch@,
    {
        Version { major, minor, patch }
    }

    /// Whether `self` comes before `other`.
    pub fn is_older_than(&self, other: &Version) -> (r: bool)
        ensures
            r == version_lt(*self, *other),
    {
        if self.major != other.major {
            return self.major < other.major;
        }
        if self.minor != other.minor {
            return self.minor < other.minor;
        }
        let a = crate::text::chars_of(self.patch.as_str());
        let b = crate::text::chars_of(other.patch.as_str());
        chars_lt(&a, &b)
    }

    /// Whether the two versions have equal parts.
    pub fn same_as(&self, other: &Version) -> (r: bool)
        ensures
            r == version_eq(*self, *other),
    {
        self.major == other.major && self.minor == other.minor && self.patch == other.patch
    }

    /// The version written as `major.minor.patch`, or `major.minor` when the
    /// patch part is empty.
    pub fn display_string(&self) -> (r: String)
        ensures
            r@ == spec_version_text(*self),
    {
        let mut out: Vec<char> = Vec::new();
        let major = format_i32(self.major);
        push_chars(&mut out, &major);
        out.push('.');
        let minor = format_i32(self.minor);
        push_chars(&mut out, &minor);
        let patch = crate::text::chars_of(self.patch.as_str());
        if patch.len() > 0 {
            out.push('.');
            push_str(&mut out, self.patch.as_str());
        }
        proof {
            assert(out@ =~= spec_version_text(*self));
        }
        string_of(&out)
    }
}

/// How a version is written: `major.minor.patch`, or `major.minor` when the
/// patch part is empty.
pub open spec fn spec_version_text(v: Version) -> Seq<char> {
    let base = spec_format_i32(v.major) + seq!['.'] + spec_format_i32(v.minor);
    if v.patch@.len() > 0 {
        base + seq!['.'] + v.patch@
    } else {
        base
    }
}

impl Clone for Version {
    fn clone(&self) -> (r: Self)
        ensures
            r == *self,
    {
        Version { major: self.major, minor: self.minor, patch: self.patch.clone() }
    }
}

impl PartialEq for Version {
    fn eq(&self, other: &Self) -> (r: bool) {
        self.same_as(other)
    }
}

impl PartialEqSpecImpl for Version {
    open spec fn obeys_eq_spec() -> bool {
        true
    }

    open spec fn eq_spec(&self, other: &Version) -> bool {
        version_eq(*self, *other)
    }
}

impl PartialOrd for Version {
    fn partial_cmp(&self, other: &Self) -> (r: Option<std::cmp::Ordering>) {
        if self.same_as(other) {
            Some(std::cmp::Ordering::Equal)
        } else if self.is_older_than(other) {
            Some(std::cmp::Ordering::Less)
        } else {
            Some(std::cmp::Ordering::Greater)
        }
    }
}

impl PartialOrdSpecImpl for Version {
    open spec fn obeys_partial_cmp_spec() -> bool {
        true
    }

    open spec fn partial_cmp_spec(&self, other: &Version) -> Option<std::cmp::Ordering> {
        if version_eq(*self, *other) {
            Some(std::cmp::Ordering::Equal)
        } else if version_lt(*self, *other) {
            Some(std::cmp::Ordering::Less)
        } else {
            Some(std::cmp::Ordering::Greater)
        }
    }
}

/// A mod's version checker file: where its published version file lives,
/// where the mod can be downloaded directly, the mod's name, its forum and
/// Nexus IDs, and the version the file states.
#[derive(Debug)]
pub struct ModVersionMeta {
    pub remote_url: String,
    pub direct_download_url: Option<String>,
    pub id: String,
    pub fractal_id: String,
    pub nexus_id: String,
    pub version: Version,
}

/// How a mod's published version stands against its installed one.
#[derive(Debug, Clone)]
pub enum UpdateStatus {
    Error,
    Major(Version),
    Minor(Version),
    Patch(Version),
    UpToDate,
    Discrepancy(Version),
}

/// The published version's major and minor parts can be subtracted from the
/// installed one's where the status computation does so.
pub open spec fn differences_fit(local: Version, remote: Version) -> bool {
    &&& i32::MIN <= remote.major - local.major <= i32::MAX
    &&& remote.major - local.major <= 0 ==> i32::MIN <= remote.minor - local.minor <= i32::MAX
}

/// The status of an installed version `local` given the published version
/// `remote`: up to date when equal, a discrepancy when the published one is
/// older, otherwise a major update when its major part is higher, a minor one
/// when its minor part is higher, and a patch update in every other case.
pub open spec fn spec_update_status(local: Version, remote: Version) -> UpdateStatus {
    if version_eq(remote, local) {
        UpdateStatus::UpToDate
    } else if version_lt(remote, local) {
        UpdateStatus::Discrepancy(remote)
    } else if remote.major - local.major > 0 {
        UpdateStatus::Major(remote)
    } else if remote.minor - local.minor > 0 {
        UpdateStatus::Minor(remote)
    } else {
        UpdateStatus::Patch(remote)
    }
}

impl UpdateStatus {
    /// The status of the installed version `local` against the published one,
    /// or `Error` when the published version could not be fetched.
    pub fn from_versions(local: &Version, remote: Option<&Version>) -> (r: UpdateStatus)
        requires
            remote matches Some(v) ==> differences_fit(*local, *v),
        ensures
            match remote {
                Some(v) => r == spec_update_status(*local, *v),
                None => r == UpdateStatus::Error,
            },
    {
        match remote {
            None => UpdateStatus::Error,
            Some(version) => {
                if version.same_as(local) {
                    UpdateStatus::UpToDate
                } else if version.is_older_than(local) {
                    UpdateStatus::Discrepancy(version.clone())
                } else if version.major - local.major > 0 {
                    UpdateStatus::Major(version.clone())
                } else if version.minor - local.minor > 0 {
                    UpdateStatus::Minor(version.clone())
                } else {
                    UpdateStatus::Patch(version.clone())
                }
            },
        }
    }

    /// The status's name as the mod list shows it.
    pub fn label(&self) -> (r: &'static str)
        ensures
            r@ == spec_status_label(*self),
    {
        proof {
            reveal_strlit("Major");
            reveal_strlit("Minor");
            reveal_strlit("Patch");
            reveal_strlit("Up to date");
            reveal_strlit("Error");
            reveal_strlit("Discrepancy");
        }
        match self {
            UpdateStatus::Major(_) => "Major",
            UpdateStatus::Minor(_) => "Minor",
            UpdateStatus::Patch(_) => "Patch",
            UpdateStatus::UpToDate => "Up to date",
            UpdateStatus::Error => "Error",
            UpdateStatus::Discrepancy(_) => "Discrepancy",
        }
    }
}

/// The name of each status.
pub open spec fn spec_status_label(s: UpdateStatus) -> Seq<char> {
    match s {
        UpdateStatus::Major(_) => "Major"@,
        UpdateStatus::Minor(_) => "Minor"@,
        UpdateStatus::Patch(_) => "Patch"@,
        UpdateStatus::UpToDate => "Up to date"@,
        UpdateStatus::Error => "Error"@,
        UpdateStatus::Discrepancy(_) => "Discrepancy"@,
    }
}

/// Whether a newly fetched version should replace the installed one: exactly
/// when it is newer.
pub fn remote_is_newer(local: &Version, remote: &Version) -> (r: bool)
    ensures
        r == version_lt(*local, *remote),
{
    local.is_older_than(remote)
}

pub proof fn lemma_text_lt_irreflexive(a: Seq<char>)
    ensures
        !text_lt(a, a),
    decreases a.len(),
{
    if a.len() > 0 {
        lemma_text_lt_irreflexive(a.skip(1));
    }
}

pub proof fn lemma_text_lt_asymmetric(a: Seq<char>, b: Seq<char>)
    ensures
        !(text_lt(a, b) && text_lt(b, a)),
    decreases a.len(),
{
    if a.len() > 0 && b.len() > 0 && a[0] == b[0] {
        lemma_text_lt_asymmetric(a.skip(1), b.skip(1));
    }
}

pub proof fn lemma_text_lt_total(a: Seq<char>, b: Seq<char>)
    ensures
        text_lt(a, b) || text_lt(b, a) || a == b,
    decreases a.len(),
{
    if a.len() > 0 && b.len() > 0 {
        if a[0] == b[0] {
            lemma_text_lt_total(a.skip(1), b.skip(1));
            if a.skip(1) == b.skip(1) {
                assert(a =~= seq![a[0]] + a.skip(1));
                assert(b =~= seq![b[0]] + b.skip(1));
            }
        } else {
            assert((a[0] as int) != (b[0] as int));
        }
    } else if a.len() == 0 && b.len() == 0 {
        assert(a =~= b);
    }
}

pub proof fn lemma_text_lt_transitive(a: Seq<char>, b: Seq<char>, c: Seq<char>)
    requires
        text_lt(a, b),
        text_lt(b, c),
    ensures
        text_lt(a, c),
    decreases a.len(),
{
    if a.len() > 0 && b.len() > 0 && c.len() > 0 && a[0] == b[0] && b[0] == c[0] {
        lemma_text_lt_transitive(a.skip(1), b.skip(1), c.skip(1));
    }
}

/// Versions are totally ordered: exactly one of "before", "equal" and
/// "after" holds for any two.
pub proof fn law_version_order_total(a: Version, b: Version)
    ensures
        version_lt(a, b) || version_lt(b, a) || version_eq(a, b),
        !(version_lt(a, b) && version_lt(b, a)),
        version_eq(a, b) ==> !version_lt(a, b),
{
    lemma_text_lt_total(a.patch@, b.patch@);
    lemma_text_lt_asymmetric(a.patch@, b.patch@);
    lemma_text_lt_irreflexive(a.patch@);
}

/// The order of versions is transitive.
pub proof fn law_version_order_transitive(a: Version, b: Version, c: Version)
    requires
        version_lt(a, b),
        version_lt(b, c),
    ensures
        version_lt(a, c),
{
    if a.major == b.major && b.major == c.major && a.minor == b.minor && b.minor == c.minor {
        lemma_text_lt_transitive(a.patch@, b.patch@, c.patch@);
    }
}

/// An installed version is up to date exactly when the published one is
/// equal to it, and shows a discrepancy exactly when the published one is
/// older; a published version that is newer always yields an update.
pub proof fn law_update_status_follows_order(local: Version, remote: Version)
    ensures
        spec_update_status(local, remote) == UpdateStatus::UpToDate <==> version_eq(remote, local),
        spec_update_status(local, remote) is Discrepancy <==> version_lt(remote, local),
        version_lt(local, remote) ==> (spec_update_status(local, remote) is Major
            || spec_update_status(local, remote) is Minor
            || spec_update_status(local, remote) is Patch),
{
    law_version_order_total(local, remote);
}


/// The kind of update follows the first part in which the published version
/// is higher: the major part makes a major update, the minor part (major
/// parts equal) a minor one, the patch part (major and minor equal) a patch;
/// an older published version is a discrepancy. Each carries the published
/// version.
pub proof fn law_update_kind_by_first_higher_part(local: Version, remote: Version)
    ensures
        remote.major > local.major ==> spec_update_status(local, remote) == UpdateStatus::Major(remote),
        remote.major == local.major && remote.minor > local.minor ==> spec_update_status(local, remote)
            == UpdateStatus::Minor(remote),
        remote.major == local.major && remote.minor == local.minor && text_lt(local.patch@, remote.patch@)
            ==> spec_update_status(local, remote) == UpdateStatus::Patch(remote),
        version_lt(remote, local) ==> spec_update_status(local, remote) == UpdateStatus::Discrepancy(remote),
{
    law_version_order_total(local, remote);
}

} // verus!
