//! Starsector game versions such as `0.97a-RC11`: splitting them into their
//! major, minor, patch and release-candidate parts, writing them back, and
//! telling how far apart two of them are.

use vstd::prelude::*;
use vstd::std_specs::convert::FromSpecImpl;

use crate::patterns::{regex_split, regex_split_result};
use crate::text::{chars_of, contains_chars, occurs_in, push_str, string_of};

verus! {

/// A game version as its major, minor, patch and release-candidate parts.
pub type GameVersion = (Option<String>, Option<String>, Option<String>, Option<String>);

/// The parts of a game version as character sequences.
pub type SpecGameVersion = (Option<Seq<char>>, Option<Seq<char>>, Option<Seq<char>>, Option<Seq<char>>);

/// The separators between the parts of a game version: a dot, `a-RC` or `a`,
/// in any case.
pub const VERSION_SEPARATORS: &'static str = "(?i)\\.|a-rc|a";

/// The marker of a release-candidate number.
pub const RC_MARKER: &'static str = "a-RC";

/// The text `0`.
pub open spec fn zero_text() -> Seq<char> {
    seq!['0']
}

/// The pieces of `parts` that are not empty, in order.
pub open spec fn non_empty_parts(parts: Seq<Seq<char>>) -> Seq<Seq<char>>
    decreases parts.len(),
{
    if parts.len() == 0 {
        Seq::empty()
    } else if parts.last().len() == 0 {
        non_empty_parts(parts.drop_last())
    } else {
        non_empty_parts(parts.drop_last()).push(parts.last())
    }
}

/// How the non-empty components of a version are read:
/// - two components: `0` and minor when the first is `0`; otherwise minor and
///   a patch, or minor and a release candidate when `rc` says the text holds
///   `a-RC`;
/// - three: major `0`, minor and patch (or release candidate when `rc`) when
///   the first is `0`; otherwise minor, patch and release candidate;
/// - four, when the first is `0`: all four parts;
/// - anything else: nothing.
pub open spec fn spec_classify(c: Seq<Seq<char>>, rc: bool) -> SpecGameVersion {
    if c.len() == 2 && c[0] == zero_text() {
        (Some(c[0]), Some(c[1]), None, None)
    } else if c.len() == 2 {
        if rc {
            (Some(zero_text()), Some(c[0]), None, Some(c[1]))
        } else {
            (Some(zero_text()), Some(c[0]), Some(c[1]), None)
        }
    } else if c.len() == 3 && c[0] == zero_text() {
        if rc {
            (Some(c[0]), Some(c[1]), None, Some(c[2]))
        } else {
            (Some(c[0]), Some(c[1]), Some(c[2]), None)
        }
    } else if c.len() == 3 {
        (Some(zero_text()), Some(c[0]), Some(c[1]), Some(c[2]))
    } else if c.len() == 4 && c[0] == zero_text() {
        (Some(c[0]), Some(c[1]), Some(c[2]), Some(c[3]))
    } else {
        (None, None, None, None)
    }
}

/// What `parse_game_version` gives for `text`, in terms of the pieces that
/// `pieces` are (the result of splitting the text at the separators).
pub open spec fn spec_parse_game_version(pieces: Option<Seq<Seq<char>>>, text: Seq<char>) -> SpecGameVersion {
    let parts = match pieces {
        Some(p) => non_empty_parts(p),
        None => Seq::empty(),
    };
    spec_classify(parts, occurs_in(text, seq!['a', '-', 'R', 'C']))
}

/// A string holding the single character `0`.
fn zero_string() -> (s: String)
    ensures
        s@ == zero_text(),
{
    let mut s = String::new();
    s.push('0');
    s
}

/// Whether `s` is the text `0`.
fn is_zero(s: &String) -> (r: bool)
    ensures
        r == (s@ == zero_text()),
{
    let cs = chars_of(s.as_str());
    let r = cs.len() == 1 && cs[0] == '0';
    proof {
        if cs@.len() == 1 && cs@[0] == '0' {
            assert(cs@ =~= zero_text());
        }
    }
    r
}

/// Reads the non-empty components of a version (see `spec_classify`); `rc`
/// tells whether the version text holds the release-candidate marker.
pub fn classify_version_components(components: &Vec<String>, rc: bool) -> (r: GameVersion)
    ensures
        r.deep_view() == spec_classify(components.deep_view(), rc),
{
    let n = components.len();
    proof {
        assert(components.deep_view().len() == n);
        assert(forall|i: int| 0 <= i < n ==> components.deep_view()[i] == #[trigger] components@[i]@);
    }
    if n == 2 && is_zero(&components[0]) {
        (Some(components[0].clone()), Some(components[1].clone()), None, None)
    } else if n == 2 {
        if rc {
            (Some(zero_string()), Some(components[0].clone()), None, Some(components[1].clone()))
        } else {
            (Some(zero_string()), Some(components[0].clone()), Some(components[1].clone()), None)
        }
    } else if n == 3 && is_zero(&components[0]) {
        if rc {
            (Some(components[0].clone()), Some(components[1].clone()), None, Some(components[2].clone()))
        } else {
            (Some(components[0].clone()), Some(components[1].clone()), Some(components[2].clone()), None)
        }
    } else if n == 3 {
        (Some(zero_string()), Some(components[0].clone()), Some(components[1].clone()), Some(components[2].clone()))
    } else if n == 4 && is_zero(&components[0]) {
        (
            Some(components[0].clone()),
            Some(components[1].clone()),
            Some(components[2].clone()),
            Some(components[3].clone()),
        )
    } else {
        (None, None, None, None)
    }
}

/// The non-empty pieces of `pieces`, in order.
fn keep_non_empty(pieces: Vec<String>) -> (r: Vec<String>)
    ensures
        r.deep_view() == non_empty_parts(pieces.deep_view()),
{
    let mut r: Vec<String> = Vec::new();
    let mut i: usize = 0;
    while i < pieces.len()
        invariant
            i <= pieces@.len(),
            r.deep_view() == non_empty_parts(pieces.deep_view().take(i as int)),
        decreases pieces@.len() - i,
    {
        let piece = pieces[i].clone();
        let piece_chars = chars_of(piece.as_str());
        proof {
            let d = pieces.deep_view();
            assert(d.take(i + 1).drop_last() =~= d.take(i as int));
            assert(d.take(i + 1).last() == pieces@[i as int]@);
        }
        if piece_chars.len() > 0 {
            r.push(piece);
            proof {
                assert(r.deep_view() =~= non_empty_parts(pieces.deep_view().take(i as int)).push(pieces@[i as int]@));
            }
        }
        i = i + 1;
    }
    proof {
        assert(pieces.deep_view().take(pieces@.len() as int) =~= pieces.deep_view());
    }
    r
}

/// Splits a game version into its parts. The text is cut at every dot, `a-RC`
/// and `a` (in any case, by the regex crate); the empty pieces are dropped and
/// the rest read as `spec_classify` says.
pub fn parse_game_version(text: &str) -> (r: GameVersion)
    ensures
        r.deep_view() == spec_parse_game_version(regex_split_result(VERSION_SEPARATORS@, text@), text@),
{
    let pieces = regex_split(VERSION_SEPARATORS, text);
    let components: Vec<String> = match pieces {
        Some(p) => keep_non_empty(p),
        None => Vec::new(),
    };
    proof {
        if pieces is None {
            assert(components.deep_view() =~= Seq::<Seq<char>>::empty());
        }
    }
    let text_chars = chars_of(text);
    let marker = chars_of(RC_MARKER);
    proof {
        reveal_strlit("a-RC");
        assert(marker@ =~= seq!['a', '-', 'R', 'C']);
    }
    let rc = contains_chars(&text_chars, &marker);
    classify_version_components(&components, rc)
}

/// How `get_quoted_version` writes a version: `None` when every part is
/// missing; otherwise the major part (`0` when missing), a dot, the minor part
/// (empty when missing), then `.patch` and `a-RCrc` for the parts present.
pub open spec fn spec_quoted_version(v: SpecGameVersion) -> Option<Seq<char>> {
    if v.0 is None && v.1 is None && v.2 is None && v.3 is None {
        None
    } else {
        let major = match v.0 { Some(m) => m, None => zero_text() };
        let minor = match v.1 { Some(m) => m, None => Seq::empty() };
        let patch = match v.2 { Some(p) => seq!['.'] + p, None => Seq::empty() };
        let rc = match v.3 { Some(r) => seq!['a', '-', 'R', 'C'] + r, None => Seq::empty() };
        Some(major + seq!['.'] + minor + patch + rc)
    }
}

/// Writes a game version back as text, as `spec_quoted_version` says.
pub fn get_quoted_version(starsector_version: &GameVersion) -> (r: Option<String>)
    ensures
        r.deep_view() == spec_quoted_version(starsector_version.deep_view()),
{
    let (major, minor, patch, rc) = starsector_version;
    if major.is_none() && minor.is_none() && patch.is_none() && rc.is_none() {
        return None;
    }
    let mut out: Vec<char> = Vec::new();
    match major {
        Some(m) => push_str(&mut out, m.as_str()),
        None => out.push('0'),
    }
    out.push('.');
    match minor {
        Some(m) => push_str(&mut out, m.as_str()),
        None => {},
    }
    match patch {
        Some(p) => {
            out.push('.');
            push_str(&mut out, p.as_str());
        },
        None => {},
    }
    match rc {
        Some(c) => {
            out.push('a');
            out.push('-');
            out.push('R');
            out.push('C');
            push_str(&mut out, c.as_str());
        },
        None => {},
    }
    let ghost v = starsector_version.deep_view();
    proof {
        let expected = spec_quoted_version(v)->0;
        assert(out@ =~= expected);
    }
    Some(string_of(&out))
}

/// Which part of two game versions first differs, looking at major, minor,
/// patch and release candidate in that order.
#[derive(Debug, Clone, Copy, PartialEq, Eq, Structural)]
pub enum StarsectorVersionDiff {
    Major,
    Minor,
    Patch,
    RC,
    Same,
}

/// The first part in which a mod's version `m` differs from the game's `g`.
pub open spec fn spec_version_diff(m: SpecGameVersion, g: SpecGameVersion) -> StarsectorVersionDiff {
    if m.0 != g.0 {
        StarsectorVersionDiff::Major
    } else if m.1 != g.1 {
        StarsectorVersionDiff::Minor
    } else if m.2 != g.2 {
        StarsectorVersionDiff::Patch
    } else if m.3 != g.3 {
        StarsectorVersionDiff::RC
    } else {
        StarsectorVersionDiff::Same
    }
}

/// Whether two optional strings are equal.
fn same_part(a: &Option<String>, b: &Option<String>) -> (r: bool)
    ensures
        r == (a.deep_view() == b.deep_view()),
{
    match (a, b) {
        (Some(x), Some(y)) => *x == *y,
        (None, None) => true,
        _ => false,
    }
}

impl StarsectorVersionDiff {
    /// The first part in which the mod's version differs from the game's.
    pub fn between(mod_version: &GameVersion, game_version: &GameVersion) -> (r: Self)
        ensures
            r == spec_version_diff(mod_version.deep_view(), game_version.deep_view()),
    {
        if !same_part(&mod_version.0, &game_version.0) {
            StarsectorVersionDiff::Major
        } else if !same_part(&mod_version.1, &game_version.1) {
            StarsectorVersionDiff::Minor
        } else if !same_part(&mod_version.2, &game_version.2) {
            StarsectorVersionDiff::Patch
        } else if !same_part(&mod_version.3, &game_version.3) {
            StarsectorVersionDiff::RC
        } else {
            StarsectorVersionDiff::Same
        }
    }
}

impl<'a> From<(&'a GameVersion, &'a GameVersion)> for StarsectorVersionDiff {
    fn from(vals: (&'a GameVersion, &'a GameVersion)) -> (r: Self) {
        Self::between(vals.0, vals.1)
    }
}

impl<'a> FromSpecImpl<(&'a GameVersion, &'a GameVersion)> for StarsectorVersionDiff {
    open spec fn obeys_from_spec() -> bool {
        true
    }

    open spec fn from_spec(v: (&'a GameVersion, &'a GameVersion)) -> Self {
        spec_version_diff(v.0.deep_view(), v.1.deep_view())
    }
}

/// A version never differs from itself.
pub proof fn law_version_diff_reflexive(v: SpecGameVersion)
    ensures
        spec_version_diff(v, v) == StarsectorVersionDiff::Same,
{
}

/// Which part differs does not depend on which version is the mod's.
pub proof fn law_version_diff_symmetric(a: SpecGameVersion, b: SpecGameVersion)
    ensures
        spec_version_diff(a, b) == spec_version_diff(b, a),
{
}

/// Two versions differ in no part exactly when they are equal.
pub proof fn law_version_diff_none_iff_equal(a: SpecGameVersion, b: SpecGameVersion)
    ensures
        spec_version_diff(a, b) == StarsectorVersionDiff::Same <==> a == b,
{
}

/// A version is written as nothing exactly when it has no part at all.
pub proof fn law_quoted_version_absent(v: SpecGameVersion)
    ensures
        spec_quoted_version(v) is None <==> v == (None::<Seq<char>>, None::<Seq<char>>, None::<Seq<char>>, None::<Seq<char>>),
{
}

/// The text of a canonical game version: `0.` and the minor part, `.` and the
/// patch part when there is one, then `a-RC` and the release candidate.
pub open spec fn canonical_version_text(minor: Seq<char>, patch: Option<Seq<char>>, rc: Seq<char>) -> Seq<char> {
    let p = match patch {
        Some(q) => seq!['.'] + q,
        None => Seq::empty(),
    };
    seq!['0', '.'] + minor + p + seq!['a', '-', 'R', 'C'] + rc
}

/// The pieces of a canonical version text between its separators: `0`, the
/// minor part, the patch part when there is one, and the release candidate.
pub open spec fn canonical_pieces(minor: Seq<char>, patch: Option<Seq<char>>, rc: Seq<char>) -> Seq<Seq<char>> {
    match patch {
        Some(q) => seq![zero_text(), minor, q, rc],
        None => seq![zero_text(), minor, rc],
    }
}

/// Whenever splitting a canonical version text at the separators gives its
/// pieces, all of them non-empty, writing back what parsing reads from it
/// gives the text again.
pub proof fn law_quote_undoes_parse(minor: Seq<char>, patch: Option<Seq<char>>, rc: Seq<char>)
    requires
        minor.len() > 0,
        rc.len() > 0,
        patch matches Some(q) ==> q.len() > 0,
    ensures
        spec_quoted_version(
            spec_parse_game_version(
                Some(canonical_pieces(minor, patch, rc)),
                canonical_version_text(minor, patch, rc),
            ),
        ) == Some(canonical_version_text(minor, patch, rc)),
{
    let text = canonical_version_text(minor, patch, rc);
    let pieces = canonical_pieces(minor, patch, rc);
    let marker = seq!['a', '-', 'R', 'C'];
    let p = match patch {
        Some(q) => seq!['.'] + q,
        None => Seq::<char>::empty(),
    };
    let at = (2 + minor.len() + p.len()) as int;
    assert(text.subrange(at, at + 4) =~= marker);
    assert(occurs_in(text, marker));
    reveal_with_fuel(non_empty_parts, 5);
    assert(non_empty_parts(pieces) =~= pieces) by {
        let z = zero_text();
        assert(non_empty_parts(Seq::<Seq<char>>::empty().push(z)) =~= seq![z]);
        assert(non_empty_parts(seq![z].push(minor)) =~= seq![z, minor]);
        assert(seq![z].push(minor) =~= seq![z, minor]);
        match patch {
            Some(q) => {
                assert(seq![z, minor].push(q) =~= seq![z, minor, q]);
                assert(seq![z, minor, q].push(rc) =~= seq![z, minor, q, rc]);
                assert(seq![z, minor, q, rc].drop_last() =~= seq![z, minor, q]);
                assert(seq![z, minor, q].drop_last() =~= seq![z, minor]);
                assert(seq![z, minor].drop_last() =~= seq![z]);
                assert(seq![z].drop_last() =~= Seq::<Seq<char>>::empty());
            },
            None => {
                assert(seq![z, minor].push(rc) =~= seq![z, minor, rc]);
                assert(seq![z, minor, rc].drop_last() =~= seq![z, minor]);
                assert(seq![z, minor].drop_last() =~= seq![z]);
                assert(seq![z].drop_last() =~= Seq::<Seq<char>>::empty());
            },
        }
    }
    assert(spec_quoted_version(spec_parse_game_version(Some(pieces), text)).unwrap() =~= text);
}


/// A mod's game version differs from the game's in the first part, in the
/// order major, minor, patch, release candidate, in which the two differ.
pub proof fn law_version_diff_first_differing_part(m: SpecGameVersion, g: SpecGameVersion)
    ensures
        m.0 != g.0 ==> spec_version_diff(m, g) == StarsectorVersionDiff::Major,
        m.0 == g.0 && m.1 != g.1 ==> spec_version_diff(m, g) == StarsectorVersionDiff::Minor,
        m.0 == g.0 && m.1 == g.1 && m.2 != g.2 ==> spec_version_diff(m, g) == StarsectorVersionDiff::Patch,
        m.0 == g.0 && m.1 == g.1 && m.2 == g.2 && m.3 != g.3 ==> spec_version_diff(m, g) == StarsectorVersionDiff::RC,
{
}

} // verus!
