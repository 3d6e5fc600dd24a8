//! The game's JVM parameter file: reading the initial heap, maximum heap and
//! thread stack sizes (and whether bytecode verification is off) out of it,
//! and writing edited sizes back into it.

use vstd::prelude::*;

use crate::patterns::{regex_capture, regex_replace};
use crate::text::{
    ascii_space, ascii_words, chars_eq_ignore_ascii_case, words_from, chars_of, eq_ignore_ascii_case, format_i32,
    parse_i32, push_chars, push_str, spec_format_i32, spec_parse_i32, string_of,
};

verus! {

/// The operating system a build runs on; it decides the file's name and how
/// a flag is written into it.
#[derive(Debug, Clone, Copy, PartialEq, Eq, Structural)]
pub enum TargetOs {
    Windows,
    MacOs,
    Linux,
}

/// The unit of a memory size.
#[derive(Debug, Clone, Copy, PartialEq, Eq, Structural)]
pub enum Unit {
    Giga,
    Mega,
    Kilo,
}

/// A memory size: an amount and its unit.
#[derive(Debug, Clone, Copy, PartialEq, Eq, Structural)]
pub struct Value {
    pub amount: i32,
    pub unit: Unit,
}

/// The settings read from the parameter file.
#[derive(Debug, Clone, Copy, PartialEq, Eq, Structural)]
pub struct VMParams {
    pub heap_init: Value,
    pub heap_max: Value,
    pub thread_stack_size: Value,
    pub verify_none: bool,
}

/// Why the parameter file could not be read.
#[derive(Debug, Clone, Copy, PartialEq, Eq, Structural)]
pub enum LoadError {
    NoSuchFile,
    ReadError,
    FormatError,
}

/// Why the parameter file could not be written.
#[derive(Debug, Clone, Copy, PartialEq, Eq, Structural)]
pub enum SaveError {
    File,
    Write,
    Format,
}

/// Where the parameter file lies inside the game's installation.
pub trait VMParamsPath {
    fn path(os: TargetOs) -> &'static str;
}

/// The parameter file's standard place for each operating system.
#[derive(Debug, Clone, Copy)]
pub struct VMParamsPathDefault;

/// The standard place of the parameter file.
pub open spec fn spec_default_path(os: TargetOs) -> Seq<char> {
    match os {
        TargetOs::Windows => "./vmparams"@,
        TargetOs::MacOs => "./Contents/MacOS/starsector_mac.sh"@,
        TargetOs::Linux => "./starsector.sh"@,
    }
}

impl VMParamsPath for VMParamsPathDefault {
    fn path(os: TargetOs) -> (r: &'static str)
        ensures
            r@ == spec_default_path(os),
    {
        match os {
            TargetOs::Windows => "./vmparams",
            TargetOs::MacOs => "./Contents/MacOS/starsector_mac.sh",
            TargetOs::Linux => "./starsector.sh",
        }
    }
}

/// The pattern of the bytecode-verification flag, with its value as group 1.
pub const XVERIFY_PATTERN: &'static str = "(?i)-xverify(?::([^\\s]+))?";

/// The flag inserted before `-server` when verification is to be turned off
/// and the file has no such flag yet (after the `-` of `-server`).
pub const VERIFY_BEFORE_SERVER: &'static str = "Xverify:none -";

/// The same flag as written into the macOS launch script.
pub const VERIFY_BEFORE_SERVER_MACOS: &'static str = "Xverify:none \\\\n\\t-";

/// The flag written after `java.exe` when verification is to be turned off
/// and the file has no such flag yet.
pub const VERIFY_AFTER_JAVA: &'static str = " -Xverify:none ";

/// What an existing verification flag is replaced by when verification is to
/// be turned off.
pub const VERIFY_FLAG: &'static str = "-Xverify:none";

/// Whether `c` is white space as `\s` takes it in the regex crate (the
/// Unicode `White_Space` property).
pub open spec fn is_unicode_space(c: char) -> bool {
    let u = c as u32;
    (9 <= u && u <= 13) || u == 32 || u == 0x85 || u == 0xa0 || u == 0x1680 || (0x2000 <= u && u <= 0x200a) || u
        == 0x2028 || u == 0x2029 || u == 0x202f || u == 0x205f || u == 0x3000
}

/// The text `-xverify`.
pub open spec fn xverify_text() -> Seq<char> {
    seq!['-', 'x', 'v', 'e', 'r', 'i', 'f', 'y']
}

/// Whether `t` starts with `-xverify`, ASCII letters in either case.
pub open spec fn starts_xv(t: Seq<char>) -> bool {
    t.len() >= 8 && eq_ignore_ascii_case(t.take(8), xverify_text())
}

/// How many characters at the start of `s` are not white space.
pub open spec fn space_free_len(s: Seq<char>) -> nat
    decreases s.len(),
{
    if s.len() == 0 || is_unicode_space(s[0]) {
        0
    } else {
        1 + space_free_len(s.skip(1))
    }
}

/// The value that `XVERIFY_PATTERN` takes from the text `r` after a
/// `-xverify`: the characters up to the next white space after a `:`, when
/// there is at least one.
pub open spec fn xv_value(r: Seq<char>) -> Option<Seq<char>> {
    if r.len() > 0 && r[0] == ':' && space_free_len(r.skip(1)) > 0 {
        Some(r.skip(1).take(space_free_len(r.skip(1)) as int))
    } else {
        None
    }
}

/// Where the first `-xverify` (either case) of `t` starts.
pub open spec fn xv_first(t: Seq<char>) -> Option<int>
    decreases t.len(),
{
    if t.len() < 8 {
        None
    } else if starts_xv(t) {
        Some(0)
    } else {
        match xv_first(t.skip(1)) {
            Some(i) => Some(i + 1),
            None => None,
        }
    }
}

/// The length of the match of `XVERIFY_PATTERN` that starts at `i` in `t`.
pub open spec fn xv_match_len(t: Seq<char>, i: int) -> int {
    match xv_value(t.skip(i + 8)) {
        Some(v) => 9 + v.len() as int,
        None => 8,
    }
}

/// What `Regex::captures` gives for `XVERIFY_PATTERN` on `t`: nothing when
/// it does not match; else, at the first match (leftmost, the value taken
/// whenever there is one), the whole match as group 0, the value as group 1,
/// and no other group.
pub open spec fn xv_captures(t: Seq<char>, group: usize) -> Option<Option<Seq<char>>> {
    match xv_first(t) {
        None => None,
        Some(i) => if group == 0 {
            Some(Some(t.subrange(i, i + xv_match_len(t, i))))
        } else if group == 1 {
            Some(xv_value(t.skip(i + 8)))
        } else {
            Some(None)
        },
    }
}

/// What `Regex::replace` gives for `XVERIFY_PATTERN` on `t` with a
/// replacement `rep` that holds no `$`: the first match replaced by `rep`,
/// or `t` itself when there is none.
pub open spec fn xv_replaced(t: Seq<char>, rep: Seq<char>) -> Seq<char> {
    match xv_first(t) {
        None => t,
        Some(i) => t.take(i) + rep + t.skip(i + xv_match_len(t, i)),
    }
}

/// Whether `char::is_numeric` holds of `c` (a Unicode number).
pub uninterp spec fn char_is_numeric(c: char) -> bool;

/// Calls `char::is_numeric`. Its result is named `char_is_numeric`; the one
/// fact stated is the one its documentation gives for ASCII: of the ASCII
/// characters, exactly the digits are numbers.
#[verifier::external_body]
fn is_numeric(c: char) -> (r: bool)
    ensures
        r == char_is_numeric(c),
        (c as u32) < 128 ==> (r <==> ('0' <= c && c <= '9')),
{
    c.is_numeric()
}

/// The unit that a size's last character names: `k`, `m` or `g` in either
/// case.
pub open spec fn unit_of_suffix(c: char) -> Option<Unit> {
    if c == 'k' || c == 'K' {
        Some(Unit::Kilo)
    } else if c == 'm' || c == 'M' {
        Some(Unit::Mega)
    } else if c == 'g' || c == 'G' {
        Some(Unit::Giga)
    } else {
        None
    }
}

/// How a unit is written.
pub open spec fn unit_text(u: Unit) -> Seq<char> {
    match u {
        Unit::Giga => seq!['G'],
        Unit::Mega => seq!['M'],
        Unit::Kilo => seq!['K'],
    }
}

/// How a size is written: its amount in decimal, then its unit.
pub open spec fn value_text(v: Value) -> Seq<char> {
    spec_format_i32(v.amount) + unit_text(v.unit)
}

impl Default for Unit {
    fn default() -> (r: Unit)
        ensures
            r == Unit::Kilo,
    {
        Unit::Kilo
    }
}

impl Unit {
    /// Every unit, largest first.
    pub fn all() -> (r: Vec<Unit>)
        ensures
            r@ == seq![Unit::Giga, Unit::Mega, Unit::Kilo],
    {
        let mut r: Vec<Unit> = Vec::new();
        r.push(Unit::Giga);
        r.push(Unit::Mega);
        r.push(Unit::Kilo);
        r
    }

    /// The unit's letter: `G`, `M` or `K`.
    pub fn to_string(&self) -> (r: String)
        ensures
            r@ == unit_text(*self),
    {
        let mut out: Vec<char> = Vec::new();
        match self {
            Unit::Giga => out.push('G'),
            Unit::Mega => out.push('M'),
            Unit::Kilo => out.push('K'),
        }
        proof {
            assert(out@ =~= unit_text(*self));
        }
        string_of(&out)
    }

    /// The unit named by a size's last character, if it names one.
    pub fn from_suffix(c: char) -> (r: Option<Unit>)
        ensures
            r == unit_of_suffix(c),
    {
        if c == 'k' || c == 'K' {
            Some(Unit::Kilo)
        } else if c == 'm' || c == 'M' {
            Some(Unit::Mega)
        } else if c == 'g' || c == 'G' {
            Some(Unit::Giga)
        } else {
            None
        }
    }
}

impl Value {
    /// The characters of the size as it is written.
    fn text(&self) -> (r: Vec<char>)
        ensures
            r@ == value_text(*self),
    {
        let mut out = format_i32(self.amount);
        match self.unit {
            Unit::Giga => out.push('G'),
            Unit::Mega => out.push('M'),
            Unit::Kilo => out.push('K'),
        }
        proof {
            assert(out@ =~= value_text(*self));
        }
        out
    }

    /// The size as it is written, such as `1536M`.
    pub fn to_string(&self) -> (r: String)
        ensures
            r@ == value_text(*self),
    {
        let t = self.text();
        string_of(&t)
    }
}

// ---------------------------------------------------------------------------
// Reading

/// The sizes found so far: initial heap, maximum heap, thread stack.
pub type Found = (Option<Value>, Option<Value>, Option<Value>);

/// Whether `w` begins with one of the two spellings `-X..`/`-x..` of a flag
/// whose last two letters are `a` and `b`.
pub open spec fn has_flag(w: Seq<char>, a: char, b: char) -> bool {
    w.len() >= 4 && (w[0] == '-' && (w[1] == 'X' || w[1] == 'x') && w[2] == a && w[3] == b)
}

/// The size written in a flag word: the unit from its last character and the
/// amount from what lies between the four-character flag and that character.
pub open spec fn spec_flag_value(w: Seq<char>) -> Result<Value, LoadError> {
    match unit_of_suffix(w.last()) {
        None => Err(LoadError::FormatError),
        Some(unit) => match spec_parse_i32(w.subrange(4, w.len() - 1)) {
            None => Err(LoadError::FormatError),
            Some(amount) => Ok(Value { amount, unit }),
        },
    }
}

/// What one word does to the sizes found: `-Xms`/`-xms` sets the initial
/// heap, `-Xmx`/`-xmx` the maximum heap, `-Xss`/`-xss` the thread stack size;
/// a malformed size is an error; any other word changes nothing.
pub open spec fn spec_read_word(w: Seq<char>, f: Found) -> Result<Found, LoadError> {
    if has_flag(w, 'm', 's') {
        match spec_flag_value(w) {
            Ok(v) => Ok((Some(v), f.1, f.2)),
            Err(e) => Err(e),
        }
    } else if has_flag(w, 'm', 'x') {
        match spec_flag_value(w) {
            Ok(v) => Ok((f.0, Some(v), f.2)),
            Err(e) => Err(e),
        }
    } else if has_flag(w, 's', 's') {
        match spec_flag_value(w) {
            Ok(v) => Ok((f.0, f.1, Some(v))),
            Err(e) => Err(e),
        }
    } else {
        Ok(f)
    }
}

/// The sizes found in `ws`, word by word, stopping at the first error.
pub open spec fn spec_read_words(ws: Seq<Seq<char>>, f: Found) -> Result<Found, LoadError>
    decreases ws.len(),
{
    if ws.len() == 0 {
        Ok(f)
    } else {
        match spec_read_word(ws[0], f) {
            Ok(g) => spec_read_words(ws.skip(1), g),
            Err(e) => Err(e),
        }
    }
}

/// Whether the file turns verification off: the first match of
/// `XVERIFY_PATTERN` has the value `none`, in any case.
pub open spec fn spec_verify_none(text: Seq<char>) -> bool {
    match xv_captures(text, 1) {
        Some(Some(v)) => eq_ignore_ascii_case(v, seq!['n', 'o', 'n', 'e']),
        _ => false,
    }
}

/// What reading the file's text gives: the three sizes (later words win) and
/// the verification flag; an error when a size is malformed or missing.
pub open spec fn spec_load(text: Seq<char>) -> Result<VMParams, LoadError> {
    match spec_read_words(ascii_words(text), (None, None, None)) {
        Err(e) => Err(e),
        Ok((Some(heap_init), Some(heap_max), Some(thread_stack_size))) => Ok(
            VMParams { heap_init, heap_max, thread_stack_size, verify_none: spec_verify_none(text) },
        ),
        Ok(_) => Err(LoadError::FormatError),
    }
}

proof fn lemma_read_words_unfold(w: Seq<char>, rest: Seq<Seq<char>>, f: Found)
    ensures
        spec_read_words(seq![w] + rest, f) == match spec_read_word(w, f) {
            Ok(g) => spec_read_words(rest, g),
            Err(e) => Err(e),
        },
{
    let ws = seq![w] + rest;
    assert(ws[0] == w);
    assert(ws.skip(1) =~= rest);
}

// ---------------------------------------------------------------------------
// Writing

/// Whether `char::is_numeric` holds of `c`: of the ASCII characters exactly
/// the digits, as its documentation says; for the others, `char_is_numeric`.
pub open spec fn is_number_char(c: char) -> bool {
    if (c as u32) < 128 {
        '0' <= c && c <= '9'
    } else {
        char_is_numeric(c)
    }
}

/// How many leading characters of `s` are numbers (`char::is_numeric`).
pub open spec fn numeric_prefix_len(s: Seq<char>) -> nat
    decreases s.len(),
{
    if s.len() == 0 || !is_number_char(s[0]) {
        0
    } else {
        1 + numeric_prefix_len(s.skip(1))
    }
}

/// The length of the size at the start of `s` as the writer accepts it: at
/// least one number character, then `k`, `m` or `g` in either case, then a
/// space or the end of the text; `None` when `s` does not start so.
pub open spec fn value_len(s: Seq<char>) -> Option<nat> {
    let d = numeric_prefix_len(s);
    if d > 0 && d < s.len() && unit_of_suffix(s[d as int]) is Some && (d + 1 == s.len() || s[(d + 1) as int] == ' ') {
        Some(d + 1)
    } else {
        None
    }
}

/// The number of characters taken from `s` when up to `k` are asked for.
pub open spec fn chunk_len(s: Seq<char>, k: nat) -> nat {
    if s.len() < k {
        s.len()
    } else {
        k
    }
}

/// What the writer inserts before `-server` on each system.
pub open spec fn verify_before_server(os: TargetOs) -> Seq<char> {
    if os == TargetOs::MacOs {
        VERIFY_BEFORE_SERVER_MACOS@
    } else {
        VERIFY_BEFORE_SERVER@
    }
}

/// `pre` in front of a result, which stays an error when it is one.
pub open spec fn prefixed(pre: Seq<char>, r: Option<Seq<char>>) -> Option<Seq<char>> {
    match r {
        Some(o) => Some(pre + o),
        None => None,
    }
}

/// The rewritten form of `s` (`None` for a malformed size). Characters are
/// copied one by one, except that
/// - a `-` is copied with the next three characters (fewer at the end); when
///   `manual` holds and they are `ser` (any case), three more follow, and if
///   those are `ver` (any case) the flag that turns verification off is
///   written between the `-` and `server`;
/// - otherwise, when those three are `xms`, `xmx` or `xss` (any case), the
///   size after them must be well formed (see `value_len`) and is replaced by
///   the initial heap, maximum heap or thread stack size of `p`;
/// - a `j` is copied with the next seven characters, and when `manual` holds
///   and these are `ava.exe` the flag is written after them.
pub open spec fn render_from(s: Seq<char>, p: VMParams, manual: bool, os: TargetOs) -> Option<Seq<char>>
    decreases s.len(),
{
    if s.len() == 0 {
        Some(seq![])
    } else {
        let ch = s[0];
        let r = s.skip(1);
        if ch == '-' {
            let key = r.take(chunk_len(r, 3) as int);
            let r2 = r.skip(chunk_len(r, 3) as int);
            if manual && eq_ignore_ascii_case(key, seq!['s', 'e', 'r']) {
                let rem = r2.take(chunk_len(r2, 3) as int);
                let r3 = r2.skip(chunk_len(r2, 3) as int);
                let ins = if eq_ignore_ascii_case(rem, seq!['v', 'e', 'r']) {
                    verify_before_server(os)
                } else {
                    seq![]
                };
                prefixed(seq!['-'] + ins + key + rem, render_from(r3, p, manual, os))
            } else if eq_ignore_ascii_case(key, seq!['x', 'm', 's']) || eq_ignore_ascii_case(key, seq!['x', 'm', 'x'])
                || eq_ignore_ascii_case(key, seq!['x', 's', 's']) {
                let v = if eq_ignore_ascii_case(key, seq!['x', 'm', 's']) {
                    p.heap_init
                } else if eq_ignore_ascii_case(key, seq!['x', 'm', 'x']) {
                    p.heap_max
                } else {
                    p.thread_stack_size
                };
                match value_len(r2) {
                    None => None,
                    Some(n) => prefixed(seq!['-'] + key + value_text(v), render_from(r2.skip(n as int), p, manual, os)),
                }
            } else {
                prefixed(seq!['-'] + key, render_from(r2, p, manual, os))
            }
        } else if ch == 'j' {
            let c = r.take(chunk_len(r, 7) as int);
            let extra = if manual && c == seq!['a', 'v', 'a', '.', 'e', 'x', 'e'] {
                VERIFY_AFTER_JAVA@
            } else {
                seq![]
            };
            prefixed(seq!['j'] + c + extra, render_from(r.skip(chunk_len(r, 7) as int), p, manual, os))
        } else {
            prefixed(seq![ch], render_from(r, p, manual, os))
        }
    }
}

/// Whether the writer adds the verification flag by itself: verification is
/// to be off and the file has no verification flag at all.
pub open spec fn spec_write_manually(p: VMParams, text: Seq<char>) -> bool {
    p.verify_none && xv_first(text) is None
}

/// The text the writer goes through: when verification is to be off and the
/// file has a verification flag, its first one replaced by `-Xverify:none`;
/// else the file's text itself.
pub open spec fn spec_prepared(p: VMParams, text: Seq<char>) -> Seq<char> {
    if p.verify_none && xv_first(text) is Some {
        xv_replaced(text, VERIFY_FLAG@)
    } else {
        text
    }
}

/// What writing `p` into the file's text gives (see `render_from`).
pub open spec fn spec_save(p: VMParams, text: Seq<char>, os: TargetOs) -> Result<Seq<char>, SaveError> {
    match render_from(spec_prepared(p, text), p, spec_write_manually(p, text), os) {
        Some(o) => Ok(o),
        None => Err(SaveError::Format),
    }
}

impl VMParams {
    /// Reads the sizes written in one flag word `w` (see `spec_flag_value`).
    fn flag_value(w: &Vec<char>) -> (r: Result<Value, LoadError>)
        requires
            w@.len() >= 4,
            w@[3] == 's' || w@[3] == 'x',
        ensures
            r == spec_flag_value(w@),
    {
        let n = w.len();
        match Unit::from_suffix(w[n - 1]) {
            None => Err(LoadError::FormatError),
            Some(unit) => {
                let mut digits: Vec<char> = Vec::new();
                let mut i: usize = 4;
                while i < n - 1
                    invariant
                        n == w@.len(),
                        4 <= i <= n - 1,
                        digits@ == w@.subrange(4, i as int),
                    decreases n - 1 - i,
                {
                    digits.push(w[i]);
                    i = i + 1;
                    proof {
                        assert(digits@ =~= w@.subrange(4, i as int));
                    }
                }
                match parse_i32(&digits) {
                    None => Err(LoadError::FormatError),
                    Some(amount) => Ok(Value { amount, unit }),
                }
            },
        }
    }

    /// Applies one word to the sizes found so far (see `spec_read_word`).
    fn read_word(w: &Vec<char>, f: Found) -> (r: Result<Found, LoadError>)
        ensures
            r == spec_read_word(w@, f),
    {
        let flag = w.len() >= 4 && w[0] == '-' && (w[1] == 'X' || w[1] == 'x');
        if flag && w[2] == 'm' && w[3] == 's' {
            match Self::flag_value(w) {
                Ok(v) => Ok((Some(v), f.1, f.2)),
                Err(e) => Err(e),
            }
        } else if flag && w[2] == 'm' && w[3] == 'x' {
            match Self::flag_value(w) {
                Ok(v) => Ok((f.0, Some(v), f.2)),
                Err(e) => Err(e),
            }
        } else if flag && w[2] == 's' && w[3] == 's' {
            match Self::flag_value(w) {
                Ok(v) => Ok((f.0, f.1, Some(v))),
                Err(e) => Err(e),
            }
        } else {
            Ok(f)
        }
    }

    /// Reads the parameter file's text: the sizes after `-Xms`, `-Xmx` and
    /// `-Xss` (or `-xms`, `-xmx`, `-xss`) in its whitespace-separated words,
    /// and whether its verification flag says `none`.
    pub fn load_text(text: &str) -> (r: Result<VMParams, LoadError>)
        ensures
            r == spec_load(text@),
    {
        let s = chars_of(text);
        let mut cur: Vec<char> = Vec::new();
        let mut found: Found = (None, None, None);
        let mut i: usize = 0;
        let ghost init: Found = (None, None, None);
        proof {
            assert(s@.skip(0) =~= s@);
            assert(cur@ =~= Seq::<char>::empty());
        }
        while i < s.len()
            invariant
                i <= s@.len(),
                s@ == text@,
                init == (None::<Value>, None::<Value>, None::<Value>),
                spec_read_words(ascii_words(s@), init) == spec_read_words(words_from(s@.skip(i as int), cur@), found),
            decreases s@.len() - i,
        {
            let c = s[i];
            proof {
                assert(s@.skip(i as int)[0] == c);
                assert(s@.skip(i as int).skip(1) =~= s@.skip(i + 1));
            }
            if ascii_space(c) {
                if cur.len() > 0 {
                    proof {
                        assert(words_from(s@.skip(i as int), cur@) == seq![cur@] + words_from(s@.skip(i + 1), seq![]));
                        lemma_read_words_unfold(cur@, words_from(s@.skip(i + 1), seq![]), found);
                    }
                    match Self::read_word(&cur, found) {
                        Ok(g) => {
                            found = g;
                        },
                        Err(e) => {
                            proof {
                                assert(spec_read_words(ascii_words(text@), init) == Err::<Found, LoadError>(e));
                            }
                            return Err(e);
                        },
                    }
                    cur = Vec::new();
                } else {
                    proof {
                        assert(cur@ =~= Seq::<char>::empty());
                        assert(seq![] + words_from(s@.skip(i + 1), seq![]) =~= words_from(s@.skip(i + 1), seq![]));
                        assert(words_from(s@.skip(i as int), cur@) == words_from(s@.skip(i + 1), seq![]));
                    }
                }
            } else {
                proof {
                    assert(words_from(s@.skip(i as int), cur@) == words_from(s@.skip(i + 1), cur@.push(c)));
                }
                cur.push(c);
            }
            i = i + 1;
        }
        proof {
            assert(s@.skip(i as int) =~= Seq::<char>::empty());
        }
        if cur.len() > 0 {
            proof {
                lemma_read_words_unfold(cur@, seq![], found);
                assert(seq![cur@] + Seq::<Seq<char>>::empty() =~= seq![cur@]);
            }
            match Self::read_word(&cur, found) {
                Ok(g) => {
                    found = g;
                },
                Err(e) => {
                    return Err(e);
                },
            }
        }
        let verify_none = match regex_capture(XVERIFY_PATTERN, text, 1) {
            Some(Some(v)) => {
                let vc = chars_of(v.as_str());
                let none: [char; 4] = ['n', 'o', 'n', 'e'];
                let nc = none.as_slice();
                proof {
                    assert(nc@ =~= seq!['n', 'o', 'n', 'e']);
                }
                chars_eq_ignore_ascii_case(&vc, nc)
            },
            _ => false,
        };
        match found {
            (Some(heap_init), Some(heap_max), Some(thread_stack_size)) => Ok(
                VMParams { heap_init, heap_max, thread_stack_size, verify_none },
            ),
            _ => Err(LoadError::FormatError),
        }
    }

    /// The end of the size that starts at `at` in `s`: at least one number
    /// character, then `k`, `m` or `g` in either case, then a space or the
    /// end of the text. A size not so written is a format error.
    pub fn advance(s: &Vec<char>, at: usize) -> (r: Result<usize, SaveError>)
        requires
            at <= s@.len(),
        ensures
            match value_len(s@.skip(at as int)) {
                Some(n) => r == Ok::<usize, SaveError>((at + n) as usize),
                None => r == Err::<usize, SaveError>(SaveError::Format),
            },
    {
        let n = s.len();
        let mut i: usize = at;
        proof {
            assert(s@.skip(at as int).skip(0) =~= s@.skip(at as int));
        }
        while i < n && is_numeric(s[i])
            invariant
                at <= i <= n,
                n == s@.len(),
                numeric_prefix_len(s@.skip(at as int)) == (i - at) + numeric_prefix_len(s@.skip(i as int)),
            decreases n - i,
        {
            proof {
                assert(s@.skip(i as int)[0] == s@[i as int]);
                assert(s@.skip(i as int).skip(1) =~= s@.skip(i + 1));
            }
            i = i + 1;
        }
        proof {
            if i < n {
                assert(s@.skip(i as int)[0] == s@[i as int]);
            }
            assert(numeric_prefix_len(s@.skip(i as int)) == 0);
        }
        let count = i - at;
        if count > 0 && i < n && Unit::from_suffix(s[i]).is_some() && (i + 1 == n || s[i + 1] == ' ') {
            proof {
                assert(s@.skip(at as int)[count as int] == s@[i as int]);
                if i + 1 < n {
                    assert(s@.skip(at as int)[count + 1] == s@[i + 1]);
                }
            }
            Ok(i + 1)
        } else {
            proof {
                if i < n {
                    assert(s@.skip(at as int)[count as int] == s@[i as int]);
                }
                if i + 1 < n {
                    assert(s@.skip(at as int)[count + 1] == s@[i + 1]);
                }
            }
            Err(SaveError::Format)
        }
    }

    /// Up to `k` characters of `s` from `at` on (fewer at the end).
    fn take_chunk(s: &Vec<char>, at: usize, k: usize) -> (r: Vec<char>)
        requires
            at <= s@.len(),
        ensures
            r@ == s@.skip(at as int).take(chunk_len(s@.skip(at as int), k as nat) as int),
            r@.len() == chunk_len(s@.skip(at as int), k as nat),
    {
        let n = s.len();
        let end: usize = if n - at < k { n } else { at + k };
        let mut r: Vec<char> = Vec::new();
        let mut i: usize = at;
        while i < end
            invariant
                at <= i <= end <= n,
                n == s@.len(),
                r@ == s@.subrange(at as int, i as int),
            decreases end - i,
        {
            r.push(s[i]);
            i = i + 1;
            proof {
                assert(r@ =~= s@.subrange(at as int, i as int));
            }
        }
        proof {
            assert(s@.skip(at as int).take(chunk_len(s@.skip(at as int), k as nat) as int) =~= s@.subrange(
                at as int,
                end as int,
            ));
        }
        r
    }

    /// One step of the writer at a `-` (at `i - 1`; see `render_from`): the
    /// text to write and where the next step starts.
    fn render_dash(&self, s: &Vec<char>, i: usize, manual: bool, os: TargetOs) -> (r: Result<(Vec<char>, usize), SaveError>)
        requires
            0 < i <= s@.len(),
            s@[i - 1] == '-',
        ensures
            match r {
                Ok((piece, j)) => i <= j <= s@.len() && render_from(s@.skip(i - 1), *self, manual, os) == prefixed(
                    piece@,
                    render_from(s@.skip(j as int), *self, manual, os),
                ),
                Err(e) => e == SaveError::Format && render_from(s@.skip(i - 1), *self, manual, os) is None,
            },
    {
        let ghost t = s@.skip(i - 1);
        let ghost p = *self;
        let ser: [char; 3] = ['s', 'e', 'r'];
        let ver: [char; 3] = ['v', 'e', 'r'];
        let xms: [char; 3] = ['x', 'm', 's'];
        let xmx: [char; 3] = ['x', 'm', 'x'];
        let xss: [char; 3] = ['x', 's', 's'];
        proof {
            assert(t[0] == '-');
            assert(t.skip(1) =~= s@.skip(i as int));
            assert(ser@ =~= seq!['s', 'e', 'r']);
            assert(ver@ =~= seq!['v', 'e', 'r']);
            assert(xms@ =~= seq!['x', 'm', 's']);
            assert(xmx@ =~= seq!['x', 'm', 'x']);
            assert(xss@ =~= seq!['x', 's', 's']);
        }
        let n = s.len();
        let key = Self::take_chunk(s, i, 3);
        assert(key@.len() <= n - i);
        let k = i + key.len();
        let ghost r2 = s@.skip(k as int);
        proof {
            assert(t.skip(1).skip(key@.len() as int) =~= r2);
        }
        let mut piece: Vec<char> = Vec::new();
        piece.push('-');
        if manual && chars_eq_ignore_ascii_case(&key, ser.as_slice()) {
            let rem = Self::take_chunk(s, k, 3);
            assert(rem@.len() <= n - k);
            let j = k + rem.len();
            proof {
                assert(r2.skip(rem@.len() as int) =~= s@.skip(j as int));
            }
            if chars_eq_ignore_ascii_case(&rem, ver.as_slice()) {
                if os == TargetOs::MacOs {
                    push_str(&mut piece, VERIFY_BEFORE_SERVER_MACOS);
                } else {
                    push_str(&mut piece, VERIFY_BEFORE_SERVER);
                }
            }
            push_chars(&mut piece, &key);
            push_chars(&mut piece, &rem);
            Ok((piece, j))
        } else if chars_eq_ignore_ascii_case(&key, xms.as_slice()) || chars_eq_ignore_ascii_case(&key, xmx.as_slice())
            || chars_eq_ignore_ascii_case(&key, xss.as_slice()) {
            let v = if chars_eq_ignore_ascii_case(&key, xms.as_slice()) {
                self.heap_init
            } else if chars_eq_ignore_ascii_case(&key, xmx.as_slice()) {
                self.heap_max
            } else {
                self.thread_stack_size
            };
            match Self::advance(s, k) {
                Err(e) => Err(e),
                Ok(j) => {
                    proof {
                        assert(r2.skip(j - k) =~= s@.skip(j as int));
                    }
                    push_chars(&mut piece, &key);
                    let vt = v.text();
                    push_chars(&mut piece, &vt);
                    Ok((piece, j))
                },
            }
        } else {
            push_chars(&mut piece, &key);
            Ok((piece, k))
        }
    }

    /// One step of the writer at `i` (see `render_from`): the text to write
    /// and where the next step starts.
    fn render_step(&self, s: &Vec<char>, i: usize, manual: bool, os: TargetOs) -> (r: Result<(Vec<char>, usize), SaveError>)
        requires
            i < s@.len(),
        ensures
            match r {
                Ok((piece, j)) => i < j <= s@.len() && render_from(s@.skip(i as int), *self, manual, os) == prefixed(
                    piece@,
                    render_from(s@.skip(j as int), *self, manual, os),
                ),
                Err(e) => e == SaveError::Format && render_from(s@.skip(i as int), *self, manual, os) is None,
            },
    {
        let ghost t = s@.skip(i as int);
        let n = s.len();
        let ch = s[i];
        proof {
            assert(t[0] == ch);
            assert(t.skip(1) =~= s@.skip(i + 1));
        }
        if ch == '-' {
            self.render_dash(s, i + 1, manual, os)
        } else if ch == 'j' {
            let ava: [char; 7] = ['a', 'v', 'a', '.', 'e', 'x', 'e'];
            proof {
                assert(ava@ =~= seq!['a', 'v', 'a', '.', 'e', 'x', 'e']);
            }
            let c = Self::take_chunk(s, i + 1, 7);
            assert(c@.len() <= n - (i + 1));
            let j = i + 1 + c.len();
            proof {
                assert(t.skip(1).skip(c@.len() as int) =~= s@.skip(j as int));
            }
            let mut piece: Vec<char> = Vec::new();
            piece.push('j');
            push_chars(&mut piece, &c);
            let is_java = c.len() == 7 && c[0] == ava[0] && c[1] == ava[1] && c[2] == ava[2] && c[3] == ava[3]
                && c[4] == ava[4] && c[5] == ava[5] && c[6] == ava[6];
            proof {
                if c@ == ava@ {
                    assert(is_java);
                }
                if is_java {
                    assert(c@ =~= ava@);
                }
            }
            if manual && is_java {
                push_str(&mut piece, VERIFY_AFTER_JAVA);
            }
            Ok((piece, j))
        } else {
            let mut piece: Vec<char> = Vec::new();
            piece.push(ch);
            proof {
                assert(piece@ =~= seq![ch]);
            }
            Ok((piece, i + 1))
        }
    }

    /// Writes these settings into the parameter file's text and returns the
    /// new text (see `spec_save`); a malformed size after one of the three
    /// flags is a format error. `os` is the system the file belongs to.
    pub fn save_text(&self, text: &str, os: TargetOs) -> (r: Result<String, SaveError>)
        ensures
            match spec_save(*self, text@, os) {
                Ok(o) => r matches Ok(out) && out@ == o,
                Err(e) => r == Err::<String, SaveError>(e),
            },
    {
        let has_flag = regex_capture(XVERIFY_PATTERN, text, 0).is_some();
        let manual = self.verify_none && !has_flag;
        assert(manual == spec_write_manually(*self, text@));
        let prepared = if self.verify_none && has_flag {
            proof {
                reveal_strlit("-Xverify:none");
            }
            match regex_replace(XVERIFY_PATTERN, text, VERIFY_FLAG) {
                Some(t) => t,
                None => {
                    return Err(SaveError::Format);
                },
            }
        } else {
            String::from_str(text)
        };
        let ghost pre = spec_prepared(*self, text@);
        assert(prepared@ == pre);
        let s = chars_of(prepared.as_str());
        let n = s.len();
        let mut out: Vec<char> = Vec::new();
        let mut i: usize = 0;
        proof {
            assert(s@.skip(0) =~= s@);
            assert(out@ + s@ =~= s@);
            lemma_prefixed_empty(render_from(s@, *self, manual, os));
        }
        while i < n
            invariant
                i <= n,
                n == s@.len(),
                s@ == spec_prepared(*self, text@),
                manual == spec_write_manually(*self, text@),
                render_from(s@, *self, manual, os) == prefixed(out@, render_from(s@.skip(i as int), *self, manual, os)),
            decreases n - i,
        {
            match self.render_step(&s, i, manual, os) {
                Err(e) => {
                    assert(render_from(s@, *self, manual, os) is None);
                    return Err(e);
                },
                Ok((piece, j)) => {
                    proof {
                        lemma_prefixed_assoc(out@, piece@, render_from(s@.skip(j as int), *self, manual, os));
                    }
                    push_chars(&mut out, &piece);
                    i = j;
                },
            }
        }
        proof {
            assert(s@.skip(n as int) =~= Seq::<char>::empty());
            assert(out@ + Seq::<char>::empty() =~= out@);
        }
        Ok(string_of(&out))
    }
}

proof fn lemma_prefixed_empty(r: Option<Seq<char>>)
    ensures
        prefixed(seq![], r) == r,
{
    if let Some(o) = r {
        assert(Seq::<char>::empty() + o =~= o);
    }
}

proof fn lemma_prefixed_assoc(a: Seq<char>, b: Seq<char>, r: Option<Seq<char>>)
    ensures
        prefixed(a, prefixed(b, r)) == prefixed(a + b, r),
{
    if let Some(o) = r {
        assert(a + (b + o) =~= (a + b) + o);
    }
}

} // verus!
