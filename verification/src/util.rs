//! Small shared pieces: release records of the manager itself, a numeric
//! text field's rules, a collection interface and a few helpers.

use vstd::prelude::*;
use std::rc::Rc;
use std::sync::Arc;

use crate::mod_list::ModEntry;

use crate::text::{chars_of, decimal, format_u32, parse_u32, spec_parse_u32, string_of};

verus! {

/// A published release of the manager.
#[derive(Debug, Clone)]
pub struct Release {
    pub name: String,
    pub tag_name: String,
    pub assets: Vec<Asset>,
}

/// A file attached to a release.
#[derive(Debug, Clone)]
pub struct Asset {
    pub name: String,
    pub browser_download_url: String,
}

/// The message given when the list of releases is empty.
pub const NO_RELEASES: &'static str = "Could not find any releases.";

/// The newest release from the list the release service gives (newest
/// first), or an error when the list is empty.
pub fn latest_release(releases: Vec<Release>) -> (r: Result<Release, String>)
    ensures
        releases@.len() > 0 ==> r == Ok::<Release, String>(releases@[0]),
        releases@.len() == 0 ==> (r matches Err(e) && e@ == NO_RELEASES@),
{
    let mut releases = releases;
    if releases.len() > 0 {
        Ok(releases.remove(0))
    } else {
        Err(String::from_str(NO_RELEASES))
    }
}

/// A character of a message as the macOS dialogs show it: both kinds of
/// quote become a backtick.
pub open spec fn dialog_char(c: char) -> char {
    if c == '\'' || c == '"' {
        '`'
    } else {
        c
    }
}

/// The message with every `'` and `"` replaced by a backtick, as the macOS
/// dialogs need it.
pub fn sanitise(message: &str) -> (r: String)
    ensures
        r@ == message@.map_values(|c: char| dialog_char(c)),
{
    let cs = chars_of(message);
    let mut out: Vec<char> = Vec::new();
    let mut i: usize = 0;
    while i < cs.len()
        invariant
            i <= cs@.len(),
            cs@ == message@,
            out@ == cs@.take(i as int).map_values(|c: char| dialog_char(c)),
        decreases cs@.len() - i,
    {
        let c = cs[i];
        if c == '\'' || c == '"' {
            out.push('`');
        } else {
            out.push(c);
        }
        proof {
            assert(cs@.take(i + 1) =~= cs@.take(i as int).push(c));
            assert(out@ =~= cs@.take(i + 1).map_values(|c: char| dialog_char(c)));
        }
        i = i + 1;
    }
    proof {
        assert(cs@.take(cs@.len() as int) =~= cs@);
    }
    string_of(&out)
}

/// Always `true`: the default of flags that start on.
pub fn default_true() -> (r: bool)
    ensures
        r,
{
    true
}

/// Calls `Rc::ptr_eq`. Its result depends on where the values live, so it is
/// not named; what holds of every outcome is that two handles to one
/// allocation hold the same value.
#[verifier::external_body]
fn rc_ptr_eq<T>(a: &Rc<T>, b: &Rc<T>) -> (r: bool)
    ensures
        r ==> *a == *b,
{
    Rc::ptr_eq(a, b)
}

/// Whether both options hold handles to the same allocation; `false` when
/// either is empty.
pub fn option_ptr_cmp<T>(this: &Option<Rc<T>>, other: &Option<Rc<T>>) -> (r: bool)
    ensures
        (this is None || other is None) ==> !r,
        r ==> this == other,
{
    match (this, other) {
        (Some(a), Some(b)) => rc_ptr_eq(a, b),
        _ => false,
    }
}

/// A toggle whose state is kept apart from the data it is shown with.
#[derive(Debug, Clone, Copy, PartialEq, Eq, Structural)]
pub struct IndyToggleState {
    pub state: bool,
}

impl Default for IndyToggleState {
    fn default() -> (r: Self)
        ensures
            r.state,
    {
        IndyToggleState { state: true }
    }
}

/// Something items can be put into and all taken out of at once.
pub trait Collection<T, U> {
    /// How many items the collection holds.
    spec fn size(&self) -> nat;

    fn insert(&mut self, item: T);

    /// The number of items held.
    fn len(&self) -> (r: usize)
        ensures
            r == self.size(),
    ;

    /// Whether no item is held.
    fn is_empty(&self) -> (r: bool)
        ensures
            r == (self.size() == 0),
    {
        self.len() == 0
    }

    fn drain(&mut self) -> U;
}

/// The mod entries gathered while the mods folder is read, handed on all at
/// once. (A newtype, as `Vec`'s own `insert`, `len` and `drain` would shadow
/// the collection's methods.)
pub struct ModEntries(pub Vec<Arc<ModEntry>>);

impl Collection<Arc<ModEntry>, Vec<Arc<ModEntry>>> for ModEntries {
    open spec fn size(&self) -> nat {
        self.0@.len()
    }

    /// Puts the entry at the end.
    fn insert(&mut self, item: Arc<ModEntry>)
        ensures
            final(self).0@ == old(self).0@.push(item),
    {
        self.0.push(item);
    }

    fn len(&self) -> (r: usize) {
        self.0.len()
    }

    /// Hands over every entry, in order, and leaves the collection empty.
    fn drain(&mut self) -> (r: Vec<Arc<ModEntry>>)
        ensures
            r@ == old(self).0@,
            final(self).0@.len() == 0,
    {
        self.0.split_off(0)
    }
}

/// The rules of a text field holding a `u32`.
#[derive(Debug, Clone, Copy)]
pub struct ValueFormatter;

impl ValueFormatter {
    /// The value in decimal.
    pub fn format(&self, value: u32) -> (r: String)
        ensures
            r@ == decimal(value as nat),
    {
        let digits = format_u32(value);
        string_of(&digits)
    }

    /// Whether text being typed is acceptable: empty, or a `u32` (as
    /// `str::parse::<u32>` reads it).
    pub fn validate_partial_input(&self, input: &str) -> (r: bool)
        ensures
            r == (input@.len() == 0 || spec_parse_u32(input@) is Some),
    {
        let cs = chars_of(input);
        cs.len() == 0 || parse_u32(&cs).is_some()
    }

    /// The value typed, if the text is a `u32`.
    pub fn value(&self, input: &str) -> (r: Option<u32>)
        ensures
            r == spec_parse_u32(input@),
    {
        let cs = chars_of(input);
        parse_u32(&cs)
    }
}

} // verus!
