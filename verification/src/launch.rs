//! What the manager decides around starting the game and applying its
//! settings: the arguments of a direct launch through the bundled Java
//! runtime, the sizes written when none were set, and whether a published
//! release is newer than the running one.

use vstd::prelude::*;

use crate::mod_version::{chars_lt, text_lt};
use crate::patterns::{regex_replace, regex_replace_result};
use crate::text::{
    ascii_words, chars_of, decimal, format_u32, push_chars, push_str, split_ascii_words, string_of,
};
use crate::vmparams::{Unit, VMParams, Value};

verus! {

/// The launcher's own name in the parameter file, which a direct launch
/// leaves out.
pub const JAVA_EXE_PATTERN: &'static str = "java\\.exe";

/// The argument that sets the game's resolution.
pub open spec fn start_res_arg(width: u32, height: u32) -> Seq<char> {
    "-DstartRes="@ + decimal(width as nat) + seq!['x'] + decimal(height as nat)
}

/// The arguments of a direct launch: the four fixed settings, then the words
/// of the parameter file once the launcher's name is taken out of it.
pub open spec fn spec_launch_args(stripped: Seq<char>, width: u32, height: u32) -> Seq<Seq<char>> {
    seq![
        "-DlaunchDirect=true"@,
        start_res_arg(width, height),
        "-DstartFS=false"@,
        "-DstartSound=true"@,
    ] + ascii_words(stripped)
}

/// The strings holding the given character sequences, in order.
fn strings_of(words: &Vec<Vec<char>>) -> (r: Vec<String>)
    ensures
        r.deep_view() == words.deep_view(),
{
    let mut r: Vec<String> = Vec::new();
    let mut i: usize = 0;
    while i < words.len()
        invariant
            i <= words@.len(),
            r.deep_view() == words.deep_view().take(i as int),
        decreases words@.len() - i,
    {
        let s = string_of(words[i].as_slice());
        let ghost before = r.deep_view();
        r.push(s);
        proof {
            assert(words[i as int].deep_view() =~= words[i as int]@);
            assert(r.deep_view() =~= before.push(s@));
            assert(words.deep_view().take(i + 1) =~= words.deep_view().take(i as int).push(
                words.deep_view()[i as int],
            ));
        }
        i = i + 1;
    }
    proof {
        assert(words.deep_view().take(words@.len() as int) =~= words.deep_view());
    }
    r
}

/// The arguments of a direct launch at `resolution`, given the parameter
/// file's text with the launcher's name already taken out.
pub fn launch_args_from(stripped: &str, resolution: (u32, u32)) -> (r: Vec<String>)
    ensures
        r.deep_view() == spec_launch_args(stripped@, resolution.0, resolution.1),
{
    let mut res: Vec<char> = Vec::new();
    push_str(&mut res, "-DstartRes=");
    let w = format_u32(resolution.0);
    push_chars(&mut res, &w);
    res.push('x');
    let h = format_u32(resolution.1);
    push_chars(&mut res, &h);
    let mut r: Vec<String> = Vec::new();
    r.push(String::from_str("-DlaunchDirect=true"));
    r.push(string_of(&res));
    r.push(String::from_str("-DstartFS=false"));
    r.push(String::from_str("-DstartSound=true"));
    let text = chars_of(stripped);
    let words = split_ascii_words(&text);
    let mut rest = strings_of(&words);
    let ghost fixed = r.deep_view();
    let ghost tail = rest.deep_view();
    r.append(&mut rest);
    proof {
        assert(res@ =~= start_res_arg(resolution.0, resolution.1));
        assert(r.deep_view() =~= fixed + tail);
        assert(fixed =~= seq![
            "-DlaunchDirect=true"@,
            start_res_arg(resolution.0, resolution.1),
            "-DstartFS=false"@,
            "-DstartSound=true"@,
        ]);
    }
    r
}

/// The arguments of a direct launch at `resolution` from the parameter
/// file's text: the first `java.exe` is taken out (with `regex`), the rest is
/// split into words. `None` only where the pattern would not compile.
pub fn launch_args(vmparams_text: &str, resolution: (u32, u32)) -> (r: Option<Vec<String>>)
    ensures
        match regex_replace_result(JAVA_EXE_PATTERN@, vmparams_text@, ""@) {
            Some(stripped) => r matches Some(a) && a.deep_view() == spec_launch_args(
                stripped,
                resolution.0,
                resolution.1,
            ),
            None => r is None,
        },
{
    match regex_replace(JAVA_EXE_PATTERN, vmparams_text, "") {
        Some(stripped) => Some(launch_args_from(stripped.as_str(), resolution)),
        None => None,
    }
}

/// The size written in place of one that was never set.
pub open spec fn size_or(v: Value, fallback: Value) -> Value {
    if v.amount == 0 {
        fallback
    } else {
        v
    }
}

/// The parameters with every unset size (amount zero) replaced: 1536M for
/// both heap sizes, 1536K for the thread stack.
pub open spec fn spec_with_default_sizes(p: VMParams) -> VMParams {
    VMParams {
        heap_init: size_or(p.heap_init, Value { amount: 1536, unit: Unit::Mega }),
        heap_max: size_or(p.heap_max, Value { amount: 1536, unit: Unit::Mega }),
        thread_stack_size: size_or(p.thread_stack_size, Value { amount: 1536, unit: Unit::Kilo }),
        verify_none: p.verify_none,
    }
}

/// Replaces every unset size before the parameters are saved.
pub fn apply_default_sizes(p: &mut VMParams)
    ensures
        *final(p) == spec_with_default_sizes(*old(p)),
        final(p).heap_init.amount != 0,
        final(p).heap_max.amount != 0,
        final(p).thread_stack_size.amount != 0,
{
    if p.heap_init.amount == 0 {
        p.heap_init = Value { amount: 1536, unit: Unit::Mega };
    }
    if p.heap_max.amount == 0 {
        p.heap_max = Value { amount: 1536, unit: Unit::Mega };
    }
    if p.thread_stack_size.amount == 0 {
        p.thread_stack_size = Value { amount: 1536, unit: Unit::Kilo };
    }
}

/// Whether the published release tag comes after `v` followed by the running
/// version, in the order of their characters.
pub fn release_is_newer(latest_tag: &str, current: &str) -> (r: bool)
    ensures
        r == text_lt(seq!['v'] + current@, latest_tag@),
{
    let mut own: Vec<char> = Vec::new();
    own.push('v');
    push_str(&mut own, current);
    let tag = chars_of(latest_tag);
    proof {
        assert(own@ =~= seq!['v'] + current@);
    }
    chars_lt(&own, &tag)
}

/// The main window's title for the running version.
pub fn window_title(version: &str) -> (r: String)
    ensures
        r@ == "Starsector Mod Manager v"@ + version@,
{
    let mut out: Vec<char> = Vec::new();
    push_str(&mut out, "Starsector Mod Manager v");
    push_str(&mut out, version);
    string_of(&out)
}

} // verus!
