//! The verification setting of the JVM parameter file: what reading gives
//! back of what writing wrote.

use vstd::prelude::*;

use crate::text::{all_digits, ascii_lower, eq_ignore_ascii_case, lemma_decimal, spec_format_i32};
use crate::vmparams::{
    chunk_len, is_number_char, is_unicode_space, numeric_prefix_len, render_from, spec_load, spec_prepared, spec_save,
    spec_verify_none, spec_write_manually, starts_xv, space_free_len, unit_of_suffix, unit_text, value_len,
    value_text, verify_before_server, xv_first, xv_match_len, xv_replaced, xv_value, xverify_text,
    TargetOs, VMParams, Value, VERIFY_AFTER_JAVA, VERIFY_FLAG,
};

verus! {

/// The text `none`.
pub open spec fn none_text() -> Seq<char> {
    seq!['n', 'o', 'n', 'e']
}

/// Whether the value that follows a `-xverify` at the start of `r` is
/// `none`, in any case.
pub open spec fn value_none(r: Seq<char>) -> bool {
    match xv_value(r) {
        Some(v) => eq_ignore_ascii_case(v, none_text()),
        None => false,
    }
}

/// Whether the first `-xverify` of `t` has the value `none`, read position
/// by position.
pub open spec fn xv_verify(t: Seq<char>) -> bool
    decreases t.len(),
{
    if t.len() < 8 {
        false
    } else if starts_xv(t) {
        value_none(t.skip(8))
    } else {
        xv_verify(t.skip(1))
    }
}

/// The six characters that decide `value_none`: a `:`, `none` in any case,
/// then white space or the end.
pub open spec fn window_none(r: Seq<char>) -> bool {
    &&& r.len() >= 5
    &&& r[0] == ':'
    &&& eq_ignore_ascii_case(r.subrange(1, 5), none_text())
    &&& (r.len() == 5 || is_unicode_space(r[5]))
}

/// No `-xverify` starts anywhere in `t`.
pub open spec fn no_start(t: Seq<char>) -> bool {
    forall|j: int| 0 <= j < t.len() ==> !starts_xv(#[trigger] t.skip(j))
}

/// A stretch that the writer puts or keeps in one piece, in which no
/// `-xverify` can start: a `-`, a third character other than `v`, and every
/// later `-` followed by something other than `x`.
pub open spec fn quiet(m: Seq<char>) -> bool {
    &&& m.len() >= 3
    &&& m[0] == '-'
    &&& ascii_lower(m[2]) != 'v'
    &&& forall|j: int| 1 <= j < m.len() && m[j] == '-' ==> j + 1 < m.len() && ascii_lower(#[trigger] m[j + 1]) != 'x'
}

proof fn lemma_space_free(s: Seq<char>)
    ensures
        space_free_len(s) <= s.len(),
        forall|j: int| 0 <= j < space_free_len(s) ==> !is_unicode_space(#[trigger] s[j]),
        space_free_len(s) < s.len() ==> is_unicode_space(s[space_free_len(s) as int]),
    decreases s.len(),
{
    if s.len() > 0 && !is_unicode_space(s[0]) {
        lemma_space_free(s.skip(1));
        assert forall|j: int| 0 <= j < space_free_len(s) implies !is_unicode_space(#[trigger] s[j]) by {
            if j > 0 {
                assert(s[j] == s.skip(1)[j - 1]);
            }
        }
        if space_free_len(s) < s.len() {
            assert(s[space_free_len(s) as int] == s.skip(1)[space_free_len(s.skip(1)) as int]);
        }
    }
}

proof fn lemma_space_free_exact(s: Seq<char>, k: int)
    requires
        0 <= k <= s.len(),
        forall|j: int| 0 <= j < k ==> !is_unicode_space(#[trigger] s[j]),
        k == s.len() || is_unicode_space(s[k]),
    ensures
        space_free_len(s) == k,
    decreases k,
{
    if k > 0 {
        assert forall|j: int| 0 <= j < k - 1 implies !is_unicode_space(#[trigger] s.skip(1)[j]) by {
            assert(s.skip(1)[j] == s[j + 1]);
        }
        if k < s.len() {
            assert(s.skip(1)[k - 1] == s[k]);
        }
        lemma_space_free_exact(s.skip(1), k - 1);
    }
}

/// The value of a flag is `none` exactly when its six deciding characters say so.
proof fn lemma_value_window(r: Seq<char>)
    ensures
        value_none(r) == window_none(r),
{
    let none = none_text();
    if r.len() > 0 && r[0] == ':' {
        let s = r.skip(1);
        lemma_space_free(s);
        let k = space_free_len(s);
        if window_none(r) {
            assert forall|j: int| 0 <= j < 4 implies !is_unicode_space(#[trigger] s[j]) by {
                assert(r.subrange(1, 5)[j] == s[j]);
                assert(ascii_lower(r.subrange(1, 5)[j]) == ascii_lower(none[j]));
            }
            if r.len() > 5 {
                assert(s[4] == r[5]);
            }
            lemma_space_free_exact(s, 4);
            assert(s.take(4) =~= r.subrange(1, 5));
        }
        if value_none(r) {
            let v = s.take(k as int);
            assert(v.len() == 4);
            assert(v =~= r.subrange(1, 5));
            if r.len() > 5 {
                assert(s[4] == r[5]);
            }
        }
    }
}

/// Where the first `-xverify` of `t` lies, and that none starts before it.
proof fn lemma_first(t: Seq<char>)
    ensures
        match xv_first(t) {
            Some(i) => {
                &&& 0 <= i && i + 8 <= t.len()
                &&& starts_xv(t.skip(i))
                &&& forall|j: int| 0 <= j < i ==> !starts_xv(#[trigger] t.skip(j))
            },
            None => no_start(t),
        },
    decreases t.len(),
{
    assert(t.skip(0) =~= t);
    if t.len() >= 8 && !starts_xv(t) {
        lemma_first(t.skip(1));
        assert forall|j: int| 1 <= j <= t.len() implies #[trigger] t.skip(j) =~= t.skip(1).skip(j - 1) by {}
        match xv_first(t.skip(1)) {
            Some(i) => {
                assert(t.skip(i + 1) =~= t.skip(1).skip(i));
                assert forall|j: int| 0 <= j < i + 1 implies !starts_xv(#[trigger] t.skip(j)) by {
                    if j > 0 {
                        assert(t.skip(j) =~= t.skip(1).skip(j - 1));
                    }
                }
            },
            None => {
                assert forall|j: int| 0 <= j < t.len() implies !starts_xv(#[trigger] t.skip(j)) by {
                    if j > 0 {
                        assert(t.skip(j) =~= t.skip(1).skip(j - 1));
                    }
                }
            },
        }
    } else if t.len() < 8 {
        assert forall|j: int| 0 <= j < t.len() implies !starts_xv(#[trigger] t.skip(j)) by {}
    }
}

/// `spec_verify_none` reads the same as `xv_verify`.
proof fn lemma_verify_rec(t: Seq<char>)
    ensures
        spec_verify_none(t) == xv_verify(t),
    decreases t.len(),
{
    if t.len() >= 8 && !starts_xv(t) {
        lemma_verify_rec(t.skip(1));
        lemma_first(t.skip(1));
        match xv_first(t.skip(1)) {
            Some(i) => {
                assert(t.skip(1).skip(i + 8) =~= t.skip(i + 1 + 8));
            },
            None => {},
        }
    }
}

/// One step of `xv_verify`, also for texts shorter than a flag.
proof fn lemma_verify_step(t: Seq<char>)
    requires
        t.len() > 0,
    ensures
        xv_verify(t) == if starts_xv(t) {
            value_none(t.skip(8))
        } else {
            xv_verify(t.skip(1))
        },
{
}

/// A `-xverify` does not start where one of its characters differs.
proof fn lemma_mismatch(t: Seq<char>, k: int)
    requires
        0 <= k < 8,
        k < t.len(),
        ascii_lower(t[k]) != ascii_lower(xverify_text()[k]),
    ensures
        !starts_xv(t),
{
    if t.len() >= 8 {
        assert(t.take(8)[k] == t[k]);
    }
}

/// Where no `-xverify` starts in `p`, the first one of `p + q` is that of `q`.
proof fn lemma_verify_skip(p: Seq<char>, q: Seq<char>)
    requires
        forall|j: int| 0 <= j < p.len() ==> !starts_xv(#[trigger] (p + q).skip(j)),
    ensures
        xv_verify(p + q) == xv_verify(q),
    decreases p.len(),
{
    if p.len() > 0 {
        let t = p + q;
        assert(t.skip(0) =~= t);
        assert(t.skip(1) =~= p.skip(1) + q);
        assert forall|j: int| 0 <= j < p.skip(1).len() implies !starts_xv(#[trigger] (p.skip(1) + q).skip(j)) by {
            assert((p.skip(1) + q).skip(j) =~= t.skip(j + 1));
        }
        lemma_verify_step(t);
        lemma_verify_skip(p.skip(1), q);
    } else {
        assert(p + q =~= q);
    }
}

/// No `-xverify` starts inside a quiet stretch, whatever follows it.
proof fn lemma_quiet(m: Seq<char>, b: Seq<char>)
    requires
        quiet(m),
    ensures
        forall|j: int| 0 <= j < m.len() ==> !starts_xv(#[trigger] (m + b).skip(j)),
{
    reveal_with_fuel(xverify_text, 1);
    assert forall|j: int| 0 <= j < m.len() implies !starts_xv(#[trigger] (m + b).skip(j)) by {
        let t = (m + b).skip(j);
        if j == 0 {
            assert(t[2] == m[2]);
            lemma_mismatch(t, 2);
        } else if m[j] != '-' {
            assert(t[0] == m[j]);
            lemma_mismatch(t, 0);
        } else {
            assert(t[1] == m[j + 1]);
            lemma_mismatch(t, 1);
        }
    }
}

/// Two quiet stretches in the same place leave the verification setting as
/// it is.
proof fn lemma_swap(x: Seq<char>, m1: Seq<char>, m2: Seq<char>, b: Seq<char>)
    requires
        quiet(m1),
        quiet(m2),
    ensures
        xv_verify(x + m1 + b) == xv_verify(x + m2 + b),
    decreases x.len(),
{
    let t1 = x + m1 + b;
    let t2 = x + m2 + b;
    if x.len() == 0 {
        lemma_quiet(m1, b);
        lemma_quiet(m2, b);
        lemma_verify_skip(m1, b);
        lemma_verify_skip(m2, b);
        assert(t1 =~= m1 + b);
        assert(t2 =~= m2 + b);
    } else {
        let n = x.len() as int;
        assert(t1[n] == '-');
        assert(t2[n] == '-');
        if n >= 8 {
            assert(t1.take(8) =~= x.take(8));
            assert(t2.take(8) =~= x.take(8));
            if starts_xv(t1) {
                let r1 = t1.skip(8);
                let r2 = t2.skip(8);
                lemma_value_window(r1);
                lemma_value_window(r2);
                if n >= 14 {
                    assert(r1.subrange(1, 5) =~= r2.subrange(1, 5));
                    assert(r1[0] == r2[0]);
                    assert(r1[5] == r2[5]);
                } else {
                    let k = n - 8;
                    assert(r1[k] == '-');
                    assert(r2[k] == '-');
                    if 1 <= k < 5 && r1.len() >= 5 {
                        assert(r1.subrange(1, 5)[k - 1] == '-');
                    }
                    if 1 <= k < 5 && r2.len() >= 5 {
                        assert(r2.subrange(1, 5)[k - 1] == '-');
                    }
                }
            }
        } else {
            lemma_mismatch(t1, n);
            lemma_mismatch(t2, n);
        }
        lemma_verify_step(t1);
        lemma_verify_step(t2);
        assert(t1.skip(1) =~= x.skip(1) + m1 + b);
        assert(t2.skip(1) =~= x.skip(1) + m2 + b);
        lemma_swap(x.skip(1), m1, m2, b);
    }
}

/// Whether three characters name one of the sizes, in any case.
pub open spec fn size_key(key: Seq<char>) -> bool {
    eq_ignore_ascii_case(key, seq!['x', 'm', 's']) || eq_ignore_ascii_case(key, seq!['x', 'm', 'x'])
        || eq_ignore_ascii_case(key, seq!['x', 's', 's'])
}

proof fn lemma_numeric_prefix(s: Seq<char>)
    ensures
        numeric_prefix_len(s) <= s.len(),
        forall|j: int| 0 <= j < numeric_prefix_len(s) ==> is_number_char(#[trigger] s[j]),
    decreases s.len(),
{
    if s.len() > 0 && is_number_char(s[0]) {
        lemma_numeric_prefix(s.skip(1));
        assert forall|j: int| 0 <= j < numeric_prefix_len(s) implies is_number_char(#[trigger] s[j]) by {
            if j > 0 {
                assert(s[j] == s.skip(1)[j - 1]);
            }
        }
    }
}

/// A size flag with the size the file holds is quiet.
proof fn lemma_old_size_quiet(key: Seq<char>, r2: Seq<char>, n: nat)
    requires
        size_key(key),
        value_len(r2) == Some(n),
    ensures
        quiet(seq!['-'] + key + r2.take(n as int)),
{
    let m = seq!['-'] + key + r2.take(n as int);
    lemma_numeric_prefix(r2);
    let d = numeric_prefix_len(r2);
    assert(ascii_lower(key[1]) == 'm' || ascii_lower(key[1]) == 's');
    assert forall|j: int| 1 <= j < m.len() && m[j] == '-' implies j + 1 < m.len() && ascii_lower(#[trigger] m[j + 1]) != 'x' by {
        if j < 4 {
            assert(m[j] == key[j - 1]);
            assert(ascii_lower(key[j - 1]) != '-');
        } else if j - 4 < d {
            assert(m[j] == r2[j - 4]);
            assert(is_number_char(r2[j - 4]));
        } else {
            assert(m[j] == r2[d as int]);
            assert(unit_of_suffix(r2[d as int]) is Some);
        }
    }
}

/// A size flag with a size as the writer writes it is quiet.
proof fn lemma_new_size_quiet(key: Seq<char>, v: Value)
    requires
        size_key(key),
    ensures
        quiet(seq!['-'] + key + value_text(v)),
{
    let m = seq!['-'] + key + value_text(v);
    let f = spec_format_i32(v.amount);
    let mag: nat = if v.amount < 0 { (-(v.amount as int)) as nat } else { v.amount as nat };
    lemma_decimal(mag);
    let dd = crate::text::decimal(mag);
    assert(all_digits(dd));
    assert(ascii_lower(key[1]) == 'm' || ascii_lower(key[1]) == 's');
    assert forall|j: int| 1 <= j < m.len() && m[j] == '-' implies j + 1 < m.len() && ascii_lower(#[trigger] m[j + 1]) != 'x' by {
        if j < 4 {
            assert(m[j] == key[j - 1]);
            assert(ascii_lower(key[j - 1]) != '-');
        } else if j - 4 < f.len() {
            assert(m[j] == f[j - 4]);
            if v.amount < 0 {
                if j == 4 {
                    assert(m[j + 1] == dd[0]);
                    assert(crate::text::is_digit(dd[0]));
                } else {
                    assert(f[j - 4] == dd[j - 5]);
                    assert(crate::text::is_digit(dd[j - 5]));
                }
            } else {
                assert(f[j - 4] == dd[j - 4]);
                assert(crate::text::is_digit(dd[j - 4]));
            }
        } else {
            assert(m[j] == unit_text(v.unit)[j - 4 - f.len()]);
        }
    }
}

/// Writing sizes without adding the verification flag leaves the setting
/// that the text gives as it is, whatever stands before it.
#[verifier::spinoff_prover]
#[verifier::rlimit(60)]
proof fn lemma_render_keeps(s: Seq<char>, p: VMParams, os: TargetOs, x: Seq<char>)
    requires
        render_from(s, p, false, os) is Some,
    ensures
        xv_verify(x + render_from(s, p, false, os)->0) == xv_verify(x + s),
    decreases s.len(),
{
    if s.len() == 0 {
        assert(x + render_from(s, p, false, os)->0 =~= x + s);
    } else {
        let o = render_from(s, p, false, os)->0;
        let ch = s[0];
        let r = s.skip(1);
        if ch == '-' {
            let key = r.take(chunk_len(r, 3) as int);
            let r2 = r.skip(chunk_len(r, 3) as int);
            if size_key(key) {
                let v = if eq_ignore_ascii_case(key, seq!['x', 'm', 's']) {
                    p.heap_init
                } else if eq_ignore_ascii_case(key, seq!['x', 'm', 'x']) {
                    p.heap_max
                } else {
                    p.thread_stack_size
                };
                let n = value_len(r2)->0;
                let rest = r2.skip(n as int);
                let o2 = render_from(rest, p, false, os)->0;
                let m1 = seq!['-'] + key + r2.take(n as int);
                let m2 = seq!['-'] + key + value_text(v);
                assert(o =~= m2 + o2);
                assert(s =~= m1 + rest);
                lemma_render_keeps(rest, p, os, x + m2);
                assert(x + m2 + o2 =~= x + o);
                lemma_old_size_quiet(key, r2, n);
                lemma_new_size_quiet(key, v);
                lemma_swap(x, m2, m1, rest);
                assert(x + m1 + rest =~= x + s);
            } else {
                let o2 = render_from(r2, p, false, os)->0;
                let seg = seq!['-'] + key;
                assert(o =~= seg + o2);
                assert(s =~= seg + r2);
                lemma_render_keeps(r2, p, os, x + seg);
                assert(x + seg + o2 =~= x + o);
                assert(x + seg + r2 =~= x + s);
            }
        } else if ch == 'j' {
            let c = r.take(chunk_len(r, 7) as int);
            let rest = r.skip(chunk_len(r, 7) as int);
            let o2 = render_from(rest, p, false, os)->0;
            let seg = seq!['j'] + c;
            assert(o =~= seg + o2);
            assert(s =~= seg + rest);
            lemma_render_keeps(rest, p, os, x + seg);
            assert(x + seg + o2 =~= x + o);
            assert(x + seg + rest =~= x + s);
        } else {
            let o2 = render_from(r, p, false, os)->0;
            assert(o =~= seq![ch] + o2);
            assert(s =~= seq![ch] + r);
            lemma_render_keeps(r, p, os, x + seq![ch]);
            assert(x + seq![ch] + o2 =~= x + o);
            assert(x + seq![ch] + r =~= x + s);
        }
    }
}

/// Whether the writer, adding the verification flag by itself, finds a place
/// for it in `s`: a `-server` or a `java.exe` where it looks (see
/// `render_from`).
pub open spec fn writes_flag(s: Seq<char>) -> bool
    decreases s.len(),
{
    if s.len() == 0 {
        false
    } else {
        let r = s.skip(1);
        if s[0] == '-' {
            let key = r.take(chunk_len(r, 3) as int);
            let r2 = r.skip(chunk_len(r, 3) as int);
            if eq_ignore_ascii_case(key, seq!['s', 'e', 'r']) {
                let rem = r2.take(chunk_len(r2, 3) as int);
                eq_ignore_ascii_case(rem, seq!['v', 'e', 'r']) || writes_flag(r2.skip(chunk_len(r2, 3) as int))
            } else if size_key(key) {
                match value_len(r2) {
                    Some(n) => writes_flag(r2.skip(n as int)),
                    None => false,
                }
            } else {
                writes_flag(r2)
            }
        } else if s[0] == 'j' {
            r.take(chunk_len(r, 7) as int) == seq!['a', 'v', 'a', '.', 'e', 'x', 'e'] || writes_flag(
                r.skip(chunk_len(r, 7) as int),
            )
        } else {
            writes_flag(r)
        }
    }
}

/// The flag that turns verification off, and a space.
pub open spec fn flag_and_space() -> Seq<char> {
    seq!['-', 'X', 'v', 'e', 'r', 'i', 'f', 'y', ':', 'n', 'o', 'n', 'e', ' ']
}

/// A text that starts with the flag that turns verification off, followed by
/// white space, says `none` when no `-xverify` starts before it.
proof fn lemma_flag_first(pre: Seq<char>, q: Seq<char>)
    requires
        q.len() >= 14,
        q.take(14) == flag_and_space(),
        forall|j: int| 0 <= j && j + 8 <= pre.len() ==> !starts_xv(#[trigger] pre.skip(j)),
    ensures
        xv_verify(pre + q),
{
    let t = pre + q;
    assert(q[0] == '-') by {
        assert(q.take(14)[0] == q[0]);
    }
    assert forall|j: int| 0 <= j < pre.len() implies !starts_xv(#[trigger] (pre + q).skip(j)) by {
        if j + 8 <= pre.len() {
            assert((pre + q).skip(j).take(8) =~= pre.skip(j).take(8));
            assert(!starts_xv(pre.skip(j)));
        } else {
            let k = pre.len() - j;
            assert((pre + q).skip(j)[k] == q[0]);
            reveal_with_fuel(xverify_text, 1);
            lemma_mismatch((pre + q).skip(j), k);
        }
    }
    lemma_verify_skip(pre, q);
    assert(q.take(8) =~= seq!['-', 'X', 'v', 'e', 'r', 'i', 'f', 'y']) by {
        assert forall|i: int| 0 <= i < 8 implies q.take(8)[i] == q.take(14)[i] by {}
    }
    assert(eq_ignore_ascii_case(q.take(8), xverify_text()));
    let r = q.skip(8);
    assert(r.subrange(0, 6) =~= seq![':', 'n', 'o', 'n', 'e', ' ']) by {
        assert forall|i: int| 0 <= i < 6 implies r[i] == q.take(14)[i + 8] by {}
    }
    assert(r.subrange(1, 5) =~= none_text()) by {
        assert forall|i: int| 0 <= i < 4 implies r.subrange(1, 5)[i] == r.subrange(0, 6)[i + 1] by {}
    }
    assert(r[5] == r.subrange(0, 6)[5]);
    lemma_value_window(r);
    lemma_verify_step(q);
}

/// Windows that lie inside a prefix of a text with no `-xverify`.
proof fn lemma_prefix_windows(t: Seq<char>, pre: Seq<char>)
    requires
        no_start(t),
        pre.len() <= t.len(),
        t.take(pre.len() as int) == pre,
    ensures
        forall|j: int| 0 <= j && j + 8 <= pre.len() ==> !starts_xv(#[trigger] pre.skip(j)),
{
    assert forall|j: int| 0 <= j && j + 8 <= pre.len() implies !starts_xv(#[trigger] pre.skip(j)) by {
        assert(pre.skip(j).take(8) =~= t.skip(j).take(8)) by {
            assert forall|i: int| 0 <= i < 8 implies pre.skip(j).take(8)[i] == t.skip(j).take(8)[i] by {
                assert(pre[j + i] == t.take(pre.len() as int)[j + i]);
            }
        }
        assert(!starts_xv(t.skip(j)));
    }
}

/// The flag words the writer adds by itself.
proof fn lemma_inserted_words(os: TargetOs)
    ensures
        VERIFY_AFTER_JAVA@ == seq![' '] + flag_and_space(),
        (seq!['-'] + verify_before_server(os)).take(14) == flag_and_space(),
        (seq!['-'] + verify_before_server(os)).len() >= 14,
{
    crate::params_round_trip::lemma_verify_words(os);
    assert(VERIFY_AFTER_JAVA@ =~= seq![' '] + flag_and_space());
    let w = seq!['-'] + verify_before_server(os);
    assert(w.take(14) =~= flag_and_space());
}

/// The flag added before `-server` is the first `-xverify` of the text.
proof fn lemma_server_insert(x: Seq<char>, s: Seq<char>, os: TargetOs, tail: Seq<char>)
    requires
        no_start(x + s),
    ensures
        xv_verify(x + (seq!['-'] + verify_before_server(os) + tail)),
{
    lemma_inserted_words(os);
    let q = seq!['-'] + verify_before_server(os) + tail;
    assert(q.take(14) =~= (seq!['-'] + verify_before_server(os)).take(14));
    assert((x + s).take(x.len() as int) =~= x);
    lemma_prefix_windows(x + s, x);
    lemma_flag_first(x, q);
}

/// The flag added after `java.exe` is the first `-xverify` of the text.
proof fn lemma_java_insert(x: Seq<char>, seg: Seq<char>, rest: Seq<char>, o2: Seq<char>, os: TargetOs)
    requires
        no_start(x + (seg + rest)),
    ensures
        xv_verify(x + (seg + VERIFY_AFTER_JAVA@ + o2)),
{
    lemma_inserted_words(os);
    let pre = x + seg + seq![' '];
    let q = flag_and_space() + o2;
    assert(x + (seg + VERIFY_AFTER_JAVA@ + o2) =~= pre + q);
    assert(q.take(14) =~= flag_and_space());
    assert((x + (seg + rest)).take((x + seg).len() as int) =~= x + seg);
    lemma_prefix_windows(x + (seg + rest), x + seg);
    assert forall|j: int| 0 <= j && j + 8 <= pre.len() implies !starts_xv(#[trigger] pre.skip(j)) by {
        if j + 8 <= (x + seg).len() {
            assert(pre.skip(j).take(8) =~= (x + seg).skip(j).take(8));
            assert(!starts_xv((x + seg).skip(j)));
        } else {
            let k = pre.len() - 1 - j;
            assert(pre.skip(j)[k] == ' ');
            reveal_with_fuel(xverify_text, 1);
            lemma_mismatch(pre.skip(j), k);
        }
    }
    lemma_flag_first(pre, q);
}

/// Writing with the verification flag added by itself, into a text with no
/// `-xverify`, gives a text whose setting is `none` exactly when the writer
/// finds a place for the flag.
#[verifier::spinoff_prover]
proof fn lemma_render_writes(s: Seq<char>, p: VMParams, os: TargetOs, x: Seq<char>)
    requires
        render_from(s, p, true, os) is Some,
        no_start(x + s),
    ensures
        xv_verify(x + render_from(s, p, true, os)->0) == writes_flag(s),
    decreases s.len(), 2int,
{
    let o = render_from(s, p, true, os)->0;
    if s.len() == 0 {
        assert(x + o =~= x + s);
        lemma_verify_skip(x + s, Seq::<char>::empty());
        assert(x + s + Seq::<char>::empty() =~= x + s);
    } else if s[0] == '-' {
        lemma_writes_dash(s, p, os, x);
    } else if s[0] == 'j' {
        lemma_writes_j(s, p, os, x);
    } else {
        let ch = s[0];
        let r = s.skip(1);
        let o2 = render_from(r, p, true, os)->0;
        assert(o =~= seq![ch] + o2);
        assert(s =~= seq![ch] + r);
        assert(x + seq![ch] + r =~= x + s);
        lemma_render_writes(r, p, os, x + seq![ch]);
        assert(x + seq![ch] + o2 =~= x + o);
    }
}

#[verifier::spinoff_prover]
#[verifier::rlimit(50)]
proof fn lemma_writes_j(s: Seq<char>, p: VMParams, os: TargetOs, x: Seq<char>)
    requires
        s.len() > 0,
        s[0] == 'j',
        render_from(s, p, true, os) is Some,
        no_start(x + s),
    ensures
        xv_verify(x + render_from(s, p, true, os)->0) == writes_flag(s),
    decreases s.len(), 1int,
{
    let o = render_from(s, p, true, os)->0;
    let r = s.skip(1);
    let c = r.take(chunk_len(r, 7) as int);
    let rest = r.skip(chunk_len(r, 7) as int);
    let o2 = render_from(rest, p, true, os)->0;
    let seg = seq!['j'] + c;
    assert(s =~= seg + rest);
    if c == seq!['a', 'v', 'a', '.', 'e', 'x', 'e'] {
        assert(o == seg + VERIFY_AFTER_JAVA@ + o2);
        lemma_java_insert(x, seg, rest, o2, os);
    } else {
        assert(o =~= seg + o2);
        assert(x + seg + rest =~= x + s);
        lemma_render_writes(rest, p, os, x + seg);
        assert(x + seg + o2 =~= x + o);
    }
}

#[verifier::spinoff_prover]
#[verifier::rlimit(50)]
proof fn lemma_writes_dash(s: Seq<char>, p: VMParams, os: TargetOs, x: Seq<char>)
    requires
        s.len() > 0,
        s[0] == '-',
        render_from(s, p, true, os) is Some,
        no_start(x + s),
    ensures
        xv_verify(x + render_from(s, p, true, os)->0) == writes_flag(s),
    decreases s.len(), 1int,
{
    let o = render_from(s, p, true, os)->0;
    let r = s.skip(1);
    let key = r.take(chunk_len(r, 3) as int);
    let r2 = r.skip(chunk_len(r, 3) as int);
    if eq_ignore_ascii_case(key, seq!['s', 'e', 'r']) {
        lemma_writes_ser(s, p, os, x);
    } else if size_key(key) {
        lemma_writes_size(s, p, os, x);
    } else {
        let o2 = render_from(r2, p, true, os)->0;
        let seg = seq!['-'] + key;
        assert(o =~= seg + o2);
        assert(s =~= seg + r2);
        assert(x + seg + r2 =~= x + s);
        lemma_render_writes(r2, p, os, x + seg);
        assert(x + seg + o2 =~= x + o);
    }
}

#[verifier::spinoff_prover]
#[verifier::rlimit(50)]
proof fn lemma_writes_ser(s: Seq<char>, p: VMParams, os: TargetOs, x: Seq<char>)
    requires
        s.len() > 0,
        s[0] == '-',
        eq_ignore_ascii_case(s.skip(1).take(chunk_len(s.skip(1), 3) as int), seq!['s', 'e', 'r']),
        render_from(s, p, true, os) is Some,
        no_start(x + s),
    ensures
        xv_verify(x + render_from(s, p, true, os)->0) == writes_flag(s),
    decreases s.len(), 0int,
{
    let o = render_from(s, p, true, os)->0;
    let r = s.skip(1);
    let key = r.take(chunk_len(r, 3) as int);
    let r2 = r.skip(chunk_len(r, 3) as int);
    let rem = r2.take(chunk_len(r2, 3) as int);
    let r3 = r2.skip(chunk_len(r2, 3) as int);
    let o3 = render_from(r3, p, true, os)->0;
    if eq_ignore_ascii_case(rem, seq!['v', 'e', 'r']) {
        assert(o == seq!['-'] + verify_before_server(os) + key + rem + o3);
        assert(seq!['-'] + verify_before_server(os) + key + rem + o3 =~= seq!['-'] + verify_before_server(os) + (key
            + rem + o3));
        lemma_server_insert(x, s, os, key + rem + o3);
    } else {
        let seg = seq!['-'] + key + rem;
        assert(o =~= seg + o3);
        assert(s =~= seg + r3);
        assert(x + seg + r3 =~= x + s);
        lemma_render_writes(r3, p, os, x + seg);
        assert(x + seg + o3 =~= x + o);
    }
}

#[verifier::spinoff_prover]
#[verifier::rlimit(50)]
proof fn lemma_writes_size(s: Seq<char>, p: VMParams, os: TargetOs, x: Seq<char>)
    requires
        s.len() > 0,
        s[0] == '-',
        !eq_ignore_ascii_case(s.skip(1).take(chunk_len(s.skip(1), 3) as int), seq!['s', 'e', 'r']),
        size_key(s.skip(1).take(chunk_len(s.skip(1), 3) as int)),
        render_from(s, p, true, os) is Some,
        no_start(x + s),
    ensures
        xv_verify(x + render_from(s, p, true, os)->0) == writes_flag(s),
    decreases s.len(), 0int,
{
    let o = render_from(s, p, true, os)->0;
    let r = s.skip(1);
    let key = r.take(chunk_len(r, 3) as int);
    let r2 = r.skip(chunk_len(r, 3) as int);
    let v = if eq_ignore_ascii_case(key, seq!['x', 'm', 's']) {
        p.heap_init
    } else if eq_ignore_ascii_case(key, seq!['x', 'm', 'x']) {
        p.heap_max
    } else {
        p.thread_stack_size
    };
    let n = value_len(r2)->0;
    let rest = r2.skip(n as int);
    let o2 = render_from(rest, p, true, os)->0;
    let m1 = seq!['-'] + key + r2.take(n as int);
    let m2 = seq!['-'] + key + value_text(v);
    assert(o =~= m2 + o2);
    assert(s =~= m1 + rest);
    assert(x + m1 + rest =~= x + s);
    lemma_render_writes(rest, p, os, x + m1);
    lemma_old_size_quiet(key, r2, n);
    lemma_new_size_quiet(key, v);
    lemma_swap(x, m1, m2, o2);
    assert(x + m2 + o2 =~= x + o);
}

/// Replacing the first verification flag by `-Xverify:none` turns it off,
/// when that flag has a value or ends where white space or the text does.
proof fn lemma_replaced_none(t: Seq<char>, i: int)
    requires
        xv_first(t) == Some(i),
        xv_value(t.skip(i + 8)) is Some || t.len() == i + 8 || (t.len() > i + 8 && is_unicode_space(t[i + 8])),
    ensures
        xv_verify(xv_replaced(t, VERIFY_FLAG@)),
{
    reveal_strlit("-Xverify:none");
    lemma_first(t);
    let f = VERIFY_FLAG@;
    assert(f =~= seq!['-', 'X', 'v', 'e', 'r', 'i', 'f', 'y', ':', 'n', 'o', 'n', 'e']);
    let len = xv_match_len(t, i);
    let suffix = t.skip(i + len);
    let pre = t.take(i);
    let q = f + suffix;
    let w = t.skip(i + 9);
    lemma_space_free(w);
    match xv_value(t.skip(i + 8)) {
        Some(v) => {
            assert(t.skip(i + 8).skip(1) =~= w);
            assert(v.len() == space_free_len(w));
        },
        None => {},
    }
    assert(i + len <= t.len());
    assert(suffix.len() > 0 ==> is_unicode_space(suffix[0])) by {
        if suffix.len() > 0 {
            match xv_value(t.skip(i + 8)) {
                Some(v) => {
                    assert(t.skip(i + 8).skip(1) =~= w);
                    assert(suffix[0] == w[space_free_len(w) as int]);
                },
                None => {
                    assert(suffix[0] == t[i + 8]);
                },
            }
        }
    }
    assert(xv_replaced(t, f) == pre + q);
    assert forall|j: int| 0 <= j < pre.len() implies !starts_xv(#[trigger] (pre + q).skip(j)) by {
        if j + 8 <= pre.len() {
            assert((pre + q).skip(j).take(8) =~= t.skip(j).take(8));
        } else {
            let k = pre.len() - j;
            assert((pre + q).skip(j)[k] == '-');
            reveal_with_fuel(xverify_text, 1);
            lemma_mismatch((pre + q).skip(j), k);
        }
    }
    lemma_verify_skip(pre, q);
    assert(q.take(8) =~= seq!['-', 'X', 'v', 'e', 'r', 'i', 'f', 'y']);
    assert(eq_ignore_ascii_case(q.take(8), xverify_text()));
    let r = q.skip(8);
    assert(r.subrange(1, 5) =~= none_text());
    if r.len() > 5 {
        assert(r[5] == suffix[0]);
    }
    lemma_value_window(r);
    lemma_verify_step(q);
}

/// Saving the parameter file and reading it back gives the verification
/// setting written. When verification is to stay on, this holds of a file
/// that does not already turn it off (the writer leaves such a flag where it
/// is). When it is to be off, it holds of a file whose first verification
/// flag has a value or ends at white space or the end (the writer puts
/// `-Xverify:none` in its place), and of a file with no such flag in which
/// the writer finds a `-server` or a `java.exe` to add the flag to.
pub proof fn law_saved_setting_read_back(p: VMParams, text: Seq<char>, os: TargetOs)
    requires
        spec_save(p, text, os) is Ok,
        !p.verify_none ==> !spec_verify_none(text),
        p.verify_none ==> match xv_first(text) {
            Some(i) => xv_value(text.skip(i + 8)) is Some || text.len() == i + 8 || (text.len() > i + 8
                && is_unicode_space(text[i + 8])),
            None => writes_flag(text),
        },
    ensures
        spec_save(p, text, os) matches Ok(o) && spec_verify_none(o) == p.verify_none && (spec_load(o) matches Ok(q)
            ==> q.verify_none == p.verify_none),
{
    let manual = spec_write_manually(p, text);
    let t = spec_prepared(p, text);
    let o = render_from(t, p, manual, os)->0;
    let e = Seq::<char>::empty();
    assert(e + o =~= o);
    lemma_verify_rec(o);
    if !p.verify_none {
        lemma_render_keeps(t, p, os, e);
        assert(e + t =~= t);
        lemma_verify_rec(text);
    } else {
        match xv_first(text) {
            Some(i) => {
                lemma_render_keeps(t, p, os, e);
                assert(e + t =~= t);
                lemma_replaced_none(text, i);
            },
            None => {
                lemma_first(text);
                assert(e + text =~= text);
                lemma_render_writes(text, p, os, e);
            },
        }
    }
}

} // verus!
