//! What reading gives back of what writing wrote in the parameter file.

use vstd::prelude::*;

use crate::text::{
    ascii_words, eq_ignore_ascii_case, is_ascii_space, law_i32_format_then_parse, lemma_decimal, spec_format_i32,
    words_from,
};
use crate::vmparams::{
    chunk_len, prefixed, render_from, spec_flag_value, spec_load, spec_read_word, spec_read_words, spec_save,
    spec_prepared, spec_write_manually, has_flag, unit_text, value_len, value_text, verify_before_server, Found, LoadError, TargetOs,
    Unit, VMParams, Value, VERIFY_AFTER_JAVA, VERIFY_BEFORE_SERVER, VERIFY_BEFORE_SERVER_MACOS,
};

verus! {

/// Whether a word is one of the three size flags the reader takes.
pub open spec fn is_size_flag(w: Seq<char>) -> bool {
    has_flag(w, 'm', 's') || has_flag(w, 'm', 'x') || has_flag(w, 's', 's')
}

/// Whether a text holds no ASCII whitespace.
pub open spec fn no_space(w: Seq<char>) -> bool {
    forall|i: int| 0 <= i < w.len() ==> !is_ascii_space(#[trigger] w[i])
}

/// Whether three characters name one of the sizes, in any case.
pub open spec fn is_size_key(key: Seq<char>) -> bool {
    eq_ignore_ascii_case(key, seq!['x', 'm', 's']) || eq_ignore_ascii_case(key, seq!['x', 'm', 'x'])
        || eq_ignore_ascii_case(key, seq!['x', 's', 's'])
}

/// Whether no size flag begins, after whitespace, among the `n` characters
/// that follow the first character of `s`.
pub open spec fn no_flag_within(s: Seq<char>, n: int) -> bool {
    forall|k: int| 1 <= k <= n && k < s.len() && is_ascii_space(#[trigger] s[k - 1]) ==> !is_size_flag(s.skip(k))
}

/// Whether the writer, going through `s`, never takes a size flag along with
/// a `-` or a `j` before it: the characters it copies with a `-` (three, or
/// six before `ver` when it adds the verification flag by itself) and with a
/// `j` (seven) hold the start of no size flag, and every size it rewrites is
/// free of whitespace.
pub open spec fn keeps_flags(s: Seq<char>, manual: bool) -> bool
    decreases s.len(),
{
    if s.len() == 0 {
        true
    } else if s[0] == '-' {
        let r = s.skip(1);
        let n = chunk_len(r, 3);
        let key = r.take(n as int);
        let r2 = r.skip(n as int);
        if manual && eq_ignore_ascii_case(key, seq!['s', 'e', 'r']) {
            let n2 = chunk_len(r2, 3);
            no_flag_within(s, (n + n2) as int) && keeps_flags(r2.skip(n2 as int), manual)
        } else if is_size_key(key) {
            match value_len(r2) {
                None => true,
                Some(m) => no_space(r2.take(m as int)) && keeps_flags(r2.skip(m as int), manual),
            }
        } else {
            no_flag_within(s, n as int) && keeps_flags(r2, manual)
        }
    } else if s[0] == 'j' {
        let n = chunk_len(s.skip(1), 7);
        no_flag_within(s, n as int) && keeps_flags(s.skip(1).skip(n as int), manual)
    } else {
        keeps_flags(s.skip(1), manual)
    }
}

/// What the reader makes of the word begun with `cur` once it ends.
pub open spec fn flush(cur: Seq<char>, f: Found) -> Result<Found, LoadError> {
    if cur.len() > 0 {
        spec_read_word(cur, f)
    } else {
        Ok(f)
    }
}

/// Reading as a scan over the characters: `cur` is the word begun so far,
/// `f` the sizes found so far.
pub open spec fn scan(s: Seq<char>, cur: Seq<char>, f: Found) -> Result<Found, LoadError>
    decreases s.len(),
{
    if s.len() == 0 {
        flush(cur, f)
    } else if is_ascii_space(s[0]) {
        match flush(cur, f) {
            Ok(g) => scan(s.skip(1), seq![], g),
            Err(e) => Err(e),
        }
    } else {
        scan(s.skip(1), cur.push(s[0]), f)
    }
}

/// A word begun with `cur` and going on into `s` is no size flag.
pub open spec fn fresh(cur: Seq<char>, s: Seq<char>) -> bool {
    cur.len() == 0 || !is_size_flag(cur + s)
}

/// The sizes read from the written text against those read from the text
/// before: each found before is found after, and what is found after is the
/// size written.
pub open spec fn matched(fi: Found, fo: Found, p: VMParams) -> bool {
    &&& (fi.0 is Some ==> fo.0 is Some)
    &&& (fi.1 is Some ==> fo.1 is Some)
    &&& (fi.2 is Some ==> fo.2 is Some)
    &&& (fo.0 is Some ==> fo.0 == Some(p.heap_init))
    &&& (fo.1 is Some ==> fo.1 == Some(p.heap_max))
    &&& (fo.2 is Some ==> fo.2 == Some(p.thread_stack_size))
}

/// The reading states of the text before and after writing, at the same
/// point of the text before (`s` is what is left of it).
pub open spec fn in_step(s: Seq<char>, ci: Seq<char>, co: Seq<char>) -> bool {
    &&& no_space(ci)
    &&& no_space(co)
    &&& fresh(ci, s)
    &&& fresh(co, s)
    &&& (ci.len() == 0 ==> co.len() == 0)
}

proof fn lemma_read_words_unfold(w: Seq<char>, rest: Seq<Seq<char>>, f: Found)
    ensures
        spec_read_words(seq![w] + rest, f) == match spec_read_word(w, f) {
            Ok(g) => spec_read_words(rest, g),
            Err(e) => Err(e),
        },
{
    let ws = seq![w] + rest;
    assert(ws[0] == w);
    assert(ws.skip(1) =~= rest);
}

/// The scan reads the same as the reader's words.
proof fn lemma_scan_words(s: Seq<char>, cur: Seq<char>, f: Found)
    ensures
        scan(s, cur, f) == spec_read_words(words_from(s, cur), f),
    decreases s.len(),
{
    if s.len() == 0 {
        if cur.len() > 0 {
            lemma_read_words_unfold(cur, seq![], f);
            assert(seq![cur] + Seq::<Seq<char>>::empty() =~= seq![cur]);
        }
    } else if is_ascii_space(s[0]) {
        let rest = words_from(s.skip(1), seq![]);
        if cur.len() > 0 {
            lemma_read_words_unfold(cur, rest, f);
        } else {
            assert(Seq::<Seq<char>>::empty() + rest =~= rest);
        }
        match flush(cur, f) {
            Ok(g) => lemma_scan_words(s.skip(1), seq![], g),
            Err(_) => {},
        }
    } else {
        lemma_scan_words(s.skip(1), cur.push(s[0]), f);
    }
}

/// A size flag stays one whatever follows it.
proof fn lemma_flag_extends(w: Seq<char>, t: Seq<char>)
    ensures
        is_size_flag(w) ==> is_size_flag(w + t),
{
    if w.len() >= 4 {
        assert((w + t)[0] == w[0] && (w + t)[1] == w[1] && (w + t)[2] == w[2] && (w + t)[3] == w[3]);
    }
}

/// A word that goes on with the same character as another, when that
/// character cannot stand in a size flag after its first place, is a flag
/// exactly when the other is.
proof fn lemma_same_lead(cur: Seq<char>, x: Seq<char>, y: Seq<char>)
    requires
        cur.len() > 0,
        x.len() > 0,
        y.len() > 0,
        x[0] == y[0],
        x[0] != 'X' && x[0] != 'x' && x[0] != 'm' && x[0] != 's',
    ensures
        is_size_flag(cur + x) == is_size_flag(cur + y),
{
    let a = cur + x;
    let b = cur + y;
    if cur.len() >= 4 {
        assert(a[0] == b[0] && a[1] == b[1] && a[2] == b[2] && a[3] == b[3]);
    } else {
        assert(a[cur.len() as int] == x[0]);
        assert(b[cur.len() as int] == y[0]);
        assert(forall|i: int| 0 <= i < cur.len() ==> a[i] == b[i]);
    }
}

/// Scanning characters that neither start a size flag after whitespace nor
/// go on with one: the sizes stay as they are, and the word left open is no
/// size flag with what follows.
proof fn lemma_scan_plain(c: Seq<char>, sr: Seq<char>, t: Seq<char>, cur: Seq<char>, f: Found) -> (cur2: Seq<char>)
    requires
        no_space(cur),
        fresh(cur, c + sr),
        cur.len() == 0 && c.len() > 0 ==> !is_size_flag(c + sr),
        forall|k: int| 1 <= k < c.len() && is_ascii_space(#[trigger] c[k - 1]) ==> !is_size_flag((c + sr).skip(k)),
    ensures
        scan(c + t, cur, f) == scan(t, cur2, f),
        no_space(cur2),
        fresh(cur2, sr),
        cur2.len() == 0 <==> ((c.len() > 0 && is_ascii_space(c.last())) || (cur.len() == 0 && c.len() == 0)),
    decreases c.len(),
{
    if c.len() == 0 {
        assert(c + t =~= t);
        assert(c + sr =~= sr);
        cur
    } else {
        let u = c + t;
        let c1 = c.skip(1);
        assert(u[0] == c[0]);
        assert(u.skip(1) =~= c1 + t);
        assert((c + sr).skip(1) =~= c1 + sr);
        assert forall|k: int| 1 <= k < c1.len() && is_ascii_space(#[trigger] c1[k - 1]) implies !is_size_flag(
            (c1 + sr).skip(k),
        ) by {
            assert(c1[k - 1] == c[k]);
            assert(c[(k + 1) - 1] == c[k]);
            assert(is_ascii_space(c[(k + 1) - 1]));
            assert((c1 + sr).skip(k) =~= (c + sr).skip(k + 1));
        }
        if is_ascii_space(c[0]) {
            if cur.len() > 0 {
                lemma_flag_extends(cur, c + sr);
            }
            assert(flush(cur, f) == Ok::<Found, LoadError>(f));
            if c1.len() > 0 {
                assert(c[0] == c[1 - 1]);
                assert((c + sr).skip(1) == c1 + sr);
            }
            let r = lemma_scan_plain(c1, sr, t, seq![], f);
            if c1.len() > 0 {
                assert(c1.last() == c.last());
            }
            r
        } else {
            let cur1 = cur.push(c[0]);
            assert(cur1 + (c1 + sr) =~= cur + (c + sr));
            if cur.len() == 0 {
                assert(cur1 + (c1 + sr) =~= c + sr);
            }
            assert forall|i: int| 0 <= i < cur1.len() implies !is_ascii_space(#[trigger] cur1[i]) by {
                if i < cur.len() {
                    assert(cur1[i] == cur[i]);
                }
            }
            let r = lemma_scan_plain(c1, sr, t, cur1, f);
            if c1.len() > 0 {
                assert(c1.last() == c.last());
            }
            r
        }
    }
}

/// Scanning a word without whitespace only lengthens the word begun.
proof fn lemma_scan_word(w: Seq<char>, t: Seq<char>, cur: Seq<char>, f: Found)
    requires
        no_space(w),
    ensures
        scan(w + t, cur, f) == scan(t, cur + w, f),
    decreases w.len(),
{
    if w.len() == 0 {
        assert(w + t =~= t);
        assert(cur + w =~= cur);
    } else {
        let u = w + t;
        assert(u[0] == w[0]);
        assert(u.skip(1) =~= w.skip(1) + t);
        assert forall|i: int| 0 <= i < w.skip(1).len() implies !is_ascii_space(#[trigger] w.skip(1)[i]) by {
            assert(w.skip(1)[i] == w[i + 1]);
        }
        lemma_scan_word(w.skip(1), t, cur.push(w[0]), f);
        assert(cur.push(w[0]) + w.skip(1) =~= cur + w);
    }
}

/// Scanning a space ends the word begun.
proof fn lemma_scan_space(t: Seq<char>, cur: Seq<char>, f: Found)
    ensures
        scan(seq![' '] + t, cur, f) == match flush(cur, f) {
            Ok(g) => scan(t, seq![], g),
            Err(e) => Err(e),
        },
{
    let u = seq![' '] + t;
    assert(u[0] == ' ');
    assert(u.skip(1) =~= t);
}

/// What reading a written size flag gives.
proof fn lemma_written_flag_reads_back(key: Seq<char>, v: Value)
    requires
        key.len() == 3,
    ensures
        spec_flag_value(seq!['-'] + key + value_text(v)) == Ok::<Value, LoadError>(v),
{
    let w = seq!['-'] + key + value_text(v);
    law_i32_format_then_parse(v.amount);
    assert(w.last() == unit_text(v.unit)[0]);
    assert(w.subrange(4, w.len() - 1) =~= spec_format_i32(v.amount));
    match v.unit {
        Unit::Giga => {},
        Unit::Mega => {},
        Unit::Kilo => {},
    }
}

proof fn lemma_no_space_value(v: Value)
    ensures
        no_space(value_text(v)),
{
    let t = value_text(v);
    if v.amount < 0 {
        lemma_decimal((-(v.amount as int)) as nat);
    } else {
        lemma_decimal(v.amount as nat);
    }
    assert forall|i: int| 0 <= i < t.len() implies !is_ascii_space(#[trigger] t[i]) by {
        let d = spec_format_i32(v.amount);
        if i < d.len() {
            assert(t[i] == d[i]);
            if v.amount < 0 {
                if i > 0 {
                    assert(d[i] == crate::text::decimal((-(v.amount as int)) as nat)[i - 1]);
                }
            }
        } else {
            assert(t[i] == unit_text(v.unit)[i - d.len()]);
        }
    }
}

/// The size the writer puts after a size key.
pub open spec fn key_value(key: Seq<char>, p: VMParams) -> Value {
    if eq_ignore_ascii_case(key, seq!['x', 'm', 's']) {
        p.heap_init
    } else if eq_ignore_ascii_case(key, seq!['x', 'm', 'x']) {
        p.heap_max
    } else {
        p.thread_stack_size
    }
}

/// Reading the flag word before and after writing: when the word before is
/// a size flag, the word after is the same flag with the written size.
proof fn lemma_flag_word_pair(c: Seq<char>, key: Seq<char>, p: VMParams, fi: Found, fo: Found)
    requires
        key.len() == 3,
        is_size_key(key),
        c.len() >= 4,
        c[0] == '-',
        c.subrange(1, 4) == key,
        matched(fi, fo, p),
    ensures
        spec_read_word(c, fi) matches Ok(hi) ==> spec_read_word(seq!['-'] + key + value_text(key_value(key, p)), fo)
            matches Ok(ho) && matched(hi, ho, p),
{
    let v = key_value(key, p);
    let oc = seq!['-'] + key + value_text(v);
    lemma_written_flag_reads_back(key, v);
    assert(oc[0] == '-' && oc[1] == key[0] && oc[2] == key[1] && oc[3] == key[2]);
    assert(c[1] == key[0] && c[2] == key[1] && c[3] == key[2]);
    if has_flag(c, 'm', 's') {
        assert(eq_ignore_ascii_case(key, seq!['x', 'm', 's']));
    } else if has_flag(c, 'm', 'x') {
        assert(!eq_ignore_ascii_case(key, seq!['x', 'm', 's'])) by {
            assert(crate::text::ascii_lower(key[2]) != crate::text::ascii_lower('s'));
        }
        assert(eq_ignore_ascii_case(key, seq!['x', 'm', 'x']));
    } else if has_flag(c, 's', 's') {
        assert(!eq_ignore_ascii_case(key, seq!['x', 'm', 's'])) by {
            assert(crate::text::ascii_lower(key[1]) != crate::text::ascii_lower('m'));
        }
        assert(!eq_ignore_ascii_case(key, seq!['x', 'm', 'x'])) by {
            assert(crate::text::ascii_lower(key[1]) != crate::text::ascii_lower('m'));
        }
        assert(eq_ignore_ascii_case(key, seq!['x', 's', 's']));
    }
}

pub(crate) proof fn lemma_verify_words(os: TargetOs)
    ensures
        no_space(seq!['-', 'X', 'v', 'e', 'r', 'i', 'f', 'y', ':', 'n', 'o', 'n', 'e']),
        no_space(seq!['\\', '\\', 'n', '\\', 't', '-']),
        VERIFY_AFTER_JAVA@ == seq![' '] + seq!['-', 'X', 'v', 'e', 'r', 'i', 'f', 'y', ':', 'n', 'o', 'n', 'e'] + seq![' '],
        os != TargetOs::MacOs ==> seq!['-'] + verify_before_server(os) == seq!['-', 'X', 'v', 'e', 'r', 'i', 'f', 'y', ':', 'n', 'o', 'n', 'e']
            + seq![' '] + seq!['-'],
        os == TargetOs::MacOs ==> seq!['-'] + verify_before_server(os) == seq!['-', 'X', 'v', 'e', 'r', 'i', 'f', 'y', ':', 'n', 'o', 'n', 'e']
            + seq![' '] + seq!['\\', '\\', 'n', '\\', 't', '-'],
{
    reveal_strlit(" -Xverify:none ");
    reveal_strlit("Xverify:none -");
    reveal_strlit("Xverify:none \\\\n\\t-");
    let w = seq!['-', 'X', 'v', 'e', 'r', 'i', 'f', 'y', ':', 'n', 'o', 'n', 'e'];
    assert(VERIFY_AFTER_JAVA@ =~= seq![' '] + w + seq![' ']);
    assert(seq!['-'] + VERIFY_BEFORE_SERVER@ =~= w + seq![' '] + seq!['-']);
    assert(seq!['-'] + VERIFY_BEFORE_SERVER_MACOS@ =~= w + seq![' '] + seq!['\\', '\\', 'n', '\\', 't', '-']);
}


proof fn lemma_no_space_concat(a: Seq<char>, b: Seq<char>)
    requires
        no_space(a),
        no_space(b),
    ensures
        no_space(a + b),
{
    assert forall|i: int| 0 <= i < (a + b).len() implies !is_ascii_space(#[trigger] (a + b)[i]) by {
        if i < a.len() {
            assert((a + b)[i] == a[i]);
        } else {
            assert((a + b)[i] == b[i - a.len()]);
        }
    }
}

/// Characters equal to letters but for case hold no whitespace.
proof fn lemma_letters_no_space(key: Seq<char>, word: Seq<char>)
    requires
        eq_ignore_ascii_case(key, word),
        forall|i: int| 0 <= i < word.len() ==> 'a' <= #[trigger] word[i] && word[i] <= 'z',
    ensures
        no_space(key),
{
    assert forall|i: int| 0 <= i < key.len() implies !is_ascii_space(#[trigger] key[i]) by {
        assert(crate::text::ascii_lower(key[i]) == crate::text::ascii_lower(word[i]));
        assert('a' <= word[i] && word[i] <= 'z');
    }
}

/// A size flag's first four characters are a `-` and a size key.
proof fn lemma_flag_has_key(s: Seq<char>)
    requires
        is_size_flag(s),
    ensures
        s.len() >= 4,
        is_size_key(s.subrange(1, 4)),
{
    let key = s.subrange(1, 4);
    assert(key[0] == s[1] && key[1] == s[2] && key[2] == s[3]);
}

/// A size key holds no whitespace.
proof fn lemma_size_key_no_space(key: Seq<char>)
    requires
        is_size_key(key),
    ensures
        no_space(key),
{
    if eq_ignore_ascii_case(key, seq!['x', 'm', 's']) {
        lemma_letters_no_space(key, seq!['x', 'm', 's']);
    } else if eq_ignore_ascii_case(key, seq!['x', 'm', 'x']) {
        lemma_letters_no_space(key, seq!['x', 'm', 'x']);
    } else {
        lemma_letters_no_space(key, seq!['x', 's', 's']);
    }
}

/// What is owed once the text `s` is written as `o`: reading `o` finds, of
/// each size found in `s`, the written size.
pub open spec fn carried(s: Seq<char>, ci: Seq<char>, fi: Found, o: Seq<char>, co: Seq<char>, fo: Found, p: VMParams) -> bool {
    scan(s, ci, fi) matches Ok(hi) ==> (scan(o, co, fo) matches Ok(ho) && matched(hi, ho, p))
}

/// A step that writes the characters it takes unchanged.
proof fn lemma_plain_both(s: Seq<char>, n: int, o2: Seq<char>, ci: Seq<char>, fi: Found, co: Seq<char>, fo: Found) -> (r: (
    Seq<char>,
    Seq<char>,
))
    requires
        0 < n <= s.len(),
        in_step(s, ci, co),
        !is_size_flag(s),
        forall|k: int| 1 <= k < n && k < s.len() && is_ascii_space(#[trigger] s[k - 1]) ==> !is_size_flag(s.skip(k)),
    ensures
        scan(s, ci, fi) == scan(s.skip(n), r.0, fi),
        scan(s.take(n) + o2, co, fo) == scan(o2, r.1, fo),
        in_step(s.skip(n), r.0, r.1),
{
    let c = s.take(n);
    let sr = s.skip(n);
    assert(c + sr =~= s);
    assert forall|k: int| 1 <= k < c.len() && is_ascii_space(#[trigger] c[k - 1]) implies !is_size_flag(
        (c + sr).skip(k),
    ) by {
        assert(c[k - 1] == s[k - 1]);
    }
    let ci2 = lemma_scan_plain(c, sr, sr, ci, fi);
    let co2 = lemma_scan_plain(c, sr, o2, co, fo);
    (ci2, co2)
}

/// Reading the written flag word keeps what is owed.
proof fn lemma_written_read(key: Seq<char>, p: VMParams, fi: Found, fo: Found)
    requires
        key.len() == 3,
        is_size_key(key),
        matched(fi, fo, p),
    ensures
        spec_read_word(seq!['-'] + key + value_text(key_value(key, p)), fo) matches Ok(ho) && matched(fi, ho, p),
{
    let v = key_value(key, p);
    let oc = seq!['-'] + key + value_text(v);
    lemma_written_flag_reads_back(key, v);
    assert(oc[0] == '-' && oc[1] == key[0] && oc[2] == key[1] && oc[3] == key[2]);
    if has_flag(oc, 'm', 's') {
        assert(eq_ignore_ascii_case(key, seq!['x', 'm', 's']));
    } else if has_flag(oc, 'm', 'x') {
        assert(!eq_ignore_ascii_case(key, seq!['x', 'm', 's'])) by {
            assert(crate::text::ascii_lower(key[2]) != crate::text::ascii_lower('s'));
        }
        assert(eq_ignore_ascii_case(key, seq!['x', 'm', 'x']));
    } else if has_flag(oc, 's', 's') {
        assert(!eq_ignore_ascii_case(key, seq!['x', 'm', 's'])) by {
            assert(crate::text::ascii_lower(key[1]) != crate::text::ascii_lower('m'));
        }
        assert(!eq_ignore_ascii_case(key, seq!['x', 'm', 'x'])) by {
            assert(crate::text::ascii_lower(key[1]) != crate::text::ascii_lower('m'));
        }
        assert(eq_ignore_ascii_case(key, seq!['x', 's', 's']));
    }
}

/// Ending the words that hold a rewritten size, before and after writing.
proof fn lemma_flush_size(
    s: Seq<char>,
    c: Seq<char>,
    key: Seq<char>,
    p: VMParams,
    ci: Seq<char>,
    fi: Found,
    co: Seq<char>,
    fo: Found,
)
    requires
        key.len() == 3,
        is_size_key(key),
        c.len() >= 4,
        c[0] == '-',
        c.subrange(1, 4) == key,
        s.len() >= c.len(),
        s.take(c.len() as int) == c,
        in_step(s, ci, co),
        matched(fi, fo, p),
    ensures
        flush(ci + c, fi) matches Ok(hi) ==> flush(co + (seq!['-'] + key + value_text(key_value(key, p))), fo) matches Ok(
            ho,
        ) && matched(hi, ho, p),
{
    let oc = seq!['-'] + key + value_text(key_value(key, p));
    assert(oc[0] == '-');
    assert(s[0] == c[0]);
    if ci.len() == 0 {
        assert(ci + c =~= c);
        assert(co + oc =~= oc);
        lemma_flag_word_pair(c, key, p, fi, fo);
    } else {
        assert(!is_size_flag(ci + s));
        assert(ci + s =~= (ci + c) + s.skip(c.len() as int));
        lemma_flag_extends(ci + c, s.skip(c.len() as int));
        assert(flush(ci + c, fi) == Ok::<Found, LoadError>(fi));
        if co.len() == 0 {
            assert(co + oc =~= oc);
            lemma_written_read(key, p, fi, fo);
        } else {
            lemma_same_lead(co, oc, s);
            lemma_flag_extends(co + oc, Seq::<char>::empty());
            assert(co + oc + Seq::<char>::empty() =~= co + oc);
        }
    }
}


/// The words the writer adds to turn verification off.
spec fn verify_word() -> Seq<char> {
    seq!['-', 'X', 'v', 'e', 'r', 'i', 'f', 'y', ':', 'n', 'o', 'n', 'e']
}

/// Writing keeps what is owed, step by step of the writer.
proof fn lemma_round(s: Seq<char>, p: VMParams, manual: bool, os: TargetOs, ci: Seq<char>, fi: Found, co: Seq<char>, fo: Found)
    requires
        keeps_flags(s, manual),
        render_from(s, p, manual, os) is Some,
        in_step(s, ci, co),
        matched(fi, fo, p),
    ensures
        carried(s, ci, fi, render_from(s, p, manual, os)->0, co, fo, p),
    decreases s.len(), 2int,
{
    if s.len() == 0 {
        assert(ci + s =~= ci);
        assert(co + s =~= co);
    } else if s[0] == '-' {
        lemma_round_dash(s, p, manual, os, ci, fi, co, fo);
    } else if s[0] == 'j' {
        lemma_round_j(s, p, manual, os, ci, fi, co, fo);
    } else {
        let o2 = render_from(s.skip(1), p, manual, os)->0;
        assert(s.take(1) =~= seq![s[0]]);
        let (ci2, co2) = lemma_plain_both(s, 1, o2, ci, fi, co, fo);
        lemma_round(s.skip(1), p, manual, os, ci2, fi, co2, fo);
    }
}

#[verifier::spinoff_prover]
#[verifier::rlimit(60)]
proof fn lemma_round_j(s: Seq<char>, p: VMParams, manual: bool, os: TargetOs, ci: Seq<char>, fi: Found, co: Seq<char>, fo: Found)
    requires
        s.len() > 0,
        s[0] == 'j',
        keeps_flags(s, manual),
        render_from(s, p, manual, os) is Some,
        in_step(s, ci, co),
        matched(fi, fo, p),
    ensures
        carried(s, ci, fi, render_from(s, p, manual, os)->0, co, fo, p),
    decreases s.len(), 1int,
{
    let r = s.skip(1);
    let n = chunk_len(r, 7) as int;
    let c7 = r.take(n);
    let rest = r.skip(n);
    assert(rest =~= s.skip(1 + n));
    let o2 = render_from(rest, p, manual, os)->0;
    let java = seq!['a', 'v', 'a', '.', 'e', 'x', 'e'];
    if c7 != java || !manual {
        assert(s.take(1 + n) =~= seq!['j'] + c7 + Seq::<char>::empty());
        let (ci2, co2) = lemma_plain_both(s, 1 + n, o2, ci, fi, co, fo);
        lemma_round(rest, p, manual, os, ci2, fi, co2, fo);
    } else {
        lemma_verify_words(os);
        let c = seq!['j'] + c7;
        assert(c =~= s.take(8));
        assert(s =~= c + rest);
        let w = verify_word();
        assert(no_space(c)) by {
            assert forall|i: int| 0 <= i < c.len() implies !is_ascii_space(#[trigger] c[i]) by {
                assert(c == seq!['j', 'a', 'v', 'a', '.', 'e', 'x', 'e']);
            }
        }
        lemma_scan_word(c, rest, ci, fi);
        let ci2 = ci + c;
        assert(ci2 + rest =~= ci + s);
        lemma_no_space_concat(ci, c);
        let o = render_from(s, p, manual, os)->0;
        assert(o =~= c + (seq![' '] + (w + (seq![' '] + o2))));
        lemma_scan_word(c, seq![' '] + (w + (seq![' '] + o2)), co, fo);
        lemma_scan_space(w + (seq![' '] + o2), co + c, fo);
        if co.len() == 0 {
            assert(co + c =~= c);
        } else {
            lemma_same_lead(co, c, s);
            lemma_flag_extends(co + c, Seq::<char>::empty());
            assert(co + c + Seq::<char>::empty() =~= co + c);
        }
        assert(flush(co + c, fo) == Ok::<Found, LoadError>(fo));
        lemma_scan_word(w, seq![' '] + o2, seq![], fo);
        assert(Seq::<char>::empty() + w =~= w);
        lemma_scan_space(o2, w, fo);
        assert(flush(w, fo) == Ok::<Found, LoadError>(fo));
        lemma_round(rest, p, manual, os, ci2, fi, seq![], fo);
    }
}


#[verifier::spinoff_prover]
#[verifier::rlimit(80)]
proof fn lemma_round_dash(s: Seq<char>, p: VMParams, manual: bool, os: TargetOs, ci: Seq<char>, fi: Found, co: Seq<char>, fo: Found)
    requires
        s.len() > 0,
        s[0] == '-',
        keeps_flags(s, manual),
        render_from(s, p, manual, os) is Some,
        in_step(s, ci, co),
        matched(fi, fo, p),
    ensures
        carried(s, ci, fi, render_from(s, p, manual, os)->0, co, fo, p),
    decreases s.len(), 1int,
{
    let r = s.skip(1);
    let n = chunk_len(r, 3) as int;
    let key = r.take(n);
    let r2 = r.skip(n);
    assert(r2 =~= s.skip(1 + n));
    if manual && eq_ignore_ascii_case(key, seq!['s', 'e', 'r']) {
        lemma_round_server(s, p, manual, os, ci, fi, co, fo);
    } else if is_size_key(key) {
        lemma_round_size(s, p, manual, os, ci, fi, co, fo);
    } else {
        let o2 = render_from(r2, p, manual, os)->0;
        assert(s.take(1 + n) =~= seq!['-'] + key);
        if is_size_flag(s) {
            lemma_flag_has_key(s);
            assert(key =~= s.subrange(1, 4));
        }
        let (ci2, co2) = lemma_plain_both(s, 1 + n, o2, ci, fi, co, fo);
        lemma_round(r2, p, manual, os, ci2, fi, co2, fo);
    }
}

#[verifier::spinoff_prover]
#[verifier::rlimit(80)]
proof fn lemma_round_server(s: Seq<char>, p: VMParams, manual: bool, os: TargetOs, ci: Seq<char>, fi: Found, co: Seq<char>, fo: Found)
    requires
        s.len() > 0,
        s[0] == '-',
        manual,
        eq_ignore_ascii_case(s.skip(1).take(chunk_len(s.skip(1), 3) as int), seq!['s', 'e', 'r']),
        keeps_flags(s, manual),
        render_from(s, p, manual, os) is Some,
        in_step(s, ci, co),
        matched(fi, fo, p),
    ensures
        carried(s, ci, fi, render_from(s, p, manual, os)->0, co, fo, p),
    decreases s.len(), 0int,
{
    let r = s.skip(1);
    let key = r.take(3);
    assert(chunk_len(r, 3) == 3);
    let r2 = r.skip(3);
    let n2 = chunk_len(r2, 3) as int;
    let rem = r2.take(n2);
    let r3 = r2.skip(n2);
    assert(r3 =~= s.skip(4 + n2));
    let o3 = render_from(r3, p, manual, os)->0;
    assert(crate::text::ascii_lower(key[1]) == 'e');
    assert(s[2] == key[1]);
    assert(!is_size_flag(s));
    if !eq_ignore_ascii_case(rem, seq!['v', 'e', 'r']) {
        assert(s.take(4 + n2) =~= seq!['-'] + Seq::<char>::empty() + key + rem);
        let (ci2, co2) = lemma_plain_both(s, 4 + n2, o3, ci, fi, co, fo);
        lemma_round(r3, p, manual, os, ci2, fi, co2, fo);
    } else {
        lemma_verify_words(os);
        lemma_letters_no_space(key, seq!['s', 'e', 'r']);
        lemma_letters_no_space(rem, seq!['v', 'e', 'r']);
        let c = seq!['-'] + key + rem;
        assert(c =~= s.take(7));
        assert(s =~= c + r3);
        assert(no_space(seq!['-']));
        lemma_no_space_concat(seq!['-'], key);
        lemma_no_space_concat(seq!['-'] + key, rem);
        // the text before: one word goes on
        lemma_scan_word(c, r3, ci, fi);
        let ci2 = ci + c;
        assert(ci2 + r3 =~= ci + s);
        lemma_no_space_concat(ci, c);
        // the text after: the verification flag, a space, then the rest of the word
        let w = verify_word();
        let tail = if os == TargetOs::MacOs {
            seq!['\\', '\\', 'n', '\\', 't', '-']
        } else {
            seq!['-']
        };
        let b = tail + key + rem;
        lemma_no_space_concat(tail, key);
        lemma_no_space_concat(tail + key, rem);
        let o = render_from(s, p, manual, os)->0;
        assert(o =~= w + (seq![' '] + (b + o3)));
        lemma_scan_word(w, seq![' '] + (b + o3), co, fo);
        lemma_scan_space(b + o3, co + w, fo);
        if co.len() == 0 {
            assert(co + w =~= w);
        } else {
            lemma_same_lead(co, w, s);
            lemma_flag_extends(co + w, Seq::<char>::empty());
            assert(co + w + Seq::<char>::empty() =~= co + w);
        }
        assert(flush(co + w, fo) == Ok::<Found, LoadError>(fo));
        lemma_scan_word(b, o3, seq![], fo);
        assert(Seq::<char>::empty() + b =~= b);
        assert(b[2] == key[1] || b[0] == '\\');
        assert(!is_size_flag(b + r3));
        lemma_round(r3, p, manual, os, ci2, fi, b, fo);
    }
}

#[verifier::spinoff_prover]
#[verifier::rlimit(100)]
proof fn lemma_round_size(s: Seq<char>, p: VMParams, manual: bool, os: TargetOs, ci: Seq<char>, fi: Found, co: Seq<char>, fo: Found)
    requires
        s.len() > 0,
        s[0] == '-',
        !(manual && eq_ignore_ascii_case(s.skip(1).take(chunk_len(s.skip(1), 3) as int), seq!['s', 'e', 'r'])),
        is_size_key(s.skip(1).take(chunk_len(s.skip(1), 3) as int)),
        keeps_flags(s, manual),
        render_from(s, p, manual, os) is Some,
        in_step(s, ci, co),
        matched(fi, fo, p),
    ensures
        carried(s, ci, fi, render_from(s, p, manual, os)->0, co, fo, p),
    decreases s.len(), 0int,
{
    let r = s.skip(1);
    let key = r.take(3);
    assert(chunk_len(r, 3) == 3);
    let r2 = r.skip(3);
    let m = (value_len(r2)->0) as int;
    let r3 = r2.skip(m);
    let v = key_value(key, p);
    let oc = seq!['-'] + key + value_text(v);
    let o3 = render_from(r3, p, manual, os)->0;
    let o = render_from(s, p, manual, os)->0;
    assert(o =~= oc + o3);
    let c = seq!['-'] + key + r2.take(m);
    assert(c =~= s.take(4 + m));
    assert(s =~= c + r3);
    assert(c.subrange(1, 4) =~= key);
    lemma_size_key_no_space(key);
    assert(no_space(seq!['-']));
    lemma_no_space_concat(seq!['-'], key);
    lemma_no_space_concat(seq!['-'] + key, r2.take(m));
    lemma_no_space_value(v);
    lemma_no_space_concat(seq!['-'] + key, value_text(v));
    lemma_scan_word(c, r3, ci, fi);
    lemma_scan_word(oc, o3, co, fo);
    lemma_flush_size(s, c, key, p, ci, fi, co, fo);
    if r3.len() == 0 {
        assert(o3 =~= Seq::<char>::empty());
    } else {
        assert(r3[0] == r2[m]);
        assert(r3[0] == ' ');
        assert(keeps_flags(r3, manual));
        let r4 = r3.skip(1);
        assert(keeps_flags(r4, manual));
        assert(r3 =~= seq![' '] + r4);
        let o4 = render_from(r4, p, manual, os)->0;
        assert(o3 =~= seq![' '] + o4);
        lemma_scan_space(r4, ci + c, fi);
        lemma_scan_space(o4, co + oc, fo);
        match flush(ci + c, fi) {
            Ok(hi) => {
                let ho = flush(co + oc, fo)->Ok_0;
                lemma_round(r4, p, manual, os, seq![], hi, seq![], ho);
            },
            Err(_) => {},
        }
    }
}


/// Writing sizes into the parameter file and reading it back gives the
/// sizes written. This holds of any file whose text, as the writer goes
/// through it (`spec_prepared`: with an existing verification flag set to
/// `none` when verification is to be off), reads without error, whatever
/// whitespace parts its words, as long as the characters the writer copies
/// along with a `-` or a `j` hold the start of no size flag (`keeps_flags`,
/// whether or not the writer adds the verification flag by itself), and
/// whenever the writing succeeds.
pub proof fn law_saved_sizes_read_back(p: VMParams, text: Seq<char>, os: TargetOs)
    requires
        keeps_flags(spec_prepared(p, text), true),
        keeps_flags(spec_prepared(p, text), false),
        spec_load(spec_prepared(p, text)) is Ok,
        spec_save(p, text, os) is Ok,
    ensures
        spec_save(p, text, os) matches Ok(o) && (spec_load(o) matches Ok(q) && q.heap_init == p.heap_init
            && q.heap_max == p.heap_max && q.thread_stack_size == p.thread_stack_size),
{
    let manual = spec_write_manually(p, text);
    let t = spec_prepared(p, text);
    let o = render_from(t, p, manual, os)->0;
    let init: Found = (None, None, None);
    assert(no_space(Seq::<char>::empty()));
    lemma_round(t, p, manual, os, seq![], init, seq![], init);
    lemma_scan_words(t, seq![], init);
    lemma_scan_words(o, seq![], init);
}

} // verus!
