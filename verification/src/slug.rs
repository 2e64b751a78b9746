//! Project slugs: short lower-case names made of ASCII letters, digits and
//! single dashes.

use vstd::prelude::*;
use crate::text::{chars_of, decimal, string_of, u64_to_decimal};
use crate::vm::{ascii_lower, is_ascii_alnum};

verus! {

/// A character that separates words in a slug.
pub open spec fn slug_sep(c: char) -> bool {
    c == '-' || c == '_' || c == ' ' || c == '\t' || c == '\n' || c == '\r'
}

/// The slug characters built from `s`, and whether the last one is a dash
/// that a separator put there: letters and digits are kept lower-cased, a
/// run of separators becomes one dash (none at the start), the rest is
/// dropped.
pub open spec fn slug_scan(s: Seq<char>) -> (Seq<char>, bool)
    decreases s.len(),
{
    if s.len() == 0 {
        (Seq::empty(), false)
    } else {
        let (out, prev_dash) = slug_scan(s.drop_last());
        let c = ascii_lower(s.last());
        if is_ascii_alnum(c) {
            (out.push(c), false)
        } else if slug_sep(c) {
            if !prev_dash && out.len() > 0 {
                (out.push('-'), true)
            } else {
                (out, prev_dash)
            }
        } else {
            (out, prev_dash)
        }
    }
}

/// `s` without its trailing dashes.
pub open spec fn strip_dashes(s: Seq<char>) -> Seq<char>
    decreases s.len(),
{
    if s.len() > 0 && s.last() == '-' {
        strip_dashes(s.drop_last())
    } else {
        s
    }
}

/// The slug of `raw`: scanned, without trailing dashes, and cut to 36
/// characters (again without trailing dashes).
pub open spec fn slug_spec(raw: Seq<char>) -> Seq<char> {
    let s = strip_dashes(slug_scan(raw).0);
    if s.len() > 36 {
        strip_dashes(s.take(36))
    } else {
        s
    }
}

fn strip_dashes_vec(v: &mut Vec<char>)
    ensures
        final(v)@ == strip_dashes(old(v)@),
{
    while v.len() > 0 && v[v.len() - 1] == '-'
        invariant
            strip_dashes(v@) == strip_dashes(old(v)@),
        decreases v.len(),
    {
        let ghost before = v@;
        v.pop();
        assert(v@ =~= before.drop_last());
    }
}

/// The slug of a text (see `slug_spec`).
pub fn normalize_slug(raw: &str) -> (r: String)
    ensures
        r@ == slug_spec(raw@),
{
    let v = chars_of(raw);
    let mut out: Vec<char> = Vec::new();
    let mut prev_dash = false;
    let mut i: usize = 0;
    assert(v@.take(0) =~= Seq::<char>::empty());
    while i < v.len()
        invariant
            i <= v.len(),
            (out@, prev_dash) == slug_scan(v@.take(i as int)),
        decreases v.len() - i,
    {
        assert(v@.take(i + 1).drop_last() =~= v@.take(i as int));
        let ch = v[i];
        let c = if 'A' <= ch && ch <= 'Z' { ((ch as u8) + 32) as char } else { ch };
        assert(c == ascii_lower(v@.take(i + 1).last()));
        if ('a' <= c && c <= 'z') || ('0' <= c && c <= '9') || ('A' <= c && c <= 'Z') {
            out.push(c);
            prev_dash = false;
        } else if c == '-' || c == '_' || c == ' ' || c == '\t' || c == '\n' || c == '\r' {
            if !prev_dash && out.len() > 0 {
                out.push('-');
                prev_dash = true;
            }
        }
        i += 1;
    }
    assert(v@.take(v.len() as int) =~= v@);
    strip_dashes_vec(&mut out);
    if out.len() > 36 {
        out.truncate(36);
        strip_dashes_vec(&mut out);
    }
    string_of(out.as_slice())
}

/// The slug for a project: that of its name and goal, or `project-<now>`
/// when that is empty.
pub open spec fn fallback_slug_spec(name: Seq<char>, goal: Seq<char>, now: u64) -> Seq<char> {
    let s = slug_spec(name + " "@ + goal);
    if s.len() == 0 {
        "project-"@ + decimal(now as nat)
    } else {
        s
    }
}

/// The slug for a project from its name and goal (see `fallback_slug_spec`).
pub fn fallback_slug(name: &str, goal: &str, now_unix: u64) -> (r: String)
    ensures
        r@ == fallback_slug_spec(name@, goal@, now_unix),
{
    let mut joined = String::from_str(name);
    joined.append(" ");
    joined.append(goal);
    let s = normalize_slug(joined.as_str());
    if chars_of(s.as_str()).len() == 0 {
        let mut p = String::from_str("project-");
        p.append(u64_to_decimal(now_unix).as_str());
        p
    } else {
        s
    }
}

/// A slug character: lower-case ASCII letter, digit, or dash.
pub open spec fn slug_char(c: char) -> bool {
    ('a' <= c && c <= 'z') || ('0' <= c && c <= '9') || c == '-'
}

/// Slug characters, not starting with a dash, without two dashes in a row.
pub open spec fn slug_body(s: Seq<char>) -> bool {
    &&& forall|i: int| 0 <= i < s.len() ==> slug_char(#[trigger] s[i])
    &&& (s.len() > 0 ==> s[0] != '-')
    &&& forall|i: int| 0 <= i < s.len() - 1 ==> !(#[trigger] s[i] == '-' && s[i + 1] == '-')
}

/// A well-formed slug: a `slug_body` of at most 36 characters that does
/// not end with a dash.
pub open spec fn slug_well_formed(s: Seq<char>) -> bool {
    &&& slug_body(s)
    &&& s.len() <= 36
    &&& (s.len() > 0 ==> s.last() != '-')
}

proof fn lemma_scan_body(s: Seq<char>)
    ensures
        slug_body(slug_scan(s).0),
        slug_scan(s).1 == (slug_scan(s).0.len() > 0 && slug_scan(s).0.last() == '-'),
    decreases s.len(),
{
    if s.len() > 0 {
        lemma_scan_body(s.drop_last());
        let (out, pd) = slug_scan(s.drop_last());
        let c = ascii_lower(s.last());
        let r = slug_scan(s).0;
        if is_ascii_alnum(c) {
            assert(slug_char(c));
            assert forall|i: int| 0 <= i < r.len() - 1 implies !(#[trigger] r[i] == '-' && r[i + 1] == '-') by {
                if i < out.len() - 1 {
                    assert(r[i] == out[i] && r[i + 1] == out[i + 1]);
                }
            }
            assert forall|i: int| 0 <= i < r.len() implies slug_char(#[trigger] r[i]) by {
                if i < out.len() {
                    assert(r[i] == out[i]);
                }
            }
        } else if slug_sep(c) && !pd && out.len() > 0 {
            assert forall|i: int| 0 <= i < r.len() - 1 implies !(#[trigger] r[i] == '-' && r[i + 1] == '-') by {
                if i < out.len() - 1 {
                    assert(r[i] == out[i] && r[i + 1] == out[i + 1]);
                } else {
                    assert(r[i] == out.last());
                }
            }
            assert forall|i: int| 0 <= i < r.len() implies slug_char(#[trigger] r[i]) by {
                if i < out.len() {
                    assert(r[i] == out[i]);
                }
            }
        }
    }
}

proof fn lemma_prefix_body(s: Seq<char>, n: int)
    requires
        slug_body(s),
        0 <= n <= s.len(),
    ensures
        slug_body(s.take(n)),
{
    let t = s.take(n);
    assert forall|i: int| 0 <= i < t.len() - 1 implies !(#[trigger] t[i] == '-' && t[i + 1] == '-') by {
        assert(t[i] == s[i] && t[i + 1] == s[i + 1]);
    }
    assert forall|i: int| 0 <= i < t.len() implies slug_char(#[trigger] t[i]) by {
        assert(t[i] == s[i]);
    }
}

proof fn lemma_strip_dashes(s: Seq<char>)
    requires
        slug_body(s),
    ensures
        slug_body(strip_dashes(s)),
        strip_dashes(s).len() <= s.len(),
        strip_dashes(s).len() > 0 ==> strip_dashes(s).last() != '-',
    decreases s.len(),
{
    if s.len() > 0 && s.last() == '-' {
        lemma_prefix_body(s, s.len() - 1);
        assert(s.take(s.len() - 1) =~= s.drop_last());
        lemma_strip_dashes(s.drop_last());
    }
}

/// Every slug is well formed: at most 36 lower-case letters, digits and
/// single dashes, neither starting nor ending with a dash.
pub proof fn slug_is_well_formed(raw: Seq<char>)
    ensures
        slug_well_formed(slug_spec(raw)),
{
    lemma_scan_body(raw);
    let s = strip_dashes(slug_scan(raw).0);
    lemma_strip_dashes(slug_scan(raw).0);
    if s.len() > 36 {
        lemma_prefix_body(s, 36);
        lemma_strip_dashes(s.take(36));
    }
}


/// The ASCII letters and digits of `s`, lower-cased, in order.
pub open spec fn alnum_chars(s: Seq<char>) -> Seq<char>
    decreases s.len(),
{
    if s.len() == 0 {
        Seq::empty()
    } else if is_ascii_alnum(s.last()) {
        alnum_chars(s.drop_last()).push(ascii_lower(s.last()))
    } else {
        alnum_chars(s.drop_last())
    }
}

/// `s` without its dashes.
pub open spec fn no_dashes(s: Seq<char>) -> Seq<char>
    decreases s.len(),
{
    if s.len() == 0 {
        Seq::empty()
    } else if s.last() == '-' {
        no_dashes(s.drop_last())
    } else {
        no_dashes(s.drop_last()).push(s.last())
    }
}

proof fn lemma_lower_alnum(c: char)
    ensures
        is_ascii_alnum(ascii_lower(c)) == is_ascii_alnum(c),
        is_ascii_alnum(c) ==> ascii_lower(c) != '-',
{
}

proof fn lemma_scan_letters(s: Seq<char>)
    ensures
        no_dashes(slug_scan(s).0) == alnum_chars(s),
    decreases s.len(),
{
    if s.len() > 0 {
        lemma_scan_letters(s.drop_last());
        lemma_lower_alnum(s.last());
        let (out, pd) = slug_scan(s.drop_last());
        let c = ascii_lower(s.last());
        if is_ascii_alnum(c) {
            assert(out.push(c).drop_last() =~= out);
        } else if slug_sep(c) && !pd && out.len() > 0 {
            assert(out.push('-').drop_last() =~= out);
        }
    }
}

proof fn lemma_strip_keeps_letters(s: Seq<char>)
    ensures
        no_dashes(strip_dashes(s)) == no_dashes(s),
    decreases s.len(),
{
    if s.len() > 0 && s.last() == '-' {
        lemma_strip_keeps_letters(s.drop_last());
    }
}

proof fn lemma_take_letters_prefix(s: Seq<char>, n: int)
    requires
        0 <= n <= s.len(),
    ensures
        no_dashes(s.take(n)).is_prefix_of(no_dashes(s)),
    decreases s.len() - n,
{
    if n == s.len() {
        assert(s.take(n) =~= s);
    } else {
        assert(s.drop_last().take(n) =~= s.take(n));
        lemma_take_letters_prefix(s.drop_last(), n);
        let a = no_dashes(s.take(n));
        let b = no_dashes(s.drop_last());
        if s.last() != '-' {
            assert(no_dashes(s) == b.push(s.last()));
            assert(b.push(s.last()).subrange(0, a.len() as int) =~= b.subrange(0, a.len() as int));
        }
    }
}

proof fn lemma_strip_short(t: Seq<char>)
    requires
        slug_body(t),
    ensures
        strip_dashes(t).len() + 1 >= t.len(),
{
    if t.len() > 0 && t.last() == '-' {
        let u = t.drop_last();
        assert(strip_dashes(t) == strip_dashes(u));
        if u.len() > 0 {
            assert(!(t[t.len() - 2] == '-' && t[t.len() - 1] == '-'));
            assert(u.last() == t[t.len() - 2]);
            assert(strip_dashes(u) == u);
        } else {
            assert(t[0] != '-');
        }
    }
}

/// A slug keeps the letters and digits of its text: without its dashes it
/// is a prefix of the text's ASCII letters and digits, lower-cased and in
/// order, and all of them when the slug is shorter than 35 characters (it
/// was not cut at 36). Separators only become dashes; nothing else is kept.
pub proof fn slug_keeps_letters_and_digits(raw: Seq<char>)
    ensures
        no_dashes(slug_spec(raw)).is_prefix_of(alnum_chars(raw)),
        slug_spec(raw).len() < 35 ==> no_dashes(slug_spec(raw)) == alnum_chars(raw),
{
    lemma_scan_letters(raw);
    lemma_scan_body(raw);
    let sc = slug_scan(raw).0;
    let s = strip_dashes(sc);
    lemma_strip_keeps_letters(sc);
    lemma_strip_dashes(sc);
    if s.len() > 36 {
        let t = s.take(36);
        lemma_take_letters_prefix(s, 36);
        lemma_strip_keeps_letters(t);
        lemma_prefix_body(s, 36);
        lemma_strip_short(t);
    } else {
        assert(no_dashes(s).subrange(0, no_dashes(s).len() as int) =~= no_dashes(s));
    }
}

} // verus!
