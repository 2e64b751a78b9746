//! Language packs of the web console: their file names, the checks each
//! pack must pass, and the checks across all packs.

use vstd::prelude::*;
use crate::text::{
    bytes_exceed, chars_eq, chars_of, chars_slice, chars_start_with, ends_with, lex_lt, lex_order, lemma_lex_total,
    lemma_lex_trans, starts_with, str_eq, string_of, strings_view, trim_chars, trim_seq, utf8_len,
};

verus! {

/// The version of the language input format this software reads.
pub const LANGUAGE_INPUTER_VERSION: &'static str = "00003";

/// The prefix of language pack file names.
pub const LANGUAGE_PACK_PREFIX: &'static str = "KACF_";

/// A language code character: ASCII letter or digit, `-` or `_`.
pub open spec fn code_char(c: char) -> bool {
    ('a' <= c && c <= 'z') || ('A' <= c && c <= 'Z') || ('0' <= c && c <= '9') || c == '-' || c == '_'
}

/// A usable language code: trimmed, 1 to 32 bytes of code characters.
pub open spec fn language_code_spec(raw: Seq<char>) -> Option<Seq<char>> {
    let c = trim_seq(raw);
    if c.len() == 0 || utf8_len(c) > 32 {
        None
    } else if forall|i: int| 0 <= i < c.len() ==> code_char(#[trigger] c[i]) {
        Some(c)
    } else {
        None
    }
}

fn code_of(c: &Vec<char>) -> (r: Option<String>)
    ensures
        match language_code_spec(c@) {
            Some(s) => r matches Some(x) && x@ == s,
            None => r is None,
        },
{
    let t = trim_chars(c);
    if t.len() == 0 || bytes_exceed(&t, 32) {
        return None;
    }
    let mut i: usize = 0;
    while i < t.len()
        invariant
            i <= t.len(),
            t@ == trim_seq(c@),
            forall|j: int| 0 <= j < i ==> code_char(#[trigger] t@[j]),
        decreases t.len() - i,
    {
        let ch = t[i];
        if !(('a' <= ch && ch <= 'z') || ('A' <= ch && ch <= 'Z') || ('0' <= ch && ch <= '9') || ch == '-' || ch == '_') {
            assert(!code_char(t@[i as int]));
            return None;
        }
        i += 1;
    }
    Some(string_of(t.as_slice()))
}

/// A language code as typed (see `language_code_spec`).
pub fn sanitize_language_code(raw: &str) -> (r: Option<String>)
    ensures
        match language_code_spec(raw@) {
            Some(s) => r matches Some(x) && x@ == s,
            None => r is None,
        },
{
    code_of(&chars_of(raw))
}

/// The index of the last `c` in `s`, if any.
pub open spec fn last_index_of(s: Seq<char>, c: char) -> Option<int>
    decreases s.len(),
{
    if s.len() == 0 {
        None
    } else if s.last() == c {
        Some(s.len() - 1)
    } else {
        last_index_of(s.drop_last(), c)
    }
}

/// The code and version a pack file name gives: `KACF_<code>_<ver>.json`
/// with a usable code and a five-digit version.
pub open spec fn pack_filename_spec(name: Seq<char>) -> Option<(Seq<char>, Seq<char>)> {
    if !ends_with(name, ".json"@) || !starts_with(name, "KACF_"@) || name.len() < 10 {
        None
    } else {
        let stem = name.subrange(5, name.len() - 5);
        match last_index_of(stem, '_') {
            None => None,
            Some(k) => {
                let ver = stem.skip(k + 1);
                match language_code_spec(stem.take(k)) {
                    None => None,
                    Some(code) => if ver.len() == 5 && (forall|i: int| 0 <= i < 5 ==> '0' <= #[trigger] ver[i] && ver[i] <= '9') {
                        Some((code, ver))
                    } else {
                        None
                    },
                }
            },
        }
    }
}

fn rfind(v: &Vec<char>, c: char) -> (r: Option<usize>)
    ensures
        match last_index_of(v@, c) {
            Some(k) => r matches Some(i) && i == k && i < v.len(),
            None => r is None,
        },
{
    let mut n: usize = v.len();
    assert(v@.take(n as int) =~= v@);
    while n > 0
        invariant
            n <= v.len(),
            last_index_of(v@, c) == last_index_of(v@.take(n as int), c),
        decreases n,
    {
        assert(v@.take(n as int).last() == v@[n - 1]);
        if v[n - 1] == c {
            return Some(n - 1);
        }
        assert(v@.take(n as int).drop_last() =~= v@.take(n - 1));
        n -= 1;
    }
    None
}

/// The code and version of a language pack file name (see
/// `pack_filename_spec`).
pub fn parse_language_pack_filename(name: &str) -> (r: Option<(String, String)>)
    ensures
        match pack_filename_spec(name@) {
            Some((c, v)) => r matches Some(p) && p.0@ == c && p.1@ == v,
            None => r is None,
        },
{
    let s = chars_of(name);
    let suffix = chars_of(".json");
    proof {
        reveal_strlit(".json");
        reveal_strlit("KACF_");
    }
    let n = s.len();
    if n < 10 || !chars_start_with(&s, &chars_of("KACF_")) {
        return None;
    }
    if !chars_eq(&chars_slice(&s, n - 5, n), &suffix) {
        assert(s@.skip(n - 5) =~= s@.subrange(n - 5, n as int));
        return None;
    }
    assert(s@.skip(n - 5) =~= s@.subrange(n - 5, n as int));
    let stem = chars_slice(&s, 5, n - 5);
    let k = match rfind(&stem, '_') {
        Some(k) => k,
        None => return None,
    };
    let code = match code_of(&chars_slice(&stem, 0, k)) {
        Some(c) => c,
        None => {
            assert(stem@.subrange(0, k as int) =~= stem@.take(k as int));
            return None;
        },
    };
    assert(stem@.subrange(0, k as int) =~= stem@.take(k as int));
    let ver = chars_slice(&stem, k + 1, stem.len());
    assert(ver@ =~= stem@.skip(k + 1));
    if ver.len() != 5 {
        return None;
    }
    assert(pack_filename_spec(name@) == (if forall|j: int| 0 <= j < 5 ==> '0' <= #[trigger] ver@[j] && ver@[j] <= '9' {
        Some((code@, ver@))
    } else {
        None
    }));
    let mut i: usize = 0;
    while i < 5
        invariant
            i <= 5,
            ver.len() == 5,
            pack_filename_spec(name@) == (if forall|j: int| 0 <= j < 5 ==> '0' <= #[trigger] ver@[j] && ver@[j] <= '9' {
                Some((code@, ver@))
            } else {
                None
            }),
            forall|j: int| 0 <= j < i ==> '0' <= #[trigger] ver@[j] && ver@[j] <= '9',
        decreases 5 - i,
    {
        if !('0' <= ver[i] && ver[i] <= '9') {
            return None;
        }
        i += 1;
    }
    Some((code, string_of(ver.as_slice())))
}

/// What the checks read of a language pack's JSON document: whether the
/// root is an object, whether it has a `__meta` object, the `__meta` texts
/// (empty where missing or not text), and the other members in order, each
/// with whether its value is text.
#[derive(Debug, Clone)]
pub struct LanguagePackDoc {
    pub root_is_object: bool,
    pub has_meta_object: bool,
    pub app: String,
    pub language_code: String,
    pub pack_version: String,
    pub inputer_version: String,
    pub members: Vec<(String, bool)>,
}

/// The first member whose value is not text, if any.
pub open spec fn first_non_text(m: Seq<(String, bool)>) -> Option<int>
    decreases m.len(),
{
    if m.len() == 0 {
        None
    } else {
        match first_non_text(m.drop_last()) {
            Some(i) => Some(i),
            None => if !m.last().1 { Some(m.len() - 1) } else { None },
        }
    }
}

/// The outcome of checking a pack read from `file` whose name gave `code`
/// and `ver`: the first failing check's message, or the member keys.
pub open spec fn pack_check_spec(doc: LanguagePackDoc, code: Seq<char>, ver: Seq<char>, file: Seq<char>) -> Result<Seq<Seq<char>>, Seq<char>> {
    if !doc.root_is_object {
        Err("Language pack root must be object: "@ + file)
    } else if !doc.has_meta_object {
        Err("Language pack missing __meta object: "@ + file)
    } else if doc.app@ != "KACF"@ {
        Err("Language pack app mismatch: "@ + file + " (expected KACF)"@)
    } else if doc.language_code@ != code {
        Err("Language pack code mismatch between filename and __meta: "@ + file)
    } else if doc.pack_version@ != ver {
        Err("Language pack version mismatch between filename and __meta: "@ + file)
    } else if doc.inputer_version@ != "00003"@ {
        Err("Language inputer version mismatch: pack="@ + doc.inputer_version@ + " software=00003 file="@ + file)
    } else if doc.pack_version@ != "00003"@ {
        Err("Language pack version mismatch: pack="@ + doc.pack_version@ + " software=00003 file="@ + file)
    } else {
        match first_non_text(doc.members@) {
            Some(i) => Err("Language pack key must be string: file="@ + file + " key="@ + doc.members@[i].0@),
            None => if doc.members@.len() == 0 {
                Err("Language pack has no translation keys: "@ + file)
            } else {
                Ok(doc.members@.map_values(|m: (String, bool)| m.0@))
            },
        }
    }
}

fn msg2(a: &str, b: &str) -> (r: String)
    ensures
        r@ == a@ + b@,
{
    let mut s = String::from_str(a);
    s.append(b);
    s
}

/// Checks a language pack's document (see `pack_check_spec`); gives its keys.
pub fn check_language_pack(doc: &LanguagePackDoc, code: &str, ver: &str, file: &str) -> (r: Result<Vec<String>, String>)
    ensures
        match pack_check_spec(*doc, code@, ver@, file@) {
            Ok(keys) => r matches Ok(k) && strings_view(k@) == keys,
            Err(e) => r matches Err(m) && m@ == e,
        },
{
    if !doc.root_is_object {
        return Err(msg2("Language pack root must be object: ", file));
    }
    if !doc.has_meta_object {
        return Err(msg2("Language pack missing __meta object: ", file));
    }
    if !str_eq(doc.app.as_str(), "KACF") {
        let mut m = msg2("Language pack app mismatch: ", file);
        m.append(" (expected KACF)");
        return Err(m);
    }
    if !str_eq(doc.language_code.as_str(), code) {
        return Err(msg2("Language pack code mismatch between filename and __meta: ", file));
    }
    if !str_eq(doc.pack_version.as_str(), ver) {
        return Err(msg2("Language pack version mismatch between filename and __meta: ", file));
    }
    if !str_eq(doc.inputer_version.as_str(), LANGUAGE_INPUTER_VERSION) {
        let mut m = msg2("Language inputer version mismatch: pack=", doc.inputer_version.as_str());
        m.append(" software=00003 file=");
        m.append(file);
        return Err(m);
    }
    if !str_eq(doc.pack_version.as_str(), LANGUAGE_INPUTER_VERSION) {
        let mut m = msg2("Language pack version mismatch: pack=", doc.pack_version.as_str());
        m.append(" software=00003 file=");
        m.append(file);
        return Err(m);
    }
    let ghost mv = doc.members@;
    let mut keys: Vec<String> = Vec::new();
    let mut i: usize = 0;
    assert(mv.take(0) =~= Seq::<(String, bool)>::empty());
    while i < doc.members.len()
        invariant
            i <= doc.members.len(),
            mv == doc.members@,
            first_non_text(mv.take(i as int)) is None,
            strings_view(keys@) == mv.take(i as int).map_values(|m: (String, bool)| m.0@),
            pack_check_spec(*doc, code@, ver@, file@) == (match first_non_text(mv) {
                Some(j) => Err("Language pack key must be string: file="@ + file@ + " key="@ + mv[j].0@),
                None => if mv.len() == 0 {
                    Err("Language pack has no translation keys: "@ + file@)
                } else {
                    Ok(mv.map_values(|m: (String, bool)| m.0@))
                },
            }),
        decreases doc.members.len() - i,
    {
        assert(mv.take(i + 1).drop_last() =~= mv.take(i as int));
        let m = &doc.members[i];
        if !m.1 {
            proof {
                assert(first_non_text(mv.take(i + 1)) == Some(i as int));
                lemma_first_non_text_prefix(mv, i as int + 1);
            }
            let mut e = msg2("Language pack key must be string: file=", file);
            e.append(" key=");
            e.append(m.0.as_str());
            return Err(e);
        }
        let ghost before = strings_view(keys@);
        keys.push(String::from_str(m.0.as_str()));
        assert(strings_view(keys@) =~= before.push(mv[i as int].0@));
        assert(mv.take(i + 1).map_values(|m: (String, bool)| m.0@) =~= mv.take(i as int).map_values(|m: (String, bool)| m.0@).push(mv[i as int].0@));
        i += 1;
    }
    assert(mv.take(mv.len() as int) =~= mv);
    if keys.len() == 0 {
        return Err(msg2("Language pack has no translation keys: ", file));
    }
    Ok(keys)
}

proof fn lemma_first_non_text_prefix(m: Seq<(String, bool)>, n: int)
    requires
        0 <= n <= m.len(),
        first_non_text(m.take(n)) is Some,
    ensures
        first_non_text(m) == first_non_text(m.take(n)),
    decreases m.len() - n,
{
    if n < m.len() {
        assert(m.take(n + 1).drop_last() =~= m.take(n));
        lemma_first_non_text_prefix(m, n + 1);
    } else {
        assert(m.take(n) =~= m);
    }
}

/// A file of the language directory, as read: its name, its path for
/// messages, its text or the read error, and its document or the JSON
/// error.
#[derive(Debug)]
pub struct PackFileInput {
    pub name: String,
    pub path: String,
    pub content: Result<String, String>,
    pub doc: Result<LanguagePackDoc, String>,
}

/// A language pack that passed its checks.
#[derive(Debug, Clone)]
pub struct LoadedLanguagePack {
    pub code: String,
    pub path: String,
    pub content: String,
    pub keys: Vec<String>,
}

/// A loaded pack as (code, path, content, keys).
pub open spec fn pack_view(p: LoadedLanguagePack) -> (Seq<char>, Seq<char>, Seq<char>, Seq<Seq<char>>) {
    (p.code@, p.path@, p.content@, strings_view(p.keys@))
}

/// Some pack of `items` has code `code`.
pub open spec fn has_code(items: Seq<(Seq<char>, Seq<char>, Seq<char>, Seq<Seq<char>>)>, code: Seq<char>) -> bool {
    exists|j: int| 0 <= j < items.len() && (#[trigger] items[j]).0 == code
}

/// The packs of the first `n` files in order, or the first error: a
/// `.json` file needs a valid pack name and a code not seen before, then
/// its text, its document, and passing `pack_check_spec`; other files are
/// skipped.
pub open spec fn scan_packs(files: Seq<PackFileInput>, n: int) -> Result<Seq<(Seq<char>, Seq<char>, Seq<char>, Seq<Seq<char>>)>, Seq<char>>
    decreases n,
{
    if n <= 0 {
        Ok(Seq::empty())
    } else {
        match scan_packs(files, n - 1) {
            Err(e) => Err(e),
            Ok(items) => {
                let f = files[n - 1];
                if !ends_with(f.name@, ".json"@) {
                    Ok(items)
                } else {
                    match pack_filename_spec(f.name@) {
                        None => Err("Language pack filename invalid (expected KACF_<code>_<ver>.json): "@ + f.name@),
                        Some((code, ver)) => if has_code(items, code) {
                            Err("Duplicate language code pack found: "@ + code)
                        } else {
                            match f.content {
                                Err(e) => Err(e@),
                                Ok(text) => match f.doc {
                                    Err(e) => Err(e@),
                                    Ok(doc) => match pack_check_spec(doc, code, ver, f.path@) {
                                        Err(e) => Err(e),
                                        Ok(keys) => Ok(items.push((code, f.path@, text@, keys))),
                                    },
                                },
                            }
                        },
                    }
                }
            },
        }
    }
}

/// The index of the first pack with code `en`, or the length.
pub open spec fn english_index(items: Seq<(Seq<char>, Seq<char>, Seq<char>, Seq<Seq<char>>)>) -> int
    decreases items.len(),
{
    if items.len() == 0 {
        0
    } else if items[0].0 == "en"@ {
        0
    } else {
        1 + english_index(items.drop_first())
    }
}

/// The index of the first pack whose key set differs from `base`, or the length.
pub open spec fn first_mismatch(items: Seq<(Seq<char>, Seq<char>, Seq<char>, Seq<Seq<char>>)>, base: Set<Seq<char>>, n: int) -> int
    decreases n,
{
    if n <= 0 {
        items.len() as int
    } else {
        let k = first_mismatch(items, base, n - 1);
        if k < items.len() {
            k
        } else if items[n - 1].3.to_set() != base {
            n - 1
        } else {
            items.len() as int
        }
    }
}

/// Codes strictly ascending.
pub open spec fn codes_sorted(v: Seq<LoadedLanguagePack>) -> bool {
    forall|p: int, q: int| 0 <= p < q < v.len() ==> lex_lt((#[trigger] v[p]).code@, (#[trigger] v[q]).code@)
}

fn find_code(items: &Vec<LoadedLanguagePack>, code: &str) -> (r: Option<usize>)
    ensures
        r matches Some(i) ==> i < items.len() && items@[i as int].code@ == code@,
        r is None ==> forall|j: int| 0 <= j < items.len() ==> items@[j].code@ != code@,
{
    let mut i: usize = 0;
    while i < items.len()
        invariant
            i <= items.len(),
            forall|j: int| 0 <= j < i ==> items@[j].code@ != code@,
        decreases items.len() - i,
    {
        if str_eq(items[i].code.as_str(), code) {
            return Some(i);
        }
        i += 1;
    }
    None
}

/// The views of loaded packs.
pub open spec fn packs_view(v: Seq<LoadedLanguagePack>) -> Seq<(Seq<char>, Seq<char>, Seq<char>, Seq<Seq<char>>)> {
    v.map_values(|p: LoadedLanguagePack| pack_view(p))
}

proof fn lemma_scan_err(files: Seq<PackFileInput>, n: int, m: int)
    requires
        0 <= n <= m,
        scan_packs(files, n) is Err,
    ensures
        scan_packs(files, m) == scan_packs(files, n),
    decreases m - n,
{
    if n < m {
        lemma_scan_err(files, n, m - 1);
    }
}

fn scan_files(files: &Vec<PackFileInput>) -> (r: Result<Vec<LoadedLanguagePack>, String>)
    ensures
        match scan_packs(files@, files@.len() as int) {
            Ok(items) => r matches Ok(v) && packs_view(v@) == items,
            Err(e) => r matches Err(m) && m@ == e,
        },
{
    let mut items: Vec<LoadedLanguagePack> = Vec::new();
    let mut i: usize = 0;
    assert(packs_view(items@) =~= Seq::<(Seq<char>, Seq<char>, Seq<char>, Seq<Seq<char>>)>::empty());
    while i < files.len()
        invariant
            i <= files.len(),
            scan_packs(files@, i as int) == Ok::<Seq<(Seq<char>, Seq<char>, Seq<char>, Seq<Seq<char>>)>, Seq<char>>(packs_view(items@)),
        decreases files.len() - i,
    {
        let f = &files[i];
        let ghost iv = packs_view(items@);
        let name = chars_of(f.name.as_str());
        let jsn = chars_of(".json");
        proof {
            reveal_strlit(".json");
        }
        let is_json = name.len() >= 5 && chars_eq(&chars_slice(&name, name.len() - 5, name.len()), &jsn);
        assert(name.len() >= 5 ==> name@.skip(name.len() - 5) =~= name@.subrange(name.len() - 5, name.len() as int));
        if is_json {
            let (code, ver) = match parse_language_pack_filename(f.name.as_str()) {
                Some(p) => p,
                None => {
                    let mut m = String::from_str("Language pack filename invalid (expected KACF_<code>_<ver>.json): ");
                    m.append(f.name.as_str());
                    proof { lemma_scan_err(files@, i + 1, files@.len() as int); }
                    return Err(m);
                },
            };
            match find_code(&items, code.as_str()) {
                Some(j) => {
                    assert(iv[j as int].0 == code@);
                    let mut m = String::from_str("Duplicate language code pack found: ");
                    m.append(code.as_str());
                    proof { lemma_scan_err(files@, i + 1, files@.len() as int); }
                    return Err(m);
                },
                None => {
                    assert forall|j: int| 0 <= j < iv.len() implies (#[trigger] iv[j]).0 != code@ by {
                        assert(iv[j] == pack_view(items@[j]));
                    }
                },
            }
            let text = match &f.content {
                Ok(t) => t,
                Err(e) => {
                    proof { lemma_scan_err(files@, i + 1, files@.len() as int); }
                    return Err(String::from_str(e.as_str()));
                },
            };
            let doc = match &f.doc {
                Ok(d) => d,
                Err(e) => {
                    proof { lemma_scan_err(files@, i + 1, files@.len() as int); }
                    return Err(String::from_str(e.as_str()));
                },
            };
            let keys = match check_language_pack(doc, code.as_str(), ver.as_str(), f.path.as_str()) {
                Ok(k) => k,
                Err(e) => {
                    proof { lemma_scan_err(files@, i + 1, files@.len() as int); }
                    return Err(e);
                },
            };
            let p = LoadedLanguagePack {
                code,
                path: String::from_str(f.path.as_str()),
                content: String::from_str(text.as_str()),
                keys,
            };
            items.push(p);
            assert(packs_view(items@) =~= iv.push(pack_view(items@[items@.len() - 1])));
        }
        i += 1;
    }
    Ok(items)
}

fn contains_str(v: &Vec<String>, x: &str) -> (b: bool)
    ensures
        b == strings_view(v@).contains(x@),
{
    let mut i: usize = 0;
    while i < v.len()
        invariant
            i <= v.len(),
            forall|j: int| 0 <= j < i ==> strings_view(v@)[j] != x@,
        decreases v.len() - i,
    {
        assert(strings_view(v@)[i as int] == v@[i as int]@);
        if str_eq(v[i].as_str(), x) {
            assert(strings_view(v@)[i as int] == x@);
            return true;
        }
        i += 1;
    }
    false
}

fn all_in(a: &Vec<String>, b: &Vec<String>) -> (r: bool)
    ensures
        r == (forall|i: int| 0 <= i < a@.len() ==> strings_view(b@).contains(#[trigger] strings_view(a@)[i])),
{
    let mut i: usize = 0;
    while i < a.len()
        invariant
            i <= a.len(),
            forall|j: int| 0 <= j < i ==> strings_view(b@).contains(#[trigger] strings_view(a@)[j]),
        decreases a.len() - i,
    {
        assert(strings_view(a@)[i as int] == a@[i as int]@);
        if !contains_str(b, a[i].as_str()) {
            return false;
        }
        i += 1;
    }
    true
}

fn same_key_set(a: &Vec<String>, b: &Vec<String>) -> (r: bool)
    ensures
        r == (strings_view(a@).to_set() == strings_view(b@).to_set()),
{
    let ghost av = strings_view(a@);
    let ghost bv = strings_view(b@);
    let x = all_in(a, b);
    let y = all_in(b, a);
    proof {
        if x && y {
            assert forall|k: Seq<char>| av.to_set().contains(k) <==> bv.to_set().contains(k) by {
                if av.contains(k) {
                    let i = choose|i: int| 0 <= i < av.len() && av[i] == k;
                }
                if bv.contains(k) {
                    let i = choose|i: int| 0 <= i < bv.len() && bv[i] == k;
                }
            }
            assert(av.to_set() =~= bv.to_set());
        } else if !x {
            let i = choose|i: int| 0 <= i < a@.len() && !bv.contains(#[trigger] av[i]);
            assert(av.to_set().contains(av[i]));
            assert(!bv.to_set().contains(av[i]));
        } else {
            let i = choose|i: int| 0 <= i < b@.len() && !av.contains(#[trigger] bv[i]);
            assert(bv.to_set().contains(bv[i]));
            assert(!av.to_set().contains(bv[i]));
        }
    }
    x && y
}

proof fn lemma_scan_distinct(files: Seq<PackFileInput>, n: int)
    requires
        0 <= n,
        scan_packs(files, n) is Ok,
    ensures
        forall|p: int, q: int| 0 <= p < q < scan_packs(files, n)->Ok_0.len()
            ==> (#[trigger] scan_packs(files, n)->Ok_0[p]).0 != (#[trigger] scan_packs(files, n)->Ok_0[q]).0,
    decreases n,
{
    if n > 0 {
        lemma_scan_distinct(files, n - 1);
        let prev = scan_packs(files, n - 1)->Ok_0;
        let cur = scan_packs(files, n)->Ok_0;
        assert forall|p: int, q: int| 0 <= p < q < cur.len() implies (#[trigger] cur[p]).0 != (#[trigger] cur[q]).0 by {
            if cur.len() > prev.len() && q == prev.len() {
                assert(cur[p] == prev[p]);
                assert(!has_code(prev, cur[q].0));
            } else {
                assert(cur[p] == prev[p] && cur[q] == prev[q]);
            }
        }
    }
}

fn insert_by_code(out: &mut Vec<LoadedLanguagePack>, e: LoadedLanguagePack)
    requires
        codes_sorted(old(out)@),
        forall|k: int| 0 <= k < old(out)@.len() ==> (#[trigger] old(out)@[k]).code@ != e.code@,
    ensures
        codes_sorted(final(out)@),
        exists|p: int| 0 <= p <= old(out)@.len() && final(out)@ == old(out)@.insert(p, e),
{
    let mut p: usize = 0;
    while p < out.len() && lex_order(&chars_of(out[p].code.as_str()), &chars_of(e.code.as_str())) == -1
        invariant
            p <= out.len(),
            out@ == old(out)@,
            forall|k: int| 0 <= k < p ==> lex_lt((#[trigger] out@[k]).code@, e.code@),
        decreases out.len() - p,
    {
        p += 1;
    }
    proof {
        if p < out.len() {
            lemma_lex_total(out@[p as int].code@, e.code@);
            assert forall|k: int| p < k < out.len() implies lex_lt(e.code@, (#[trigger] out@[k]).code@) by {
                lemma_lex_trans(e.code@, out@[p as int].code@, out@[k].code@);
            }
        }
    }
    let ghost before = out@;
    out.insert(p, e);
    proof {
        assert forall|a: int, b: int| 0 <= a < b < out.len() implies lex_lt((#[trigger] out@[a]).code@, (#[trigger] out@[b]).code@) by {
            if a < p && b < p {
                assert(out@[a] == before[a] && out@[b] == before[b]);
            } else if a < p && b == p {
            } else if a < p {
                assert(out@[a] == before[a] && out@[b] == before[b - 1]);
                lemma_lex_trans(before[a].code@, e.code@, before[b - 1].code@);
            } else if a == p {
                assert(out@[b] == before[b - 1]);
            } else {
                assert(out@[a] == before[a - 1] && out@[b] == before[b - 1]);
            }
        }
        assert(out@ == before.insert(p as int, e));
    }
}

/// Every element of `out` is one of `orig[lo..]`, and every one of those is in `out`.
pub open spec fn packs_hold_tail(out: Seq<LoadedLanguagePack>, orig: Seq<LoadedLanguagePack>, lo: int) -> bool {
    &&& forall|k: int| 0 <= k < out.len() ==> exists|m: int| lo <= m < orig.len() && #[trigger] out[k] == #[trigger] orig[m]
    &&& forall|m: int| lo <= m < orig.len() ==> exists|k: int| 0 <= k < out.len() && #[trigger] out[k] == #[trigger] orig[m]
}

proof fn lemma_packs_hold_insert(before: Seq<LoadedLanguagePack>, orig: Seq<LoadedLanguagePack>, n0: int, p: int)
    requires
        1 <= n0 <= orig.len(),
        0 <= p <= before.len(),
        packs_hold_tail(before, orig, n0),
    ensures
        packs_hold_tail(before.insert(p, orig[n0 - 1]), orig, n0 - 1),
{
    let e = orig[n0 - 1];
    let out = before.insert(p, e);
    assert forall|k: int| 0 <= k < out.len() implies exists|m: int| n0 - 1 <= m < orig.len() && #[trigger] out[k] == #[trigger] orig[m] by {
        if k < p {
            let m = choose|m: int| n0 <= m < orig.len() && #[trigger] before[k] == #[trigger] orig[m];
            assert(out[k] == orig[m]);
        } else if k == p {
            assert(out[k] == orig[n0 - 1]);
        } else {
            let m = choose|m: int| n0 <= m < orig.len() && #[trigger] before[k - 1] == #[trigger] orig[m];
            assert(out[k] == orig[m]);
        }
    }
    assert forall|m: int| n0 - 1 <= m < orig.len() implies exists|k: int| 0 <= k < out.len() && #[trigger] out[k] == #[trigger] orig[m] by {
        if m == n0 - 1 {
            assert(out[p] == orig[m]);
        } else {
            let k = choose|k: int| 0 <= k < before.len() && #[trigger] before[k] == #[trigger] orig[m];
            if k < p {
                assert(out[k] == orig[m]);
            } else {
                assert(out[k + 1] == orig[m]);
            }
        }
    }
}

fn sort_by_code(input: Vec<LoadedLanguagePack>) -> (out: Vec<LoadedLanguagePack>)
    requires
        forall|p: int, q: int| 0 <= p < q < input@.len() ==> (#[trigger] input@[p]).code@ != (#[trigger] input@[q]).code@,
    ensures
        out@.len() == input@.len(),
        packs_hold_tail(out@, input@, 0),
        codes_sorted(out@),
{
    let ghost orig = input@;
    let mut acc = input;
    let mut out: Vec<LoadedLanguagePack> = Vec::new();
    while acc.len() > 0
        invariant
            acc@ == orig.take(acc.len() as int),
            acc.len() <= orig.len(),
            out@.len() == orig.len() - acc.len(),
            forall|p: int, q: int| 0 <= p < q < orig.len() ==> (#[trigger] orig[p]).code@ != (#[trigger] orig[q]).code@,
            packs_hold_tail(out@, orig, acc.len() as int),
            codes_sorted(out@),
        decreases acc.len(),
    {
        let ghost n0 = acc.len() as int;
        let e = acc.pop().unwrap();
        assert(e == orig[n0 - 1]);
        assert(acc@ =~= orig.take(n0 - 1));
        proof {
            assert forall|k: int| 0 <= k < out.len() implies (#[trigger] out@[k]).code@ != e.code@ by {
                let m = choose|m: int| n0 <= m < orig.len() && #[trigger] out@[k] == #[trigger] orig[m];
                assert(orig[n0 - 1].code@ != orig[m].code@);
            }
        }
        let ghost before = out@;
        insert_by_code(&mut out, e);
        proof {
            let p = choose|p: int| 0 <= p <= before.len() && out@ == before.insert(p, e);
            lemma_packs_hold_insert(before, orig, n0, p);
        }
    }
    out
}

proof fn lemma_english_index(items: Seq<(Seq<char>, Seq<char>, Seq<char>, Seq<Seq<char>>)>)
    ensures
        0 <= english_index(items) <= items.len(),
        english_index(items) < items.len() ==> items[english_index(items)].0 == "en"@,
        forall|j: int| 0 <= j < english_index(items) ==> items[j].0 != "en"@,
    decreases items.len(),
{
    if items.len() > 0 && items[0].0 != "en"@ {
        lemma_english_index(items.drop_first());
        assert forall|j: int| 0 <= j < english_index(items) implies items[j].0 != "en"@ by {
            if j > 0 {
                assert(items[j] == items.drop_first()[j - 1]);
            }
        }
    }
}

proof fn lemma_first_mismatch(items: Seq<(Seq<char>, Seq<char>, Seq<char>, Seq<Seq<char>>)>, base: Set<Seq<char>>, n: int)
    requires
        0 <= n <= items.len(),
    ensures
        first_mismatch(items, base, n) == items.len() <==> forall|j: int| 0 <= j < n ==> (#[trigger] items[j]).3.to_set() == base,
        first_mismatch(items, base, n) < items.len() ==> 0 <= first_mismatch(items, base, n) < n
            && items[first_mismatch(items, base, n)].3.to_set() != base,
    decreases n,
{
    if n > 0 {
        lemma_first_mismatch(items, base, n - 1);
    }
}

fn find_english(items: &Vec<LoadedLanguagePack>) -> (e: usize)
    ensures
        e == english_index(packs_view(items@)),
{
    let ghost iv = packs_view(items@);
    proof {
        lemma_english_index(iv);
    }
    let mut e: usize = 0;
    while e < items.len() && !str_eq(items[e].code.as_str(), "en")
        invariant
            e <= items.len(),
            iv == packs_view(items@),
            forall|j: int| 0 <= j < e ==> iv[j].0 != "en"@,
        decreases items.len() - e,
    {
        e += 1;
    }
    proof {
        let k = english_index(iv);
        if (e as int) < k {
            assert(iv[e as int].0 == "en"@);
        }
        if k < e {
            assert(iv[k].0 != "en"@);
        }
    }
    e
}

fn find_mismatch(items: &Vec<LoadedLanguagePack>, e: usize) -> (k: usize)
    requires
        e < items.len(),
    ensures
        k == first_mismatch(packs_view(items@), packs_view(items@)[e as int].3.to_set(), items@.len() as int),
{
    let ghost iv = packs_view(items@);
    let ghost base = iv[e as int].3.to_set();
    assert(iv[e as int] == pack_view(items@[e as int]));
    let mut k: usize = 0;
    while k < items.len()
        invariant
            k <= items.len(),
            e < items.len(),
            iv == packs_view(items@),
            base == iv[e as int].3.to_set(),
            base == strings_view(items@[e as int].keys@).to_set(),
            forall|j: int| 0 <= j < k ==> (#[trigger] iv[j]).3.to_set() == base,
        decreases items.len() - k,
    {
        assert(iv[k as int] == pack_view(items@[k as int]));
        if !same_key_set(&items[k].keys, &items[e].keys) {
            proof {
                lemma_first_mismatch(iv, base, k as int);
                lemma_mismatch_sticks(iv, base, k as int + 1, iv.len() as int);
            }
            return k;
        }
        k += 1;
    }
    proof {
        lemma_first_mismatch(iv, base, iv.len() as int);
    }
    k
}

proof fn lemma_sorted_has_english(
    sorted: Seq<LoadedLanguagePack>,
    orig: Seq<LoadedLanguagePack>,
    iv: Seq<(Seq<char>, Seq<char>, Seq<char>, Seq<Seq<char>>)>,
    e: int,
    base: Set<Seq<char>>,
)
    requires
        0 <= e < orig.len(),
        iv == packs_view(orig),
        iv[e].0 == "en"@,
        base == iv[e].3.to_set(),
        forall|j: int| 0 <= j < iv.len() ==> (#[trigger] iv[j]).3.to_set() == base,
        packs_hold_tail(sorted, orig, 0),
    ensures
        exists|k: int| 0 <= k < sorted.len() && (#[trigger] sorted[k]).code@ == "en"@
            && forall|p: int| 0 <= p < sorted.len() ==> strings_view((#[trigger] sorted[p]).keys@).to_set() == strings_view(sorted[k].keys@).to_set(),
{
    assert(iv[e] == pack_view(orig[e]));
    let ke = choose|kk: int| 0 <= kk < sorted.len() && #[trigger] sorted[kk] == #[trigger] orig[e];
    assert(sorted[ke].code@ == "en"@);
    assert forall|p: int| 0 <= p < sorted.len() implies strings_view((#[trigger] sorted[p]).keys@).to_set() == strings_view(sorted[ke].keys@).to_set() by {
        let m = choose|m: int| 0 <= m < orig.len() && #[trigger] sorted[p] == #[trigger] orig[m];
        assert(iv[m] == pack_view(orig[m]));
        assert(iv[m].3.to_set() == base);
    }
}

/// The outcome of checking scanned packs: no pack, no English pack, or a
/// pack whose key set differs from the English one; otherwise the packs.
pub open spec fn set_outcome(items: Seq<(Seq<char>, Seq<char>, Seq<char>, Seq<Seq<char>>)>) -> Result<Seq<(Seq<char>, Seq<char>, Seq<char>, Seq<Seq<char>>)>, Seq<char>> {
    if items.len() == 0 {
        Err("No valid language packs found"@)
    } else {
        let e = english_index(items);
        if e >= items.len() {
            Err("Language packs must include English pack: code=en"@)
        } else {
            let k = first_mismatch(items, items[e].3.to_set(), items.len() as int);
            if k < items.len() {
                Err("Language pack keys incomplete or mismatched: "@ + items[k].1)
            } else {
                Ok(items)
            }
        }
    }
}

/// Every pack has the key set of an English pack among them.
pub open spec fn english_keys_everywhere(v: Seq<LoadedLanguagePack>) -> bool {
    exists|e: int| 0 <= e < v.len() && (#[trigger] v[e]).code@ == "en"@
        && forall|p: int| 0 <= p < v.len() ==> strings_view((#[trigger] v[p]).keys@).to_set() == strings_view(v[e].keys@).to_set()
}

fn check_pack_set(items: Vec<LoadedLanguagePack>) -> (r: Result<Vec<LoadedLanguagePack>, String>)
    requires
        forall|p: int, q: int| 0 <= p < q < items@.len() ==> (#[trigger] items@[p]).code@ != (#[trigger] items@[q]).code@,
    ensures
        match set_outcome(packs_view(items@)) {
            Ok(_) => r matches Ok(v) && codes_sorted(v@) && v@.len() == items@.len() && packs_hold_tail(v@, items@, 0)
                && english_keys_everywhere(v@),
            Err(e) => r matches Err(m) && m@ == e,
        },
{
    let ghost iv = packs_view(items@);
    if items.len() == 0 {
        return Err(String::from_str("No valid language packs found"));
    }
    let e = find_english(&items);
    if e >= items.len() {
        return Err(String::from_str("Language packs must include English pack: code=en"));
    }
    let k = find_mismatch(&items, e);
    if k < items.len() {
        assert(iv[k as int] == pack_view(items@[k as int]));
        let mut msg = String::from_str("Language pack keys incomplete or mismatched: ");
        msg.append(items[k].path.as_str());
        return Err(msg);
    }
    let ghost base = iv[e as int].3.to_set();
    proof {
        lemma_english_index(iv);
        lemma_first_mismatch(iv, base, iv.len() as int);
    }
    let ghost orig = items@;
    let sorted = sort_by_code(items);
    proof {
        lemma_sorted_has_english(sorted@, orig, iv, e as int, base);
    }
    Ok(sorted)
}

/// Loads the language packs of the directory's files: the first error of
/// `scan_packs`, else the checks of `set_outcome`; the packs come sorted by
/// code. When it succeeds, an English pack is among them and every pack has
/// exactly the English pack's key set.
pub fn load_language_packs_checked(files: &Vec<PackFileInput>) -> (r: Result<Vec<LoadedLanguagePack>, String>)
    ensures
        match scan_packs(files@, files@.len() as int) {
            Err(e) => r matches Err(m) && m@ == e,
            Ok(items) => match set_outcome(items) {
                Ok(_) => r matches Ok(v) && codes_sorted(v@) && v@.len() == items.len()
                    && exists|w: Seq<LoadedLanguagePack>| packs_view(w) == items && #[trigger] packs_hold_tail(v@, w, 0),
                Err(e) => r matches Err(m) && m@ == e,
            },
        },
        r matches Ok(v) ==> english_keys_everywhere(v@),
{
    let items = match scan_files(files) {
        Ok(v) => v,
        Err(e) => return Err(e),
    };
    proof {
        lemma_scan_distinct(files@, files@.len() as int);
        let iv = packs_view(items@);
        assert forall|p: int, q: int| 0 <= p < q < items@.len() implies (#[trigger] items@[p]).code@ != (#[trigger] items@[q]).code@ by {
            assert(iv[p] == pack_view(items@[p]) && iv[q] == pack_view(items@[q]));
        }
    }
    let ghost w = items@;
    let r = check_pack_set(items);
    proof {
        if r is Ok {
            assert(packs_hold_tail(r->Ok_0@, w, 0));
        }
    }
    r
}

proof fn lemma_mismatch_sticks(items: Seq<(Seq<char>, Seq<char>, Seq<char>, Seq<Seq<char>>)>, base: Set<Seq<char>>, n: int, m: int)
    requires
        0 <= n <= m <= items.len(),
        first_mismatch(items, base, n) < items.len(),
    ensures
        first_mismatch(items, base, m) == first_mismatch(items, base, n),
    decreases m - n,
{
    if n < m {
        lemma_mismatch_sticks(items, base, n, m - 1);
    }
}

} // verus!
