//! Validation and display helpers for model-produced patches.

use vstd::prelude::*;
use crate::models::{FileWrite, files_view};
use crate::text::{bytes_exceed, chars_byte_len, chars_eq, chars_of, concat, decimal, fit_prefix, fit_prefix_exec, lemma_fit_prefix, string_of, trim_chars, trim_seq, u64_to_decimal, utf8_len, next_sep};

verus! {

/// The error of file `i` of a patch, given that the files before it passed.
pub open spec fn file_error(files: Seq<(Seq<char>, Seq<char>)>, i: int) -> Option<Seq<char>> {
    let p = trim_seq(files[i].0);
    if p.len() == 0 {
        Some("存在空 path"@)
    } else if exists|j: int| 0 <= j < i && trim_seq(#[trigger] files[j].0) == p {
        Some("path 重复: "@ + p)
    } else if utf8_len(files[i].1) > 700000 {
        Some("单文件过大: "@ + p + " ("@ + decimal(utf8_len(files[i].1)) + " bytes)"@)
    } else {
        None
    }
}

/// The first error among files `i..`.
pub open spec fn first_file_error(files: Seq<(Seq<char>, Seq<char>)>, i: int) -> Option<Seq<char>>
    decreases files.len() - i,
{
    if i < 0 || i >= files.len() {
        None
    } else {
        match file_error(files, i) {
            Some(e) => Some(e),
            None => first_file_error(files, i + 1),
        }
    }
}

/// Total content bytes of the files.
pub open spec fn total_bytes(files: Seq<(Seq<char>, Seq<char>)>) -> nat
    decreases files.len(),
{
    if files.len() == 0 {
        0
    } else {
        total_bytes(files.drop_last()) + utf8_len(files.last().1)
    }
}

/// The verdict on a patch given as whole files.
pub open spec fn patch_files_verdict(summary: Seq<char>, files: Seq<(Seq<char>, Seq<char>)>) -> Result<
    (),
    Seq<char>,
> {
    if trim_seq(summary).len() == 0 {
        Err("summary 不能为空"@)
    } else if files.len() == 0 {
        Err("files 不能为空"@)
    } else if files.len() > 80 {
        Err("单次 patch 文件数量过多: "@ + decimal(files.len()))
    } else {
        match first_file_error(files, 0) {
            Some(e) => Err(e),
            None => if total_bytes(files) > 3000000 {
                Err("本次 patch 总体积过大: "@ + decimal(total_bytes(files)) + " bytes"@)
            } else {
                Ok(())
            },
        }
    }
}

/// The view of a string result.
pub open spec fn result_view(r: Result<(), String>) -> Result<(), Seq<char>> {
    match r {
        Ok(()) => Ok(()),
        Err(e) => Err(e@),
    }
}

/// Checks a whole-file patch: a summary, 1 to 80 files with distinct
/// non-empty paths, at most 700000 bytes each and 3000000 in all.
pub fn validate_patch_payload(summary: &str, files: &[FileWrite]) -> (r: Result<(), String>)
    requires
        forall|k: int| 0 <= k < files@.len() ==> utf8_len(#[trigger] files@[k].content@) <= usize::MAX,
    ensures
        result_view(r) == patch_files_verdict(summary@, files_view(files@)),
{
    let ghost fv = files_view(files@);
    let s = trim_chars(&chars_of(summary));
    if s.len() == 0 {
        return Err(String::from_str("summary 不能为空"));
    }
    if files.len() == 0 {
        return Err(String::from_str("files 不能为空"));
    }
    if files.len() > 80 {
        let n = u64_to_decimal(files.len() as u64);
        return Err(concat("单次 patch 文件数量过多: ", n.as_str()));
    }
    let mut seen: Vec<Vec<char>> = Vec::new();
    let mut total: usize = 0;
    let mut i: usize = 0;
    assert(fv.take(0) =~= Seq::<(Seq<char>, Seq<char>)>::empty());
    while i < files.len()
        invariant
            fv == files_view(files@),
            trim_seq(summary@).len() > 0,
            0 < files.len() <= 80,
            i <= files.len(),
            seen@.len() == i,
            forall|k: int| 0 <= k < i ==> #[trigger] seen@[k]@ == trim_seq(fv[k].0),
            first_file_error(fv, 0) == first_file_error(fv, i as int),
            forall|k: int| 0 <= k < files@.len() ==> utf8_len(#[trigger] files@[k].content@) <= usize::MAX,
            total == total_bytes(fv.take(i as int)),
            total <= 700000 * i,
        decreases files.len() - i,
    {
        let p = trim_chars(&chars_of(files[i].path.as_str()));
        assert(p@ == trim_seq(fv[i as int].0));
        if p.len() == 0 {
            return Err(String::from_str("存在空 path"));
        }
        let mut k: usize = 0;
        while k < seen.len()
            invariant
                k <= seen@.len(),
                seen@.len() == i,
                i < fv.len(),
                fv == files_view(files@),
                trim_seq(summary@).len() > 0,
                0 < files.len() <= 80,
                p@ == trim_seq(fv[i as int].0),
                p@.len() > 0,
                first_file_error(fv, 0) == first_file_error(fv, i as int),
                forall|m: int| 0 <= m < i ==> #[trigger] seen@[m]@ == trim_seq(fv[m].0),
                forall|m: int| 0 <= m < k ==> trim_seq(#[trigger] fv[m].0) != p@,
            decreases seen.len() - k,
        {
            if chars_eq(&seen[k], &p) {
                assert(trim_seq(fv[k as int].0) == p@);
                let msg = string_of(p.as_slice());
                return Err(concat("path 重复: ", msg.as_str()));
            }
            k += 1;
        }
        let c = chars_of(files[i].content.as_str());
        if bytes_exceed(&c, 700000) {
            let pn = string_of(p.as_slice());
            assert(c@ == fv[i as int].1);
            let len = u64_to_decimal(chars_byte_len(&c) as u64);
            let m1 = concat("单文件过大: ", pn.as_str());
            let m2 = concat(m1.as_str(), " (");
            let m3 = concat(m2.as_str(), len.as_str());
            return Err(concat(m3.as_str(), " bytes)"));
        }
        assert(c@ == fv[i as int].1);
        let len = chars_byte_len(&c);
        assert(fv.take(i + 1).drop_last() =~= fv.take(i as int));
        assert(file_error(fv, i as int) is None);
        total = total + len;
        seen.push(p);
        i += 1;
    }
    assert(fv.take(files.len() as int) =~= fv);
    if total > 3000000 {
        let t = u64_to_decimal(total as u64);
        let m1 = concat("本次 patch 总体积过大: ", t.as_str());
        return Err(concat(m1.as_str(), " bytes"));
    }
    Ok(())
}

/// `truncate`: the text itself when it fits in `max` bytes, else the
/// characters that fit, `...`, and a note of how many characters were cut.
pub open spec fn truncate_spec(s: Seq<char>, max: nat) -> Seq<char> {
    if utf8_len(s) <= max {
        s
    } else {
        let k = fit_prefix(s, max as int);
        s.take(k as int) + "...\n[truncated "@ + decimal((s.len() - k) as nat) + " chars]"@
    }
}

/// Shortens text to at most `max` bytes at a character boundary, noting what was cut.
pub fn truncate(s: &str, max: usize) -> (r: String)
    ensures
        r@ == truncate_spec(s@, max as nat),
{
    let v = chars_of(s);
    if !bytes_exceed(&v, max) {
        return String::from_str(s);
    }
    let k = fit_prefix_exec(&v, max);
    proof {
        lemma_fit_prefix(v@, max as int);
    }
    let head = string_of(&v.as_slice()[0..k]);
    assert(v@.subrange(0, k as int) =~= v@.take(k as int));
    let n = u64_to_decimal((v.len() - k) as u64);
    let a = concat(head.as_str(), "...\n[truncated ");
    let b = concat(a.as_str(), n.as_str());
    concat(b.as_str(), " chars]")
}

/// Whether the text parses as JSON, as `serde_json` decides it.
pub uninterp spec fn json_valid(s: Seq<char>) -> bool;

/// Whether `s` is a JSON document.
/// Trusted: `serde_json::from_str::<serde_json::Value>` accepts exactly the
/// JSON documents; which those are depends on the text alone.
#[verifier::external_body]
fn json_is_valid(s: &str) -> (b: bool)
    ensures
        b == json_valid(s@),
{
    serde_json::from_str::<serde_json::Value>(s).is_ok()
}

/// Index of the last `c` before position `j`, or -1.
pub open spec fn last_index_before(s: Seq<char>, c: char, j: int) -> int
    decreases j,
{
    if j <= 0 || j > s.len() {
        -1
    } else if s[j - 1] == c {
        j - 1
    } else {
        last_index_before(s, c, j - 1)
    }
}

/// The JSON found in a model reply: the whole reply when it parses, else the
/// text from the first `{` to the last `}` when that parses.
pub open spec fn extract_json_spec(s: Seq<char>) -> Option<Seq<char>> {
    if json_valid(s) {
        Some(s)
    } else {
        let a = next_sep(s, '{', 0);
        let b = last_index_before(s, '}', s.len() as int);
        if a < s.len() && b >= 0 && a < b && json_valid(s.subrange(a, b + 1)) {
            Some(s.subrange(a, b + 1))
        } else {
            None
        }
    }
}

/// Finds a JSON document in a model reply.
pub fn extract_json(input: &str) -> (r: Result<String, String>)
    ensures
        match extract_json_spec(input@) {
            Some(j) => r is Ok && r->Ok_0@ == j,
            None => r is Err && r->Err_0@ == "未找到合法 JSON 段"@,
        },
{
    if json_is_valid(input) {
        return Ok(String::from_str(input));
    }
    let v = chars_of(input);
    let n = v.len();
    let mut a: usize = 0;
    while a < n && v[a] != '{'
        invariant
            n == v.len(),
            a <= n,
            next_sep(v@, '{', a as int) == next_sep(v@, '{', 0),
        decreases n - a,
    {
        a += 1;
    }
    let mut b: usize = n;
    while b > 0 && v[b - 1] != '}'
        invariant
            n == v.len(),
            b <= n,
            last_index_before(v@, '}', b as int) == last_index_before(v@, '}', n as int),
        decreases b,
    {
        b -= 1;
    }
    if a < n && b > 0 && a < b - 1 {
        let cand = string_of(&v.as_slice()[a..b]);
        assert(v@.subrange(a as int, b as int) == cand@);
        if json_is_valid(cand.as_str()) {
            return Ok(cand);
        }
    }
    Err(String::from_str("未找到合法 JSON 段"))
}


proof fn lemma_first_brace(s: Seq<char>, m: int, i: int)
    requires
        0 <= m <= i < s.len(),
        s[i] == '{',
        forall|k: int| m <= k < i ==> s[k] != '{',
    ensures
        next_sep(s, '{', m) == i,
    decreases i - m,
{
    if m < i {
        lemma_first_brace(s, m + 1, i);
    }
}

proof fn lemma_last_brace(s: Seq<char>, m: int, j: int)
    requires
        0 <= j < m <= s.len(),
        s[j] == '}',
        forall|k: int| j < k < m ==> s[k] != '}',
    ensures
        last_index_before(s, '}', m) == j,
    decreases m - j,
{
    if m - 1 > j {
        lemma_last_brace(s, m - 1, j);
    }
}

/// A reply that is a JSON document is taken whole; one that is not, but
/// whose text from its first `{` (at `i`) to its last `}` (at `j`) is a JSON
/// document, gives exactly that text, whatever stands around it.
pub proof fn json_is_found_inside_text(s: Seq<char>, i: int, j: int)
    requires
        0 <= i < j < s.len(),
        s[i] == '{',
        s[j] == '}',
        forall|k: int| 0 <= k < i ==> s[k] != '{',
        forall|k: int| j < k < s.len() ==> s[k] != '}',
        json_valid(s.subrange(i, j + 1)),
    ensures
        json_valid(s) ==> extract_json_spec(s) == Some(s),
        !json_valid(s) ==> extract_json_spec(s) == Some(s.subrange(i, j + 1)),
{
    lemma_first_brace(s, 0, i);
    lemma_last_brace(s, s.len() as int, j);
}

} // verus!
