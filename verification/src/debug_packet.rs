//! The self-debug snapshot handed to the model after a failed evaluation:
//! the failure, the state of the repository and the tails of the output.

use vstd::prelude::*;
use crate::protocol::{join_spec, join_strings};
use crate::text::{
    bytes_exceed, chars_of, concat, fit_prefix, fit_prefix_exec, lemma_fit_prefix, lines, split_lines,
    string_of, strings_view, trim_chars, trim_seq, utf8_len, char_vecs_view,
};

verus! {

/// The longest a section body may be, in bytes.
pub const MAX_SECTION: usize = 1200;

/// The longest the whole snapshot may be, in bytes.
pub const MAX_PACKET: usize = 3800;

/// `s` cut at the last character boundary within `max` bytes and marked
/// ` ...[truncated]`; `s` itself when it fits.
pub open spec fn clip_spec(s: Seq<char>, max: nat) -> Seq<char> {
    if utf8_len(s) <= max {
        s
    } else {
        s.take(fit_prefix(s, max as int) as int) + " ...[truncated]"@
    }
}

/// Cuts text to `max` bytes (see `clip_spec`).
pub fn clip(s: &str, max: usize) -> (r: String)
    ensures
        r@ == clip_spec(s@, max as nat),
{
    let v = chars_of(s);
    if !bytes_exceed(&v, max) {
        return String::from_str(s);
    }
    let k = fit_prefix_exec(&v, max);
    proof {
        lemma_fit_prefix(v@, max as int);
    }
    let head = string_of(&v.as_slice()[0..k]);
    assert(v@.subrange(0, k as int) =~= v@.take(k as int));
    concat(head.as_str(), " ...[truncated]")
}

/// The last `n` lines of `input`, joined with newlines.
pub open spec fn tail_lines_spec(input: Seq<char>, n: nat) -> Seq<char> {
    let ls = lines(input);
    let start = if ls.len() > n { ls.len() - n } else { 0 };
    join_spec(ls.skip(start as int), "\n"@)
}

/// The last `n` lines of `input` (see `tail_lines_spec`).
pub fn tail_lines(input: &str, n: usize) -> (r: String)
    ensures
        r@ == tail_lines_spec(input@, n as nat),
{
    let ls = split_lines(&chars_of(input));
    let start: usize = if ls.len() > n { ls.len() - n } else { 0 };
    let ghost all = char_vecs_view(ls@);
    let mut kept: Vec<String> = Vec::new();
    let mut i: usize = start;
    while i < ls.len()
        invariant
            start <= i <= ls.len(),
            all == char_vecs_view(ls@),
            strings_view(kept@) == all.subrange(start as int, i as int),
        decreases ls.len() - i,
    {
        let ghost before = strings_view(kept@);
        kept.push(string_of(ls[i].as_slice()));
        assert(strings_view(kept@) =~= before.push(all[i as int]));
        assert(all.subrange(start as int, i + 1) =~= all.subrange(start as int, i as int).push(all[i as int]));
        i += 1;
    }
    assert(all.subrange(start as int, ls.len() as int) =~= all.skip(start as int));
    join_strings(&kept, "\n")
}

/// Every line prefixed and ended with a newline.
pub open spec fn indent_spec(ls: Seq<Seq<char>>, prefix: Seq<char>) -> Seq<char>
    decreases ls.len(),
{
    if ls.len() == 0 {
        Seq::empty()
    } else {
        indent_spec(ls.drop_last(), prefix) + prefix + ls.last() + "\n"@
    }
}

proof fn lemma_indent_ends_nl(ls: Seq<Seq<char>>, prefix: Seq<char>)
    ensures
        indent_spec(ls, prefix).len() == 0 || indent_spec(ls, prefix).last() == '\n',
{
    reveal_strlit("\n");
}

/// Indents every line of `text` with `prefix` (see `indent_spec`).
pub fn indent_block(text: &str, prefix: &str) -> (r: String)
    ensures
        r@ == indent_spec(lines(text@), prefix@),
{
    let ls = split_lines(&chars_of(text));
    let ghost all = char_vecs_view(ls@);
    let mut out = String::new();
    let mut i: usize = 0;
    while i < ls.len()
        invariant
            i <= ls.len(),
            all == char_vecs_view(ls@),
            all == lines(text@),
            out@ == indent_spec(all.take(i as int), prefix@),
        decreases ls.len() - i,
    {
        let line = string_of(ls[i].as_slice());
        let a = concat(out.as_str(), prefix);
        let b = concat(a.as_str(), line.as_str());
        out = concat(b.as_str(), "\n");
        assert(all.take(i + 1).drop_last() =~= all.take(i as int));
        i += 1;
    }
    assert(all.take(ls.len() as int) =~= all);
    out
}

/// A titled section: `(empty)` for a blank body, else the body cut to
/// `MAX_SECTION` bytes and indented by two spaces.
pub open spec fn section_spec(title: Seq<char>, body: Seq<char>) -> Seq<char> {
    title + ":\n"@ + if trim_seq(body).len() == 0 {
        "  (empty)\n"@
    } else {
        indent_spec(lines(clip_spec(body, MAX_SECTION as nat)), "  "@)
    }
}

/// Appends a section (see `section_spec`).
fn append_section(out: &mut String, title: &str, body: &str)
    ensures
        final(out)@ == old(out)@ + section_spec(title@, body@),
{
    let head = concat(title, ":\n");
    let mut s = concat(out.as_str(), head.as_str());
    if trim_chars(&chars_of(body)).len() == 0 {
        s = concat(s.as_str(), "  (empty)\n");
    } else {
        let c = clip(body, MAX_SECTION);
        let ind = indent_block(c.as_str(), "  ");
        let ghost before = s@;
        s = concat(s.as_str(), ind.as_str());
        proof {
            reveal_strlit(":\n");
            lemma_indent_ends_nl(lines(c@), "  "@);
            assert(s@.len() > 0 && s@.last() == '\n') by {
                if ind@.len() > 0 {
                    assert(s@.last() == ind@.last());
                } else {
                    assert(s@ =~= before);
                    assert(before.last() == head@.last());
                }
            }
        }
        let sv = chars_of(s.as_str());
        if sv[sv.len() - 1] != '\n' {
            s = concat(s.as_str(), "\n");
        }
    }
    *out = s;
}

/// The failure key lines of a snapshot: at most the first 8, each
/// `  - <line cut to 220 bytes>`.
pub open spec fn key_lines_block(key_lines: Seq<Seq<char>>) -> Seq<char>
    decreases key_lines.len(),
{
    if key_lines.len() == 0 {
        Seq::empty()
    } else {
        key_lines_block(key_lines.drop_last()) + "  - "@ + clip_spec(key_lines.last(), 220) + "\n"@
    }
}

/// The snapshot before the final cut.
pub open spec fn packet_body(workspace: Seq<char>, category: Seq<char>, signature: Seq<char>, key_lines: Seq<Seq<char>>,
    git_status: Seq<char>, git_last: Seq<char>, git_diff_stat: Seq<char>, key_files: Seq<char>,
    eval_stdout: Seq<char>, eval_stderr: Seq<char>) -> Seq<char> {
    "[Self-Debug Snapshot]\n"@
        + "workspace: "@ + workspace + "\n"@
        + "failure_category: "@ + category + "\n"@
        + "failure_signature: "@ + clip_spec(signature, 220) + "\n"@
        + (if key_lines.len() > 0 {
            "failure_key_lines:\n"@ + key_lines_block(if key_lines.len() > 8 { key_lines.take(8) } else { key_lines })
        } else {
            Seq::empty()
        })
        + section_spec("git_status_short"@, git_status)
        + section_spec("git_last_3_commits"@, git_last)
        + section_spec("git_diff_stat"@, git_diff_stat)
        + section_spec("workspace_key_files"@, key_files)
        + section_spec("eval_stderr_tail"@, tail_lines_spec(eval_stderr, 40))
        + section_spec("eval_stdout_tail"@, tail_lines_spec(eval_stdout, 30))
}

/// The self-debug snapshot: the failure, the outputs of `git status
/// --short`, `git log --oneline -n 3` and `git diff --stat` and the list of
/// key files (as the caller ran them), the last 40 lines of the evaluation's
/// stderr and 30 of its stdout; cut to `MAX_PACKET` bytes.
pub fn debug_packet(workspace: &str, category: &str, signature: &str, key_lines: &[String],
    git_status: &str, git_last: &str, git_diff_stat: &str, key_files: &str,
    eval_stdout: &str, eval_stderr: &str) -> (r: String)
    ensures
        r@ == clip_spec(packet_body(workspace@, category@, signature@, strings_view(key_lines@), git_status@,
            git_last@, git_diff_stat@, key_files@, eval_stdout@, eval_stderr@), MAX_PACKET as nat),
{
    let mut p = String::from_str("[Self-Debug Snapshot]\n");
    p = concat(p.as_str(), "workspace: ");
    p = concat(p.as_str(), workspace);
    p = concat(p.as_str(), "\n");
    p = concat(p.as_str(), "failure_category: ");
    p = concat(p.as_str(), category);
    p = concat(p.as_str(), "\n");
    p = concat(p.as_str(), "failure_signature: ");
    let sig = clip(signature, 220);
    p = concat(p.as_str(), sig.as_str());
    p = concat(p.as_str(), "\n");
    let ghost before_keys = p@;
    if key_lines.len() > 0 {
        p = concat(p.as_str(), "failure_key_lines:\n");
        let ghost base = p@;
        let ghost kl = strings_view(key_lines@);
        let n: usize = if key_lines.len() > 8 { 8 } else { key_lines.len() };
        let mut i: usize = 0;
        while i < n
            invariant
                i <= n <= key_lines.len(),
                n == (if key_lines.len() > 8 { 8 } else { key_lines.len() }),
                kl == strings_view(key_lines@),
                p@ == base + key_lines_block(kl.take(i as int)),
            decreases n - i,
        {
            let line = clip(key_lines[i].as_str(), 220);
            p = concat(p.as_str(), "  - ");
            p = concat(p.as_str(), line.as_str());
            p = concat(p.as_str(), "\n");
            assert(kl.take(i + 1).drop_last() =~= kl.take(i as int));
            i += 1;
        }
        assert(kl.take(n as int) =~= (if kl.len() > 8 { kl.take(8) } else { kl }));
    }
    append_section(&mut p, "git_status_short", git_status);
    append_section(&mut p, "git_last_3_commits", git_last);
    append_section(&mut p, "git_diff_stat", git_diff_stat);
    append_section(&mut p, "workspace_key_files", key_files);
    let err_tail = tail_lines(eval_stderr, 40);
    append_section(&mut p, "eval_stderr_tail", err_tail.as_str());
    let out_tail = tail_lines(eval_stdout, 30);
    append_section(&mut p, "eval_stdout_tail", out_tail.as_str());
    assert(p@ =~= packet_body(workspace@, category@, signature@, strings_view(key_lines@), git_status@,
        git_last@, git_diff_stat@, key_files@, eval_stdout@, eval_stderr@));
    clip(p.as_str(), MAX_PACKET)
}

} // verus!
