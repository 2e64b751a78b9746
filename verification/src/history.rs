//! Bounding the conversation history sent to the model.

use vstd::prelude::*;
use crate::chat::{ChatMessage, messages_view};
use crate::text::{
    byte_boundary, chars_byte_len, chars_of, concat, cut_bytes_with_note, cut_with_note, decimal,
    strings_view, u64_to_decimal, utf8_len,
};
use crate::models::{FileWrite, files_view};
use crate::protocol::{join_spec, join_strings};

verus! {

/// Byte sizes of the contents of `msgs`.
pub open spec fn content_sizes(msgs: Seq<(Seq<char>, Seq<char>)>) -> Seq<nat> {
    msgs.map_values(|m: (Seq<char>, Seq<char>)| utf8_len(m.1))
}

/// Sum of a sequence of sizes.
pub open spec fn sum_sizes(s: Seq<nat>) -> nat
    decreases s.len(),
{
    if s.len() == 0 {
        0
    } else {
        sum_sizes(s.drop_last()) + s.last()
    }
}

/// Start of the kept suffix: walking back from `j`, messages are kept while the
/// count stays within `max_m` and the bytes within `max_c`; `start` is never passed.
pub open spec fn tail_start(
    sizes: Seq<nat>,
    start: int,
    j: int,
    count: nat,
    used: nat,
    max_m: nat,
    max_c: nat,
) -> int
    decreases j - start,
{
    if j <= start || j > sizes.len() {
        j
    } else if count + 1 > max_m || used + sizes[j - 1] > max_c {
        j
    } else {
        tail_start(sizes, start, j - 1, count + 1, used + sizes[j - 1], max_m, max_c)
    }
}

/// Whether the first message is kept in front of the suffix.
pub open spec fn keeps_system(msgs: Seq<(Seq<char>, Seq<char>)>) -> bool {
    msgs.len() > 0 && msgs[0].0 == "system"@
}

/// Where the kept suffix starts.
pub open spec fn kept_from(msgs: Seq<(Seq<char>, Seq<char>)>, max_m: nat, max_c: nat) -> int {
    let sizes = content_sizes(msgs);
    if keeps_system(msgs) {
        tail_start(sizes, 1, msgs.len() as int, 1, sizes[0], max_m, max_c)
    } else {
        tail_start(sizes, 0, msgs.len() as int, 0, 0, max_m, max_c)
    }
}

/// The messages that trimming keeps.
pub open spec fn trimmed_history(msgs: Seq<(Seq<char>, Seq<char>)>, max_m: nat, max_c: nat) -> Seq<
    (Seq<char>, Seq<char>),
> {
    let j = kept_from(msgs, max_m, max_c);
    if keeps_system(msgs) {
        seq![msgs[0]] + msgs.subrange(j, msgs.len() as int)
    } else {
        msgs.subrange(j, msgs.len() as int)
    }
}

/// Whether trimming is needed at all.
pub open spec fn history_within(msgs: Seq<(Seq<char>, Seq<char>)>, max_m: nat, max_c: nat) -> bool {
    msgs.len() <= max_m && sum_sizes(content_sizes(msgs)) <= max_c
}

/// Bytes of the kept messages.
pub open spec fn kept_bytes(msgs: Seq<(Seq<char>, Seq<char>)>, max_m: nat, max_c: nat) -> nat {
    let sizes = content_sizes(msgs);
    let j = kept_from(msgs, max_m, max_c);
    (if keeps_system(msgs) {
        sizes[0]
    } else {
        0
    }) + sum_sizes(sizes.subrange(j, msgs.len() as int))
}

proof fn lemma_sum_take(s: Seq<nat>, i: int)
    requires
        0 <= i < s.len(),
    ensures
        sum_sizes(s.take(i + 1)) == sum_sizes(s.take(i)) + s[i],
{
    assert(s.take(i + 1).drop_last() =~= s.take(i));
}

proof fn lemma_sum_take_le(s: Seq<nat>, i: int)
    requires
        0 <= i <= s.len(),
    ensures
        sum_sizes(s.take(i)) <= sum_sizes(s),
    decreases s.len() - i,
{
    if i < s.len() {
        lemma_sum_take(s, i);
        lemma_sum_take_le(s, i + 1);
    } else {
        assert(s.take(i) =~= s);
    }
}

proof fn lemma_sum_front(s: Seq<nat>)
    requires
        s.len() > 0,
    ensures
        sum_sizes(s) == s[0] + sum_sizes(s.drop_first()),
    decreases s.len(),
{
    if s.len() > 1 {
        lemma_sum_front(s.drop_last());
        assert(s.drop_last().drop_first() =~= s.drop_first().drop_last());
    } else {
        assert(s.drop_first() =~= Seq::<nat>::empty());
        assert(s.drop_last() =~= Seq::<nat>::empty());
    }
}

proof fn lemma_sum_split(s: Seq<nat>, j: int)
    requires
        0 <= j <= s.len(),
    ensures
        sum_sizes(s) == sum_sizes(s.take(j)) + sum_sizes(s.subrange(j, s.len() as int)),
    decreases s.len(),
{
    if s.len() == j {
        assert(s.take(j) =~= s);
        assert(s.subrange(j, s.len() as int) =~= Seq::<nat>::empty());
    } else {
        lemma_sum_split(s.drop_last(), j);
        assert(s.drop_last().take(j) =~= s.take(j));
        assert(s.subrange(j, s.len() as int).drop_last() =~= s.drop_last().subrange(
            j,
            s.drop_last().len() as int,
        ));
    }
}

proof fn lemma_element_le_sum(s: Seq<nat>, i: int)
    requires
        0 <= i < s.len(),
    ensures
        s[i] <= sum_sizes(s),
{
    lemma_sum_take(s, i);
    lemma_sum_take_le(s, i + 1);
}

/// Drops the oldest messages so that at most `max_messages` messages and
/// `max_chars` bytes of content remain, always keeping a leading system
/// message. Returns how many messages and bytes were dropped, or `None`
/// (and leaves the history unchanged) when nothing had to go.
pub fn trim_message_history_for_speed(
    messages: &mut Vec<ChatMessage>,
    max_messages: usize,
    max_chars: usize,
) -> (r: Option<(usize, usize)>)
    requires
        sum_sizes(content_sizes(messages_view(old(messages)@))) <= usize::MAX,
    ensures
        ({
            let m0 = messages_view(old(messages)@);
            let kept = trimmed_history(m0, max_messages as nat, max_chars as nat);
            if m0.len() == 0 || history_within(m0, max_messages as nat, max_chars as nat)
                || kept.len() == m0.len() {
                &&& r is None
                &&& final(messages)@ == old(messages)@
            } else {
                &&& r == Some(
                    (
                        (m0.len() - kept.len()) as usize,
                        (sum_sizes(content_sizes(m0)) - kept_bytes(
                            m0,
                            max_messages as nat,
                            max_chars as nat,
                        )) as usize,
                    ),
                )
                &&& messages_view(final(messages)@) == kept
            }
        }),
{
    let ghost m0 = messages_view(messages@);
    let ghost sz = content_sizes(m0);
    let n = messages.len();
    let mut sizes: Vec<usize> = Vec::new();
    let mut total: usize = 0;
    let mut i: usize = 0;
    while i < n
        invariant
            n == messages.len(),
            m0 == messages_view(messages@),
            sz == content_sizes(m0),
            sum_sizes(sz) <= usize::MAX,
            i <= n,
            sizes@.len() == i,
            forall|k: int| 0 <= k < i ==> sizes@[k] == sz[k],
            total == sum_sizes(sz.take(i as int)),
        decreases n - i,
    {
        proof {
            lemma_sum_take(sz, i as int);
            lemma_sum_take_le(sz, i + 1);
        }
        let c = chars_of(messages[i].content.as_str());
        assert(sz[i as int] == utf8_len(c@));
        let b = chars_byte_len(&c);
        sizes.push(b);
        total = total + b;
        i += 1;
    }
    assert(sz.take(n as int) =~= sz);
    if n == 0 {
        return None;
    }
    if n <= max_messages && total <= max_chars {
        return None;
    }
    let keep_first = str_is_system(&messages[0]);
    let start: usize = if keep_first { 1 } else { 0 };
    let mut used: usize = if keep_first { sizes[0] } else { 0 };
    let mut count: usize = start;
    let mut j: usize = n;
    let ghost used0 = used as nat;
    proof {
        if keep_first {
            lemma_element_le_sum(sz, 0);
        }
        assert(sz.subrange(n as int, n as int) =~= Seq::<nat>::empty());
    }
    while j > start
        invariant
            n == messages.len(),
            sz.len() == n,
            sizes@.len() == n,
            forall|k: int| 0 <= k < n ==> sizes@[k] == sz[k],
            start <= j <= n,
            count == start + (n - j),
            used == used0 + sum_sizes(sz.subrange(j as int, n as int)),
            kept_from(m0, max_messages as nat, max_chars as nat) == tail_start(
                sz,
                start as int,
                j as int,
                count as nat,
                used as nat,
                max_messages as nat,
                max_chars as nat,
            ),
        ensures
            start <= j <= n,
            count == start + (n - j),
            used == used0 + sum_sizes(sz.subrange(j as int, n as int)),
            kept_from(m0, max_messages as nat, max_chars as nat) == j,
        decreases j,
    {
        let c = sizes[j - 1];
        if count >= max_messages || used > max_chars || c > max_chars - used {
            break;
        }
        proof {
            assert(sz.subrange(j - 1, n as int).drop_first() =~= sz.subrange(j as int, n as int));
            lemma_sum_front(sz.subrange(j - 1, n as int));
        }
        used = used + c;
        count = count + 1;
        j = j - 1;
    }
    proof {
        lemma_sum_split(sz, j as int);
        if keep_first {
            lemma_sum_take_le(sz, j as int);
            lemma_sum_take(sz, 0);
            assert(sz.take(0) =~= Seq::<nat>::empty());
            lemma_sum_take_le(sz.take(j as int), 1);
            assert(sz.take(j as int).take(1) =~= sz.take(1));
        }
    }
    let kept_len = start + (n - j);
    if kept_len == n {
        return None;
    }
    let mut kept: Vec<ChatMessage> = Vec::new();
    if keep_first {
        kept.push(messages[0].duplicate());
    }
    let mut k: usize = j;
    while k < n
        invariant
            n == messages.len(),
            m0 == messages_view(messages@),
            j <= k <= n,
            messages_view(kept@) == (if keep_first {
                seq![m0[0]]
            } else {
                Seq::empty()
            }) + m0.subrange(j as int, k as int),
        decreases n - k,
    {
        let ghost before = kept@;
        kept.push(messages[k].duplicate());
        k += 1;
        assert(messages_view(kept@) =~= messages_view(before).push(m0[k - 1]));
        assert(messages_view(kept@) =~= (if keep_first {
            seq![m0[0]]
        } else {
            Seq::empty()
        }) + m0.subrange(j as int, k as int));
    }
    *messages = kept;
    Some((n - kept_len, total - used))
}

proof fn lemma_tail_start_bounds(
    sizes: Seq<nat>,
    start: int,
    j: int,
    count: nat,
    used: nat,
    max_m: nat,
    max_c: nat,
)
    requires
        0 <= start <= j <= sizes.len(),
        count <= max_m,
        used <= max_c,
    ensures
        start <= tail_start(sizes, start, j, count, used, max_m, max_c) <= j,
        count + (j - tail_start(sizes, start, j, count, used, max_m, max_c)) <= max_m,
        used + sum_sizes(sizes.subrange(tail_start(sizes, start, j, count, used, max_m, max_c), j))
            <= max_c,
    decreases j - start,
{
    let t = tail_start(sizes, start, j, count, used, max_m, max_c);
    if j <= start || count + 1 > max_m || used + sizes[j - 1] > max_c {
        assert(sizes.subrange(j, j) =~= Seq::<nat>::empty());
    } else {
        lemma_tail_start_bounds(sizes, start, j - 1, count + 1, used + sizes[j - 1], max_m, max_c);
        assert(sizes.subrange(t, j).drop_last() =~= sizes.subrange(t, j - 1));
    }
}

/// Trimming keeps a leading system message in front, keeps a suffix of the
/// rest, and leaves at most `max_m` messages and at most `max_c` content
/// bytes (given that the system message alone fits, and `max_m >= 1`).
pub proof fn trim_keeps_system_and_bounds(msgs: Seq<(Seq<char>, Seq<char>)>, max_m: nat, max_c: nat)
    requires
        max_m >= 1,
        keeps_system(msgs) ==> utf8_len(msgs[0].1) <= max_c,
    ensures
        ({
            let kept = trimmed_history(msgs, max_m, max_c);
            let j = kept_from(msgs, max_m, max_c);
            &&& keeps_system(msgs) ==> kept.len() > 0 && kept[0] == msgs[0]
            &&& (if keeps_system(msgs) { 1int } else { 0int }) <= j <= msgs.len()
            &&& kept.len() <= max_m
            &&& kept_bytes(msgs, max_m, max_c) <= max_c
        }),
{
    let sizes = content_sizes(msgs);
    if keeps_system(msgs) {
        lemma_tail_start_bounds(sizes, 1, msgs.len() as int, 1, sizes[0], max_m, max_c);
    } else {
        lemma_tail_start_bounds(sizes, 0, msgs.len() as int, 0, 0, max_m, max_c);
    }
}

/// Whether the message has the `system` role.
fn str_is_system(m: &ChatMessage) -> (b: bool)
    ensures
        b == (m.role@ == "system"@),
{
    crate::text::str_eq(m.role.as_str(), "system")
}

/// An assistant reply shortened for the history.
pub open spec fn compact_spec(s: Seq<char>, max: nat) -> Seq<char> {
    cut_with_note(s, max, "\n...[history truncated "@, " chars]"@)
}

/// Keeps the first `max` bytes of an assistant reply and notes how much was cut.
pub fn compact_assistant_text(s: &str, max: usize) -> (r: String)
    requires
        utf8_len(s@) <= usize::MAX,
        byte_boundary(s@, max as nat),
    ensures
        r@ == compact_spec(s@, max as nat),
{
    cut_bytes_with_note(s, max, "\n...[history truncated ", " chars]")
}

/// The paths of the first 30 files.
pub open spec fn first_paths(files: Seq<(Seq<char>, Seq<char>)>) -> Seq<Seq<char>> {
    let n = if files.len() < 30 {
        files.len() as int
    } else {
        30
    };
    files.take(n).map_values(|f: (Seq<char>, Seq<char>)| f.0)
}

/// The history entry for a patch: a header naming the summary, the file
/// count and up to 30 paths, then the raw patch JSON cut at 16000 bytes.
pub open spec fn patch_history_spec(summary: Seq<char>, files: Seq<(Seq<char>, Seq<char>)>, raw: Seq<char>) -> Seq<char> {
    "kind=patch summary="@ + summary + " file_count="@ + decimal(files.len()) + " paths=["@
        + join_spec(first_paths(files), ", "@) + "]"@ + "\n"@ + compact_spec(raw, 16000)
}

/// Summarises a patch for the conversation history.
pub fn compact_patch_history(summary: &str, files: &[FileWrite], raw_patch_json: &str) -> (r: String)
    requires
        utf8_len(raw_patch_json@) <= usize::MAX,
        byte_boundary(raw_patch_json@, 16000),
    ensures
        r@ == patch_history_spec(summary@, files_view(files@), raw_patch_json@),
{
    let ghost fv = files_view(files@);
    let n: usize = if files.len() < 30 {
        files.len()
    } else {
        30
    };
    let mut paths: Vec<String> = Vec::new();
    let mut i: usize = 0;
    while i < n
        invariant
            fv == files_view(files@),
            n <= files.len(),
            n == (if files.len() < 30 { files.len() as int } else { 30 }),
            i <= n,
            strings_view(paths@) == first_paths(fv).take(i as int),
        decreases n - i,
    {
        let ghost before = paths@;
        paths.push(files[i].path.clone());
        assert(strings_view(paths@) =~= strings_view(before).push(fv[i as int].0));
        i += 1;
        assert(strings_view(paths@) =~= first_paths(fv).take(i as int));
    }
    assert(first_paths(fv).take(n as int) =~= first_paths(fv));
    let joined = join_strings(&paths, ", ");
    let count = u64_to_decimal(files.len() as u64);
    let h1 = concat("kind=patch summary=", summary);
    let h2 = concat(h1.as_str(), " file_count=");
    let h3 = concat(h2.as_str(), count.as_str());
    let h4 = concat(h3.as_str(), " paths=[");
    let h5 = concat(h4.as_str(), joined.as_str());
    let h6 = concat(h5.as_str(), "]");
    let h7 = concat(h6.as_str(), "\n");
    let raw = compact_assistant_text(raw_patch_json, 16000);
    concat(h7.as_str(), raw.as_str())
}

} // verus!
