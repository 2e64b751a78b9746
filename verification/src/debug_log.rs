//! Client-side error logs that the browser reports to the console.

use vstd::prelude::*;
use crate::buffers::{evict, sat_add_usize, total_size, lemma_evict_bounds, lemma_total_size_push};
use crate::text::{
    byte_boundary, bytes_exceed, chars_byte_len, chars_of, chars_slice, concat, fit_prefix,
    fit_prefix_exec, lemma_fit_prefix, string_of, utf8_len,
};

verus! {

/// One log entry reported by the browser.
#[derive(Debug, Clone)]
pub struct ClientLogEntry {
    pub ts_unix: u64,
    pub level: String,
    pub message: String,
    pub href: String,
    pub user_agent: String,
    pub stack: String,
}

/// A log report as the browser sends it.
#[derive(Debug)]
pub struct ClientLogInput {
    pub level: Option<String>,
    pub message: Option<String>,
    pub href: Option<String>,
    pub user_agent: Option<String>,
    pub stack: Option<String>,
}

/// The query of a log listing.
#[derive(Debug)]
pub struct ClientLogQuery {
    pub limit: Option<usize>,
}

/// A log listing.
#[derive(Debug)]
pub struct ClientLogListResponse {
    pub entries: Vec<ClientLogEntry>,
}

/// The estimated memory an entry takes: its text bytes plus 32.
pub open spec fn entry_size(e: ClientLogEntry) -> nat {
    utf8_len(e.level@) + utf8_len(e.message@) + utf8_len(e.href@) + utf8_len(e.user_agent@)
        + utf8_len(e.stack@) + 32
}

/// `entry_size` as a function value.
pub open spec fn entry_size_fn() -> spec_fn(ClientLogEntry) -> nat {
    |e: ClientLogEntry| entry_size(e)
}

/// Estimates the memory an entry takes.
pub fn estimate_entry_bytes(e: &ClientLogEntry) -> (n: usize)
    requires
        entry_size(*e) <= usize::MAX,
    ensures
        n == entry_size(*e),
{
    let a = chars_byte_len(&chars_of(e.level.as_str()));
    let b = chars_byte_len(&chars_of(e.message.as_str()));
    let c = chars_byte_len(&chars_of(e.href.as_str()));
    let d = chars_byte_len(&chars_of(e.user_agent.as_str()));
    let f = chars_byte_len(&chars_of(e.stack.as_str()));
    a + b + c + d + f + 32
}

/// Appends an entry, then drops the oldest entries while more than
/// `max_entries` remain or the byte count exceeds `max_bytes`.
pub fn push_entry(
    entries: &mut Vec<ClientLogEntry>,
    bytes: &mut usize,
    entry: ClientLogEntry,
    max_entries: usize,
    max_bytes: usize,
)
    requires
        entry_size(entry) <= usize::MAX,
        forall|k: int| 0 <= k < old(entries)@.len() ==> entry_size(#[trigger] old(entries)@[k]) <= usize::MAX,
    ensures
        (final(entries)@, *final(bytes) as nat) == evict(
            old(entries)@.push(entry),
            sat_add_usize(*old(bytes) as nat, entry_size(entry)),
            entry_size_fn(),
            max_entries as nat,
            max_bytes as nat,
        ),
{
    let add = estimate_entry_bytes(&entry);
    entries.push(entry);
    *bytes = bytes.saturating_add(add);
    let ghost q0 = entries@;
    let ghost b0 = *bytes as nat;
    while entries.len() > max_entries || *bytes > max_bytes
        invariant
            forall|k: int| 0 <= k < entries@.len() ==> entry_size(#[trigger] entries@[k]) <= usize::MAX,
            evict(q0, b0, entry_size_fn(), max_entries as nat, max_bytes as nat) == evict(
                entries@,
                *bytes as nat,
                entry_size_fn(),
                max_entries as nat,
                max_bytes as nat,
            ),
        ensures
            evict(q0, b0, entry_size_fn(), max_entries as nat, max_bytes as nat) == (
                entries@,
                *bytes as nat,
            ),
        decreases entries.len(),
    {
        if entries.len() == 0 {
            break;
        }
        let old_size = estimate_entry_bytes(&entries[0]);
        *bytes = bytes.saturating_sub(old_size);
        let ghost before = entries@;
        entries.remove(0);
        assert(entries@ =~= before.drop_first());
    }
}

/// Cuts text at byte `max`, marking the cut with `...`.
pub open spec fn clamp_spec(s: Seq<char>, max: nat) -> Seq<char> {
    if utf8_len(s) <= max {
        s
    } else {
        s.take(fit_prefix(s, max as int) as int) + "..."@
    }
}

/// Limits text to `max` bytes (plus a `...` marker when cut).
pub fn clamp_len(s: &str, max: usize) -> (r: String)
    requires
        byte_boundary(s@, max as nat),
    ensures
        r@ == clamp_spec(s@, max as nat),
{
    let v = chars_of(s);
    if !bytes_exceed(&v, max) {
        return String::from_str(s);
    }
    let k = fit_prefix_exec(&v, max);
    proof {
        lemma_fit_prefix(v@, max as int);
    }
    let head = chars_slice(&v, 0, k);
    assert(head@ =~= v@.take(k as int));
    let h = string_of(head.as_slice());
    concat(h.as_str(), "...")
}

/// The text of an optional field, or `default`.
pub open spec fn field_or(f: Option<String>, default: Seq<char>) -> Seq<char> {
    match f {
        Some(s) => s@,
        None => default,
    }
}

fn field_text<'a>(f: &'a Option<String>, default: &'static str) -> (r: &'a str)
    ensures
        r@ == field_or(*f, default@),
{
    match f {
        Some(s) => s.as_str(),
        None => default,
    }
}

/// The entry built from a browser report at time `now`: fields defaulted and
/// limited (level 16, message 2000, href 512, user agent 512, stack 8000
/// bytes); `None` when message and stack are both empty.
pub open spec fn client_entry_spec(input: ClientLogInput, now: u64) -> Option<(u64, Seq<char>, Seq<char>, Seq<char>, Seq<char>, Seq<char>)> {
    let level = clamp_spec(field_or(input.level, "error"@), 16);
    let message = clamp_spec(field_or(input.message, ""@), 2000);
    let href = clamp_spec(field_or(input.href, ""@), 512);
    let user_agent = clamp_spec(field_or(input.user_agent, ""@), 512);
    let stack = clamp_spec(field_or(input.stack, ""@), 8000);
    if message.len() == 0 && stack.len() == 0 {
        None
    } else {
        Some((now, level, message, href, user_agent, stack))
    }
}

/// Builds a log entry from a browser report, or `None` for an empty report.
pub fn build_client_log_entry(input: &ClientLogInput, now: u64) -> (r: Option<ClientLogEntry>)
    requires
        byte_boundary(field_or(input.level, "error"@), 16),
        byte_boundary(field_or(input.message, ""@), 2000),
        byte_boundary(field_or(input.href, ""@), 512),
        byte_boundary(field_or(input.user_agent, ""@), 512),
        byte_boundary(field_or(input.stack, ""@), 8000),
    ensures
        match client_entry_spec(*input, now) {
            Some(t) => r matches Some(e) && (e.ts_unix, e.level@, e.message@, e.href@, e.user_agent@, e.stack@) == t,
            None => r is None,
        },
{
    let level = clamp_len(field_text(&input.level, "error"), 16);
    let message = clamp_len(field_text(&input.message, ""), 2000);
    let href = clamp_len(field_text(&input.href, ""), 512);
    let user_agent = clamp_len(field_text(&input.user_agent, ""), 512);
    let stack = clamp_len(field_text(&input.stack, ""), 8000);
    if chars_of(message.as_str()).len() == 0 && chars_of(stack.as_str()).len() == 0 {
        return None;
    }
    Some(ClientLogEntry { ts_unix: now, level, message, href, user_agent, stack })
}

/// How many entries a listing returns: the asked number (default 50) within 1 to 200.
pub fn client_log_limit(limit: Option<usize>) -> (r: usize)
    ensures
        r == (match limit {
            Some(l) => if l < 1 {
                1
            } else if l > 200 {
                200
            } else {
                l
            },
            None => 50,
        }),
{
    let l = match limit {
        Some(l) => l,
        None => 50,
    };
    if l < 1 {
        1
    } else if l > 200 {
        200
    } else {
        l
    }
}

/// The views of the fields of an entry.
pub open spec fn entry_view(e: ClientLogEntry) -> (u64, Seq<char>, Seq<char>, Seq<char>, Seq<char>, Seq<char>) {
    (e.ts_unix, e.level@, e.message@, e.href@, e.user_agent@, e.stack@)
}

/// A copy of an entry.
pub fn copy_entry(e: &ClientLogEntry) -> (r: ClientLogEntry)
    ensures
        entry_view(r) == entry_view(*e),
{
    ClientLogEntry {
        ts_unix: e.ts_unix,
        level: e.level.clone(),
        message: e.message.clone(),
        href: e.href.clone(),
        user_agent: e.user_agent.clone(),
        stack: e.stack.clone(),
    }
}

/// The newest `limit` entries, oldest first.
pub fn recent_entries(entries: &Vec<ClientLogEntry>, limit: usize) -> (r: Vec<ClientLogEntry>)
    ensures
        r@.len() == (if entries.len() > limit { limit as int } else { entries.len() as int }),
        forall|k: int| 0 <= k < r@.len() ==> entry_view(#[trigger] r@[k]) == entry_view(
            entries@[entries@.len() - r@.len() + k],
        ),
{
    let start: usize = if entries.len() > limit {
        entries.len() - limit
    } else {
        0
    };
    let mut out: Vec<ClientLogEntry> = Vec::new();
    let mut i: usize = start;
    while i < entries.len()
        invariant
            start <= i <= entries.len(),
            start == (if entries.len() > limit { entries.len() - limit } else { 0 }),
            out@.len() == i - start,
            forall|k: int| 0 <= k < out@.len() ==> entry_view(#[trigger] out@[k]) == entry_view(
                entries@[start + k],
            ),
        decreases entries.len() - i,
    {
        out.push(copy_entry(&entries[i]));
        i += 1;
    }
    out
}

/// The in-memory store of browser log reports.
#[derive(Debug, Clone)]
pub struct DebugLogStore {
    entries: Vec<ClientLogEntry>,
    bytes: usize,
}

impl DebugLogStore {
    /// The stored entries, oldest first.
    pub closed spec fn entries_view(&self) -> Seq<ClientLogEntry> {
        self.entries@
    }

    /// The byte count kept with the entries.
    pub closed spec fn bytes_view(&self) -> nat {
        self.bytes as nat
    }

    /// The store holds at most 200 entries and about 256 KiB.
    pub closed spec fn wf(&self) -> bool {
        &&& self.bytes == total_size(self.entries@, entry_size_fn())
        &&& self.entries@.len() <= 200
        &&& self.bytes <= 262144
        &&& forall|k: int| 0 <= k < self.entries@.len() ==> entry_size(#[trigger] self.entries@[k]) <= usize::MAX
    }

    /// An empty store.
    pub fn new() -> (s: DebugLogStore)
        ensures
            s.wf(),
            s.entries_view().len() == 0,
            s.bytes_view() == 0,
    {
        DebugLogStore { entries: Vec::new(), bytes: 0 }
    }

    /// The stored entries.
    pub fn entries(&self) -> (r: &Vec<ClientLogEntry>)
        ensures
            r@ == self.entries_view(),
    {
        &self.entries
    }

    /// The byte count of the stored entries.
    pub fn bytes(&self) -> (r: usize)
        ensures
            r == self.bytes_view(),
    {
        self.bytes
    }

    /// Stores an entry, dropping the oldest beyond 200 entries or 256 KiB.
    pub fn push(&mut self, entry: ClientLogEntry)
        requires
            old(self).wf(),
            entry_size(entry) <= 262144,
        ensures
            final(self).wf(),
            (final(self).entries_view(), final(self).bytes_view()) == evict(
                old(self).entries_view().push(entry),
                old(self).bytes_view() + entry_size(entry),
                entry_size_fn(),
                200,
                262144,
            ),
    {
        let ghost q = self.entries@.push(entry);
        proof {
            lemma_total_size_push(self.entries@, entry, entry_size_fn());
            lemma_evict_bounds(q, (self.bytes + entry_size(entry)) as nat, entry_size_fn(), 200, 262144);
        }
        push_entry(&mut self.entries, &mut self.bytes, entry, 200, 262144);
        proof {
            let (r, _) = evict(q, (old(self).bytes + entry_size(entry)) as nat, entry_size_fn(), 200, 262144);
            assert forall|k: int| 0 <= k < self.entries@.len() implies entry_size(#[trigger] self.entries@[k]) <= usize::MAX by {
                assert(self.entries@[k] == q[q.len() - r.len() + k]);
            }
        }
    }
}

} // verus!
