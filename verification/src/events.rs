//! The event buffer between the agent and the browser, and the bookkeeping
//! done for each agent event.

use vstd::prelude::*;
use std::collections::VecDeque;
use crate::analytics::{
    RuntimeStatus, bounded_push, digest_category_spec, digest_signature_spec, eval_ms_spec,
    parse_eval_digest_category, parse_eval_digest_signature, parse_eval_ms, parse_perf_ms,
    perf_ms_spec, push_digest, push_done_history, push_sample,
};
use crate::buffers::{evict, sat_add_usize, total_size, lemma_evict_bounds, lemma_total_size_push};
use crate::models::{AgentEvent, ClarifyQuestion};
use crate::text::{
    chars_byte_len, chars_of, chars_start_with, contains, contains_lit, first_non_ws, char_is_ws,
    lower_chars, lowercase, starts_with, strings_view, trim_chars, trim_seq, utf8_len,
};

verus! {

/// An agent event as the browser receives it.
#[derive(Clone, Debug)]
pub enum SerializableEvent {
    Log { line: String },
    NeedClarify { questions: Vec<ClarifyQuestion> },
    Diff { diff: String },
    Done { success: bool, message: String },
}

/// The view of a clarifying question.
pub open spec fn question_view(q: ClarifyQuestion) -> (Seq<char>, Seq<char>, Seq<char>, Seq<Seq<char>>) {
    (q.id@, q.question@, q.qtype@, strings_view(q.options@))
}

/// The view of an event.
pub enum EventView {
    Log(Seq<char>),
    NeedClarify(Seq<(Seq<char>, Seq<char>, Seq<char>, Seq<Seq<char>>)>),
    Diff(Seq<char>),
    Done(bool, Seq<char>),
}

/// The view of an event.
pub open spec fn event_view(e: SerializableEvent) -> EventView {
    match e {
        SerializableEvent::Log { line } => EventView::Log(line@),
        SerializableEvent::NeedClarify { questions } => EventView::NeedClarify(
            questions@.map_values(|q: ClarifyQuestion| question_view(q)),
        ),
        SerializableEvent::Diff { diff } => EventView::Diff(diff@),
        SerializableEvent::Done { success, message } => EventView::Done(success, message@),
    }
}

/// The view of an agent event.
pub open spec fn agent_event_view(e: AgentEvent) -> EventView {
    match e {
        AgentEvent::Log(line) => EventView::Log(line@),
        AgentEvent::NeedClarify { questions } => EventView::NeedClarify(
            questions@.map_values(|q: ClarifyQuestion| question_view(q)),
        ),
        AgentEvent::Diff { diff } => EventView::Diff(diff@),
        AgentEvent::Done { success, message } => EventView::Done(success, message@),
    }
}

/// Converts an agent event for the browser.
pub fn from_agent_event(evt: AgentEvent) -> (r: SerializableEvent)
    ensures
        event_view(r) == agent_event_view(evt),
{
    match evt {
        AgentEvent::Log(line) => SerializableEvent::Log { line },
        AgentEvent::NeedClarify { questions } => SerializableEvent::NeedClarify { questions },
        AgentEvent::Diff { diff } => SerializableEvent::Diff { diff },
        AgentEvent::Done { success, message } => SerializableEvent::Done { success, message },
    }
}

/// Sum of the byte lengths of strings.
pub open spec fn strings_bytes(v: Seq<Seq<char>>) -> nat
    decreases v.len(),
{
    if v.len() == 0 {
        0
    } else {
        strings_bytes(v.drop_last()) + utf8_len(v.last())
    }
}

/// Bytes of a clarifying question: id, question, type and options.
pub open spec fn question_bytes(q: (Seq<char>, Seq<char>, Seq<char>, Seq<Seq<char>>)) -> nat {
    utf8_len(q.0) + utf8_len(q.1) + utf8_len(q.2) + strings_bytes(q.3)
}

/// Bytes of a list of clarifying questions.
pub open spec fn questions_bytes(v: Seq<(Seq<char>, Seq<char>, Seq<char>, Seq<Seq<char>>)>) -> nat
    decreases v.len(),
{
    if v.len() == 0 {
        0
    } else {
        questions_bytes(v.drop_last()) + question_bytes(v.last())
    }
}

/// The size an event is accounted with: the bytes of its text.
pub open spec fn event_size(e: EventView) -> nat {
    match e {
        EventView::Log(line) => utf8_len(line),
        EventView::Diff(diff) => utf8_len(diff),
        EventView::Done(_, message) => utf8_len(message),
        EventView::NeedClarify(qs) => questions_bytes(qs),
    }
}

/// `event_size` of a buffered entry, as a function value.
pub open spec fn entry_event_size() -> spec_fn((usize, SerializableEvent)) -> nat {
    |p: (usize, SerializableEvent)| event_size(event_view(p.1))
}

fn strings_byte_total(v: &Vec<String>) -> (n: usize)
    requires
        strings_bytes(strings_view(v@)) <= usize::MAX,
    ensures
        n == strings_bytes(strings_view(v@)),
{
    let ghost sv = strings_view(v@);
    let mut n: usize = 0;
    let mut i: usize = 0;
    while i < v.len()
        invariant
            sv == strings_view(v@),
            strings_bytes(sv) <= usize::MAX,
            i <= v.len(),
            n == strings_bytes(sv.take(i as int)),
        decreases v.len() - i,
    {
        assert(sv.take(i + 1).drop_last() =~= sv.take(i as int));
        proof {
            lemma_strings_bytes_prefix(sv, i + 1);
        }
        let c = chars_byte_len(&chars_of(v[i].as_str()));
        n = n + c;
        i += 1;
    }
    assert(sv.take(v.len() as int) =~= sv);
    n
}

proof fn lemma_strings_bytes_prefix(v: Seq<Seq<char>>, i: int)
    requires
        0 <= i <= v.len(),
    ensures
        strings_bytes(v.take(i)) <= strings_bytes(v),
    decreases v.len() - i,
{
    if i < v.len() {
        lemma_strings_bytes_prefix(v, i + 1);
        assert(v.take(i + 1).drop_last() =~= v.take(i));
    } else {
        assert(v.take(i) =~= v);
    }
}

proof fn lemma_questions_bytes_prefix(v: Seq<(Seq<char>, Seq<char>, Seq<char>, Seq<Seq<char>>)>, i: int)
    requires
        0 <= i <= v.len(),
    ensures
        questions_bytes(v.take(i)) <= questions_bytes(v),
    decreases v.len() - i,
{
    if i < v.len() {
        lemma_questions_bytes_prefix(v, i + 1);
        assert(v.take(i + 1).drop_last() =~= v.take(i));
    } else {
        assert(v.take(i) =~= v);
    }
}

/// The size an event is accounted with.
pub fn serializable_event_size(evt: &SerializableEvent) -> (n: usize)
    requires
        event_size(event_view(*evt)) <= usize::MAX,
    ensures
        n == event_size(event_view(*evt)),
{
    match evt {
        SerializableEvent::Log { line } => chars_byte_len(&chars_of(line.as_str())),
        SerializableEvent::Diff { diff } => chars_byte_len(&chars_of(diff.as_str())),
        SerializableEvent::Done { message, .. } => chars_byte_len(&chars_of(message.as_str())),
        SerializableEvent::NeedClarify { questions } => {
            let ghost qv = questions@.map_values(|q: ClarifyQuestion| question_view(q));
            let mut n: usize = 0;
            let mut i: usize = 0;
            while i < questions.len()
                invariant
                    qv == questions@.map_values(|q: ClarifyQuestion| question_view(q)),
                    questions_bytes(qv) <= usize::MAX,
                    i <= questions.len(),
                    n == questions_bytes(qv.take(i as int)),
                decreases questions.len() - i,
            {
                assert(qv.take(i + 1).drop_last() =~= qv.take(i as int));
                proof {
                    lemma_questions_bytes_prefix(qv, i + 1);
                }
                let q = &questions[i];
                let a = chars_byte_len(&chars_of(q.id.as_str()));
                let b = chars_byte_len(&chars_of(q.question.as_str()));
                let c = chars_byte_len(&chars_of(q.qtype.as_str()));
                let d = strings_byte_total(&q.options);
                n = n + a + b + c + d;
                i += 1;
            }
            assert(qv.take(questions.len() as int) =~= qv);
            n
        },
    }
}

/// The buffer after appending an event with id `next_id` and evicting the
/// oldest beyond `max_events` entries or `max_bytes` bytes.
pub open spec fn pushed_buffer(
    q: Seq<(usize, SerializableEvent)>,
    bytes: nat,
    next_id: usize,
    e: SerializableEvent,
    max_events: nat,
    max_bytes: nat,
) -> (Seq<(usize, SerializableEvent)>, nat) {
    evict(
        q.push((next_id, e)),
        sat_add_usize(bytes, event_size(event_view(e))),
        entry_event_size(),
        max_events,
        max_bytes,
    )
}

/// Appends an event under the next id, evicts the oldest events beyond the
/// limits, and advances the id (saturating).
pub fn push_event_with_limits_inner(
    events: &mut VecDeque<(usize, SerializableEvent)>,
    bytes: &mut usize,
    next_id: &mut usize,
    serial: SerializableEvent,
    max_events: usize,
    max_bytes: usize,
)
    requires
        event_size(event_view(serial)) <= usize::MAX,
        forall|k: int| 0 <= k < old(events)@.len() ==> event_size(event_view(#[trigger] old(events)@[k].1)) <= usize::MAX,
    ensures
        (final(events)@, *final(bytes) as nat) == pushed_buffer(
            old(events)@,
            *old(bytes) as nat,
            *old(next_id),
            serial,
            max_events as nat,
            max_bytes as nat,
        ),
        *final(next_id) == (if *old(next_id) == usize::MAX {
            usize::MAX
        } else {
            (*old(next_id) + 1) as usize
        }),
{
    let size = serializable_event_size(&serial);
    *bytes = bytes.saturating_add(size);
    events.push_back((*next_id, serial));
    let ghost q0 = events@;
    let ghost b0 = *bytes as nat;
    while events.len() > max_events || *bytes > max_bytes
        invariant
            forall|k: int| 0 <= k < events@.len() ==> event_size(event_view(#[trigger] events@[k].1)) <= usize::MAX,
            evict(q0, b0, entry_event_size(), max_events as nat, max_bytes as nat) == evict(
                events@,
                *bytes as nat,
                entry_event_size(),
                max_events as nat,
                max_bytes as nat,
            ),
        ensures
            evict(q0, b0, entry_event_size(), max_events as nat, max_bytes as nat) == (
                events@,
                *bytes as nat,
            ),
        decreases events.len(),
    {
        let ghost before = events@;
        match events.pop_front() {
            Some((_, removed)) => {
                assert(events@ =~= before.drop_first());
                let sz = serializable_event_size(&removed);
                *bytes = bytes.saturating_sub(sz);
            },
            None => {
                break;
            },
        }
    }
    *next_id = next_id.saturating_add(1);
}

/// The first `limit` buffered events whose id is at least `from_id`.
pub open spec fn pulled(q: Seq<(usize, SerializableEvent)>, from_id: usize, limit: nat) -> Seq<(usize, EventView)>
    decreases q.len(),
{
    if q.len() == 0 || limit == 0 {
        Seq::empty()
    } else if q[0].0 >= from_id {
        seq![(q[0].0, event_view(q[0].1))] + pulled(q.drop_first(), from_id, (limit - 1) as nat)
    } else {
        pulled(q.drop_first(), from_id, limit)
    }
}

fn copy_strings(v: &Vec<String>) -> (r: Vec<String>)
    ensures
        strings_view(r@) == strings_view(v@),
{
    let mut out: Vec<String> = Vec::new();
    let mut i: usize = 0;
    while i < v.len()
        invariant
            i <= v.len(),
            strings_view(out@) == strings_view(v@).take(i as int),
        decreases v.len() - i,
    {
        let ghost before = out@;
        out.push(v[i].clone());
        assert(strings_view(out@) =~= strings_view(before).push(v@[i as int]@));
        i += 1;
        assert(strings_view(out@) =~= strings_view(v@).take(i as int));
    }
    assert(strings_view(v@).take(v.len() as int) =~= strings_view(v@));
    out
}

/// A copy of a clarifying question.
pub fn copy_question(q: &ClarifyQuestion) -> (r: ClarifyQuestion)
    ensures
        question_view(r) == question_view(*q),
{
    ClarifyQuestion {
        id: q.id.clone(),
        question: q.question.clone(),
        qtype: q.qtype.clone(),
        options: copy_strings(&q.options),
    }
}

/// A copy of an event.
pub fn copy_event(e: &SerializableEvent) -> (r: SerializableEvent)
    ensures
        event_view(r) == event_view(*e),
{
    match e {
        SerializableEvent::Log { line } => SerializableEvent::Log { line: line.clone() },
        SerializableEvent::Diff { diff } => SerializableEvent::Diff { diff: diff.clone() },
        SerializableEvent::Done { success, message } => SerializableEvent::Done {
            success: *success,
            message: message.clone(),
        },
        SerializableEvent::NeedClarify { questions } => {
            let mut out: Vec<ClarifyQuestion> = Vec::new();
            let mut i: usize = 0;
            while i < questions.len()
                invariant
                    i <= questions.len(),
                    out@.len() == i,
                    forall|k: int| 0 <= k < i ==> question_view(#[trigger] out@[k]) == question_view(questions@[k]),
                decreases questions.len() - i,
            {
                out.push(copy_question(&questions[i]));
                i += 1;
            }
            let r = SerializableEvent::NeedClarify { questions: out };
            assert(out@.map_values(|q: ClarifyQuestion| question_view(q)) =~= questions@.map_values(
                |q: ClarifyQuestion| question_view(q),
            ));
            r
        },
    }
}

/// The events with id at least `from_id`, at most `limit` of them, oldest first.
pub fn pull_events(events: &VecDeque<(usize, SerializableEvent)>, from_id: usize, limit: usize) -> (r: Vec<(usize, SerializableEvent)>)
    ensures
        r@.map_values(|p: (usize, SerializableEvent)| (p.0, event_view(p.1))) == pulled(
            events@,
            from_id,
            limit as nat,
        ),
{
    let mut out: Vec<(usize, SerializableEvent)> = Vec::new();
    let mut i: usize = 0;
    assert(events@.skip(0) =~= events@);
    while i < events.len() && out.len() < limit
        invariant
            i <= events@.len(),
            out@.len() <= limit,
            pulled(events@, from_id, limit as nat) == out@.map_values(
                |p: (usize, SerializableEvent)| (p.0, event_view(p.1)),
            ) + pulled(events@.skip(i as int), from_id, (limit - out@.len()) as nat),
        decreases events@.len() - i,
    {
        let ghost rest = events@.skip(i as int);
        assert(rest[0] == events@[i as int]);
        assert(rest.drop_first() =~= events@.skip(i + 1));
        let id = events[i].0;
        if id >= from_id {
            let ghost before = out@;
            out.push((id, copy_event(&events[i].1)));
            assert(out@.map_values(|p: (usize, SerializableEvent)| (p.0, event_view(p.1))) =~= before.map_values(
                |p: (usize, SerializableEvent)| (p.0, event_view(p.1)),
            ).push((id, event_view(events@[i as int].1))));
        }
        i += 1;
    }
    proof {
        if i >= events.len() {
            assert(events@.skip(i as int).len() == 0);
        }
    }
    out
}

/// Pushing into the event buffer keeps its byte count exact, keeps it within
/// `max_events` entries and `max_bytes` bytes, keeps a suffix of the events
/// (the new one last), and keeps ids strictly increasing.
pub proof fn event_buffer_push_keeps_invariant(
    q: Seq<(usize, SerializableEvent)>,
    bytes: nat,
    next_id: usize,
    e: SerializableEvent,
    max_events: nat,
    max_bytes: nat,
)
    requires
        bytes == total_size(q, entry_event_size()),
        bytes + event_size(event_view(e)) <= usize::MAX,
        forall|i: int, j: int| 0 <= i < j < q.len() ==> q[i].0 < q[j].0,
        forall|i: int| 0 <= i < q.len() ==> q[i].0 < next_id,
    ensures
        ({
            let (r, rb) = pushed_buffer(q, bytes, next_id, e, max_events, max_bytes);
            let full = q.push((next_id, e));
            &&& rb == total_size(r, entry_event_size())
            &&& r.len() <= max_events
            &&& rb <= max_bytes
            &&& r == full.skip(full.len() - r.len())
            &&& forall|i: int, j: int| 0 <= i < j < r.len() ==> r[i].0 < r[j].0
        }),
{
    let full = q.push((next_id, e));
    lemma_total_size_push(q, (next_id, e), entry_event_size());
    lemma_evict_bounds(full, bytes + event_size(event_view(e)), entry_event_size(), max_events, max_bytes);
    let (r, rb) = pushed_buffer(q, bytes, next_id, e, max_events, max_bytes);
    assert forall|i: int, j: int| 0 <= i < j < r.len() implies r[i].0 < r[j].0 by {
        let off = full.len() - r.len();
        assert(r[i] == full[off + i]);
        assert(r[j] == full[off + j]);
    }
}

/// The view of a timestamped text history.
pub open spec fn text_history_view(h: Seq<(u64, String)>) -> Seq<(u64, Seq<char>)> {
    h.map_values(|p: (u64, String)| (p.0, p.1@))
}

proof fn lemma_bounded_push_text(h: Seq<(u64, String)>, x: (u64, String), max_len: nat)
    ensures
        text_history_view(bounded_push(h, x, max_len)) == bounded_push(
            text_history_view(h),
            (x.0, x.1@),
            max_len,
        ),
{
    let a = text_history_view(bounded_push(h, x, max_len));
    let b = bounded_push(text_history_view(h), (x.0, x.1@), max_len);
    assert(text_history_view(h.push(x)) =~= text_history_view(h).push((x.0, x.1@)));
    assert(a =~= b);
}

/// Updates the runtime counters and histories for one agent event at time `now`.
pub fn record_event(runtime: &mut RuntimeStatus, evt: &AgentEvent, now: u64)
    requires
        old(runtime).total_events < u64::MAX,
        old(runtime).total_logs < u64::MAX,
        old(runtime).total_done_ok < u64::MAX,
        old(runtime).total_done_fail < u64::MAX,
    ensures
        final(runtime).total_events == old(runtime).total_events + 1,
        final(runtime).last_start_unix == old(runtime).last_start_unix,
        final(runtime).last_workspace@ == old(runtime).last_workspace@,
        final(runtime).last_goal@ == old(runtime).last_goal@,
        match *evt {
            AgentEvent::Log(line) => {
                &&& final(runtime).running == old(runtime).running
                &&& final(runtime).total_logs == old(runtime).total_logs + 1
                &&& final(runtime).total_done_ok == old(runtime).total_done_ok
                &&& final(runtime).total_done_fail == old(runtime).total_done_fail
                &&& final(runtime).last_error@ == (if contains(line@, "失败"@) || contains(
                    lowercase(line@),
                    "error"@,
                ) {
                    line@
                } else {
                    old(runtime).last_error@
                })
                &&& text_history_view(final(runtime).digest_history@) == match digest_category_spec(line@) {
                    Some(c) => bounded_push(text_history_view(old(runtime).digest_history@), (now, c), 600),
                    None => text_history_view(old(runtime).digest_history@),
                }
                &&& text_history_view(final(runtime).root_cause_history@) == match digest_signature_spec(line@) {
                    Some(c) => bounded_push(text_history_view(old(runtime).root_cause_history@), (now, c), 600),
                    None => text_history_view(old(runtime).root_cause_history@),
                }
                &&& final(runtime).api_ms_samples@ == match perf_ms_spec(line@, "[Perf] deepseek_api="@) {
                    Some(ms) => bounded_push(old(runtime).api_ms_samples@, ms as u32, 400),
                    None => old(runtime).api_ms_samples@,
                }
                &&& final(runtime).eval_ms_samples@ == match eval_ms_spec(line@) {
                    Some(ms) => bounded_push(old(runtime).eval_ms_samples@, ms as u32, 400),
                    None => old(runtime).eval_ms_samples@,
                }
                &&& final(runtime).done_history@ == old(runtime).done_history@
            },
            AgentEvent::Done { success, message } => {
                &&& !final(runtime).running
                &&& final(runtime).total_logs == old(runtime).total_logs
                &&& final(runtime).done_history@ == bounded_push(old(runtime).done_history@, (now, success), 500)
                &&& final(runtime).total_done_ok == old(runtime).total_done_ok + (if success { 1int } else { 0 })
                &&& final(runtime).total_done_fail == old(runtime).total_done_fail + (if success { 0int } else { 1 })
                &&& final(runtime).last_error@ == (if success { old(runtime).last_error@ } else { message@ })
                &&& text_history_view(final(runtime).digest_history@) == text_history_view(old(runtime).digest_history@)
                &&& text_history_view(final(runtime).root_cause_history@) == text_history_view(old(runtime).root_cause_history@)
                &&& final(runtime).api_ms_samples@ == old(runtime).api_ms_samples@
                &&& final(runtime).eval_ms_samples@ == old(runtime).eval_ms_samples@
            },
            _ => {
                &&& final(runtime).running == old(runtime).running
                &&& final(runtime).total_logs == old(runtime).total_logs
                &&& final(runtime).total_done_ok == old(runtime).total_done_ok
                &&& final(runtime).total_done_fail == old(runtime).total_done_fail
                &&& final(runtime).last_error@ == old(runtime).last_error@
                &&& final(runtime).done_history@ == old(runtime).done_history@
                &&& text_history_view(final(runtime).digest_history@) == text_history_view(old(runtime).digest_history@)
                &&& text_history_view(final(runtime).root_cause_history@) == text_history_view(old(runtime).root_cause_history@)
                &&& final(runtime).api_ms_samples@ == old(runtime).api_ms_samples@
                &&& final(runtime).eval_ms_samples@ == old(runtime).eval_ms_samples@
            },
        },
{
    runtime.total_events = runtime.total_events + 1;
    match evt {
        AgentEvent::Log(line) => {
            runtime.total_logs = runtime.total_logs + 1;
            let lv = chars_of(line.as_str());
            if contains_lit(&lv, "失败") || contains_lit(&lower_chars(&lv), "error") {
                runtime.last_error = line.clone();
            }
            if let Some(cat) = parse_eval_digest_category(line.as_str()) {
                proof {
                    lemma_bounded_push_text(runtime.digest_history@, (now, cat), 600);
                }
                push_digest(&mut runtime.digest_history, now, cat, 600);
            }
            if let Some(sig) = parse_eval_digest_signature(line.as_str()) {
                proof {
                    lemma_bounded_push_text(runtime.root_cause_history@, (now, sig), 600);
                }
                push_digest(&mut runtime.root_cause_history, now, sig, 600);
            }
            if let Some(ms) = parse_perf_ms(line.as_str(), "[Perf] deepseek_api=") {
                push_sample(&mut runtime.api_ms_samples, ms, 400);
            }
            if let Some(ms) = parse_eval_ms(line.as_str()) {
                push_sample(&mut runtime.eval_ms_samples, ms, 400);
            }
        },
        AgentEvent::Done { success, message } => {
            runtime.running = false;
            push_done_history(&mut runtime.done_history, now, *success, 500);
            if *success {
                runtime.total_done_ok = runtime.total_done_ok + 1;
            } else {
                runtime.total_done_fail = runtime.total_done_fail + 1;
                runtime.last_error = message.clone();
            }
        },
        _ => {},
    }
}

/// When the event channel closes while a run is marked running: marks it
/// stopped, records why unless an error is already recorded, and reports
/// that a final failure event must be emitted.
pub fn close_runtime_on_channel_end(runtime: &mut RuntimeStatus) -> (emit_done: bool)
    ensures
        emit_done == old(runtime).running,
        !final(runtime).running,
        final(runtime).last_error@ == (if old(runtime).running && trim_seq(old(runtime).last_error@).len() == 0 {
            "agent event channel closed"@
        } else {
            old(runtime).last_error@
        }),
{
    if runtime.running {
        runtime.running = false;
        if trim_chars(&chars_of(runtime.last_error.as_str())).len() == 0 {
            runtime.last_error = String::from_str("agent event channel closed");
        }
        true
    } else {
        false
    }
}

/// Whether a log line is echoed on the terminal: model stream output is not.
pub open spec fn prints_on_terminal(line: Seq<char>) -> bool {
    let raw = line.skip(first_non_ws(line, 0));
    !(starts_with(raw, "[Model-Stream]"@) || starts_with(raw, "[Model-Thought]"@) || starts_with(
        raw,
        "[Model] 仍在生成中..."@,
    ) || starts_with(raw, "[Model] still generating..."@))
}

/// Whether a log line should be printed on the terminal.
pub fn should_print_terminal_log(line: &str) -> (b: bool)
    ensures
        b == prints_on_terminal(line@),
{
    let v = chars_of(line);
    let n = v.len();
    let mut a: usize = 0;
    while a < n && char_is_ws(v[a])
        invariant
            n == v.len(),
            a <= n,
            first_non_ws(v@, a as int) == first_non_ws(v@, 0),
        decreases n - a,
    {
        a += 1;
    }
    let raw = crate::text::chars_slice(&v, a, n);
    assert(raw@ =~= v@.skip(a as int));
    !(chars_start_with(&raw, &chars_of("[Model-Stream]")) || chars_start_with(
        &raw,
        &chars_of("[Model-Thought]"),
    ) || chars_start_with(&raw, &chars_of("[Model] 仍在生成中...")) || chars_start_with(
        &raw,
        &chars_of("[Model] still generating..."),
    ))
}

} // verus!
