//! Chat messages and the pure parts of the streaming chat-completion client.

use vstd::prelude::*;
use crate::text::{byte_boundary, chars_of, chars_start_with, concat, contains, contains_lit, cut_bytes_with_note, cut_with_note, lower_chars, lowercase, starts_with, string_of, trim_chars, trim_seq, utf8_len, split_char, split_seq, strip_cr, char_vecs_view, strings_view};
use crate::protocol::{bounded_setting, bounded_setting_exec, opt_view};
use crate::patch::{truncate, truncate_spec};
use crate::text::bytes_exceed;

verus! {

/// One message of a chat conversation: a role (`system`, `user` or
/// `assistant`) and its text.
#[derive(Clone, Debug)]
pub struct ChatMessage {
    pub role: String,
    pub content: String,
}

impl View for ChatMessage {
    type V = (Seq<char>, Seq<char>);

    open spec fn view(&self) -> (Seq<char>, Seq<char>) {
        (self.role@, self.content@)
    }
}

/// The views of a list of messages.
pub open spec fn messages_view(v: Seq<ChatMessage>) -> Seq<(Seq<char>, Seq<char>)> {
    v.map_values(|m: ChatMessage| m@)
}

impl ChatMessage {
    /// A system message.
    pub fn system(s: String) -> (m: ChatMessage)
        ensures
            m.role@ == "system"@,
            m.content@ == s@,
    {
        ChatMessage { role: String::from_str("system"), content: s }
    }

    /// A user message.
    pub fn user(s: String) -> (m: ChatMessage)
        ensures
            m.role@ == "user"@,
            m.content@ == s@,
    {
        ChatMessage { role: String::from_str("user"), content: s }
    }

    /// An assistant message.
    pub fn assistant(s: String) -> (m: ChatMessage)
        ensures
            m.role@ == "assistant"@,
            m.content@ == s@,
    {
        ChatMessage { role: String::from_str("assistant"), content: s }
    }

    /// A copy of this message.
    pub fn duplicate(&self) -> (m: ChatMessage)
        ensures
            m@ == self@,
    {
        ChatMessage { role: self.role.clone(), content: self.content.clone() }
    }
}

/// Shortens a response body for a log line.
pub fn truncate_for_log(s: &str, max: usize) -> (r: String)
    requires
        utf8_len(s@) <= usize::MAX,
        byte_boundary(s@, max as nat),
    ensures
        r@ == cut_with_note(s@, max as nat, "...[truncated "@, " chars]"@),
{
    cut_bytes_with_note(s, max, "...[truncated ", " chars]")
}

/// The request timeout in seconds (`AUTOCODING_API_TIMEOUT_SECS`, 10 to 300, default 90).
pub fn read_timeout_secs(raw: Option<&str>) -> (r: u64)
    ensures
        r == bounded_setting(opt_view(raw), u64::MAX as nat, 10, 300, 90),
{
    bounded_setting_exec(raw, 18446744073709551615, 10, 300, 90)
}

/// The pause in milliseconds before retrying attempt `attempt`: 350, 900, then 1600.
pub fn retry_delay_ms(attempt: u32) -> (r: u64)
    ensures
        r == (if attempt == 1 {
            350u64
        } else if attempt == 2 {
            900u64
        } else {
            1600u64
        }),
{
    match attempt {
        1 => 350,
        2 => 900,
        _ => 1600,
    }
}

/// HTTP statuses worth retrying: 408, 409, 425, 429, 500, 502, 503, 504.
pub fn is_retryable_status(code: u16) -> (b: bool)
    ensures
        b == (code == 408 || code == 409 || code == 425 || code == 429 || code == 500 || code
            == 502 || code == 503 || code == 504),
{
    code == 408 || code == 409 || code == 425 || code == 429 || code == 500 || code == 502
        || code == 503 || code == 504
}

/// A transport error (given by its message) worth retrying.
pub open spec fn retryable_transport_message(low: Seq<char>) -> bool {
    contains(low, "timed out"@) || contains(low, "timeout"@) || contains(low, "connection reset"@)
        || contains(low, "connection refused"@) || contains(low, "temporarily unavailable"@)
}

/// Whether a transport error with message `err` is worth retrying.
pub fn is_retryable_transport_error(err: &str) -> (b: bool)
    ensures
        b == retryable_transport_message(lowercase(err@)),
{
    let s = lower_chars(&chars_of(err));
    contains_lit(&s, "timed out") || contains_lit(&s, "timeout") || contains_lit(
        &s,
        "connection reset",
    ) || contains_lit(&s, "connection refused") || contains_lit(&s, "temporarily unavailable")
}

/// The hint shown for an HTTP status.
pub open spec fn status_hint_spec(code: u16) -> Seq<char> {
    if code == 400 {
        "400 Bad Request：请求参数格式错误，请检查 model/messages 结构。"@
    } else if code == 401 {
        "401 Unauthorized：API Key 无效/过期，或与当前 Base URL 不匹配。"@
    } else if code == 403 {
        "403 Forbidden：当前 Key 无权限调用该模型或接口。"@
    } else if code == 404 {
        "404 Not Found：Base URL 或接口路径错误。"@
    } else if code == 408 {
        "408 Request Timeout：请求超时，将自动重试。"@
    } else if code == 429 {
        "429 Too Many Requests：请求过于频繁或额度限制，将自动重试。"@
    } else if code == 500 || code == 502 || code == 503 || code == 504 {
        "服务端暂时异常，将自动重试。"@
    } else {
        "请求失败，请检查 API Key、Base URL、模型名和网络环境。"@
    }
}

/// A hint for the user about an unsuccessful HTTP status.
pub fn status_hint(code: u16) -> (r: &'static str)
    ensures
        r@ == status_hint_spec(code),
{
    match code {
        400 => "400 Bad Request：请求参数格式错误，请检查 model/messages 结构。",
        401 => "401 Unauthorized：API Key 无效/过期，或与当前 Base URL 不匹配。",
        403 => "403 Forbidden：当前 Key 无权限调用该模型或接口。",
        404 => "404 Not Found：Base URL 或接口路径错误。",
        408 => "408 Request Timeout：请求超时，将自动重试。",
        429 => "429 Too Many Requests：请求过于频繁或额度限制，将自动重试。",
        500 | 502 | 503 | 504 => "服务端暂时异常，将自动重试。",
        _ => "请求失败，请检查 API Key、Base URL、模型名和网络环境。",
    }
}

/// `base_url` without trailing slashes.
pub open spec fn trim_end_slashes(s: Seq<char>) -> Seq<char>
    decreases s.len(),
{
    if s.len() > 0 && s.last() == '/' {
        trim_end_slashes(s.drop_last())
    } else {
        s
    }
}

/// The chat-completions endpoint under `base_url`.
pub fn chat_completions_url(base_url: &str) -> (r: String)
    ensures
        r@ == trim_end_slashes(base_url@) + "/chat/completions"@,
{
    let mut v = chars_of(base_url);
    while v.len() > 0 && v[v.len() - 1] == '/'
        invariant
            trim_end_slashes(v@) == trim_end_slashes(base_url@),
        decreases v.len(),
    {
        v.pop();
    }
    let b = string_of(v.as_slice());
    concat(b.as_str(), "/chat/completions")
}

/// What a server-sent-events line carries: the trimmed text after `data:`,
/// unless the line is blank, a comment, not a data line, or the `[DONE]` marker.
pub open spec fn sse_payload_spec(line: Seq<char>) -> Option<Seq<char>> {
    let t = trim_seq(line);
    if t.len() == 0 || t[0] == ':' || !starts_with(t, "data:"@) {
        None
    } else {
        let p = trim_seq(strip_data_prefixes(t));
        if p.len() == 0 || p == "[DONE]"@ {
            None
        } else {
            Some(p)
        }
    }
}

/// `s` without any number of leading `data:` prefixes.
pub open spec fn strip_data_prefixes(s: Seq<char>) -> Seq<char>
    decreases s.len(),
{
    if s.len() >= 5 && s.take(5) == "data:"@ {
        strip_data_prefixes(s.skip(5))
    } else {
        s
    }
}

/// The JSON payload of a server-sent-events line, if it carries one.
pub fn sse_payload(line: &str) -> (r: Option<String>)
    ensures
        match sse_payload_spec(line@) {
            Some(p) => r is Some && r->0@ == p,
            None => r is None,
        },
{
    let t = trim_chars(&chars_of(line));
    let prefix = chars_of("data:");
    proof {
        reveal_strlit("data:");
    }
    if t.len() == 0 || t[0] == ':' || !chars_start_with(&t, &prefix) {
        return None;
    }
    let mut rest = t;
    while rest.len() >= 5 && chars_start_with(&rest, &prefix)
        invariant
            prefix@ == "data:"@,
            prefix@.len() == 5,
            strip_data_prefixes(rest@) == strip_data_prefixes(trim_seq(line@)),
        decreases rest.len(),
    {
        let mut next: Vec<char> = Vec::new();
        let mut i: usize = 5;
        while i < rest.len()
            invariant
                5 <= i <= rest.len(),
                next@ == rest@.subrange(5, i as int),
            decreases rest.len() - i,
        {
            next.push(rest[i]);
            i += 1;
            assert(next@ =~= rest@.subrange(5, i as int));
        }
        assert(next@ =~= rest@.skip(5));
        rest = next;
    }
    let p = trim_chars(&rest);
    if p.len() == 0 || crate::text::chars_eq(&p, &chars_of("[DONE]")) {
        return None;
    }
    Some(string_of(p.as_slice()))
}

/// The complete lines at the front of a stream buffer and what is left after
/// the last newline: the pieces between newlines, each without one trailing `'\r'`.
pub open spec fn complete_lines(buf: Seq<char>) -> Seq<Seq<char>> {
    let pieces = split_seq(buf, '\n');
    pieces.take(pieces.len() - 1).map_values(|l: Seq<char>| strip_cr(l))
}

/// Takes the complete lines out of a stream buffer, leaving the unfinished tail.
pub fn take_complete_lines(buf: &mut String) -> (r: Vec<String>)
    ensures
        strings_view(r@) == complete_lines(old(buf)@),
        final(buf)@ == split_seq(old(buf)@, '\n').last(),
{
    let ghost pieces = split_seq(buf@, '\n');
    let parts = split_char(&chars_of(buf.as_str()), '\n');
    proof {
        crate::text::lemma_split_nonempty(buf@, '\n');
    }
    let mut out: Vec<String> = Vec::new();
    let mut i: usize = 0;
    while i + 1 < parts.len()
        invariant
            char_vecs_view(parts@) == pieces,
            parts.len() >= 1,
            i < parts.len(),
            strings_view(out@) == pieces.take(i as int).map_values(|l: Seq<char>| strip_cr(l)),
        decreases parts.len() - i,
    {
        let mut line = parts[i].clone();
        assert(line@ == pieces[i as int]);
        if line.len() > 0 && line[line.len() - 1] == '\r' {
            line.pop();
        }
        let ghost before = out@;
        out.push(string_of(line.as_slice()));
        assert(strings_view(out@) =~= strings_view(before).push(strip_cr(pieces[i as int])));
        i += 1;
        assert(strings_view(out@) =~= pieces.take(i as int).map_values(|l: Seq<char>| strip_cr(l)));
    }
    *buf = string_of(parts[parts.len() - 1].as_slice());
    out
}

/// The preview of a streamed reply that is logged while it arrives: the
/// text not yet logged, and how many characters and chunks came so far.
#[derive(Debug)]
pub struct StreamPreview {
    pub tag: String,
    pub buf: String,
    pub chars: usize,
    pub events: usize,
}

/// A preview flushes once it holds 120 bytes or more, or when the chunk
/// just fed holds a newline, `}` or `]`.
pub open spec fn should_flush_spec(buf: Seq<char>, delta: Seq<char>) -> bool {
    utf8_len(buf) >= 120 || delta.contains('\n') || delta.contains('}') || delta.contains(']')
}

/// The log line of a flushed preview: the tag, a space, and the text cut to
/// `max` bytes (see `truncate`).
pub open spec fn preview_line(tag: Seq<char>, buf: Seq<char>, max: nat) -> Seq<char> {
    tag + " "@ + truncate_spec(buf, max)
}

impl StreamPreview {
    /// An empty preview logged under `tag`.
    pub fn new(tag: &str) -> (p: StreamPreview)
        ensures
            p.tag@ == tag@ && p.buf@.len() == 0 && p.chars == 0 && p.events == 0,
    {
        StreamPreview { tag: String::from_str(tag), buf: String::new(), chars: 0, events: 0 }
    }

    /// Takes in one chunk of the reply; an empty chunk changes nothing.
    /// Returns the log line when the preview flushes (see
    /// `should_flush_spec`), which empties it.
    pub fn on_delta(&mut self, delta: &str, max: usize) -> (line: Option<String>)
        requires
            old(self).chars + delta@.len() <= usize::MAX,
            old(self).events < usize::MAX,
        ensures
            delta@.len() == 0 ==> line is None && *final(self) == *old(self),
            delta@.len() > 0 ==> {
                let buf = old(self).buf@ + delta@;
                &&& final(self).tag == old(self).tag
                &&& final(self).chars == old(self).chars + delta@.len()
                &&& final(self).events == old(self).events + 1
                &&& if should_flush_spec(buf, delta@) {
                        &&& (line matches Some(l) && l@ == preview_line(old(self).tag@, buf, max as nat))
                        &&& final(self).buf@.len() == 0
                    } else {
                        line is None && final(self).buf@ == buf
                    }
            },
    {
        let d = chars_of(delta);
        if d.len() == 0 {
            return None;
        }
        self.chars = self.chars + d.len();
        self.events = self.events + 1;
        let joined = concat(self.buf.as_str(), delta);
        self.buf = joined;
        let b = chars_of(self.buf.as_str());
        let mut hit = false;
        let mut i: usize = 0;
        while i < d.len()
            invariant
                i <= d.len(),
                d@ == delta@,
                hit == exists|k: int| 0 <= k < i && (d@[k] == '\n' || d@[k] == '}' || d@[k] == ']'),
            decreases d.len() - i,
        {
            if d[i] == '\n' || d[i] == '}' || d[i] == ']' {
                hit = true;
            }
            i += 1;
        }
        proof {
            if hit {
                let k = choose|k: int| 0 <= k < d.len() && (d@[k] == '\n' || d@[k] == '}' || d@[k] == ']');
                if d@[k] == '\n' { assert(delta@.contains('\n')); }
                else if d@[k] == '}' { assert(delta@.contains('}')); }
                else { assert(delta@.contains(']')); }
            } else {
                assert(!delta@.contains('\n') && !delta@.contains('}') && !delta@.contains(']'));
            }
        }
        if bytes_exceed(&b, 119) || hit {
            self.flush(max)
        } else {
            None
        }
    }

    /// Empties the preview: the log line of what it held, or nothing when
    /// it held nothing.
    pub fn flush(&mut self, max: usize) -> (line: Option<String>)
        ensures
            final(self).tag == old(self).tag && final(self).chars == old(self).chars && final(self).events == old(self).events,
            final(self).buf@.len() == 0,
            old(self).buf@.len() == 0 ==> line is None,
            old(self).buf@.len() > 0 ==> (line matches Some(l) && l@ == preview_line(old(self).tag@, old(self).buf@, max as nat)),
    {
        if chars_of(self.buf.as_str()).len() == 0 {
            self.buf = String::new();
            return None;
        }
        let out = truncate(self.buf.as_str(), max);
        let head = concat(self.tag.as_str(), " ");
        self.buf = String::new();
        Some(concat(head.as_str(), out.as_str()))
    }
}

} // verus!
