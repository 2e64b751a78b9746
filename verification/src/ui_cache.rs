//! The web console's cached state: projects, shared settings, per-project
//! logs and UI state, and the drafts a session is started from.

use vstd::prelude::*;
use crate::text::{chars_of, parse_unsigned, parse_unsigned_exec, str_eq, string_of, trim, trim_chars, trim_seq};

verus! {

/// The form a session is started or resumed from.
#[derive(Debug, Clone)]
pub struct DraftPayload {
    pub api_key: String,
    pub base_url: String,
    pub model: String,
    pub language: String,
    pub unattended_mode: bool,
    pub workspace: String,
    pub goal: String,
    pub remote: String,
    pub remote_url: String,
    pub branch: String,
    pub git_user_name: String,
    pub git_user_email: String,
}

/// A request to start a session.
#[derive(Debug, Clone)]
pub struct StartPayload {
    pub api_key: String,
    pub base_url: String,
    pub model: String,
    pub language: String,
    pub unattended_mode: bool,
    pub workspace: String,
    pub goal: String,
    pub git_user_name: String,
    pub git_user_email: String,
}

impl DraftPayload {
    /// The start request this draft describes.
    pub fn into_start(self) -> (r: StartPayload)
        ensures
            r.api_key == self.api_key,
            r.base_url == self.base_url,
            r.model == self.model,
            r.language == self.language,
            r.unattended_mode == self.unattended_mode,
            r.workspace == self.workspace,
            r.goal == self.goal,
            r.git_user_name == self.git_user_name,
            r.git_user_email == self.git_user_email,
    {
        StartPayload {
            api_key: self.api_key,
            base_url: self.base_url,
            model: self.model,
            language: self.language,
            unattended_mode: self.unattended_mode,
            workspace: self.workspace,
            goal: self.goal,
            git_user_name: self.git_user_name,
            git_user_email: self.git_user_email,
        }
    }
}

/// Settings shared by all projects.
#[derive(Debug, Clone)]
pub struct SharedConfig {
    pub api_key: String,
    pub base_url: String,
    pub model: String,
    pub language: String,
}

/// Options of the console, as typed in.
#[derive(Debug, Clone)]
pub struct GlobalOptions {
    pub auto_resume_attempts: String,
    pub stop_after_minutes: String,
    pub history_max_messages: String,
    pub history_max_chars: String,
    pub log_max_chars: String,
}

/// A project of the console.
#[derive(Debug, Clone)]
pub struct WebProject {
    pub id: String,
    pub name: String,
    pub workspace: String,
    pub goal: String,
    pub updated_at: u64,
    pub snapshot: DraftPayload,
}

/// The cached state of the console. Logs and UI state are keyed by
/// project; the UI state is kept as JSON text.
#[derive(Debug, Clone)]
pub struct UiCachePayload {
    pub projects: Vec<WebProject>,
    pub shared_config: Option<SharedConfig>,
    pub global_options: Option<GlobalOptions>,
    pub project_logs: Vec<(String, String)>,
    pub project_ui_state: Vec<(String, String)>,
}

/// A change to the cached state: each part that is present replaces the
/// cached one.
#[derive(Debug, Clone)]
pub struct UiCachePatch {
    pub projects: Option<Vec<WebProject>>,
    pub shared_config: Option<SharedConfig>,
    pub global_options: Option<GlobalOptions>,
    pub project_logs: Option<Vec<(String, String)>>,
    pub project_ui_state: Option<Vec<(String, String)>>,
}

impl Default for SharedConfig {
    /// All settings empty.
    fn default() -> (r: SharedConfig)
        ensures
            r.api_key@.len() == 0,
            r.base_url@.len() == 0,
            r.model@.len() == 0,
            r.language@.len() == 0,
    {
        SharedConfig { api_key: String::new(), base_url: String::new(), model: String::new(), language: String::new() }
    }
}

impl Default for GlobalOptions {
    /// All options empty.
    fn default() -> (r: GlobalOptions)
        ensures
            r.auto_resume_attempts@.len() == 0,
            r.stop_after_minutes@.len() == 0,
            r.history_max_messages@.len() == 0,
            r.history_max_chars@.len() == 0,
            r.log_max_chars@.len() == 0,
    {
        GlobalOptions {
            auto_resume_attempts: String::new(),
            stop_after_minutes: String::new(),
            history_max_messages: String::new(),
            history_max_chars: String::new(),
            log_max_chars: String::new(),
        }
    }
}

impl Default for UiCachePayload {
    /// Nothing cached.
    fn default() -> (r: UiCachePayload)
        ensures
            r.projects@.len() == 0,
            r.shared_config is None,
            r.global_options is None,
            r.project_logs@.len() == 0,
            r.project_ui_state@.len() == 0,
    {
        UiCachePayload {
            projects: Vec::new(),
            shared_config: None,
            global_options: None,
            project_logs: Vec::new(),
            project_ui_state: Vec::new(),
        }
    }
}

impl Default for UiCachePatch {
    /// A patch that changes nothing.
    fn default() -> (r: UiCachePatch)
        ensures
            r.projects is None,
            r.shared_config is None,
            r.global_options is None,
            r.project_logs is None,
            r.project_ui_state is None,
    {
        UiCachePatch { projects: None, shared_config: None, global_options: None, project_logs: None, project_ui_state: None }
    }
}

/// The default base URL of the chat API.
pub fn default_base_url() -> (r: String)
    ensures
        r@ == "https://api.deepseek.com"@,
{
    String::from_str("https://api.deepseek.com")
}

/// The default model.
pub fn default_model_name() -> (r: String)
    ensures
        r@ == "deepseek-reasoner"@,
{
    String::from_str("deepseek-reasoner")
}

/// `old` replaced by the trimmed shared value when that is not blank.
pub open spec fn merged(old: Seq<char>, shared: Seq<char>) -> Seq<char> {
    if trim_seq(shared).len() > 0 { trim_seq(shared) } else { old }
}

fn merge_field(field: &mut String, shared: &str)
    ensures
        final(field)@ == merged(old(field)@, shared@),
{
    let t = trim(shared);
    if chars_of(t.as_str()).len() > 0 {
        *field = t;
    }
}

/// Fills a draft's API key, base URL, model and language from the shared
/// settings that are not blank (trimmed); the rest stays.
pub fn merge_shared_config_into_draft(draft: &mut DraftPayload, cfg: &SharedConfig)
    ensures
        final(draft).api_key@ == merged(old(draft).api_key@, cfg.api_key@),
        final(draft).base_url@ == merged(old(draft).base_url@, cfg.base_url@),
        final(draft).model@ == merged(old(draft).model@, cfg.model@),
        final(draft).language@ == merged(old(draft).language@, cfg.language@),
        final(draft).unattended_mode == old(draft).unattended_mode,
        final(draft).workspace == old(draft).workspace,
        final(draft).goal == old(draft).goal,
        final(draft).remote == old(draft).remote,
        final(draft).remote_url == old(draft).remote_url,
        final(draft).branch == old(draft).branch,
        final(draft).git_user_name == old(draft).git_user_name,
        final(draft).git_user_email == old(draft).git_user_email,
{
    merge_field(&mut draft.api_key, cfg.api_key.as_str());
    merge_field(&mut draft.base_url, cfg.base_url.as_str());
    merge_field(&mut draft.model, cfg.model.as_str());
    merge_field(&mut draft.language, cfg.language.as_str());
}

/// `v`, or `d` when `v` is blank.
pub open spec fn or_blank(v: Seq<char>, d: Seq<char>) -> Seq<char> {
    if trim_seq(v).len() == 0 { d } else { v }
}

/// Gives a resumed draft the default base URL and model where blank.
pub fn normalize_resume_draft_defaults(draft: &mut DraftPayload)
    ensures
        final(draft).base_url@ == or_blank(old(draft).base_url@, "https://api.deepseek.com"@),
        final(draft).model@ == or_blank(old(draft).model@, "deepseek-reasoner"@),
        final(draft).api_key == old(draft).api_key,
        final(draft).language == old(draft).language,
        final(draft).unattended_mode == old(draft).unattended_mode,
        final(draft).workspace == old(draft).workspace,
        final(draft).goal == old(draft).goal,
        final(draft).remote == old(draft).remote,
        final(draft).remote_url == old(draft).remote_url,
        final(draft).branch == old(draft).branch,
        final(draft).git_user_name == old(draft).git_user_name,
        final(draft).git_user_email == old(draft).git_user_email,
{
    if trim_chars(&chars_of(draft.base_url.as_str())).len() == 0 {
        draft.base_url = default_base_url();
    }
    if trim_chars(&chars_of(draft.model.as_str())).len() == 0 {
        draft.model = default_model_name();
    }
}

/// The history limits typed in the options (trimmed), or two empty texts.
pub fn read_global_history_limits(opts: Option<&GlobalOptions>) -> (r: (String, String))
    ensures
        match opts {
            Some(o) => r.0@ == trim_seq(o.history_max_messages@) && r.1@ == trim_seq(o.history_max_chars@),
            None => r.0@.len() == 0 && r.1@.len() == 0,
        },
{
    match opts {
        Some(o) => (trim(o.history_max_messages.as_str()), trim(o.history_max_chars.as_str())),
        None => (String::new(), String::new()),
    }
}

/// How many characters a log bucket keeps by default.
pub const DEFAULT_LOG_MAX_CHARS: usize = 20000;

/// The last `max` characters of `s` (nothing for `max` 0).
pub open spec fn tail_chars(s: Seq<char>, max: nat) -> Seq<char> {
    if max == 0 {
        Seq::empty()
    } else if s.len() <= max {
        s
    } else {
        s.skip(s.len() - max)
    }
}

/// The last `max_chars` characters of a text.
pub fn truncate_tail_chars(input: &str, max_chars: usize) -> (r: String)
    ensures
        r@ == tail_chars(input@, max_chars as nat),
{
    if max_chars == 0 {
        return String::new();
    }
    let v = chars_of(input);
    if v.len() <= max_chars {
        return String::from_str(input);
    }
    let mut out: Vec<char> = Vec::new();
    let start = v.len() - max_chars;
    let mut i: usize = start;
    while i < v.len()
        invariant
            start <= i <= v.len(),
            start == v.len() - max_chars,
            out@ == v@.subrange(start as int, i as int),
        decreases v.len() - i,
    {
        out.push(v[i]);
        assert(out@ =~= v@.subrange(start as int, i + 1));
        i += 1;
    }
    assert(out@ =~= v@.skip(start as int));
    string_of(out.as_slice())
}

/// A positive limit typed in `raw` (trimmed, as `usize` parses it), else
/// `fallback`.
pub open spec fn limit_spec(raw: Seq<char>, fallback: usize) -> usize {
    match parse_unsigned(trim_seq(raw), usize::MAX as nat) {
        Some(v) => if v > 0 { v as usize } else { fallback },
        None => fallback,
    }
}

/// Reads a positive limit (see `limit_spec`).
pub fn parse_limit(raw: &str, fallback: usize) -> (r: usize)
    ensures
        r == limit_spec(raw@, fallback),
{
    let t = trim(raw);
    match parse_unsigned_exec(t.as_str(), usize::MAX as u64) {
        Some(v) => if v > 0 { v as usize } else { fallback },
        None => fallback,
    }
}

/// `s` without its trailing newlines.
pub open spec fn strip_newlines(s: Seq<char>) -> Seq<char>
    decreases s.len(),
{
    if s.len() > 0 && s.last() == '\n' {
        strip_newlines(s.drop_last())
    } else {
        s
    }
}

/// A log bucket as kept: its last `max` characters, ending in exactly one
/// newline, or nothing.
pub open spec fn log_bucket(raw: Seq<char>, max: nat) -> Seq<char> {
    let t = tail_chars(raw, max);
    if t.len() == 0 {
        Seq::empty()
    } else {
        strip_newlines(t).push('\n')
    }
}

/// Keeps the tail of a log bucket (see `log_bucket`).
pub fn sanitize_log_bucket(raw: &str, max_chars: usize) -> (r: String)
    ensures
        r@ == log_bucket(raw@, max_chars as nat),
{
    let tail = truncate_tail_chars(raw, max_chars);
    let mut v = chars_of(tail.as_str());
    if v.len() == 0 {
        return String::new();
    }
    while v.len() > 0 && v[v.len() - 1] == '\n'
        invariant
            strip_newlines(v@) == strip_newlines(tail@),
        decreases v.len(),
    {
        let ghost before = v@;
        v.pop();
        assert(v@ =~= before.drop_last());
    }
    v.push('\n');
    string_of(v.as_slice())
}

/// The log limit the options set: their `log_max_chars` as a positive
/// number, else the default.
pub open spec fn log_limit(opts: Option<GlobalOptions>) -> usize {
    match opts {
        Some(g) => limit_spec(g.log_max_chars@, DEFAULT_LOG_MAX_CHARS),
        None => DEFAULT_LOG_MAX_CHARS,
    }
}

fn sanitize_logs(logs: Vec<(String, String)>, max: usize) -> (r: Vec<(String, String)>)
    ensures
        r@.len() == logs@.len(),
        forall|i: int| 0 <= i < r@.len() ==> (#[trigger] r@[i]).0@ == logs@[i].0@ && r@[i].1@ == log_bucket(logs@[i].1@, max as nat),
{
    let mut out: Vec<(String, String)> = Vec::new();
    let mut i: usize = 0;
    while i < logs.len()
        invariant
            i <= logs.len(),
            out@.len() == i,
            forall|j: int| 0 <= j < i ==> (#[trigger] out@[j]).0@ == logs@[j].0@ && out@[j].1@ == log_bucket(logs@[j].1@, max as nat),
        decreases logs.len() - i,
    {
        out.push((String::from_str(logs[i].0.as_str()), sanitize_log_bucket(logs[i].1.as_str(), max)));
        i += 1;
    }
    out
}

/// Applies a patch to the cached state: each present part replaces the
/// cached one, and patched logs are kept as `log_bucket`s under the limit
/// of the options in force after the patch.
pub fn apply_ui_cache_patch(payload: &mut UiCachePayload, patch: UiCachePatch)
    ensures
        final(payload).projects == (match patch.projects { Some(v) => v, None => old(payload).projects }),
        final(payload).shared_config == (match patch.shared_config { Some(v) => Some(v), None => old(payload).shared_config }),
        final(payload).global_options == (match patch.global_options { Some(v) => Some(v), None => old(payload).global_options }),
        final(payload).project_ui_state == (match patch.project_ui_state { Some(v) => v, None => old(payload).project_ui_state }),
        match patch.project_logs {
            Some(logs) => {
                &&& final(payload).project_logs@.len() == logs@.len()
                &&& forall|i: int| 0 <= i < logs@.len() ==> (#[trigger] final(payload).project_logs@[i]).0@ == logs@[i].0@
                    && final(payload).project_logs@[i].1@ == log_bucket(logs@[i].1@, log_limit(final(payload).global_options) as nat)
            },
            None => final(payload).project_logs == old(payload).project_logs,
        },
{
    if let Some(v) = patch.projects {
        payload.projects = v;
    }
    if let Some(v) = patch.shared_config {
        payload.shared_config = Some(v);
    }
    if let Some(v) = patch.global_options {
        payload.global_options = Some(v);
    }
    let limit = match &payload.global_options {
        Some(g) => parse_limit(g.log_max_chars.as_str(), DEFAULT_LOG_MAX_CHARS),
        None => DEFAULT_LOG_MAX_CHARS,
    };
    if let Some(v) = patch.project_logs {
        payload.project_logs = sanitize_logs(v, limit);
    }
    if let Some(v) = patch.project_ui_state {
        payload.project_ui_state = v;
    }
}

/// A project ready to be stored at `now`: an error for a blank id; a blank
/// name becomes the workspace.
pub fn normalize_project_for_upsert(item: WebProject, now_unix: u64) -> (r: Result<WebProject, &'static str>)
    ensures
        trim_seq(item.id@).len() == 0 ==> (r matches Err(e) && e@ == "project id is empty"@),
        trim_seq(item.id@).len() > 0 ==> (r matches Ok(p) && {
            &&& p.id == item.id
            &&& p.name@ == (if trim_seq(item.name@).len() == 0 { item.workspace@ } else { item.name@ })
            &&& p.workspace == item.workspace
            &&& p.goal == item.goal
            &&& p.updated_at == now_unix
            &&& p.snapshot == item.snapshot
        }),
{
    let mut item = item;
    if trim_chars(&chars_of(item.id.as_str())).len() == 0 {
        return Err("project id is empty");
    }
    if trim_chars(&chars_of(item.name.as_str())).len() == 0 {
        item.name = String::from_str(item.workspace.as_str());
    }
    item.updated_at = now_unix;
    Ok(item)
}

/// The index of the first project with id `id`, or the length.
pub open spec fn project_index(ps: Seq<WebProject>, id: Seq<char>) -> int
    decreases ps.len(),
{
    if ps.len() == 0 {
        0
    } else if ps[0].id@ == id {
        0
    } else {
        1 + project_index(ps.drop_first(), id)
    }
}

proof fn lemma_project_index(ps: Seq<WebProject>, id: Seq<char>)
    ensures
        0 <= project_index(ps, id) <= ps.len(),
        project_index(ps, id) < ps.len() ==> ps[project_index(ps, id)].id@ == id,
        forall|j: int| 0 <= j < project_index(ps, id) ==> ps[j].id@ != id,
    decreases ps.len(),
{
    if ps.len() > 0 && ps[0].id@ != id {
        lemma_project_index(ps.drop_first(), id);
        assert forall|j: int| 0 <= j < project_index(ps, id) implies ps[j].id@ != id by {
            if j > 0 {
                assert(ps[j] == ps.drop_first()[j - 1]);
            }
        }
    }
}

/// Replaces the project with the same id, or appends it.
pub fn upsert_project_in_cache(cache: &mut UiCachePayload, item: WebProject)
    ensures
        ({
            let k = project_index(old(cache).projects@, item.id@);
            final(cache).projects@ == if k < old(cache).projects@.len() {
                old(cache).projects@.update(k, item)
            } else {
                old(cache).projects@.push(item)
            }
        }),
        final(cache).shared_config == old(cache).shared_config,
        final(cache).global_options == old(cache).global_options,
        final(cache).project_logs == old(cache).project_logs,
        final(cache).project_ui_state == old(cache).project_ui_state,
{
    proof {
        lemma_project_index(cache.projects@, item.id@);
    }
    let mut i: usize = 0;
    while i < cache.projects.len() && !str_eq(cache.projects[i].id.as_str(), item.id.as_str())
        invariant
            i <= cache.projects.len(),
            cache.projects@ == old(cache).projects@,
            forall|j: int| 0 <= j < i ==> cache.projects@[j].id@ != item.id@,
        decreases cache.projects.len() - i,
    {
        i += 1;
    }
    proof {
        let k = project_index(old(cache).projects@, item.id@);
        if i < k {
            assert(cache.projects@[i as int].id@ != item.id@);
        }
        if k < i {
            assert(cache.projects@[k].id@ != item.id@);
        }
    }
    if i < cache.projects.len() {
        let _ = cache.projects.remove(i);
        cache.projects.insert(i, item);
        assert(cache.projects@ =~= old(cache).projects@.update(i as int, item));
    } else {
        cache.projects.push(item);
    }
}

/// The projects without id `id`.
pub open spec fn without_id(ps: Seq<WebProject>, id: Seq<char>) -> Seq<WebProject>
    decreases ps.len(),
{
    if ps.len() == 0 {
        Seq::empty()
    } else if ps.last().id@ == id {
        without_id(ps.drop_last(), id)
    } else {
        without_id(ps.drop_last(), id).push(ps.last())
    }
}

proof fn lemma_without_len(ps: Seq<WebProject>, id: Seq<char>)
    ensures
        without_id(ps, id).len() <= ps.len(),
        without_id(ps, id).len() == ps.len() <==> forall|j: int| 0 <= j < ps.len() ==> ps[j].id@ != id,
    decreases ps.len(),
{
    if ps.len() > 0 {
        lemma_without_len(ps.drop_last(), id);
        if without_id(ps, id).len() == ps.len() {
            assert forall|j: int| 0 <= j < ps.len() implies ps[j].id@ != id by {
                if j < ps.len() - 1 {
                    assert(ps[j] == ps.drop_last()[j]);
                }
            }
        }
        if forall|j: int| 0 <= j < ps.len() ==> ps[j].id@ != id {
            assert forall|j: int| 0 <= j < ps.drop_last().len() implies ps.drop_last()[j].id@ != id by {
                assert(ps[j] == ps.drop_last()[j]);
            }
            assert(ps[ps.len() - 1].id@ != id);
        }
    }
}

/// Deletes the projects with id `id`: an error for a blank id or when none
/// has it.
pub fn delete_project_from_cache(cache: &mut UiCachePayload, id: &str) -> (r: Result<(), &'static str>)
    ensures
        trim_seq(id@).len() == 0 ==> (r matches Err(e) && e@ == "project id is empty"@ && *final(cache) == *old(cache)),
        trim_seq(id@).len() > 0 ==> {
            &&& final(cache).projects@ == without_id(old(cache).projects@, id@)
            &&& final(cache).shared_config == old(cache).shared_config
            &&& final(cache).global_options == old(cache).global_options
            &&& final(cache).project_logs == old(cache).project_logs
            &&& final(cache).project_ui_state == old(cache).project_ui_state
            &&& (r is Ok <==> exists|j: int| 0 <= j < old(cache).projects@.len() && (#[trigger] old(cache).projects@[j]).id@ == id@)
            &&& (r matches Err(e) ==> e@ == "project not found"@)
        },
{
    if trim_chars(&chars_of(id)).len() == 0 {
        return Err("project id is empty");
    }
    let ghost orig = cache.projects@;
    let before = cache.projects.len();
    let mut rest: Vec<WebProject> = Vec::new();
    std::mem::swap(&mut cache.projects, &mut rest);
    let mut k: usize = 0;
    assert(orig.take(0) =~= Seq::<WebProject>::empty());
    while rest.len() > 0
        invariant
            k <= orig.len(),
            before == orig.len(),
            rest@ == orig.skip(k as int),
            cache.projects@ == without_id(orig.take(k as int), id@),
            cache.shared_config == old(cache).shared_config,
            cache.global_options == old(cache).global_options,
            cache.project_logs == old(cache).project_logs,
            cache.project_ui_state == old(cache).project_ui_state,
        decreases rest.len(),
    {
        let x = rest.remove(0);
        assert(x == orig[k as int]);
        assert(rest@ =~= orig.skip(k + 1));
        assert(orig.take(k + 1).drop_last() =~= orig.take(k as int));
        if !str_eq(x.id.as_str(), id) {
            cache.projects.push(x);
        }
        k += 1;
    }
    assert(orig.skip(k as int).len() == 0);
    assert(orig.take(k as int) =~= orig);
    proof {
        lemma_without_len(orig, id@);
    }
    if cache.projects.len() == before {
        return Err("project not found");
    }
    Ok(())
}

proof fn lemma_strip_newlines_len(s: Seq<char>)
    ensures
        strip_newlines(s).len() <= s.len(),
    decreases s.len(),
{
    if s.len() > 0 && s.last() == '\n' {
        lemma_strip_newlines_len(s.drop_last());
    }
}

/// A kept log bucket holds at most one character more than the limit (its
/// final newline), and ends in a newline unless it is empty.
pub proof fn log_bucket_bounded(raw: Seq<char>, max: nat)
    ensures
        log_bucket(raw, max).len() <= max + 1,
        log_bucket(raw, max).len() > 0 ==> log_bucket(raw, max).last() == '\n',
{
    lemma_strip_newlines_len(tail_chars(raw, max));
}

/// Projects ordered by last update, newest first.
pub open spec fn newest_first(s: Seq<WebProject>) -> bool {
    forall|i: int, j: int| 0 <= i < j < s.len() ==> #[trigger] s[i].updated_at >= #[trigger] s[j].updated_at
}

/// `perm` tells where each project of `after` stood in `before`: it picks
/// every position once, and projects updated at the same second keep their
/// relative order.
pub open spec fn stable_perm(before: Seq<WebProject>, after: Seq<WebProject>, perm: Seq<int>) -> bool {
    &&& perm.len() == after.len() && after.len() == before.len()
    &&& forall|k: int| 0 <= k < perm.len() ==> 0 <= #[trigger] perm[k] < before.len()
    &&& forall|k: int, l: int| 0 <= k < l < perm.len() ==> #[trigger] perm[k] != #[trigger] perm[l]
    &&& forall|k: int| 0 <= k < after.len() ==> #[trigger] after[k] == before[perm[k]]
    &&& forall|k: int, l: int| 0 <= k < l < after.len() && #[trigger] after[k].updated_at == #[trigger] after[l].updated_at
            ==> perm[k] < perm[l]
}

/// Orders projects by last update, newest first; projects updated at the
/// same second keep their order, and none is lost.
pub fn sort_projects_by_updated_desc(items: &mut Vec<WebProject>)
    ensures
        newest_first(final(items)@),
        exists|perm: Seq<int>| stable_perm(old(items)@, final(items)@, perm),
{
    let mut input: Vec<WebProject> = Vec::new();
    std::mem::swap(items, &mut input);
    let ghost orig = input@;
    let ghost mut k: int = 0;
    let ghost mut perm: Seq<int> = Seq::empty();
    while input.len() > 0
        invariant
            0 <= k <= orig.len(),
            input@ == orig.skip(k),
            newest_first(items@),
            items@.len() == k,
            perm.len() == k,
            forall|m: int| 0 <= m < perm.len() ==> 0 <= #[trigger] perm[m] < k,
            forall|m: int, l: int| 0 <= m < l < perm.len() ==> #[trigger] perm[m] != #[trigger] perm[l],
            forall|m: int| 0 <= m < items@.len() ==> #[trigger] items@[m] == orig[perm[m]],
            forall|m: int, l: int| 0 <= m < l < items@.len() && #[trigger] items@[m].updated_at == #[trigger] items@[l].updated_at
                ==> perm[m] < perm[l],
        decreases input.len(),
    {
        let x = input.remove(0);
        proof {
            assert(x == orig[k]);
            assert(input@ =~= orig.skip(k + 1));
        }
        let mut p: usize = 0;
        while p < items.len() && items[p].updated_at >= x.updated_at
            invariant
                p <= items.len(),
                forall|m: int| 0 <= m < p ==> #[trigger] items@[m].updated_at >= x.updated_at,
            decreases items.len() - p,
        {
            p += 1;
        }
        let ghost before = items@;
        let ghost old_perm = perm;
        items.insert(p, x);
        proof {
            perm = old_perm.insert(p as int, k);
            assert forall|m: int| 0 <= m < items@.len() implies #[trigger] items@[m] == orig[perm[m]] by {
                if m < p {
                    assert(items@[m] == before[m] && perm[m] == old_perm[m]);
                } else if m > p {
                    assert(items@[m] == before[m - 1] && perm[m] == old_perm[m - 1]);
                }
            }
            assert forall|m: int| 0 <= m < perm.len() implies 0 <= #[trigger] perm[m] < k + 1 by {
                if m < p {
                    assert(perm[m] == old_perm[m]);
                } else if m > p {
                    assert(perm[m] == old_perm[m - 1]);
                }
            }
            assert forall|m: int, l: int| 0 <= m < l < perm.len() implies #[trigger] perm[m] != #[trigger] perm[l] by {
                if m < p && l < p {
                    assert(perm[m] == old_perm[m] && perm[l] == old_perm[l]);
                } else if m < p && l == p {
                    assert(perm[m] == old_perm[m]);
                } else if m < p {
                    assert(perm[m] == old_perm[m] && perm[l] == old_perm[l - 1]);
                } else if m == p {
                    assert(perm[l] == old_perm[l - 1]);
                } else {
                    assert(perm[m] == old_perm[m - 1] && perm[l] == old_perm[l - 1]);
                }
            }
            assert forall|i: int, j: int| 0 <= i < j < items@.len()
                implies #[trigger] items@[i].updated_at >= #[trigger] items@[j].updated_at by {
                if j < p {
                    assert(items@[i] == before[i] && items@[j] == before[j]);
                } else if j == p {
                    assert(items@[i] == before[i]);
                } else if i < p {
                    assert(items@[i] == before[i] && items@[j] == before[j - 1]);
                } else if i == p {
                    assert(items@[j] == before[j - 1]);
                    assert(before[p as int].updated_at < x.updated_at);
                    if j - 1 > p {
                        assert(before[p as int].updated_at >= before[j - 1].updated_at);
                    }
                } else {
                    assert(items@[i] == before[i - 1] && items@[j] == before[j - 1]);
                }
            }
            assert forall|i: int, j: int| 0 <= i < j < items@.len() && #[trigger] items@[i].updated_at == #[trigger] items@[j].updated_at
                implies perm[i] < perm[j] by {
                if j < p {
                    assert(items@[i] == before[i] && items@[j] == before[j]);
                    assert(perm[i] == old_perm[i] && perm[j] == old_perm[j]);
                } else if j == p {
                    assert(perm[i] == old_perm[i]);
                } else if i < p {
                    assert(items@[i] == before[i] && items@[j] == before[j - 1]);
                    assert(perm[i] == old_perm[i] && perm[j] == old_perm[j - 1]);
                } else if i == p {
                    assert(items@[j] == before[j - 1]);
                    assert(before[p as int].updated_at < x.updated_at);
                    if j - 1 > p {
                        assert(before[p as int].updated_at >= before[j - 1].updated_at);
                    }
                } else {
                    assert(items@[i] == before[i - 1] && items@[j] == before[j - 1]);
                    assert(perm[i] == old_perm[i - 1] && perm[j] == old_perm[j - 1]);
                }
            }
            k = k + 1;
        }
    }
    proof {
        assert(stable_perm(orig, items@, perm));
    }
}

} // verus!
