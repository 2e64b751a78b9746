//! Virtual machine settings: names, backends, resources and execution profiles.

use vstd::prelude::*;
use crate::text::{chars_of, chars_slice, chars_start_with, concat, starts_with, string_of, trim_chars, trim_seq, strings_view};

verus! {

/// An ASCII letter or digit.
pub open spec fn is_ascii_alnum(c: char) -> bool {
    ('a' <= c && c <= 'z') || ('A' <= c && c <= 'Z') || ('0' <= c && c <= '9')
}

/// Executable form of `is_ascii_alnum`.
pub fn ascii_alnum(c: char) -> (b: bool)
    ensures
        b == is_ascii_alnum(c),
{
    ('a' <= c && c <= 'z') || ('A' <= c && c <= 'Z') || ('0' <= c && c <= '9')
}

/// A character allowed in VM and snapshot names.
pub open spec fn name_char(c: char) -> bool {
    is_ascii_alnum(c) || c == '-' || c == '_' || c == '.'
}

/// A name: trimmed, 1 to 64 characters, all letters, digits, `-`, `_` or `.`
/// (all ASCII, so characters and bytes agree).
pub open spec fn sanitized_name(raw: Seq<char>) -> Option<Seq<char>> {
    let s = trim_seq(raw);
    if s.len() == 0 || s.len() > 64 {
        None
    } else if forall|i: int| 0 <= i < s.len() ==> name_char(#[trigger] s[i]) {
        Some(s)
    } else {
        None
    }
}

fn all_name_chars(v: &Vec<char>) -> (b: bool)
    ensures
        b == (forall|i: int| 0 <= i < v@.len() ==> name_char(#[trigger] v@[i])),
{
    let mut i: usize = 0;
    while i < v.len()
        invariant
            i <= v.len(),
            forall|k: int| 0 <= k < i ==> name_char(#[trigger] v@[k]),
        decreases v.len() - i,
    {
        let c = v[i];
        if !(ascii_alnum(c) || c == '-' || c == '_' || c == '.') {
            return false;
        }
        i += 1;
    }
    true
}

fn sanitize_name_chars(raw: &str) -> (r: Option<String>)
    ensures
        match sanitized_name(raw@) {
            Some(s) => r matches Some(x) && x@ == s,
            None => r is None,
        },
{
    let s = trim_chars(&chars_of(raw));
    if s.len() == 0 || s.len() > 64 {
        return None;
    }
    if !all_name_chars(&s) {
        return None;
    }
    Some(string_of(s.as_slice()))
}

/// Validates a VM name.
pub fn sanitize_vm_name(raw: &str) -> (r: Option<String>)
    ensures
        match sanitized_name(raw@) {
            Some(s) => r matches Some(x) && x@ == s,
            None => r is None,
        },
{
    sanitize_name_chars(raw)
}

/// Validates a snapshot name.
pub fn sanitize_snapshot_name(raw: &str) -> (r: Option<String>)
    ensures
        match sanitized_name(raw@) {
            Some(s) => r matches Some(x) && x@ == s,
            None => r is None,
        },
{
    sanitize_name_chars(raw)
}

/// The SSH user: the trimmed value when it is non-empty and all letters,
/// digits, `_` or `-`; otherwise `root`.
pub open spec fn ssh_user_spec(raw: Seq<char>) -> Seq<char> {
    let v = trim_seq(raw);
    if v.len() > 0 && (forall|i: int| 0 <= i < v.len() ==> (is_ascii_alnum(#[trigger] v[i]) || v[i] == '_' || v[i] == '-')) {
        v
    } else {
        "root"@
    }
}

/// Normalizes the SSH user of a VM.
pub fn normalize_ssh_user(raw: &str) -> (r: String)
    ensures
        r@ == ssh_user_spec(raw@),
{
    let v = trim_chars(&chars_of(raw));
    if v.len() == 0 {
        return String::from_str("root");
    }
    let mut i: usize = 0;
    while i < v.len()
        invariant
            i <= v.len(),
            v@ == trim_seq(raw@),
            v.len() > 0,
            forall|k: int| 0 <= k < i ==> (is_ascii_alnum(#[trigger] v@[k]) || v@[k] == '_' || v@[k] == '-'),
        decreases v.len() - i,
    {
        let c = v[i];
        if !(ascii_alnum(c) || c == '_' || c == '-') {
            assert(!(is_ascii_alnum(v@[i as int]) || v@[i as int] == '_' || v@[i as int] == '-'));
            return String::from_str("root");
        }
        i += 1;
    }
    string_of(v.as_slice())
}

/// ASCII lower-casing of one character.
pub open spec fn ascii_lower(c: char) -> char {
    if 'A' <= c && c <= 'Z' {
        ((c as u32) + 32) as char
    } else {
        c
    }
}

/// ASCII lower-casing, as `str::to_ascii_lowercase` does it.
pub open spec fn ascii_lower_seq(s: Seq<char>) -> Seq<char> {
    s.map_values(|c: char| ascii_lower(c))
}

fn ascii_lower_char(c: char) -> (r: char)
    ensures
        r == ascii_lower(c),
{
    if 'A' <= c && c <= 'Z' {
        ((c as u32) + 32) as u8 as char
    } else {
        c
    }
}

/// ASCII lower-casing of characters.
pub fn ascii_lower_chars(v: &Vec<char>) -> (r: Vec<char>)
    ensures
        r@ == ascii_lower_seq(v@),
{
    let mut out: Vec<char> = Vec::new();
    let mut i: usize = 0;
    while i < v.len()
        invariant
            i <= v.len(),
            out@ == ascii_lower_seq(v@).take(i as int),
        decreases v.len() - i,
    {
        out.push(ascii_lower_char(v[i]));
        i += 1;
        assert(out@ =~= ascii_lower_seq(v@).take(i as int));
    }
    assert(ascii_lower_seq(v@).take(v.len() as int) =~= ascii_lower_seq(v@));
    out
}

/// The VM backend named by `raw`: `qemu`, `libvirt`, else `metadata-only`.
pub open spec fn backend_spec(raw: Seq<char>) -> Seq<char> {
    let l = ascii_lower_seq(trim_seq(raw));
    if l == "qemu"@ {
        "qemu"@
    } else if l == "libvirt"@ {
        "libvirt"@
    } else {
        "metadata-only"@
    }
}

/// Normalizes a VM backend name.
pub fn normalize_backend(raw: &str) -> (r: &'static str)
    ensures
        r@ == backend_spec(raw@),
{
    let l = ascii_lower_chars(&trim_chars(&chars_of(raw)));
    if crate::text::chars_eq(&l, &chars_of("qemu")) {
        "qemu"
    } else if crate::text::chars_eq(&l, &chars_of("libvirt")) {
        "libvirt"
    } else {
        "metadata-only"
    }
}

/// A resource setting: `default` for 0, else clamped to `[lo, hi]`.
pub open spec fn resource_spec(v: u32, default: u32, lo: u32, hi: u32) -> u32 {
    if v == 0 {
        default
    } else if v < lo {
        lo
    } else if v > hi {
        hi
    } else {
        v
    }
}

fn resource(v: u32, default: u32, lo: u32, hi: u32) -> (r: u32)
    ensures
        r == resource_spec(v, default, lo, hi),
{
    if v == 0 {
        default
    } else if v < lo {
        lo
    } else if v > hi {
        hi
    } else {
        v
    }
}

/// CPU count: 2 by default, 1 to 32.
pub fn default_cpu(v: u32) -> (r: u32)
    ensures
        r == resource_spec(v, 2, 1, 32),
{
    resource(v, 2, 1, 32)
}

/// Memory in MiB: 4096 by default, 512 to 262144.
pub fn default_memory_mb(v: u32) -> (r: u32)
    ensures
        r == resource_spec(v, 4096, 512, 262144),
{
    resource(v, 4096, 512, 262144)
}

/// Disk in GiB: 40 by default, 10 to 2048.
pub fn default_disk_gb(v: u32) -> (r: u32)
    ensures
        r == resource_spec(v, 40, 10, 2048),
{
    resource(v, 40, 10, 2048)
}

/// The last `max_chars` characters of `raw` (nothing when `max_chars` is 0).
pub open spec fn tail_spec(raw: Seq<char>, max_chars: nat) -> Seq<char> {
    if max_chars == 0 {
        Seq::empty()
    } else if raw.len() <= max_chars {
        raw
    } else {
        raw.skip(raw.len() - max_chars)
    }
}

/// Keeps the last `max_chars` characters.
pub fn tail_text(raw: &str, max_chars: usize) -> (r: String)
    ensures
        r@ == tail_spec(raw@, max_chars as nat),
{
    if max_chars == 0 {
        return String::new();
    }
    let v = chars_of(raw);
    if v.len() <= max_chars {
        return String::from_str(raw);
    }
    let t = chars_slice(&v, v.len() - max_chars, v.len());
    assert(t@ =~= v@.skip(v.len() - max_chars));
    string_of(t.as_slice())
}

/// The output preview of a task: the tails of both streams, or nothing.
pub open spec fn preview_spec(stdout: Seq<char>, stderr: Seq<char>, max_chars: nat) -> Seq<char> {
    let out = tail_spec(stdout, max_chars / 2);
    let err = tail_spec(stderr, max_chars / 2);
    if out.len() == 0 && err.len() == 0 {
        Seq::empty()
    } else {
        "stdout:\\n"@ + out + "\\n\\nstderr:\\n"@ + err
    }
}

/// Builds the output preview kept with a finished task.
pub fn build_exec_output_preview(stdout: &str, stderr: &str, max_chars: usize) -> (r: String)
    ensures
        r@ == preview_spec(stdout@, stderr@, max_chars as nat),
{
    let out = tail_text(stdout, max_chars / 2);
    let err = tail_text(stderr, max_chars / 2);
    if chars_of(out.as_str()).len() == 0 && chars_of(err.as_str()).len() == 0 {
        return String::new();
    }
    let a = concat("stdout:\\n", out.as_str());
    let b = concat(a.as_str(), "\\n\\nstderr:\\n");
    concat(b.as_str(), err.as_str())
}

/// The built-in execution profiles.
pub open spec fn builtin_profiles() -> Seq<Seq<char>> {
    seq!["rust-self-debug-basic"@, "python-self-debug-basic"@, "node-self-debug-basic"@]
}

/// The built-in execution profiles.
pub fn vm_exec_profiles() -> (r: Vec<&'static str>)
    ensures
        r@.map_values(|s: &'static str| s@) == builtin_profiles(),
{
    let v = vec!["rust-self-debug-basic", "python-self-debug-basic", "node-self-debug-basic"];
    assert(v@.map_values(|s: &'static str| s@) =~= builtin_profiles());
    v
}

/// A custom profile name: trimmed, 8 to 64 characters, starting with
/// `custom-`, all lower-case letters, digits, `-` or `_`.
pub open spec fn custom_profile_name_spec(raw: Seq<char>) -> Option<Seq<char>> {
    let s = trim_seq(raw);
    if s.len() < 8 || s.len() > 64 || !starts_with(s, "custom-"@) {
        None
    } else if forall|i: int| 0 <= i < s.len() ==> (('a' <= #[trigger] s[i] && s[i] <= 'z') || ('0' <= s[i] && s[i] <= '9') || s[i] == '-' || s[i] == '_') {
        Some(s)
    } else {
        None
    }
}

/// Validates a custom profile name.
pub fn sanitize_custom_profile_name(raw: &str) -> (r: Option<String>)
    ensures
        match custom_profile_name_spec(raw@) {
            Some(s) => r matches Some(x) && x@ == s,
            None => r is None,
        },
{
    let s = trim_chars(&chars_of(raw));
    if s.len() < 8 || s.len() > 64 || !chars_start_with(&s, &chars_of("custom-")) {
        return None;
    }
    let mut i: usize = 0;
    while i < s.len()
        invariant
            i <= s.len(),
            s@ == trim_seq(raw@),
            !(s@.len() < 8 || s@.len() > 64 || !starts_with(s@, "custom-"@)),
            forall|k: int| 0 <= k < i ==> (('a' <= #[trigger] s@[k] && s@[k] <= 'z') || ('0' <= s@[k] && s@[k] <= '9') || s@[k] == '-' || s@[k] == '_'),
        decreases s.len() - i,
    {
        let c = s[i];
        if !(('a' <= c && c <= 'z') || ('0' <= c && c <= '9') || c == '-' || c == '_') {
            assert(!(('a' <= s@[i as int] && s@[i as int] <= 'z') || ('0' <= s@[i as int] && s@[i as int] <= '9') || s@[i as int] == '-' || s@[i as int] == '_'));
            return None;
        }
        i += 1;
    }
    Some(string_of(s.as_slice()))
}

/// A profile working directory: trimmed, 1 to 200 characters of letters,
/// digits, `/`, `.`, `_`, `-`, starting with `/` or `.`.
pub open spec fn workdir_spec(raw: Seq<char>) -> Option<Seq<char>> {
    let s = trim_seq(raw);
    if s.len() == 0 || s.len() > 200 {
        None
    } else if !(forall|i: int| 0 <= i < s.len() ==> (is_ascii_alnum(#[trigger] s[i]) || s[i] == '/' || s[i] == '.' || s[i] == '_' || s[i] == '-')) {
        None
    } else if !(s[0] == '/' || s[0] == '.') {
        None
    } else {
        Some(s)
    }
}

/// Validates a profile working directory.
pub fn normalize_profile_workdir(raw: &str) -> (r: Option<String>)
    ensures
        match workdir_spec(raw@) {
            Some(s) => r matches Some(x) && x@ == s,
            None => r is None,
        },
{
    let s = trim_chars(&chars_of(raw));
    if s.len() == 0 || s.len() > 200 {
        return None;
    }
    let mut i: usize = 0;
    while i < s.len()
        invariant
            i <= s.len(),
            s@ == trim_seq(raw@),
            !(s@.len() == 0 || s@.len() > 200),
            forall|k: int| 0 <= k < i ==> (is_ascii_alnum(#[trigger] s@[k]) || s@[k] == '/' || s@[k] == '.' || s@[k] == '_' || s@[k] == '-'),
        decreases s.len() - i,
    {
        let c = s[i];
        if !(ascii_alnum(c) || c == '/' || c == '.' || c == '_' || c == '-') {
            assert(!(is_ascii_alnum(s@[i as int]) || s@[i as int] == '/' || s@[i as int] == '.' || s@[i as int] == '_' || s@[i as int] == '-'));
            return None;
        }
        i += 1;
    }
    if !(s[0] == '/' || s[0] == '.') {
        return None;
    }
    Some(string_of(s.as_slice()))
}

/// A profile test command: trimmed, 1 to 300 bytes.
pub open spec fn test_cmd_spec(raw: Seq<char>) -> Option<Seq<char>> {
    let s = trim_seq(raw);
    if s.len() == 0 || crate::text::utf8_len(s) > 300 {
        None
    } else {
        Some(s)
    }
}

/// Validates a profile test command.
pub fn normalize_profile_test_cmd(raw: &str) -> (r: Option<String>)
    ensures
        match test_cmd_spec(raw@) {
            Some(s) => r matches Some(x) && x@ == s,
            None => r is None,
        },
{
    let s = trim_chars(&chars_of(raw));
    if s.len() == 0 || crate::text::bytes_exceed(&s, 300) {
        return None;
    }
    Some(string_of(s.as_slice()))
}

/// Options of a profile run.
#[derive(Clone, Debug)]
pub struct ProfileRuntimeOptions {
    pub workdir: Option<String>,
    pub test_cmd: Option<String>,
}

/// The view of an optional string.
pub open spec fn opt_str(o: Option<String>) -> Option<Seq<char>> {
    match o {
        Some(s) => Some(s@),
        None => None,
    }
}

/// Parses the options of a profile run; a non-blank invalid working directory is an error.
pub fn parse_profile_options(workdir: &str, test_cmd: &str) -> (r: Result<ProfileRuntimeOptions, String>)
    ensures
        if trim_seq(workdir@).len() > 0 && workdir_spec(workdir@) is None {
            r is Err && r->Err_0@ == "invalid workdir: only [a-zA-Z0-9_./-], must start with / or ."@
        } else {
            r matches Ok(o) && opt_str(o.workdir) == workdir_spec(workdir@) && opt_str(o.test_cmd)
                == test_cmd_spec(test_cmd@)
        },
{
    let wd_raw = trim_chars(&chars_of(workdir));
    let wd = normalize_profile_workdir(workdir);
    if wd_raw.len() > 0 && wd.is_none() {
        return Err(String::from_str("invalid workdir: only [a-zA-Z0-9_./-], must start with / or ."));
    }
    let tc = normalize_profile_test_cmd(test_cmd);
    Ok(ProfileRuntimeOptions { workdir: wd, test_cmd: tc })
}

/// A command run from a working directory, when one is given.
pub open spec fn with_workdir_spec(cmd: Seq<char>, workdir: Option<Seq<char>>) -> Seq<char> {
    match workdir {
        Some(w) => if w.len() > 0 {
            "cd "@ + w + " && "@ + cmd
        } else {
            cmd
        },
        None => cmd,
    }
}

/// Prefixes a command with `cd <workdir> &&`.
pub fn prepend_workdir(cmd: &str, workdir: Option<&str>) -> (r: String)
    ensures
        r@ == with_workdir_spec(cmd@, crate::protocol::opt_view(workdir)),
{
    match workdir {
        Some(w) => {
            if chars_of(w).len() > 0 {
                let a = concat("cd ", w);
                let b = concat(a.as_str(), " && ");
                concat(b.as_str(), cmd)
            } else {
                String::from_str(cmd)
            }
        },
        None => String::from_str(cmd),
    }
}

/// The default test command of a profile (by its trimmed name).
pub open spec fn default_test_cmd_spec(profile: Seq<char>) -> Seq<char> {
    let p = trim_seq(profile);
    if p == "python-self-debug-basic"@ {
        "python3 -m pytest -q"@
    } else if p == "node-self-debug-basic"@ {
        "npm test -- --watch=false"@
    } else {
        "bash scripts/run_tests.sh"@
    }
}

/// The default test command of a profile.
pub fn default_test_cmd_for_profile(profile: &str) -> (r: &'static str)
    ensures
        r@ == default_test_cmd_spec(profile@),
{
    let p = trim_chars(&chars_of(profile));
    if crate::text::chars_eq(&p, &chars_of("python-self-debug-basic")) {
        "python3 -m pytest -q"
    } else if crate::text::chars_eq(&p, &chars_of("node-self-debug-basic")) {
        "npm test -- --watch=false"
    } else {
        "bash scripts/run_tests.sh"
    }
}

/// Trims custom commands and keeps the first 40 that are non-empty and at most 400 bytes.
pub open spec fn custom_commands_spec(raw: Seq<Seq<char>>) -> Seq<Seq<char>>
    decreases raw.len(),
{
    if raw.len() == 0 {
        Seq::empty()
    } else {
        let rest = custom_commands_spec(raw.drop_last());
        let t = trim_seq(raw.last());
        if t.len() > 0 && crate::text::utf8_len(t) <= 400 && rest.len() < 40 {
            rest.push(t)
        } else {
            rest
        }
    }
}

/// Normalizes the commands of a custom profile.
pub fn normalize_custom_commands(raw: &[String]) -> (r: Vec<String>)
    ensures
        strings_view(r@) == custom_commands_spec(strings_view(raw@)),
{
    let ghost rv = strings_view(raw@);
    let mut out: Vec<String> = Vec::new();
    let mut i: usize = 0;
    assert(rv.take(0) =~= Seq::<Seq<char>>::empty());
    while i < raw.len()
        invariant
            rv == strings_view(raw@),
            i <= raw.len(),
            strings_view(out@) == custom_commands_spec(rv.take(i as int)),
        decreases raw.len() - i,
    {
        assert(rv.take(i + 1).drop_last() =~= rv.take(i as int));
        let t = trim_chars(&chars_of(raw[i].as_str()));
        if t.len() > 0 && !crate::text::bytes_exceed(&t, 400) && out.len() < 40 {
            let ghost before = out@;
            out.push(string_of(t.as_slice()));
            assert(strings_view(out@) =~= strings_view(before).push(t@));
        }
        i += 1;
    }
    assert(rv.take(raw.len() as int) =~= rv);
    out
}

} // verus!
