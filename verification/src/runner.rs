//! Checking and splitting evaluation commands, and pattern matching on output.

use vstd::prelude::*;
use crate::text::{
    chars_of, concat, contains, contains_lit, lower_chars, lowercase, string_of, strings_view,
};

verus! {

/// State of the command-line splitter: finished words, the current word,
/// whether a quote is open, and which quote character opened it.
pub type SplitState = (Seq<Seq<char>>, Seq<char>, bool, char);

/// One character of command-line splitting.
pub open spec fn split_step(st: SplitState, ch: char) -> SplitState {
    let (out, cur, in_quote, q) = st;
    if ch == '"' || ch == '\'' {
        if in_quote && ch == q {
            (out, cur, false, q)
        } else if !in_quote {
            (out, cur, true, ch)
        } else {
            (out, cur.push(ch), in_quote, q)
        }
    } else if (ch == ' ' || ch == '\t') && !in_quote {
        if cur.len() > 0 {
            (out.push(cur), Seq::empty(), in_quote, q)
        } else {
            st
        }
    } else {
        (out, cur.push(ch), in_quote, q)
    }
}

/// The splitter's state after the characters `s`.
pub open spec fn split_state(s: Seq<char>) -> SplitState
    decreases s.len(),
{
    if s.len() == 0 {
        (Seq::empty(), Seq::empty(), false, '\0')
    } else {
        split_step(split_state(s.drop_last()), s.last())
    }
}

/// The words of a command line: split at blanks and tabs outside quotes,
/// quotes removed, an unclosed quote running to the end.
pub open spec fn shell_split_spec(s: Seq<char>) -> Seq<Seq<char>> {
    let (out, cur, _, _) = split_state(s);
    if cur.len() > 0 {
        out.push(cur)
    } else {
        out
    }
}

/// Splits a command line into words.
pub fn shell_split(s: &str) -> (r: Vec<String>)
    ensures
        strings_view(r@) == shell_split_spec(s@),
{
    let v = chars_of(s);
    let mut out: Vec<String> = Vec::new();
    let mut cur: Vec<char> = Vec::new();
    let mut in_quote = false;
    let mut quote_char = '\0';
    let mut i: usize = 0;
    assert(v@.take(0) =~= Seq::<char>::empty());
    while i < v.len()
        invariant
            v@ == s@,
            i <= v.len(),
            split_state(v@.take(i as int)) == (strings_view(out@), cur@, in_quote, quote_char),
        decreases v.len() - i,
    {
        let ch = v[i];
        assert(v@.take(i + 1).drop_last() =~= v@.take(i as int));
        let ghost before = out@;
        if ch == '"' || ch == '\'' {
            if in_quote && ch == quote_char {
                in_quote = false;
            } else if !in_quote {
                in_quote = true;
                quote_char = ch;
            } else {
                cur.push(ch);
            }
        } else if (ch == ' ' || ch == '\t') && !in_quote {
            if cur.len() > 0 {
                out.push(string_of(cur.as_slice()));
                assert(strings_view(out@) =~= strings_view(before).push(cur@));
                cur = Vec::new();
            }
        } else {
            cur.push(ch);
        }
        i += 1;
    }
    assert(v@.take(v.len() as int) =~= v@);
    if cur.len() > 0 {
        let ghost before = out@;
        out.push(string_of(cur.as_slice()));
        assert(strings_view(out@) =~= strings_view(before).push(cur@));
    }
    out
}

/// The dangerous command fragments that evaluation refuses.
pub open spec fn dangerous_fragments() -> Seq<Seq<char>> {
    seq![
        "rm -rf"@,
        "del "@,
        "format"@,
        "shutdown"@,
        "mkfs"@,
        "wipe"@,
        "rd "@,
        "powershell remove-item"@,
        "sudo"@,
    ]
}

/// The first dangerous fragment found in the lower-cased command, if any.
pub open spec fn first_dangerous(low: Seq<char>, i: int) -> Option<Seq<char>>
    decreases 9 - i,
{
    if i < 0 || i >= 9 {
        None
    } else if contains(low, dangerous_fragments()[i]) {
        Some(dangerous_fragments()[i])
    } else {
        first_dangerous(low, i + 1)
    }
}

/// What evaluation makes of a command line: an error for a dangerous or
/// empty command, else its words.
pub open spec fn eval_command_spec(cmdline: Seq<char>) -> Result<Seq<Seq<char>>, Seq<char>> {
    match first_dangerous(lowercase(cmdline), 0) {
        Some(bad) => Err("Dangerous command detected: "@ + bad),
        None => {
            let parts = shell_split_spec(cmdline);
            if parts.len() == 0 {
                Err("Empty eval command"@)
            } else {
                Ok(parts)
            }
        },
    }
}

fn dangerous_fragment(i: usize) -> (r: &'static str)
    requires
        i < 9,
    ensures
        r@ == dangerous_fragments()[i as int],
{
    match i {
        0 => "rm -rf",
        1 => "del ",
        2 => "format",
        3 => "shutdown",
        4 => "mkfs",
        5 => "wipe",
        6 => "rd ",
        7 => "powershell remove-item",
        _ => "sudo",
    }
}

/// Refuses dangerous or empty evaluation commands and splits the others into words.
pub fn prepare_eval_command(cmdline: &str) -> (r: Result<Vec<String>, String>)
    ensures
        match eval_command_spec(cmdline@) {
            Ok(parts) => r is Ok && strings_view(r->Ok_0@) == parts,
            Err(e) => r is Err && r->Err_0@ == e,
        },
{
    let low = lower_chars(&chars_of(cmdline));
    let mut i: usize = 0;
    while i < 9
        invariant
            low@ == lowercase(cmdline@),
            i <= 9,
            first_dangerous(low@, 0) == first_dangerous(low@, i as int),
        decreases 9 - i,
    {
        let bad = dangerous_fragment(i);
        if contains_lit(&low, bad) {
            return Err(concat("Dangerous command detected: ", bad));
        }
        i += 1;
    }
    let parts = shell_split(cmdline);
    if parts.len() == 0 {
        return Err(String::from_str("Empty eval command"));
    }
    Ok(parts)
}

/// Whether `regex::Regex::new` accepts a pattern.
pub uninterp spec fn regex_compiles(pattern: Seq<char>) -> bool;

/// Whether the compiled pattern matches somewhere in the text, as `regex::Regex::is_match` decides.
pub uninterp spec fn regex_matches(pattern: Seq<char>, text: Seq<char>) -> bool;

#[verifier::external_type_specification]
#[verifier::external_body]
pub struct ExRegex(regex::Regex);

/// A pattern together with the regular expression compiled from it.
pub struct CompiledPattern {
    source: String,
    re: regex::Regex,
}

impl CompiledPattern {
    /// The pattern this was compiled from.
    pub closed spec fn source_view(&self) -> Seq<char> {
        self.source@
    }
}

/// Compiles a pattern.
/// Trusted: `regex::Regex::new` either accepts the pattern or reports an
/// error, depending on the pattern alone.
#[verifier::external_body]
fn compile_pattern(pattern: &str) -> (r: Option<CompiledPattern>)
    ensures
        r.is_some() == regex_compiles(pattern@),
        r matches Some(c) ==> c.source_view() == pattern@,
{
    match regex::Regex::new(pattern) {
        Ok(re) => Some(CompiledPattern { source: pattern.to_string(), re }),
        Err(_) => None,
    }
}

/// Searches text with a compiled pattern.
/// Trusted: `regex::Regex::is_match` reports whether the regular expression
/// compiled from the pattern matches anywhere in the text.
#[verifier::external_body]
fn pattern_is_match(p: &CompiledPattern, text: &str) -> (b: bool)
    ensures
        b == regex_matches(p.source_view(), text@),
{
    p.re.is_match(text)
}

/// Whether `pattern` matches somewhere in `text`; an invalid pattern never does.
pub fn regex_match(pattern: &str, text: &str) -> (b: bool)
    ensures
        b == (regex_compiles(pattern@) && regex_matches(pattern@, text@)),
{
    match compile_pattern(pattern) {
        Some(p) => pattern_is_match(&p, text),
        None => false,
    }
}

} // verus!
