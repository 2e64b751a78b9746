//! Accounts, roles and login rules.

use vstd::prelude::*;
use crate::text::{bytes_exceed, chars_contain, chars_eq, chars_of, contains, lowercase, lower_chars, strings_view, trim_chars, trim_seq, utf8_len};

verus! {

/// The role of an account.
#[derive(Debug, Clone, Copy, PartialEq, Eq, Structural)]
pub enum AccountRole {
    Admin,
    User,
    Guest,
}

/// How an account logs in.
#[derive(Debug, Clone, Copy, PartialEq, Eq, Structural)]
pub enum LoginOption {
    PasswordOnly,
    PasswordEmail2fa,
    EmailOnly,
}

impl LoginOption {
    /// Whether logging in asks for the password.
    pub fn requires_password(&self) -> (b: bool)
        ensures
            b == (*self == LoginOption::PasswordOnly || *self == LoginOption::PasswordEmail2fa),
    {
        match self {
            LoginOption::PasswordOnly | LoginOption::PasswordEmail2fa => true,
            LoginOption::EmailOnly => false,
        }
    }

    /// Whether logging in asks for an emailed code.
    pub fn requires_email_code(&self) -> (b: bool)
        ensures
            b == (*self == LoginOption::EmailOnly || *self == LoginOption::PasswordEmail2fa),
    {
        match self {
            LoginOption::EmailOnly | LoginOption::PasswordEmail2fa => true,
            LoginOption::PasswordOnly => false,
        }
    }
}

/// The email domains accounts may register with.
pub open spec fn allowed_email_domains() -> Seq<Seq<char>> {
    seq![
        "gmail.com"@,
        "outlook.com"@,
        "hotmail.com"@,
        "live.com"@,
        "yahoo.com"@,
        "icloud.com"@,
        "proton.me"@,
        "qq.com"@,
        "163.com"@,
        "126.com"@,
        "foxmail.com"@,
    ]
}

/// The default email domain allowlist of the admin settings.
pub fn default_email_domain_allowlist() -> (r: Vec<String>)
    ensures
        strings_view(r@) == allowed_email_domains(),
{
    let v: Vec<String> = vec![
        "gmail.com".to_owned(),
        "outlook.com".to_owned(),
        "hotmail.com".to_owned(),
        "live.com".to_owned(),
        "yahoo.com".to_owned(),
        "icloud.com".to_owned(),
        "proton.me".to_owned(),
        "qq.com".to_owned(),
        "163.com".to_owned(),
        "126.com".to_owned(),
        "foxmail.com".to_owned(),
    ];
    assert(strings_view(v@) =~= allowed_email_domains());
    v
}

/// The index of the first `c` in `s`, if any.
pub open spec fn first_index_of(s: Seq<char>, c: char) -> Option<int>
    decreases s.len(),
{
    if s.len() == 0 {
        None
    } else if s[0] == c {
        Some(0)
    } else {
        match first_index_of(s.drop_first(), c) {
            Some(i) => Some(i + 1),
            None => None,
        }
    }
}

/// An email may register: lower-cased and trimmed, the part after its
/// first `@` is one of the allowed domains.
pub open spec fn email_allowed_spec(email: Seq<char>) -> bool {
    let e = lowercase(trim_seq(email));
    match first_index_of(e, '@') {
        Some(k) => allowed_email_domains().contains(e.skip(k + 1)),
        None => false,
    }
}

fn find_char(v: &Vec<char>, c: char) -> (r: Option<usize>)
    ensures
        match first_index_of(v@, c) {
            Some(k) => r matches Some(i) && i == k,
            None => r is None,
        },
        r matches Some(i) ==> i < v.len(),
{
    let mut i: usize = 0;
    assert(v@.skip(0) =~= v@);
    while i < v.len()
        invariant
            i <= v.len(),
            forall|j: int| 0 <= j < i ==> v@[j] != c,
            first_index_of(v@, c) == (match first_index_of(v@.skip(i as int), c) {
                Some(k) => Some(k + i),
                None => None::<int>,
            }),
        decreases v.len() - i,
    {
        assert(v@.skip(i as int)[0] == v@[i as int]);
        if v[i] == c {
            return Some(i);
        }
        assert(v@.skip(i as int).drop_first() =~= v@.skip(i + 1));
        i += 1;
    }
    None
}

/// Whether an email's domain is on the registration allowlist (see
/// `email_allowed_spec`).
pub fn email_allowed(email: &str) -> (b: bool)
    ensures
        b == email_allowed_spec(email@),
{
    let mut e = lower_chars(&trim_chars(&chars_of(email)));
    match find_char(&e, '@') {
        Some(k) => {
            let ghost ev = e@;
            let domain = e.split_off(k + 1);
            let ghost dv = domain@;
            assert(dv =~= ev.skip(k + 1));
            let mut i: usize = 0;
            let list = default_email_domain_allowlist();
            while i < list.len()
                invariant
                    i <= list.len(),
                    strings_view(list@) == allowed_email_domains(),
                    domain@ == dv,
                    email_allowed_spec(email@) == allowed_email_domains().contains(dv),
                    forall|j: int| 0 <= j < i ==> allowed_email_domains()[j] != dv,
                decreases list.len() - i,
            {
                assert(strings_view(list@)[i as int] == list@[i as int]@);
                if chars_eq(&chars_of(list[i].as_str()), &domain) {
                    assert(allowed_email_domains()[i as int] == dv);
                    return true;
                }
                i += 1;
            }
            false
        },
        None => false,
    }
}

/// A nickname is reserved: blank, or holding `admin` once trimmed and
/// lower-cased.
pub open spec fn nickname_reserved_spec(nickname: Seq<char>) -> bool {
    let s = lowercase(trim_seq(nickname));
    s.len() == 0 || contains(s, "admin"@)
}

/// Whether a nickname is reserved (see `nickname_reserved_spec`).
pub fn nickname_reserved(nickname: &str) -> (b: bool)
    ensures
        b == nickname_reserved_spec(nickname@),
{
    let s = lower_chars(&trim_chars(&chars_of(nickname)));
    if s.len() == 0 {
        return true;
    }
    chars_contain(&s, &chars_of("admin"))
}

/// A username character: ASCII letter or digit, `_`, `-` or `.`.
pub open spec fn username_char(c: char) -> bool {
    ('a' <= c && c <= 'z') || ('A' <= c && c <= 'Z') || ('0' <= c && c <= '9') || c == '_' || c == '-' || c == '.'
}

/// A username is allowed: trimmed, non-empty, at most 64 bytes, and made of
/// username characters.
pub open spec fn username_allowed_spec(username: Seq<char>) -> bool {
    let u = trim_seq(username);
    &&& u.len() > 0
    &&& utf8_len(u) <= 64
    &&& forall|i: int| 0 <= i < u.len() ==> username_char(#[trigger] u[i])
}

/// Whether a username is allowed (see `username_allowed_spec`).
pub fn username_allowed(username: &str) -> (b: bool)
    ensures
        b == username_allowed_spec(username@),
{
    let u = trim_chars(&chars_of(username));
    if u.len() == 0 || bytes_exceed(&u, 64) {
        return false;
    }
    let mut i: usize = 0;
    while i < u.len()
        invariant
            i <= u.len(),
            u@ == trim_seq(username@),
            forall|j: int| 0 <= j < i ==> username_char(#[trigger] u@[j]),
        decreases u.len() - i,
    {
        let c = u[i];
        if !(('a' <= c && c <= 'z') || ('A' <= c && c <= 'Z') || ('0' <= c && c <= '9') || c == '_' || c == '-' || c == '.') {
            assert(!username_char(u@[i as int]));
            return false;
        }
        i += 1;
    }
    true
}

/// The administrator's settings of the console.
#[derive(Debug)]
pub struct AdminSettings {
    pub registration_enabled: bool,
    pub guest_enabled: bool,
    pub login_enabled: bool,
    pub non_admin_login_enabled: bool,
    pub email_code_dev_mode: bool,
    pub email_code_ttl_secs: u64,
    pub email_code_resend_cooldown_secs: u64,
    pub email_issue_per_min: u32,
    pub email_verify_per_min: u32,
    pub email_domain_allowlist_enabled: bool,
    pub email_domain_allowlist: Vec<String>,
    pub smtp_enabled: bool,
    pub smtp_host: String,
    pub smtp_port: u16,
    pub smtp_username: String,
    pub smtp_password: String,
    pub smtp_from: String,
    pub smtp_starttls: bool,
}

impl Default for AdminSettings {
    /// Everything open, codes valid ten minutes and resendable after one,
    /// three codes issued and twelve checked per minute, the default domain
    /// allow-list, and mail sending off (port 587, STARTTLS, sender
    /// `noreply@localhost`).
    fn default() -> (r: AdminSettings)
        ensures
            r.registration_enabled && r.guest_enabled && r.login_enabled && r.non_admin_login_enabled,
            !r.email_code_dev_mode,
            r.email_code_ttl_secs == 600,
            r.email_code_resend_cooldown_secs == 60,
            r.email_issue_per_min == 3,
            r.email_verify_per_min == 12,
            r.email_domain_allowlist_enabled,
            strings_view(r.email_domain_allowlist@) == allowed_email_domains(),
            !r.smtp_enabled,
            r.smtp_host@.len() == 0,
            r.smtp_port == 587,
            r.smtp_username@.len() == 0,
            r.smtp_password@.len() == 0,
            r.smtp_from@ == "noreply@localhost"@,
            r.smtp_starttls,
    {
        AdminSettings {
            registration_enabled: true,
            guest_enabled: true,
            login_enabled: true,
            non_admin_login_enabled: true,
            email_code_dev_mode: false,
            email_code_ttl_secs: 600,
            email_code_resend_cooldown_secs: 60,
            email_issue_per_min: 3,
            email_verify_per_min: 12,
            email_domain_allowlist_enabled: true,
            email_domain_allowlist: default_email_domain_allowlist(),
            smtp_enabled: false,
            smtp_host: String::new(),
            smtp_port: 587,
            smtp_username: String::new(),
            smtp_password: String::new(),
            smtp_from: String::from_str("noreply@localhost"),
            smtp_starttls: true,
        }
    }
}

} // verus!
