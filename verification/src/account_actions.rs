//! The decisions of the account endpoints: who is asking, whether they may,
//! and what changes in the account store.

use vstd::prelude::*;
use crate::accounts::{first_named, first_valid, resolve_session, find_user_by_username, upsert_user, upsert_spec, create_user, create_user_error, is_new_user, set_user_banned, delete_user, ban_users_spec, sessions_not_of, users_not_named, lemma_first_named_unique, stamped, copy_user, Refusal, SessionRecord, UserRecord, live_at};
use crate::auth::{AccountRole, LoginOption, email_allowed, email_allowed_spec, nickname_reserved, nickname_reserved_spec};
use crate::text::{chars_of, concat, str_eq, string_of, trim_chars, trim_seq};

verus! {

/// A refusal with the given status and body.
fn refuse(status: u16, message: &str) -> (r: Refusal)
    ensures
        r.status == status,
        r.message@ == message@,
{
    Refusal { status: status, message: String::from_str(message) }
}

/// The session a cookie names, if valid at `now` (see `resolve_session`).
pub open spec fn session_at(sessions: Seq<SessionRecord>, sid: Seq<char>, now: u64) -> Option<int> {
    if trim_seq(sid).len() > 0 && exists|i: int| first_valid(sessions, trim_seq(sid), now, i) {
        Some(choose|i: int| first_valid(sessions, trim_seq(sid), now, i))
    } else {
        None
    }
}

/// The first account named `name` once trimmed (see `find_user_by_username`).
pub open spec fn user_named(users: Seq<UserRecord>, name: Seq<char>) -> Option<int> {
    if trim_seq(name).len() > 0 && exists|i: int| first_named(users, trim_seq(name), i) {
        Some(choose|i: int| first_named(users, trim_seq(name), i))
    } else {
        None
    }
}

proof fn lemma_first_valid_unique(sessions: Seq<SessionRecord>, sid: Seq<char>, now: u64, i: int, k: int)
    requires
        first_valid(sessions, sid, now, i),
        first_valid(sessions, sid, now, k),
    ensures
        i == k,
{
    if i < k {
        assert(!(sessions[i].session_id@ == sid && live_at(sessions[i], now)));
    } else if k < i {
        assert(!(sessions[k].session_id@ == sid && live_at(sessions[k], now)));
    }
}

/// Resolves a session cookie (see `session_at`).
fn session_index(sessions: &Vec<SessionRecord>, sid: &str, now: u64) -> (r: Option<usize>)
    ensures
        match r {
            Some(i) => session_at(sessions@, sid@, now) == Some(i as int),
            None => session_at(sessions@, sid@, now) is None,
        },
{
    let r = resolve_session(sessions, sid, now);
    proof {
        match r {
            Some(i) => {
                let k = choose|k: int| first_valid(sessions@, trim_seq(sid@), now, k);
                lemma_first_valid_unique(sessions@, trim_seq(sid@), now, i as int, k);
            },
            None => {},
        }
    }
    r
}

/// Looks an account up by name (see `user_named`).
fn user_index(users: &Vec<UserRecord>, name: &str) -> (r: Option<usize>)
    ensures
        match r {
            Some(i) => user_named(users@, name@) == Some(i as int),
            None => user_named(users@, name@) is None,
        },
{
    let r = find_user_by_username(users, name);
    proof {
        match r {
            Some(i) => {
                let k = choose|k: int| first_named(users@, trim_seq(name@), k);
                lemma_first_named_unique(users@, trim_seq(name@), i as int, k);
            },
            None => {},
        }
    }
    r
}

/// The account behind a signed-in, non-guest session, or why there is
/// none: no valid session (401), a guest session (403), a session without a
/// user name (401), an unknown user (401).
pub open spec fn signed_in_spec(sessions: Seq<SessionRecord>, users: Seq<UserRecord>, sid: Seq<char>, now: u64)
    -> Result<int, (u16, Seq<char>)> {
    match session_at(sessions, sid, now) {
        None => Err((401u16, "not logged in"@)),
        Some(s) => if sessions[s].role == AccountRole::Guest {
            Err((403u16, "guest session"@))
        } else {
            match sessions[s].username {
                None => Err((401u16, "invalid session"@)),
                Some(name) => match user_named(users, name@) {
                    None => Err((401u16, "unknown user"@)),
                    Some(i) => Ok(i),
                },
            }
        },
    }
}

/// Whether a result matches its specified value.
pub open spec fn result_is(r: Result<usize, Refusal>, s: Result<int, (u16, Seq<char>)>) -> bool {
    match r {
        Ok(i) => s == Ok::<int, (u16, Seq<char>)>(i as int),
        Err(f) => s == Err::<int, (u16, Seq<char>)>((f.status, f.message@)),
    }
}

/// The account of a signed-in, non-guest session (see `signed_in_spec`).
pub fn signed_in_account(sessions: &Vec<SessionRecord>, users: &Vec<UserRecord>, sid: &str, now: u64)
    -> (r: Result<usize, Refusal>)
    ensures
        result_is(r, signed_in_spec(sessions@, users@, sid@, now)),
{
    let s = match session_index(sessions, sid, now) {
        None => return Err(refuse(401, "not logged in")),
        Some(s) => s,
    };
    if matches!(sessions[s].role, AccountRole::Guest) {
        return Err(refuse(403, "guest session"));
    }
    match &sessions[s].username {
        None => Err(refuse(401, "invalid session")),
        Some(name) => match user_index(users, name.as_str()) {
            None => Err(refuse(401, "unknown user")),
            Some(i) => Ok(i),
        },
    }
}

/// The administrator behind a session, or why there is none: no valid
/// session (401), no user name (401), an unknown user (401), not an
/// administrator (403).
pub open spec fn admin_spec(sessions: Seq<SessionRecord>, users: Seq<UserRecord>, sid: Seq<char>, now: u64)
    -> Result<int, (u16, Seq<char>)> {
    match session_at(sessions, sid, now) {
        None => Err((401u16, "not logged in"@)),
        Some(s) => match sessions[s].username {
            None => Err((401u16, "invalid session"@)),
            Some(name) => match user_named(users, name@) {
                None => Err((401u16, "unknown user"@)),
                Some(i) => if users[i].role != AccountRole::Admin {
                    Err((403u16, "admin only"@))
                } else {
                    Ok(i)
                },
            },
        },
    }
}

/// The administrator behind a session (see `admin_spec`).
pub fn require_admin(sessions: &Vec<SessionRecord>, users: &Vec<UserRecord>, sid: &str, now: u64)
    -> (r: Result<usize, Refusal>)
    ensures
        result_is(r, admin_spec(sessions@, users@, sid@, now)),
{
    let s = match session_index(sessions, sid, now) {
        None => return Err(refuse(401, "not logged in")),
        Some(s) => s,
    };
    match &sessions[s].username {
        None => Err(refuse(401, "invalid session")),
        Some(name) => match user_index(users, name.as_str()) {
            None => Err(refuse(401, "unknown user")),
            Some(i) => {
                if !matches!(users[i].role, AccountRole::Admin) {
                    return Err(refuse(403, "admin only"));
                }
                Ok(i)
            },
        },
    }
}

/// What the console shows about the current visitor.
#[derive(Debug)]
pub struct AuthMe {
    pub logged_in: bool,
    pub role: AccountRole,
    pub username: Option<String>,
    pub nickname: String,
    pub email: Option<String>,
    pub is_admin: bool,
    pub guest: bool,
    pub banned: bool,
    pub forced_notice: Option<String>,
    pub forced_notice_min_seconds: u32,
}

/// The record of an account once its notice has been delivered.
pub open spec fn notice_cleared(u: UserRecord) -> UserRecord {
    UserRecord { forced_notice: None, forced_notice_min_seconds: 0, ..u }
}

/// The visitor's view: a guest view when no session is valid; else signed
/// in with the session's role and name. For an account session whose user
/// exists, the view carries the nickname, email, admin flag, ban flag and
/// notice of the account, and a notice is delivered once: the account is
/// saved without it. Otherwise the nickname is `Guest`.
pub open spec fn auth_me_ok(r: AuthMe, users: Seq<UserRecord>, after: Seq<UserRecord>,
    sessions: Seq<SessionRecord>, sid: Seq<char>, now: u64) -> bool {
    match session_at(sessions, sid, now) {
        None => {
            &&& !r.logged_in && r.role == AccountRole::Guest && r.username is None
            &&& r.nickname@ == "Guest"@ && r.email is None && !r.is_admin && r.guest && !r.banned
            &&& r.forced_notice is None && r.forced_notice_min_seconds == 0
            &&& after == users
        },
        Some(s) => {
            let sess = sessions[s];
            let found = if sess.role == AccountRole::Guest { None } else {
                match sess.username { Some(n) => user_named(users, n@), None => None }
            };
            &&& r.logged_in && r.role == sess.role && r.guest == (sess.role == AccountRole::Guest)
            &&& r.username == sess.username
            &&& match found {
                None => {
                    &&& r.nickname@ == "Guest"@ && r.email is None && !r.is_admin && !r.banned
                    &&& r.forced_notice is None && r.forced_notice_min_seconds == 0
                    &&& after == users
                },
                Some(i) => {
                    let u = users[i];
                    &&& r.nickname == u.nickname && r.email == Some(u.email)
                    &&& r.is_admin == (u.role == AccountRole::Admin) && r.banned == u.banned
                    &&& r.forced_notice == u.forced_notice
                    &&& r.forced_notice_min_seconds == u.forced_notice_min_seconds
                    &&& after == if u.forced_notice is Some { upsert_spec(users, notice_cleared(u), now) } else { users }
                },
            }
        },
    }
}

/// A copy of an optional string.
fn copy_opt(o: &Option<String>) -> (r: Option<String>)
    ensures
        r == *o,
{
    match o {
        Some(x) => Some(x.clone()),
        None => None,
    }
}

/// The visitor's view (see `auth_me_ok`).
pub fn auth_me(users: &mut Vec<UserRecord>, sessions: &Vec<SessionRecord>, sid: &str, now: u64) -> (r: AuthMe)
    ensures
        auth_me_ok(r, old(users)@, final(users)@, sessions@, sid@, now),
{
    proof {
        reveal_strlit("Guest");
    }
    let mut resp = AuthMe {
        logged_in: false,
        role: AccountRole::Guest,
        username: None,
        nickname: String::from_str("Guest"),
        email: None,
        is_admin: false,
        guest: true,
        banned: false,
        forced_notice: None,
        forced_notice_min_seconds: 0,
    };
    let s = match session_index(sessions, sid, now) {
        None => return resp,
        Some(s) => s,
    };
    let sess = &sessions[s];
    resp.logged_in = true;
    resp.role = sess.role;
    resp.guest = matches!(sess.role, AccountRole::Guest);
    resp.username = copy_opt(&sess.username);
    if matches!(sess.role, AccountRole::Guest) {
        return resp;
    }
    let found = match &sess.username {
        Some(n) => user_index(users, n.as_str()),
        None => None,
    };
    match found {
        None => resp,
        Some(i) => {
            let u = copy_user(&users[i]);
            resp.nickname = u.nickname.clone();
            resp.email = Some(u.email.clone());
            resp.is_admin = matches!(u.role, AccountRole::Admin);
            resp.banned = u.banned;
            resp.forced_notice = copy_opt(&u.forced_notice);
            resp.forced_notice_min_seconds = u.forced_notice_min_seconds;
            if u.forced_notice.is_some() {
                let mut v = u;
                v.forced_notice = None;
                v.forced_notice_min_seconds = 0;
                upsert_user(users, v, now);
            }
            resp
        },
    }
}

/// Saving a record over the first record of its name replaces that record.
proof fn lemma_upsert_at(users: Seq<UserRecord>, i: int, v: UserRecord, now: u64)
    requires
        first_named(users, v.username@, i),
    ensures
        upsert_spec(users, v, now) == users.update(i, stamped(v, now)),
{
    let k = choose|k: int| first_named(users, v.username@, k);
    lemma_first_named_unique(users, v.username@, i, k);
}

/// `after` is `before` with only the record at `i` changed, to `rec`.
pub open spec fn changed_only_at(before: Seq<UserRecord>, after: Seq<UserRecord>, i: int, rec: UserRecord) -> bool {
    0 <= i < before.len() && after == before.update(i, rec)
}

/// Changing one's nickname: refused as `signed_in_spec` says, for a banned
/// account (403), a blank nickname (400), or a reserved one on a non-admin
/// account (400); else the account gets the trimmed nickname and is
/// stamped with `now`.
pub open spec fn update_profile_ok(r: Result<(), Refusal>, sessions: Seq<SessionRecord>, users: Seq<UserRecord>,
    after: Seq<UserRecord>, sid: Seq<char>, nickname: Seq<char>, now: u64) -> bool {
    let n = trim_seq(nickname);
    let refusal: Option<(u16, Seq<char>)> = match signed_in_spec(sessions, users, sid, now) {
        Err(e) => Some(e),
        Ok(i) => if users[i].banned {
            Some((403u16, "account banned"@))
        } else if n.len() == 0 {
            Some((400u16, "nickname is empty"@))
        } else if users[i].role != AccountRole::Admin && nickname_reserved_spec(n) {
            Some((400u16, "nickname not allowed"@))
        } else {
            None
        },
    };
    match r {
        Err(f) => refusal == Some((f.status, f.message@)) && after == users,
        Ok(_) => refusal is None && {
            let i = signed_in_spec(sessions, users, sid, now)->Ok_0;
            &&& after[i].nickname@ == n
            &&& changed_only_at(users, after, i, UserRecord { nickname: after[i].nickname, updated_at_unix: now, ..users[i] })
        },
    }
}

/// Changes the signed-in account's nickname (see `update_profile_ok`).
pub fn update_profile(users: &mut Vec<UserRecord>, sessions: &Vec<SessionRecord>, sid: &str, nickname: &str, now: u64)
    -> (r: Result<(), Refusal>)
    ensures
        update_profile_ok(r, sessions@, old(users)@, final(users)@, sid@, nickname@, now),
{
    let i = match signed_in_account(sessions, users, sid, now) {
        Ok(i) => i,
        Err(f) => return Err(f),
    };
    if users[i].banned {
        return Err(refuse(403, "account banned"));
    }
    let n = trim_chars(&chars_of(nickname));
    if n.len() == 0 {
        return Err(refuse(400, "nickname is empty"));
    }
    let n_str = string_of(n.as_slice());
    if !matches!(users[i].role, AccountRole::Admin) && nickname_reserved(n_str.as_str()) {
        return Err(refuse(400, "nickname not allowed"));
    }
    let mut v = copy_user(&users[i]);
    v.nickname = n_str;
    proof {
        lemma_upsert_at(users@, i as int, v, now);
    }
    upsert_user(users, v, now);
    Ok(())
}

/// Whether `s`, trimmed, is `admin` in any ASCII case.
pub open spec fn names_admin(s: Seq<char>) -> bool {
    let t = trim_seq(s);
    t.len() == 5 && forall|k: int| 0 <= k < 5 ==> ascii_lower(#[trigger] t[k]) == "admin"@[k]
}

/// ASCII lower-casing of one character.
pub open spec fn ascii_lower(c: char) -> char {
    if 'A' <= c && c <= 'Z' { ((c as u32) + 32) as char } else { c }
}

/// Whether `s`, trimmed, is `admin` in any ASCII case (see `names_admin`).
fn is_admin_word(s: &str) -> (b: bool)
    ensures
        b == names_admin(s@),
{
    proof {
        reveal_strlit("admin");
    }
    let t = trim_chars(&chars_of(s));
    if t.len() != 5 {
        return false;
    }
    let w = chars_of("admin");
    let mut k: usize = 0;
    while k < 5
        invariant
            k <= 5,
            t@ == trim_seq(s@),
            t@.len() == 5,
            w@ == "admin"@,
            w@.len() == 5,
            forall|m: int| 0 <= m < k ==> ascii_lower(#[trigger] t@[m]) == "admin"@[m],
        decreases 5 - k,
    {
        let c = t[k];
        let lc = if 'A' <= c && c <= 'Z' { ((c as u32) + 32) as u8 as char } else { c };
        assert(lc == ascii_lower(c)) by {
            if 'A' <= c && c <= 'Z' {
                assert(((c as u32) + 32) as u8 as char == ((c as u32) + 32) as char);
            }
        }
        if lc != w[k] {
            return false;
        }
        k += 1;
    }
    true
}

/// Creating an account by hand or by sign-up: a domain outside the
/// allow-list (400) or a blank password (400) is refused, then the refusals
/// of `create_user_error` (400); else the account is appended.
pub open spec fn signup_ok(r: Result<UserRecord, Refusal>, users: Seq<UserRecord>, after: Seq<UserRecord>,
    role: AccountRole, username: Seq<char>, nickname: Seq<char>, email: Seq<char>, password: Seq<char>,
    stored: Option<String>, now: u64) -> bool {
    let refusal: Option<(u16, Seq<char>)> = if !email_allowed_spec(email) {
        Some((400u16, "email not allowed"@))
    } else {
        match create_user_error(users, username, nickname, email) {
            Some(m) => Some((400u16, m)),
            None => None,
        }
    };
    match r {
        Err(f) => refusal == Some((f.status, f.message@)) && after == users,
        Ok(rec) => refusal is None
            && is_new_user(rec, username, nickname, email, role, stored, LoginOption::PasswordOnly, now)
            && after == users.push(rec),
    }
}

/// Signs up with a password: the checks of `signup_ok`, the password kept
/// as given; a blank password is refused (400) before the account checks.
pub fn signup(users: &mut Vec<UserRecord>, role: AccountRole, username: &str, nickname: &str, email: &str,
    password: String, now: u64) -> (r: Result<UserRecord, Refusal>)
    ensures
        email_allowed_spec(email@) && trim_seq(password@).len() == 0 ==> match r {
            Err(f) => f.status == 400 && f.message@ == "password is empty"@ && final(users)@ == old(users)@,
            Ok(_) => false,
        },
        !(email_allowed_spec(email@) && trim_seq(password@).len() == 0) ==>
            signup_ok(r, old(users)@, final(users)@, role, username@, nickname@, email@, password@, Some(password), now),
{
    if !email_allowed(email) {
        return Err(refuse(400, "email not allowed"));
    }
    if trim_chars(&chars_of(password.as_str())).len() == 0 {
        return Err(refuse(400, "password is empty"));
    }
    let ghost pw = password;
    match create_user(users, username, nickname, email, role, Some(password), LoginOption::PasswordOnly, now) {
        Ok(rec) => Ok(rec),
        Err(e) => Err(Refusal { status: 400, message: e }),
    }
}

/// Registers an account with the user role; refused with 403 when
/// registration is disabled, else as `signup` says.
pub fn register(users: &mut Vec<UserRecord>, registration_enabled: bool, username: &str, nickname: &str, email: &str,
    password: String, now: u64) -> (r: Result<UserRecord, Refusal>)
    ensures
        !registration_enabled ==> match r {
            Err(f) => f.status == 403 && f.message@ == "registration disabled"@ && final(users)@ == old(users)@,
            Ok(_) => false,
        },
        registration_enabled && email_allowed_spec(email@) && trim_seq(password@).len() == 0 ==> match r {
            Err(f) => f.status == 400 && f.message@ == "password is empty"@ && final(users)@ == old(users)@,
            Ok(_) => false,
        },
        registration_enabled && !(email_allowed_spec(email@) && trim_seq(password@).len() == 0) ==>
            signup_ok(r, old(users)@, final(users)@, AccountRole::User, username@, nickname@, email@, password@, Some(password), now),
{
    if !registration_enabled {
        return Err(refuse(403, "registration disabled"));
    }
    signup(users, AccountRole::User, username, nickname, email, password, now)
}

/// Creates the first administrator; refused with 400 once any account
/// exists, else as `signup` says.
pub fn bootstrap_admin(users: &mut Vec<UserRecord>, username: &str, nickname: &str, email: &str,
    password: String, now: u64) -> (r: Result<UserRecord, Refusal>)
    ensures
        old(users)@.len() > 0 ==> match r {
            Err(f) => f.status == 400 && f.message@ == "bootstrap already completed"@ && final(users)@ == old(users)@,
            Ok(_) => false,
        },
        old(users)@.len() == 0 && email_allowed_spec(email@) && trim_seq(password@).len() == 0 ==> match r {
            Err(f) => f.status == 400 && f.message@ == "password is empty"@ && final(users)@ == old(users)@,
            Ok(_) => false,
        },
        old(users)@.len() == 0 && !(email_allowed_spec(email@) && trim_seq(password@).len() == 0) ==>
            signup_ok(r, old(users)@, final(users)@, AccountRole::Admin, username@, nickname@, email@, password@, Some(password), now),
{
    if users.len() > 0 {
        return Err(refuse(400, "bootstrap already completed"));
    }
    signup(users, AccountRole::Admin, username, nickname, email, password, now)
}

/// An administrator creates an account: the role is admin when the role
/// text is `admin` in any case, else user; a blank password leaves the
/// account without one; then the checks of `signup_ok` apply.
pub fn admin_create_user(users: &mut Vec<UserRecord>, role_text: &str, username: &str, nickname: &str, email: &str,
    password: String, now: u64) -> (r: Result<UserRecord, Refusal>)
    ensures
        signup_ok(r, old(users)@, final(users)@,
            if names_admin(role_text@) { AccountRole::Admin } else { AccountRole::User },
            username@, nickname@, email@, password@,
            if trim_seq(password@).len() == 0 { None } else { Some(password) }, now),
{
    let role = if is_admin_word(role_text) { AccountRole::Admin } else { AccountRole::User };
    if !email_allowed(email) {
        return Err(refuse(400, "email not allowed"));
    }
    let pw = if trim_chars(&chars_of(password.as_str())).len() == 0 { None } else { Some(password) };
    match create_user(users, username, nickname, email, role, pw, LoginOption::PasswordOnly, now) {
        Ok(rec) => Ok(rec),
        Err(e) => Err(Refusal { status: 400, message: e }),
    }
}

/// An administrator deletes an account: a blank name (400) or the
/// administrator's own name (400) is refused; else the account and its
/// sessions go (see `delete_user`).
pub fn admin_delete_user(users: &mut Vec<UserRecord>, sessions: &mut Vec<SessionRecord>, admin_username: &str, username: &str)
    -> (r: Result<(), Refusal>)
    ensures
        trim_seq(username@).len() == 0 ==> (r matches Err(f) && f.status == 400 && f.message@ == "username is empty"@),
        trim_seq(username@).len() > 0 && username@ == admin_username@ ==>
            (r matches Err(f) && f.status == 400 && f.message@ == "cannot delete yourself"@),
        r is Err ==> final(users)@ == old(users)@ && final(sessions)@ == old(sessions)@,
        trim_seq(username@).len() > 0 && username@ != admin_username@ ==> {
            &&& r is Ok
            &&& final(users)@ == users_not_named(old(users)@, trim_seq(username@))
            &&& final(sessions)@ == sessions_not_of(old(sessions)@, trim_seq(username@))
        },
{
    if trim_chars(&chars_of(username)).len() == 0 {
        return Err(refuse(400, "username is empty"));
    }
    if str_eq(username, admin_username) {
        return Err(refuse(400, "cannot delete yourself"));
    }
    delete_user(users, sessions, username);
    Ok(())
}

/// An administrator bans or unbans an account: the administrator's own
/// name is refused (400); else as `set_user_banned` says.
pub fn admin_set_banned(users: &mut Vec<UserRecord>, sessions: &mut Vec<SessionRecord>, admin_username: &str,
    username: &str, banned: bool, now: u64) -> (r: Result<(), Refusal>)
    ensures
        username@ == admin_username@ ==> {
            &&& r matches Err(f) && f.status == 400 && f.message@ == "cannot ban yourself"@
            &&& final(users)@ == old(users)@ && final(sessions)@ == old(sessions)@
        },
        username@ != admin_username@ ==> r is Ok && (trim_seq(username@).len() == 0 ==> final(users)@ == old(users)@ && final(sessions)@ == old(sessions)@),
        username@ != admin_username@ && trim_seq(username@).len() > 0 ==> {
            &&& final(users)@ == ban_users_spec(old(users)@, trim_seq(username@), banned, now)
            &&& final(sessions)@ == if banned { sessions_not_of(old(sessions)@, trim_seq(username@)) } else { old(sessions)@ }
        },
{
    if str_eq(username, admin_username) {
        return Err(refuse(400, "cannot ban yourself"));
    }
    set_user_banned(users, sessions, username, banned, now);
    Ok(())
}

/// The longest a notice can insist on being read, in seconds.
pub const NOTICE_MAX_SECONDS: u32 = 300;

/// Why an administrator's change to another account is refused: a blank
/// name (400), the administrator's own name (400, with the message given),
/// an unknown account (404).
pub open spec fn admin_edit_refusal(users: Seq<UserRecord>, admin_username: Seq<char>, username: Seq<char>, self_message: Seq<char>)
    -> Option<(u16, Seq<char>)> {
    if trim_seq(username).len() == 0 {
        Some((400u16, "username is empty"@))
    } else if username == admin_username {
        Some((400u16, self_message))
    } else if user_named(users, username) is None {
        Some((404u16, "user not found"@))
    } else {
        None
    }
}

/// The account an administrator edits (see `admin_edit_refusal`).
fn admin_edit_target(users: &Vec<UserRecord>, admin_username: &str, username: &str, self_message: &str)
    -> (r: Result<usize, Refusal>)
    ensures
        match r {
            Err(f) => admin_edit_refusal(users@, admin_username@, username@, self_message@) == Some((f.status, f.message@)),
            Ok(i) => admin_edit_refusal(users@, admin_username@, username@, self_message@) is None
                && user_named(users@, username@) == Some(i as int),
        },
{
    if trim_chars(&chars_of(username)).len() == 0 {
        return Err(refuse(400, "username is empty"));
    }
    if str_eq(username, admin_username) {
        return Err(refuse(400, self_message));
    }
    match user_index(users, username) {
        None => Err(refuse(404, "user not found")),
        Some(i) => Ok(i),
    }
}

/// An administrator sets the notice an account must read: refused as
/// `admin_edit_refusal` says; else a blank message (trimmed) clears the
/// notice, and any other sets it with its minimum reading time capped at
/// `NOTICE_MAX_SECONDS`; the account is stamped with `now`.
pub fn admin_set_notice(users: &mut Vec<UserRecord>, admin_username: &str, username: &str, message: &str,
    min_seconds: u32, now: u64) -> (r: Result<(), Refusal>)
    ensures
        match r {
            Err(f) => admin_edit_refusal(old(users)@, admin_username@, username@, "cannot set notice for yourself"@)
                == Some((f.status, f.message@)) && final(users)@ == old(users)@,
            Ok(_) => admin_edit_refusal(old(users)@, admin_username@, username@, "cannot set notice for yourself"@) is None && {
                let i = user_named(old(users)@, username@)->Some_0;
                let rec = final(users)@[i];
                &&& changed_only_at(old(users)@, final(users)@, i,
                        UserRecord { forced_notice: rec.forced_notice, forced_notice_min_seconds: rec.forced_notice_min_seconds,
                            updated_at_unix: now, ..old(users)@[i] })
                &&& if trim_seq(message@).len() == 0 {
                        rec.forced_notice is None && rec.forced_notice_min_seconds == 0
                    } else {
                        rec.forced_notice matches Some(m) && m@ == trim_seq(message@)
                            && rec.forced_notice_min_seconds == if min_seconds < NOTICE_MAX_SECONDS { min_seconds } else { NOTICE_MAX_SECONDS }
                    }
            },
        },
{
    let i = match admin_edit_target(users, admin_username, username, "cannot set notice for yourself") {
        Ok(i) => i,
        Err(f) => return Err(f),
    };
    let mut v = copy_user(&users[i]);
    let msg = trim_chars(&chars_of(message));
    if msg.len() == 0 {
        v.forced_notice = None;
        v.forced_notice_min_seconds = 0;
    } else {
        v.forced_notice = Some(string_of(msg.as_slice()));
        v.forced_notice_min_seconds = if min_seconds < NOTICE_MAX_SECONDS { min_seconds } else { NOTICE_MAX_SECONDS };
    }
    proof {
        lemma_upsert_at(users@, i as int, v, now);
    }
    upsert_user(users, v, now);
    Ok(())
}

/// An administrator sets another account's password: refused as
/// `admin_edit_refusal` says; else the trimmed password is stored, or none
/// when it is blank, and the account is stamped with `now`.
pub fn admin_set_password(users: &mut Vec<UserRecord>, admin_username: &str, username: &str, password: &str, now: u64)
    -> (r: Result<(), Refusal>)
    ensures
        match r {
            Err(f) => admin_edit_refusal(old(users)@, admin_username@, username@, "use account page to change your own password"@)
                == Some((f.status, f.message@)) && final(users)@ == old(users)@,
            Ok(_) => admin_edit_refusal(old(users)@, admin_username@, username@, "use account page to change your own password"@) is None && {
                let i = user_named(old(users)@, username@)->Some_0;
                let rec = final(users)@[i];
                &&& changed_only_at(old(users)@, final(users)@, i,
                        UserRecord { password: rec.password, updated_at_unix: now, ..old(users)@[i] })
                &&& if trim_seq(password@).len() == 0 {
                        rec.password is None
                    } else {
                        rec.password matches Some(p) && p@ == trim_seq(password@)
                    }
            },
        },
{
    let i = match admin_edit_target(users, admin_username, username, "use account page to change your own password") {
        Ok(i) => i,
        Err(f) => return Err(f),
    };
    let mut v = copy_user(&users[i]);
    let pw = trim_chars(&chars_of(password));
    if pw.len() == 0 {
        v.password = None;
    } else {
        v.password = Some(string_of(pw.as_slice()));
    }
    proof {
        lemma_upsert_at(users@, i as int, v, now);
    }
    upsert_user(users, v, now);
    Ok(())
}

/// Who is using the console, and where their data lives.
#[derive(Debug)]
pub struct WebUserCtx {
    pub role: AccountRole,
    pub username: Option<String>,
    /// The index of the account in the user list, for account sessions.
    pub user: Option<usize>,
    pub managed_root_dir: String,
    pub can_write: bool,
}

/// The console context of a request, or why there is none: no session
/// cookie (401), no valid session (401). Guests read the shared guest
/// directory and cannot write; accounts need a user name (401), an existing
/// account (401) that is not banned (403), and work in their own directory.
pub open spec fn web_user_ctx_ok(r: Result<WebUserCtx, Refusal>, sessions: Seq<SessionRecord>, users: Seq<UserRecord>,
    sid: Seq<char>, now: u64) -> bool {
    let refused = |status: u16, message: Seq<char>| r matches Err(f) && f.status == status && f.message@ == message;
    if sid.len() == 0 {
        refused(401, "not logged in"@)
    } else {
        match session_at(sessions, sid, now) {
            None => refused(401, "invalid session"@),
            Some(s) => if sessions[s].role == AccountRole::Guest {
                r matches Ok(c) && c.role == AccountRole::Guest && c.username is None && c.user is None
                    && c.managed_root_dir@ == "autocoding_data/guest"@ && !c.can_write
            } else {
                match sessions[s].username {
                    None => refused(401, "invalid session user"@),
                    Some(name) => match user_named(users, name@) {
                        None => refused(401, "unknown user"@),
                        Some(i) => if users[i].banned {
                            refused(403, "account banned"@)
                        } else {
                            r matches Ok(c) && c.role == users[i].role && c.username == Some(name)
                                && c.user == Some(i as usize)
                                && c.managed_root_dir@ == "autocoding_data/users/"@ + name@ && c.can_write
                        },
                    },
                }
            },
        }
    }
}

/// The console context of a request (see `web_user_ctx_ok`).
pub fn web_user_ctx(sessions: &Vec<SessionRecord>, users: &Vec<UserRecord>, sid: &str, now: u64)
    -> (r: Result<WebUserCtx, Refusal>)
    ensures
        web_user_ctx_ok(r, sessions@, users@, sid@, now),
{
    if sid.unicode_len() == 0 {
        return Err(refuse(401, "not logged in"));
    }
    let s = match session_index(sessions, sid, now) {
        None => return Err(refuse(401, "invalid session")),
        Some(s) => s,
    };
    if matches!(sessions[s].role, AccountRole::Guest) {
        return Ok(WebUserCtx {
            role: AccountRole::Guest,
            username: None,
            user: None,
            managed_root_dir: String::from_str("autocoding_data/guest"),
            can_write: false,
        });
    }
    let name = match &sessions[s].username {
        None => return Err(refuse(401, "invalid session user")),
        Some(n) => n,
    };
    let i = match user_index(users, name.as_str()) {
        None => return Err(refuse(401, "unknown user")),
        Some(i) => i,
    };
    if users[i].banned {
        return Err(refuse(403, "account banned"));
    }
    Ok(WebUserCtx {
        role: users[i].role,
        username: Some(name.clone()),
        user: Some(i),
        managed_root_dir: concat("autocoding_data/users/", name.as_str()),
        can_write: true,
    })
}

} // verus!
