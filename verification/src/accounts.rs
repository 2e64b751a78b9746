//! The account store: user records and login sessions, kept as lists that
//! the server reads from and writes back to its JSON files.

use vstd::prelude::*;
use crate::auth::{AccountRole, LoginOption, nickname_reserved, nickname_reserved_spec};
use crate::text::{push_char, concat, str_eq, contains, contains_lit, chars_eq, chars_of, lowercase, lower_chars, string_of, trim_chars, trim_seq};

verus! {

/// One account.
#[derive(Clone, Debug)]
pub struct UserRecord {
    pub username: String,
    pub nickname: String,
    pub email: String,
    pub role: AccountRole,
    pub banned: bool,
    pub login_option: LoginOption,
    pub password: Option<String>,
    pub created_at_unix: u64,
    pub updated_at_unix: u64,
    pub forced_notice: Option<String>,
    pub forced_notice_min_seconds: u32,
}

/// One login session; guests have no user name.
#[derive(Clone, Debug)]
pub struct SessionRecord {
    pub session_id: String,
    pub username: Option<String>,
    pub role: AccountRole,
    pub created_at_unix: u64,
    pub expires_at_unix: u64,
}

/// The elements of `s` that satisfy `keep`, in order.
pub open spec fn retain_spec<A>(s: Seq<A>, keep: spec_fn(A) -> bool) -> Seq<A>
    decreases s.len(),
{
    if s.len() == 0 {
        s
    } else {
        let rest = retain_spec(s.drop_last(), keep);
        if keep(s.last()) { rest.push(s.last()) } else { rest }
    }
}

/// Retaining over one more element.
pub proof fn lemma_retain_push<A>(s: Seq<A>, x: A, keep: spec_fn(A) -> bool)
    ensures
        retain_spec(s.push(x), keep) == (if keep(x) { retain_spec(s, keep).push(x) } else { retain_spec(s, keep) }),
{
    assert(s.push(x).drop_last() =~= s);
}

/// Everything retained satisfies the predicate.
pub proof fn lemma_retain_all<A>(s: Seq<A>, keep: spec_fn(A) -> bool)
    ensures
        forall|i: int| 0 <= i < retain_spec(s, keep).len() ==> keep(#[trigger] retain_spec(s, keep)[i]),
        retain_spec(s, keep).len() <= s.len(),
    decreases s.len(),
{
    if s.len() > 0 {
        lemma_retain_all(s.drop_last(), keep);
    }
}

/// A user record named `name`.
pub open spec fn named(u: UserRecord, name: Seq<char>) -> bool {
    u.username@ == name
}

/// `i` is the first index of a record named `name`.
pub open spec fn first_named(users: Seq<UserRecord>, name: Seq<char>, i: int) -> bool {
    &&& 0 <= i < users.len()
    &&& named(users[i], name)
    &&& forall|j: int| 0 <= j < i ==> !named(#[trigger] users[j], name)
}

/// No record is named `name`.
pub open spec fn none_named(users: Seq<UserRecord>, name: Seq<char>) -> bool {
    forall|j: int| 0 <= j < users.len() ==> !named(#[trigger] users[j], name)
}

/// The index of the first record named exactly `name`.
fn position_of_name(users: &Vec<UserRecord>, name: &Vec<char>) -> (r: Option<usize>)
    ensures
        match r {
            Some(i) => first_named(users@, name@, i as int),
            None => none_named(users@, name@),
        },
{
    let mut i: usize = 0;
    while i < users.len()
        invariant
            i <= users.len(),
            forall|j: int| 0 <= j < i ==> !named(#[trigger] users@[j], name@),
        decreases users.len() - i,
    {
        let n = chars_of(users[i].username.as_str());
        if chars_eq(&n, name) {
            return Some(i);
        }
        i += 1;
    }
    None
}

/// Looks a user up by name; the name is trimmed first, and a blank one
/// finds nobody.
pub fn find_user_by_username(users: &Vec<UserRecord>, username: &str) -> (r: Option<usize>)
    ensures
        trim_seq(username@).len() == 0 ==> r is None,
        trim_seq(username@).len() > 0 ==> match r {
            Some(i) => first_named(users@, trim_seq(username@), i as int),
            None => none_named(users@, trim_seq(username@)),
        },
{
    let u = trim_chars(&chars_of(username));
    if u.len() == 0 {
        return None;
    }
    position_of_name(users, &u)
}

/// A user record whose lower-cased email is `e`.
pub open spec fn has_email(u: UserRecord, e: Seq<char>) -> bool {
    lowercase(u.email@) == e
}

/// The email key a lookup compares with: trimmed, then lower-cased.
pub open spec fn email_key(email: Seq<char>) -> Seq<char> {
    lowercase(trim_seq(email))
}

/// Looks a user up by email, comparing lower-cased addresses; a blank
/// address finds nobody.
pub fn find_user_by_email(users: &Vec<UserRecord>, email: &str) -> (r: Option<usize>)
    ensures
        email_key(email@).len() == 0 ==> r is None,
        email_key(email@).len() > 0 ==> match r {
            Some(i) => 0 <= i < users@.len() && has_email(users@[i as int], email_key(email@))
                && forall|j: int| 0 <= j < i ==> !has_email(#[trigger] users@[j], email_key(email@)),
            None => forall|j: int| 0 <= j < users@.len() ==> !has_email(#[trigger] users@[j], email_key(email@)),
        },
{
    let e = lower_chars(&trim_chars(&chars_of(email)));
    if e.len() == 0 {
        return None;
    }
    let mut i: usize = 0;
    while i < users.len()
        invariant
            i <= users.len(),
            e@ == email_key(email@),
            e@.len() > 0,
            forall|j: int| 0 <= j < i ==> !has_email(#[trigger] users@[j], e@),
        decreases users.len() - i,
    {
        let x = lower_chars(&chars_of(users[i].email.as_str()));
        if chars_eq(&x, &e) {
            return Some(i);
        }
        i += 1;
    }
    None
}

/// The record `u` stamped as updated at `now`.
pub open spec fn stamped(u: UserRecord, now: u64) -> UserRecord {
    UserRecord { updated_at_unix: now, ..u }
}

/// Inserting or replacing a user: the record, stamped with `now`, takes the
/// place of the first record of the same name, or is appended.
pub open spec fn upsert_spec(users: Seq<UserRecord>, u: UserRecord, now: u64) -> Seq<UserRecord> {
    if exists|i: int| first_named(users, u.username@, i) {
        let i = choose|i: int| first_named(users, u.username@, i);
        users.update(i, stamped(u, now))
    } else {
        users.push(stamped(u, now))
    }
}

pub proof fn lemma_first_named_unique(users: Seq<UserRecord>, name: Seq<char>, i: int, k: int)
    requires
        first_named(users, name, i),
        first_named(users, name, k),
    ensures
        i == k,
{
    if i < k {
        assert(!named(users[i], name));
    } else if k < i {
        assert(!named(users[k], name));
    }
}

/// A record named `name` at `j` means there is a first one.
proof fn lemma_first_named_exists(users: Seq<UserRecord>, name: Seq<char>, j: int)
    requires
        0 <= j < users.len(),
        named(users[j], name),
    ensures
        exists|i: int| first_named(users, name, i),
    decreases j,
{
    if exists|k: int| 0 <= k < j && named(#[trigger] users[k], name) {
        let k = choose|k: int| 0 <= k < j && named(#[trigger] users[k], name);
        lemma_first_named_exists(users, name, k);
    } else {
        assert(first_named(users, name, j));
    }
}

/// Inserts or replaces a user record (see `upsert_spec`).
pub fn upsert_user(users: &mut Vec<UserRecord>, u: UserRecord, now: u64)
    ensures
        final(users)@ == upsert_spec(old(users)@, u, now),
{
    let ghost orig = u;
    let mut u = u;
    u.updated_at_unix = now;
    let name = chars_of(u.username.as_str());
    match position_of_name(users, &name) {
        Some(i) => {
            proof {
                let k = choose|k: int| first_named(old(users)@, orig.username@, k);
                lemma_first_named_unique(old(users)@, orig.username@, i as int, k);
            }
            users.set(i, u);
        },
        None => {
            users.push(u);
        },
    }
}

/// Law: a record written with `upsert_user` is what a lookup by its
/// (trimmed, non-blank) name finds afterwards.
pub proof fn upsert_then_find(users: Seq<UserRecord>, u: UserRecord, now: u64)
    requires
        trim_seq(u.username@) == u.username@,
        u.username@.len() > 0,
    ensures
        exists|i: int| first_named(upsert_spec(users, u, now), u.username@, i)
            && upsert_spec(users, u, now)[i] == stamped(u, now),
{
    let after = upsert_spec(users, u, now);
    if exists|i: int| first_named(users, u.username@, i) {
        let i = choose|i: int| first_named(users, u.username@, i);
        assert(first_named(after, u.username@, i));
    } else {
        assert forall|j: int| 0 <= j < users.len() implies !named(#[trigger] users[j], u.username@) by {
            if named(users[j], u.username@) {
                lemma_first_named_exists(users, u.username@, j);
            }
        }
        assert(first_named(after, u.username@, users.len() as int));
    }
}

/// A copy of an optional string.
fn copy_opt(o: &Option<String>) -> (r: Option<String>)
    ensures
        r == *o,
{
    match o {
        Some(x) => Some(x.clone()),
        None => None,
    }
}

/// A session that belongs to the user `name`.
pub open spec fn session_of(s: SessionRecord, name: Seq<char>) -> bool {
    match s.username {
        Some(u) => u@ == name,
        None => false,
    }
}

/// The sessions that do not belong to `name`.
pub open spec fn sessions_not_of(sessions: Seq<SessionRecord>, name: Seq<char>) -> Seq<SessionRecord> {
    retain_spec(sessions, |s: SessionRecord| !session_of(s, name))
}

/// The users not named `name`.
pub open spec fn users_not_named(users: Seq<UserRecord>, name: Seq<char>) -> Seq<UserRecord> {
    retain_spec(users, |u: UserRecord| !named(u, name))
}

/// Drops the sessions of the user `name`, keeping the order of the rest.
fn drop_sessions_of(sessions: &mut Vec<SessionRecord>, name: &Vec<char>)
    ensures
        final(sessions)@ == sessions_not_of(old(sessions)@, name@),
{
    let mut input: Vec<SessionRecord> = Vec::new();
    std::mem::swap(sessions, &mut input);
    let ghost orig = input@;
    let ghost keep = |s: SessionRecord| !session_of(s, name@);
    let ghost mut k: int = 0;
    assert(orig.take(0) =~= Seq::<SessionRecord>::empty());
    while input.len() > 0
        invariant
            0 <= k <= orig.len(),
            input@ == orig.skip(k),
            sessions@ == retain_spec(orig.take(k), keep),
            keep == (|s: SessionRecord| !session_of(s, name@)),
        decreases input.len(),
    {
        let x = input.remove(0);
        proof {
            assert(x == orig[k]);
            assert(orig.take(k + 1) =~= orig.take(k).push(x));
            lemma_retain_push(orig.take(k), x, keep);
            k = k + 1;
            assert(input@ =~= orig.skip(k));
        }
        let mine = match &x.username {
            Some(u) => chars_eq(&chars_of(u.as_str()), name),
            None => false,
        };
        if !mine {
            sessions.push(x);
        }
    }
    assert(orig.take(k) =~= orig);
}

/// Drops the users named `name`, keeping the order of the rest.
fn drop_users_named(users: &mut Vec<UserRecord>, name: &Vec<char>)
    ensures
        final(users)@ == users_not_named(old(users)@, name@),
{
    let mut input: Vec<UserRecord> = Vec::new();
    std::mem::swap(users, &mut input);
    let ghost orig = input@;
    let ghost keep = |u: UserRecord| !named(u, name@);
    let ghost mut k: int = 0;
    assert(orig.take(0) =~= Seq::<UserRecord>::empty());
    while input.len() > 0
        invariant
            0 <= k <= orig.len(),
            input@ == orig.skip(k),
            users@ == retain_spec(orig.take(k), keep),
            keep == (|u: UserRecord| !named(u, name@)),
        decreases input.len(),
    {
        let x = input.remove(0);
        proof {
            assert(x == orig[k]);
            assert(orig.take(k + 1) =~= orig.take(k).push(x));
            lemma_retain_push(orig.take(k), x, keep);
            k = k + 1;
            assert(input@ =~= orig.skip(k));
        }
        if !chars_eq(&chars_of(x.username.as_str()), name) {
            users.push(x);
        }
    }
    assert(orig.take(k) =~= orig);
}

/// Banning or unbanning: the first user named `name` gets the flag and the
/// time stamp `now`; banning also drops every session of that name.
pub open spec fn ban_users_spec(users: Seq<UserRecord>, name: Seq<char>, banned: bool, now: u64) -> Seq<UserRecord> {
    if exists|i: int| first_named(users, name, i) {
        let i = choose|i: int| first_named(users, name, i);
        users.update(i, UserRecord { banned: banned, updated_at_unix: now, ..users[i] })
    } else {
        users
    }
}

/// Sets or clears the ban flag of a user (see `ban_users_spec`); the name
/// is trimmed, and a blank one changes nothing.
pub fn set_user_banned(users: &mut Vec<UserRecord>, sessions: &mut Vec<SessionRecord>, username: &str, banned: bool, now: u64)
    ensures
        trim_seq(username@).len() == 0 ==> final(users)@ == old(users)@ && final(sessions)@ == old(sessions)@,
        trim_seq(username@).len() > 0 ==> {
            &&& final(users)@ == ban_users_spec(old(users)@, trim_seq(username@), banned, now)
            &&& final(sessions)@ == if banned { sessions_not_of(old(sessions)@, trim_seq(username@)) } else { old(sessions)@ }
        },
{
    let u = trim_chars(&chars_of(username));
    if u.len() == 0 {
        return;
    }
    match position_of_name(users, &u) {
        Some(i) => {
            proof {
                let k = choose|k: int| first_named(old(users)@, u@, k);
                lemma_first_named_unique(old(users)@, u@, i as int, k);
            }
            let mut rec = users.remove(i);
            rec.banned = banned;
            rec.updated_at_unix = now;
            users.insert(i, rec);
            assert(users@ =~= ban_users_spec(old(users)@, u@, banned, now));
        },
        None => {},
    }
    if banned {
        drop_sessions_of(sessions, &u);
    }
}

/// Deletes a user and every session of that user; the name is trimmed, and
/// a blank one changes nothing.
pub fn delete_user(users: &mut Vec<UserRecord>, sessions: &mut Vec<SessionRecord>, username: &str)
    ensures
        trim_seq(username@).len() == 0 ==> final(users)@ == old(users)@ && final(sessions)@ == old(sessions)@,
        trim_seq(username@).len() > 0 ==> {
            &&& final(users)@ == users_not_named(old(users)@, trim_seq(username@))
            &&& final(sessions)@ == sessions_not_of(old(sessions)@, trim_seq(username@))
        },
{
    let u = trim_chars(&chars_of(username));
    if u.len() == 0 {
        return;
    }
    drop_users_named(users, &u);
    drop_sessions_of(sessions, &u);
}

/// Law: once a user is deleted, no record of that name and no session of
/// that user is left.
pub proof fn delete_leaves_nothing(users: Seq<UserRecord>, sessions: Seq<SessionRecord>, name: Seq<char>)
    ensures
        none_named(users_not_named(users, name), name),
        forall|i: int| 0 <= i < sessions_not_of(sessions, name).len()
            ==> !session_of(#[trigger] sessions_not_of(sessions, name)[i], name),
{
    lemma_retain_all(users, |u: UserRecord| !named(u, name));
    lemma_retain_all(sessions, |s: SessionRecord| !session_of(s, name));
    assert forall|j: int| 0 <= j < users_not_named(users, name).len()
        implies !named(#[trigger] users_not_named(users, name)[j], name) by {
        let keep = |u: UserRecord| !named(u, name);
        assert(keep(retain_spec(users, keep)[j]));
    }
    assert forall|i: int| 0 <= i < sessions_not_of(sessions, name).len()
        implies !session_of(#[trigger] sessions_not_of(sessions, name)[i], name) by {
        let keep = |s: SessionRecord| !session_of(s, name);
        assert(keep(retain_spec(sessions, keep)[i]));
    }
}

/// A copy of a user record.
pub fn copy_user(u: &UserRecord) -> (r: UserRecord)
    ensures
        r == *u,
{
    UserRecord {
        username: u.username.clone(),
        nickname: u.nickname.clone(),
        email: u.email.clone(),
        role: u.role,
        banned: u.banned,
        login_option: u.login_option,
        password: copy_opt(&u.password),
        created_at_unix: u.created_at_unix,
        updated_at_unix: u.updated_at_unix,
        forced_notice: copy_opt(&u.forced_notice),
        forced_notice_min_seconds: u.forced_notice_min_seconds,
    }
}

/// Some record has the email key `e`, and the key is not blank.
pub open spec fn email_taken(users: Seq<UserRecord>, e: Seq<char>) -> bool {
    e.len() > 0 && exists|j: int| 0 <= j < users.len() && has_email(#[trigger] users[j], e)
}

/// Why creating an account is refused, checked in this order: a blank user
/// name, a name in use, a blank email, an email in use (compared
/// lower-cased), a blank nickname, a reserved nickname.
pub open spec fn create_user_error(users: Seq<UserRecord>, username: Seq<char>, nickname: Seq<char>, email: Seq<char>) -> Option<Seq<char>> {
    let u = trim_seq(username);
    let e = email_key(email);
    let n = trim_seq(nickname);
    if u.len() == 0 {
        Some("username is empty"@)
    } else if !none_named(users, u) {
        Some("username already exists"@)
    } else if e.len() == 0 {
        Some("email is empty"@)
    } else if email_taken(users, email_key(e)) {
        Some("email already exists"@)
    } else if n.len() == 0 {
        Some("nickname is empty"@)
    } else if nickname_reserved_spec(n) {
        Some("nickname not allowed"@)
    } else {
        None
    }
}

/// The record a new account starts with.
pub open spec fn is_new_user(r: UserRecord, username: Seq<char>, nickname: Seq<char>, email: Seq<char>,
    role: AccountRole, password: Option<String>, login_option: LoginOption, now: u64) -> bool {
    &&& r.username@ == trim_seq(username)
    &&& r.nickname@ == trim_seq(nickname)
    &&& r.email@ == email_key(email)
    &&& r.role == role
    &&& !r.banned
    &&& r.login_option == login_option
    &&& r.password == password
    &&& r.created_at_unix == now
    &&& r.updated_at_unix == now
    &&& r.forced_notice is None
    &&& r.forced_notice_min_seconds == 0
}

/// Creates an account: refused as `create_user_error` says, else the new
/// record is appended and returned.
pub fn create_user(users: &mut Vec<UserRecord>, username: &str, nickname: &str, email: &str,
    role: AccountRole, password: Option<String>, login_option: LoginOption, now: u64) -> (r: Result<UserRecord, String>)
    ensures
        match r {
            Ok(rec) => {
                &&& create_user_error(old(users)@, username@, nickname@, email@) is None
                &&& is_new_user(rec, username@, nickname@, email@, role, password, login_option, now)
                &&& final(users)@ == old(users)@.push(rec)
            },
            Err(m) => {
                &&& create_user_error(old(users)@, username@, nickname@, email@) == Some(m@)
                &&& final(users)@ == old(users)@
            },
        },
{
    let u = trim_chars(&chars_of(username));
    if u.len() == 0 {
        return Err(String::from_str("username is empty"));
    }
    if position_of_name(users, &u).is_some() {
        return Err(String::from_str("username already exists"));
    }
    let e = lower_chars(&trim_chars(&chars_of(email)));
    if e.len() == 0 {
        return Err(String::from_str("email is empty"));
    }
    let e_str = string_of(e.as_slice());
    match find_user_by_email(users, e_str.as_str()) {
        Some(j) => {
            return Err(String::from_str("email already exists"));
        },
        None => {
            assert(!email_taken(users@, email_key(e@)));
        },
    }
    let n = trim_chars(&chars_of(nickname));
    if n.len() == 0 {
        return Err(String::from_str("nickname is empty"));
    }
    let n_str = string_of(n.as_slice());
    if nickname_reserved(n_str.as_str()) {
        return Err(String::from_str("nickname not allowed"));
    }
    let rec = UserRecord {
        username: string_of(u.as_slice()),
        nickname: n_str,
        email: e_str,
        role: role,
        banned: false,
        login_option: login_option,
        password: password,
        created_at_unix: now,
        updated_at_unix: now,
        forced_notice: None,
        forced_notice_min_seconds: 0,
    };
    let out = copy_user(&rec);
    users.push(rec);
    Ok(out)
}

/// At most this many sessions are kept.
pub const SESSION_CAP: usize = 2000;

/// A session still valid at `now`.
pub open spec fn live_at(s: SessionRecord, now: u64) -> bool {
    s.expires_at_unix > now
}

/// The sessions still valid at `now`, in order.
pub open spec fn live_sessions(sessions: Seq<SessionRecord>, now: u64) -> Seq<SessionRecord> {
    retain_spec(sessions, |s: SessionRecord| live_at(s, now))
}

/// Sessions ordered by creation time, oldest first.
pub open spec fn created_sorted(s: Seq<SessionRecord>) -> bool {
    forall|i: int, j: int| 0 <= i < j < s.len() ==> #[trigger] s[i].created_at_unix <= #[trigger] s[j].created_at_unix
}

/// `perm` tells where each session of `after` stood in `before`: it picks
/// every position once, and sessions created at the same second keep their
/// relative order.
pub open spec fn stable_perm(before: Seq<SessionRecord>, after: Seq<SessionRecord>, perm: Seq<int>) -> bool {
    &&& perm.len() == after.len() && after.len() == before.len()
    &&& forall|k: int| 0 <= k < perm.len() ==> 0 <= #[trigger] perm[k] < before.len()
    &&& forall|k: int, l: int| 0 <= k < l < perm.len() ==> #[trigger] perm[k] != #[trigger] perm[l]
    &&& forall|k: int| 0 <= k < after.len() ==> #[trigger] after[k] == before[perm[k]]
    &&& forall|k: int, l: int| 0 <= k < l < after.len() && #[trigger] after[k].created_at_unix == #[trigger] after[l].created_at_unix
            ==> perm[k] < perm[l]
}

/// `sorted` is `before` ordered by creation time, oldest first, sessions
/// created at the same second in their order in `before`.
pub open spec fn stably_sorted(before: Seq<SessionRecord>, sorted: Seq<SessionRecord>) -> bool {
    created_sorted(sorted) && exists|perm: Seq<int>| stable_perm(before, sorted, perm)
}

/// Pruning: expired sessions go; when more than `SESSION_CAP` remain, they
/// are ordered by creation time (ties in their order) and only the
/// `SESSION_CAP` oldest are kept.
pub open spec fn pruned(before: Seq<SessionRecord>, after: Seq<SessionRecord>, now: u64) -> bool {
    let l = live_sessions(before, now);
    if l.len() <= SESSION_CAP {
        after == l
    } else {
        exists|t: Seq<SessionRecord>| stably_sorted(l, t) && after == t.take(SESSION_CAP as int)
    }
}

/// Drops the sessions that have expired at `now`.
fn drop_expired(sessions: &mut Vec<SessionRecord>, now: u64)
    ensures
        final(sessions)@ == live_sessions(old(sessions)@, now),
{
    let mut input: Vec<SessionRecord> = Vec::new();
    std::mem::swap(sessions, &mut input);
    let ghost orig = input@;
    let ghost keep = |s: SessionRecord| live_at(s, now);
    let ghost mut k: int = 0;
    assert(orig.take(0) =~= Seq::<SessionRecord>::empty());
    while input.len() > 0
        invariant
            0 <= k <= orig.len(),
            input@ == orig.skip(k),
            sessions@ == retain_spec(orig.take(k), keep),
            keep == (|s: SessionRecord| live_at(s, now)),
        decreases input.len(),
    {
        let x = input.remove(0);
        proof {
            assert(x == orig[k]);
            assert(orig.take(k + 1) =~= orig.take(k).push(x));
            lemma_retain_push(orig.take(k), x, keep);
            k = k + 1;
            assert(input@ =~= orig.skip(k));
        }
        if x.expires_at_unix > now {
            sessions.push(x);
        }
    }
    assert(orig.take(k) =~= orig);
}

/// Orders sessions by creation time, oldest first; sessions created at the
/// same second keep their order, and none is lost.
fn sort_by_created(sessions: &mut Vec<SessionRecord>)
    ensures
        stably_sorted(old(sessions)@, final(sessions)@),
{
    let mut input: Vec<SessionRecord> = Vec::new();
    std::mem::swap(sessions, &mut input);
    let ghost orig = input@;
    let ghost mut k: int = 0;
    let ghost mut perm: Seq<int> = Seq::empty();
    while input.len() > 0
        invariant
            0 <= k <= orig.len(),
            input@ == orig.skip(k),
            created_sorted(sessions@),
            sessions@.len() == k,
            perm.len() == k,
            forall|m: int| 0 <= m < perm.len() ==> 0 <= #[trigger] perm[m] < k,
            forall|m: int, l: int| 0 <= m < l < perm.len() ==> #[trigger] perm[m] != #[trigger] perm[l],
            forall|m: int| 0 <= m < sessions@.len() ==> #[trigger] sessions@[m] == orig[perm[m]],
            forall|m: int, l: int| 0 <= m < l < sessions@.len()
                && #[trigger] sessions@[m].created_at_unix == #[trigger] sessions@[l].created_at_unix ==> perm[m] < perm[l],
        decreases input.len(),
    {
        let x = input.remove(0);
        proof {
            assert(x == orig[k]);
            assert(input@ =~= orig.skip(k + 1));
        }
        let mut p: usize = 0;
        while p < sessions.len() && sessions[p].created_at_unix <= x.created_at_unix
            invariant
                p <= sessions.len(),
                forall|m: int| 0 <= m < p ==> #[trigger] sessions@[m].created_at_unix <= x.created_at_unix,
            decreases sessions.len() - p,
        {
            p += 1;
        }
        let ghost before = sessions@;
        let ghost old_perm = perm;
        sessions.insert(p, x);
        proof {
            perm = old_perm.insert(p as int, k);
            assert forall|m: int| 0 <= m < sessions@.len() implies #[trigger] sessions@[m] == orig[perm[m]] by {
                if m < p {
                    assert(sessions@[m] == before[m] && perm[m] == old_perm[m]);
                } else if m > p {
                    assert(sessions@[m] == before[m - 1] && perm[m] == old_perm[m - 1]);
                }
            }
            assert forall|m: int| 0 <= m < perm.len() implies 0 <= #[trigger] perm[m] < k + 1 by {
                if m < p {
                    assert(perm[m] == old_perm[m]);
                } else if m > p {
                    assert(perm[m] == old_perm[m - 1]);
                }
            }
            assert forall|m: int, l: int| 0 <= m < l < perm.len() implies #[trigger] perm[m] != #[trigger] perm[l] by {
                if m < p && l < p {
                    assert(perm[m] == old_perm[m] && perm[l] == old_perm[l]);
                } else if m < p && l == p {
                    assert(perm[m] == old_perm[m]);
                } else if m < p {
                    assert(perm[m] == old_perm[m] && perm[l] == old_perm[l - 1]);
                } else if m == p {
                    assert(perm[l] == old_perm[l - 1]);
                } else {
                    assert(perm[m] == old_perm[m - 1] && perm[l] == old_perm[l - 1]);
                }
            }
            assert forall|i: int, j: int| 0 <= i < j < sessions@.len()
                implies #[trigger] sessions@[i].created_at_unix <= #[trigger] sessions@[j].created_at_unix by {
                if j < p {
                    assert(sessions@[i] == before[i] && sessions@[j] == before[j]);
                } else if j == p {
                    assert(sessions@[i] == before[i]);
                } else if i < p {
                    assert(sessions@[i] == before[i] && sessions@[j] == before[j - 1]);
                } else if i == p {
                    assert(sessions@[j] == before[j - 1]);
                    assert(before[p as int].created_at_unix > x.created_at_unix);
                    if j - 1 > p {
                        assert(before[p as int].created_at_unix <= before[j - 1].created_at_unix);
                    }
                } else {
                    assert(sessions@[i] == before[i - 1] && sessions@[j] == before[j - 1]);
                }
            }
            assert forall|i: int, j: int| 0 <= i < j < sessions@.len()
                && #[trigger] sessions@[i].created_at_unix == #[trigger] sessions@[j].created_at_unix
                implies perm[i] < perm[j] by {
                if j < p {
                    assert(sessions@[i] == before[i] && sessions@[j] == before[j]);
                    assert(perm[i] == old_perm[i] && perm[j] == old_perm[j]);
                } else if j == p {
                    assert(perm[i] == old_perm[i]);
                } else if i < p {
                    assert(sessions@[i] == before[i] && sessions@[j] == before[j - 1]);
                    assert(perm[i] == old_perm[i] && perm[j] == old_perm[j - 1]);
                } else if i == p {
                    assert(sessions@[j] == before[j - 1]);
                    assert(before[p as int].created_at_unix > x.created_at_unix);
                    if j - 1 > p {
                        assert(before[p as int].created_at_unix <= before[j - 1].created_at_unix);
                    }
                } else {
                    assert(sessions@[i] == before[i - 1] && sessions@[j] == before[j - 1]);
                    assert(perm[i] == old_perm[i - 1] && perm[j] == old_perm[j - 1]);
                }
            }
            k = k + 1;
        }
    }
    proof {
        assert(stable_perm(orig, sessions@, perm));
    }
}

/// Drops expired sessions and caps their number (see `pruned`).
pub fn prune_sessions(sessions: &mut Vec<SessionRecord>, now: u64)
    ensures
        pruned(old(sessions)@, final(sessions)@, now),
{
    drop_expired(sessions, now);
    if sessions.len() > SESSION_CAP {
        let ghost l = sessions@;
        sort_by_created(sessions);
        let ghost t = sessions@;
        sessions.truncate(SESSION_CAP);
        assert(sessions@ =~= t.take(SESSION_CAP as int));
    }
}


#[verifier::external_type_specification]
#[verifier::external_body]
pub struct ExThreadRng(rand::rngs::ThreadRng);

/// The generator of the current thread.
/// Trusted: calls `rand::rng()`; nothing is stated of the generator.
#[verifier::external_body]
fn thread_rng() -> rand::rngs::ThreadRng {
    rand::rng()
}

/// An ASCII letter or digit.
pub open spec fn alnum_char(c: char) -> bool {
    ('A' <= c && c <= 'Z') || ('a' <= c && c <= 'z') || ('0' <= c && c <= '9')
}

/// One random byte of `rand::distr::Alphanumeric`.
/// Trusted: calls `RngExt::sample` with `Alphanumeric`, whose source draws
/// the byte from the 62 ASCII letters and digits; which one is chance.
#[verifier::external_body]
fn sample_alphanumeric(rng: &mut rand::rngs::ThreadRng) -> (c: char)
    ensures
        alnum_char(c),
{
    char::from(rand::RngExt::sample(rng, rand::distr::Alphanumeric))
}

/// An identifier `<prefix>_<tail>` with a tail of `len` random ASCII
/// letters and digits.
pub open spec fn is_rand_id(id: Seq<char>, prefix: Seq<char>, len: nat) -> bool {
    &&& id.len() == prefix.len() + 1 + len
    &&& id.take(prefix.len() + 1int) == prefix + "_"@
    &&& forall|i: int| prefix.len() + 1 <= i < id.len() ==> alnum_char(#[trigger] id[i])
}

/// A random identifier (see `is_rand_id`).
pub fn rand_id(prefix: &str, len: usize) -> (r: String)
    ensures
        is_rand_id(r@, prefix@, len as nat),
{
    let mut rng = thread_rng();
    let mut s = concat(prefix, "_");
    proof {
        reveal_strlit("_");
    }
    let ghost head = s@;
    let mut i: usize = 0;
    while i < len
        invariant
            i <= len,
            head == prefix@ + "_"@,
            s@.len() == head.len() + i,
            s@.take(head.len() as int) == head,
            forall|m: int| head.len() <= m < s@.len() ==> alnum_char(#[trigger] s@[m]),
        decreases len - i,
    {
        let c = sample_alphanumeric(&mut rng);
        let ghost before = s@;
        push_char(&mut s, c);
        assert(s@.take(head.len() as int) =~= before.take(head.len() as int));
        i += 1;
    }
    assert(s@.take(prefix@.len() + 1int) =~= s@.take(head.len() as int));
    s
}

/// Lifetime of an account session: seven days.
pub const USER_SESSION_SECS: u64 = 604800;

/// Lifetime of a guest session: one day.
pub const GUEST_SESSION_SECS: u64 = 86400;

/// `now + ttl`, saturating at `u64::MAX`.
pub open spec fn expiry(now: u64, ttl: u64) -> u64 {
    if now + ttl > u64::MAX { u64::MAX } else { (now + ttl) as u64 }
}

/// A copy of a session record.
fn copy_session(s: &SessionRecord) -> (r: SessionRecord)
    ensures
        r == *s,
{
    SessionRecord {
        session_id: s.session_id.clone(),
        username: copy_opt(&s.username),
        role: s.role,
        created_at_unix: s.created_at_unix,
        expires_at_unix: s.expires_at_unix,
    }
}

/// Adds a session and prunes the list (see `pruned`).
pub fn record_session(sessions: &mut Vec<SessionRecord>, s: SessionRecord, now: u64)
    ensures
        pruned(old(sessions)@.push(s), final(sessions)@, now),
{
    sessions.push(s);
    prune_sessions(sessions, now);
}

/// Opens a session for an account: a random `sid_` identifier, the user's
/// name and role, valid for seven days from `now`; it is added to the list,
/// which is then pruned.
pub fn create_session_for_user(sessions: &mut Vec<SessionRecord>, user: &UserRecord, now: u64) -> (r: SessionRecord)
    ensures
        is_rand_id(r.session_id@, "sid"@, 32),
        r.username == Some(user.username),
        r.role == user.role,
        r.created_at_unix == now,
        r.expires_at_unix == expiry(now, USER_SESSION_SECS),
        pruned(old(sessions)@.push(r), final(sessions)@, now),
{
    let rec = SessionRecord {
        session_id: rand_id("sid", 32),
        username: Some(user.username.clone()),
        role: user.role,
        created_at_unix: now,
        expires_at_unix: now.saturating_add(USER_SESSION_SECS),
    };
    let out = copy_session(&rec);
    record_session(sessions, rec, now);
    out
}

/// Opens a guest session: a random `sidg_` identifier, no user name, the
/// guest role, valid for one day from `now`; it is added to the list, which
/// is then pruned.
pub fn create_guest_session(sessions: &mut Vec<SessionRecord>, now: u64) -> (r: SessionRecord)
    ensures
        is_rand_id(r.session_id@, "sidg"@, 32),
        r.username is None,
        r.role == AccountRole::Guest,
        r.created_at_unix == now,
        r.expires_at_unix == expiry(now, GUEST_SESSION_SECS),
        pruned(old(sessions)@.push(r), final(sessions)@, now),
{
    let rec = SessionRecord {
        session_id: rand_id("sidg", 32),
        username: None,
        role: AccountRole::Guest,
        created_at_unix: now,
        expires_at_unix: now.saturating_add(GUEST_SESSION_SECS),
    };
    let out = copy_session(&rec);
    record_session(sessions, rec, now);
    out
}

/// `i` is the first session with the identifier `sid` that is still valid at `now`.
pub open spec fn first_valid(sessions: Seq<SessionRecord>, sid: Seq<char>, now: u64, i: int) -> bool {
    &&& 0 <= i < sessions.len()
    &&& sessions[i].session_id@ == sid && live_at(sessions[i], now)
    &&& forall|j: int| 0 <= j < i ==> !(#[trigger] sessions[j].session_id@ == sid && live_at(sessions[j], now))
}

/// Finds the session a cookie names: the identifier is trimmed, a blank one
/// finds nothing, and an expired session is not found.
pub fn resolve_session(sessions: &Vec<SessionRecord>, session_id: &str, now: u64) -> (r: Option<usize>)
    ensures
        trim_seq(session_id@).len() == 0 ==> r is None,
        trim_seq(session_id@).len() > 0 ==> match r {
            Some(i) => first_valid(sessions@, trim_seq(session_id@), now, i as int),
            None => forall|j: int| 0 <= j < sessions@.len()
                ==> !(#[trigger] sessions@[j].session_id@ == trim_seq(session_id@) && live_at(sessions@[j], now)),
        },
{
    let sid = trim_chars(&chars_of(session_id));
    if sid.len() == 0 {
        return None;
    }
    let mut i: usize = 0;
    while i < sessions.len()
        invariant
            i <= sessions.len(),
            sid@ == trim_seq(session_id@),
            sid@.len() > 0,
            forall|j: int| 0 <= j < i ==> !(#[trigger] sessions@[j].session_id@ == sid@ && live_at(sessions@[j], now)),
        decreases sessions.len() - i,
    {
        if sessions[i].expires_at_unix > now && chars_eq(&chars_of(sessions[i].session_id.as_str()), &sid) {
            return Some(i);
        }
        i += 1;
    }
    None
}

/// The sessions whose identifier is not `sid`.
pub open spec fn sessions_without_id(sessions: Seq<SessionRecord>, sid: Seq<char>) -> Seq<SessionRecord> {
    retain_spec(sessions, |s: SessionRecord| s.session_id@ != sid)
}

/// Logs a session out: drops every session with the (trimmed) identifier;
/// a blank identifier changes nothing.
pub fn delete_session(sessions: &mut Vec<SessionRecord>, session_id: &str)
    ensures
        trim_seq(session_id@).len() == 0 ==> final(sessions)@ == old(sessions)@,
        trim_seq(session_id@).len() > 0 ==> final(sessions)@ == sessions_without_id(old(sessions)@, trim_seq(session_id@)),
{
    let sid = trim_chars(&chars_of(session_id));
    if sid.len() == 0 {
        return;
    }
    let mut input: Vec<SessionRecord> = Vec::new();
    std::mem::swap(sessions, &mut input);
    let ghost orig = input@;
    let ghost keep = |s: SessionRecord| s.session_id@ != sid@;
    let ghost mut k: int = 0;
    assert(orig.take(0) =~= Seq::<SessionRecord>::empty());
    while input.len() > 0
        invariant
            0 <= k <= orig.len(),
            input@ == orig.skip(k),
            sessions@ == retain_spec(orig.take(k), keep),
            keep == (|s: SessionRecord| s.session_id@ != sid@),
        decreases input.len(),
    {
        let x = input.remove(0);
        proof {
            assert(x == orig[k]);
            assert(orig.take(k + 1) =~= orig.take(k).push(x));
            lemma_retain_push(orig.take(k), x, keep);
            k = k + 1;
            assert(input@ =~= orig.skip(k));
        }
        if !chars_eq(&chars_of(x.session_id.as_str()), &sid) {
            sessions.push(x);
        }
    }
    assert(orig.take(k) =~= orig);
}

/// An HTTP refusal: the status code and the body.
#[derive(Debug)]
pub struct Refusal {
    pub status: u16,
    pub message: String,
}

/// A refusal with the given status and body.
fn refuse(status: u16, message: &str) -> (r: Refusal)
    ensures
        r.status == status,
        r.message@ == message@,
{
    Refusal { status: status, message: String::from_str(message) }
}

/// `i` is the account a login identifier names: when the trimmed
/// identifier holds `@`, the first account with that email (compared
/// lower-cased), else the first account with that user name.
pub open spec fn ident_found(users: Seq<UserRecord>, identifier: Seq<char>, i: int) -> bool {
    let id = trim_seq(identifier);
    if contains(id, "@"@) {
        &&& email_key(id).len() > 0
        &&& 0 <= i < users.len()
        &&& has_email(users[i], email_key(id))
        &&& forall|j: int| 0 <= j < i ==> !has_email(#[trigger] users[j], email_key(id))
    } else {
        first_named(users, id, i)
    }
}

proof fn lemma_ident_found_unique(users: Seq<UserRecord>, identifier: Seq<char>, i: int, k: int)
    requires
        ident_found(users, identifier, i),
        ident_found(users, identifier, k),
    ensures
        i == k,
{
    let id = trim_seq(identifier);
    if contains(id, "@"@) {
        if i < k {
            assert(!has_email(users[i], email_key(id)));
        } else if k < i {
            assert(!has_email(users[k], email_key(id)));
        }
    } else {
        lemma_first_named_unique(users, id, i, k);
    }
}

/// The account a login attempt is for, or why it is refused: logins
/// disabled (403), a blank identifier (400), no such account (401), a
/// non-admin account while such logins are disabled (403), a banned
/// account (403).
pub open spec fn login_target_spec(login_enabled: bool, non_admin_login_enabled: bool,
    users: Seq<UserRecord>, identifier: Seq<char>) -> Result<int, (u16, Seq<char>)> {
    if !login_enabled {
        Err((403u16, "login disabled"@))
    } else if trim_seq(identifier).len() == 0 {
        Err((400u16, "identifier is empty"@))
    } else if !(exists|i: int| ident_found(users, identifier, i)) {
        Err((401u16, "invalid credentials"@))
    } else {
        let i = choose|i: int| ident_found(users, identifier, i);
        if users[i].role != AccountRole::Admin && !non_admin_login_enabled {
            Err((403u16, "non-admin login disabled"@))
        } else if users[i].banned {
            Err((403u16, "account banned"@))
        } else {
            Ok(i)
        }
    }
}

/// Finds the account a login attempt is for (see `login_target_spec`).
pub fn login_target(login_enabled: bool, non_admin_login_enabled: bool, users: &Vec<UserRecord>, identifier: &str)
    -> (r: Result<usize, Refusal>)
    ensures
        match r {
            Ok(i) => login_target_spec(login_enabled, non_admin_login_enabled, users@, identifier@) == Ok::<int, (u16, Seq<char>)>(i as int),
            Err(f) => login_target_spec(login_enabled, non_admin_login_enabled, users@, identifier@) == Err::<int, (u16, Seq<char>)>((f.status, f.message@)),
        },
{
    proof {
        reveal_strlit("@");
    }
    if !login_enabled {
        return Err(refuse(403, "login disabled"));
    }
    let id = trim_chars(&chars_of(identifier));
    if id.len() == 0 {
        return Err(refuse(400, "identifier is empty"));
    }
    let found = if contains_lit(&id, "@") {
        let id_str = string_of(id.as_slice());
        let f = find_user_by_email(users, id_str.as_str());
        proof {
            if f is None {
                assert forall|i: int| !ident_found(users@, identifier@, i) by {
                    if ident_found(users@, identifier@, i) {
                        assert(!has_email(users@[i], email_key(id@)));
                    }
                }
            }
        }
        f
    } else {
        position_of_name(users, &id)
    };
    match found {
        None => {
            return Err(refuse(401, "invalid credentials"));
        },
        Some(i) => {
            proof {
                assert(ident_found(users@, identifier@, i as int));
                let k = choose|k: int| ident_found(users@, identifier@, k);
                lemma_ident_found_unique(users@, identifier@, i as int, k);
            }
            let user = &users[i];
            if !matches!(user.role, AccountRole::Admin) && !non_admin_login_enabled {
                return Err(refuse(403, "non-admin login disabled"));
            }
            if user.banned {
                return Err(refuse(403, "account banned"));
            }
            Ok(i)
        },
    }
}

/// The password a login compares: the stored one, or empty when there is none.
pub open spec fn stored_password(u: UserRecord) -> Seq<char> {
    match u.password {
        Some(p) => p@,
        None => ""@,
    }
}

/// What a login attempt leads to.
#[derive(Debug)]
pub enum LoginOutcome {
    /// The attempt is refused.
    Refused(Refusal),
    /// The password is right: open a session for the account at this index.
    OpenSession(usize),
    /// An emailed code is needed: issue one for the account at this index,
    /// and audit the event named.
    SendCode { user: usize, audit_event: String },
}

/// The outcome of a login attempt: the refusals of `login_target_spec`;
/// then by the account's login option, a password check (a wrong password
/// is 401) and either a session or an emailed code.
pub open spec fn login_outcome_ok(r: LoginOutcome, login_enabled: bool, non_admin_login_enabled: bool,
    users: Seq<UserRecord>, identifier: Seq<char>, password: Seq<char>) -> bool {
    match login_target_spec(login_enabled, non_admin_login_enabled, users, identifier) {
        Err((status, message)) => r matches LoginOutcome::Refused(f) && f.status == status && f.message@ == message,
        Ok(i) => {
            let u = users[i];
            let pw_ok = stored_password(u) == password;
            match u.login_option {
                LoginOption::PasswordOnly => if pw_ok {
                    r == LoginOutcome::OpenSession(i as usize)
                } else {
                    r matches LoginOutcome::Refused(f) && f.status == 401 && f.message@ == "invalid credentials"@
                },
                LoginOption::EmailOnly =>
                    r matches LoginOutcome::SendCode { user, audit_event } && user == i
                        && audit_event@ == "login_email_code_issued"@,
                LoginOption::PasswordEmail2fa => if pw_ok {
                    r matches LoginOutcome::SendCode { user, audit_event } && user == i
                        && audit_event@ == "login_password_ok_email_code_issued"@
                } else {
                    r matches LoginOutcome::Refused(f) && f.status == 401 && f.message@ == "invalid credentials"@
                },
            }
        },
    }
}

/// Decides a login attempt (see `login_outcome_ok`); a missing password
/// counts as an empty one.
pub fn login_outcome(login_enabled: bool, non_admin_login_enabled: bool, users: &Vec<UserRecord>,
    identifier: &str, password: Option<&str>) -> (r: LoginOutcome)
    ensures
        login_outcome_ok(r, login_enabled, non_admin_login_enabled, users@, identifier@,
            match password { Some(p) => p@, None => ""@ }),
{
    let i = match login_target(login_enabled, non_admin_login_enabled, users, identifier) {
        Ok(i) => i,
        Err(f) => {
            return LoginOutcome::Refused(f);
        },
    };
    let given = match password {
        Some(p) => p,
        None => "",
    };
    let stored = match &users[i].password {
        Some(p) => p.as_str(),
        None => "",
    };
    let pw_ok = str_eq(stored, given);
    match users[i].login_option {
        LoginOption::PasswordOnly => {
            if pw_ok {
                LoginOutcome::OpenSession(i)
            } else {
                LoginOutcome::Refused(refuse(401, "invalid credentials"))
            }
        },
        LoginOption::EmailOnly => LoginOutcome::SendCode {
            user: i,
            audit_event: String::from_str("login_email_code_issued"),
        },
        LoginOption::PasswordEmail2fa => {
            if pw_ok {
                LoginOutcome::SendCode { user: i, audit_event: String::from_str("login_password_ok_email_code_issued") }
            } else {
                LoginOutcome::Refused(refuse(401, "invalid credentials"))
            }
        },
    }
}

/// Law: after pruning, every session left is valid at `now`, and there are
/// at most `SESSION_CAP` of them.
pub proof fn pruned_sessions_are_live(before: Seq<SessionRecord>, after: Seq<SessionRecord>, now: u64)
    requires
        pruned(before, after, now),
    ensures
        after.len() <= SESSION_CAP,
        forall|i: int| 0 <= i < after.len() ==> live_at(#[trigger] after[i], now),
{
    let keep = |s: SessionRecord| live_at(s, now);
    let l = live_sessions(before, now);
    lemma_retain_all(before, keep);
    if l.len() > SESSION_CAP {
        let t = choose|t: Seq<SessionRecord>| stably_sorted(l, t) && after == t.take(SESSION_CAP as int);
        let perm = choose|perm: Seq<int>| stable_perm(l, t, perm);
        assert forall|i: int| 0 <= i < after.len() implies live_at(#[trigger] after[i], now) by {
            assert(after[i] == t[i]);
            assert(t[i] == l[perm[i]]);
            assert(keep(l[perm[i]]));
        }
    } else {
        assert forall|i: int| 0 <= i < after.len() implies live_at(#[trigger] after[i], now) by {
            assert(keep(l[i]));
        }
    }
}

/// Law: banning a user leaves no session of that user.
pub proof fn ban_leaves_no_session(sessions: Seq<SessionRecord>, name: Seq<char>)
    ensures
        forall|i: int| 0 <= i < sessions_not_of(sessions, name).len()
            ==> !session_of(#[trigger] sessions_not_of(sessions, name)[i], name),
{
    let keep = |s: SessionRecord| !session_of(s, name);
    lemma_retain_all(sessions, keep);
    assert forall|i: int| 0 <= i < sessions_not_of(sessions, name).len()
        implies !session_of(#[trigger] sessions_not_of(sessions, name)[i], name) by {
        assert(keep(retain_spec(sessions, keep)[i]));
    }
}

/// Law: a banned account is refused at login, whatever the password.
pub proof fn banned_account_cannot_log_in(login_enabled: bool, non_admin_login_enabled: bool,
    users: Seq<UserRecord>, identifier: Seq<char>, i: int)
    requires
        ident_found(users, identifier, i),
        users[i].banned,
    ensures
        login_target_spec(login_enabled, non_admin_login_enabled, users, identifier) is Err,
{
    if login_enabled && trim_seq(identifier).len() > 0 {
        let k = choose|k: int| ident_found(users, identifier, k);
        lemma_ident_found_unique(users, identifier, i, k);
    }
}

} // verus!
