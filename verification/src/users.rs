//! User profiles and chat messages, and the rules that govern the list of
//! users: who may be added, who is kept, and what the outside sees of them.
//!
//! Reading and writing the list is the caller's business. The functions here
//! take the list as it was read and say what it becomes.

use crate::json::flag_result_view;
use crate::text::{
    comes_before, lemma_not_after_then_before, lemma_text_before_is_strict, text_before, to_chars,
    trim, trimmed,
};
use vstd::prelude::*;
use vstd::utf8::encode_utf8;

verus! {

/// A stored user profile.
#[derive(Debug, Clone, PartialEq, Eq)]
pub struct User {
    pub id: String,
    pub name: String,
    /// Empty in profiles written before passwords existed.
    pub password_hash: String,
    /// Language code, such as "en", "es" or "fr".
    pub language: String,
    pub created_at: String,
}

/// What of a user is shown outside: no password hash.
#[derive(Debug, Clone, PartialEq, Eq)]
pub struct UserPublic {
    pub id: String,
    pub name: String,
    pub created_at: String,
}

/// One message of a chat.
#[derive(Debug, Clone, PartialEq, Eq)]
pub struct ChatMessage {
    /// "user" or "assistant".
    pub role: String,
    pub content: String,
    pub timestamp: String,
}

/// One chat of the former many-chats layout.
#[derive(Debug, Clone, PartialEq, Eq)]
pub struct ChatSummary {
    pub id: String,
    pub updated_at: String,
}

pub struct UserView {
    pub id: Seq<char>,
    pub name: Seq<char>,
    pub password_hash: Seq<char>,
    pub language: Seq<char>,
    pub created_at: Seq<char>,
}

pub struct UserPublicView {
    pub id: Seq<char>,
    pub name: Seq<char>,
    pub created_at: Seq<char>,
}

impl View for User {
    type V = UserView;

    open spec fn view(&self) -> UserView {
        UserView {
            id: self.id@,
            name: self.name@,
            password_hash: self.password_hash@,
            language: self.language@,
            created_at: self.created_at@,
        }
    }
}

impl View for UserPublic {
    type V = UserPublicView;

    open spec fn view(&self) -> UserPublicView {
        UserPublicView { id: self.id@, name: self.name@, created_at: self.created_at@ }
    }
}

pub open spec fn users_view(users: Seq<User>) -> Seq<UserView> {
    users.map_values(|u: User| u@)
}

pub open spec fn publics_view(users: Seq<UserPublic>) -> Seq<UserPublicView> {
    users.map_values(|u: UserPublic| u@)
}

/// What the outside sees of `user`.
pub open spec fn public_part(user: UserView) -> UserPublicView {
    UserPublicView { id: user.id, name: user.name, created_at: user.created_at }
}

/// The lower-case form of an ASCII capital; every other character itself.
pub open spec fn ascii_lower(c: char) -> char {
    if 'A' <= c <= 'Z' {
        ((c as u32 + 32) as u8) as char
    } else {
        c
    }
}

/// Whether two texts are equal up to the case of their ASCII letters.
pub open spec fn same_ignoring_ascii_case(a: Seq<char>, b: Seq<char>) -> bool {
    &&& a.len() == b.len()
    &&& forall|i: int| 0 <= i < a.len() ==> ascii_lower(#[trigger] a[i]) == ascii_lower(b[i])
}

/// Whether a user of `users` has the name `name`, up to ASCII case.
pub open spec fn name_taken(users: Seq<UserView>, name: Seq<char>) -> bool {
    exists|i: int| 0 <= i < users.len() && same_ignoring_ascii_case((#[trigger] users[i]).name, name)
}

/// Index of the first user of `users` with the identifier `id`.
pub open spec fn position_of(users: Seq<UserView>, id: Seq<char>) -> Option<int>
    decreases users.len(),
{
    if users.len() == 0 {
        None
    } else if users[0].id == id {
        Some(0)
    } else {
        match position_of(users.drop_first(), id) {
            Some(i) => Some(i + 1),
            None => None,
        }
    }
}

/// The profiles of `users` that have a password hash, in their order.
pub open spec fn with_password(users: Seq<UserView>) -> Seq<UserView>
    decreases users.len(),
{
    if users.len() == 0 {
        Seq::empty()
    } else if users.last().password_hash.len() > 0 {
        with_password(users.drop_last()).push(users.last())
    } else {
        with_password(users.drop_last())
    }
}

/// Why a user named `name` with the password `password` cannot be added to
/// `users`, if it cannot.
///
/// The name counts without the whitespace around it. It must not be empty,
/// not longer than 50 bytes and not taken; the password must have at least 4
/// bytes. The first rule broken, in this order, gives the message.
pub open spec fn credentials_defect(name: Seq<char>, password: Seq<char>) -> Option<Seq<char>> {
    let name = trimmed(name);
    if name.len() == 0 {
        Some("User name cannot be empty"@)
    } else if encode_utf8(name).len() > 50 {
        Some("User name is too long (max 50 characters)"@)
    } else if encode_utf8(password).len() < 4 {
        Some("Password must be at least 4 characters long"@)
    } else {
        None
    }
}

pub open spec fn new_user_defect(users: Seq<UserView>, name: Seq<char>, password: Seq<char>)
    -> Option<Seq<char>> {
    match credentials_defect(name, password) {
        Some(defect) => Some(defect),
        None => if name_taken(users, trimmed(name)) {
            Some("A user with this name already exists"@)
        } else {
            None
        },
    }
}

/// What `bcrypt::verify` says of a password and a hash: whether they match,
/// or its error message when the hash is malformed.
pub uninterp spec fn bcrypt_verdict(password: Seq<char>, hash: Seq<char>) -> Result<
    bool,
    Seq<char>,
>;

/// Whether `hash` is a hash of `password`: `bcrypt::verify` says that they
/// match.
pub open spec fn verifies(password: Seq<char>, hash: Seq<char>) -> bool {
    bcrypt_verdict(password, hash) == Ok::<bool, Seq<char>>(true)
}

/// Calls `bcrypt::hash` with `bcrypt::DEFAULT_COST`. The salt is random, so
/// the hash is not foretold. Claimed of it: it is a hash of the password,
/// one that `bcrypt::verify` accepts for it, because verifying recomputes the
/// hash with the cost and the salt that the hash itself carries. An error is
/// passed on as its message.
#[verifier::external_body]
fn hash_password(password: &str) -> (hash: Result<String, String>)
    ensures
        hash matches Ok(h) ==> verifies(password@, h@),
{
    bcrypt::hash(password, bcrypt::DEFAULT_COST).map_err(|e| e.to_string())
}

/// Calls `bcrypt::verify`. Claimed of it: the outcome depends on the password
/// and the hash alone.
#[verifier::external_body]
fn check_password(password: &str, hash: &str) -> (verdict: Result<bool, String>)
    ensures
        flag_result_view(verdict) == bcrypt_verdict(password@, hash@),
{
    bcrypt::verify(password, hash).map_err(|e| e.to_string())
}

/// Calls `uuid::Uuid::new_v4` and writes the identifier as text. It is
/// random, so nothing is claimed of it. The call panics when the system
/// cannot supply random bytes.
#[verifier::external_body]
fn fresh_identifier() -> (id: String) {
    uuid::Uuid::new_v4().to_string()
}

/// Calls `chrono::Utc::now` and `to_rfc3339` on what it gives. It is the
/// time of the call, so nothing is claimed of it. The call panics when the
/// system clock stands before 1970.
#[verifier::external_body]
fn current_timestamp() -> (now: String) {
    chrono::Utc::now().to_rfc3339()
}

/// The language of a profile that names none.
pub fn default_language() -> (language: String)
    ensures
        language@ == "en"@,
{
    String::from_str("en")
}

pub fn to_ascii_lower(c: char) -> (lower: char)
    ensures
        lower == ascii_lower(c),
{
    if 'A' <= c && c <= 'Z' {
        ((c as u32 + 32) as u8) as char
    } else {
        c
    }
}

/// Whether two texts are equal up to the case of their ASCII letters.
pub fn equal_ignoring_ascii_case(a: &str, b: &str) -> (same: bool)
    ensures
        same == same_ignoring_ascii_case(a@, b@),
{
    let left = to_chars(a);
    let right = to_chars(b);
    if left.len() != right.len() {
        return false;
    }
    let mut i: usize = 0;
    while i < left.len()
        invariant
            i <= left.len() == right.len(),
            left@ == a@,
            right@ == b@,
            forall|j: int| 0 <= j < i ==> ascii_lower(#[trigger] left@[j]) == ascii_lower(right@[j]),
        decreases left.len() - i,
    {
        if to_ascii_lower(left[i]) != to_ascii_lower(right[i]) {
            assert(ascii_lower(a@[i as int]) != ascii_lower(b@[i as int]));
            return false;
        }
        i += 1;
    }
    true
}

/// Whether a user of `users` has the name `name`, up to ASCII case.
pub fn is_name_taken(users: &Vec<User>, name: &str) -> (taken: bool)
    ensures
        taken == name_taken(users_view(users@), name@),
{
    let mut i: usize = 0;
    while i < users.len()
        invariant
            i <= users.len(),
            forall|j: int|
                0 <= j < i ==> !same_ignoring_ascii_case(
                    (#[trigger] users_view(users@)[j]).name,
                    name@,
                ),
        decreases users.len() - i,
    {
        if equal_ignoring_ascii_case(users[i].name.as_str(), name) {
            assert(same_ignoring_ascii_case(users_view(users@)[i as int].name, name@));
            return true;
        }
        i += 1;
    }
    false
}

/// Index of the first user of `users` with the identifier `id`.
pub fn find_user(users: &Vec<User>, id: &str) -> (found: Option<usize>)
    ensures
        match found {
            Some(i) => i < users.len() && position_of(users_view(users@), id@) == Some(i as int)
                && users[i as int].id@ == id@,
            None => position_of(users_view(users@), id@) is None,
        },
{
    let wanted = id.to_owned();
    let ghost all = users_view(users@);
    let mut i: usize = 0;
    assert(all.skip(0) =~= all);
    while i < users.len()
        invariant
            i <= users.len(),
            wanted@ == id@,
            all == users_view(users@),
            position_of(all, id@) == match position_of(all.skip(i as int), id@) {
                Some(k) => Some(k + i),
                None => None,
            },
        decreases users.len() - i,
    {
        assert(all.skip(i as int)[0] == users[i as int]@);
        if users[i].id == wanted {
            return Some(i);
        }
        assert(all.skip(i as int).drop_first() =~= all.skip(i + 1));
        i += 1;
    }
    None
}

/// Checks the name and the password of a user to be, apart from the list of
/// users: the trimmed name, or the first rule they break.
pub fn validate_credentials<'a>(name: &'a str, password: &str) -> (checked: Result<&'a str, String>)
    ensures
        match checked {
            Ok(clean) => credentials_defect(name@, password@) is None && clean@ == trimmed(name@),
            Err(defect) => credentials_defect(name@, password@) == Some(defect@),
        },
{
    let clean = trim(name);
    if clean.is_empty() {
        return Err(String::from_str("User name cannot be empty"));
    }
    if clean.as_bytes().len() > 50 {
        return Err(String::from_str("User name is too long (max 50 characters)"));
    }
    if password.as_bytes().len() < 4 {
        return Err(String::from_str("Password must be at least 4 characters long"));
    }
    Ok(clean)
}

/// The profile of a new user.
pub open spec fn new_profile(
    id: Seq<char>,
    name: Seq<char>,
    password_hash: Seq<char>,
    created_at: Seq<char>,
) -> UserView {
    UserView { id, name: trimmed(name), password_hash, language: "en"@, created_at }
}

/// Adds a user whose identifier, password hash and time of creation are
/// given. Nothing is added when the name or the password breaks a rule or
/// when hashing failed.
pub fn create_user_with(
    users: &mut Vec<User>,
    name: &str,
    password: &str,
    id: String,
    password_hash: Result<String, String>,
    created_at: String,
) -> (created: Result<UserPublic, String>)
    ensures
        match new_user_defect(users_view(old(users)@), name@, password@) {
            Some(defect) => {
                &&& final(users)@ == old(users)@
                &&& created matches Err(e) && e@ == defect
            },
            None => match password_hash {
                Err(reason) => {
                    &&& final(users)@ == old(users)@
                    &&& created matches Err(e) && e@ == "Failed to hash password: "@ + reason@
                },
                Ok(hash) => {
                    let profile = new_profile(id@, name@, hash@, created_at@);
                    &&& users_view(final(users)@) == users_view(old(users)@).push(profile)
                    &&& created matches Ok(public) && public@ == public_part(profile)
                },
            },
        },
{
    let clean = match validate_credentials(name, password) {
        Ok(clean) => clean,
        Err(defect) => {
            return Err(defect);
        },
    };
    if is_name_taken(users, clean) {
        return Err(String::from_str("A user with this name already exists"));
    }
    let hash = match password_hash {
        Ok(hash) => hash,
        Err(reason) => {
            let mut message = String::from_str("Failed to hash password: ");
            message.append(reason.as_str());
            return Err(message);
        },
    };
    let public = UserPublic {
        id: id.clone(),
        name: String::from_str(clean),
        created_at: created_at.clone(),
    };
    let user = User {
        id,
        name: String::from_str(clean),
        password_hash: hash,
        language: default_language(),
        created_at,
    };
    let ghost before = users_view(users@);
    users.push(user);
    assert(users_view(users@) =~= before.push(user@));
    Ok(public)
}

/// Adds a user named `name` with the password `password`.
///
/// A name or password that breaks a rule is refused with the rule's message
/// and nothing is hashed. Otherwise the password is hashed, and a profile
/// with a fresh identifier, the trimmed name, the language "en", a hash that
/// verifies the password and the current time is appended, unless hashing
/// fails.
///
/// Identifier and time come from the system. On a machine without a source
/// of randomness, or with its clock before 1970, drawing them panics;
/// `create_user_with` takes both from the caller instead.
pub fn create_user(users: &mut Vec<User>, name: &str, password: &str) -> (created: Result<
    UserPublic,
    String,
>)
    ensures
        match new_user_defect(users_view(old(users)@), name@, password@) {
            Some(defect) => {
                &&& final(users)@ == old(users)@
                &&& created matches Err(e) && e@ == defect
            },
            None => match created {
                Err(e) => {
                    &&& final(users)@ == old(users)@
                    &&& exists|reason: Seq<char>| e@ == "Failed to hash password: "@ + reason
                },
                Ok(public) => {
                    let added = users_view(final(users)@).last();
                    &&& final(users)@.len() == old(users)@.len() + 1
                    &&& users_view(final(users)@).drop_last() == users_view(old(users)@)
                    &&& added.name == trimmed(name@)
                    &&& added.language == "en"@
                    &&& verifies(password@, added.password_hash)
                    &&& public@ == public_part(added)
                },
            },
        },
{
    let clean = match validate_credentials(name, password) {
        Ok(clean) => clean,
        Err(defect) => {
            return Err(defect);
        },
    };
    if is_name_taken(users, clean) {
        return Err(String::from_str("A user with this name already exists"));
    }
    let password_hash = hash_password(password);
    let id = fresh_identifier();
    let created_at = current_timestamp();
    let ghost before = users_view(users@);
    let ghost hashing = password_hash;
    let created = create_user_with(users, name, password, id, password_hash, created_at);
    proof {
        if created is Ok {
            assert(users_view(users@).drop_last() =~= before);
        } else {
            assert(created->Err_0@ == "Failed to hash password: "@ + hashing->Err_0@);
        }
    }
    created
}

/// What the outside sees of the users.
pub fn get_users(users: &Vec<User>) -> (publics: Vec<UserPublic>)
    ensures
        publics_view(publics@) == users_view(users@).map_values(|u: UserView| public_part(u)),
{
    let mut publics: Vec<UserPublic> = Vec::new();
    let mut i: usize = 0;
    while i < users.len()
        invariant
            i <= users.len(),
            publics_view(publics@) == users_view(users@).take(i as int).map_values(
                |u: UserView| public_part(u),
            ),
        decreases users.len() - i,
    {
        let ghost before = publics_view(publics@);
        let public = UserPublic {
            id: users[i].id.clone(),
            name: users[i].name.clone(),
            created_at: users[i].created_at.clone(),
        };
        publics.push(public);
        assert(publics_view(publics@) =~= before.push(public@));
        assert(users_view(users@).take(i + 1) =~= users_view(users@).take(i as int).push(
            users[i as int]@,
        ));
        assert(publics_view(publics@) =~= users_view(users@).take(i + 1).map_values(
            |u: UserView| public_part(u),
        ));
        i += 1;
    }
    assert(users_view(users@).take(users.len() as int) =~= users_view(users@));
    publics
}

/// What to do with the stored list after it was read.
#[derive(Debug, Clone, Copy, PartialEq, Eq)]
pub enum Cleanup {
    /// Nothing: every profile was kept.
    Nothing,
    /// Write the kept profiles back.
    Rewrite,
    /// No profile was kept: remove the file.
    Remove,
}

/// What to do with the stored list when `stored` profiles were read and
/// `kept` of them kept.
pub open spec fn cleanup_for(stored: nat, kept: nat) -> Cleanup {
    if kept >= stored {
        Cleanup::Nothing
    } else if kept > 0 {
        Cleanup::Rewrite
    } else {
        Cleanup::Remove
    }
}

/// Keeps the profiles that have a password hash. Profiles without one come
/// from a format that had no passwords; their users must sign up again.
pub fn load_users(stored: Vec<User>) -> (loaded: (Vec<User>, Cleanup))
    ensures
        users_view(loaded.0@) == with_password(users_view(stored@)),
        loaded.1 == cleanup_for(stored@.len(), loaded.0@.len()),
{
    let ghost all = users_view(stored@);
    let count = stored.len();
    let mut kept: Vec<User> = Vec::new();
    let mut rest = stored;
    let mut i: usize = 0;
    assert(all.take(0) =~= Seq::<UserView>::empty());
    while i < count
        invariant
            i <= count == rest.len(),
            all == users_view(rest@),
            kept.len() <= i,
            users_view(kept@) == with_password(all.take(i as int)),
        decreases count - i,
    {
        let ghost before = users_view(kept@);
        assert(all.take(i + 1).drop_last() =~= all.take(i as int));
        assert(all.take(i + 1).last() == rest[i as int]@);
        if !rest[i].password_hash.as_str().is_empty() {
            let user = User {
                id: rest[i].id.clone(),
                name: rest[i].name.clone(),
                password_hash: rest[i].password_hash.clone(),
                language: rest[i].language.clone(),
                created_at: rest[i].created_at.clone(),
            };
            kept.push(user);
            assert(users_view(kept@) =~= before.push(user@));
        }
        i += 1;
    }
    assert(all.take(count as int) =~= all);
    let cleanup = if kept.len() >= count {
        Cleanup::Nothing
    } else if kept.len() > 0 {
        Cleanup::Rewrite
    } else {
        Cleanup::Remove
    };
    (kept, cleanup)
}

/// Whether `password` is the password of the user `user_id`.
pub open spec fn password_verdict(users: Seq<UserView>, user_id: Seq<char>, password: Seq<char>)
    -> Result<bool, Seq<char>> {
    match position_of(users, user_id) {
        None => Err("User not found"@),
        Some(i) => match bcrypt_verdict(password, users[i].password_hash) {
            Ok(matches) => Ok(matches),
            Err(reason) => Err("Failed to verify password: "@ + reason),
        },
    }
}

/// What the verdict of the hash function on a user's hash comes to.
pub fn read_verdict(verdict: Result<bool, String>) -> (outcome: Result<bool, String>)
    ensures
        flag_result_view(outcome) == (match flag_result_view(verdict) {
            Ok(matches) => Ok::<bool, Seq<char>>(matches),
            Err(reason) => Err("Failed to verify password: "@ + reason),
        }),
{
    match verdict {
        Ok(matches) => Ok(matches),
        Err(reason) => {
            let mut message = String::from_str("Failed to verify password: ");
            message.append(reason.as_str());
            Err(message)
        },
    }
}

/// Whether `password` is the password of the user `user_id`.
pub fn verify_password(users: &Vec<User>, user_id: &str, password: &str) -> (outcome: Result<
    bool,
    String,
>)
    ensures
        flag_result_view(outcome) == password_verdict(users_view(users@), user_id@, password@),
{
    match find_user(users, user_id) {
        None => Err(String::from_str("User not found")),
        Some(i) => {
            assert(users_view(users@)[i as int] == users[i as int]@);
            read_verdict(check_password(password, users[i].password_hash.as_str()))
        },
    }
}

/// Checks that the user `user_id` exists.
pub fn require_user(users: &Vec<User>, user_id: &str) -> (outcome: Result<(), String>)
    ensures
        match outcome {
            Ok(()) => position_of(users_view(users@), user_id@) is Some,
            Err(reason) => position_of(users_view(users@), user_id@) is None && reason@
                == "User not found"@,
        },
{
    match find_user(users, user_id) {
        Some(_) => Ok(()),
        None => Err(String::from_str("User not found")),
    }
}

/// What becomes of the recorded current user.
#[derive(Debug, Clone, PartialEq, Eq)]
pub enum CurrentUser {
    /// Nobody is logged in and nothing is recorded.
    Nobody,
    /// This user is logged in.
    LoggedIn(String),
    /// A user is recorded who no longer exists: clear the record.
    Stale,
}

/// The state of the record of the current user, which holds `recorded`.
pub fn get_current_user(users: &Vec<User>, recorded: Option<String>) -> (current: CurrentUser)
    ensures
        match recorded {
            None => current == CurrentUser::Nobody,
            Some(id) => if position_of(users_view(users@), id@) is Some {
                current == CurrentUser::LoggedIn(id)
            } else {
                current == CurrentUser::Stale
            },
        },
{
    match recorded {
        None => CurrentUser::Nobody,
        Some(id) => match find_user(users, id.as_str()) {
            Some(_) => CurrentUser::LoggedIn(id),
            None => CurrentUser::Stale,
        },
    }
}

/// What to record when `user_id` logs in (or, with none, when whoever is
/// logged in logs out): the identifier to write, or none to clear the record.
/// Only an existing user can log in.
pub fn set_current_user(users: &Vec<User>, user_id: Option<String>) -> (record: Result<
    Option<String>,
    String,
>)
    ensures
        match user_id {
            None => record == Ok::<Option<String>, String>(None),
            Some(id) => if position_of(users_view(users@), id@) is Some {
                record == Ok::<Option<String>, String>(Some(id))
            } else {
                record matches Err(reason) && reason@ == "User not found"@
            },
        },
{
    match user_id {
        None => Ok(None),
        Some(id) => match find_user(users, id.as_str()) {
            Some(_) => Ok(Some(id)),
            None => Err(String::from_str("User not found")),
        },
    }
}

/// Removes the user `user_id` from the list.
pub fn delete_user(users: &mut Vec<User>, user_id: &str) -> (outcome: Result<(), String>)
    ensures
        match position_of(users_view(old(users)@), user_id@) {
            Some(i) => outcome is Ok && final(users)@ == old(users)@.remove(i),
            None => {
                &&& final(users)@ == old(users)@
                &&& outcome matches Err(reason) && reason@ == "User not found"@
            },
        },
{
    match find_user(users, user_id) {
        Some(i) => {
            users.remove(i);
            Ok(())
        },
        None => Err(String::from_str("User not found")),
    }
}

/// The language of the user `user_id`.
pub fn get_user_language(users: &Vec<User>, user_id: &str) -> (language: Result<
    Option<String>,
    String,
>)
    ensures
        match position_of(users_view(users@), user_id@) {
            Some(i) => language matches Ok(Some(l)) && l@ == users[i].language@,
            None => language matches Err(reason) && reason@ == "User not found"@,
        },
{
    match find_user(users, user_id) {
        Some(i) => Ok(Some(users[i].language.clone())),
        None => Err(String::from_str("User not found")),
    }
}

/// Sets the language of the user `user_id`; everything else stays.
pub fn set_user_language(users: &mut Vec<User>, user_id: &str, language: String) -> (outcome:
    Result<(), String>)
    ensures
        match position_of(users_view(old(users)@), user_id@) {
            Some(i) => {
                &&& outcome is Ok
                &&& users_view(final(users)@) == users_view(old(users)@).update(
                    i,
                    UserView { language: language@, ..users_view(old(users)@)[i] },
                )
            },
            None => {
                &&& final(users)@ == old(users)@
                &&& outcome matches Err(reason) && reason@ == "User not found"@
            },
        },
{
    match find_user(users, user_id) {
        Some(i) => {
            let ghost before = users_view(users@);
            let updated = User {
                id: users[i].id.clone(),
                name: users[i].name.clone(),
                password_hash: users[i].password_hash.clone(),
                language,
                created_at: users[i].created_at.clone(),
            };
            users.set(i, updated);
            assert(users_view(users@) =~= before.update(
                i as int,
                UserView { language: language@, ..before[i as int] },
            ));
            Ok(())
        },
        None => Err(String::from_str("User not found")),
    }
}

/// Whether `chats[at]` is the chat to keep: none was updated later, and of
/// those updated as late it is the first.
pub open spec fn is_latest(chats: Seq<ChatSummary>, at: int) -> bool {
    &&& 0 <= at < chats.len()
    &&& forall|j: int|
        0 <= j < chats.len() ==> !text_before(chats[at].updated_at@, (#[trigger] chats[j]).updated_at@)
    &&& forall|j: int|
        0 <= j < at ==> text_before((#[trigger] chats[j]).updated_at@, chats[at].updated_at@)
}

/// The chat that was updated last: the one to keep when many chats are
/// folded into one. Of several updated at the same time the first wins.
pub fn latest_chat(chats: &Vec<ChatSummary>) -> (latest: Result<usize, String>)
    ensures
        match latest {
            Ok(at) => is_latest(chats@, at as int),
            Err(reason) => chats@.len() == 0 && reason@ == "Empty chat list"@,
        },
{
    if chats.len() == 0 {
        return Err(String::from_str("Empty chat list"));
    }
    let mut best: usize = 0;
    let mut best_time = to_chars(chats[0].updated_at.as_str());
    let mut i: usize = 1;
    proof {
        lemma_text_before_is_strict(best_time@, best_time@, best_time@);
    }
    while i < chats.len()
        invariant
            0 <= best < i <= chats.len(),
            best_time@ == chats[best as int].updated_at@,
            forall|j: int|
                0 <= j < i ==> !text_before(best_time@, (#[trigger] chats[j]).updated_at@),
            forall|j: int| 0 <= j < best ==> text_before((#[trigger] chats[j]).updated_at@, best_time@),
        decreases chats.len() - i,
    {
        let time = to_chars(chats[i].updated_at.as_str());
        if comes_before(&best_time, &time) {
            proof {
                let old_time = best_time@;
                assert forall|j: int| 0 <= j < i + 1 implies !text_before(
                    time@,
                    (#[trigger] chats[j]).updated_at@,
                ) by {
                    lemma_text_before_is_strict(old_time, time@, chats[j].updated_at@);
                    lemma_text_before_is_strict(time@, time@, time@);
                }
                assert forall|j: int| 0 <= j < i implies text_before(
                    (#[trigger] chats[j]).updated_at@,
                    time@,
                ) by {
                    lemma_text_before_is_strict(chats[j].updated_at@, old_time, time@);
                    if j == best {
                    } else if j < best {
                    } else {
                        // not updated later than the best so far, which is
                        // before `time`
                        lemma_not_after_then_before(chats[j].updated_at@, old_time, time@);
                    }
                }
            }
            best = i;
            best_time = time;
        }
        i += 1;
    }
    Ok(best)
}

} // verus!
