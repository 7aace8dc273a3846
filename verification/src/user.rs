//! Users: who may sign in, under which name and in which role.

use crate::text::{
    byte_len, chars_of, check_length, decimal, ends, failed, fine, first_index, holds, is_among,
    is_letter, is_letter_or_number, is_lower, is_number, is_upper, joined_lines,
    lemma_first_index, lemma_first_index_is, length_error, lowercase, parse_unsigned,
    parsed_unsigned, push_decimal, push_line, record_lines, same_text, split, split_keeping,
    split_on, string_of, trim, trimmed, views, Outcome,
};
use vstd::prelude::*;

verus! {

/// A compiled pattern of the `regex` crate.
#[verifier::external_type_specification]
#[verifier::external_body]
pub struct ExRegex(regex::Regex);

/// The pattern that a compiled pattern was made from.
pub uninterp spec fn pattern_of(compiled: regex::Regex) -> Seq<char>;

/// Whether the `regex` crate takes a text as a pattern.
pub uninterp spec fn pattern_compiles(pattern: Seq<char>) -> bool;

/// Whether a pattern matches somewhere in a text.
pub uninterp spec fn pattern_matches(pattern: Seq<char>, text: Seq<char>) -> bool;

/// Whether a password is the one that a hash in one of the Unix formats
/// was made from.
pub uninterp spec fn password_matches(password: Seq<char>, hash: Seq<char>) -> bool;

/// `Regex::new`: the compiled pattern, where the text is one.
#[verifier::external_body]
fn compile(pattern: &str) -> (compiled: Option<regex::Regex>)
    ensures
        compiled is Some == pattern_compiles(pattern@),
        compiled matches Some(made) ==> pattern_of(made) == pattern@,
{
    match regex::Regex::new(pattern) {
        Ok(made) => Some(made),
        Err(_) => None,
    }
}

/// `Regex::is_match`: whether the pattern matches somewhere in the text.
#[verifier::external_body]
fn is_match(compiled: &regex::Regex, text: &str) -> (found: bool)
    ensures
        found == pattern_matches(pattern_of(*compiled), text@),
{
    compiled.is_match(text)
}

/// `Uuid::new_v4`, written out: a fresh random id. Nothing is known of it.
#[verifier::external_body]
fn fresh_id() -> String {
    uuid::Uuid::new_v4().to_string()
}

/// `pwhash::bcrypt::hash`: a bcrypt hash of the password under a fresh
/// random salt. The crate gives no error on this path; nothing else is
/// known of the hash.
#[verifier::external_body]
fn hash_password(password: &str) -> String {
    pwhash::bcrypt::hash(password).unwrap()
}

/// Whether a text has the look of a bcrypt hash: it starts with `$2a$`,
/// `$2b$` or `$2y$`, and holds printable ASCII characters only.
pub open spec fn is_bcrypt_text(hash: Seq<char>) -> bool {
    &&& hash.len() >= 4
    &&& hash[0] == '$'
    &&& hash[1] == '2'
    &&& (hash[2] == 'a' || hash[2] == 'b' || hash[2] == 'y')
    &&& hash[3] == '$'
    &&& forall|index: int|
        0 <= index < hash.len() ==> ' ' <= #[trigger] hash[index] && hash[index] <= '~'
}

/// `pwhash::unix::verify`: whether the password is the one that the hash
/// was made from.
///
/// Only texts with the look of a bcrypt hash are handed over. For those
/// the crate goes to its bcrypt code, which gives an answer for every such
/// text; on other texts it goes to other hash formats, and it subtracts
/// from character codes without a check where it decodes them.
#[verifier::external_body]
fn verify_password(password: &str, hash: &str) -> (matches: bool)
    requires
        is_bcrypt_text(hash@),
    ensures
        matches == password_matches(password@, hash@),
{
    pwhash::unix::verify(password, hash)
}

/// Tells whether a text has the look of a bcrypt hash.
pub fn has_bcrypt_look(hash: &str) -> (yes: bool)
    ensures
        yes == is_bcrypt_text(hash@),
{
    let chars = chars_of(hash);
    if chars.len() < 4 {
        return false;
    }
    if !(chars[0] == '$' && chars[1] == '2' && (chars[2] == 'a' || chars[2] == 'b' || chars[2]
        == 'y') && chars[3] == '$') {
        return false;
    }
    let mut at: usize = 0;
    while at < chars.len()
        invariant
            at <= chars.len(),
            chars@ == hash@,
            forall|index: int|
                0 <= index < at ==> ' ' <= #[trigger] chars@[index] && chars@[index] <= '~',
        decreases chars.len() - at,
    {
        let c = chars[at];
        if !(' ' <= c && c <= '~') {
            assert(!(' ' <= chars@[at as int] && chars@[at as int] <= '~'));
            return false;
        }
        at = at + 1;
    }
    true
}

/// What a user may do.
#[derive(Debug, Clone, Copy)]
pub enum Role {
    ROOT,
    ADMIN,
    AUTHOR,
}

impl Default for Role {
    fn default() -> (role: Role)
        ensures
            role == Role::AUTHOR,
    {
        Role::AUTHOR
    }
}

/// One user.
#[derive(Default, Debug, Clone)]
pub struct User {
    pub id: String,
    first_name: String,
    last_name: String,
    username: String,
    email: String,
    password: String,
    role: Role,
}

/// What a `User` holds.
pub struct UserView {
    pub id: Seq<char>,
    pub first_name: Seq<char>,
    pub last_name: Seq<char>,
    pub username: Seq<char>,
    pub email: Seq<char>,
    pub password: Seq<char>,
    pub role: Role,
}

impl View for User {
    type V = UserView;

    closed spec fn view(&self) -> UserView {
        UserView {
            id: self.id@,
            first_name: self.first_name@,
            last_name: self.last_name@,
            username: self.username@,
            email: self.email@,
            password: self.password@,
            role: self.role,
        }
    }
}

/// The views of a list of users.
pub open spec fn user_views(all: Seq<User>) -> Seq<UserView> {
    Seq::new(all.len(), |index: int| all[index]@)
}

/// The ids of the users, in order.
pub open spec fn ids_of(all: Seq<UserView>) -> Seq<Seq<char>> {
    Seq::new(all.len(), |index: int| all[index].id)
}

/// The usernames of the users in lowercase, in order.
pub open spec fn lowered_usernames(all: Seq<UserView>) -> Seq<Seq<char>> {
    Seq::new(all.len(), |index: int| lowercase(all[index].username))
}

/// The email addresses of the users in lowercase, in order.
pub open spec fn lowered_emails(all: Seq<UserView>) -> Seq<Seq<char>> {
    Seq::new(all.len(), |index: int| lowercase(all[index].email))
}

/// The list without the users of the given id.
pub open spec fn without_id(all: Seq<UserView>, id: Seq<char>) -> Seq<UserView>
    decreases all.len(),
{
    if all.len() == 0 {
        all
    } else if all[0].id == id {
        without_id(all.skip(1), id)
    } else {
        seq![all[0]] + without_id(all.skip(1), id)
    }
}

/// The role that a number stands for.
pub open spec fn role_of(role_numeric: u32) -> Role {
    if role_numeric == 0 {
        Role::ROOT
    } else if role_numeric == 1 {
        Role::ADMIN
    } else {
        Role::AUTHOR
    }
}

/// The number that stands for a role.
pub open spec fn number_of(role: Role) -> nat {
    match role {
        Role::ROOT => 0,
        Role::ADMIN => 1,
        Role::AUTHOR => 2,
    }
}

/// The pattern that an email address must match at its start.
pub open spec fn email_pattern() -> Seq<char> {
    r"^([a-z0-9_+]([a-z0-9_+.]*[a-z0-9_+])?)@([a-z0-9]+([\-\.]{1}[a-z0-9]+)*\.[a-z]{2,6})"@
}

/// Whether a text starts like an email address.
pub open spec fn is_email(text: Seq<char>) -> bool {
    pattern_compiles(email_pattern()) && pattern_matches(email_pattern(), text)
}

/// Whether a name holds letters, spaces and `-` only.
pub open spec fn is_name(text: Seq<char>) -> bool {
    forall|index: int|
        0 <= index < text.len() ==> is_letter(#[trigger] text[index]) || text[index] == ' '
            || text[index] == '-'
}

/// Whether a username holds letters, numbers and `_` only.
pub open spec fn is_username(text: Seq<char>) -> bool {
    forall|index: int|
        0 <= index < text.len() ==> is_letter_or_number(#[trigger] text[index]) || text[index]
            == '_'
}

/// Whether a text holds an uppercase letter.
pub open spec fn has_upper(text: Seq<char>) -> bool {
    exists|index: int|
        0 <= index < text.len() && is_letter(#[trigger] text[index]) && is_upper(text[index])
}

/// Whether a text holds a lowercase letter.
pub open spec fn has_lower(text: Seq<char>) -> bool {
    exists|index: int|
        0 <= index < text.len() && is_letter(#[trigger] text[index]) && is_lower(text[index])
}

/// Whether a text holds a number.
pub open spec fn has_number(text: Seq<char>) -> bool {
    exists|index: int| 0 <= index < text.len() && is_number(#[trigger] text[index])
}

/// Whether another user than the one of the id has the username, case
/// left aside.
pub open spec fn username_taken(all: Seq<UserView>, id: Seq<char>, username: Seq<char>) -> bool {
    exists|index: int|
        0 <= index < all.len() && lowercase(#[trigger] all[index].username) == trimmed(
            lowercase(username),
        ) && all[index].id != id
}

/// Whether another user than the one of the id has the email address, case
/// left aside.
pub open spec fn email_taken(all: Seq<UserView>, id: Seq<char>, email: Seq<char>) -> bool {
    exists|index: int|
        0 <= index < all.len() && lowercase(#[trigger] all[index].email) == trimmed(
            lowercase(email),
        ) && all[index].id != id
}

/// The list with `change` put on the first user of the id; without such a
/// user the operation fails.
pub open spec fn changed_first(
    all: Seq<UserView>,
    id: Seq<char>,
    change: spec_fn(UserView) -> UserView,
) -> Outcome<UserView> {
    let at = first_index(ids_of(all), id);
    if at == all.len() {
        failed(all, "Error: User not found"@)
    } else {
        fine(all.update(at, change(all[at])))
    }
}

/// What `User::update_name` does: the first user of the id gets the two
/// trimmed names. Each may hold letters, spaces and `-`, and has, trimmed,
/// between 1 and 100 bytes.
pub open spec fn name_updated(
    all: Seq<UserView>,
    id: Seq<char>,
    first_name: Seq<char>,
    last_name: Seq<char>,
) -> Outcome<UserView> {
    if !is_name(first_name) {
        failed(all, "Error: first_name contains an invalid character"@)
    } else {
        match length_error(
            first_name,
            1,
            100,
            "Error: first_name does not contain enough characters"@,
            "Error: first_name contains too many characters"@,
        ) {
            Some(message) => failed(all, message),
            None => if !is_name(last_name) {
                failed(all, "Error: last_name contains an invalid character"@)
            } else {
                match length_error(
                    last_name,
                    1,
                    100,
                    "Error: last_name does not contain enough characters"@,
                    "Error: last_name contains too many characters"@,
                ) {
                    Some(message) => failed(all, message),
                    None => changed_first(
                        all,
                        id,
                        |user: UserView|
                            UserView {
                                first_name: trimmed(first_name),
                                last_name: trimmed(last_name),
                                ..user
                            },
                    ),
                }
            },
        }
    }
}

/// What `User::update_username` does: the first user of the id gets the
/// trimmed username, which no other user may have and which may hold
/// letters, numbers and `_`.
pub open spec fn username_updated(all: Seq<UserView>, id: Seq<char>, username: Seq<char>) -> Outcome<
    UserView,
> {
    if username_taken(all, id, username) {
        failed(all, "Error: username already taken"@)
    } else if !is_username(username) {
        failed(all, "Error: username contains an invalid character"@)
    } else {
        changed_first(all, id, |user: UserView| UserView { username: trimmed(username), ..user })
    }
}

/// What `User::update_email` does: the first user of the id gets the
/// trimmed address, which no other user may have, which starts like an
/// email address and has, trimmed, between 1 and 100 bytes.
pub open spec fn email_updated(all: Seq<UserView>, id: Seq<char>, email: Seq<char>) -> Outcome<
    UserView,
> {
    if email_taken(all, id, email) {
        failed(all, "Error: email already taken"@)
    } else if !is_email(email) {
        failed(all, "Error: Invalid email address"@)
    } else {
        match length_error(
            email,
            1,
            100,
            "Error: email does not contain enough characters"@,
            "Error: email contains too many characters"@,
        ) {
            Some(message) => failed(all, message),
            None => changed_first(
                all,
                id,
                |user: UserView| UserView { email: trimmed(email), ..user },
            ),
        }
    }
}

/// What is wrong with a password, if anything: it has, trimmed, between 7
/// and 100 bytes, holds an uppercase and a lowercase letter and a number,
/// and holds no `;`.
pub open spec fn password_fault(password: Seq<char>) -> Option<Seq<char>> {
    if byte_len(trimmed(password)) < 7 {
        Some("Error: password should be longer than 7 characters"@)
    } else if byte_len(trimmed(password)) > 100 {
        Some("Error: password contains too many characters"@)
    } else if !has_upper(trimmed(password)) {
        Some("Error: password should contain at least 1 uppercase alphabetic character"@)
    } else if !has_lower(trimmed(password)) {
        Some("Error: password should contain at least 1 lowercase alphabetic character"@)
    } else if !has_number(trimmed(password)) {
        Some("Error: password should contain at least 1 number"@)
    } else if password.contains(';') {
        Some("Error: password contains a forbidden character (;)"@)
    } else {
        None
    }
}

/// What `User::update_password` does where hashing the password gives
/// `hash`: the first user of the id gets the hash, unless the password has
/// a fault.
pub open spec fn password_updated(
    all: Seq<UserView>,
    id: Seq<char>,
    password: Seq<char>,
    hash: Seq<char>,
) -> Outcome<UserView> {
    match password_fault(password) {
        Some(message) => failed(all, message),
        None => changed_first(all, id, |user: UserView| UserView { password: hash, ..user }),
    }
}

/// What `User::update_role` does: the first user of the id gets the role
/// that the number stands for.
pub open spec fn role_updated(all: Seq<UserView>, id: Seq<char>, role_numeric: u32) -> Outcome<
    UserView,
> {
    changed_first(all, id, |user: UserView| UserView { role: role_of(role_numeric), ..user })
}

/// What `User::delete` does: every user of the id leaves the list, unless
/// there is none.
pub open spec fn deleted(all: Seq<UserView>, id: Seq<char>) -> Outcome<UserView> {
    if !is_among(ids_of(all), id) {
        failed(all, "Error: User not found"@)
    } else {
        fine(without_id(all, id))
    }
}

/// A failed step of a creation undone: the users of the id are deleted and
/// the step's error stays.
pub open spec fn undone(step: Outcome<UserView>, id: Seq<char>) -> Outcome<UserView> {
    failed(deleted(step.list, id).list, step.error->Some_0)
}

/// What the creation of a user draws at random: the new id, the hash that
/// the user holds at first, and the hash of the password.
pub struct Drawn {
    pub id: Seq<char>,
    pub first_hash: Seq<char>,
    pub hash: Seq<char>,
}

/// A user with an id and a password hash and nothing else, in the role of
/// an author.
pub open spec fn blank(id: Seq<char>, hash: Seq<char>) -> UserView {
    UserView {
        id,
        first_name: Seq::empty(),
        last_name: Seq::empty(),
        username: Seq::empty(),
        email: Seq::empty(),
        password: hash,
        role: Role::AUTHOR,
    }
}

/// What `User::create` does for given draws.
///
/// A blank user joins the list under the new id and is then given names,
/// username, email address, password and role, each as its update does it.
/// The first update that fails ends the creation: the users of the new id
/// are deleted, and the update's error is the result.
pub open spec fn created(
    all: Seq<UserView>,
    drawn: Drawn,
    first_name: Seq<char>,
    last_name: Seq<char>,
    username: Seq<char>,
    email: Seq<char>,
    password: Seq<char>,
    role_numeric: u32,
) -> Outcome<UserView> {
    let named = name_updated(
        all.push(blank(drawn.id, drawn.first_hash)),
        drawn.id,
        first_name,
        last_name,
    );
    if named.error is Some {
        undone(named, drawn.id)
    } else {
        let with_username = username_updated(named.list, drawn.id, username);
        if with_username.error is Some {
            undone(with_username, drawn.id)
        } else {
            let with_email = email_updated(with_username.list, drawn.id, email);
            if with_email.error is Some {
                undone(with_email, drawn.id)
            } else {
                let with_password = password_updated(
                    with_email.list,
                    drawn.id,
                    password,
                    drawn.hash,
                );
                if with_password.error is Some {
                    undone(with_password, drawn.id)
                } else {
                    let with_role = role_updated(with_password.list, drawn.id, role_numeric);
                    if with_role.error is Some {
                        undone(with_role, drawn.id)
                    } else {
                        with_role
                    }
                }
            }
        }
    }
}

/// Position of the first user whose email address or username is `auth`,
/// or the number of users where there is none.
pub open spec fn first_named(all: Seq<UserView>, auth: Seq<char>) -> int
    decreases all.len(),
{
    if all.len() == 0 {
        0
    } else if all[0].email == auth || all[0].username == auth {
        0
    } else {
        1 + first_named(all.skip(1), auth)
    }
}

/// What `User::login` gives: the first user whose email address or
/// username is `auth`, where that user's hash has the look of a bcrypt hash
/// and the trimmed password is the one that it was made from.
pub open spec fn logged_in(all: Seq<UserView>, auth: Seq<char>, password: Seq<char>) -> Result<
    UserView,
    Seq<char>,
> {
    let at = first_named(all, auth);
    if at == all.len() {
        Err("Error: User not found"@)
    } else if !is_bcrypt_text(all[at].password) || !password_matches(
        trimmed(password),
        all[at].password,
    ) {
        Err("Error: Password mismatch"@)
    } else {
        Ok(all[at])
    }
}

/// The line that writes a user: its six texts and the number of its role,
/// with `;` between them.
pub open spec fn line_of_user(user: UserView) -> Seq<char> {
    user.id + seq![';'] + user.first_name + seq![';'] + user.last_name + seq![';'] + user.username
        + seq![';'] + user.email + seq![';'] + user.password + seq![';'] + decimal(
        number_of(user.role),
    )
}

/// The lines that write the users.
pub open spec fn lines_of_users(all: Seq<UserView>) -> Seq<Seq<char>> {
    Seq::new(all.len(), |index: int| line_of_user(all[index]))
}

/// The user that the fields of a line write, for a role of the given
/// number.
pub open spec fn user_of_fields(fields: Seq<Seq<char>>, role_numeric: u32) -> UserView {
    UserView {
        id: fields[0],
        first_name: fields[1],
        last_name: fields[2],
        username: fields[3],
        email: fields[4],
        password: fields[5],
        role: role_of(role_numeric),
    }
}

/// The users that the lines write, behind those read so far. The reading
/// ends at the first line whose role is no number; there is no result
/// where a line before that has fewer than seven fields.
pub open spec fn users_read(done: Seq<UserView>, lines: Seq<Seq<char>>) -> Option<Seq<UserView>>
    decreases lines.len(),
{
    if lines.len() == 0 {
        Some(done)
    } else {
        let fields = split(lines[0], ';');
        if fields.len() < 7 {
            None
        } else {
            match parsed_unsigned(fields[6], u32::MAX as int) {
                None => Some(done),
                Some(number) => users_read(
                    done.push(user_of_fields(fields, number as u32)),
                    lines.skip(1),
                ),
            }
        }
    }
}

/// The role that a number stands for.
fn role_from(role_numeric: u32) -> (role: Role)
    ensures
        role == role_of(role_numeric),
{
    match role_numeric {
        0 => Role::ROOT,
        1 => Role::ADMIN,
        _ => Role::AUTHOR,
    }
}

/// Tells whether a name holds letters, spaces and `-` only.
fn check_name(text: &Vec<char>) -> (good: bool)
    ensures
        good == is_name(text@),
{
    let mut at: usize = 0;
    while at < text.len()
        invariant
            at <= text.len(),
            forall|index: int|
                0 <= index < at ==> is_letter(#[trigger] text@[index]) || text@[index] == ' '
                    || text@[index] == '-',
        decreases text.len() - at,
    {
        let c = text[at];
        if !(c.is_alphabetic() || c == ' ' || c == '-') {
            assert(!is_letter(text@[at as int]));
            return false;
        }
        at = at + 1;
    }
    true
}

/// Tells whether a username holds letters, numbers and `_` only.
fn check_username(text: &Vec<char>) -> (good: bool)
    ensures
        good == is_username(text@),
{
    let mut at: usize = 0;
    while at < text.len()
        invariant
            at <= text.len(),
            forall|index: int|
                0 <= index < at ==> is_letter_or_number(#[trigger] text@[index]) || text@[index]
                    == '_',
        decreases text.len() - at,
    {
        let c = text[at];
        if !(c.is_alphanumeric() || c == '_') {
            assert(!is_letter_or_number(text@[at as int]));
            return false;
        }
        at = at + 1;
    }
    true
}

/// Tells what a password holds: an uppercase letter, a lowercase letter, a
/// number.
fn password_classes(text: &Vec<char>) -> (found: (bool, bool, bool))
    ensures
        found.0 == has_upper(text@),
        found.1 == has_lower(text@),
        found.2 == has_number(text@),
{
    let mut upper = false;
    let mut lower = false;
    let mut number = false;
    let mut at: usize = 0;
    while at < text.len()
        invariant
            at <= text.len(),
            upper == exists|index: int|
                0 <= index < at && is_letter(#[trigger] text@[index]) && is_upper(text@[index]),
            lower == exists|index: int|
                0 <= index < at && is_letter(#[trigger] text@[index]) && is_lower(text@[index]),
            number == exists|index: int| 0 <= index < at && is_number(#[trigger] text@[index]),
        decreases text.len() - at,
    {
        let c = text[at];
        if c.is_alphabetic() && c.is_uppercase() {
            assert(is_letter(text@[at as int]) && is_upper(text@[at as int]));
            upper = true;
        }
        if c.is_alphabetic() && c.is_lowercase() {
            assert(is_letter(text@[at as int]) && is_lower(text@[at as int]));
            lower = true;
        }
        if c.is_numeric() {
            assert(is_number(text@[at as int]));
            number = true;
        }
        at = at + 1;
    }
    (upper, lower, number)
}

/// Holds a password against the rules; see `password_fault`.
pub fn check_password(password: &str) -> (fault: Option<String>)
    ensures
        match password_fault(password@) {
            Some(message) => fault matches Some(text) && text@ == message,
            None => fault is None,
        },
{
    let chars = chars_of(password);
    let short = trim(&chars);
    let length = short.as_str().as_bytes().len();
    if length < 7 {
        return Some(String::from_str("Error: password should be longer than 7 characters"));
    } else if length > 100 {
        return Some(String::from_str("Error: password contains too many characters"));
    }
    let found = password_classes(&chars_of(short.as_str()));
    if !found.0 {
        Some(
            String::from_str(
                "Error: password should contain at least 1 uppercase alphabetic character",
            ),
        )
    } else if !found.1 {
        Some(
            String::from_str(
                "Error: password should contain at least 1 lowercase alphabetic character",
            ),
        )
    } else if !found.2 {
        Some(String::from_str("Error: password should contain at least 1 number"))
    } else if holds(&chars, ';') {
        Some(String::from_str("Error: password contains a forbidden character (;)"))
    } else {
        None
    }
}

/// Tells whether a text starts like an email address.
fn check_email(email: &str) -> (good: bool)
    ensures
        good == is_email(email@),
{
    match compile(
        r"^([a-z0-9_+]([a-z0-9_+.]*[a-z0-9_+])?)@([a-z0-9]+([\-\.]{1}[a-z0-9]+)*\.[a-z]{2,6})",
    ) {
        Some(compiled) => is_match(&compiled, email),
        None => false,
    }
}

impl User {
    /// A user of the given fields, with nothing checked or trimmed.
    pub fn create_no_check(
        id: &str,
        first_name: &str,
        last_name: &str,
        username: &str,
        email: &str,
        password: &str,
        role: Role,
    ) -> (user: User)
        ensures
            user@ == (UserView {
                id: id@,
                first_name: first_name@,
                last_name: last_name@,
                username: username@,
                email: email@,
                password: password@,
                role,
            }),
    {
        User {
            id: String::from_str(id),
            first_name: String::from_str(first_name),
            last_name: String::from_str(last_name),
            username: String::from_str(username),
            email: String::from_str(email),
            password: String::from_str(password),
            role,
        }
    }

    /// Position of the first user with the id, or the length of the list.
    fn position(all_users: &Vec<User>, id: &str) -> (at: usize)
        ensures
            at == first_index(ids_of(user_views(all_users@)), id@),
            at <= all_users.len(),
    {
        let ghost ids = ids_of(user_views(all_users@));
        let mut at: usize = 0;
        while at < all_users.len()
            invariant
                at <= all_users.len(),
                ids == ids_of(user_views(all_users@)),
                forall|index: int| 0 <= index < at ==> #[trigger] ids[index] != id@,
            decreases all_users.len() - at,
        {
            if same_text(all_users[at].id.as_str(), id) {
                proof {
                    assert(ids[at as int] == id@);
                    lemma_first_index(ids, id@, at as int);
                }
                return at;
            }
            assert(ids[at as int] != id@);
            at = at + 1;
        }
        proof {
            lemma_first_index(ids, id@, at as int);
        }
        at
    }

    /// A copy of the user.
    pub fn copy(&self) -> (user: User)
        ensures
            user@ == self@,
    {
        User {
            id: self.id.clone(),
            first_name: self.first_name.clone(),
            last_name: self.last_name.clone(),
            username: self.username.clone(),
            email: self.email.clone(),
            password: self.password.clone(),
            role: self.role,
        }
    }

    /// The id.
    pub fn id_text(&self) -> (id: &str)
        ensures
            id@ == self@.id,
    {
        self.id.as_str()
    }

    /// Puts `user` in the place `at` of the list.
    fn put(all_users: &mut Vec<User>, at: usize, user: User)
        requires
            at < old(all_users).len(),
        ensures
            final(all_users)@.len() == old(all_users)@.len(),
            user_views(final(all_users)@) == user_views(old(all_users)@).update(at as int, user@),
    {
        all_users[at] = user;
        assert(user_views(all_users@) =~= user_views(old(all_users)@).update(at as int, user@));
    }

    /// Whether a user of the list has the id.
    pub fn exist(all_users: &Vec<User>, id: &str) -> (found: bool)
        ensures
            found == is_among(ids_of(user_views(all_users@)), id@),
    {
        Self::position(all_users, id) < all_users.len()
    }

    /// Whether a user of the list has the username, case left aside.
    pub fn exist_username(all_users: &Vec<User>, username: &str) -> (found: bool)
        ensures
            found == is_among(lowered_usernames(user_views(all_users@)), lowercase(username@)),
    {
        let ghost names = lowered_usernames(user_views(all_users@));
        let lowered = username.to_lowercase();
        let mut at: usize = 0;
        while at < all_users.len()
            invariant
                at <= all_users.len(),
                lowered@ == lowercase(username@),
                names == lowered_usernames(user_views(all_users@)),
                forall|index: int| 0 <= index < at ==> #[trigger] names[index] != lowered@,
            decreases all_users.len() - at,
        {
            let current = all_users[at].username.as_str().to_lowercase();
            if same_text(current.as_str(), lowered.as_str()) {
                proof {
                    assert(names[at as int] == lowered@);
                    lemma_first_index(names, lowered@, at as int);
                }
                return true;
            }
            assert(names[at as int] != lowered@);
            at = at + 1;
        }
        proof {
            lemma_first_index(names, lowered@, at as int);
        }
        false
    }

    /// Whether a user of the list has the email address, case left aside.
    pub fn exist_email(all_users: &Vec<User>, email: &str) -> (found: bool)
        ensures
            found == is_among(lowered_emails(user_views(all_users@)), lowercase(email@)),
    {
        let ghost names = lowered_emails(user_views(all_users@));
        let lowered = email.to_lowercase();
        let mut at: usize = 0;
        while at < all_users.len()
            invariant
                at <= all_users.len(),
                lowered@ == lowercase(email@),
                names == lowered_emails(user_views(all_users@)),
                forall|index: int| 0 <= index < at ==> #[trigger] names[index] != lowered@,
            decreases all_users.len() - at,
        {
            let current = all_users[at].email.as_str().to_lowercase();
            if same_text(current.as_str(), lowered.as_str()) {
                proof {
                    assert(names[at as int] == lowered@);
                    lemma_first_index(names, lowered@, at as int);
                }
                return true;
            }
            assert(names[at as int] != lowered@);
            at = at + 1;
        }
        proof {
            lemma_first_index(names, lowered@, at as int);
        }
        false
    }

    /// Tells whether another user than the one of the id has the username.
    fn is_username_taken(all_users: &Vec<User>, id: &str, username: &str) -> (taken: bool)
        ensures
            taken == username_taken(user_views(all_users@), id@, username@),
    {
        let lowered = username.to_lowercase();
        let wanted = trim(&chars_of(lowered.as_str()));
        let ghost all = user_views(all_users@);
        let mut at: usize = 0;
        while at < all_users.len()
            invariant
                at <= all_users.len(),
                all == user_views(all_users@),
                wanted@ == trimmed(lowercase(username@)),
                forall|index: int|
                    0 <= index < at ==> !(lowercase(#[trigger] all[index].username) == wanted@
                        && all[index].id != id@),
            decreases all_users.len() - at,
        {
            let current = all_users[at].username.as_str().to_lowercase();
            if same_text(current.as_str(), wanted.as_str()) && !same_text(
                all_users[at].id.as_str(),
                id,
            ) {
                assert(lowercase(all[at as int].username) == wanted@ && all[at as int].id != id@);
                return true;
            }
            at = at + 1;
        }
        false
    }

    /// Tells whether another user than the one of the id has the email
    /// address.
    fn is_email_taken(all_users: &Vec<User>, id: &str, email: &str) -> (taken: bool)
        ensures
            taken == email_taken(user_views(all_users@), id@, email@),
    {
        let lowered = email.to_lowercase();
        let wanted = trim(&chars_of(lowered.as_str()));
        let ghost all = user_views(all_users@);
        let mut at: usize = 0;
        while at < all_users.len()
            invariant
                at <= all_users.len(),
                all == user_views(all_users@),
                wanted@ == trimmed(lowercase(email@)),
                forall|index: int|
                    0 <= index < at ==> !(lowercase(#[trigger] all[index].email) == wanted@
                        && all[index].id != id@),
            decreases all_users.len() - at,
        {
            let current = all_users[at].email.as_str().to_lowercase();
            if same_text(current.as_str(), wanted.as_str()) && !same_text(
                all_users[at].id.as_str(),
                id,
            ) {
                assert(lowercase(all[at as int].email) == wanted@ && all[at as int].id != id@);
                return true;
            }
            at = at + 1;
        }
        false
    }

    /// Adds a user; the same as `create`.
    pub fn register(
        all_users: &mut Vec<User>,
        first_name: &str,
        last_name: &str,
        username: &str,
        email: &str,
        password: &str,
        role_numeric: u32,
    ) -> (result: Result<(), String>)
        ensures
            exists|drawn: Drawn|
                ends(
                    result,
                    user_views(final(all_users)@),
                    #[trigger] created(
                        user_views(old(all_users)@),
                        drawn,
                        first_name@,
                        last_name@,
                        username@,
                        email@,
                        password@,
                        role_numeric,
                    ),
                ),
    {
        User::create(all_users, first_name, last_name, username, email, password, role_numeric)
    }

    /// Adds a user under a fresh random id; see `created` for what is done
    /// once id and hashes are drawn.
    pub fn create(
        all_users: &mut Vec<User>,
        first_name: &str,
        last_name: &str,
        username: &str,
        email: &str,
        password: &str,
        role_numeric: u32,
    ) -> (result: Result<(), String>)
        ensures
            exists|drawn: Drawn|
                ends(
                    result,
                    user_views(final(all_users)@),
                    #[trigger] created(
                        user_views(old(all_users)@),
                        drawn,
                        first_name@,
                        last_name@,
                        username@,
                        email@,
                        password@,
                        role_numeric,
                    ),
                ),
    {
        let uid = fresh_id();
        let first_hash = hash_password("");
        Self::create_as(
            all_users,
            uid,
            first_hash,
            first_name,
            last_name,
            username,
            email,
            password,
            role_numeric,
        )
    }

    /// Adds a user under the given id, with the given hash for a start;
    /// see `created`. The hash of the password is drawn on the way.
    pub fn create_as(
        all_users: &mut Vec<User>,
        uid: String,
        first_hash: String,
        first_name: &str,
        last_name: &str,
        username: &str,
        email: &str,
        password: &str,
        role_numeric: u32,
    ) -> (result: Result<(), String>)
        ensures
            exists|hash: Seq<char>|
                ends(
                    result,
                    user_views(final(all_users)@),
                    #[trigger] created(
                        user_views(old(all_users)@),
                        Drawn { id: uid@, first_hash: first_hash@, hash },
                        first_name@,
                        last_name@,
                        username@,
                        email@,
                        password@,
                        role_numeric,
                    ),
                ),
    {
        let ghost before = user_views(all_users@);
        let ghost first = first_hash@;
        let ghost expected = |hash: Seq<char>|
            created(
                before,
                Drawn { id: uid@, first_hash: first, hash },
                first_name@,
                last_name@,
                username@,
                email@,
                password@,
                role_numeric,
            );
        let new_user = User {
            id: uid.clone(),
            first_name: String::new(),
            last_name: String::new(),
            username: String::new(),
            email: String::new(),
            password: first_hash,
            role: Role::default(),
        };
        all_users.push(new_user);
        assert(user_views(all_users@) =~= before.push(blank(uid@, first)));
        if let Err(error) = Self::update_name(all_users, &uid, first_name, last_name) {
            let _ = Self::delete(all_users, &uid);
            assert(ends(Err::<(), String>(error), user_views(all_users@), expected(Seq::empty())));
            return Err(error);
        }
        if let Err(error) = Self::update_username(all_users, &uid, username) {
            let _ = Self::delete(all_users, &uid);
            assert(ends(Err::<(), String>(error), user_views(all_users@), expected(Seq::empty())));
            return Err(error);
        }
        if let Err(error) = Self::update_email(all_users, &uid, email) {
            let _ = Self::delete(all_users, &uid);
            assert(ends(Err::<(), String>(error), user_views(all_users@), expected(Seq::empty())));
            return Err(error);
        }
        let ghost with_email = user_views(all_users@);
        let password_result = Self::update_password(all_users, &uid, password);
        let ghost hash = choose|hash: Seq<char>|
            ends(
                password_result,
                user_views(all_users@),
                #[trigger] password_updated(with_email, uid@, password@, hash),
            );
        if let Err(error) = password_result {
            let _ = Self::delete(all_users, &uid);
            assert(ends(Err::<(), String>(error), user_views(all_users@), expected(hash)));
            return Err(error);
        }
        if let Err(error) = Self::update_role(all_users, &uid, role_numeric) {
            let _ = Self::delete(all_users, &uid);
            assert(ends(Err::<(), String>(error), user_views(all_users@), expected(hash)));
            return Err(error);
        }
        assert(ends(Ok::<(), String>(()), user_views(all_users@), expected(hash)));
        Ok(())
    }

    /// Signs a user in; see `logged_in`.
    pub fn login(all_users: &Vec<User>, auth: &str, password: &str) -> (result: Result<User, String>)
        ensures
            match logged_in(user_views(all_users@), auth@, password@) {
                Ok(user) => result matches Ok(found) && found@ == user,
                Err(message) => result matches Err(text) && text@ == message,
            },
    {
        let ghost all = user_views(all_users@);
        let mut at: usize = 0;
        assert(all.skip(0) =~= all);
        while at < all_users.len()
            invariant
                at <= all_users.len(),
                all == user_views(all_users@),
                first_named(all, auth@) == at + first_named(all.skip(at as int), auth@),
            decreases all_users.len() - at,
        {
            let ghost rest = all.skip(at as int);
            assert(rest[0] == all[at as int]);
            assert(rest.skip(1) =~= all.skip(at + 1));
            if same_text(all_users[at].email.as_str(), auth) || same_text(
                all_users[at].username.as_str(),
                auth,
            ) {
                assert(first_named(rest, auth@) == 0);
                let short = trim(&chars_of(password));
                if !has_bcrypt_look(all_users[at].password.as_str()) || !verify_password(
                    short.as_str(),
                    all_users[at].password.as_str(),
                ) {
                    return Err(String::from_str("Error: Password mismatch"));
                }
                return Ok(all_users[at].copy());
            }
            at = at + 1;
        }
        assert(all.skip(all.len() as int) =~= Seq::empty());
        Err(String::from_str("Error: User not found"))
    }

    /// Changes the names of a user; see `name_updated`.
    pub fn update_name(
        all_users: &mut Vec<User>,
        id: &String,
        first_name: &str,
        last_name: &str,
    ) -> (result: Result<(), String>)
        ensures
            ends(
                result,
                user_views(final(all_users)@),
                name_updated(user_views(old(all_users)@), id@, first_name@, last_name@),
            ),
    {
        let first_chars = chars_of(first_name);
        if !check_name(&first_chars) {
            return Err(String::from_str("Error: first_name contains an invalid character"));
        }
        let short_first = trim(&first_chars);
        if let Some(message) = check_length(
            &short_first,
            1,
            100,
            "Error: first_name does not contain enough characters",
            "Error: first_name contains too many characters",
        ) {
            return Err(message);
        }
        let last_chars = chars_of(last_name);
        if !check_name(&last_chars) {
            return Err(String::from_str("Error: last_name contains an invalid character"));
        }
        let short_last = trim(&last_chars);
        if let Some(message) = check_length(
            &short_last,
            1,
            100,
            "Error: last_name does not contain enough characters",
            "Error: last_name contains too many characters",
        ) {
            return Err(message);
        }
        let at = Self::position(all_users, id.as_str());
        if at == all_users.len() {
            return Err(String::from_str("Error: User not found"));
        }
        let mut user = all_users[at].copy();
        user.first_name = short_first;
        user.last_name = short_last;
        Self::put(all_users, at, user);
        Ok(())
    }

    /// Changes the username of a user; see `username_updated`.
    pub fn update_username(
        all_users: &mut Vec<User>,
        id: &String,
        username: &str,
    ) -> (result: Result<(), String>)
        ensures
            ends(
                result,
                user_views(final(all_users)@),
                username_updated(user_views(old(all_users)@), id@, username@),
            ),
    {
        if Self::is_username_taken(all_users, id.as_str(), username) {
            return Err(String::from_str("Error: username already taken"));
        }
        let chars = chars_of(username);
        if !check_username(&chars) {
            return Err(String::from_str("Error: username contains an invalid character"));
        }
        let at = Self::position(all_users, id.as_str());
        if at == all_users.len() {
            return Err(String::from_str("Error: User not found"));
        }
        let mut user = all_users[at].copy();
        user.username = trim(&chars);
        Self::put(all_users, at, user);
        Ok(())
    }

    /// Changes the email address of a user; see `email_updated`.
    pub fn update_email(
        all_users: &mut Vec<User>,
        id: &String,
        email: &str,
    ) -> (result: Result<(), String>)
        ensures
            ends(
                result,
                user_views(final(all_users)@),
                email_updated(user_views(old(all_users)@), id@, email@),
            ),
    {
        if Self::is_email_taken(all_users, id.as_str(), email) {
            return Err(String::from_str("Error: email already taken"));
        }
        if !check_email(email) {
            return Err(String::from_str("Error: Invalid email address"));
        }
        let short = trim(&chars_of(email));
        if let Some(message) = check_length(
            &short,
            1,
            100,
            "Error: email does not contain enough characters",
            "Error: email contains too many characters",
        ) {
            return Err(message);
        }
        let at = Self::position(all_users, id.as_str());
        if at == all_users.len() {
            return Err(String::from_str("Error: User not found"));
        }
        let mut user = all_users[at].copy();
        user.email = short;
        Self::put(all_users, at, user);
        Ok(())
    }

    /// Puts a password hash on the first user of the id.
    pub fn put_password(
        all_users: &mut Vec<User>,
        id: &String,
        hash: String,
    ) -> (result: Result<(), String>)
        ensures
            ends(
                result,
                user_views(final(all_users)@),
                changed_first(
                    user_views(old(all_users)@),
                    id@,
                    |user: UserView| UserView { password: hash@, ..user },
                ),
            ),
    {
        let at = Self::position(all_users, id.as_str());
        if at == all_users.len() {
            return Err(String::from_str("Error: User not found"));
        }
        let mut user = all_users[at].copy();
        user.password = hash;
        Self::put(all_users, at, user);
        Ok(())
    }

    /// Changes the password of a user to a fresh hash of the trimmed
    /// password; see `password_updated` for what is done with the hash.
    pub fn update_password(
        all_users: &mut Vec<User>,
        id: &String,
        password: &str,
    ) -> (result: Result<(), String>)
        ensures
            exists|hash: Seq<char>|
                ends(
                    result,
                    user_views(final(all_users)@),
                    #[trigger] password_updated(user_views(old(all_users)@), id@, password@, hash),
                ),
    {
        let ghost before = user_views(all_users@);
        if let Some(message) = check_password(password) {
            assert(ends(
                Err::<(), String>(message),
                user_views(all_users@),
                password_updated(before, id@, password@, Seq::empty()),
            ));
            return Err(message);
        }
        let short = trim(&chars_of(password));
        let hash = hash_password(short.as_str());
        let ghost made = hash@;
        let result = Self::put_password(all_users, id, hash);
        assert(ends(
            result,
            user_views(all_users@),
            password_updated(before, id@, password@, made),
        ));
        result
    }

    /// Changes the role of a user; see `role_updated`.
    pub fn update_role(
        all_users: &mut Vec<User>,
        id: &String,
        role_numeric: u32,
    ) -> (result: Result<(), String>)
        ensures
            ends(
                result,
                user_views(final(all_users)@),
                role_updated(user_views(old(all_users)@), id@, role_numeric),
            ),
    {
        let role = role_from(role_numeric);
        let at = Self::position(all_users, id.as_str());
        if at == all_users.len() {
            return Err(String::from_str("Error: User not found"));
        }
        let mut user = all_users[at].copy();
        user.role = role;
        Self::put(all_users, at, user);
        Ok(())
    }

    /// Deletes the users of an id; see `deleted`.
    pub fn delete(all_users: &mut Vec<User>, id: &String) -> (result: Result<(), String>)
        ensures
            ends(
                result,
                user_views(final(all_users)@),
                deleted(user_views(old(all_users)@), id@),
            ),
    {
        if Self::position(all_users, id.as_str()) == all_users.len() {
            return Err(String::from_str("Error: User not found"));
        }
        let ghost before = user_views(all_users@);
        let mut at: usize = all_users.len();
        assert(before.skip(at as int) =~= Seq::empty());
        while at > 0
            invariant
                at <= all_users.len(),
                at <= before.len(),
                user_views(all_users@).take(at as int) == before.take(at as int),
                user_views(all_users@).skip(at as int) == without_id(before.skip(at as int), id@),
            decreases at,
        {
            at = at - 1;
            let ghost current = user_views(all_users@);
            let ghost tail = before.skip(at as int);
            assert(tail.skip(1) =~= before.skip(at + 1));
            assert(tail[0] == before[at as int]);
            assert(current[at as int] == current.take(at + 1)[at as int]);
            assert(before[at as int] == before.take(at + 1)[at as int]);
            if same_text(all_users[at].id.as_str(), id.as_str()) {
                all_users.remove(at);
                assert(user_views(all_users@).skip(at as int) =~= current.skip(at + 1));
            } else {
                assert(current.skip(at as int) =~= seq![current[at as int]] + current.skip(
                    at + 1,
                ));
            }
            assert(user_views(all_users@).take(at as int) =~= current.take(at + 1).take(
                at as int,
            ));
            assert(before.take(at as int) =~= before.take(at + 1).take(at as int));
        }
        assert(user_views(all_users@).skip(0) =~= user_views(all_users@));
        assert(before.skip(0) =~= before);
        Ok(())
    }

    /// The line that writes the user.
    pub fn to_string(user: User) -> (line: String)
        ensures
            line@ == line_of_user(user@),
    {
        Self::line(&user)
    }

    /// The line that writes the user.
    fn line(user: &User) -> (line: String)
        ensures
            line@ == line_of_user(user@),
    {
        proof {
            reveal_strlit(";");
        }
        assert(";"@ =~= seq![';']);
        let number: u64 = match user.role {
            Role::ROOT => 0,
            Role::ADMIN => 1,
            Role::AUTHOR => 2,
        };
        let mut digits: Vec<char> = Vec::new();
        push_decimal(&mut digits, number);
        assert(digits@ =~= decimal(number_of(user.role)));
        let mut line = String::new();
        line.append(user.id.as_str());
        line.append(";");
        line.append(user.first_name.as_str());
        line.append(";");
        line.append(user.last_name.as_str());
        line.append(";");
        line.append(user.username.as_str());
        line.append(";");
        line.append(user.email.as_str());
        line.append(";");
        line.append(user.password.as_str());
        line.append(";");
        line.append(string_of(&digits).as_str());
        assert(line@ =~= line_of_user(user@));
        line
    }
}

/// Reads the users out of the text of a users file: one from each line of
/// three characters or more, up to the first line whose role is no number.
/// There is no result where a line before that has fewer than seven
/// fields.
pub fn read_all_users(all_users_raw: &str) -> (result: Option<Vec<User>>)
    ensures
        match users_read(Seq::empty(), record_lines(all_users_raw@)) {
            Some(list) => result matches Some(all) && user_views(all@) == list,
            None => result is None,
        },
{
    let lines = split_keeping(&chars_of(all_users_raw), '\n', 3);
    let ghost wanted = views(lines@);
    let mut final_users: Vec<User> = Vec::new();
    let mut at: usize = 0;
    assert(user_views(final_users@) =~= Seq::empty());
    assert(wanted.skip(0) =~= wanted);
    while at < lines.len()
        invariant
            at <= lines.len(),
            wanted == views(lines@),
            wanted == record_lines(all_users_raw@),
            users_read(Seq::empty(), wanted) == users_read(
                user_views(final_users@),
                wanted.skip(at as int),
            ),
        decreases lines.len() - at,
    {
        let ghost rest = wanted.skip(at as int);
        assert(rest[0] == lines@[at as int]@);
        assert(rest.skip(1) =~= wanted.skip(at + 1));
        let current_user = split_on(&lines[at], ';');
        let ghost fields = views(current_user@);
        assert(fields.len() == current_user@.len());
        assert(fields == split(rest[0], ';'));
        if current_user.len() < 7 {
            return None;
        }
        assert(fields[0] == current_user@[0]@);
        assert(fields[1] == current_user@[1]@);
        assert(fields[2] == current_user@[2]@);
        assert(fields[3] == current_user@[3]@);
        assert(fields[4] == current_user@[4]@);
        assert(fields[5] == current_user@[5]@);
        assert(fields[6] == current_user@[6]@);
        let parsed_role: u32 = match parse_unsigned(&current_user[6], 0xffff_ffff) {
            Some(value) => value as u32,
            None => {
                assert(parsed_unsigned(fields[6], u32::MAX as int) is None);
                assert(users_read(user_views(final_users@), rest) == Some(
                    user_views(final_users@),
                ));
                return Some(final_users);
            },
        };
        let ghost before = user_views(final_users@);
        let tmp_user = User::create_no_check(
            string_of(&current_user[0]).as_str(),
            string_of(&current_user[1]).as_str(),
            string_of(&current_user[2]).as_str(),
            string_of(&current_user[3]).as_str(),
            string_of(&current_user[4]).as_str(),
            string_of(&current_user[5]).as_str(),
            role_from(parsed_role),
        );
        final_users.push(tmp_user);
        assert(user_views(final_users@) =~= before.push(tmp_user@));
        at = at + 1;
    }
    Some(final_users)
}

/// Reads the users out of the text of a users file: one from each line of
/// three characters or more, up to the first line whose role is no number.
pub fn fetch_all_users(all_users_raw: &str) -> (all: Vec<User>)
    requires
        users_read(Seq::empty(), record_lines(all_users_raw@)) is Some,
    ensures
        Some(user_views(all@)) == users_read(Seq::empty(), record_lines(all_users_raw@)),
{
    match read_all_users(all_users_raw) {
        Some(all) => all,
        None => Vec::new(),
    }
}

/// The text of a users file: the lines of the users, joined.
pub fn turn_users_to_str(users: Vec<User>) -> (text: String)
    ensures
        text@ == joined_lines(lines_of_users(user_views(users@)), '\n'),
{
    let ghost lines = lines_of_users(user_views(users@));
    let mut joined: Vec<char> = Vec::new();
    let mut at: usize = 0;
    assert(lines.take(0) =~= Seq::empty());
    while at < users.len()
        invariant
            at <= users.len(),
            lines == lines_of_users(user_views(users@)),
            joined@ == joined_lines(lines.take(at as int), '\n'),
        decreases users.len() - at,
    {
        let line = User::line(&users[at]);
        assert(line@ == lines[at as int]);
        assert(lines.take(at + 1).drop_last() =~= lines.take(at as int));
        push_line(&mut joined, '\n', line.as_str());
        at = at + 1;
    }
    assert(lines.take(lines.len() as int) =~= lines);
    string_of(&joined)
}

/// No user of the id is left in the list without them.
pub proof fn lemma_without_id(all: Seq<UserView>, id: Seq<char>)
    ensures
        !is_among(ids_of(without_id(all, id)), id),
    decreases all.len(),
{
    let left = without_id(all, id);
    if all.len() > 0 {
        lemma_without_id(all.skip(1), id);
        let rest = without_id(all.skip(1), id);
        lemma_first_index_is(ids_of(rest), id);
        lemma_first_index_is(ids_of(left), id);
        if all[0].id != id {
            assert(ids_of(left).skip(1) =~= ids_of(rest));
        }
    } else {
        assert(ids_of(left).len() == 0);
    }
}

/// After a deletion that succeeds, no user has the id.
pub proof fn law_deleted_is_gone(all: Seq<UserView>, id: Seq<char>)
    requires
        deleted(all, id).error is None,
    ensures
        !is_among(ids_of(deleted(all, id).list), id),
{
    lemma_without_id(all, id);
}

} // verus!
