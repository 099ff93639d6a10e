//! Email-code authentication: one-time codes, their checking, users and
//! sessions, held in memory; and the decisions that the database-backed
//! flow shares with it.
use hmac::Mac;
use vstd::hash_map::StringHashMap;
use vstd::prelude::*;

use crate::error::{config_error, Error};
use crate::text::{
    chars_of, concat, concat3, has_char, has_char_exec, join, join_strings, owned, split,
    split_chars, string_of, string_views, trim, trim_str,
};

verus! {

pub const CODE_TTL_SECONDS: i64 = 600;

pub const SESSION_TTL_SECONDS: i64 = 2592000;

/// How long a code is valid, in nanoseconds: ten minutes.
pub const CODE_TTL_NANOS: i64 = 600_000_000_000;

/// How long a session lasts, in nanoseconds: thirty days.
pub const SESSION_TTL_NANOS: i64 = 2_592_000_000_000_000;

pub const MAX_CODE_ATTEMPTS: i32 = 5;

pub const CODE_COOLDOWN_SECONDS: i64 = 60;

// ---------------------------------------------------------------------------
// Outside computations: lower-casing, HMAC-SHA256, hex, UUIDs, clock
// ---------------------------------------------------------------------------

/// What `str::to_lowercase` makes of a string (Unicode lower-case mapping).
pub uninterp spec fn lowercase(s: Seq<char>) -> Seq<char>;

/// Calls `str::to_lowercase`; the contract claims only that the result is
/// the function `lowercase` of the input.
#[verifier::external_body]
fn to_lowercase(s: &str) -> (r: String)
    ensures
        r@ == lowercase(s@),
{
    s.to_lowercase()
}

/// The HMAC-SHA256 tag of `message` under `key`.
pub uninterp spec fn hmac_sha256(key: Seq<u8>, message: Seq<u8>) -> Seq<u8>;

/// Computes HMAC-SHA256 with the `hmac` and `sha2` crates
/// (`Hmac::<Sha256>::new_from_slice`, `update`, `finalize`). HMAC accepts a
/// key of any length, so the key setup cannot fail. The contract claims only
/// that the tag is the function `hmac_sha256` of key and message.
#[verifier::external_body]
fn hmac_sha256_tag(key: &[u8], message: &[u8]) -> (r: Vec<u8>)
    ensures
        r@ == hmac_sha256(key@, message@),
{
    let mut mac = <hmac::Hmac<sha2::Sha256> as hmac::Mac>::new_from_slice(key).expect(
        "HMAC accepts any key",
    );
    mac.update(message);
    mac.finalize().into_bytes().to_vec()
}

/// The lower-case hexadecimal digit of a value below 16.
pub open spec fn hex_digit(n: int) -> char {
    if n < 10 {
        ((48 + n) as u8) as char
    } else {
        ((87 + n) as u8) as char
    }
}

/// Bytes in lower-case hexadecimal, two digits a byte, high nibble first.
pub open spec fn hex_of(bytes: Seq<u8>) -> Seq<char>
    decreases bytes.len(),
{
    if bytes.len() == 0 {
        Seq::<char>::empty()
    } else {
        hex_of(bytes.drop_last()) + seq![
            hex_digit(bytes.last() as int / 16),
            hex_digit(bytes.last() as int % 16),
        ]
    }
}

/// Calls `hex::encode`, which writes each byte as two lower-case
/// hexadecimal digits, high nibble first; the contract states exactly that.
#[verifier::external_body]
fn hex_encode(bytes: &[u8]) -> (r: String)
    ensures
        r@ == hex_of(bytes@),
{
    hex::encode(bytes)
}

/// The lowest `count` hexadecimal digits of `x`, most significant first.
pub open spec fn hex_digits(x: nat, count: nat) -> Seq<char>
    decreases count,
{
    if count == 0 {
        Seq::<char>::empty()
    } else {
        hex_digits(x / 16, (count - 1) as nat).push(hex_digit((x % 16) as int))
    }
}

/// The hyphenated lower-case text of a UUID given by its 128-bit value,
/// such as `67e55044-10b1-426f-9247-bb680e5fe0c8`.
pub open spec fn uuid_text(id: u128) -> Seq<char> {
    let h = hex_digits(id as nat, 32);
    h.subrange(0, 8) + seq!['-'] + h.subrange(8, 12) + seq!['-'] + h.subrange(12, 16) + seq!['-']
        + h.subrange(16, 20) + seq!['-'] + h.subrange(20, 32)
}

/// Calls `uuid::Uuid::from_u128` and formats the UUID with `to_string`,
/// which writes it hyphenated in lower case; the contract states exactly
/// that.
#[verifier::external_body]
pub(crate) fn uuid_string(id: u128) -> (r: String)
    ensures
        r@ == uuid_text(id),
{
    uuid::Uuid::from_u128(id).to_string()
}

/// Draws a random version-4 UUID with `uuid::Uuid::new_v4` and returns its
/// 128-bit value. Nothing is claimed of the value.
#[verifier::external_body]
pub(crate) fn random_uuid() -> u128 {
    uuid::Uuid::new_v4().as_u128()
}

/// Reads the clock with `chrono::Utc::now` and returns the Unix time in
/// nanoseconds with `timestamp_nanos_opt`, which is `None` past the year
/// 2262. Nothing is claimed of the value.
#[verifier::external_body]
pub(crate) fn clock_nanos() -> Option<i64> {
    chrono::Utc::now().timestamp_nanos_opt()
}

// ---------------------------------------------------------------------------
// Requests and responses
// ---------------------------------------------------------------------------

#[derive(Debug, Clone, Copy, PartialEq, Eq, Structural)]
pub enum AuthPurpose {
    Register,
    Login,
}

impl Default for AuthPurpose {
    fn default() -> (r: Self)
        ensures
            r == AuthPurpose::Register,
    {
        AuthPurpose::Register
    }
}

/// The name under which a purpose is stored.
pub open spec fn purpose_name_of(purpose: AuthPurpose) -> Seq<char> {
    match purpose {
        AuthPurpose::Register => "register"@,
        AuthPurpose::Login => "login"@,
    }
}

pub fn purpose_name(purpose: AuthPurpose) -> (r: &'static str)
    ensures
        r@ == purpose_name_of(purpose),
{
    match purpose {
        AuthPurpose::Register => "register",
        AuthPurpose::Login => "login",
    }
}

#[derive(Debug, Clone)]
pub struct CodeRequest {
    pub email: String,
    pub purpose: AuthPurpose,
    pub display_name: String,
}

#[derive(Debug, Clone)]
pub struct CodeVerification {
    pub email: String,
    pub code: String,
    pub purpose: AuthPurpose,
    pub display_name: String,
}

#[derive(Debug, Clone)]
pub struct CodeResponse {
    pub accepted: bool,
    pub message: String,
    pub expires_in_seconds: i64,
}

/// A user as shown to clients. `id` is the 128-bit value of a UUID and
/// `created_at` a Unix timestamp in nanoseconds.
#[derive(Debug, Clone)]
pub struct PublicUser {
    pub id: u128,
    pub email: String,
    pub display_name: String,
    pub created_at: i64,
}

#[derive(Debug, Clone)]
pub struct SessionResponse {
    pub authenticated: bool,
    pub user: Option<PublicUser>,
}

#[derive(Debug, Clone)]
pub struct AuthenticatedUser {
    pub user: PublicUser,
}

pub struct UserView {
    pub id: u128,
    pub email: Seq<char>,
    pub display_name: Seq<char>,
    pub created_at: i64,
}

impl View for PublicUser {
    type V = UserView;

    open spec fn view(&self) -> UserView {
        UserView {
            id: self.id,
            email: self.email@,
            display_name: self.display_name@,
            created_at: self.created_at,
        }
    }
}

fn copy_user(u: &PublicUser) -> (r: PublicUser)
    ensures
        r@ == u@,
{
    PublicUser {
        id: u.id,
        email: u.email.clone(),
        display_name: u.display_name.clone(),
        created_at: u.created_at,
    }
}

// ---------------------------------------------------------------------------
// Normalizing what users type
// ---------------------------------------------------------------------------

pub const INVALID_EMAIL: &'static str = "请输入有效的邮箱地址";

/// The normalized form of an email address, or `None` where it is not one:
/// the trimmed, lower-cased text, whose UTF-8 encoding is 5 to 254 bytes
/// long, which holds an `@`, and whose part after the last `@` holds a `.`.
pub open spec fn email_of(value: Seq<char>) -> Option<Seq<char>> {
    email_check(lowercase(trim(value)))
}

/// A trimmed, lower-cased address if it is one (see `email_of`).
pub open spec fn email_check(e: Seq<char>) -> Option<Seq<char>> {
    let bytes = vstd::utf8::encode_utf8(e).len();
    if 5 <= bytes && bytes <= 254 && has_char(e, '@') && has_char(split(e, '@').last(), '.') {
        Some(e)
    } else {
        None
    }
}

pub fn normalize_email(value: &str) -> (r: Result<String, Error>)
    ensures
        match email_of(value@) {
            Some(e) => r matches Ok(s) && s@ == e,
            None => r matches Err(Error::Config(m)) && m@ == INVALID_EMAIL@,
        },
{
    let trimmed = string_of(trim_str(value).as_slice());
    check_email(to_lowercase(trimmed.as_str()))
}

/// Accepts a trimmed, lower-cased text that is an email address.
pub fn check_email(email: String) -> (r: Result<String, Error>)
    ensures
        match email_check(email@) {
            Some(e) => r matches Ok(s) && s@ == e,
            None => r matches Err(Error::Config(m)) && m@ == INVALID_EMAIL@,
        },
{
    let bytes = email.as_str().as_bytes().len();
    let chars = chars_of(email.as_str());
    let pieces = split_chars(&chars, '@');
    proof {
        crate::text::lemma_split_nonempty(chars@, '@');
    }
    let last = &pieces[pieces.len() - 1];
    let valid = 5 <= bytes && bytes <= 254 && has_char_exec(&chars, '@') && has_char_exec(
        last,
        '.',
    );
    proof {
        assert(crate::text::views(pieces@).last() == last@);
    }
    if !valid {
        return Err(config_error(INVALID_EMAIL));
    }
    Ok(email)
}

/// The display name to record: the trimmed input cut to 40 characters, or,
/// where that is empty, the part of the email address before the first `@`.
pub open spec fn display_name_of(value: Seq<char>, email: Seq<char>) -> Seq<char> {
    let t = trim(value);
    if t.len() > 0 {
        if t.len() <= 40 {
            t
        } else {
            t.take(40)
        }
    } else {
        split(email, '@')[0]
    }
}

pub fn normalize_display_name(value: &str, email: &str) -> (r: String)
    ensures
        r@ == display_name_of(value@, email@),
{
    let t = trim_str(value);
    if t.len() > 0 {
        if t.len() <= 40 {
            string_of(t.as_slice())
        } else {
            let mut cut: Vec<char> = Vec::new();
            for i in 0..40
                invariant
                    t@.len() > 40,
                    cut@ == t@.take(i as int),
            {
                cut.push(t[i]);
                proof {
                    assert(t@.take(i + 1) =~= t@.take(i as int).push(t@[i as int]));
                }
            }
            string_of(cut.as_slice())
        }
    } else {
        let chars = chars_of(email);
        let pieces = split_chars(&chars, '@');
        proof {
            crate::text::lemma_split_nonempty(chars@, '@');
            assert(crate::text::views(pieces@)[0] == pieces@[0]@);
        }
        string_of(pieces[0].as_slice())
    }
}

/// The six-digit text of a number below one million, with leading zeros.
pub open spec fn code_text(n: int) -> Seq<char> {
    seq![
        ((48 + (n / 100000) % 10) as u8) as char,
        ((48 + (n / 10000) % 10) as u8) as char,
        ((48 + (n / 1000) % 10) as u8) as char,
        ((48 + (n / 100) % 10) as u8) as char,
        ((48 + (n / 10) % 10) as u8) as char,
        ((48 + n % 10) as u8) as char,
    ]
}

/// The one-time code derived from a random 128-bit value: the value modulo
/// one million, written with six digits.
pub open spec fn code_from(random: u128) -> Seq<char> {
    code_text((random % 1000000) as int)
}

/// A one-time code is six decimal digits.
pub proof fn law_codes_are_six_digits(random: u128)
    ensures
        code_from(random).len() == 6,
        forall|i: int| 0 <= i < 6 ==> '0' <= #[trigger] code_from(random)[i] <= '9',
{
    let n = (random % 1000000) as int;
    assert(0 <= (n / 100000) % 10 < 10);
    assert(0 <= (n / 10000) % 10 < 10);
    assert(0 <= (n / 1000) % 10 < 10);
    assert(0 <= (n / 100) % 10 < 10);
    assert(0 <= (n / 10) % 10 < 10);
    assert(0 <= n % 10 < 10);
}

pub fn generate_code(random: u128) -> (r: String)
    ensures
        r@ == code_from(random),
{
    let n = (random % 1000000) as u32;
    let digits = vec![
        (48u8 + ((n / 100000) % 10) as u8) as char,
        (48u8 + ((n / 10000) % 10) as u8) as char,
        (48u8 + ((n / 1000) % 10) as u8) as char,
        (48u8 + ((n / 100) % 10) as u8) as char,
        (48u8 + ((n / 10) % 10) as u8) as char,
        (48u8 + (n % 10) as u8) as char,
    ];
    assert(digits@ =~= code_from(random));
    string_of(digits.as_slice())
}

/// The stored hash of a one-time code: the hex HMAC-SHA256, keyed by the
/// session secret, of `code:{email}:{code}`.
pub open spec fn code_hash_of(secret: Seq<char>, email: Seq<char>, code: Seq<char>) -> Seq<char> {
    hex_of(
        hmac_sha256(
            vstd::utf8::encode_utf8(secret),
            vstd::utf8::encode_utf8("code:"@ + email + ":"@ + code),
        ),
    )
}

/// The stored hash of a session token: the hex HMAC-SHA256, keyed by the
/// session secret, of `session:{token}`.
pub open spec fn session_hash_of(secret: Seq<char>, token: Seq<char>) -> Seq<char> {
    hex_of(
        hmac_sha256(
            vstd::utf8::encode_utf8(secret),
            vstd::utf8::encode_utf8("session:"@ + token),
        ),
    )
}

pub fn hash_code(secret: &str, email: &str, code: &str) -> (r: String)
    ensures
        r@ == code_hash_of(secret@, email@, code@),
{
    let message = concat(concat3("code:", email, ":").as_str(), code);
    let tag = hmac_sha256_tag(secret.as_bytes(), message.as_str().as_bytes());
    hex_encode(tag.as_slice())
}

pub fn hash_session_token(secret: &str, token: &str) -> (r: String)
    ensures
        r@ == session_hash_of(secret@, token@),
{
    let message = concat("session:", token);
    let tag = hmac_sha256_tag(secret.as_bytes(), message.as_str().as_bytes());
    hex_encode(tag.as_slice())
}

// ---------------------------------------------------------------------------
// Judging a presented code
// ---------------------------------------------------------------------------

/// The outcome of checking a presented code against a pending challenge.
#[derive(Debug, Clone, Copy, PartialEq, Eq, Structural)]
pub enum ChallengeVerdict {
    /// The challenge has expired; it is to be consumed.
    Expired,
    /// The challenge had no attempts left; it is to be consumed.
    Exhausted,
    /// The code is wrong; `attempts` is the new count of attempts, and the
    /// challenge is to be consumed when `exhausted`.
    Wrong { attempts: i32, exhausted: bool },
    /// The code is right; the challenge is to be consumed.
    Accepted,
}

pub open spec fn verdict_of(
    expires_at: i64,
    attempts: i32,
    stored_hash: Seq<char>,
    presented_hash: Seq<char>,
    now: i64,
) -> ChallengeVerdict {
    if expires_at < now {
        ChallengeVerdict::Expired
    } else if attempts >= MAX_CODE_ATTEMPTS {
        ChallengeVerdict::Exhausted
    } else if stored_hash != presented_hash {
        ChallengeVerdict::Wrong {
            attempts: (attempts + 1) as i32,
            exhausted: attempts + 1 >= MAX_CODE_ATTEMPTS,
        }
    } else {
        ChallengeVerdict::Accepted
    }
}

pub fn judge_challenge(
    expires_at: i64,
    attempts: i32,
    stored_hash: &str,
    presented_hash: &str,
    now: i64,
) -> (v: ChallengeVerdict)
    ensures
        v == verdict_of(expires_at, attempts, stored_hash@, presented_hash@, now),
{
    if expires_at < now {
        return ChallengeVerdict::Expired;
    }
    if attempts >= MAX_CODE_ATTEMPTS {
        return ChallengeVerdict::Exhausted;
    }
    let next = attempts + 1;
    if !crate::text::str_equal(stored_hash, presented_hash) {
        return ChallengeVerdict::Wrong { attempts: next, exhausted: next >= MAX_CODE_ATTEMPTS };
    }
    ChallengeVerdict::Accepted
}

pub const CODE_EXPIRED: &'static str = "验证码已过期，请重新发送";

pub const TOO_MANY_ATTEMPTS: &'static str = "验证码尝试次数过多，请重新发送";

pub const WRONG_CODE: &'static str = "验证码不正确";

pub const NO_PENDING_CODE: &'static str = "验证码不存在或已失效，请重新发送";

pub const ALREADY_REGISTERED: &'static str = "该邮箱已经注册，请切换到登录或使用其他邮箱";

pub const NOT_REGISTERED: &'static str = "该邮箱尚未注册，请先完成注册";

pub const UNKNOWN_USER: &'static str = "用户不存在，请先注册";

pub const CODE_SENT: &'static str = "验证码已发送，请检查邮箱";

/// The message of the error that a verdict gives, if any.
pub open spec fn verdict_message(v: ChallengeVerdict) -> Option<Seq<char>> {
    match v {
        ChallengeVerdict::Expired => Some(CODE_EXPIRED@),
        ChallengeVerdict::Exhausted => Some(TOO_MANY_ATTEMPTS@),
        ChallengeVerdict::Wrong { exhausted, .. } => if exhausted {
            Some(TOO_MANY_ATTEMPTS@)
        } else {
            Some(WRONG_CODE@)
        },
        ChallengeVerdict::Accepted => None,
    }
}

pub fn verdict_error(v: ChallengeVerdict) -> (r: Option<Error>)
    ensures
        match verdict_message(v) {
            Some(m) => r matches Some(Error::Config(t)) && t@ == m,
            None => r is None,
        },
{
    match v {
        ChallengeVerdict::Expired => Some(config_error(CODE_EXPIRED)),
        ChallengeVerdict::Exhausted => Some(config_error(TOO_MANY_ATTEMPTS)),
        ChallengeVerdict::Wrong { exhausted, .. } => if exhausted {
            Some(config_error(TOO_MANY_ATTEMPTS))
        } else {
            Some(config_error(WRONG_CODE))
        },
        ChallengeVerdict::Accepted => None,
    }
}

/// What judging a presented code does to the stored challenge.
#[derive(Debug, Clone, Copy, PartialEq, Eq, Structural)]
pub enum ChallengeUpdate {
    /// The challenge is consumed.
    Consume,
    /// The challenge's count of attempts becomes `attempts`, and it is
    /// consumed when `consume` holds.
    Count { attempts: i32, consume: bool },
}

/// The change to the stored challenge that a verdict calls for: a wrong
/// code raises the count of attempts and consumes the challenge with the
/// last attempt; every other verdict consumes it.
pub fn challenge_update(v: ChallengeVerdict) -> (r: ChallengeUpdate)
    ensures
        r == match v {
            ChallengeVerdict::Wrong { attempts, exhausted } => ChallengeUpdate::Count {
                attempts,
                consume: exhausted,
            },
            _ => ChallengeUpdate::Consume,
        },
{
    match v {
        ChallengeVerdict::Wrong { attempts, exhausted } => ChallengeUpdate::Count {
            attempts,
            consume: exhausted,
        },
        _ => ChallengeUpdate::Consume,
    }
}

/// The refusal, if any, of a code request whose address is `registered` or
/// not, when the store of users cannot say whether a login is possible: a
/// registration for a registered address is refused.
pub fn registration_conflict(purpose: AuthPurpose, registered: bool) -> (r: Result<(), Error>)
    ensures
        match r {
            Ok(()) => !(purpose == AuthPurpose::Register && registered),
            Err(e) => e matches Error::Config(m) && m@ == ALREADY_REGISTERED@ && purpose
                == AuthPurpose::Register && registered,
        },
{
    if purpose == AuthPurpose::Register && registered {
        return Err(config_error(ALREADY_REGISTERED));
    }
    Ok(())
}

/// The display name of a user created by a verified registration: the one
/// typed at verification if it is not blank, else the one recorded with the
/// challenge.
pub open spec fn registered_name_of(typed: Seq<char>, recorded: Seq<char>, email: Seq<char>) -> Seq<
    char,
> {
    if trim(typed).len() == 0 {
        recorded
    } else {
        display_name_of(typed, email)
    }
}

pub fn registered_display_name(typed: &str, recorded: &str, email: &str) -> (r: String)
    ensures
        r@ == registered_name_of(typed@, recorded@, email@),
{
    if crate::text::is_blank(typed) {
        owned(recorded)
    } else {
        normalize_display_name(typed, email)
    }
}

// ---------------------------------------------------------------------------
// The in-memory store
// ---------------------------------------------------------------------------

/// A code waiting to be verified, by its hash; `expires_at` is a Unix
/// timestamp in nanoseconds.
#[derive(Debug, Clone)]
pub struct PendingCode {
    pub code_hash: String,
    pub purpose: AuthPurpose,
    pub display_name: String,
    pub expires_at: i64,
    pub attempts: i32,
}

pub struct PendingView {
    pub code_hash: Seq<char>,
    pub purpose: AuthPurpose,
    pub display_name: Seq<char>,
    pub expires_at: i64,
    pub attempts: i32,
}

impl View for PendingCode {
    type V = PendingView;

    open spec fn view(&self) -> PendingView {
        PendingView {
            code_hash: self.code_hash@,
            purpose: self.purpose,
            display_name: self.display_name@,
            expires_at: self.expires_at,
            attempts: self.attempts,
        }
    }
}

/// A session: whose it is and until when it lasts (a Unix timestamp in
/// nanoseconds).
#[derive(Debug, Clone, Copy, PartialEq, Eq, Structural)]
pub struct Session {
    pub user_id: u128,
    pub expires_at: i64,
}

/// The content of the store: users in the order they were first
/// registered, pending codes by email address, sessions by token, the last
/// code sent, and the secret that keys the hashes.
#[verifier::ext_equal]
pub struct AuthView {
    pub users: Seq<UserView>,
    pub pending: Map<Seq<char>, PendingView>,
    pub sessions: Map<Seq<char>, Session>,
    pub last_code: Option<Seq<char>>,
    pub secret: Seq<char>,
}

/// The in-memory authentication store. Codes are not mailed: the last code
/// sent is kept and can be read with `test_last_code`.
pub struct AuthState {
    users: Vec<PublicUser>,
    pending_codes: StringHashMap<PendingCode>,
    sessions: StringHashMap<Session>,
    secret: String,
    last_code: Option<String>,
}

pub open spec fn user_views(users: Seq<PublicUser>) -> Seq<UserView> {
    users.map_values(|u: PublicUser| u@)
}

pub open spec fn pending_views(m: Map<Seq<char>, PendingCode>) -> Map<Seq<char>, PendingView> {
    m.map_values(|p: PendingCode| p@)
}

impl View for AuthState {
    type V = AuthView;

    closed spec fn view(&self) -> AuthView {
        AuthView {
            users: user_views(self.users@),
            pending: pending_views(self.pending_codes@),
            sessions: self.sessions@,
            last_code: match self.last_code {
                Some(c) => Some(c@),
                None => None,
            },
            secret: self.secret@,
        }
    }
}

/// The index of the first user with the given email address, or -1.
pub open spec fn email_index(users: Seq<UserView>, email: Seq<char>) -> int
    decreases users.len(),
{
    if users.len() == 0 {
        -1
    } else {
        let p = email_index(users.drop_last(), email);
        if p >= 0 {
            p
        } else if users.last().email == email {
            users.len() - 1
        } else {
            -1
        }
    }
}

/// The index of the first user with the given id, or -1.
pub open spec fn id_index(users: Seq<UserView>, id: u128) -> int
    decreases users.len(),
{
    if users.len() == 0 {
        -1
    } else {
        let p = id_index(users.drop_last(), id);
        if p >= 0 {
            p
        } else if users.last().id == id {
            users.len() - 1
        } else {
            -1
        }
    }
}

pub proof fn lemma_email_index(users: Seq<UserView>, email: Seq<char>)
    ensures
        -1 <= email_index(users, email) < users.len(),
        email_index(users, email) >= 0 ==> users[email_index(users, email)].email == email,
        email_index(users, email) == -1 ==> forall|i: int|
            0 <= i < users.len() ==> #[trigger] users[i].email != email,
    decreases users.len(),
{
    if users.len() > 0 {
        lemma_email_index(users.drop_last(), email);
        if email_index(users, email) == -1 {
            assert forall|i: int| 0 <= i < users.len() implies #[trigger] users[i].email
                != email by {
                if i < users.len() - 1 {
                    assert(users[i] == users.drop_last()[i]);
                }
            }
        }
    }
}

pub proof fn lemma_id_index(users: Seq<UserView>, id: u128)
    ensures
        -1 <= id_index(users, id) < users.len(),
        id_index(users, id) >= 0 ==> users[id_index(users, id)].id == id,
        id_index(users, id) == -1 ==> forall|i: int|
            0 <= i < users.len() ==> #[trigger] users[i].id != id,
    decreases users.len(),
{
    if users.len() > 0 {
        lemma_id_index(users.drop_last(), id);
        if id_index(users, id) == -1 {
            assert forall|i: int| 0 <= i < users.len() implies #[trigger] users[i].id != id by {
                if i < users.len() - 1 {
                    assert(users[i] == users.drop_last()[i]);
                }
            }
        }
    }
}

/// `users` with `u` recorded under its email address: replacing the first
/// user with that address, else added at the end.
pub open spec fn put_user(users: Seq<UserView>, u: UserView) -> Seq<UserView> {
    let i = email_index(users, u.email);
    if i >= 0 {
        users.update(i, u)
    } else {
        users.push(u)
    }
}

pub struct RequestView {
    pub email: Seq<char>,
    pub purpose: AuthPurpose,
    pub display_name: Seq<char>,
}

impl View for CodeRequest {
    type V = RequestView;

    open spec fn view(&self) -> RequestView {
        RequestView {
            email: self.email@,
            purpose: self.purpose,
            display_name: self.display_name@,
        }
    }
}

pub struct VerificationView {
    pub email: Seq<char>,
    pub code: Seq<char>,
    pub purpose: AuthPurpose,
    pub display_name: Seq<char>,
}

impl View for CodeVerification {
    type V = VerificationView;

    open spec fn view(&self) -> VerificationView {
        VerificationView {
            email: self.email@,
            code: self.code@,
            purpose: self.purpose,
            display_name: self.display_name@,
        }
    }
}

/// A code request at time `now`, with the code drawn from `random`: the new
/// content of the store, and the message of the error if it is refused.
/// The address must be valid; a registration needs an unregistered address
/// and a login a registered one. The code replaces any pending one for the
/// address, lasts ten minutes, and starts with no attempts.
pub open spec fn request_step(s: AuthView, req: RequestView, now: i64, random: u128) -> (
    AuthView,
    Option<Seq<char>>,
) {
    match email_of(req.email) {
        None => (s, Some(INVALID_EMAIL@)),
        Some(e) => {
            let known = email_index(s.users, e) >= 0;
            if req.purpose == AuthPurpose::Register && known {
                (s, Some(ALREADY_REGISTERED@))
            } else if req.purpose == AuthPurpose::Login && !known {
                (s, Some(NOT_REGISTERED@))
            } else {
                let code = code_from(random);
                let pending = PendingView {
                    code_hash: code_hash_of(s.secret, e, code),
                    purpose: req.purpose,
                    display_name: display_name_of(req.display_name, e),
                    expires_at: (now + CODE_TTL_NANOS) as i64,
                    attempts: 0,
                };
                (
                    AuthView {
                        users: s.users,
                        pending: s.pending.insert(e, pending),
                        sessions: s.sessions,
                        last_code: Some(code),
                        secret: s.secret,
                    },
                    None,
                )
            }
        },
    }
}

/// `s` with the pending code of `e` removed.
pub open spec fn without_pending(s: AuthView, e: Seq<char>) -> AuthView {
    AuthView {
        users: s.users,
        pending: s.pending.remove(e),
        sessions: s.sessions,
        last_code: s.last_code,
        secret: s.secret,
    }
}

/// A code verification at time `now`; a new user gets the id `user_id` and
/// the new session the token `uuid_text(session_id)`. The result is the new
/// content of the store and either the user and token or the message of the
/// error. An expired code, or one with no attempts left, is consumed; a
/// wrong code costs an attempt and is consumed with the last one; a right
/// code is consumed and opens a session of thirty days for the user it
/// registers or logs in.
pub open spec fn verify_step(
    s: AuthView,
    req: VerificationView,
    now: i64,
    user_id: u128,
    session_id: u128,
) -> (AuthView, Result<(UserView, Seq<char>), Seq<char>>) {
    match email_of(req.email) {
        None => (s, Err(INVALID_EMAIL@)),
        Some(e) => if !s.pending.contains_key(e) {
            (s, Err(NO_PENDING_CODE@))
        } else {
            let p = s.pending[e];
            match verdict_of(
                p.expires_at,
                p.attempts,
                p.code_hash,
                code_hash_of(s.secret, e, req.code),
                now,
            ) {
                ChallengeVerdict::Expired => (without_pending(s, e), Err(CODE_EXPIRED@)),
                ChallengeVerdict::Exhausted => (without_pending(s, e), Err(TOO_MANY_ATTEMPTS@)),
                ChallengeVerdict::Wrong { attempts, exhausted } => if exhausted {
                    (without_pending(s, e), Err(TOO_MANY_ATTEMPTS@))
                } else {
                    (
                        AuthView {
                            users: s.users,
                            pending: s.pending.insert(
                                e,
                                PendingView {
                                    code_hash: p.code_hash,
                                    purpose: p.purpose,
                                    display_name: p.display_name,
                                    expires_at: p.expires_at,
                                    attempts: attempts,
                                },
                            ),
                            sessions: s.sessions,
                            last_code: s.last_code,
                            secret: s.secret,
                        },
                        Err(WRONG_CODE@),
                    )
                },
                ChallengeVerdict::Accepted => {
                    let s1 = without_pending(s, e);
                    let token = uuid_text(session_id);
                    let expires = (now + SESSION_TTL_NANOS) as i64;
                    match p.purpose {
                        AuthPurpose::Register => {
                            let u = UserView {
                                id: user_id,
                                email: e,
                                display_name: registered_name_of(
                                    req.display_name,
                                    p.display_name,
                                    e,
                                ),
                                created_at: now,
                            };
                            (
                                AuthView {
                                    users: put_user(s1.users, u),
                                    pending: s1.pending,
                                    sessions: s1.sessions.insert(
                                        token,
                                        Session { user_id: user_id, expires_at: expires },
                                    ),
                                    last_code: s1.last_code,
                                    secret: s1.secret,
                                },
                                Ok((u, token)),
                            )
                        },
                        AuthPurpose::Login => {
                            let i = email_index(s1.users, e);
                            if i < 0 {
                                (s1, Err(UNKNOWN_USER@))
                            } else {
                                let u = s1.users[i];
                                (
                                    AuthView {
                                        users: s1.users,
                                        pending: s1.pending,
                                        sessions: s1.sessions.insert(
                                            token,
                                            Session { user_id: u.id, expires_at: expires },
                                        ),
                                        last_code: s1.last_code,
                                        secret: s1.secret,
                                    },
                                    Ok((u, token)),
                                )
                            }
                        },
                    }
                },
            }
        },
    }
}

/// The user of the session `token` at time `now`, and the store after the
/// lookup: an expired session is dropped.
pub open spec fn session_step(s: AuthView, token: Option<Seq<char>>, now: i64) -> (
    AuthView,
    Option<UserView>,
) {
    match token {
        None => (s, None),
        Some(t) => if !s.sessions.contains_key(t) {
            (s, None)
        } else if s.sessions[t].expires_at < now {
            (
                AuthView {
                    users: s.users,
                    pending: s.pending,
                    sessions: s.sessions.remove(t),
                    last_code: s.last_code,
                    secret: s.secret,
                },
                None,
            )
        } else {
            let i = id_index(s.users, s.sessions[t].user_id);
            if i >= 0 {
                (s, Some(s.users[i]))
            } else {
                (s, None)
            }
        },
    }
}

/// The store after logging out of the session `token`.
pub open spec fn logout_step(s: AuthView, token: Option<Seq<char>>) -> AuthView {
    match token {
        None => s,
        Some(t) => AuthView {
            users: s.users,
            pending: s.pending,
            sessions: s.sessions.remove(t),
            last_code: s.last_code,
            secret: s.secret,
        },
    }
}

/// The text of an optional token.
pub open spec fn token_view(t: Option<&str>) -> Option<Seq<char>> {
    match t {
        Some(t) => Some(t@),
        None => None,
    }
}

pub const TEST_SESSION: &'static str = "test-session";

/// The store after the test operator, with the id `user_id`, is recorded
/// and the session `test-session` opened for it at time `now`, lasting
/// thirty days.
pub open spec fn test_session_step(s: AuthView, user_id: u128, now: i64) -> AuthView {
    AuthView {
        users: put_user(
            s.users,
            UserView {
                id: user_id,
                email: "test@example.com"@,
                display_name: "Test Operator"@,
                created_at: now,
            },
        ),
        sessions: s.sessions.insert(
            TEST_SESSION@,
            Session { user_id, expires_at: (now + SESSION_TTL_NANOS) as i64 },
        ),
        ..s
    }
}

impl AuthState {
    /// An empty store whose hashes are keyed by `secret`.
    pub fn with_secret(secret: String) -> (r: AuthState)
        ensures
            r@.users.len() == 0,
            r@.pending == Map::<Seq<char>, PendingView>::empty(),
            r@.sessions == Map::<Seq<char>, Session>::empty(),
            r@.last_code is None,
            r@.secret == secret@,
    {
        let r = AuthState {
            users: Vec::new(),
            pending_codes: StringHashMap::new(),
            sessions: StringHashMap::new(),
            secret,
            last_code: None,
        };
        assert(r@.pending =~= Map::<Seq<char>, PendingView>::empty());
        r
    }

    fn find_email(&self, email: &String) -> (r: Option<usize>)
        ensures
            match r {
                Some(i) => i < self.users@.len() && email_index(self@.users, email@) == i,
                None => email_index(self@.users, email@) == -1,
            },
    {
        let n = self.users.len();
        let ghost us = self@.users;
        for i in 0..n
            invariant
                n == self.users@.len(),
                us == user_views(self.users@),
                email_index(us.take(i as int), email@) == -1,
        {
            proof {
                assert(us.take(i + 1).drop_last() =~= us.take(i as int));
            }
            if self.users[i].email == *email {
                proof {
                    lemma_first_email(us, email@, i as int);
                }
                return Some(i);
            }
        }
        proof {
            assert(us.take(n as int) =~= us);
        }
        None
    }

    fn find_id(&self, id: u128) -> (r: Option<usize>)
        ensures
            match r {
                Some(i) => i < self.users@.len() && id_index(self@.users, id) == i,
                None => id_index(self@.users, id) == -1,
            },
    {
        let n = self.users.len();
        let ghost us = self@.users;
        for i in 0..n
            invariant
                n == self.users@.len(),
                us == user_views(self.users@),
                id_index(us.take(i as int), id) == -1,
        {
            proof {
                assert(us.take(i + 1).drop_last() =~= us.take(i as int));
            }
            if self.users[i].id == id {
                proof {
                    lemma_first_id(us, id, i as int);
                }
                return Some(i);
            }
        }
        proof {
            assert(us.take(n as int) =~= us);
        }
        None
    }

    fn put_user(&mut self, user: PublicUser)
        ensures
            final(self)@ == (AuthView { users: put_user(old(self)@.users, user@), ..old(self)@ }),
    {
        match self.find_email(&user.email) {
            Some(i) => {
                let ghost u = user@;
                self.users.set(i, user);
                proof {
                    assert(user_views(self.users@) =~= put_user(old(self)@.users, u));
                }
            },
            None => {
                let ghost u = user@;
                self.users.push(user);
                proof {
                    assert(user_views(self.users@) =~= put_user(old(self)@.users, u));
                }
            },
        }
        proof {
            assert(self@ =~= (AuthView { users: put_user(old(self)@.users, user@), ..old(self)@ }));
        }
    }

    /// Requests a code at time `now`, drawing it from `random`.
    pub fn request_code_at(&mut self, request: &CodeRequest, now: i64, random: u128) -> (r: Result<
        CodeResponse,
        Error,
    >)
        requires
            now <= i64::MAX - CODE_TTL_NANOS,
        ensures
            final(self)@ == request_step(old(self)@, request@, now, random).0,
            match request_step(old(self)@, request@, now, random).1 {
                None => r matches Ok(resp) && resp.accepted && resp.message@ == CODE_SENT@
                    && resp.expires_in_seconds == CODE_TTL_SECONDS,
                Some(m) => r matches Err(Error::Config(t)) && t@ == m,
            },
    {
        let email = normalize_email(request.email.as_str())?;
        let display_name = normalize_display_name(request.display_name.as_str(), email.as_str());
        let known = self.find_email(&email).is_some();
        if request.purpose == AuthPurpose::Register && known {
            return Err(config_error(ALREADY_REGISTERED));
        }
        if request.purpose == AuthPurpose::Login && !known {
            return Err(config_error(NOT_REGISTERED));
        }
        let code = generate_code(random);
        let code_hash = hash_code(self.secret.as_str(), email.as_str(), code.as_str());
        let pending = PendingCode {
            code_hash,
            purpose: request.purpose,
            display_name,
            expires_at: now + CODE_TTL_NANOS,
            attempts: 0,
        };
        let ghost pv = pending@;
        self.pending_codes.insert(email, pending);
        self.last_code = Some(code);
        proof {
            assert(pending_views(self.pending_codes@) =~= pending_views(
                old(self).pending_codes@,
            ).insert(email_of(request@.email).unwrap(), pv));
            assert(self@ =~= request_step(old(self)@, request@, now, random).0);
        }
        Ok(
            CodeResponse {
                accepted: true,
                message: owned(CODE_SENT),
                expires_in_seconds: CODE_TTL_SECONDS,
            },
        )
    }

    /// Requests a code now, with a fresh random code. Where the clock reads a
    /// time too late to compute an expiry, the request fails and the store is
    /// unchanged.
    pub fn request_code(&mut self, request: &CodeRequest) -> (r: Result<CodeResponse, Error>)
        ensures
            (r matches Err(Error::Internal(_)) && final(self)@ == old(self)@) || exists|
                now: i64,
                random: u128,
            |
                now <= i64::MAX - CODE_TTL_NANOS && final(self)@ == request_step(
                    old(self)@,
                    request@,
                    now,
                    random,
                ).0 && match request_step(old(self)@, request@, now, random).1 {
                    None => r matches Ok(resp) && resp.accepted,
                    Some(m) => r matches Err(Error::Config(t)) && t@ == m,
                },
    {
        let now = match clock_nanos() {
            Some(t) => t,
            None => return Err(Error::Internal(owned("clock out of range"))),
        };
        if now > i64::MAX - CODE_TTL_NANOS {
            return Err(Error::Internal(owned("clock out of range")));
        }
        let random = random_uuid();
        self.request_code_at(request, now, random)
    }

    fn remove_pending(&mut self, email: &String)
        ensures
            final(self)@ == without_pending(old(self)@, email@),
    {
        self.pending_codes.remove(email.as_str());
        proof {
            assert(pending_views(self.pending_codes@) =~= pending_views(
                old(self).pending_codes@,
            ).remove(email@));
            assert(self@ =~= without_pending(old(self)@, email@));
        }
    }

    /// Verifies a code at time `now`; a new user gets the id `user_id` and
    /// the new session the token that `session_id` writes as a UUID.
    pub fn verify_code_at(
        &mut self,
        request: &CodeVerification,
        now: i64,
        user_id: u128,
        session_id: u128,
    ) -> (r: Result<(PublicUser, String), Error>)
        requires
            now <= i64::MAX - SESSION_TTL_NANOS,
        ensures
            final(self)@ == verify_step(old(self)@, request@, now, user_id, session_id).0,
            match verify_step(old(self)@, request@, now, user_id, session_id).1 {
                Ok((u, token)) => r matches Ok((user, t)) && user@ == u && t@ == token,
                Err(m) => r matches Err(Error::Config(t)) && t@ == m,
            },
            r is Ok ==> final(self)@.sessions.contains_key(r->Ok_0.1@)
                && final(self)@.sessions[r->Ok_0.1@] == (Session {
                user_id: r->Ok_0.0.id,
                expires_at: (now + SESSION_TTL_NANOS) as i64,
            }),
    {
        let email = normalize_email(request.email.as_str())?;
        let presented = hash_code(self.secret.as_str(), email.as_str(), request.code.as_str());
        let pending = match self.pending_codes.get(email.as_str()) {
            Some(p) => PendingCode {
                code_hash: p.code_hash.clone(),
                purpose: p.purpose,
                display_name: p.display_name.clone(),
                expires_at: p.expires_at,
                attempts: p.attempts,
            },
            None => return Err(config_error(NO_PENDING_CODE)),
        };
        proof {
            assert(pending_views(old(self).pending_codes@)[email@] == pending@);
        }
        let verdict = judge_challenge(
            pending.expires_at,
            pending.attempts,
            pending.code_hash.as_str(),
            presented.as_str(),
            now,
        );
        match verdict {
            ChallengeVerdict::Expired => {
                self.remove_pending(&email);
                return Err(config_error(CODE_EXPIRED));
            },
            ChallengeVerdict::Exhausted => {
                self.remove_pending(&email);
                return Err(config_error(TOO_MANY_ATTEMPTS));
            },
            ChallengeVerdict::Wrong { attempts, exhausted } => {
                if exhausted {
                    self.remove_pending(&email);
                    return Err(config_error(TOO_MANY_ATTEMPTS));
                }
                let updated = PendingCode {
                    code_hash: pending.code_hash,
                    purpose: pending.purpose,
                    display_name: pending.display_name,
                    expires_at: pending.expires_at,
                    attempts,
                };
                let ghost uv = updated@;
                self.pending_codes.insert(email, updated);
                proof {
                    assert(pending_views(self.pending_codes@) =~= pending_views(
                        old(self).pending_codes@,
                    ).insert(email_of(request@.email).unwrap(), uv));
                    assert(self@ =~= verify_step(old(self)@, request@, now, user_id, session_id).0);
                }
                return Err(config_error(WRONG_CODE));
            },
            ChallengeVerdict::Accepted => {},
        }
        self.remove_pending(&email);
        let token = uuid_string(session_id);
        let expires_at = now + SESSION_TTL_NANOS;
        let user = match pending.purpose {
            AuthPurpose::Register => {
                let display_name = registered_display_name(
                    request.display_name.as_str(),
                    pending.display_name.as_str(),
                    email.as_str(),
                );
                let user = PublicUser { id: user_id, email, display_name, created_at: now };
                self.put_user(copy_user(&user));
                user
            },
            AuthPurpose::Login => match self.find_email(&email) {
                Some(i) => copy_user(&self.users[i]),
                None => return Err(config_error(UNKNOWN_USER)),
            },
        };
        let ghost before = self@;
        self.sessions.insert(token.clone(), Session { user_id: user.id, expires_at });
        proof {
            assert(self@ =~= AuthView {
                sessions: before.sessions.insert(
                    token@,
                    Session { user_id: user.id, expires_at },
                ),
                ..before
            });
            assert(self@ =~= verify_step(old(self)@, request@, now, user_id, session_id).0);
        }
        Ok((user, token))
    }

    /// Verifies a code now, with a fresh user id and session token. Where
    /// the clock reads a time too late to compute an expiry, the verification
    /// fails and the store is unchanged.
    pub fn verify_code(&mut self, request: &CodeVerification) -> (r: Result<(PublicUser, String), Error>)
        ensures
            (r matches Err(Error::Internal(_)) && final(self)@ == old(self)@) || exists|
                now: i64,
                user_id: u128,
                session_id: u128,
            |
                now <= i64::MAX - SESSION_TTL_NANOS && final(self)@ == verify_step(
                    old(self)@,
                    request@,
                    now,
                    user_id,
                    session_id,
                ).0 && match verify_step(old(self)@, request@, now, user_id, session_id).1 {
                    Ok((u, token)) => r matches Ok((user, t)) && user@ == u && t@ == token,
                    Err(m) => r matches Err(Error::Config(t)) && t@ == m,
                },
    {
        let now = match clock_nanos() {
            Some(t) => t,
            None => return Err(Error::Internal(owned("clock out of range"))),
        };
        if now > i64::MAX - SESSION_TTL_NANOS {
            return Err(Error::Internal(owned("clock out of range")));
        }
        let user_id = random_uuid();
        let session_id = random_uuid();
        self.verify_code_at(request, now, user_id, session_id)
    }

    /// The user of the session `token` at time `now`; an expired session is
    /// dropped.
    pub fn session_user_at(&mut self, session_token: Option<&str>, now: i64) -> (r: Option<
        AuthenticatedUser,
    >)
        ensures
            final(self)@ == session_step(
                old(self)@,
                token_view(session_token),
                now,
            ).0,
            match session_step(
                old(self)@,
                token_view(session_token),
                now,
            ).1 {
                Some(u) => r matches Some(a) && a.user@ == u,
                None => r is None,
            },
    {
        let token = match session_token {
            Some(t) => t,
            None => return None,
        };
        let session = match self.sessions.get(token) {
            Some(s) => *s,
            None => return None,
        };
        if session.expires_at < now {
            self.sessions.remove(token);
            proof {
                assert(self@ =~= session_step(old(self)@, Some(token@), now).0);
            }
            return None;
        }
        match self.find_id(session.user_id) {
            Some(i) => Some(AuthenticatedUser { user: copy_user(&self.users[i]) }),
            None => None,
        }
    }

    /// The user of the session `token` now.
    pub fn session_user(&mut self, session_token: Option<&str>) -> (r: Option<AuthenticatedUser>)
        ensures
            exists|now: i64|
                #![trigger session_step(old(self)@, token_view(session_token), now)]
                final(self)@ == session_step(
                    old(self)@,
                    token_view(session_token),
                    now,
                ).0 && match session_step(
                    old(self)@,
                    token_view(session_token),
                    now,
                ).1 {
                    Some(u) => r matches Some(a) && a.user@ == u,
                    None => r is None,
                },
    {
        let now = match clock_nanos() {
            Some(t) => t,
            None => i64::MAX,
        };
        self.session_user_at(session_token, now)
    }

    /// Ends the session `token`, if there is one.
    pub fn remove_session(&mut self, session_token: Option<&str>)
        ensures
            final(self)@ == logout_step(
                old(self)@,
                token_view(session_token),
            ),
    {
        if let Some(token) = session_token {
            self.sessions.remove(token);
            proof {
                assert(self@ =~= logout_step(old(self)@, Some(token@)));
            }
        }
    }

    /// Records the test operator `test@example.com` with the id `user_id`
    /// and opens the session `test-session` for it, lasting thirty days from
    /// `now`.
    pub fn create_test_session_at(&mut self, user_id: u128, now: i64) -> (r: String)
        requires
            now <= i64::MAX - SESSION_TTL_NANOS,
        ensures
            r@ == TEST_SESSION@,
            final(self)@ == test_session_step(old(self)@, user_id, now),
    {
        let user = PublicUser {
            id: user_id,
            email: owned("test@example.com"),
            display_name: owned("Test Operator"),
            created_at: now,
        };
        self.put_user(user);
        let token = owned(TEST_SESSION);
        let ghost before = self@;
        self.sessions.insert(
            token.clone(),
            Session { user_id, expires_at: now + SESSION_TTL_NANOS },
        );
        proof {
            assert(self@ =~= AuthView {
                sessions: before.sessions.insert(
                    TEST_SESSION@,
                    Session { user_id, expires_at: (now + SESSION_TTL_NANOS) as i64 },
                ),
                ..before
            });
        }
        token
    }

    /// Records the test operator with a fresh id and opens the session
    /// `test-session` for it, lasting thirty days from now.
    pub fn create_test_session(&mut self) -> (r: String)
        ensures
            r@ == TEST_SESSION@,
            exists|user_id: u128, now: i64|
                now <= i64::MAX - SESSION_TTL_NANOS && final(self)@ == #[trigger] test_session_step(
                    old(self)@,
                    user_id,
                    now,
                ),
    {
        let latest = i64::MAX - SESSION_TTL_NANOS;
        let now = match clock_nanos() {
            Some(t) => if t > latest {
                latest
            } else {
                t
            },
            None => latest,
        };
        let user_id = random_uuid();
        self.create_test_session_at(user_id, now)
    }

    /// The last code sent.
    pub fn test_last_code(&self) -> (r: Option<String>)
        ensures
            match self@.last_code {
                Some(c) => r matches Some(s) && s@ == c,
                None => r is None,
            },
    {
        match &self.last_code {
            Some(c) => Some(c.clone()),
            None => None,
        }
    }
}

impl Default for AuthState {
    /// An empty store keyed by the local default secret.
    fn default() -> (r: Self)
        ensures
            r@.users.len() == 0,
            r@.pending == Map::<Seq<char>, PendingView>::empty(),
            r@.sessions == Map::<Seq<char>, Session>::empty(),
            r@.last_code is None,
            r@.secret == "looptask-local-session"@,
    {
        AuthState::with_secret(owned("looptask-local-session"))
    }
}

proof fn lemma_first_email(us: Seq<UserView>, email: Seq<char>, i: int)
    requires
        0 <= i < us.len(),
        email_index(us.take(i), email) == -1,
        us[i].email == email,
    ensures
        email_index(us, email) == i,
    decreases us.len(),
{
    assert(us.take(i + 1).drop_last() =~= us.take(i));
    if us.len() > i + 1 {
        assert(us.drop_last().take(i) =~= us.take(i));
        lemma_first_email(us.drop_last(), email, i);
    } else {
        assert(us.take(i + 1) =~= us);
    }
}

proof fn lemma_first_id(us: Seq<UserView>, id: u128, i: int)
    requires
        0 <= i < us.len(),
        id_index(us.take(i), id) == -1,
        us[i].id == id,
    ensures
        id_index(us, id) == i,
    decreases us.len(),
{
    assert(us.take(i + 1).drop_last() =~= us.take(i));
    if us.len() > i + 1 {
        assert(us.drop_last().take(i) =~= us.take(i));
        lemma_first_id(us.drop_last(), id, i);
    } else {
        assert(us.take(i + 1) =~= us);
    }
}


// ---------------------------------------------------------------------------
// Laws of the authentication flow
// ---------------------------------------------------------------------------

/// A code that was sent can be used: after an accepted code request at time
/// `sent`, presenting the code that was sent for the same address at a time
/// no later than ten minutes after `sent` logs in (or registers) the owner
/// of the address and opens a session under the new token for that user.
pub proof fn law_sent_code_verifies(
    s: AuthView,
    req: RequestView,
    sent: i64,
    random: u128,
    presented: VerificationView,
    at: i64,
    user_id: u128,
    session_id: u128,
)
    requires
        sent <= i64::MAX - CODE_TTL_NANOS,
        request_step(s, req, sent, random).1 is None,
        sent <= at <= sent + CODE_TTL_NANOS,
        presented.email == req.email,
        presented.code == code_from(random),
    ensures
        ({
            let s1 = request_step(s, req, sent, random).0;
            let (s2, r) = verify_step(s1, presented, at, user_id, session_id);
            &&& r matches Ok((u, token))
            &&& u.email == email_of(req.email).unwrap()
            &&& token == uuid_text(session_id)
            &&& s2.sessions.contains_key(token)
            &&& s2.sessions[token].user_id == u.id
            &&& !s2.pending.contains_key(u.email)
        }),
{
    let e = email_of(req.email).unwrap();
    let s1 = request_step(s, req, sent, random).0;
    assert(s1.pending.contains_key(e));
    assert(s1.users == s.users);
    if req.purpose == AuthPurpose::Login {
        lemma_email_index(s.users, e);
    }
}

/// Whoever a verification logs in has a session: for no longer than thirty
/// days after the verification, the session under the returned token
/// belongs to the returned user, with its id, address, name and creation
/// time, and the lookup changes nothing. This holds of a store whose users
/// have distinct ids, and, for a registration, a new id that no user has.
pub proof fn law_session_follows_verification(
    s: AuthView,
    presented: VerificationView,
    at: i64,
    user_id: u128,
    session_id: u128,
    later: i64,
)
    requires
        ids_unique(s.users),
        verify_step(s, presented, at, user_id, session_id).1 is Ok,
        s.pending[email_of(presented.email).unwrap()].purpose == AuthPurpose::Register ==> forall|
            i: int,
        |
            0 <= i < s.users.len() ==> #[trigger] s.users[i].id != user_id,
        later <= at + SESSION_TTL_NANOS,
        at <= i64::MAX - SESSION_TTL_NANOS,
    ensures
        ({
            let (s2, r) = verify_step(s, presented, at, user_id, session_id);
            let (u, token) = r->Ok_0;
            &&& session_step(s2, Some(token), later).1 == Some(u)
            &&& session_step(s2, Some(token), later).0 == s2
        }),
{
    let (s2, r) = verify_step(s, presented, at, user_id, session_id);
    let (u, token) = r->Ok_0;
    let e = email_of(presented.email).unwrap();
    let p = s.pending[e];
    let s1 = without_pending(s, e);
    if p.purpose == AuthPurpose::Register {
        let k = lemma_put_user_fresh(s1.users, u);
        lemma_id_index_unique(s2.users, u.id, k);
    } else {
        lemma_email_index(s1.users, e);
        let i = email_index(s1.users, e);
        lemma_id_index_unique(s2.users, u.id, i);
    }
}

/// A session lasts thirty days from the verification that opened it: the
/// session expires at that moment, and any query after it finds no user
/// and drops the session.
pub proof fn law_session_ends_after_thirty_days(
    s: AuthView,
    presented: VerificationView,
    at: i64,
    user_id: u128,
    session_id: u128,
    later: i64,
)
    requires
        verify_step(s, presented, at, user_id, session_id).1 is Ok,
        at <= i64::MAX - 30 * 24 * 3600 * 1_000_000_000,
        later > at + 30 * 24 * 3600 * 1_000_000_000,
    ensures
        ({
            let (s2, r) = verify_step(s, presented, at, user_id, session_id);
            let token = r->Ok_0.1;
            &&& s2.sessions.contains_key(token)
            &&& s2.sessions[token].expires_at == at + 30 * 24 * 3600 * 1_000_000_000
            &&& session_step(s2, Some(token), later).1 is None
            &&& !session_step(s2, Some(token), later).0.sessions.contains_key(token)
        }),
{
}

/// Five wrong codes in a row use a code up: the first four are answered
/// `WRONG_CODE`, the fifth `TOO_MANY_ATTEMPTS`, and then the code is gone,
/// so that even the right code finds nothing. This is for a code not yet
/// tried and presented before it expires.
pub proof fn law_five_wrong_codes_use_up_a_code(
    s: AuthView,
    wrong: VerificationView,
    times: Seq<i64>,
    user_id: u128,
    session_id: u128,
    right: VerificationView,
    later: i64,
)
    requires
        email_of(wrong.email) is Some,
        s.pending.contains_key(email_of(wrong.email).unwrap()),
        s.pending[email_of(wrong.email).unwrap()].attempts == 0,
        s.pending[email_of(wrong.email).unwrap()].code_hash != code_hash_of(
            s.secret,
            email_of(wrong.email).unwrap(),
            wrong.code,
        ),
        times.len() == 5,
        forall|k: int|
            0 <= k < 5 ==> #[trigger] times[k] <= s.pending[email_of(
                wrong.email,
            ).unwrap()].expires_at,
        email_of(right.email) == email_of(wrong.email),
    ensures
        ({
            let (s1, r1) = verify_step(s, wrong, times[0], user_id, session_id);
            let (s2, r2) = verify_step(s1, wrong, times[1], user_id, session_id);
            let (s3, r3) = verify_step(s2, wrong, times[2], user_id, session_id);
            let (s4, r4) = verify_step(s3, wrong, times[3], user_id, session_id);
            let (s5, r5) = verify_step(s4, wrong, times[4], user_id, session_id);
            &&& r1 == Err::<(UserView, Seq<char>), Seq<char>>(WRONG_CODE@)
            &&& r2 == Err::<(UserView, Seq<char>), Seq<char>>(WRONG_CODE@)
            &&& r3 == Err::<(UserView, Seq<char>), Seq<char>>(WRONG_CODE@)
            &&& r4 == Err::<(UserView, Seq<char>), Seq<char>>(WRONG_CODE@)
            &&& r5 == Err::<(UserView, Seq<char>), Seq<char>>(TOO_MANY_ATTEMPTS@)
            &&& !s5.pending.contains_key(email_of(wrong.email).unwrap())
            &&& s5.sessions == s.sessions
            &&& s5.users == s.users
            &&& verify_step(s5, right, later, user_id, session_id) == (
                s5,
                Err::<(UserView, Seq<char>), Seq<char>>(NO_PENDING_CODE@),
            )
        }),
{
    let e = email_of(wrong.email).unwrap();
    let p = s.pending[e];
    let (s1, r1) = verify_step(s, wrong, times[0], user_id, session_id);
    assert(s1.pending[e].attempts == 1 && s1.pending[e].code_hash == p.code_hash
        && s1.pending[e].expires_at == p.expires_at && s1.secret == s.secret);
    let (s2, r2) = verify_step(s1, wrong, times[1], user_id, session_id);
    assert(s2.pending[e].attempts == 2 && s2.pending[e].code_hash == p.code_hash
        && s2.pending[e].expires_at == p.expires_at && s2.secret == s.secret);
    let (s3, r3) = verify_step(s2, wrong, times[2], user_id, session_id);
    assert(s3.pending[e].attempts == 3 && s3.pending[e].code_hash == p.code_hash
        && s3.pending[e].expires_at == p.expires_at && s3.secret == s.secret);
    let (s4, r4) = verify_step(s3, wrong, times[3], user_id, session_id);
    assert(s4.pending[e].attempts == 4 && s4.pending[e].code_hash == p.code_hash
        && s4.pending[e].expires_at == p.expires_at && s4.secret == s.secret);
    let (s5, r5) = verify_step(s4, wrong, times[4], user_id, session_id);
    assert(!s5.pending.contains_key(e));
}

/// After logging out of a session, its token names no user.
pub proof fn law_logout_ends_session(s: AuthView, token: Seq<char>, now: i64)
    ensures
        session_step(logout_step(s, Some(token)), Some(token), now).1 is None,
{
}

/// A wrong code never logs anyone in: it costs one attempt, and the code is
/// consumed once its attempts are used up.
pub proof fn law_wrong_code_costs_an_attempt(
    s: AuthView,
    presented: VerificationView,
    at: i64,
    user_id: u128,
    session_id: u128,
)
    requires
        email_of(presented.email) is Some,
        s.pending.contains_key(email_of(presented.email).unwrap()),
        s.pending[email_of(presented.email).unwrap()].code_hash != code_hash_of(
            s.secret,
            email_of(presented.email).unwrap(),
            presented.code,
        ),
    ensures
        ({
            let e = email_of(presented.email).unwrap();
            let (s2, r) = verify_step(s, presented, at, user_id, session_id);
            &&& r is Err
            &&& s2.sessions == s.sessions
            &&& s2.pending.contains_key(e) ==> s2.pending[e].attempts == s.pending[e].attempts + 1
                && s2.pending[e].attempts < MAX_CODE_ATTEMPTS
        }),
{
}

/// A registration needs a new address and a login a known one: a request
/// that breaks this is refused and changes nothing.
pub proof fn law_request_respects_registration(s: AuthView, req: RequestView, now: i64, random: u128)
    requires
        email_of(req.email) is Some,
        (req.purpose == AuthPurpose::Register) == (exists|i: int|
            0 <= i < s.users.len() && #[trigger] s.users[i].email == email_of(req.email).unwrap()),
    ensures
        request_step(s, req, now, random).1 is Some,
        request_step(s, req, now, random).0 == s,
{
    lemma_email_index(s.users, email_of(req.email).unwrap());
}

/// A code is used once: after a verification that logs someone in, any
/// verification for the same address finds no code until a new one is
/// requested, and changes nothing.
pub proof fn law_code_is_single_use(
    s: AuthView,
    first: VerificationView,
    at: i64,
    user_id: u128,
    session_id: u128,
    again: VerificationView,
    later: i64,
    next_user_id: u128,
    next_session_id: u128,
)
    requires
        verify_step(s, first, at, user_id, session_id).1 is Ok,
        email_of(again.email) == email_of(first.email),
    ensures
        ({
            let s2 = verify_step(s, first, at, user_id, session_id).0;
            verify_step(s2, again, later, next_user_id, next_session_id) == (
                s2,
                Err::<(UserView, Seq<char>), Seq<char>>(NO_PENDING_CODE@),
            )
        }),
{
    let e = email_of(first.email).unwrap();
    let s2 = verify_step(s, first, at, user_id, session_id).0;
    assert(!s2.pending.contains_key(e));
}

/// An expired code is refused and consumed, whatever is presented.
pub proof fn law_expired_code_is_refused(
    s: AuthView,
    presented: VerificationView,
    at: i64,
    user_id: u128,
    session_id: u128,
)
    requires
        email_of(presented.email) is Some,
        s.pending.contains_key(email_of(presented.email).unwrap()),
        s.pending[email_of(presented.email).unwrap()].expires_at < at,
    ensures
        verify_step(s, presented, at, user_id, session_id) == (
            without_pending(s, email_of(presented.email).unwrap()),
            Err::<(UserView, Seq<char>), Seq<char>>(CODE_EXPIRED@),
        ),
{
}

/// A session ends when its time is up: a query after its expiry finds no
/// user and drops the session.
pub proof fn law_expired_session_is_dropped(s: AuthView, token: Seq<char>, now: i64)
    requires
        s.sessions.contains_key(token),
        s.sessions[token].expires_at < now,
    ensures
        session_step(s, Some(token), now).1 is None,
        !session_step(s, Some(token), now).0.sessions.contains_key(token),
{
}

/// No two users share an address.
pub open spec fn emails_unique(users: Seq<UserView>) -> bool {
    forall|i: int, j: int|
        0 <= i < j < users.len() ==> #[trigger] users[i].email != #[trigger] users[j].email
}

/// No two users share an id.
pub open spec fn ids_unique(users: Seq<UserView>) -> bool {
    forall|i: int, j: int| 0 <= i < j < users.len() ==> #[trigger] users[i].id != #[trigger] users[j].id
}

/// In users with distinct ids, the user found by an id is the one that has
/// it.
proof fn lemma_id_index_unique(users: Seq<UserView>, id: u128, k: int)
    requires
        ids_unique(users),
        0 <= k < users.len(),
        users[k].id == id,
    ensures
        id_index(users, id) == k,
{
    lemma_id_index(users, id);
    let i = id_index(users, id);
    assert(i >= 0) by {
        if i == -1 {
            assert(users[k].id != id);
        }
    }
    if i < k {
        assert(users[i].id != users[k].id);
    } else if k < i {
        assert(users[k].id != users[i].id);
    }
}

/// `put_user` keeps addresses distinct.
proof fn lemma_put_user_keeps_emails_unique(users: Seq<UserView>, u: UserView)
    requires
        emails_unique(users),
    ensures
        emails_unique(put_user(users, u)),
{
    lemma_email_index(users, u.email);
    let r = put_user(users, u);
    let n = email_index(users, u.email);
    assert forall|i: int, j: int| 0 <= i < j < r.len() implies #[trigger] r[i].email
        != #[trigger] r[j].email by {
        if n >= 0 {
            if i == n {
                assert(users[j].email != users[n].email);
            } else if j == n {
                assert(users[i].email != users[n].email);
            } else {
                assert(users[i].email != users[j].email);
            }
        } else if j == users.len() {
            assert(users[i].email != u.email);
        } else {
            assert(users[i].email != users[j].email);
        }
    }
}

/// `put_user` with an id that no user has keeps ids distinct, and puts the
/// user at the returned index.
proof fn lemma_put_user_fresh(users: Seq<UserView>, u: UserView) -> (k: int)
    requires
        ids_unique(users),
        forall|i: int| 0 <= i < users.len() ==> #[trigger] users[i].id != u.id,
    ensures
        ids_unique(put_user(users, u)),
        0 <= k < put_user(users, u).len(),
        put_user(users, u)[k] == u,
{
    lemma_email_index(users, u.email);
    let r = put_user(users, u);
    let n = email_index(users, u.email);
    assert forall|i: int, j: int| 0 <= i < j < r.len() implies #[trigger] r[i].id
        != #[trigger] r[j].id by {
        if n >= 0 {
            if i == n {
                assert(users[j].id != u.id);
            } else if j == n {
                assert(users[i].id != u.id);
            } else {
                assert(users[i].id != users[j].id);
            }
        } else if j == users.len() {
            assert(users[i].id != u.id);
        } else {
            assert(users[i].id != users[j].id);
        }
    }
    if n >= 0 {
        n
    } else {
        users.len() as int
    }
}

/// Each user is recorded under one address: every operation on the store
/// keeps the addresses of its users distinct.
pub proof fn law_addresses_stay_distinct(
    s: AuthView,
    req: RequestView,
    presented: VerificationView,
    now: i64,
    random: u128,
    user_id: u128,
    session_id: u128,
    token: Option<Seq<char>>,
)
    requires
        emails_unique(s.users),
    ensures
        emails_unique(request_step(s, req, now, random).0.users),
        emails_unique(verify_step(s, presented, now, user_id, session_id).0.users),
        emails_unique(session_step(s, token, now).0.users),
        emails_unique(logout_step(s, token).users),
        emails_unique(test_session_step(s, user_id, now).users),
{
    let e = email_of(presented.email);
    if e is Some && s.pending.contains_key(e.unwrap()) {
        let p = s.pending[e.unwrap()];
        let u = UserView {
            id: user_id,
            email: e.unwrap(),
            display_name: registered_name_of(presented.display_name, p.display_name, e.unwrap()),
            created_at: now,
        };
        lemma_put_user_keeps_emails_unique(s.users, u);
    }
    lemma_put_user_keeps_emails_unique(
        s.users,
        UserView {
            id: user_id,
            email: "test@example.com"@,
            display_name: "Test Operator"@,
            created_at: now,
        },
    );
}

// ---------------------------------------------------------------------------
// Stored purposes and the request cooldown
// ---------------------------------------------------------------------------

/// The purpose that a stored name stands for, if any.
pub open spec fn purpose_of_name(name: Seq<char>) -> Option<AuthPurpose> {
    if name == "register"@ {
        Some(AuthPurpose::Register)
    } else if name == "login"@ {
        Some(AuthPurpose::Login)
    } else {
        None
    }
}

/// The purpose of a stored challenge, read back from its name.
pub fn purpose_from_name(name: &str) -> (r: Option<AuthPurpose>)
    ensures
        r == purpose_of_name(name@),
{
    proof {
        reveal_strlit("register");
        reveal_strlit("login");
    }
    if crate::text::str_equal(name, "register") {
        Some(AuthPurpose::Register)
    } else if crate::text::str_equal(name, "login") {
        Some(AuthPurpose::Login)
    } else {
        None
    }
}

/// A purpose is read back as the purpose whose name was stored.
pub proof fn law_purpose_name_round_trip(p: AuthPurpose)
    ensures
        purpose_of_name(purpose_name_of(p)) == Some(p),
{
    reveal_strlit("register");
    reveal_strlit("login");
    assert("register"@ != "login"@) by {
        assert("register"@.len() != "login"@.len());
    }
}

pub const UNSUPPORTED_PURPOSE: &'static str = "unsupported auth challenge purpose";

pub const CODE_TOO_FREQUENT: &'static str = "验证码发送过于频繁，请稍后再试";

/// The refusal of a code request for an address to which a code was sent
/// less than `CODE_COOLDOWN_SECONDS` ago.
pub fn cooldown_check(recently_sent: bool) -> (r: Result<(), Error>)
    ensures
        recently_sent ==> (r matches Err(Error::Config(m)) && m@ == CODE_TOO_FREQUENT@),
        !recently_sent ==> r is Ok,
{
    if recently_sent {
        return Err(config_error(CODE_TOO_FREQUENT));
    }
    Ok(())
}

// ---------------------------------------------------------------------------
// Mailing codes through Cloudflare
// ---------------------------------------------------------------------------

pub const MISSING_ACCOUNT: &'static str = "邮件服务未配置 CLOUDFLARE_ACCOUNT_ID，请在 Replit Secrets 中添加";

pub const MISSING_API_TOKEN: &'static str = "邮件服务未配置 CLOUDFLARE_API_TOKEN，请在 Replit Secrets 中添加";

pub const MISSING_SENDER: &'static str = "邮件服务未配置 LOOPTASK_EMAIL_FROM，请设置已验证的发件地址";

pub const EMAIL_SUBJECT: &'static str = "looptask 验证码";

/// The settings with which codes are mailed through Cloudflare's email
/// sending API: the account, the API token and the sender address.
#[derive(Debug, Clone)]
pub struct EmailSender {
    account_id: String,
    api_token: String,
    from: String,
}

/// A message that carries a one-time code.
#[derive(Debug, Clone)]
pub struct CodeEmail {
    pub to: String,
    pub from: String,
    pub subject: String,
    pub text: String,
    pub html: String,
}

impl EmailSender {
    pub closed spec fn account_view(&self) -> Seq<char> {
        self.account_id@
    }

    pub closed spec fn token_view(&self) -> Seq<char> {
        self.api_token@
    }

    pub closed spec fn from_view(&self) -> Seq<char> {
        self.from@
    }

    /// The sender that the service's settings describe, given the values of
    /// `CLOUDFLARE_ACCOUNT_ID`, `CLOUDFLARE_API_TOKEN` and
    /// `LOOPTASK_EMAIL_FROM` (`None` where unset); the first one missing is
    /// reported.
    pub fn from_values(account_id: Option<String>, api_token: Option<String>, from: Option<String>) -> (r:
        Result<EmailSender, Error>)
        ensures
            match (account_id, api_token, from) {
                (Some(a), Some(t), Some(f)) => r matches Ok(s) && s.account_view() == a@
                    && s.token_view() == t@ && s.from_view() == f@,
                (None, _, _) => r matches Err(Error::Config(m)) && m@ == MISSING_ACCOUNT@,
                (Some(_), None, _) => r matches Err(Error::Config(m)) && m@ == MISSING_API_TOKEN@,
                (Some(_), Some(_), None) => r matches Err(Error::Config(m)) && m@
                    == MISSING_SENDER@,
            },
    {
        let account_id = match account_id {
            Some(a) => a,
            None => return Err(config_error(MISSING_ACCOUNT)),
        };
        let api_token = match api_token {
            Some(t) => t,
            None => return Err(config_error(MISSING_API_TOKEN)),
        };
        let from = match from {
            Some(f) => f,
            None => return Err(config_error(MISSING_SENDER)),
        };
        Ok(EmailSender { account_id, api_token, from })
    }

    /// The API token, sent as a bearer token.
    pub fn api_token(&self) -> (r: &String)
        ensures
            r@ == self.token_view(),
    {
        &self.api_token
    }

    /// The address of the account's email sending endpoint.
    pub fn endpoint(&self) -> (r: String)
        ensures
            r@ == "https://api.cloudflare.com/client/v4/accounts/"@ + self.account_view()
                + "/email/sending/send"@,
    {
        concat3(
            "https://api.cloudflare.com/client/v4/accounts/",
            self.account_id.as_str(),
            "/email/sending/send",
        )
    }

    /// The message that mails `code` to `recipient`, valid for ten minutes.
    pub fn code_email(&self, recipient: &str, code: &str) -> (r: CodeEmail)
        ensures
            r.to@ == recipient@,
            r.from@ == self.from_view(),
            r.subject@ == EMAIL_SUBJECT@,
            r.text@ == "你的 looptask 验证码是 "@ + code@ + "，10 分钟内有效。"@,
            r.html@ == "<p>你的 looptask 验证码是：</p><h1>"@ + code@
                + "</h1><p>验证码 10 分钟内有效。</p>"@,
    {
        CodeEmail {
            to: owned(recipient),
            from: self.from.clone(),
            subject: owned(EMAIL_SUBJECT),
            text: concat3("你的 looptask 验证码是 ", code, "，10 分钟内有效。"),
            html: concat3(
                "<p>你的 looptask 验证码是：</p><h1>",
                code,
                "</h1><p>验证码 10 分钟内有效。</p>",
            ),
        }
    }
}

/// What the service reads of a JSON answer of Cloudflare: the `success`
/// member where it is a boolean; and, where `errors` is an array, the
/// `message` member of each item where that is a string.
#[derive(Debug, Clone)]
pub struct CloudflareReply {
    pub success: Option<bool>,
    pub errors: Option<Vec<Option<String>>>,
}

pub struct CloudflareReplyView {
    pub success: Option<bool>,
    pub errors: Option<Seq<Option<Seq<char>>>>,
}

pub open spec fn opt_string_view(o: Option<String>) -> Option<Seq<char>> {
    match o {
        Some(s) => Some(s@),
        None => None,
    }
}

impl View for CloudflareReply {
    type V = CloudflareReplyView;

    open spec fn view(&self) -> CloudflareReplyView {
        CloudflareReplyView {
            success: self.success,
            errors: match self.errors {
                Some(items) => Some(items@.map_values(|o: Option<String>| opt_string_view(o))),
                None => None,
            },
        }
    }
}

/// What parsing a body as JSON with `serde_json::from_str` and reading
/// `success` and `errors[..].message` from it gives, or the message of the
/// parse error.
pub uninterp spec fn cloudflare_json(body: Seq<char>) -> Result<CloudflareReplyView, Seq<char>>;

/// Parses `body` with `serde_json::from_str` into a `serde_json::Value` and
/// reads `success` (`as_bool`) and `errors` (`as_array`, each item's
/// `message` by `as_str`) from it. The contract claims only that the result
/// is the function `cloudflare_json` of the body.
#[verifier::external_body]
fn read_cloudflare_reply(body: &str) -> (r: Result<CloudflareReply, String>)
    ensures
        match r {
            Ok(c) => cloudflare_json(body@) == Ok::<CloudflareReplyView, Seq<char>>(c@),
            Err(m) => cloudflare_json(body@) == Err::<CloudflareReplyView, Seq<char>>(m@),
        },
{
    match serde_json::from_str::<serde_json::Value>(body) {
        Ok(json) => Ok(
            CloudflareReply {
                success: json["success"].as_bool(),
                errors: json["errors"].as_array().map(
                    |items| items.iter().map(|item| item["message"].as_str().map(str::to_string)).collect(),
                ),
            },
        ),
        Err(e) => Err(e.to_string()),
    }
}

/// The messages that are present, in order.
pub open spec fn present_messages(items: Seq<Option<Seq<char>>>) -> Seq<Seq<char>>
    decreases items.len(),
{
    if items.len() == 0 {
        Seq::<Seq<char>>::empty()
    } else {
        let r = present_messages(items.drop_last());
        match items.last() {
            Some(m) => r.push(m),
            None => r,
        }
    }
}

pub const UNKNOWN_MAIL_ERROR: &'static str = "未知错误";

/// The description of Cloudflare's errors in an answer: their messages
/// joined with `; `, or `未知错误` where the answer is not JSON, has no
/// `errors` array, or that joining is empty.
pub open spec fn mail_error_text(reply: Result<CloudflareReplyView, Seq<char>>) -> Seq<char> {
    match reply {
        Ok(c) => match c.errors {
            Some(items) => {
                let j = join(present_messages(items), "; "@);
                if j.len() > 0 {
                    j
                } else {
                    UNKNOWN_MAIL_ERROR@
                }
            },
            None => UNKNOWN_MAIL_ERROR@,
        },
        Err(_) => UNKNOWN_MAIL_ERROR@,
    }
}

/// The description of the errors in an answer that has been read.
pub fn reply_error_text(reply: &Result<CloudflareReply, String>) -> (r: String)
    ensures
        r@ == mail_error_text(
            match reply {
                Ok(c) => Ok::<CloudflareReplyView, Seq<char>>(c@),
                Err(m) => Err::<CloudflareReplyView, Seq<char>>(m@),
            },
        ),
{
    let items = match reply {
        Ok(c) => match &c.errors {
            Some(items) => items,
            None => return owned(UNKNOWN_MAIL_ERROR),
        },
        Err(_) => return owned(UNKNOWN_MAIL_ERROR),
    };
    let ghost item_views = items@.map_values(|o: Option<String>| opt_string_view(o));
    let mut present: Vec<String> = Vec::new();
    let n = items.len();
    for i in 0..n
        invariant
            n == items@.len(),
            item_views == items@.map_values(|o: Option<String>| opt_string_view(o)),
            string_views(present@) == present_messages(item_views.take(i as int)),
    {
        proof {
            assert(item_views.take(i + 1).drop_last() =~= item_views.take(i as int));
        }
        if let Some(m) = &items[i] {
            present.push(m.clone());
            proof {
                assert(string_views(present@) =~= present_messages(item_views.take(i as int)).push(
                    m@,
                ));
            }
        }
    }
    proof {
        assert(item_views.take(n as int) =~= item_views);
    }
    let joined = join_strings(&present, "; ");
    if joined.as_str().as_bytes().len() > 0 {
        joined
    } else {
        owned(UNKNOWN_MAIL_ERROR)
    }
}

/// The description of Cloudflare's errors in the answer `body`.
pub fn cloudflare_error_message(body: &str) -> (r: String)
    ensures
        r@ == mail_error_text(cloudflare_json(body@)),
{
    let reply = read_cloudflare_reply(body);
    reply_error_text(&reply)
}

/// What an answer of Cloudflare to a send request means, given whether its
/// status is a success, the status line, and the answer read from the body:
/// a failed status is a configuration error that describes the errors; a
/// body that is not JSON is an internal error; a send not confirmed by
/// `success: true` is a configuration error.
pub fn send_outcome(status_ok: bool, status: &str, reply: &Result<CloudflareReply, String>) -> (r:
    Result<(), Error>)
    ensures
        ({
            let rv = match reply {
                Ok(c) => Ok::<CloudflareReplyView, Seq<char>>(c@),
                Err(m) => Err::<CloudflareReplyView, Seq<char>>(m@),
            };
            if !status_ok {
                r matches Err(Error::Config(m)) && m@ == "Cloudflare 邮件发送失败（"@ + status@
                    + "）："@ + mail_error_text(rv)
            } else {
                match reply {
                    Err(e) => r matches Err(Error::Internal(m)) && m@
                        == "Cloudflare 返回无效 JSON: "@ + e@,
                    Ok(c) => if c.success == Some(true) {
                        r is Ok
                    } else {
                        r matches Err(Error::Config(m)) && m@ == "Cloudflare 邮件发送未确认成功："@
                            + mail_error_text(rv)
                    },
                }
            }
        }),
{
    if !status_ok {
        let text = reply_error_text(reply);
        let head = concat3("Cloudflare 邮件发送失败（", status, "）：");
        return Err(Error::Config(concat(head.as_str(), text.as_str())));
    }
    match reply {
        Err(e) => Err(Error::Internal(concat("Cloudflare 返回无效 JSON: ", e.as_str()))),
        Ok(c) => {
            let confirmed = match c.success {
                Some(b) => b,
                None => false,
            };
            if confirmed {
                Ok(())
            } else {
                let text = reply_error_text(reply);
                Err(Error::Config(concat("Cloudflare 邮件发送未确认成功：", text.as_str())))
            }
        },
    }
}

/// What Cloudflare's answer to a send request means, given whether its
/// status is a success, the status line, and the body.
pub fn send_result(status_ok: bool, status: &str, body: &str) -> (r: Result<(), Error>)
    ensures
        ({
            let rv = cloudflare_json(body@);
            if !status_ok {
                r matches Err(Error::Config(m)) && m@ == "Cloudflare 邮件发送失败（"@ + status@
                    + "）："@ + mail_error_text(rv)
            } else {
                match rv {
                    Err(e) => r matches Err(Error::Internal(m)) && m@
                        == "Cloudflare 返回无效 JSON: "@ + e,
                    Ok(c) => if c.success == Some(true) {
                        r is Ok
                    } else {
                        r matches Err(Error::Config(m)) && m@ == "Cloudflare 邮件发送未确认成功："@
                            + mail_error_text(rv)
                    },
                }
            }
        }),
{
    let reply = read_cloudflare_reply(body);
    send_outcome(status_ok, status, &reply)
}

} // verus!
