//! Identity and sessions: who may register, how a caller proves who they are,
//! and the bearer tokens that stand for a user.

use vstd::prelude::*;
use vstd::string::*;
use crate::db::{
    new_id, unknown_user_has_no_score, with_session_keeps_wf, with_trust_score_keeps_wf, with_user_keeps_wf, Store, StoreView,
};
use crate::errors::ApiError;
use crate::lookup::{first_index, first_index_holds, first_index_push};
use crate::models::{
    AuthResponse, AuthResponseView, LoginRequest, RegisterRequest, Session, SessionView,
    TrustScore, TrustScoreView, User, UserResponse, UserView,
};
use crate::text::{characters, strip_prefix, without_prefix};

verus! {

/// The least number of characters of a username.
pub const MIN_USERNAME_LENGTH: usize = 3;

/// The least number of characters of a password.
pub const MIN_PASSWORD_LENGTH: usize = 8;

/// The number of characters of a session token.
pub const TOKEN_LENGTH: usize = 64;

/// The number of characters that a token is drawn from.
pub const TOKEN_ALPHABET_SIZE: u8 = 36;

/// The work factor of the password hash.
pub const HASH_COST: u32 = 10;

/// The shape of an e-mail address, in the notation of regular expressions.
/// [`is_email`] states the same shape over characters.
pub const EMAIL_PATTERN: &'static str = "^[a-zA-Z0-9._%+-]+@[a-zA-Z0-9.-]+\\.[a-zA-Z]{2,}$";

/// A letter of the Latin alphabet.
pub open spec fn is_letter(c: char) -> bool {
    ('a' <= c && c <= 'z') || ('A' <= c && c <= 'Z')
}

/// A decimal digit.
pub open spec fn is_digit(c: char) -> bool {
    '0' <= c && c <= '9'
}

/// A character of the part of an e-mail address before the `@`.
pub open spec fn is_local_char(c: char) -> bool {
    is_letter(c) || is_digit(c) || c == '.' || c == '_' || c == '%' || c == '+' || c == '-'
}

/// A character of the domain of an e-mail address.
pub open spec fn is_domain_char(c: char) -> bool {
    is_letter(c) || is_digit(c) || c == '.' || c == '-'
}

/// `s` is an e-mail address with its `@` at `at` and the dot of its
/// top-level domain at `dot`: a local part that is not empty, `@`, a domain
/// that is not empty, a dot, and two letters or more.
pub open spec fn is_email_split(s: Seq<char>, at: int, dot: int) -> bool {
    &&& 0 < at
    &&& at + 1 < dot
    &&& dot + 3 <= s.len()
    &&& s[at] == '@'
    &&& s[dot] == '.'
    &&& forall|i: int| 0 <= i < at ==> is_local_char(#[trigger] s[i])
    &&& forall|i: int| at < i < dot ==> is_domain_char(#[trigger] s[i])
    &&& forall|i: int| dot < i < s.len() ==> is_letter(#[trigger] s[i])
}

/// `s` has the shape `local@domain.tld`.
pub open spec fn is_email(s: Seq<char>) -> bool {
    exists|at: int, dot: int| is_email_split(s, at, dot)
}

/// An e-mail address splits in one way only: at its first `@` and its last
/// dot.
pub proof fn email_split_is_unique(s: Seq<char>, at: int, dot: int)
    requires
        is_email_split(s, at, dot),
    ensures
        forall|i: int| 0 <= i < s.len() && i != at ==> s[i] != '@',
        forall|i: int| dot < i < s.len() ==> s[i] != '.',
{
    assert forall|i: int| 0 <= i < s.len() && i != at implies s[i] != '@' by {
        if i < at {
            assert(is_local_char(s[i]));
        } else if i < dot {
            assert(is_domain_char(s[i]));
        } else if i > dot {
            assert(is_letter(s[i]));
        }
    }
    assert forall|i: int| dot < i < s.len() implies s[i] != '.' by {
        assert(is_letter(s[i]));
    }
}

fn letter(c: char) -> (yes: bool)
    ensures
        yes == is_letter(c),
{
    ('a' <= c && c <= 'z') || ('A' <= c && c <= 'Z')
}

fn local_char(c: char) -> (yes: bool)
    ensures
        yes == is_local_char(c),
{
    letter(c) || ('0' <= c && c <= '9') || c == '.' || c == '_' || c == '%' || c == '+' || c == '-'
}

fn domain_char(c: char) -> (yes: bool)
    ensures
        yes == is_domain_char(c),
{
    letter(c) || ('0' <= c && c <= '9') || c == '.' || c == '-'
}

/// Whether `email` has the shape `local@domain.tld`.
pub fn is_valid_email(email: &str) -> (valid: bool)
    ensures
        valid == is_email(email@),
{
    let chars = characters(email);
    let len = chars.len();
    let mut at: usize = 0;
    while at < len && chars[at] != '@'
        invariant
            at <= len == chars.len(),
            forall|i: int| 0 <= i < at ==> chars@[i] != '@',
        decreases len - at,
    {
        at = at + 1;
    }
    let mut dot: usize = len;
    while dot > 0 && chars[dot - 1] != '.'
        invariant
            dot <= len == chars.len(),
            forall|i: int| dot <= i < len ==> chars@[i] != '.',
        decreases dot,
    {
        dot = dot - 1;
    }
    // `at` is the first `@`, or `len`; `dot` is one past the last dot, or 0.
    proof {
        assert forall|a: int, d: int| is_email_split(chars@, a, d) implies a == at && d == dot
            - 1 by {
            email_split_is_unique(chars@, a, d);
            if a < at {
                assert(chars@[a] != '@');
            } else if a > at {
                assert(chars@[at as int] != '@');
            }
            if d >= dot {
                assert(chars@[d] != '.');
            } else if d < dot - 1 {
                assert(chars@[dot - 1] != '.');
            }
        }
    }
    if at == 0 || dot < 2 || at >= dot - 2 || len - dot < 2 {
        return false;
    }
    let dot: usize = dot - 1;
    let mut i: usize = 0;
    while i < at
        invariant
            i <= at < len == chars.len(),
            forall|j: int| 0 <= j < i ==> is_local_char(#[trigger] chars@[j]),
            forall|a: int, d: int| is_email_split(chars@, a, d) ==> a == at && d == dot,
            chars@ == email@,
        decreases at - i,
    {
        if !local_char(chars[i]) {
            assert forall|a: int, d: int| !is_email_split(chars@, a, d) by {
                if is_email_split(chars@, a, d) {
                    assert(is_local_char(chars@[i as int]));
                }
            }
            return false;
        }
        i = i + 1;
    }
    let mut i: usize = at + 1;
    while i < dot
        invariant
            at < i <= dot < len == chars.len(),
            forall|j: int| at < j < i ==> is_domain_char(#[trigger] chars@[j]),
            forall|a: int, d: int| is_email_split(chars@, a, d) ==> a == at && d == dot,
            chars@ == email@,
        decreases dot - i,
    {
        if !domain_char(chars[i]) {
            assert forall|a: int, d: int| !is_email_split(chars@, a, d) by {
                if is_email_split(chars@, a, d) {
                    assert(is_domain_char(chars@[i as int]));
                }
            }
            return false;
        }
        i = i + 1;
    }
    let mut i: usize = dot + 1;
    while i < len
        invariant
            dot < i <= len == chars.len(),
            forall|j: int| dot < j < i ==> is_letter(#[trigger] chars@[j]),
            forall|a: int, d: int| is_email_split(chars@, a, d) ==> a == at && d == dot,
            chars@ == email@,
        decreases len - i,
    {
        if !letter(chars[i]) {
            assert forall|a: int, d: int| !is_email_split(chars@, a, d) by {
                if is_email_split(chars@, a, d) {
                    assert(is_letter(chars@[i as int]));
                }
            }
            return false;
        }
        i = i + 1;
    }
    assert(is_email_split(chars@, at as int, dot as int));
    true
}

/// What is wrong with the body of a registration, if anything: the first of
/// a username that is too short, an e-mail address without the shape of
/// one, and a password that is too short.
pub open spec fn registration_flaw(
    username: Seq<char>,
    email: Seq<char>,
    password: Seq<char>,
) -> Option<ApiError> {
    if username.len() < 3 {
        Some(ApiError::UsernameTooShort)
    } else if !is_email(email) {
        Some(ApiError::InvalidEmail)
    } else if password.len() < 8 {
        Some(ApiError::PasswordTooShort)
    } else {
        None
    }
}

/// Checks the body of a registration.
pub fn validate_registration(body: &RegisterRequest) -> (checked: Result<(), ApiError>)
    ensures
        match registration_flaw(body.username@, body.email@, body.password@) {
            Some(flaw) => checked == Err::<(), ApiError>(flaw),
            None => checked is Ok,
        },
{
    if body.username.as_str().unicode_len() < MIN_USERNAME_LENGTH {
        return Err(ApiError::UsernameTooShort);
    }
    if !is_valid_email(body.email.as_str()) {
        return Err(ApiError::InvalidEmail);
    }
    if body.password.as_str().unicode_len() < MIN_PASSWORD_LENGTH {
        return Err(ApiError::PasswordTooShort);
    }
    Ok(())
}

/// The characters that tokens are drawn from: the digits, then the small
/// letters.
pub open spec fn token_alphabet() -> Seq<char> {
    "0123456789abcdefghijklmnopqrstuvwxyz"@
}

/// A character of a token: a digit or a small letter.
pub open spec fn is_token_char(c: char) -> bool {
    ('0' <= c && c <= '9') || ('a' <= c && c <= 'z')
}

/// A session token: 64 characters, each a digit or a small letter.
pub open spec fn is_token(s: Seq<char>) -> bool {
    &&& s.len() == 64
    &&& forall|i: int| 0 <= i < s.len() ==> is_token_char(#[trigger] s[i])
}

/// Whether `token` has the form of a session token.
pub fn is_session_token(token: &str) -> (yes: bool)
    ensures
        yes == is_token(token@),
{
    let chars = characters(token);
    if chars.len() != TOKEN_LENGTH {
        return false;
    }
    let mut i: usize = 0;
    while i < chars.len()
        invariant
            i <= chars.len(),
            chars@ == token@,
            forall|j: int| 0 <= j < i ==> is_token_char(#[trigger] chars@[j]),
        decreases chars.len() - i,
    {
        let c = chars[i];
        if !(('0' <= c && c <= '9') || ('a' <= c && c <= 'z')) {
            return false;
        }
        i = i + 1;
    }
    true
}

/// The character of the token alphabet at `index`.
pub fn token_char(index: u8) -> (c: char)
    requires
        index < 36,
    ensures
        c == token_alphabet()[index as int],
        is_token_char(c),
        index < 10 ==> c as u32 == '0' as u32 + index,
        index >= 10 ==> c as u32 == 'a' as u32 + (index - 10),
{
    proof {
        reveal_strlit("0123456789abcdefghijklmnopqrstuvwxyz");
    }
    let alphabet = "0123456789abcdefghijklmnopqrstuvwxyz";
    let c = alphabet.get_char(index as usize);
    assert(token_alphabet()[index as int] == c);
    c
}

/// `rand::Rng::gen_range` on the thread's generator, with the range from 0
/// up to and without `bound`: some number of that range. An empty range is
/// left out, the generator would refuse it.
#[verifier::external_body]
fn random_below(bound: u8) -> (n: u8)
    requires
        bound > 0,
    ensures
        n < bound,
{
    rand::Rng::gen_range(&mut rand::thread_rng(), 0..bound)
}

/// A new session token, drawn at random.
pub fn generate_token() -> (token: String)
    ensures
        is_token(token@),
{
    let mut token = String::new();
    let mut n: usize = 0;
    while n < TOKEN_LENGTH
        invariant
            n <= TOKEN_LENGTH,
            token@.len() == n,
            forall|i: int| 0 <= i < n ==> is_token_char(#[trigger] token@[i]),
        decreases TOKEN_LENGTH - n,
    {
        let index = random_below(TOKEN_ALPHABET_SIZE);
        token.push(token_char(index));
        n = n + 1;
    }
    token
}

/// The token that an `Authorization` header carries: what follows
/// `Bearer `.
pub open spec fn bearer_of(header: Seq<char>) -> Option<Seq<char>> {
    without_prefix(header, "Bearer "@)
}

/// The token that an `Authorization` header carries, if it is a bearer
/// header.
pub fn bearer_token(header: &str) -> (token: Option<&str>)
    ensures
        match token {
            Some(t) => bearer_of(header@) == Some(t@),
            None => bearer_of(header@) is None,
        },
{
    strip_prefix(header, "Bearer ")
}

/// The error of the `bcrypt` crate.
#[verifier::external_type_specification]
#[verifier::external_body]
pub struct ExBcryptError(bcrypt::BcryptError);

/// What `bcrypt::verify` makes of a password and a stored hash: whether the
/// hash is one of that password, or nothing where the hash cannot be read.
pub uninterp spec fn bcrypt_accepts(password: Seq<char>, hash: Seq<char>) -> Option<bool>;

/// `bcrypt::hash`: a salted hash of the password at the given cost. The salt
/// is drawn at random, so two calls give two hashes; each of them is one
/// that `bcrypt::verify` accepts for this password.
#[verifier::external_body]
fn bcrypt_hash(password: &str, cost: u32) -> (hashed: Result<String, bcrypt::BcryptError>)
    ensures
        hashed matches Ok(hash) ==> bcrypt_accepts(password@, hash@) == Some(true),
{
    bcrypt::hash(password, cost)
}

/// `bcrypt::verify`: whether the hash is one of the password, or the error
/// of a hash that cannot be read.
#[verifier::external_body]
fn bcrypt_verify(password: &str, hash: &str) -> (outcome: Result<bool, bcrypt::BcryptError>)
    ensures
        match outcome {
            Ok(accepted) => bcrypt_accepts(password@, hash@) == Some(accepted),
            Err(_) => bcrypt_accepts(password@, hash@) is None,
        },
{
    bcrypt::verify(password, hash)
}

/// The stored hash is one of this password.
pub open spec fn password_matches(password: Seq<char>, hash: Seq<char>) -> bool {
    bcrypt_accepts(password, hash) == Some(true)
}

/// Hashes a password for storage.
pub fn hash_password(password: &str) -> (hashed: Result<String, ApiError>)
    ensures
        match hashed {
            Ok(hash) => password_matches(password@, hash@),
            Err(e) => e == ApiError::HashFailed,
        },
{
    match bcrypt_hash(password, HASH_COST) {
        Ok(hash) => Ok(hash),
        Err(_) => Err(ApiError::HashFailed),
    }
}

/// Whether the stored hash is one of this password. A hash that cannot be
/// read is the hash of no password.
pub fn verify_password(password: &str, hash: &str) -> (matches: bool)
    ensures
        matches == password_matches(password@, hash@),
{
    match bcrypt_verify(password, hash) {
        Ok(accepted) => accepted,
        Err(_) => false,
    }
}

/// Every session of `before` is a session of `after`, for the same user.
pub open spec fn sessions_persist(before: StoreView, after: StoreView) -> bool {
    forall|token: Seq<char>|
        before.session_user(token) is Some ==> #[trigger] after.session_user(token)
            == before.session_user(token)
}

/// A new session moves none of the old ones.
pub proof fn new_session_keeps_sessions(s: StoreView, session: SessionView)
    ensures
        sessions_persist(s, s.with_session(session)),
        !s.tokens().contains(session.token) ==> s.with_session(session).session_user(
            session.token,
        ) == Some(session.user_id),
{
    let t = s.with_session(session);
    assert(t.tokens() =~= s.tokens().push(session.token));
    assert forall|token: Seq<char>| s.session_user(token) is Some implies #[trigger] t.session_user(
        token,
    ) == s.session_user(token) by {
        first_index_push(s.tokens(), session.token, token);
        first_index_holds(s.tokens(), token);
    }
    first_index_push(s.tokens(), session.token, session.token);
}

/// Why a registration is refused, if it is: a flaw of its body, or an
/// e-mail address that is registered already.
pub open spec fn registration_refusal(
    s: StoreView,
    username: Seq<char>,
    email: Seq<char>,
    password: Seq<char>,
) -> Option<ApiError> {
    match registration_flaw(username, email, password) {
        Some(flaw) => Some(flaw),
        None => if s.emails().contains(email) {
            Some(ApiError::EmailTaken)
        } else {
            None
        },
    }
}

/// The store can take the rows of a registration: the name, the two
/// identifiers and the token are new, and the token has the form of one.
pub open spec fn registration_fits(
    s: StoreView,
    username: Seq<char>,
    user_id: u128,
    score_id: u128,
    token: Seq<char>,
) -> bool {
    &&& !s.usernames().contains(username)
    &&& !s.user_ids().contains(user_id)
    &&& !s.score_ids().contains(score_id)
    &&& session_fits(s, token)
}

/// The store can take a session with this token: the token has the form of
/// one and is new.
pub open spec fn session_fits(s: StoreView, token: Seq<char>) -> bool {
    is_token(token) && !s.tokens().contains(token)
}

/// The trust score that a user starts with.
pub open spec fn starting_score(id: u128, user_id: u128, now: i64) -> TrustScoreView {
    TrustScoreView { id, user_id, score: 300, status: "Healthy"@, updated_at: now }
}

/// The store after a registration: with the user, the user's starting trust
/// score and a session.
pub open spec fn registered(
    s: StoreView,
    user: UserView,
    score_id: u128,
    token: Seq<char>,
    now: i64,
) -> StoreView {
    s.with_user(user).with_trust_score(starting_score(score_id, user.id, now)).with_session(
        SessionView { token, user_id: user.id, created_at: now },
    )
}

/// A registration that fits keeps the schema and the sessions, and its token
/// stands for the new user.
pub proof fn registered_keeps_wf(
    s: StoreView,
    user: UserView,
    score_id: u128,
    token: Seq<char>,
    now: i64,
)
    requires
        s.wf(),
        !s.emails().contains(user.email),
        registration_fits(s, user.username, user.id, score_id, token),
    ensures
        registered(s, user, score_id, token, now).wf(),
        sessions_persist(s, registered(s, user, score_id, token, now)),
        registered(s, user, score_id, token, now).session_user(token) == Some(user.id),
        registered(s, user, score_id, token, now).emails().contains(user.email),
{
    let with_user = s.with_user(user);
    with_user_keeps_wf(s, user);
    assert(with_user.user_ids().last() == user.id);
    assert(with_user.emails().last() == user.email);
    unknown_user_has_no_score(s, user.id);
    let score = starting_score(score_id, user.id, now);
    with_trust_score_keeps_wf(with_user, score);
    let with_score = with_user.with_trust_score(score);
    let session = SessionView { token, user_id: user.id, created_at: now };
    with_session_keeps_wf(with_score, session);
    new_session_keeps_sessions(with_score, session);
    assert forall|t: Seq<char>| s.session_user(t) is Some implies #[trigger] registered(
        s,
        user,
        score_id,
        token,
        now,
    ).session_user(t) == s.session_user(t) by {
        assert(with_score.session_user(t) == s.session_user(t));
    }
}

/// Sessions persist from a store to itself, and through any chain of
/// stores in which they persist from each to the next.
pub proof fn sessions_persist_through(first: StoreView, second: StoreView, third: StoreView)
    requires
        sessions_persist(first, second),
        sessions_persist(second, third),
    ensures
        sessions_persist(first, first),
        sessions_persist(first, third),
{
    assert forall|token: Seq<char>| first.session_user(token) is Some implies #[trigger] third.session_user(
        token,
    ) == first.session_user(token) by {
        assert(second.session_user(token) == first.session_user(token));
    }
}

/// Sessions persist into every later state of a store: no session is ever
/// revoked, and none expires.
pub proof fn later_state_keeps_sessions(before: StoreView, after: StoreView)
    requires
        after.extends(before),
    ensures
        sessions_persist(before, after),
{
    assert forall|token: Seq<char>| before.session_user(token) is Some implies #[trigger] after.session_user(
        token,
    ) == before.session_user(token) by {
        first_index_holds(before.tokens(), token);
        let at = first_index(before.tokens(), token).unwrap();
        assert(after.sessions[at] == before.sessions[at]);
        assert forall|j: int| 0 <= j < at implies after.tokens()[j] != token by {
            assert(after.sessions[j] == before.sessions[j]);
            assert(before.tokens()[j] != token);
        }
        crate::lookup::first_index_found(after.tokens(), token, at);
    }
}

/// A caller that was authenticated stays authenticated as the same user
/// wherever sessions persist: a token never expires.
pub proof fn caller_persists(before: StoreView, after: StoreView, authorization: Option<&str>)
    requires
        sessions_persist(before, after),
        caller_of(before, authorization) is Some,
    ensures
        caller_of(after, authorization) == caller_of(before, authorization),
{
    let token = bearer_of(authorization.unwrap()@).unwrap();
    assert(after.session_user(token) == before.session_user(token));
}

/// A session stands for a user that exists: whoever is authenticated is
/// found among the users.
pub proof fn caller_exists(s: StoreView, authorization: Option<&str>)
    requires
        s.wf(),
        caller_of(s, authorization) is Some,
    ensures
        s.user_by_id(caller_of(s, authorization).unwrap()) is Some,
        s.user_by_id(caller_of(s, authorization).unwrap()).unwrap().id == caller_of(
            s,
            authorization,
        ).unwrap(),
{
    let token = bearer_of(authorization.unwrap()@).unwrap();
    first_index_holds(s.tokens(), token);
    let at = first_index(s.tokens(), token).unwrap();
    let user_id = s.sessions[at].user_id;
    assert(s.session_owners()[at] == user_id);
    assert(s.user_ids().contains(user_id));
    first_index_holds(s.user_ids(), user_id);
    let found = first_index(s.user_ids(), user_id).unwrap();
    assert(s.user_ids()[found] == s.users[found].id);
}

/// Registering a second time with an e-mail address that was registered is
/// refused as a conflict, whatever the name and the password, and the
/// session of the first registration still stands for the first user.
pub proof fn second_registration_conflicts(
    s: StoreView,
    user: UserView,
    score_id: u128,
    token: Seq<char>,
    now: i64,
    second_username: Seq<char>,
    second_password: Seq<char>,
)
    requires
        s.wf(),
        !s.emails().contains(user.email),
        registration_fits(s, user.username, user.id, score_id, token),
        registration_flaw(second_username, user.email, second_password) is None,
    ensures
        registration_refusal(
            registered(s, user, score_id, token, now),
            second_username,
            user.email,
            second_password,
        ) == Some(ApiError::EmailTaken),
        registered(s, user, score_id, token, now).session_user(token) == Some(user.id),
{
    registered_keeps_wf(s, user, score_id, token, now);
}

/// A registered user has the starting trust score, can be found by
/// identifier, and logs in with every password that the stored hash is one
/// of.
pub proof fn registered_user_is_there(
    s: StoreView,
    user: UserView,
    score_id: u128,
    token: Seq<char>,
    now: i64,
    password: Seq<char>,
)
    requires
        s.wf(),
        !s.emails().contains(user.email),
        registration_fits(s, user.username, user.id, score_id, token),
    ensures
        registered(s, user, score_id, token, now).score_of(user.id) == Some(
            starting_score(score_id, user.id, now),
        ),
        registered(s, user, score_id, token, now).user_by_id(user.id) == Some(user),
        registered(s, user, score_id, token, now).user_by_email(user.email) == Some(user),
        password_matches(password, user.password_hash) ==> credentials_user(
            registered(s, user, score_id, token, now),
            user.email,
            password,
        ) == Some(user),
{
    let after = registered(s, user, score_id, token, now);
    with_user_keeps_wf(s, user);
    let with_user = s.with_user(user);
    unknown_user_has_no_score(s, user.id);
    let score = starting_score(score_id, user.id, now);
    assert(with_user.user_ids().last() == user.id);
    with_trust_score_keeps_wf(with_user, score);
    assert(after.score_owners() == s.score_owners().push(user.id));
    assert(after.user_ids() == s.user_ids().push(user.id));
    assert(after.emails() == s.emails().push(user.email));
    first_index_push(s.score_owners(), user.id, user.id);
    first_index_push(s.user_ids(), user.id, user.id);
    first_index_push(s.emails(), user.email, user.email);
}

/// Checks a registration against its own body and against the users that
/// are there already.
pub fn check_registration(store: &Store, body: &RegisterRequest) -> (checked: Result<(), ApiError>)
    ensures
        match registration_refusal(store@, body.username@, body.email@, body.password@) {
            Some(refusal) => checked == Err::<(), ApiError>(refusal),
            None => checked is Ok,
        },
{
    match validate_registration(body) {
        Err(flaw) => Err(flaw),
        Ok(()) => {
            if store.position_of_email(body.email.as_str()).is_some() {
                Err(ApiError::EmailTaken)
            } else {
                Ok(())
            }
        },
    }
}

/// The user that a registration creates.
pub open spec fn new_user(
    username: Seq<char>,
    email: Seq<char>,
    password_hash: Seq<char>,
    id: u128,
    now: i64,
) -> UserView {
    UserView { id, username, email, password_hash, created_at: now }
}

/// Registers a user with a password hash, two identifiers and a token that
/// were made beforehand. A body with a flaw and an e-mail address that is
/// taken are refused as such; a name, an identifier or a token that the
/// store holds already, and a token that has not the form of one, are
/// failures of the storage. A refused or failed registration changes
/// nothing.
pub fn register_with(
    store: &mut Store,
    body: &RegisterRequest,
    password_hash: String,
    user_id: u128,
    score_id: u128,
    token: String,
    now: i64,
) -> (answer: Result<AuthResponse, ApiError>)
    requires
        old(store)@.wf(),
    ensures
        final(store)@.wf(),
        sessions_persist(old(store)@, final(store)@),
        final(store)@.extends(old(store)@),
        answer is Ok ==> final(store)@.session_user(token@) == Some(user_id) && final(store)@.emails().contains(body.email@),
        match registration_refusal(old(store)@, body.username@, body.email@, body.password@) {
            Some(refusal) => answer == Err::<AuthResponse, ApiError>(refusal) && final(store)@
                == old(store)@,
            None => if registration_fits(
                old(store)@,
                body.username@,
                user_id,
                score_id,
                token@,
            ) {
                &&& answer matches Ok(response)
                &&& response@ == (AuthResponseView {
                    user: new_user(
                        body.username@,
                        body.email@,
                        password_hash@,
                        user_id,
                        now,
                    ).public(),
                    token: token@,
                })
                &&& final(store)@ == registered(
                    old(store)@,
                    new_user(body.username@, body.email@, password_hash@, user_id, now),
                    score_id,
                    token@,
                    now,
                )
            } else {
                answer == Err::<AuthResponse, ApiError>(ApiError::Storage) && final(store)@ == old(store)@
            },
        },
{
    match check_registration(store, body) {
        Err(refusal) => {
            return Err(refusal);
        },
        Ok(()) => {},
    }
    if store.position_of_username(body.username.as_str()).is_some() || store.position_of_user(
        user_id,
    ).is_some() || store.position_of_score(score_id).is_some() || !is_session_token(
        token.as_str(),
    ) || store.position_of_token(token.as_str()).is_some() {
        return Err(ApiError::Storage);
    }
    let user = User {
        id: user_id,
        username: body.username.clone(),
        email: body.email.clone(),
        password_hash,
        created_at: now,
    };
    let response = AuthResponse {
        user: UserResponse {
            id: user_id,
            username: body.username.clone(),
            email: body.email.clone(),
            created_at: now,
        },
        token: token.clone(),
    };
    proof {
        registered_keeps_wf(store@, user@, score_id, token@, now);
        with_user_keeps_wf(store@, user@);
    }
    store.insert_user(user);
    proof {
        assert(store@.user_ids().last() == user_id);
        unknown_user_has_no_score(old(store)@, user_id);
    }
    store.insert_trust_score(
        TrustScore {
            id: score_id,
            user_id,
            score: 300,
            status: "Healthy".to_owned(),
            updated_at: now,
        },
    );
    proof {
        assert(store@.user_ids() == old(store)@.user_ids().push(user_id));
        assert(store@.user_ids().last() == user_id);
    }
    store.insert_session(Session { token, user_id, created_at: now });
    Ok(response)
}

/// Registers a user: checks the body, hashes the password, and draws the
/// identifiers and the session token. What is stored and answered is what
/// [`register_with`] stores and answers for the values that were drawn.
pub fn register(store: &mut Store, body: &RegisterRequest, now: i64) -> (answer: Result<
    AuthResponse,
    ApiError,
>)
    requires
        old(store)@.wf(),
    ensures
        final(store)@.wf(),
        sessions_persist(old(store)@, final(store)@),
        final(store)@.extends(old(store)@),
        match registration_refusal(old(store)@, body.username@, body.email@, body.password@) {
            Some(refusal) => answer == Err::<AuthResponse, ApiError>(refusal) && final(store)@
                == old(store)@,
            None => match answer {
                Ok(response) => {
                    let user = final(store)@.users.last();
                    &&& is_token(response.token@)
                    &&& user == new_user(
                        body.username@,
                        body.email@,
                        user.password_hash,
                        response.user.id,
                        now,
                    )
                    &&& password_matches(body.password@, user.password_hash)
                    &&& response@.user == user.public()
                    &&& final(store)@ == registered(
                        old(store)@,
                        user,
                        final(store)@.trust_scores.last().id,
                        response.token@,
                        now,
                    )
                    &&& final(store)@.session_user(response.token@) == Some(user.id)
                },
                Err(e) => (e == ApiError::HashFailed || e == ApiError::Storage) && final(store)@
                    == old(store)@,
            },
        },
{
    match check_registration(store, body) {
        Err(refusal) => {
            return Err(refusal);
        },
        Ok(()) => {},
    }
    let password_hash = match hash_password(body.password.as_str()) {
        Ok(hash) => hash,
        Err(e) => {
            return Err(e);
        },
    };
    let user_id = new_id();
    let score_id = new_id();
    let token = generate_token();
    let ghost user = new_user(body.username@, body.email@, password_hash@, user_id, now);
    let ghost drawn = token@;
    proof {
        if registration_fits(store@, body.username@, user_id, score_id, token@) {
            registered_keeps_wf(store@, user, score_id, token@, now);
        }
    }
    let answer = register_with(store, body, password_hash, user_id, score_id, token, now);
    proof {
        if answer is Ok {
            let after = registered(old(store)@, user, score_id, drawn, now);
            assert(after.users.last() == user);
            assert(after.trust_scores.last().id == score_id);
        }
    }
    answer
}

/// The user that an e-mail address and a password belong to: the user with
/// that address, if the stored hash is one of the password.
pub open spec fn credentials_user(s: StoreView, email: Seq<char>, password: Seq<char>) -> Option<
    UserView,
> {
    match s.user_by_email(email) {
        Some(user) => if password_matches(password, user.password_hash) {
            Some(user)
        } else {
            None
        },
        None => None,
    }
}

/// Opens a session for the user at `at` if the password was accepted. A
/// password that was not accepted is refused; a token that the store holds
/// already, or that has not the form of one, is a failure of the storage.
/// Neither changes anything.
pub fn grant_session(
    store: &mut Store,
    at: usize,
    password_accepted: bool,
    token: String,
    now: i64,
) -> (answer: Result<AuthResponse, ApiError>)
    requires
        old(store)@.wf(),
        at < old(store)@.users.len(),
    ensures
        final(store)@.wf(),
        sessions_persist(old(store)@, final(store)@),
        final(store)@.extends(old(store)@),
        if !password_accepted {
            answer == Err::<AuthResponse, ApiError>(ApiError::InvalidCredentials) && final(store)@
                == old(store)@
        } else if !session_fits(old(store)@, token@) {
            answer == Err::<AuthResponse, ApiError>(ApiError::Storage) && final(store)@ == old(store)@
        } else {
            &&& answer matches Ok(response)
            &&& response@ == (AuthResponseView {
                user: old(store)@.users[at as int].public(),
                token: token@,
            })
            &&& final(store)@ == old(store)@.with_session(
                SessionView {
                    token: token@,
                    user_id: old(store)@.users[at as int].id,
                    created_at: now,
                },
            )
            &&& final(store)@.session_user(token@) == Some(old(store)@.users[at as int].id)
        },
{
    if !password_accepted {
        return Err(ApiError::InvalidCredentials);
    }
    if !is_session_token(token.as_str()) || store.position_of_token(token.as_str()).is_some() {
        return Err(ApiError::Storage);
    }
    let user = &store.users()[at];
    let user_id = user.id;
    let response = AuthResponse {
        user: UserResponse {
            id: user.id,
            username: user.username.clone(),
            email: user.email.clone(),
            created_at: user.created_at,
        },
        token: token.clone(),
    };
    proof {
        assert(store@.user_ids()[at as int] == user_id);
        new_session_keeps_sessions(store@, SessionView { token: token@, user_id, created_at: now });
    }
    store.insert_session(Session { token, user_id, created_at: now });
    Ok(response)
}

/// Logs a user in with a token that was made beforehand. An unknown e-mail
/// address and a wrong password are refused alike.
pub fn login_with(store: &mut Store, body: &LoginRequest, token: String, now: i64) -> (answer:
    Result<AuthResponse, ApiError>)
    requires
        old(store)@.wf(),
    ensures
        final(store)@.wf(),
        sessions_persist(old(store)@, final(store)@),
        final(store)@.extends(old(store)@),
        match credentials_user(old(store)@, body.email@, body.password@) {
            None => answer == Err::<AuthResponse, ApiError>(ApiError::InvalidCredentials) && final(store)@ == old(store)@,
            Some(user) => if !session_fits(old(store)@, token@) {
                answer == Err::<AuthResponse, ApiError>(ApiError::Storage) && final(store)@ == old(store)@
            } else {
                &&& answer matches Ok(response)
                &&& response@ == (AuthResponseView { user: user.public(), token: token@ })
                &&& final(store)@ == old(store)@.with_session(
                    SessionView { token: token@, user_id: user.id, created_at: now },
                )
                &&& final(store)@.session_user(token@) == Some(user.id)
            },
        },
{
    match store.position_of_email(body.email.as_str()) {
        None => Err(ApiError::InvalidCredentials),
        Some(at) => {
            let accepted = verify_password(
                body.password.as_str(),
                store.users()[at].password_hash.as_str(),
            );
            grant_session(store, at, accepted, token, now)
        },
    }
}

/// Logs a user in and draws the session token. Earlier sessions stay valid.
pub fn login(store: &mut Store, body: &LoginRequest, now: i64) -> (answer: Result<
    AuthResponse,
    ApiError,
>)
    requires
        old(store)@.wf(),
    ensures
        final(store)@.wf(),
        sessions_persist(old(store)@, final(store)@),
        final(store)@.extends(old(store)@),
        match credentials_user(old(store)@, body.email@, body.password@) {
            None => answer == Err::<AuthResponse, ApiError>(ApiError::InvalidCredentials) && final(store)@ == old(store)@,
            Some(user) => match answer {
                Ok(response) => {
                    &&& is_token(response.token@)
                    &&& response@.user == user.public()
                    &&& final(store)@ == old(store)@.with_session(
                        SessionView { token: response.token@, user_id: user.id, created_at: now },
                    )
                    &&& final(store)@.session_user(response.token@) == Some(user.id)
                },
                Err(e) => e == ApiError::Storage && final(store)@ == old(store)@,
            },
        },
{
    let token = generate_token();
    login_with(store, body, token, now)
}

/// The user that a caller is, by the `Authorization` header of the call:
/// the user of the session whose token the header carries.
pub open spec fn caller_of(s: StoreView, authorization: Option<&str>) -> Option<u128> {
    match authorization {
        Some(header) => match bearer_of(header@) {
            Some(token) => s.session_user(token),
            None => None,
        },
        None => None,
    }
}

/// Resolves the caller of a call from its `Authorization` header.
pub fn get_user_from_token(store: &Store, authorization: Option<&str>) -> (caller: Option<u128>)
    ensures
        caller == caller_of(store@, authorization),
{
    let header = match authorization {
        Some(header) => header,
        None => {
            return None;
        },
    };
    let token = match bearer_token(header) {
        Some(token) => token,
        None => {
            return None;
        },
    };
    match store.position_of_token(token) {
        Some(at) => Some(store.sessions()[at].user_id),
        None => None,
    }
}

/// Resolves the caller of a call, or says that the call is not
/// authenticated: a missing header, a header of another kind and an unknown
/// token are told apart by nothing.
pub fn authenticate(store: &Store, authorization: Option<&str>) -> (caller: Result<u128, ApiError>)
    ensures
        match caller_of(store@, authorization) {
            Some(user_id) => caller == Ok::<u128, ApiError>(user_id),
            None => caller == Err::<u128, ApiError>(ApiError::NotAuthenticated),
        },
{
    match get_user_from_token(store, authorization) {
        Some(user_id) => Ok(user_id),
        None => Err(ApiError::NotAuthenticated),
    }
}

/// The caller's own user record, without the credential.
pub fn me(store: &Store, authorization: Option<&str>) -> (answer: Result<UserResponse, ApiError>)
    ensures
        match caller_of(store@, authorization) {
            None => answer == Err::<UserResponse, ApiError>(ApiError::NotAuthenticated),
            Some(user_id) => match store@.user_by_id(user_id) {
                Some(user) => answer matches Ok(response) && response@ == user.public(),
                None => answer == Err::<UserResponse, ApiError>(ApiError::UserNotFound),
            },
        },
{
    let user_id = match get_user_from_token(store, authorization) {
        Some(user_id) => user_id,
        None => {
            return Err(ApiError::NotAuthenticated);
        },
    };
    match store.position_of_user(user_id) {
        Some(at) => {
            let user = &store.users()[at];
            Ok(
                UserResponse {
                    id: user.id,
                    username: user.username.clone(),
                    email: user.email.clone(),
                    created_at: user.created_at,
                },
            )
        },
        None => Err(ApiError::UserNotFound),
    }
}

} // verus!
