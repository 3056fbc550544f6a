//! Accounts and session tokens.

use vstd::arithmetic::power::pow;
use vstd::prelude::*;
use vstd::string::*;
use vstd::utf8::encode_utf8;

use crate::crypto::{base64_text, check_password, digest, password_matches, random_token, sha256_hex};
use crate::error::{bad, forbidden, internal, unauthorized, ApiError, ErrorView};
use crate::json::{value_content, Json, JsonNumber, JsonView};
use crate::letters::{lowercased, to_lowercase};
use crate::names::names_are_told_apart;
use crate::payloads::{has_repeated_claims, payload_text, read_payload, repeats_claims};
use crate::search::{contains, cut, found, found_iff_holds, holds, split_once, strip_prefix};
use crate::text::{byte_len, opt_string, opt_text, trim, trimmed};

verus! {

/// How long an access token is good for.
pub const ACCESS_TOKEN_MINUTES: i64 = 15;

/// How long a refresh token is good for.
pub const REFRESH_TOKEN_DAYS: i64 = 30;

// ---------------------------------------------------------------- identifiers

/// The lower-case hexadecimal digit of a number below 16.
pub open spec fn hex_digit(d: int) -> char
    recommends
        0 <= d < 16,
{
    if d < 10 {
        ('0' as int + d) as char
    } else {
        ('a' as int + d - 10) as char
    }
}

/// The hexadecimal digits of an identifier from one place to another, of 32 in all.
pub open spec fn hex_run(id: u128, from: int, to: int) -> Seq<char> {
    Seq::new(
        (to - from) as nat,
        |i: int| hex_digit((id as int / pow(16, (31 - from - i) as nat)) % 16),
    )
}

/// The text form of an identifier: groups of 8, 4, 4, 4 and 12 lower-case hexadecimal digits with
/// hyphens between.
pub open spec fn uuid_text(id: u128) -> Seq<char> {
    hex_run(id, 0, 8) + "-"@ + hex_run(id, 8, 12) + "-"@ + hex_run(id, 12, 16) + "-"@ + hex_run(
        id,
        16,
        20,
    ) + "-"@ + hex_run(id, 20, 32)
}

/// The identifier that a text stands for.
pub uninterp spec fn parsed_uuid(text: Seq<char>) -> Option<u128>;

/// Calls `uuid::Uuid::from_u128` and `to_string`, which writes the digits of the number in groups;
/// the text reads back as the same identifier.
#[verifier::external_body]
fn write_uuid(id: u128) -> (r: String)
    ensures
        r@ == uuid_text(id),
        parsed_uuid(r@) == Some(id),
{
    uuid::Uuid::from_u128(id).to_string()
}

/// Calls `uuid::Uuid::parse_str`; the identifier, or the refusal, is named.
#[verifier::external_body]
fn parse_uuid(text: &str) -> (r: Option<u128>)
    ensures
        r == parsed_uuid(text@),
{
    uuid::Uuid::parse_str(text).ok().map(|id| id.as_u128())
}

// ---------------------------------------------------------------- claims

/// What an access token claims.
pub open spec fn claims_view(sub: Seq<char>, iat: u64, exp: u64) -> JsonView {
    JsonView::object().with("sub"@, JsonView::Str(sub)).with(
        "exp"@,
        JsonView::Number(JsonNumber::Natural(exp)),
    ).with("iat"@, JsonView::Number(JsonNumber::Natural(iat))).with(
        "typ"@,
        JsonView::Str("access"@),
    )
}

/// Whether every entry of an object is a string or a whole number from 0 up.
pub open spec fn is_plain(claims: JsonView) -> bool {
    claims matches JsonView::Object(map) && forall|key: Seq<char>| #[trigger]
        map.contains_key(key) ==> (map[key] is Str || map[key].natural() is Some)
}

/// The claims in a token whose signature fits a secret, whether or not it has expired.
pub uninterp spec fn token_claims(token: Seq<char>, secret: Seq<u8>) -> Option<JsonView>;

/// Calls `jsonwebtoken::encode` with the default header, which signs any JSON value under any
/// secret. What it signed reads back under the same secret, where the claims are strings and whole
/// numbers.
#[verifier::external_body]
fn sign_claims(claims: &serde_json::Value, secret: &Vec<u8>) -> (r: Option<String>)
    ensures
        r is Some,
        is_plain(value_content(*claims)) ==> token_claims(r->0@, secret@) == Some(
            value_content(*claims),
        ),
{
    let key = jsonwebtoken::EncodingKey::from_secret(secret);
    jsonwebtoken::encode(&jsonwebtoken::Header::default(), claims, &key).ok()
}

/// Calls `jsonwebtoken::decode` with the default validation. Whether it accepts a token also
/// depends on the clock; what it gives are the claims that were signed.
#[verifier::external_body]
fn read_claims(token: &str, secret: &Vec<u8>) -> (r: Option<serde_json::Value>)
    ensures
        r matches Some(claims) ==> token_claims(token@, secret@) == Some(value_content(claims)),
{
    let key = jsonwebtoken::DecodingKey::from_secret(secret);
    let validation = jsonwebtoken::Validation::default();
    jsonwebtoken::decode::<serde_json::Value>(token, &key, &validation).ok().map(|data| data.claims)
}

/// The user that claims name: they must be complete and those of an access token.
pub open spec fn claimed_user(claims: JsonView) -> Option<u128> {
    if claims.at("exp"@).natural() is Some && claims.at("iat"@).natural() is Some && claims.at(
        "typ"@,
    ).is_text("access"@) {
        match claims.at("sub"@).text() {
            Some(sub) => parsed_uuid(sub),
            None => None,
        }
    } else {
        None
    }
}

/// The user that accepted claims name.
pub fn user_from_claims(claims: Option<&Json>) -> (r: Result<u128, ApiError>)
    ensures
        match r {
            Ok(user) => claims matches Some(claims) && claimed_user(claims@) == Some(user),
            Err(error) => {
                &&& error@ == unauthorized()
                &&& claims matches Some(claims) ==> claimed_user(claims@) is None
            },
        },
{
    if let Some(claims) = claims {
        if claims.at("exp").as_u64().is_some() && claims.at("iat").as_u64().is_some() && claims.at(
            "typ",
        ).is_str("access") {
            if let Some(sub) = claims.at("sub").as_str() {
                if let Some(user) = parse_uuid(sub) {
                    return Ok(user);
                }
            }
        }
    }
    Err(ApiError::unauthorized())
}

/// The token in an authorization header.
pub open spec fn bearer(header: Option<Seq<char>>) -> Option<Seq<char>> {
    match header {
        Some(text) => if "Bearer "@.is_prefix_of(text) {
            Some(text.skip("Bearer "@.len() as int))
        } else {
            None
        },
        None => None,
    }
}

/// The user that an authorization header names. Whether a signed token is accepted also depends on
/// the clock; a token that was never signed, is not an access token or claims a thing twice never
/// is.
pub fn user_from_headers(authorization: Option<&str>, secret: &Vec<u8>) -> (r: Result<
    u128,
    ApiError,
>)
    ensures
        match r {
            Ok(user) => {
                &&& bearer(opt_text(authorization)) matches Some(token)
                &&& token_claims(token, secret@) matches Some(claims)
                &&& claimed_user(claims) == Some(user)
                &&& payload_text(token) matches Some(payload)
                &&& !repeats_claims(payload)
            },
            Err(error) => error@ == unauthorized(),
        },
{
    let token = match authorization {
        Some(text) => match strip_prefix(text, "Bearer ") {
            Some(token) => token,
            None => return Err(ApiError::unauthorized()),
        },
        None => return Err(ApiError::unauthorized()),
    };
    match read_claims(token, secret) {
        Some(value) => {
            let repeated = match read_payload(token) {
                Some(payload) => has_repeated_claims(payload.as_str()),
                None => true,
            };
            if repeated {
                return Err(ApiError::unauthorized());
            }
            let claims = Json::from_value(value);
            user_from_claims(Some(&claims))
        },
        None => Err(ApiError::unauthorized()),
    }
}

/// Calls `chrono::Utc::now` and `timestamp`. Nothing is said of the time but that it is one that
/// `chrono::DateTime` can hold.
#[verifier::external_body]
fn unix_now() -> (r: i64)
    ensures
        -10_000_000_000_000 < r < 10_000_000_000_000,
{
    chrono::Utc::now().timestamp()
}

/// What the access token of a user claims that is issued at a moment: it is good for fifteen
/// minutes.
pub open spec fn access_claims(user_id: u128, now: i64) -> JsonView {
    claims_view(uuid_text(user_id), now as u64, (now + ACCESS_TOKEN_MINUTES * 60) as u64)
}

/// Issues an access token at a moment, given in seconds since the start of 1970.
pub fn token_at(secret: &Vec<u8>, user_id: u128, now: i64) -> (r: Result<String, ApiError>)
    requires
        -10_000_000_000_000 < now < 10_000_000_000_000,
    ensures
        r matches Ok(token) && token_claims(token@, secret@) == Some(access_claims(user_id, now)),
        claimed_user(access_claims(user_id, now)) == Some(user_id),
{
    let sub = write_uuid(user_id);
    let iat = now as u64;
    let exp = (now + ACCESS_TOKEN_MINUTES * 60) as u64;
    let claims = Json::object().with("sub", Json::Str(sub)).with("exp", Json::natural(exp)).with(
        "iat",
        Json::natural(iat),
    ).with("typ", Json::text("access"));
    proof {
        lemma_claims(uuid_text(user_id), iat, exp);
    }
    let value = claims.to_value();
    match sign_claims(&value, secret) {
        Some(token) => Ok(token),
        None => Err(ApiError::internal("could not issue access token")),
    }
}

proof fn lemma_claims(sub: Seq<char>, iat: u64, exp: u64)
    ensures
        is_plain(claims_view(sub, iat, exp)),
        claimed_user(claims_view(sub, iat, exp)) == parsed_uuid(sub),
{
    reveal_strlit("sub");
    reveal_strlit("exp");
    reveal_strlit("iat");
    reveal_strlit("typ");
    let view = claims_view(sub, iat, exp);
    assert("sub"@[0] == 's' && "exp"@[0] == 'e' && "iat"@[0] == 'i' && "typ"@[0] == 't');
    assert(view.at("sub"@) == JsonView::Str(sub));
    assert(view.at("exp"@).natural() == Some(exp));
    assert(view.at("iat"@).natural() == Some(iat));
    assert(view.at("typ"@).is_text("access"@));
}

/// Issues an access token. It is good for fifteen minutes from now.
pub fn token_for(secret: &Vec<u8>, user_id: u128) -> (r: Result<String, ApiError>)
    ensures
        r matches Ok(token) && exists|now: i64|
            token_claims(token@, secret@) == Some(#[trigger] access_claims(user_id, now))
                && claimed_user(access_claims(user_id, now)) == Some(user_id),
{
    token_at(secret, user_id, unix_now())
}

/// A token names the user that it was issued for, and no other, whenever it is accepted.
pub proof fn tokens_name_their_user(
    token: Seq<char>,
    secret: Seq<u8>,
    issued_for: u128,
    accepted_as: u128,
)
    requires
        token_claims(token, secret) matches Some(claims) && claimed_user(claims) == Some(issued_for),
        bearer(Some("Bearer "@ + token)) matches Some(carried) && token_claims(
            carried,
            secret,
        ) matches Some(claims) && claimed_user(claims) == Some(accepted_as),
    ensures
        accepted_as == issued_for,
{
    assert(("Bearer "@ + token).skip("Bearer "@.len() as int) =~= token);
}

// ---------------------------------------------------------------- refresh tokens

/// A fresh refresh token, and the digest under which it is stored.
pub fn issue_session() -> (r: (String, String))
    ensures
        r.0@.len() == 44,
        exists|bytes: Seq<u8>| bytes.len() == 32 && r.0@ == #[trigger] base64_text(bytes),
        r.1@ == sha256_hex(r.0@),
{
    let token = random_token();
    let hash = digest(token.as_str());
    (token, hash)
}

/// The digest under which a refresh token is looked up.
pub fn refresh(refresh_token: &str) -> (r: String)
    ensures
        r@ == sha256_hex(refresh_token@),
{
    digest(refresh_token)
}

/// When a refresh token that is issued now expires, in seconds since the start of 1970.
pub fn refresh_expiry(now: i64) -> (r: i64)
    requires
        -10_000_000_000_000 < now < 10_000_000_000_000,
    ensures
        r == now + 30 * 86_400,
{
    now + REFRESH_TOKEN_DAYS * 86_400
}

// ---------------------------------------------------------------- accounts

/// What a new account is stored with.
pub struct NewAccount {
    pub email: String,
    pub display_name: String,
}

/// What a new account is stored with.
pub struct AccountView {
    pub email: Seq<char>,
    pub display_name: Seq<char>,
}

impl View for NewAccount {
    type V = AccountView;

    open spec fn view(&self) -> AccountView {
        AccountView { email: self.email@, display_name: self.display_name@ }
    }
}

/// The name of an account: the one given, else what stands before the `@` of its address.
pub open spec fn account_name(given: Option<Seq<char>>, email: Seq<char>) -> Seq<char> {
    trimmed(
        match given {
            Some(name) => name,
            None => match cut(email, "@"@) {
                Some((before, _)) => before,
                None => email,
            },
        },
    )
}

/// A new account, or what is wrong with it. The address is already trimmed and in lower case.
pub open spec fn new_account(
    allowed: bool,
    email: Seq<char>,
    password: Seq<char>,
    display_name: Option<Seq<char>>,
) -> Result<AccountView, ErrorView> {
    let name = account_name(display_name, email);
    if !allowed {
        Err(forbidden("New user registration is temporarily disabled."@))
    } else if !holds(email, "@"@) || encode_utf8(password).len() < 12 {
        Err(bad("Use a valid email and a password of at least 12 characters."@))
    } else if name.len() == 0 || encode_utf8(name).len() > 80 {
        Err(bad("Display name must contain 1 to 80 characters."@))
    } else {
        Ok(AccountView { email, display_name: name })
    }
}

/// The view of an account, or of the error.
pub open spec fn account_result(r: Result<NewAccount, ApiError>) -> Result<AccountView, ErrorView> {
    match r {
        Ok(account) => Ok(account@),
        Err(error) => Err(error@),
    }
}

/// Checks a new account whose address is already trimmed and in lower case.
pub fn check_account(
    allow_signup: bool,
    email: &str,
    password: &str,
    display_name: Option<String>,
) -> (r: Result<NewAccount, ApiError>)
    ensures
        account_result(r) == new_account(allow_signup, email@, password@, opt_string(display_name)),
{
    if !allow_signup {
        return Err(ApiError::forbidden("New user registration is temporarily disabled."));
    }
    if !contains(email, "@") || byte_len(password) < 12 {
        return Err(ApiError::bad("Use a valid email and a password of at least 12 characters."));
    }
    let given = match display_name {
        Some(name) => name,
        None => match split_once(email, "@") {
            Some((before, _)) => before,
            None => email.to_owned(),
        },
    };
    let name = trim(given.as_str());
    if name.is_empty() || byte_len(name) > 80 {
        return Err(ApiError::bad("Display name must contain 1 to 80 characters."));
    }
    Ok(NewAccount { email: email.to_owned(), display_name: name.to_owned() })
}

/// The form in which an address is stored and looked up.
pub fn login_email(email: &str) -> (r: String)
    ensures
        r@ == lowercased(trimmed(email@)),
{
    to_lowercase(trim(email))
}

/// Checks a new account.
pub fn signup(allow_signup: bool, email: &str, password: &str, display_name: Option<String>) -> (r:
    Result<NewAccount, ApiError>)
    ensures
        account_result(r) == new_account(
            allow_signup,
            lowercased(trimmed(email@)),
            password@,
            opt_string(display_name),
        ),
{
    let email = login_email(email);
    check_account(allow_signup, email.as_str(), password, display_name)
}

/// Whether a new account was stored: not where its address was taken.
pub fn account_stored(rows: u64) -> (r: Result<(), ApiError>)
    ensures
        match r {
            Ok(_) => rows > 0,
            Err(error) => rows == 0 && error@ == bad("An account with that email already exists."@),
        },
{
    if rows == 0 {
        Err(ApiError::bad("An account with that email already exists."))
    } else {
        Ok(())
    }
}

/// What is known of an account at sign-in.
pub struct StoredAccount {
    pub disabled: bool,
    pub password_hash: String,
}

/// Accepts a sign-in to an account that is not disabled with the password that fits it.
pub fn decide_login(disabled: bool, fits: bool) -> (r: Result<(), ApiError>)
    ensures
        match r {
            Ok(_) => !disabled && fits,
            Err(error) => (disabled || !fits) && error@ == unauthorized(),
        },
{
    if disabled || !fits {
        Err(ApiError::unauthorized())
    } else {
        Ok(())
    }
}

/// Checks a sign-in: whatever is wrong with it, the answer is the same.
pub fn login(account: Option<&StoredAccount>, password: &str) -> (r: Result<(), ApiError>)
    ensures
        match account {
            Some(account) => match r {
                Ok(_) => lets_in(*account, password@),
                Err(error) => !lets_in(*account, password@) && error@ == unauthorized(),
            },
            None => r matches Err(error) && error@ == unauthorized(),
        },
{
    match account {
        Some(account) => {
            let fits = check_password(password, account.password_hash.as_str());
            decide_login(account.disabled, fits)
        },
        None => Err(ApiError::unauthorized()),
    }
}

/// Whether an account is let in with a password.
pub open spec fn lets_in(account: StoredAccount, password: Seq<char>) -> bool {
    !account.disabled && password_matches(account.password_hash@, password)
}

/// Whoever signed up with a password is let in with it, as long as the account is not disabled.
pub proof fn owners_log_in(account: StoredAccount, password: Seq<char>, hash: Seq<char>)
    requires
        password_matches(hash, password),
        account.password_hash@ == hash,
        !account.disabled,
    ensures
        lets_in(account, password),
{
}

// ---------------------------------------------------------------- laws

/// The claims of an access token are its user, the moment it was issued, and an end fifteen minutes
/// later; they name the user whose identifier they carry.
pub proof fn access_tokens_last_fifteen_minutes(user_id: u128, now: i64)
    requires
        0 <= now <= 1_000_000_000_000,
    ensures
        ({
            let claims = access_claims(user_id, now);
            &&& claims.at("sub"@) == JsonView::Str(uuid_text(user_id))
            &&& claims.at("iat"@) == JsonView::Number(JsonNumber::Natural(now as u64))
            &&& claims.at("exp"@) == JsonView::Number(JsonNumber::Natural((now + 900) as u64))
            &&& claims.at("typ"@) == JsonView::Str("access"@)
            &&& claimed_user(claims) == parsed_uuid(uuid_text(user_id))
        }),
{
    names_are_told_apart();
}

/// Claims name a user exactly where they are those of an access token, with the times that it was
/// issued and ends; and the user that they name is the one in their subject.
pub proof fn claims_name_their_subject(claims: JsonView, user: u128)
    ensures
        claimed_user(claims) == Some(user) <==> {
            &&& claims.at("typ"@) == JsonView::Str("access"@)
            &&& claims.at("exp"@).natural() is Some
            &&& claims.at("iat"@).natural() is Some
            &&& claims.at("sub"@) matches JsonView::Str(sub) && parsed_uuid(sub) == Some(user)
        },
{
}

/// A header carries the token that stands behind its first word, whole; a header of another kind
/// carries none.
pub proof fn bearer_headers_carry_their_token(token: Seq<char>, header: Seq<char>)
    ensures
        bearer(Some("Bearer "@ + token)) == Some(token),
        bearer(Some(header)) matches Some(carried) ==> header == "Bearer "@ + carried,
        !"Bearer "@.is_prefix_of(header) ==> bearer(Some(header)) is None,
        bearer(None) is None,
{
    let whole = "Bearer "@ + token;
    let n = "Bearer "@.len() as int;
    assert("Bearer "@ =~= whole.subrange(0, n));
    assert(whole.skip(n) =~= token);
    if "Bearer "@.is_prefix_of(header) {
        assert("Bearer "@ =~= header.subrange(0, n));
        assert(header =~= "Bearer "@ + header.skip(n));
    }
}

/// The text of an identifier has 36 characters: 32 digits, and hyphens at fixed places.
pub proof fn identifiers_are_written_in_groups(id: u128)
    ensures
        uuid_text(id).len() == 36,
        uuid_text(id)[8] == '-',
        uuid_text(id)[13] == '-',
        uuid_text(id)[18] == '-',
        uuid_text(id)[23] == '-',
{
    reveal_strlit("-");
}

/// An account is opened where accounts may be, with the email as it was given and under the name
/// that was given, else under what stands before the at sign; both without white space around.
pub proof fn accounts_are_opened_as_asked(
    allowed: bool,
    email: Seq<char>,
    password: Seq<char>,
    display_name: Option<Seq<char>>,
)
    ensures
        ({
            let name = trimmed(
                match display_name {
                    Some(name) => name,
                    None => email.take(found(email, "@"@)->0),
                },
            );
            let usable = holds(email, "@"@) && encode_utf8(password).len() >= 12;
            let named = 1 <= name.len() && encode_utf8(name).len() <= 80;
            match new_account(allowed, email, password, display_name) {
                Ok(account) => {
                    &&& allowed && usable && named
                    &&& account.email == email
                    &&& account.display_name == name
                },
                Err(error) => {
                    &&& !(allowed && usable && named)
                    &&& !allowed ==> error == forbidden(
                        "New user registration is temporarily disabled."@,
                    )
                    &&& allowed && !usable ==> error == bad(
                        "Use a valid email and a password of at least 12 characters."@,
                    )
                    &&& allowed && usable ==> error == bad(
                        "Display name must contain 1 to 80 characters."@,
                    )
                },
            }
        }),
{
    found_iff_holds(email, "@"@);
}

/// Nobody gets into an account that is disabled, nor into any with a password that is not its own.
pub proof fn doors_open_to_the_password(account: StoredAccount, password: Seq<char>)
    ensures
        account.disabled ==> !lets_in(account, password),
        !account.disabled ==> lets_in(account, password) == password_matches(
            account.password_hash@,
            password,
        ),
{
}

/// A hexadecimal digit below ten is that numeral, and from ten on a small letter.
pub proof fn digits_are_written_in_small_letters(d: int)
    requires
        0 <= d < 16,
    ensures
        d < 10 ==> hex_digit(d) as int == 48 + d,
        d >= 10 ==> hex_digit(d) as int == 87 + d,
{
}

} // verus!
