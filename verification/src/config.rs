//! The server's configuration, read from the environment.

use vstd::prelude::*;
use vstd::string::*;

use crate::crypto::{decode_base64, decoded_base64, opt_bytes};
use crate::error::{internal, ApiError, ErrorView};
use crate::letters::{lowercased, to_lowercase};
use crate::search::{pieces, split};
use crate::text::{blank, chars_of, is_blank, opt_string, same, texts, trim, trimmed};

verus! {

/// The values of the environment's variables, where they are set.
pub struct Environment {
    pub database_url: Option<String>,
    pub bind: Option<String>,
    pub jwt_secret: Option<String>,
    pub encryption_key: Option<String>,
    pub searxng_url: Option<String>,
    pub searxng_preferred_engines: Option<String>,
    pub cors_origins: Option<String>,
    pub dictionary_dir: Option<String>,
    pub allow_signup: Option<String>,
}

/// The server's configuration.
pub struct Config {
    pub database_url: String,
    pub bind: String,
    pub jwt_secret: String,
    pub encryption_key: Vec<u8>,
    pub searxng_url: Option<String>,
    pub searxng_preferred_engines: Option<String>,
    pub cors_origins: Vec<String>,
    pub dictionary_dir: String,
    pub allow_signup: bool,
}

/// What the configuration says.
pub struct ConfigView {
    pub database_url: Seq<char>,
    pub bind: Seq<char>,
    pub jwt_secret: Seq<char>,
    pub encryption_key: Seq<u8>,
    pub searxng_url: Option<Seq<char>>,
    pub searxng_preferred_engines: Option<Seq<char>>,
    pub cors_origins: Seq<Seq<char>>,
    pub dictionary_dir: Seq<char>,
    pub allow_signup: bool,
}

impl View for Config {
    type V = ConfigView;

    open spec fn view(&self) -> ConfigView {
        ConfigView {
            database_url: self.database_url@,
            bind: self.bind@,
            jwt_secret: self.jwt_secret@,
            encryption_key: self.encryption_key@,
            searxng_url: opt_string(self.searxng_url),
            searxng_preferred_engines: opt_string(self.searxng_preferred_engines),
            cors_origins: texts(self.cors_origins@),
            dictionary_dir: self.dictionary_dir@,
            allow_signup: self.allow_signup,
        }
    }
}

// ---------------------------------------------------------------- values

/// A value, or its default.
pub open spec fn value_or(value: Option<String>, default: Seq<char>) -> Seq<char> {
    match value {
        Some(text) => text@,
        None => default,
    }
}

fn read_or(value: &Option<String>, default: &str) -> (r: String)
    ensures
        r@ == value_or(*value, default@),
{
    match value {
        Some(text) => text.clone(),
        None => default.to_owned(),
    }
}

/// The address that the server listens at.
pub fn bind_address(bind: &Option<String>) -> (r: String)
    ensures
        r@ == value_or(*bind, "127.0.0.1:3100"@),
{
    read_or(bind, "127.0.0.1:3100")
}

/// Whether a text can be sent as the value of a header: no control characters but the tab.
pub open spec fn is_header_text(s: Seq<char>) -> bool {
    forall|i: int|
        0 <= i < s.len() ==> ((#[trigger] s[i]) >= ' ' && s[i] != '\u{7f}') || s[i] == '\t'
}

fn header_text(s: &str) -> (r: bool)
    ensures
        r == is_header_text(s@),
{
    let chars = chars_of(s);
    for i in 0..chars.len()
        invariant
            chars@ == s@,
            forall|j: int|
                0 <= j < i ==> ((#[trigger] s@[j]) >= ' ' && s@[j] != '\u{7f}') || s@[j] == '\t',
    {
        let c = chars[i];
        if !((c >= ' ' && c != '\u{7f}') || c == '\t') {
            assert(s@[i as int] == c);
            return false;
        }
    }
    true
}

/// The origins in a list that is separated by commas, each trimmed.
pub open spec fn origins_in(list: Seq<char>) -> Seq<Seq<char>> {
    pieces(list, ","@).map_values(|o: Seq<char>| trimmed(o))
}

/// Whether every origin can be sent as the value of a header.
pub open spec fn origins_valid(origins: Seq<Seq<char>>) -> bool {
    forall|i: int| 0 <= i < origins.len() ==> is_header_text(#[trigger] origins[i])
}

fn read_origins(list: &str) -> (r: Option<Vec<String>>)
    ensures
        match r {
            Some(origins) => texts(origins@) == origins_in(list@) && origins_valid(
                origins_in(list@),
            ),
            None => !origins_valid(origins_in(list@)),
        },
{
    proof {
        reveal_strlit(",");
    }
    let parts = split(list, ",");
    let ghost all = origins_in(list@);
    let mut out: Vec<String> = Vec::new();
    assert(texts(out@) =~= all.take(0));
    for i in 0..parts.len()
        invariant
            all == origins_in(list@),
            texts(parts@) == pieces(list@, ","@),
            texts(out@) == all.take(i as int),
            forall|j: int| 0 <= j < i ==> is_header_text(#[trigger] all[j]),
    {
        let origin = trim(parts[i].as_str());
        proof {
            assert(texts(parts@)[i as int] == parts@[i as int]@);
            assert(all[i as int] == origin@);
        }
        if !header_text(origin) {
            assert(!is_header_text(all[i as int]));
            return None;
        }
        let ghost before = texts(out@);
        out.push(origin.to_owned());
        proof {
            assert(texts(out@) =~= before.push(origin@));
            assert(all.take(i + 1) =~= all.take(i as int).push(origin@));
        }
    }
    proof {
        assert(texts(parts@).len() == parts@.len());
        assert(all.len() == parts@.len());
        assert(all.take(all.len() as int) =~= all);
    }
    Some(out)
}

/// Whether a switch in lower case is not turned off.
pub open spec fn is_on(lower: Seq<char>) -> bool {
    lower != "0"@ && lower != "false"@ && lower != "no"@
}

/// Whether a switch in lower case is not turned off.
pub fn switched_on(lower: &str) -> (r: bool)
    ensures
        r == is_on(lower@),
{
    !same(lower, "0") && !same(lower, "false") && !same(lower, "no")
}

// ---------------------------------------------------------------- the whole

/// The search engines to prefer: those that are set, unless blank, else Yandex.
pub open spec fn preferred_engines(value: Option<String>) -> Seq<char> {
    match value {
        Some(text) => if is_blank(text@) {
            "yandex"@
        } else {
            text@
        },
        None => "yandex"@,
    }
}

/// What is wrong with the environment, where something is, given what the encryption key decodes
/// to and whether the address to listen at is one.
pub open spec fn environment_error(
    env: Environment,
    key: Option<Seq<u8>>,
    bind_is_address: bool,
) -> Option<ErrorView> {
    if env.encryption_key is None {
        Some(internal("missing MALIM_ENCRYPTION_KEY"@))
    } else if key is None {
        Some(internal("MALIM_ENCRYPTION_KEY must be base64"@))
    } else if key->0.len() != 32 {
        Some(internal("MALIM_ENCRYPTION_KEY must decode to 32 bytes"@))
    } else if !origins_valid(
        origins_in(value_or(env.cors_origins, "http://localhost:1420,tauri://localhost"@)),
    ) {
        Some(internal("invalid CORS origin"@))
    } else if env.database_url is None {
        Some(internal("missing DATABASE_URL"@))
    } else if !bind_is_address {
        Some(internal("invalid MALIM_BIND"@))
    } else if env.jwt_secret is None {
        Some(internal("missing MALIM_JWT_SECRET"@))
    } else {
        None
    }
}

/// The configuration that an environment without errors makes, given whether sign-up is on.
pub open spec fn configured(env: Environment, key: Seq<u8>, allow_signup: bool) -> ConfigView {
    ConfigView {
        database_url: value_or(env.database_url, Seq::empty()),
        bind: value_or(env.bind, "127.0.0.1:3100"@),
        jwt_secret: value_or(env.jwt_secret, Seq::empty()),
        encryption_key: key,
        searxng_url: match env.searxng_url {
            Some(url) => if url@.len() > 0 {
                Some(url@)
            } else {
                None
            },
            None => None,
        },
        searxng_preferred_engines: Some(preferred_engines(env.searxng_preferred_engines)),
        cors_origins: origins_in(
            value_or(env.cors_origins, "http://localhost:1420,tauri://localhost"@),
        ),
        dictionary_dir: value_or(env.dictionary_dir, "apps/server/dictionaries"@),
        allow_signup,
    }
}

/// Reads the configuration, given what the encryption key decodes to, whether the address to
/// listen at is one, and whether sign-up is on.
pub fn read_config(
    env: Environment,
    key: Option<Vec<u8>>,
    bind_is_address: bool,
    allow_signup: bool,
) -> (r: Result<Config, ApiError>)
    ensures
        match r {
            Ok(config) => {
                &&& environment_error(env, opt_bytes(key), bind_is_address) is None
                &&& key matches Some(key) && config@ == configured(env, key@, allow_signup)
            },
            Err(error) => environment_error(env, opt_bytes(key), bind_is_address) == Some(error@),
        },
{
    if env.encryption_key.is_none() {
        return Err(ApiError::internal("missing MALIM_ENCRYPTION_KEY"));
    }
    let encryption_key = match key {
        Some(key) => key,
        None => return Err(ApiError::internal("MALIM_ENCRYPTION_KEY must be base64")),
    };
    if encryption_key.len() != 32 {
        return Err(ApiError::internal("MALIM_ENCRYPTION_KEY must decode to 32 bytes"));
    }
    let list = read_or(&env.cors_origins, "http://localhost:1420,tauri://localhost");
    let cors_origins = match read_origins(list.as_str()) {
        Some(origins) => origins,
        None => return Err(ApiError::internal("invalid CORS origin")),
    };
    let bind = bind_address(&env.bind);
    let dictionary_dir = read_or(&env.dictionary_dir, "apps/server/dictionaries");
    let database_url = match env.database_url {
        Some(url) => url,
        None => return Err(ApiError::internal("missing DATABASE_URL")),
    };
    if !bind_is_address {
        return Err(ApiError::internal("invalid MALIM_BIND"));
    }
    let jwt_secret = match env.jwt_secret {
        Some(secret) => secret,
        None => return Err(ApiError::internal("missing MALIM_JWT_SECRET")),
    };
    let searxng_url = match env.searxng_url {
        Some(url) => if url.as_str().is_empty() {
            None
        } else {
            Some(url)
        },
        None => None,
    };
    let engines = match env.searxng_preferred_engines {
        Some(engines) => if blank(engines.as_str()) {
            "yandex".to_owned()
        } else {
            engines
        },
        None => "yandex".to_owned(),
    };
    Ok(
        Config {
            database_url,
            bind,
            jwt_secret,
            encryption_key,
            searxng_url,
            searxng_preferred_engines: Some(engines),
            cors_origins,
            dictionary_dir,
            allow_signup,
        },
    )
}

/// What the encryption key of an environment decodes to.
pub open spec fn environment_key(env: Environment) -> Option<Seq<u8>> {
    match env.encryption_key {
        Some(text) => decoded_base64(text@),
        None => None,
    }
}

/// Whether an environment leaves sign-up on.
pub open spec fn environment_signup(env: Environment) -> bool {
    match env.allow_signup {
        Some(text) => is_on(lowercased(trimmed(text@))),
        None => true,
    }
}

impl Config {
    /// Reads the configuration from the environment's variables. Whether the address to listen at
    /// is one is for the caller to say.
    pub fn from_env(env: Environment, bind_is_address: bool) -> (r: Result<Self, ApiError>)
        ensures
            match r {
                Ok(config) => {
                    &&& environment_error(env, environment_key(env), bind_is_address) is None
                    &&& environment_key(env) matches Some(key) && config@ == configured(
                        env,
                        key,
                        environment_signup(env),
                    )
                },
                Err(error) => environment_error(env, environment_key(env), bind_is_address)
                    == Some(error@),
            },
    {
        let key = match &env.encryption_key {
            Some(text) => decode_base64(text.as_str()),
            None => None,
        };
        let allow_signup = match &env.allow_signup {
            Some(text) => {
                let lower = to_lowercase(trim(text.as_str()));
                switched_on(lower.as_str())
            },
            None => true,
        };
        read_config(env, key, bind_is_address, allow_signup)
    }
}

/// A configuration that was accepted has a key that can seal credentials.
pub proof fn configured_keys_seal(env: Environment, key: Option<Seq<u8>>, bind_is_address: bool)
    requires
        environment_error(env, key, bind_is_address) is None,
    ensures
        key matches Some(bytes) && bytes.len() == 32,
{
}

// ---------------------------------------------------------------- laws

/// What the environment sets is what is configured; what it leaves open takes its default.
pub proof fn environments_are_taken_as_set(env: Environment, key: Seq<u8>, allow_signup: bool)
    ensures
        ({
            let config = configured(env, key, allow_signup);
            &&& env.database_url matches Some(text) ==> config.database_url == text@
            &&& env.jwt_secret matches Some(text) ==> config.jwt_secret == text@
            &&& env.bind matches Some(text) ==> config.bind == text@
            &&& env.bind is None ==> config.bind == "127.0.0.1:3100"@
            &&& env.dictionary_dir matches Some(text) ==> config.dictionary_dir == text@
            &&& env.dictionary_dir is None ==> config.dictionary_dir == "apps/server/dictionaries"@
            &&& env.cors_origins is None ==> config.cors_origins == origins_in(
                "http://localhost:1420,tauri://localhost"@,
            )
            &&& config.encryption_key == key
            &&& config.allow_signup == allow_signup
            &&& env.searxng_url matches Some(url) ==> config.searxng_url == if url@.len() > 0 {
                Some(url@)
            } else {
                None
            }
            &&& env.searxng_url is None ==> config.searxng_url is None
            &&& env.searxng_preferred_engines matches Some(text) ==> (!is_blank(text@)
                ==> config.searxng_preferred_engines == Some(text@))
            &&& env.searxng_preferred_engines matches Some(text) ==> (is_blank(text@)
                ==> config.searxng_preferred_engines == Some("yandex"@))
            &&& env.searxng_preferred_engines is None ==> config.searxng_preferred_engines == Some(
                "yandex"@,
            )
        }),
{
}

/// The origins are those of the list, in their order, each without white space around it.
pub proof fn origins_are_listed_in_order(env: Environment, key: Seq<u8>, on: bool, i: int)
    requires
        env.cors_origins is Some,
        0 <= i < pieces(env.cors_origins->0@, ","@).len(),
    ensures
        configured(env, key, on).cors_origins.len() == pieces(env.cors_origins->0@, ","@).len(),
        configured(env, key, on).cors_origins[i] == trimmed(pieces(env.cors_origins->0@, ","@)[i]),
{
}

/// An environment is accepted exactly where nothing is missing and nothing is invalid; otherwise the
/// first thing that is wrong is told.
pub proof fn environments_are_refused_in_order(
    env: Environment,
    key: Option<Seq<u8>>,
    bind_is_address: bool,
)
    ensures
        ({
            let error = environment_error(env, key, bind_is_address);
            let sealed = env.encryption_key is Some && (key matches Some(bytes) && bytes.len()
                == 32);
            let origins = configured(env, Seq::empty(), true).cors_origins;
            let plain = forall|i: int|
                0 <= i < origins.len() ==> is_header_text(#[trigger] origins[i]);
            &&& error is None <==> sealed && plain && env.database_url is Some && bind_is_address
                && env.jwt_secret is Some
            &&& env.encryption_key is None ==> error == Some(
                internal("missing MALIM_ENCRYPTION_KEY"@),
            )
            &&& env.encryption_key is Some && key is None ==> error == Some(
                internal("MALIM_ENCRYPTION_KEY must be base64"@),
            )
            &&& env.encryption_key is Some && (key matches Some(bytes) && bytes.len() != 32)
                ==> error == Some(internal("MALIM_ENCRYPTION_KEY must decode to 32 bytes"@))
            &&& sealed && !plain ==> error == Some(internal("invalid CORS origin"@))
            &&& sealed && plain && env.database_url is None ==> error == Some(
                internal("missing DATABASE_URL"@),
            )
            &&& sealed && plain && env.database_url is Some && !bind_is_address ==> error == Some(
                internal("invalid MALIM_BIND"@),
            )
            &&& sealed && plain && env.database_url is Some && bind_is_address && env.jwt_secret is None
                ==> error == Some(internal("missing MALIM_JWT_SECRET"@))
        }),
{
    let origins = configured(env, Seq::empty(), true).cors_origins;
    let plain = forall|i: int| 0 <= i < origins.len() ==> is_header_text(#[trigger] origins[i]);
    assert(origins_valid(origins) == plain);
    assert(origins == origins_in(
        value_or(env.cors_origins, "http://localhost:1420,tauri://localhost"@),
    ));
}

/// Accounts may be opened unless that was switched off, in one of three words.
pub proof fn signup_is_on_unless_switched_off(env: Environment)
    ensures
        env.allow_signup is None ==> environment_signup(env),
        env.allow_signup matches Some(text) ==> {
            let word = lowercased(trimmed(text@));
            environment_signup(env) <==> !(word == "0"@ || word == "false"@ || word == "no"@)
        },
{
}

/// A header holds no control characters but tabs.
pub proof fn headers_hold_no_controls(s: Seq<char>, i: int)
    requires
        0 <= i < s.len(),
    ensures
        s[i] == '\n' || s[i] == '\r' || s[i] == '\u{7f}' ==> !is_header_text(s),
        is_header_text(s) ==> s[i] == '\t' || s[i] >= ' ',
        s[i] < ' ' && s[i] != '\t' ==> !is_header_text(s),
        (forall|k: int|
            0 <= k < s.len() ==> (#[trigger] s[k]) == '\t' || (s[k] >= ' ' && s[k] != '\u{7f}'))
            ==> is_header_text(s),
        is_header_text(Seq::empty()),
{
}

/// The key is what the environment's text for it decodes to.
pub proof fn keys_are_decoded(env: Environment)
    ensures
        env.encryption_key is None ==> environment_key(env) is None,
        env.encryption_key matches Some(text) ==> environment_key(env) == decoded_base64(text@),
{
}

} // verus!
