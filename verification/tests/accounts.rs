use malim_chat::auth::{
    account_stored, check_account, decide_login, issue_session, login, login_email, refresh,
    refresh_expiry, signup, token_at, token_for, user_from_claims, user_from_headers, StoredAccount,
};
use malim_chat::crypto::{
    check_password, decrypt, digest, encrypt, encrypt_with, protect_password, random_token,
    read_credential, token_from_bytes,
};
use malim_chat::json::Json;
use malim_chat::payloads::{has_repeated_claims, read_payload};

fn secret() -> Vec<u8> {
    b"a secret".to_vec()
}

fn header(token: &str) -> String {
    format!("Bearer {token}")
}

#[test]
fn digests_are_hexadecimal_sha256() {
    assert_eq!(
        digest("abc"),
        "ba7816bf8f01cfea414140de5dae2223b00361a396177a9cb410ff61f20015ad"
    );
    assert_eq!(refresh("abc"), digest("abc"));
}

#[test]
fn tokens_are_base64_and_differ() {
    assert_eq!(token_from_bytes(&vec![0; 32]), format!("{}=", "A".repeat(43)));
    assert_eq!(token_from_bytes(&vec![255; 32]), format!("{}8=", "/".repeat(42)));
    assert_ne!(random_token(), random_token());
    let (token, hash) = issue_session();
    assert_eq!(token.len(), 44);
    assert_eq!(hash, digest(&token));
}

#[test]
fn credentials_are_sealed_with_aes_gcm() {
    let key = vec![0; 32];
    let nonce = vec![0; 12];
    let tag = encrypt_with(&key, &nonce, "").unwrap();
    assert_eq!(
        tag,
        [0x53, 0x0f, 0x8a, 0xfb, 0xc7, 0x45, 0x36, 0xb9, 0xa9, 0x63, 0xb4, 0xf1, 0xc4, 0xcb, 0x73, 0x8b]
    );
    let sealed = encrypt_with(&key, &nonce, &"\0".repeat(16)).unwrap();
    assert_eq!(
        &sealed[..16],
        [0xce, 0xa7, 0x40, 0x3d, 0x4d, 0x60, 0x6b, 0x6e, 0x07, 0x4e, 0xc5, 0xd3, 0xba, 0xf3, 0x9d, 0x18]
    );
}

#[test]
fn sealed_credentials_read_back() {
    let key = vec![7; 32];
    let (sealed, nonce) = encrypt(&key, "sk-ключ").unwrap();
    assert_eq!(nonce.len(), 12);
    assert_eq!(decrypt(&key, &sealed, &nonce).unwrap(), "sk-ключ");
    let (again, other) = encrypt(&key, "sk-ключ").unwrap();
    assert!(sealed != again && nonce != other);

    let spoiled = decrypt(&vec![8; 32], &sealed, &nonce).unwrap_err();
    assert_eq!(spoiled.message, "stored credential could not be decrypted");
    assert_eq!(sealed.len(), "sk-ключ".len() + 16);
    for at in 0..sealed.len() {
        let mut changed = sealed.clone();
        changed[at] ^= 1;
        assert_eq!(decrypt(&key, &changed, &nonce).unwrap_err().code, "internal_error");
    }
    assert!(decrypt(&key, &sealed[..15].to_vec(), &nonce).is_err());
}

#[test]
fn keys_of_the_wrong_length_are_refused() {
    assert_eq!(encrypt(&vec![0; 16], "x").unwrap_err().message, "encryption setup failed");
    assert_eq!(
        encrypt_with(&vec![], &vec![0; 12], "x").unwrap_err().message,
        "encryption setup failed"
    );
    assert_eq!(
        decrypt(&vec![0; 31], &vec![], &vec![0; 12]).unwrap_err().message,
        "encryption setup failed"
    );
}

#[test]
fn opened_credentials_must_be_text() {
    assert_eq!(read_credential(Some(b"key".to_vec())).unwrap(), "key");
    assert_eq!(
        read_credential(Some(vec![0xff])).unwrap_err().message,
        "stored credential is invalid"
    );
    assert_eq!(
        read_credential(None).unwrap_err().message,
        "stored credential could not be decrypted"
    );
}

#[test]
fn passwords_are_hashed_with_a_salt() {
    let hash = protect_password("correct horse").unwrap();
    assert!(hash.starts_with("$argon2id$"));
    assert_ne!(hash, protect_password("correct horse").unwrap());
    assert!(check_password("correct horse", &hash));
    assert!(!check_password("wrong horse", &hash));
    assert!(!check_password("correct horse", "not a hash"));
}

#[test]
fn access_tokens_name_their_user() {
    let user = 0x0123_4567_89ab_cdef_0123_4567_89ab_cdef_u128;
    let token = token_for(&secret(), user).unwrap();
    assert_eq!(user_from_headers(Some(&header(&token)), &secret()).unwrap(), user);
    assert_eq!(token.split('.').count(), 3);
    let payload = read_payload(&token).unwrap();
    assert!(payload.contains("\"sub\":\"01234567-89ab-cdef-0123-456789abcdef\""), "{}", payload);
    for (authorization, key) in [
        (Some(header(&token)), b"another".to_vec()),
        (Some(token.clone()), secret()),
        (Some(format!("bearer {token}")), secret()),
        (Some(header("nonsense")), secret()),
        (None, secret()),
    ] {
        let error = user_from_headers(authorization.as_deref(), &key).unwrap_err();
        assert_eq!((error.status, error.code), (401, "unauthorized"));
    }
}

#[test]
fn access_tokens_expire() {
    let old = token_at(&secret(), 1, 1_000_000_000).unwrap();
    assert!(user_from_headers(Some(&header(&old)), &secret()).is_err());
    let young = token_at(&secret(), 1, 4_000_000_000).unwrap();
    assert_eq!(user_from_headers(Some(&header(&young)), &secret()).unwrap(), 1);
}

#[test]
fn only_access_tokens_are_accepted() {
    let sign = |claims: &str| {
        let value: serde_json::Value = serde_json::from_str(claims).unwrap();
        let key = jsonwebtoken::EncodingKey::from_secret(&secret());
        jsonwebtoken::encode(&jsonwebtoken::Header::default(), &value, &key).unwrap()
    };
    let id = "00000000-0000-0000-0000-00000000000a";
    let token = sign(&format!("{{\"sub\":\"{id}\",\"exp\":4000000000,\"iat\":1,\"typ\":\"access\"}}"));
    assert_eq!(user_from_headers(Some(&header(&token)), &secret()).unwrap(), 10);
    for claims in [
        format!("{{\"sub\":\"{id}\",\"exp\":4000000000,\"iat\":1,\"typ\":\"refresh\"}}"),
        format!("{{\"sub\":\"{id}\",\"exp\":4000000000,\"iat\":1}}"),
        format!("{{\"sub\":\"{id}\",\"exp\":4000000000,\"typ\":\"access\"}}"),
        "{\"sub\":\"me\",\"exp\":4000000000,\"iat\":1,\"typ\":\"access\"}".to_string(),
    ] {
        assert!(user_from_headers(Some(&header(&sign(&claims))), &secret()).is_err(), "{}", claims);
    }
}

#[test]
fn repeated_claims_are_refused() {
    let sign = |claims: &str| {
        let key = jsonwebtoken::EncodingKey::from_secret(&secret());
        let part = |text: &str| {
            base64::Engine::encode(&base64::engine::general_purpose::URL_SAFE_NO_PAD, text)
        };
        let message = format!("{}.{}", part("{\"typ\":\"JWT\",\"alg\":\"HS256\"}"), part(claims));
        let signature =
            jsonwebtoken::crypto::sign(message.as_bytes(), &key, jsonwebtoken::Algorithm::HS256).unwrap();
        format!("{message}.{signature}")
    };
    let id = "00000000-0000-0000-0000-00000000000a";
    let user = |more: &str| {
        let token = sign(&format!(
            "{{ \"sub\" : \"{id}\", \"exp\":4000000000,\"iat\":1,\"typ\":\"access\"{more}}}"
        ));
        user_from_headers(Some(&header(&token)), &secret())
    };
    for more in [
        "", ",\"x\":1,\"x\":2", ",\"x\":{\"typ\":\"a\",\"typ\":[{\"typ\":1}]}", ",\"x\":\"\\\",\\\"typ\\\":\"",
        ",\"typ \":\"access\"",
    ] {
        assert_eq!(user(more).unwrap(), 10, "{}", more);
    }
    for more in [
        ",\"typ\":\"access\"", ",\"iat\":1", ",\"exp\":4000000000", ",\"\\u0074yp\" : \"access\"",
        ",\"x\":[1,{}],\"typ\":\"access\"",
    ] {
        assert_eq!(user(more).unwrap_err().code, "unauthorized", "{}", more);
    }
    assert!(has_repeated_claims("{\"sub\":1,\"sub\":2}"));
    assert!(!has_repeated_claims("{\"sub\":{\"sub\":2}}"));
    assert_eq!(read_payload("e30.e30.x").as_deref(), Some("{}"));
    assert_eq!(read_payload("e30.x"), None);
    assert_eq!(read_payload("a.!.x"), None);
}

#[test]
fn claims_must_be_complete() {
    let user = |claims: &str| user_from_claims(Some(&Json::parse(claims).unwrap()));
    assert_eq!(
        user("{\"sub\":\"0000000000000000000000000000000b\",\"exp\":1,\"iat\":1,\"typ\":\"access\"}").unwrap(),
        11
    );
    assert!(user("{\"sub\":\"0000000000000000000000000000000b\",\"exp\":-1,\"iat\":1,\"typ\":\"access\"}").is_err());
    assert!(user("[]").is_err());
    assert_eq!(user_from_claims(None).unwrap_err().code, "unauthorized");
}

#[test]
fn refresh_tokens_last_thirty_days() {
    assert_eq!(refresh_expiry(0), 2_592_000);
    assert_eq!(refresh_expiry(1_700_000_000), 1_702_592_000);
}

#[test]
fn accounts_are_checked() {
    let check = |email: &str, password: &str, name: Option<&str>| {
        check_account(true, email, password, name.map(str::to_string))
    };
    let account = match check("alice@example.com", "0123456789ab", None) {
        Ok(account) => account,
        Err(error) => panic!("{}", error.message),
    };
    assert_eq!((account.email.as_str(), account.display_name.as_str()), ("alice@example.com", "alice"));
    let named = match check("a@b", "0123456789ab", Some("  Alice  ")) {
        Ok(account) => account,
        Err(error) => panic!("{}", error.message),
    };
    assert_eq!(named.display_name, "Alice");
    let message = |r: Result<_, malim_chat::error::ApiError>| match r {
        Ok(_) => panic!("the account is refused"),
        Err(error) => (error.status, error.message),
    };
    let weak = "Use a valid email and a password of at least 12 characters.";
    let unnamed = "Display name must contain 1 to 80 characters.";
    assert_eq!(message(check("alice", "0123456789ab", None)), (400, weak.to_string()));
    assert_eq!(message(check("a@b", "0123456789a", None)), (400, weak.to_string()));
    assert_eq!(message(check("@b", "0123456789ab", None)), (400, unnamed.to_string()));
    assert_eq!(message(check("a@b", "0123456789ab", Some(" "))), (400, unnamed.to_string()));
    assert_eq!(message(check("a@b", "0123456789ab", Some(&"n".repeat(81)))), (400, unnamed.to_string()));
    assert!(check("a@b", "0123456789ab", Some(&"n".repeat(80))).is_ok());
    assert_eq!(
        message(check_account(false, "a@b", "0123456789ab", None)),
        (403, "New user registration is temporarily disabled.".to_string())
    );
}

#[test]
fn addresses_are_stored_in_lower_case() {
    assert_eq!(login_email("  Alice@Example.COM "), "alice@example.com");
    let account = match signup(true, " Alice@Example.COM ", "0123456789ab", None) {
        Ok(account) => account,
        Err(error) => panic!("{}", error.message),
    };
    assert_eq!(account.email, "alice@example.com");
    assert_eq!(account.display_name, "alice");
    assert!(account_stored(1).is_ok());
    assert_eq!(account_stored(0).unwrap_err().message, "An account with that email already exists.");
}

#[test]
fn only_the_owner_logs_in() {
    assert!(decide_login(false, true).is_ok());
    assert!(decide_login(false, false).is_err());
    assert!(decide_login(true, true).is_err());
    let account = |disabled: bool| StoredAccount {
        disabled,
        password_hash: protect_password("a long password").unwrap(),
    };
    assert!(login(Some(&account(false)), "a long password").is_ok());
    assert!(login(Some(&account(true)), "a long password").is_err());
    assert_eq!(login(Some(&account(false)), "a wrong password").unwrap_err().code, "unauthorized");
    assert_eq!(login(None, "a long password").unwrap_err().code, "unauthorized");
}
