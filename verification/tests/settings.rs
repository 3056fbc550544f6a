use malim_chat::config::{bind_address, read_config, switched_on, Config, Environment};
use malim_chat::json::{Json, JsonNumber};
use malim_chat::models::{
    clamp_temperature, default_context_rounds, default_tool_rounds, validate_generation_settings,
    GenerationSettings, DEFAULT_WEB_TOOL_ROUNDS,
};
use malim_chat::provider_config::{
    create_provider, create_provider_model, provider_model_bool, provider_model_chain_enabled,
    provider_model_hosted_tools, provider_model_supports_images, update_provider,
    update_provider_model, CurrentProvider, ProviderModelRequest, ProviderRequest,
    UpdateProviderModelRequest, UpdateProviderRequest,
};

fn text(s: &str) -> Option<String> {
    Some(s.to_string())
}

fn environment() -> Environment {
    Environment {
        database_url: text("postgres://db"),
        bind: None,
        jwt_secret: text("secret"),
        encryption_key: text(&format!("{}=", "A".repeat(43))),
        searxng_url: None,
        searxng_preferred_engines: None,
        cors_origins: None,
        dictionary_dir: None,
        allow_signup: None,
    }
}

fn config(env: Environment) -> Config {
    match Config::from_env(env, true) {
        Ok(config) => config,
        Err(error) => panic!("{}", error.message),
    }
}

fn failure(env: Environment, bind_is_address: bool) -> String {
    match Config::from_env(env, bind_is_address) {
        Ok(_) => panic!("the environment is refused"),
        Err(error) => {
            assert_eq!((error.status, error.code), (500, "internal_error"));
            error.message
        }
    }
}

#[test]
fn defaults_fill_the_configuration() {
    let config = config(environment());
    assert_eq!(config.database_url, "postgres://db");
    assert_eq!(config.bind, "127.0.0.1:3100");
    assert_eq!(config.jwt_secret, "secret");
    assert_eq!(config.encryption_key, vec![0; 32]);
    assert_eq!(config.searxng_url, None);
    assert_eq!(config.searxng_preferred_engines.as_deref(), Some("yandex"));
    assert_eq!(config.cors_origins, ["http://localhost:1420", "tauri://localhost"]);
    assert_eq!(config.dictionary_dir, "apps/server/dictionaries");
    assert!(config.allow_signup);
    assert_eq!(bind_address(&text("[::1]:9")), "[::1]:9");
}

#[test]
fn variables_override_the_defaults() {
    let config = config(Environment {
        bind: text("0.0.0.0:80"),
        searxng_url: text("http://search"),
        searxng_preferred_engines: text("bing"),
        cors_origins: text(" https://a , https://b"),
        dictionary_dir: text("/d"),
        allow_signup: text(" FALSE "),
        ..environment()
    });
    assert_eq!(config.bind, "0.0.0.0:80");
    assert_eq!(config.searxng_url.as_deref(), Some("http://search"));
    assert_eq!(config.searxng_preferred_engines.as_deref(), Some("bing"));
    assert_eq!(config.cors_origins, ["https://a", "https://b"]);
    assert_eq!(config.dictionary_dir, "/d");
    assert!(!config.allow_signup);
}

#[test]
fn empty_variables_count_as_unset() {
    let config = config(Environment {
        searxng_url: text(""),
        searxng_preferred_engines: text("  "),
        allow_signup: text(""),
        ..environment()
    });
    assert_eq!(config.searxng_url, None);
    assert_eq!(config.searxng_preferred_engines.as_deref(), Some("yandex"));
    assert!(config.allow_signup);
    assert!(!switched_on("0") && !switched_on("false") && !switched_on("no"));
    assert!(switched_on("1") && switched_on("off"));
}

#[test]
fn the_first_fault_of_an_environment_is_told() {
    let none = || Environment {
        database_url: None,
        bind: None,
        jwt_secret: None,
        encryption_key: None,
        searxng_url: None,
        searxng_preferred_engines: None,
        cors_origins: text("a\nb"),
        dictionary_dir: None,
        allow_signup: None,
    };
    assert_eq!(failure(none(), false), "missing MALIM_ENCRYPTION_KEY");
    let key = |key: &str| Environment { encryption_key: text(key), ..none() };
    assert_eq!(failure(key("?"), false), "MALIM_ENCRYPTION_KEY must be base64");
    assert_eq!(failure(key("AAAA"), false), "MALIM_ENCRYPTION_KEY must decode to 32 bytes");
    let good = environment().encryption_key;
    assert_eq!(failure(Environment { encryption_key: good, ..none() }, false), "invalid CORS origin");
    let later = Environment { database_url: None, jwt_secret: None, ..environment() };
    assert_eq!(failure(later, false), "missing DATABASE_URL");
    let later = Environment { jwt_secret: None, ..environment() };
    assert_eq!(failure(later, false), "invalid MALIM_BIND");
    let later = Environment { jwt_secret: None, ..environment() };
    assert_eq!(failure(later, true), "missing MALIM_JWT_SECRET");
    assert!(read_config(environment(), Some(vec![1; 32]), true, false).is_ok());
    assert!(read_config(environment(), Some(vec![1; 31]), true, false).is_err());
}

fn settings(temperature: f32) -> GenerationSettings {
    GenerationSettings {
        temperature: Json::Number(JsonNumber::Natural(1)),
        temperature_bits: temperature.to_bits(),
        reasoning_effort: "low".to_string(),
        enable_markdown: true,
        stream: false,
        context_rounds: default_context_rounds(),
        tool_rounds: default_tool_rounds(),
    }
}

#[test]
fn settings_are_stored_as_they_are_sent() {
    let stored = validate_generation_settings(settings(1.0)).unwrap();
    assert_eq!(
        stored.print(),
        "{\"context_rounds\":8,\"enable_markdown\":true,\"reasoning_effort\":\"low\",\"stream\":false,\"temperature\":1,\"tool_rounds\":8}"
    );
    assert_eq!(DEFAULT_WEB_TOOL_ROUNDS, 8);
    let unlimited = GenerationSettings { context_rounds: None, tool_rounds: None, ..settings(1.0) };
    let stored = validate_generation_settings(unlimited).unwrap();
    assert!(stored.at("context_rounds").is_null() && stored.at("tool_rounds").is_null());
}

#[test]
fn temperatures_lie_between_zero_and_two() {
    for t in [0.0, -0.0, f32::MIN_POSITIVE, 0.7, 1.9999999, 2.0] {
        assert!(validate_generation_settings(settings(t)).is_ok(), "{}", t);
        assert_eq!(clamp_temperature(t.to_bits()), t.to_bits());
    }
    for t in [2.0000002, 3.0, f32::INFINITY, f32::NEG_INFINITY, -1.0, -f32::MIN_POSITIVE] {
        let error = validate_generation_settings(settings(t)).unwrap_err();
        assert_eq!(error.message, "Temperature must be between 0 and 2.");
        assert_eq!(f32::from_bits(clamp_temperature(t.to_bits())), t.clamp(0.0, 2.0));
    }
    assert!(validate_generation_settings(settings(f32::NAN)).is_err());
    assert!(f32::from_bits(clamp_temperature(f32::NAN.to_bits())).is_nan());
}

#[test]
fn other_settings_are_checked_too() {
    let error = |s: GenerationSettings| validate_generation_settings(s).unwrap_err().message;
    assert_eq!(
        error(GenerationSettings { reasoning_effort: "extreme".to_string(), ..settings(1.0) }),
        "Reasoning effort must be low, medium, or high."
    );
    assert_eq!(
        error(GenerationSettings { context_rounds: Some(21), ..settings(1.0) }),
        "Context rounds must be between 0 and 20, or All."
    );
    for rounds in [0, 21] {
        assert_eq!(
            error(GenerationSettings { tool_rounds: Some(rounds), ..settings(1.0) }),
            "Tool rounds must be between 1 and 20, or Unlimited."
        );
    }
    let edge = GenerationSettings { context_rounds: Some(0), tool_rounds: Some(20), ..settings(1.0) };
    assert!(validate_generation_settings(edge).is_ok());
}

fn provider() -> ProviderRequest {
    ProviderRequest {
        name: " Main ".to_string(),
        kind: None,
        base_url: "https://api.example.com//".to_string(),
        api_key: " key ".to_string(),
        default_model: None,
    }
}

#[test]
fn new_providers_are_cleaned_up() {
    let stored = match create_provider(provider()) {
        Ok(stored) => stored,
        Err(error) => panic!("{}", error.message),
    };
    assert_eq!(stored.name, "Main");
    assert_eq!(stored.kind, "openai_compatible");
    assert_eq!(stored.base_url, "https://api.example.com");
    assert_eq!(stored.api_key, "key");
    assert_eq!(stored.default_model, "");
    let stored = match create_provider(ProviderRequest { default_model: text(" m "), kind: text("anthropic"), ..provider() }) {
        Ok(stored) => stored,
        Err(error) => panic!("{}", error.message),
    };
    assert_eq!((stored.kind.as_str(), stored.default_model.as_str()), ("anthropic", "m"));
}

#[test]
fn incomplete_providers_are_refused() {
    let refused = |request: ProviderRequest| match create_provider(request) {
        Ok(_) => panic!("the provider is refused"),
        Err(error) => error.message,
    };
    let required = "Provider type, HTTPS base URL, and API key are required.";
    assert_eq!(refused(ProviderRequest { kind: text("other"), ..provider() }), required);
    assert_eq!(refused(ProviderRequest { base_url: "http://a".to_string(), ..provider() }), required);
    assert_eq!(refused(ProviderRequest { api_key: " ".to_string(), ..provider() }), required);
    assert_eq!(refused(ProviderRequest { name: " ".to_string(), ..provider() }), "Provider name is required.");
}

#[test]
fn provider_changes_keep_what_is_not_sent() {
    let current = || CurrentProvider {
        name: "Old".to_string(),
        kind: "anthropic".to_string(),
        base_url: "https://old".to_string(),
    };
    let nothing = || UpdateProviderRequest { name: None, kind: None, base_url: None, api_key: None };
    let change = match update_provider(current(), nothing()) {
        Ok(change) => change,
        Err(error) => panic!("{}", error.message),
    };
    assert_eq!((change.name.as_str(), change.kind.as_str(), change.base_url.as_str()), ("Old", "anthropic", "https://old"));
    assert_eq!(change.api_key, None);
    let change = match update_provider(
        current(),
        UpdateProviderRequest { name: text(" "), kind: text("openai_responses"), base_url: text(" https://new/ "), api_key: text(" k ") },
    ) {
        Ok(change) => change,
        Err(error) => panic!("{}", error.message),
    };
    assert_eq!((change.name.as_str(), change.kind.as_str(), change.base_url.as_str()), ("Old", "openai_responses", "https://new"));
    assert_eq!(change.api_key.as_deref(), Some("k"));
    let refused = |request: UpdateProviderRequest| match update_provider(current(), request) {
        Ok(_) => panic!("the change is refused"),
        Err(error) => error.message,
    };
    assert_eq!(
        refused(UpdateProviderRequest { kind: text("x"), ..nothing() }),
        "Provider API format must be OpenAI-compatible or Anthropic."
    );
    assert_eq!(
        refused(UpdateProviderRequest { base_url: text("http://x"), ..nothing() }),
        "Provider base URL must use HTTPS."
    );
}

#[test]
fn models_are_configured_within_limits() {
    let request = || ProviderModelRequest {
        group_name: " G ".to_string(),
        model: " m ".to_string(),
        kind: "anthropic".to_string(),
        sort_order: None,
        context_window: None,
        supports_images: None,
        chain_context: None,
        hosted_tools: None,
    };
    let created = |request: ProviderModelRequest| match create_provider_model(request) {
        Ok(model) => model,
        Err(error) => panic!("{}", error.message),
    };
    let model = created(request());
    assert_eq!((model.group_name.as_str(), model.model.as_str()), ("G", "m"));
    assert_eq!((model.sort_order, model.context_window), (0, 128_000));
    assert_eq!((model.supports_images, model.chain_context, model.hosted_tools), (false, true, true));
    for (asked, given) in [(i32::MIN, 4096), (4095, 4096), (5000, 5000), (i32::MAX, 2_000_000)] {
        assert_eq!(created(ProviderModelRequest { context_window: Some(asked), ..request() }).context_window, given);
    }
    let refused = |request: ProviderModelRequest| match create_provider_model(request) {
        Ok(_) => panic!("the model is refused"),
        Err(error) => error.message,
    };
    assert_eq!(
        refused(ProviderModelRequest { model: " ".to_string(), ..request() }),
        "Model group and model name are required."
    );
    assert_eq!(
        refused(ProviderModelRequest { kind: "x".to_string(), ..request() }),
        "Model API format must be OpenAI-compatible or Anthropic."
    );
}

#[test]
fn model_changes_are_checked() {
    let nothing = || UpdateProviderModelRequest { group_name: None, model: None, kind: None, context_window: None };
    let change = match update_provider_model(UpdateProviderModelRequest { model: text(" m "), context_window: Some(1), ..nothing() }) {
        Ok(change) => change,
        Err(error) => panic!("{}", error.message),
    };
    assert_eq!((change.model.as_deref(), change.context_window), (Some("m"), Some(4096)));
    assert_eq!((change.group_name, change.kind), (None, None));
    let refused = |request: UpdateProviderModelRequest| match update_provider_model(request) {
        Ok(_) => panic!("the change is refused"),
        Err(error) => error.message,
    };
    assert_eq!(
        refused(UpdateProviderModelRequest { group_name: text(" "), ..nothing() }),
        "Model group and model name cannot be empty."
    );
    assert_eq!(
        refused(UpdateProviderModelRequest { kind: text("x"), ..nothing() }),
        "Model API format must be OpenAI-compatible or Anthropic."
    );
    for (stored, on) in [(None, true), (Some(true), true), (Some(false), false)] {
        assert_eq!(provider_model_hosted_tools(stored), on);
        assert_eq!(provider_model_chain_enabled(stored), on);
        assert_eq!(provider_model_supports_images(stored), stored == Some(true));
    }
    assert!(provider_model_bool(None, true));
    assert!(!provider_model_bool(Some(false), true));
}
