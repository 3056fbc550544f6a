//! Provider and per-model configuration: base URLs, the dialect a model speaks, its context window
//! and its switches.

use vstd::prelude::*;
use vstd::string::*;

use crate::conversation::opt_trimmed;
use crate::error::{bad, ApiError, ErrorView};
use crate::search::{starts_with, trim_end_of, trimmed_end_of, trimmed_end_of_facts};
use crate::text::{blank, is_blank, opt_string, same, trim, trimmed, trimmed_is_empty_iff_blank};

verus! {

/// The smallest context window that can be configured.
pub const MIN_CONTEXT_WINDOW: i32 = 4096;

/// The largest context window that can be configured.
pub const MAX_CONTEXT_WINDOW: i32 = 2_000_000;

/// Whether a kind is one of the three that can be configured.
pub open spec fn known_kind(kind: Seq<char>) -> bool {
    kind == "openai_compatible"@ || kind == "openai_responses"@ || kind == "anthropic"@
}

fn is_known_kind(kind: &str) -> (r: bool)
    ensures
        r == known_kind(kind@),
{
    same(kind, "openai_compatible") || same(kind, "openai_responses") || same(kind, "anthropic")
}

/// A context window within what can be configured.
pub open spec fn clamped_window(window: i32) -> i32 {
    if window < MIN_CONTEXT_WINDOW {
        MIN_CONTEXT_WINDOW
    } else if window > MAX_CONTEXT_WINDOW {
        MAX_CONTEXT_WINDOW
    } else {
        window
    }
}

fn clamp_window(window: i32) -> (r: i32)
    ensures
        r == clamped_window(window),
{
    if window < MIN_CONTEXT_WINDOW {
        MIN_CONTEXT_WINDOW
    } else if window > MAX_CONTEXT_WINDOW {
        MAX_CONTEXT_WINDOW
    } else {
        window
    }
}

// ---------------------------------------------------------------- providers

/// What a client sends for a new provider.
pub struct ProviderRequest {
    pub name: String,
    pub kind: Option<String>,
    pub base_url: String,
    pub api_key: String,
    pub default_model: Option<String>,
}

/// A provider as it is stored, its key still to be encrypted.
pub struct NewProvider {
    pub name: String,
    pub kind: String,
    pub base_url: String,
    pub api_key: String,
    pub default_model: String,
}

/// What a provider says.
pub struct ProviderView {
    pub name: Seq<char>,
    pub kind: Seq<char>,
    pub base_url: Seq<char>,
    pub api_key: Seq<char>,
    pub default_model: Seq<char>,
}

impl View for NewProvider {
    type V = ProviderView;

    open spec fn view(&self) -> ProviderView {
        ProviderView {
            name: self.name@,
            kind: self.kind@,
            base_url: self.base_url@,
            api_key: self.api_key@,
            default_model: self.default_model@,
        }
    }
}

/// The kind of a new provider.
pub open spec fn requested_kind(kind: Option<String>) -> Seq<char> {
    match kind {
        Some(kind) => kind@,
        None => "openai_compatible"@,
    }
}

/// A new provider, or what is wrong with it.
pub open spec fn new_provider(request: ProviderRequest) -> Result<ProviderView, ErrorView> {
    let kind = requested_kind(request.kind);
    if !known_kind(kind) || !"https://"@.is_prefix_of(request.base_url@) || is_blank(
        request.api_key@,
    ) {
        Err(bad("Provider type, HTTPS base URL, and API key are required."@))
    } else if is_blank(request.name@) {
        Err(bad("Provider name is required."@))
    } else {
        Ok(
            ProviderView {
                name: trimmed(request.name@),
                kind,
                base_url: trimmed_end_of(request.base_url@, '/'),
                api_key: trimmed(request.api_key@),
                default_model: match request.default_model {
                    Some(model) => trimmed(model@),
                    None => Seq::empty(),
                },
            },
        )
    }
}

/// Checks a new provider.
pub fn create_provider(request: ProviderRequest) -> (r: Result<NewProvider, ApiError>)
    ensures
        match r {
            Ok(provider) => new_provider(request) == Ok::<_, ErrorView>(provider@),
            Err(error) => new_provider(request) == Err::<ProviderView, _>(error@),
        },
{
    let kind = match &request.kind {
        Some(kind) => kind.clone(),
        None => "openai_compatible".to_owned(),
    };
    if !is_known_kind(kind.as_str()) || !starts_with(request.base_url.as_str(), "https://") || blank(
        request.api_key.as_str(),
    ) {
        return Err(ApiError::bad("Provider type, HTTPS base URL, and API key are required."));
    }
    if blank(request.name.as_str()) {
        return Err(ApiError::bad("Provider name is required."));
    }
    let default_model = match &request.default_model {
        Some(model) => trim(model.as_str()).to_owned(),
        None => String::new(),
    };
    Ok(
        NewProvider {
            name: trim(request.name.as_str()).to_owned(),
            kind,
            base_url: trim_end_of(request.base_url.as_str(), '/').to_owned(),
            api_key: trim(request.api_key.as_str()).to_owned(),
            default_model,
        },
    )
}

/// What a client changes about a provider.
pub struct UpdateProviderRequest {
    pub name: Option<String>,
    pub kind: Option<String>,
    pub base_url: Option<String>,
    pub api_key: Option<String>,
}

/// What a provider says now.
pub struct CurrentProvider {
    pub name: String,
    pub kind: String,
    pub base_url: String,
}

/// A provider after a change; a key only where it is replaced.
pub struct ProviderChange {
    pub name: String,
    pub kind: String,
    pub base_url: String,
    pub api_key: Option<String>,
}

/// What a provider says after a change.
pub struct ProviderChangeView {
    pub name: Seq<char>,
    pub kind: Seq<char>,
    pub base_url: Seq<char>,
    pub api_key: Option<Seq<char>>,
}

impl View for ProviderChange {
    type V = ProviderChangeView;

    open spec fn view(&self) -> ProviderChangeView {
        ProviderChangeView {
            name: self.name@,
            kind: self.kind@,
            base_url: self.base_url@,
            api_key: opt_string(self.api_key),
        }
    }
}

/// The trimmed form of an optional string that is not blank.
pub open spec fn given(s: Option<String>) -> Option<Seq<char>> {
    match opt_trimmed(s) {
        Some(text) => if text.len() > 0 {
            Some(text)
        } else {
            None
        },
        None => None,
    }
}

fn read_given(s: &Option<String>) -> (r: Option<String>)
    ensures
        opt_string(r) == given(*s),
{
    match s {
        Some(text) => {
            let text = trim(text.as_str());
            if text.is_empty() {
                None
            } else {
                Some(text.to_owned())
            }
        },
        None => None,
    }
}

/// A provider after a change, or what is wrong with it. Blank entries change nothing.
pub open spec fn changed_provider(
    current: CurrentProvider,
    request: UpdateProviderRequest,
) -> Result<ProviderChangeView, ErrorView> {
    let kind = match request.kind {
        Some(kind) => kind@,
        None => current.kind@,
    };
    let base_url = match given(request.base_url) {
        Some(url) => trimmed_end_of(url, '/'),
        None => current.base_url@,
    };
    if !known_kind(kind) {
        Err(bad("Provider API format must be OpenAI-compatible or Anthropic."@))
    } else if !"https://"@.is_prefix_of(base_url) {
        Err(bad("Provider base URL must use HTTPS."@))
    } else {
        Ok(
            ProviderChangeView {
                name: match given(request.name) {
                    Some(name) => name,
                    None => current.name@,
                },
                kind,
                base_url,
                api_key: given(request.api_key),
            },
        )
    }
}

/// Checks a change to a provider.
pub fn update_provider(current: CurrentProvider, request: UpdateProviderRequest) -> (r: Result<
    ProviderChange,
    ApiError,
>)
    ensures
        match r {
            Ok(change) => changed_provider(current, request) == Ok::<_, ErrorView>(change@),
            Err(error) => changed_provider(current, request) == Err::<ProviderChangeView, _>(
                error@,
            ),
        },
{
    let name = match read_given(&request.name) {
        Some(name) => name,
        None => current.name,
    };
    let kind = match &request.kind {
        Some(kind) => kind.clone(),
        None => current.kind,
    };
    if !is_known_kind(kind.as_str()) {
        return Err(ApiError::bad("Provider API format must be OpenAI-compatible or Anthropic."));
    }
    let base_url = match read_given(&request.base_url) {
        Some(url) => trim_end_of(url.as_str(), '/').to_owned(),
        None => current.base_url,
    };
    if !starts_with(base_url.as_str(), "https://") {
        return Err(ApiError::bad("Provider base URL must use HTTPS."));
    }
    let api_key = read_given(&request.api_key);
    Ok(ProviderChange { name, kind, base_url, api_key })
}

// ---------------------------------------------------------------- models

/// What a client sends for a new model.
pub struct ProviderModelRequest {
    pub group_name: String,
    pub model: String,
    pub kind: String,
    pub sort_order: Option<i32>,
    pub context_window: Option<i32>,
    pub supports_images: Option<bool>,
    pub chain_context: Option<bool>,
    pub hosted_tools: Option<bool>,
}

/// A model as it is stored.
pub struct NewModel {
    pub group_name: String,
    pub model: String,
    pub kind: String,
    pub sort_order: i32,
    pub context_window: i32,
    pub supports_images: bool,
    pub chain_context: bool,
    pub hosted_tools: bool,
}

/// What is wrong with a new model, where something is.
pub open spec fn model_error(request: ProviderModelRequest) -> Option<ErrorView> {
    if is_blank(request.group_name@) || is_blank(request.model@) {
        Some(bad("Model group and model name are required."@))
    } else if !known_kind(request.kind@) {
        Some(bad("Model API format must be OpenAI-compatible or Anthropic."@))
    } else {
        None
    }
}

/// Whether a model is stored as a client asked for it, with the defaults for what was left open:
/// first in order, a window of 128,000 tokens, no images, and both of the provider's own features.
pub open spec fn is_stored_model(model: NewModel, request: ProviderModelRequest) -> bool {
    &&& model.group_name@ == trimmed(request.group_name@)
    &&& model.model@ == trimmed(request.model@)
    &&& model.kind@ == request.kind@
    &&& model.sort_order == (match request.sort_order {
        Some(n) => n,
        None => 0i32,
    })
    &&& model.context_window == clamped_window(
        match request.context_window {
            Some(n) => n,
            None => 128_000i32,
        },
    )
    &&& model.supports_images == (request.supports_images == Some(true))
    &&& model.chain_context == (request.chain_context != Some(false))
    &&& model.hosted_tools == (request.hosted_tools != Some(false))
}

/// Checks a new model.
pub fn create_provider_model(request: ProviderModelRequest) -> (r: Result<NewModel, ApiError>)
    ensures
        match r {
            Ok(model) => model_error(request) is None && is_stored_model(model, request),
            Err(error) => model_error(request) == Some(error@),
        },
{
    if blank(request.group_name.as_str()) || blank(request.model.as_str()) {
        return Err(ApiError::bad("Model group and model name are required."));
    }
    if !is_known_kind(request.kind.as_str()) {
        return Err(ApiError::bad("Model API format must be OpenAI-compatible or Anthropic."));
    }
    Ok(
        NewModel {
            group_name: trim(request.group_name.as_str()).to_owned(),
            model: trim(request.model.as_str()).to_owned(),
            kind: request.kind,
            sort_order: match request.sort_order {
                Some(n) => n,
                None => 0,
            },
            context_window: clamp_window(
                match request.context_window {
                    Some(n) => n,
                    None => 128_000,
                },
            ),
            supports_images: match request.supports_images {
                Some(yes) => yes,
                None => false,
            },
            chain_context: match request.chain_context {
                Some(yes) => yes,
                None => true,
            },
            hosted_tools: match request.hosted_tools {
                Some(yes) => yes,
                None => true,
            },
        },
    )
}

/// What a client changes about a model.
pub struct UpdateProviderModelRequest {
    pub group_name: Option<String>,
    pub model: Option<String>,
    pub kind: Option<String>,
    pub context_window: Option<i32>,
}

/// A change to a model that has been checked.
pub struct ModelChange {
    pub group_name: Option<String>,
    pub model: Option<String>,
    pub kind: Option<String>,
    pub context_window: Option<i32>,
}

/// What is wrong with a change to a model, where something is.
pub open spec fn model_change_error(request: UpdateProviderModelRequest) -> Option<ErrorView> {
    if (request.group_name matches Some(name) && is_blank(name@)) || (request.model matches Some(
        name,
    ) && is_blank(name@)) {
        Some(bad("Model group and model name cannot be empty."@))
    } else if request.kind matches Some(kind) && !known_kind(kind@) {
        Some(bad("Model API format must be OpenAI-compatible or Anthropic."@))
    } else {
        None
    }
}

fn trim_given(s: &Option<String>) -> (r: Option<String>)
    ensures
        opt_string(r) == opt_trimmed(*s),
{
    match s {
        Some(text) => Some(trim(text.as_str()).to_owned()),
        None => None,
    }
}

fn is_given_blank(s: &Option<String>) -> (r: bool)
    ensures
        r == (s matches Some(text) && is_blank(text@)),
{
    match s {
        Some(text) => blank(text.as_str()),
        None => false,
    }
}

/// Checks a change to a model.
pub fn update_provider_model(request: UpdateProviderModelRequest) -> (r: Result<
    ModelChange,
    ApiError,
>)
    ensures
        match r {
            Ok(change) => {
                &&& model_change_error(request) is None
                &&& opt_string(change.group_name) == opt_trimmed(request.group_name)
                &&& opt_string(change.model) == opt_trimmed(request.model)
                &&& change.kind == request.kind
                &&& change.context_window == match request.context_window {
                    Some(n) => Some(clamped_window(n)),
                    None => None,
                }
            },
            Err(error) => model_change_error(request) == Some(error@),
        },
{
    if is_given_blank(&request.group_name) || is_given_blank(&request.model) {
        return Err(ApiError::bad("Model group and model name cannot be empty."));
    }
    if let Some(kind) = &request.kind {
        if !is_known_kind(kind.as_str()) {
            return Err(ApiError::bad("Model API format must be OpenAI-compatible or Anthropic."));
        }
    }
    Ok(
        ModelChange {
            group_name: trim_given(&request.group_name),
            model: trim_given(&request.model),
            kind: request.kind,
            context_window: match request.context_window {
                Some(n) => Some(clamp_window(n)),
                None => None,
            },
        },
    )
}

/// A switch of a model: what is stored, or the fallback where the model is not configured.
pub fn provider_model_bool(stored: Option<bool>, fallback: bool) -> (r: bool)
    ensures
        r == match stored {
            Some(value) => value,
            None => fallback,
        },
{
    match stored {
        Some(value) => value,
        None => fallback,
    }
}

/// Whether a model is sent the provider's own hosted tools: it is, unless that was switched off. Per
/// model, because a gateway implements any subset of a dialect, and a rejected tool fails the whole
/// turn.
pub fn provider_model_hosted_tools(stored: Option<bool>) -> (r: bool)
    ensures
        r == (stored != Some(false)),
{
    provider_model_bool(stored, true)
}

/// Whether a model may continue a stored chain: it may, unless that was switched off.
pub fn provider_model_chain_enabled(stored: Option<bool>) -> (r: bool)
    ensures
        r == (stored != Some(false)),
{
    provider_model_bool(stored, true)
}

/// Whether a model takes images: it does not, unless that was switched on.
pub fn provider_model_supports_images(stored: Option<bool>) -> (r: bool)
    ensures
        r == (stored == Some(true)),
{
    provider_model_bool(stored, false)
}

// ---------------------------------------------------------------- laws

/// Whatever is asked for, a stored context window is one that can be configured.
pub proof fn windows_are_in_range(window: i32)
    ensures
        MIN_CONTEXT_WINDOW <= clamped_window(window) <= MAX_CONTEXT_WINDOW,
        MIN_CONTEXT_WINDOW <= window <= MAX_CONTEXT_WINDOW ==> clamped_window(window) == window,
{
}

/// A provider is never changed to an address without encryption.
pub proof fn changed_providers_use_https(
    current: CurrentProvider,
    request: UpdateProviderRequest,
    change: ProviderChangeView,
)
    requires
        changed_provider(current, request) == Ok::<_, ErrorView>(change),
    ensures
        "https://"@.is_prefix_of(change.base_url),
        known_kind(change.kind),
{
}

/// A new provider whose address names something behind the scheme is stored with an encrypted
/// address that does not end in a slash.
pub proof fn new_providers_use_https(request: ProviderRequest, provider: ProviderView)
    requires
        new_provider(request) == Ok::<_, ErrorView>(provider),
        exists|i: int|
            "https://"@.len() <= i < request.base_url@.len() && request.base_url@[i] != '/',
    ensures
        "https://"@.is_prefix_of(provider.base_url),
        provider.base_url.last() != '/',
{
    let url = request.base_url@;
    trimmed_end_of_facts(url, '/');
    let i = choose|i: int| "https://"@.len() <= i < url.len() && url[i] != '/';
    lemma_trim_keeps(url, i);
    let n = "https://"@.len() as int;
    assert("https://"@ =~= url.subrange(0, n));
    assert(provider.base_url.subrange(0, n) =~= url.subrange(0, n));
}

proof fn lemma_trim_keeps(s: Seq<char>, i: int)
    requires
        0 <= i < s.len(),
        s[i] != '/',
    ensures
        i < trimmed_end_of(s, '/').len() <= s.len(),
        trimmed_end_of(s, '/') == s.take(trimmed_end_of(s, '/').len() as int),
        trimmed_end_of(s, '/').last() != '/',
    decreases s.len(),
{
    if s.last() == '/' {
        lemma_trim_keeps(s.drop_last(), i);
        let t = trimmed_end_of(s, '/');
        assert(s.drop_last().take(t.len() as int) =~= s.take(t.len() as int));
    } else {
        assert(s.take(s.len() as int) =~= s);
    }
}

/// A new provider is stored as it was given: its name and its key without the white space around
/// them, its address without slashes at its end, and as OpenAI-compatible where no kind was given.
pub proof fn new_providers_are_stored_as_given(request: ProviderRequest)
    ensures
        ({
            let named = request.kind matches Some(kind) ==> kind@ == "openai_compatible"@ || kind@
                == "openai_responses"@ || kind@ == "anthropic"@;
            let complete = named && "https://"@.is_prefix_of(request.base_url@) && !is_blank(
                request.api_key@,
            );
            match new_provider(request) {
                Ok(provider) => {
                    &&& complete && !is_blank(request.name@)
                    &&& provider.name == trimmed(request.name@)
                    &&& request.kind matches Some(kind) ==> provider.kind == kind@
                    &&& request.kind is None ==> provider.kind == "openai_compatible"@
                    &&& provider.base_url.is_prefix_of(request.base_url@)
                    &&& provider.base_url.len() > 0 ==> provider.base_url.last() != '/'
                    &&& request.base_url@.last() != '/' ==> provider.base_url == request.base_url@
                    &&& provider.api_key == trimmed(request.api_key@)
                    &&& request.default_model matches Some(model) ==> provider.default_model
                        == trimmed(model@)
                    &&& request.default_model is None ==> provider.default_model.len() == 0
                },
                Err(error) => {
                    &&& !complete || is_blank(request.name@)
                    &&& error.status == 400
                    &&& complete ==> error.message == "Provider name is required."@
                    &&& !complete ==> error.message
                        == "Provider type, HTTPS base URL, and API key are required."@
                },
            }
        }),
{
    trimmed_end_of_facts(request.base_url@, '/');
}

/// A change to a provider replaces what it gives and keeps the rest; a key is replaced only by one
/// that is not blank.
pub proof fn changes_keep_what_is_not_given(
    current: CurrentProvider,
    request: UpdateProviderRequest,
)
    ensures
        changed_provider(current, request) matches Ok(change) ==> {
            &&& request.name is None ==> change.name == current.name@
            &&& request.name matches Some(name) ==> change.name == if is_blank(name@) {
                current.name@
            } else {
                trimmed(name@)
            }
            &&& request.kind is None ==> change.kind == current.kind@
            &&& request.kind matches Some(kind) ==> change.kind == kind@
            &&& request.base_url is None ==> change.base_url == current.base_url@
            &&& request.base_url matches Some(url) ==> change.base_url == if is_blank(url@) {
                current.base_url@
            } else {
                trimmed_end_of(trimmed(url@), '/')
            }
            &&& request.api_key is None ==> change.api_key is None
            &&& request.api_key matches Some(key) ==> change.api_key == if is_blank(key@) {
                None
            } else {
                Some(trimmed(key@))
            }
        },
        changed_provider(current, request) matches Err(error) ==> {
            let kind = match request.kind {
                Some(kind) => kind@,
                None => current.kind@,
            };
            let named = kind == "openai_compatible"@ || kind == "openai_responses"@ || kind
                == "anthropic"@;
            &&& error.status == 400
            &&& !named ==> error.message
                == "Provider API format must be OpenAI-compatible or Anthropic."@
            &&& named ==> error.message == "Provider base URL must use HTTPS."@
        },
{
    if let Some(name) = request.name {
        trimmed_is_empty_iff_blank(name@);
    }
    if let Some(url) = request.base_url {
        trimmed_is_empty_iff_blank(url@);
    }
    if let Some(key) = request.api_key {
        trimmed_is_empty_iff_blank(key@);
    }
}

/// A model is stored with the switches that were asked for. What was left open is filled in: the
/// first place, a window of 128,000 tokens, no images, and both of the provider's own features.
pub proof fn models_are_stored_as_asked(model: NewModel, request: ProviderModelRequest)
    requires
        is_stored_model(model, request),
    ensures
        model.group_name@ == trimmed(request.group_name@),
        model.model@ == trimmed(request.model@),
        model.kind@ == request.kind@,
        request.sort_order matches Some(n) ==> model.sort_order == n,
        request.sort_order is None ==> model.sort_order == 0,
        request.context_window matches Some(n) ==> {
            &&& 4096 <= n <= 2_000_000 ==> model.context_window == n
            &&& n < 4096 ==> model.context_window == 4096
            &&& n > 2_000_000 ==> model.context_window == 2_000_000
        },
        request.context_window is None ==> model.context_window == 128_000,
        request.supports_images matches Some(yes) ==> model.supports_images == yes,
        request.supports_images is None ==> !model.supports_images,
        request.chain_context matches Some(yes) ==> model.chain_context == yes,
        request.chain_context is None ==> model.chain_context,
        request.hosted_tools matches Some(yes) ==> model.hosted_tools == yes,
        request.hosted_tools is None ==> model.hosted_tools,
{
}

/// A model is refused exactly where its group or its name is blank or its kind is unknown, and so is
/// a change that gives one of these.
pub proof fn models_need_a_group_a_name_and_a_kind(
    request: ProviderModelRequest,
    change: UpdateProviderModelRequest,
)
    ensures
        model_error(request) is None <==> !is_blank(request.group_name@) && !is_blank(
            request.model@,
        ) && (request.kind@ == "openai_compatible"@ || request.kind@ == "openai_responses"@
            || request.kind@ == "anthropic"@),
        model_change_error(change) is None <==> {
            &&& change.group_name matches Some(name) ==> !is_blank(name@)
            &&& change.model matches Some(name) ==> !is_blank(name@)
            &&& change.kind matches Some(kind) ==> kind@ == "openai_compatible"@ || kind@
                == "openai_responses"@ || kind@ == "anthropic"@
        },
        is_blank(request.group_name@) || is_blank(request.model@) ==> model_error(request) == Some(
            bad("Model group and model name are required."@),
        ),
        model_error(request) is Some && !is_blank(request.group_name@) && !is_blank(request.model@)
            ==> model_error(request) == Some(
            bad("Model API format must be OpenAI-compatible or Anthropic."@),
        ),
{
}

} // verus!
