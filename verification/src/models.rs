//! The settings and requests that clients send.

use vstd::prelude::*;
use vstd::string::*;

use crate::error::{bad, ApiError, ErrorView};
use crate::json::{Json, JsonNumber, JsonView};
use crate::names::names_are_told_apart;
use crate::text::same;

verus! {

/// How many rounds of tool calls the agent may take where nothing else is asked for.
pub const DEFAULT_WEB_TOOL_ROUNDS: u8 = 8;

/// How an answer is to be generated.
pub struct GenerationSettings {
    /// The number that is stored and sent.
    pub temperature: Json,
    /// The same number as the bits of a single-precision float.
    pub temperature_bits: u32,
    pub reasoning_effort: String,
    pub enable_markdown: bool,
    pub stream: bool,
    pub context_rounds: Option<u8>,
    pub tool_rounds: Option<u8>,
}

/// The rounds of context that are sent where a client does not say: eight.
pub fn default_context_rounds() -> (r: Option<u8>)
    ensures
        r == Some(8u8),
{
    Some(8)
}

/// The tool rounds that are allowed where a client does not say.
pub fn default_tool_rounds() -> (r: Option<u8>)
    ensures
        r == Some(DEFAULT_WEB_TOOL_ROUNDS),
{
    Some(DEFAULT_WEB_TOOL_ROUNDS)
}

/// Whether the bits of a single-precision float stand for a number from 0 to 2. The bits of
/// positive floats are ordered as the floats are, 2.0 is 0x40000000, and negative zero is zero.
/// Infinities and what is not a number have larger bits.
pub open spec fn temperature_in_range(bits: u32) -> bool {
    bits <= 0x4000_0000 || bits == 0x8000_0000
}

/// Whether the bits of a single-precision float stand for no number at all.
pub open spec fn is_nan(bits: u32) -> bool {
    0x7f80_0000 < bits < 0x8000_0000 || 0xff80_0000 < bits
}

/// The bits of the temperature that is sent for one that was asked for: below 0 it is 0, above 2 it
/// is 2. Negative zero and what is not a number stay as they are.
pub open spec fn clamped_temperature(bits: u32) -> u32 {
    if is_nan(bits) || temperature_in_range(bits) {
        bits
    } else if bits < 0x8000_0000 {
        0x4000_0000
    } else {
        0
    }
}

/// The bits of the temperature that is sent for one that was asked for.
pub fn clamp_temperature(bits: u32) -> (r: u32)
    ensures
        r == clamped_temperature(bits),
{
    if (0x7f80_0000 < bits && bits < 0x8000_0000) || 0xff80_0000 < bits {
        return bits;
    }
    if bits <= 0x4000_0000 || bits == 0x8000_0000 {
        bits
    } else if bits < 0x8000_0000 {
        0x4000_0000
    } else {
        0
    }
}

/// A temperature that is sent is one that settings may hold, unless it is no number.
pub proof fn sent_temperatures_are_in_range(bits: u32)
    ensures
        is_nan(bits) || temperature_in_range(clamped_temperature(bits)),
        temperature_in_range(bits) ==> clamped_temperature(bits) == bits,
{
}

/// What is wrong with the settings, where something is; the first thing that is.
pub open spec fn settings_error(settings: GenerationSettings) -> Option<ErrorView> {
    if !temperature_in_range(settings.temperature_bits) {
        Some(bad("Temperature must be between 0 and 2."@))
    } else if settings.reasoning_effort@ != "low"@ && settings.reasoning_effort@ != "medium"@
        && settings.reasoning_effort@ != "high"@ {
        Some(bad("Reasoning effort must be low, medium, or high."@))
    } else if settings.context_rounds matches Some(n) && n > 20 {
        Some(bad("Context rounds must be between 0 and 20, or All."@))
    } else if settings.tool_rounds matches Some(n) && (n == 0 || n > 20) {
        Some(bad("Tool rounds must be between 1 and 20, or Unlimited."@))
    } else {
        None
    }
}

/// A number of rounds, or null for no limit.
pub open spec fn rounds_view(rounds: Option<u8>) -> JsonView {
    JsonView::natural_or_null(
        match rounds {
            Some(n) => Some(n as u64),
            None => None,
        },
    )
}

/// The settings as they are stored.
pub open spec fn settings_view(settings: GenerationSettings) -> JsonView {
    JsonView::object().with("temperature"@, settings.temperature@).with(
        "reasoning_effort"@,
        JsonView::Str(settings.reasoning_effort@),
    ).with("enable_markdown"@, JsonView::Bool(settings.enable_markdown)).with(
        "stream"@,
        JsonView::Bool(settings.stream),
    ).with("context_rounds"@, rounds_view(settings.context_rounds)).with(
        "tool_rounds"@,
        rounds_view(settings.tool_rounds),
    )
}

fn write_rounds(rounds: Option<u8>) -> (r: Json)
    ensures
        r@ == rounds_view(rounds),
{
    match rounds {
        Some(n) => Json::natural(n as u64),
        None => Json::Null,
    }
}

/// Checks the settings and gives the form in which they are stored.
pub fn validate_generation_settings(settings: GenerationSettings) -> (r: Result<Json, ApiError>)
    ensures
        match r {
            Ok(stored) => settings_error(settings) is None && stored@ == settings_view(settings),
            Err(error) => settings_error(settings) == Some(error@),
        },
{
    let bits = settings.temperature_bits;
    if !(bits <= 0x4000_0000 || bits == 0x8000_0000) {
        return Err(ApiError::bad("Temperature must be between 0 and 2."));
    }
    let effort = settings.reasoning_effort.as_str();
    if !same(effort, "low") && !same(effort, "medium") && !same(effort, "high") {
        return Err(ApiError::bad("Reasoning effort must be low, medium, or high."));
    }
    if let Some(rounds) = settings.context_rounds {
        if rounds > 20 {
            return Err(ApiError::bad("Context rounds must be between 0 and 20, or All."));
        }
    }
    if let Some(rounds) = settings.tool_rounds {
        if rounds == 0 || rounds > 20 {
            return Err(ApiError::bad("Tool rounds must be between 1 and 20, or Unlimited."));
        }
    }
    let ghost whole = settings;
    let context_rounds = write_rounds(settings.context_rounds);
    let tool_rounds = write_rounds(settings.tool_rounds);
    let stored = Json::object().with("temperature", settings.temperature).with(
        "reasoning_effort",
        Json::Str(settings.reasoning_effort),
    ).with("enable_markdown", Json::Bool(settings.enable_markdown)).with(
        "stream",
        Json::Bool(settings.stream),
    ).with("context_rounds", context_rounds).with("tool_rounds", tool_rounds);
    assert(stored@ == settings_view(whole));
    Ok(stored)
}

/// Settings whose rounds are left to the defaults are never refused for their rounds.
pub proof fn default_rounds_are_valid(settings: GenerationSettings)
    requires
        settings.context_rounds == Some(8u8),
        settings.tool_rounds == Some(DEFAULT_WEB_TOOL_ROUNDS),
        temperature_in_range(settings.temperature_bits),
        settings.reasoning_effort@ == "low"@ || settings.reasoning_effort@ == "medium"@
            || settings.reasoning_effort@ == "high"@,
    ensures
        settings_error(settings) is None,
{
}

/// The settings are stored as they were given, each under its own name; rounds without a limit are
/// stored as null.
pub proof fn settings_are_stored_as_given(settings: GenerationSettings)
    ensures
        ({
            let stored = settings_view(settings);
            &&& stored.at("temperature"@) == settings.temperature@
            &&& stored.at("reasoning_effort"@) == JsonView::Str(settings.reasoning_effort@)
            &&& stored.at("enable_markdown"@) == JsonView::Bool(settings.enable_markdown)
            &&& stored.at("stream"@) == JsonView::Bool(settings.stream)
            &&& settings.context_rounds matches Some(n) ==> stored.at("context_rounds"@)
                == JsonView::Number(JsonNumber::Natural(n as u64))
            &&& settings.context_rounds is None ==> stored.field("context_rounds"@) == Some(
                JsonView::Null,
            )
            &&& settings.tool_rounds matches Some(n) ==> stored.at("tool_rounds"@)
                == JsonView::Number(JsonNumber::Natural(n as u64))
            &&& settings.tool_rounds is None ==> stored.field("tool_rounds"@) == Some(
                JsonView::Null,
            )
        }),
{
    names_are_told_apart();
}

/// Settings are refused exactly where one of them is out of range, and the message names the first
/// that is.
pub proof fn settings_are_refused_out_of_range(settings: GenerationSettings)
    ensures
        ({
            let hot = !(settings.temperature_bits <= 0x4000_0000 || settings.temperature_bits
                == 0x8000_0000);
            let strange = !(settings.reasoning_effort@ == "low"@ || settings.reasoning_effort@
                == "medium"@ || settings.reasoning_effort@ == "high"@);
            let long = settings.context_rounds matches Some(n) && n > 20;
            let many = settings.tool_rounds matches Some(n) && !(1 <= n <= 20);
            &&& settings_error(settings) is None <==> !hot && !strange && !long && !many
            &&& settings_error(settings) matches Some(error) ==> {
                &&& error.status == 400 && error.code == "invalid_request"@
                &&& hot ==> error.message == "Temperature must be between 0 and 2."@
                &&& !hot && strange ==> error.message
                    == "Reasoning effort must be low, medium, or high."@
                &&& !hot && !strange && long ==> error.message
                    == "Context rounds must be between 0 and 20, or All."@
                &&& !hot && !strange && !long && many ==> error.message
                    == "Tool rounds must be between 1 and 20, or Unlimited."@
            }
        }),
{
}

/// A temperature above the range is sent as its upper end and one below it as its lower end; what is
/// no number is sent as it is.
pub proof fn temperatures_move_to_the_nearer_end(bits: u32)
    ensures
        0x4000_0000 < bits <= 0x7f80_0000 ==> clamped_temperature(bits) == 0x4000_0000,
        0x8000_0000 < bits <= 0xff80_0000 ==> clamped_temperature(bits) == 0,
        0x7f80_0000 < bits < 0x8000_0000 || 0xff80_0000 < bits ==> clamped_temperature(bits) == bits,
        bits <= 0x4000_0000 || bits == 0x8000_0000 ==> clamped_temperature(bits) == bits,
{
}

} // verus!
