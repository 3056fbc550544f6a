//! The names of the entries in requests, replies and events, and the words that stand under them:
//! no two of them are the same.

use vstd::prelude::*;
use vstd::string::*;

verus! {

/// How long each name is, and where names of one length differ.
pub proof fn names_are_told_apart()
    ensures
        "id"@.len() == 2,
        "exp"@.len() == 3,
        "iat"@.len() == 3,
        "sub"@.len() == 3,
        "typ"@.len() == 3,
        "url"@.len() == 3,
        "exp"@[0] == 'e',
        "iat"@[0] == 'i',
        "sub"@[0] == 's',
        "typ"@[0] == 't',
        "url"@[0] == 'u',
        "auto"@.len() == 4,
        "code"@.len() == 4,
        "data"@.len() == 4,
        "done"@.len() == 4,
        "name"@.len() == 4,
        "role"@.len() == 4,
        "text"@.len() == 4,
        "tool"@.len() == 4,
        "type"@.len() == 4,
        "user"@.len() == 4,
        "auto"@[0] == 'a' && "auto"@[1] == 'u',
        "code"@[0] == 'c' && "code"@[1] == 'o',
        "data"@[0] == 'd' && "data"@[1] == 'a',
        "done"@[0] == 'd' && "done"@[1] == 'o',
        "name"@[0] == 'n' && "name"@[1] == 'a',
        "role"@[0] == 'r' && "role"@[1] == 'o',
        "text"@[0] == 't' && "text"@[1] == 'e',
        "tool"@[0] == 't' && "tool"@[1] == 'o',
        "type"@[0] == 't' && "type"@[1] == 'y',
        "user"@[0] == 'u' && "user"@[1] == 's',
        "delta"@.len() == 5,
        "draft"@.len() == 5,
        "error"@.len() == 5,
        "image"@.len() == 5,
        "input"@.len() == 5,
        "model"@.len() == 5,
        "query"@.len() == 5,
        "round"@.len() == 5,
        "title"@.len() == 5,
        "tools"@.len() == 5,
        "delta"@[0] == 'd' && "delta"@[1] == 'e',
        "draft"@[0] == 'd' && "draft"@[1] == 'r',
        "error"@[0] == 'e' && "error"@[1] == 'r',
        "image"@[0] == 'i' && "image"@[1] == 'm',
        "input"@[0] == 'i' && "input"@[1] == 'n',
        "model"@[0] == 'm' && "model"@[1] == 'o',
        "query"@[0] == 'q' && "query"@[1] == 'u',
        "round"@[0] == 'r' && "round"@[1] == 'o',
        "title"@[0] == 't' && "title"@[1] == 'i',
        "tools"@[0] == 't' && "tools"@[1] == 'o',
        "base64"@.len() == 6,
        "detail"@.len() == 6,
        "effort"@.len() == 6,
        "engine"@.len() == 6,
        "events"@.len() == 6,
        "failed"@.len() == 6,
        "object"@.len() == 6,
        "output"@.len() == 6,
        "reason"@.len() == 6,
        "source"@.len() == 6,
        "status"@.len() == 6,
        "stream"@.len() == 6,
        "string"@.len() == 6,
        "system"@.len() == 6,
        "base64"@[0] == 'b' && "base64"@[4] == '6',
        "detail"@[0] == 'd' && "detail"@[4] == 'i',
        "effort"@[0] == 'e' && "effort"@[4] == 'r',
        "engine"@[0] == 'e' && "engine"@[4] == 'n',
        "events"@[0] == 'e' && "events"@[4] == 't',
        "failed"@[0] == 'f' && "failed"@[4] == 'e',
        "object"@[0] == 'o' && "object"@[4] == 'c',
        "output"@[0] == 'o' && "output"@[4] == 'u',
        "reason"@[0] == 'r' && "reason"@[4] == 'o',
        "source"@[0] == 's' && "source"@[4] == 'c',
        "status"@[0] == 's' && "status"@[4] == 'u',
        "stream"@[0] == 's' && "stream"@[4] == 'a',
        "string"@[0] == 's' && "string"@[4] == 'n',
        "system"@[0] == 's' && "system"@[4] == 'e',
        "choices"@.len() == 7,
        "content"@.len() == 7,
        "message"@.len() == 7,
        "results"@.len() == 7,
        "running"@.len() == 7,
        "sources"@.len() == 7,
        "summary"@.len() == 7,
        "choices"@[3] == 'i',
        "content"@[3] == 't',
        "message"@[3] == 's',
        "results"@[3] == 'u',
        "running"@[3] == 'n',
        "sources"@[3] == 'r',
        "summary"@[3] == 'm',
        "function"@.len() == 8,
        "messages"@.len() == 8,
        "required"@.len() == 8,
        "response"@.len() == 8,
        "thinking"@.len() == 8,
        "function"@[3] == 'c',
        "messages"@[3] == 's',
        "required"@[3] == 'u',
        "response"@[3] == 'p',
        "thinking"@[3] == 'n',
        "anthropic"@.len() == 9,
        "assistant"@.len() == 9,
        "compacted"@.len() == 9,
        "completed"@.len() == 9,
        "container"@.len() == 9,
        "forbidden"@.len() == 9,
        "image_url"@.len() == 9,
        "not_found"@.len() == 9,
        "reasoning"@.len() == 9,
        "anthropic"@[0] == 'a' && "anthropic"@[5] == 'o',
        "assistant"@[0] == 'a' && "assistant"@[5] == 't',
        "compacted"@[0] == 'c' && "compacted"@[5] == 'c',
        "completed"@[0] == 'c' && "completed"@[5] == 'e',
        "container"@[0] == 'c' && "container"@[5] == 'i',
        "forbidden"@[0] == 'f' && "forbidden"@[5] == 'd',
        "image_url"@[0] == 'i' && "image_url"@[5] == '_',
        "not_found"@[0] == 'n' && "not_found"@[5] == 'o',
        "reasoning"@[0] == 'r' && "reasoning"@[5] == 'n',
        "active_run"@.len() == 10,
        "input_text"@.len() == 10,
        "max_tokens"@.len() == 10,
        "media_type"@.len() == 10,
        "parameters"@.len() == 10,
        "properties"@.len() == 10,
        "summary_id"@.len() == 10,
        "transcript"@.len() == 10,
        "web_search"@.len() == 10,
        "active_run"@[2] == 't',
        "input_text"@[2] == 'p',
        "max_tokens"@[2] == 'x',
        "media_type"@[2] == 'd',
        "parameters"@[2] == 'r',
        "properties"@[2] == 'o',
        "summary_id"@[2] == 'm',
        "transcript"@[2] == 'a',
        "web_search"@[2] == 'b',
        "description"@.len() == 11,
        "input_image"@.len() == 11,
        "output_text"@.len() == 11,
        "temperature"@.len() == 11,
        "tool_result"@.len() == 11,
        "tool_rounds"@.len() == 11,
        "tool_use_id"@.len() == 11,
        "description"@[6] == 'p',
        "input_image"@[6] == 'i',
        "output_text"@[6] == '_',
        "temperature"@[6] == 'a',
        "tool_result"@[6] == 'e',
        "tool_rounds"@[6] == 'o',
        "tool_use_id"@[6] == 's',
        "input_schema"@.len() == 12,
        "source_count"@.len() == 12,
        "tool_call_id"@.len() == 12,
        "unauthorized"@.len() == 12,
        "input_schema"@[0] == 'i',
        "source_count"@[0] == 's',
        "tool_call_id"@[0] == 't',
        "unauthorized"@[0] == 'u',
        "error_message"@.len() == 13,
        "message_delta"@.len() == 13,
        "open_web_page"@.len() == 13,
        "error_message"@[0] == 'e',
        "message_delta"@[0] == 'm',
        "open_web_page"@[0] == 'o',
        "context_rounds"@.len() == 14,
        "context_tokens"@.len() == 14,
        "context_window"@.len() == 14,
        "internal_error"@.len() == 14,
        "context_rounds"@[8] == 'r',
        "context_tokens"@[8] == 't',
        "context_window"@[8] == 'w',
        "internal_error"@[8] == '_',
        "enable_markdown"@.len() == 15,
        "invalid_request"@.len() == 15,
        "server_tool_use"@.len() == 15,
        "enable_markdown"@[0] == 'e',
        "invalid_request"@[0] == 'i',
        "server_tool_use"@[0] == 's',
        "estimated_tokens"@.len() == 16,
        "openai_responses"@.len() == 16,
        "reasoning_effort"@.len() == 16,
        "through_sequence"@.len() == 16,
        "estimated_tokens"@[0] == 'e',
        "openai_responses"@[0] == 'o',
        "reasoning_effort"@[0] == 'r',
        "through_sequence"@[0] == 't',
        "openai_compatible"@.len() == 17,
        "reasoning_content"@.len() == 17,
        "openai_compatible"@[0] == 'o',
        "reasoning_content"@[0] == 'r',
        "content_block_delta"@.len() == 19,
        "content_block_start"@.len() == 19,
        "content_block_delta"@[14] == 'd',
        "content_block_start"@[14] == 's',
        "additionalProperties"@.len() == 20,
        "previous_response_id"@.len() == 20,
        "provider_chain_stale"@.len() == 20,
        "provider_unavailable"@.len() == 20,
        "additionalProperties"@[9] == 'l',
        "previous_response_id"@[9] == 'r',
        "provider_chain_stale"@[9] == 'c',
        "provider_unavailable"@[9] == 'u',
        "provider_rate_limited"@.len() == 21,
        "provider_access_denied"@.len() == 22,
        "invalid_provider_response"@.len() == 25,
        "provider_rejected_request"@.len() == 25,
        "provider_tool_unsupported"@.len() == 25,
        "invalid_provider_response"@[11] == 'v',
        "provider_rejected_request"@[11] == 'j',
        "provider_tool_unsupported"@[11] == 'o',
{
    reveal_strlit("active_run");
    reveal_strlit("additionalProperties");
    reveal_strlit("anthropic");
    reveal_strlit("assistant");
    reveal_strlit("auto");
    reveal_strlit("base64");
    reveal_strlit("choices");
    reveal_strlit("code");
    reveal_strlit("compacted");
    reveal_strlit("completed");
    reveal_strlit("container");
    reveal_strlit("content");
    reveal_strlit("content_block_delta");
    reveal_strlit("content_block_start");
    reveal_strlit("context_rounds");
    reveal_strlit("context_tokens");
    reveal_strlit("context_window");
    reveal_strlit("data");
    reveal_strlit("delta");
    reveal_strlit("description");
    reveal_strlit("detail");
    reveal_strlit("done");
    reveal_strlit("draft");
    reveal_strlit("effort");
    reveal_strlit("enable_markdown");
    reveal_strlit("engine");
    reveal_strlit("error");
    reveal_strlit("error_message");
    reveal_strlit("estimated_tokens");
    reveal_strlit("events");
    reveal_strlit("exp");
    reveal_strlit("failed");
    reveal_strlit("forbidden");
    reveal_strlit("function");
    reveal_strlit("iat");
    reveal_strlit("id");
    reveal_strlit("image");
    reveal_strlit("image_url");
    reveal_strlit("input");
    reveal_strlit("input_image");
    reveal_strlit("input_schema");
    reveal_strlit("input_text");
    reveal_strlit("internal_error");
    reveal_strlit("invalid_provider_response");
    reveal_strlit("invalid_request");
    reveal_strlit("max_tokens");
    reveal_strlit("media_type");
    reveal_strlit("message");
    reveal_strlit("message_delta");
    reveal_strlit("messages");
    reveal_strlit("model");
    reveal_strlit("name");
    reveal_strlit("not_found");
    reveal_strlit("object");
    reveal_strlit("open_web_page");
    reveal_strlit("openai_compatible");
    reveal_strlit("openai_responses");
    reveal_strlit("output");
    reveal_strlit("output_text");
    reveal_strlit("parameters");
    reveal_strlit("previous_response_id");
    reveal_strlit("properties");
    reveal_strlit("provider_access_denied");
    reveal_strlit("provider_chain_stale");
    reveal_strlit("provider_rate_limited");
    reveal_strlit("provider_rejected_request");
    reveal_strlit("provider_tool_unsupported");
    reveal_strlit("provider_unavailable");
    reveal_strlit("query");
    reveal_strlit("reason");
    reveal_strlit("reasoning");
    reveal_strlit("reasoning_content");
    reveal_strlit("reasoning_effort");
    reveal_strlit("required");
    reveal_strlit("response");
    reveal_strlit("results");
    reveal_strlit("role");
    reveal_strlit("round");
    reveal_strlit("running");
    reveal_strlit("server_tool_use");
    reveal_strlit("source");
    reveal_strlit("source_count");
    reveal_strlit("sources");
    reveal_strlit("status");
    reveal_strlit("stream");
    reveal_strlit("string");
    reveal_strlit("sub");
    reveal_strlit("summary");
    reveal_strlit("summary_id");
    reveal_strlit("system");
    reveal_strlit("temperature");
    reveal_strlit("text");
    reveal_strlit("thinking");
    reveal_strlit("through_sequence");
    reveal_strlit("title");
    reveal_strlit("tool");
    reveal_strlit("tool_call_id");
    reveal_strlit("tool_result");
    reveal_strlit("tool_rounds");
    reveal_strlit("tool_use_id");
    reveal_strlit("tools");
    reveal_strlit("transcript");
    reveal_strlit("typ");
    reveal_strlit("type");
    reveal_strlit("unauthorized");
    reveal_strlit("url");
    reveal_strlit("user");
    reveal_strlit("web_search");
}

} // verus!
