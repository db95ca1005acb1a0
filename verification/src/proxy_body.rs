//! Chat request bodies on their way upstream: history repair, request
//! finishing, provider reasoning options and the upstream model name.
use vstd::prelude::*;

use crate::canonical::{canonical_json_string, canonical_v};
use crate::chat_content::{normalize_messages_for_upstream, normalize_messages_v};
use crate::chat_messages::{
    finalize_chat_request, finalize_v, repair_messages_for_upstream_with_options,
    repair_options_for_provider, repair_v, tool_outputs_fit_v,
};
use crate::config::{upstream_model_v, ProviderConfig, ProviderV};
use crate::json::{get_array_v, get_bool_v, get_v, set_v, Json, JsonV};
use crate::reasoning::needs_reasoning_content_v;
use crate::reasoning_options::{apply_reasoning_options, apply_reasoning_options_v};
use crate::text::{blank, is_blank};

verus! {

/// The body with its `model` replaced by the provider's upstream model,
/// unless that is blank.
pub open spec fn patch_model_v(value: JsonV, p: ProviderV) -> JsonV {
    if is_blank(upstream_model_v(p)) {
        value
    } else {
        set_v(value, "model"@, JsonV::Str(upstream_model_v(p)))
    }
}

/// Setting the model is defined: the body is an object (or null), or the
/// model is left alone.
pub open spec fn model_patch_defined(value: JsonV, p: ProviderV) -> bool {
    value is Object || value is Null || is_blank(upstream_model_v(p))
}

fn patch_model(value: &mut Json, provider: &ProviderConfig)
    requires
        model_patch_defined(old(value)@, provider@),
    ensures
        final(value)@ == patch_model_v(old(value)@, provider@),
{
    let upstream = provider.upstream_model();
    if !blank(upstream) {
        value.set("model", Json::str_of(upstream));
    }
}

/// A converted request body with only the upstream model replaced, as JSON
/// text.
pub fn patch_upstream_model(value: Json, provider: &ProviderConfig) -> (r: String)
    requires
        model_patch_defined(value@, provider@),
    ensures
        r@ == canonical_v(patch_model_v(value@, provider@)),
{
    let mut value = value;
    patch_model(&mut value, provider);
    canonical_json_string(&value)
}

/// Whether a request body asks for streaming.
pub open spec fn streaming_v(parsed: Option<JsonV>) -> bool {
    match parsed {
        Some(v) => get_bool_v(v, "stream"@) == Some(true),
        None => false,
    }
}

/// Whether a request body (read as JSON, when it is) asks for streaming.
pub fn is_streaming_upstream_body(parsed: Option<&Json>) -> (r: bool)
    ensures
        r == streaming_v(
            match parsed {
                Some(v) => Some(v@),
                None => None,
            },
        ),
{
    match parsed {
        Some(v) => match v.get_bool("stream") {
            Some(b) => b,
            None => false,
        },
        None => false,
    }
}

/// The messages of a body as they reach the repair step.
pub open spec fn body_messages_v(value: JsonV) -> Seq<JsonV> {
    match get_array_v(value, "messages"@) {
        Some(ms) => normalize_messages_v(ms),
        None => Seq::empty(),
    }
}

/// A Chat body as sent upstream: its messages normalized and repaired, the
/// request finished, the provider's reasoning options applied and the
/// upstream model set.
pub open spec fn normalized_body_v(value: JsonV, p: ProviderV, max_chars: nat) -> JsonV {
    let v1 = match get_array_v(value, "messages"@) {
        Some(ms) => set_v(
            value,
            "messages"@,
            JsonV::Array(repair_v(normalize_messages_v(ms), needs_reasoning_content_v(p), max_chars)),
        ),
        None => value,
    };
    let stream = get_bool_v(v1, "stream"@) == Some(true);
    patch_model_v(apply_reasoning_options_v(finalize_v(v1, stream), p), p)
}

/// Whether the model of this body can be set for the provider (see
/// [`model_patch_defined`]).
pub fn model_patch_ok(value: &Json, provider: &ProviderConfig) -> (r: bool)
    ensures
        r == model_patch_defined(value@, provider@),
{
    value.is_object() || value.is_null() || blank(provider.upstream_model())
}

/// Whether the tool outputs of a body's messages can be cut to
/// `tool_output_max_chars` once normalized.
pub fn upstream_body_fits(value: &Json, tool_output_max_chars: usize) -> (r: bool)
    ensures
        r == tool_outputs_fit_v(body_messages_v(value@), tool_output_max_chars as nat),
{
    match value.get_array("messages") {
        Some(ms) => {
            let mut ms = crate::json::clone_items(ms);
            normalize_messages_for_upstream(&mut ms);
            crate::chat_messages::tool_outputs_fit(&ms, tool_output_max_chars)
        },
        None => {
            proof {
                assert(body_messages_v(value@) =~= Seq::<JsonV>::empty());
            }
            true
        },
    }
}

/// Normalizes a Chat body for the active provider, as JSON text.
pub fn normalize_upstream_body(value: Json, provider: &ProviderConfig, tool_output_max_chars: usize) -> (r: String)
    requires
        model_patch_defined(value@, provider@),
        tool_outputs_fit_v(body_messages_v(value@), tool_output_max_chars as nat),
    ensures
        r@ == canonical_v(normalized_body_v(value@, provider@, tool_output_max_chars as nat)),
{
    let mut value = value;
    let ghost v0 = value@;
    let messages = match value.get_array("messages") {
        Some(ms) => Some(crate::json::clone_items(ms)),
        None => None,
    };
    match messages {
        Some(ms) => {
            let mut ms = ms;
            normalize_messages_for_upstream(&mut ms);
            let options = repair_options_for_provider(Some(provider), tool_output_max_chars);
            repair_messages_for_upstream_with_options(&mut ms, options);
            value.set("messages", Json::Array(ms));
        },
        None => {},
    }
    let stream = match value.get_bool("stream") {
        Some(b) => b,
        None => false,
    };
    assert(value@ is Object || value@ is Null || is_blank(upstream_model_v(provider@)));
    finalize_chat_request(&mut value, stream);
    assert(value@ is Object || value@ is Null || is_blank(upstream_model_v(provider@)));
    apply_reasoning_options(&mut value, provider);
    assert(value@ is Object || value@ is Null || is_blank(upstream_model_v(provider@)));
    patch_model(&mut value, provider);
    canonical_json_string(&value)
}

} // verus!
