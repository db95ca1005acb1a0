//! What the settings page is told and asks for: the providers with a masked
//! preview of their keys, and the request that tests a key with its verdict.
use vstd::prelude::*;
use vstd::string::StringSliceAdditionalSpecFns;
use vstd::utf8::{decode_utf8, encode_utf8, encode_utf8_decode_utf8, is_char_boundary};

use crate::codex_setup::normalize_proxy_url_v;
use crate::config::{
    base_url_scheme_refusal_v, upstream_model_v, validate_base_url, validated_base_url_v, AppConfig,
    ProviderConfig, ProviderV,
};
use crate::env_sync::{signup_url, signup_url_v};
use crate::json::{object1, object2, object3, view_items, Json, JsonV};
use crate::provider::{list_presets, listed_v, preset_order_v};
use crate::text::{blank, concat2, concat3, is_blank, str_eq};

verus! {

// ---------------------------------------------------------------------------
// Key previews

/// A key can be previewed: it is short, or its first and last four bytes
/// are whole characters.
pub open spec fn key_preview_defined(key: Seq<char>) -> bool {
    let b = encode_utf8(key);
    b.len() <= 8 || (is_char_boundary(b, 4) && is_char_boundary(b, b.len() - 4))
}

/// The preview of a key: `***` for keys of at most 8 bytes, else its first
/// and last four bytes around `...`.
pub open spec fn key_preview_v(key: Seq<char>) -> Seq<char> {
    let b = encode_utf8(key);
    if b.len() <= 8 {
        "***"@
    } else {
        decode_utf8(b.take(4)) + "..."@ + decode_utf8(b.skip(b.len() - 4))
    }
}

/// Whether a key can be previewed (see [`key_preview_defined`]).
pub fn key_preview_ok(key: &str) -> (r: bool)
    ensures
        r == key_preview_defined(key@),
{
    let bytes = key.as_bytes();
    let n = bytes.len();
    proof {
        assert(key.spec_bytes() == encode_utf8(key@));
    }
    n <= 8 || (key.is_char_boundary(4) && key.is_char_boundary(n - 4))
}

pub fn mask_key_preview(key: &str) -> (r: String)
    requires
        key_preview_defined(key@),
    ensures
        r@ == key_preview_v(key@),
{
    let bytes = key.as_bytes();
    let n = bytes.len();
    proof {
        assert(key.spec_bytes() == encode_utf8(key@));
        assert(n as int == encode_utf8(key@).len());
    }
    if n <= 8 {
        return crate::text::owned("***");
    }
    let (head, _) = key.split_at(4);
    let (_, tail) = key.split_at(n - 4);
    proof {
        encode_utf8_decode_utf8(head@);
        encode_utf8_decode_utf8(tail@);
        assert(key.spec_bytes().subrange(0, 4) =~= key.spec_bytes().take(4));
        assert(key.spec_bytes().subrange(n - 4, n as int) =~= key.spec_bytes().skip(n - 4));
    }
    concat3(head, "...", tail)
}

// ---------------------------------------------------------------------------
// The providers the settings page lists

/// One listed provider as the settings page sees it, given its key when
/// one can be found.
pub open spec fn provider_row_v(p: ProviderV, preview: Option<Seq<char>>) -> JsonV {
    JsonV::Object(
        seq![
            ("id"@, JsonV::Str(p.id)),
            ("name"@, JsonV::Str(p.name)),
            ("signup_url"@, JsonV::Str(signup_url_v(p.id))),
            ("key_configured"@, JsonV::Bool(preview is Some)),
            (
                "key_preview"@,
                match preview {
                    Some(s) => JsonV::Str(s),
                    None => JsonV::Null,
                },
            ),
            ("base_url"@, JsonV::Str(p.base_url)),
            ("is_custom"@, JsonV::Bool(p.id == "custom"@)),
        ],
    )
}

/// The keys handed in for the listed providers can all be previewed.
pub open spec fn keys_previewable(keys: Seq<Option<String>>) -> bool {
    forall|i: int|
        0 <= i < keys.len() ==> match #[trigger] keys[i] {
            Some(k) => key_preview_defined(k@),
            None => true,
        }
}

/// The preview of an optional key.
pub open spec fn preview_of_v(key: Option<String>) -> Option<Seq<char>> {
    match key {
        Some(k) => Some(key_preview_v(k@)),
        None => None,
    }
}

/// The settings page's view of the providers, in menu order: `keys[i]` is
/// the key found for the `i`-th listed provider.
pub open spec fn bootstrap_v(app: &AppConfig, keys: Seq<Option<String>>) -> JsonV {
    let listed = listed_v(app.provider_map(), preset_order_v());
    JsonV::Object(
        seq![
            ("active"@, JsonV::Str(app.active@)),
            (
                "providers"@,
                JsonV::Array(
                    Seq::new(listed.len(), |i: int| provider_row_v(listed[i], preview_of_v(keys[i]))),
                ),
            ),
        ],
    )
}

fn provider_row(p: &ProviderConfig, key: &Option<String>) -> (r: Json)
    requires
        key matches Some(k) ==> key_preview_defined(k@),
    ensures
        r@ == provider_row_v(p@, preview_of_v(*key)),
{
    let preview = match key {
        Some(k) => Json::Str(mask_key_preview(k.as_str())),
        None => Json::Null,
    };
    let mut e: Vec<(String, Json)> = Vec::new();
    e.push(("id".to_string(), Json::Str(p.id.clone())));
    e.push(("name".to_string(), Json::Str(p.name.clone())));
    e.push(("signup_url".to_string(), Json::str_of(signup_url(p.id.as_str()))));
    e.push(("key_configured".to_string(), Json::Bool(key.is_some())));
    e.push(("key_preview".to_string(), preview));
    e.push(("base_url".to_string(), Json::Str(p.base_url.clone())));
    e.push(("is_custom".to_string(), Json::Bool(str_eq(p.id.as_str(), "custom"))));
    assert(crate::json::view_entries(e@) =~= crate::json::members_v(provider_row_v(p@, preview_of_v(*key))));
    Json::Object(e)
}

/// The providers the settings page lists, with key previews; `keys[i]` is
/// the key found for the `i`-th listed provider.
pub fn settings_bootstrap_body(app: &AppConfig, keys: &Vec<Option<String>>) -> (r: Json)
    requires
        app.wf(),
        keys@.len() == listed_v(app.provider_map(), preset_order_v()).len(),
        keys_previewable(keys@),
    ensures
        r@ == bootstrap_v(app, keys@),
{
    let listed = list_presets(app);
    let ghost lv = listed_v(app.provider_map(), preset_order_v());
    assert(listed@.map_values(|p: &ProviderConfig| p@) == lv);
    assert(listed@.len() == lv.len());
    let mut rows: Vec<Json> = Vec::new();
    let mut i: usize = 0;
    proof {
        crate::json::lemma_view_items_empty();
    }
    while i < listed.len()
        invariant
            i <= listed@.len(),
            listed@.len() == lv.len(),
            keys@.len() == lv.len(),
            listed@.map_values(|p: &ProviderConfig| p@) == lv,
            keys_previewable(keys@),
            view_items(rows@) == Seq::new(
                i as nat,
                |k: int| provider_row_v(lv[k], preview_of_v(keys@[k])),
            ),
        decreases listed@.len() - i,
    {
        assert(listed@[i as int]@ == lv[i as int]);
        assert(keys@[i as int] matches Some(k) ==> key_preview_defined(k@));
        let row = provider_row(listed[i], &keys[i]);
        proof {
            crate::json::lemma_view_items_push(rows@, row);
        }
        rows.push(row);
        i = i + 1;
        assert(view_items(rows@) =~= Seq::new(
            i as nat,
            |k: int| provider_row_v(lv[k], preview_of_v(keys@[k])),
        ));
    }
    let ghost rv = view_items(rows@);
    let r = object2("active", Json::Str(app.active.clone()), "providers", Json::Array(rows));
    assert(rv =~= Seq::new(lv.len(), |k: int| provider_row_v(lv[k], preview_of_v(keys@[k]))));
    r
}

// ---------------------------------------------------------------------------
// Saving a key

/// The provider once the Base URL field of the settings page is applied, or
/// why the field is refused. Only the relay provider takes a Base URL; an
/// empty field keeps the stored one, which must then not be blank.
pub open spec fn custom_base_url_v(p: ProviderV, base_url: Seq<char>) -> Result<ProviderV, Seq<char>> {
    if p.id != "custom"@ {
        Ok(p)
    } else if base_url.len() == 0 {
        if is_blank(p.base_url) {
            Err("请填写 Base URL"@)
        } else {
            Ok(p)
        }
    } else {
        match validated_base_url_v(base_url) {
            Some(u) => Ok(ProviderV { base_url: u, ..p }),
            None => Err(base_url_scheme_refusal_v()),
        }
    }
}

/// Applies the Base URL field of the settings page to `provider`.
pub fn apply_custom_base_url(provider: &mut ProviderConfig, base_url: &str) -> (r: Result<(), String>)
    ensures
        match custom_base_url_v(old(provider)@, base_url@) {
            Ok(p) => r is Ok && final(provider)@ == p,
            Err(why) => r matches Err(e) && e@ == why && final(provider)@ == old(provider)@,
        },
{
    if !str_eq(provider.id.as_str(), "custom") {
        return Ok(());
    }
    if base_url.is_empty() {
        if blank(provider.base_url.as_str()) {
            return Err("请填写 Base URL".to_string());
        }
        return Ok(());
    }
    match validate_base_url(base_url) {
        Ok(u) => {
            provider.base_url = u;
            Ok(())
        },
        Err(e) => Err(e),
    }
}

/// Whether a save may go on: a key was typed, or one is stored already
/// (`key_found`).
pub fn check_key_for_save(api_key: &str, key_found: bool) -> (r: Result<(), String>)
    ensures
        r is Ok <==> (api_key@.len() > 0 || key_found),
        r matches Err(e) ==> e@ == "API Key 不能为空"@,
{
    if !api_key.is_empty() || key_found {
        Ok(())
    } else {
        Err("API Key 不能为空".to_string())
    }
}

/// The confirmation of a saved provider.
pub open spec fn saved_message_v(name: Seq<char>) -> Seq<char> {
    "已保存 "@ + name + " 配置。请完全退出并重新打开 Codex Desktop。"@
}

pub fn saved_message(name: &str) -> (r: String)
    ensures
        r@ == saved_message_v(name@),
{
    concat3("已保存 ", name, " 配置。请完全退出并重新打开 Codex Desktop。")
}

/// The key a test uses: the typed one, or else the stored one (`stored`,
/// or why none could be read).
pub fn resolve_key_for_request(api_key: &str, stored: Result<String, String>) -> (r: Result<String, String>)
    ensures
        api_key@.len() > 0 ==> (r matches Ok(k) && k@ == api_key@),
        api_key@.len() == 0 ==> r == stored,
{
    if !api_key.is_empty() {
        return Ok(api_key.to_string());
    }
    stored
}

/// The answer to a key test that passed.
pub fn connected_message(name: &str) -> (r: String)
    ensures
        r@ == name@ + " 连接成功！"@,
{
    concat2(name, " 连接成功！")
}

/// Whether the settings window opens by itself at start: when the settings
/// could not be read (`None`), the active provider is unknown, or its key
/// cannot be found (`key_found`).
pub fn needs_first_run_setup(app: Option<&AppConfig>, key_found: bool) -> (r: bool)
    requires
        app matches Some(a) ==> a.wf(),
    ensures
        r == match app {
            None => true,
            Some(a) => !a.provider_map().contains_key(a.active@) || !key_found,
        },
{
    match app {
        None => true,
        Some(a) => match a.active_provider() {
            Ok(_) => !key_found,
            Err(_) => true,
        },
    }
}

// ---------------------------------------------------------------------------
// Testing a key

/// Why a key cannot be tested, when it cannot.
pub open spec fn key_test_refusal_v(p: ProviderV, api_key: Seq<char>) -> Option<Seq<char>> {
    if api_key.len() == 0 {
        Some("API Key 不能为空"@)
    } else if p.id == "custom"@ && is_blank(p.base_url) {
        Some("请填写 Base URL"@)
    } else {
        None
    }
}

/// The URL a key is tested against.
pub open spec fn key_test_url_v(p: ProviderV) -> Seq<char> {
    normalize_proxy_url_v(p.base_url) + "/chat/completions"@
}

/// The body of the test request: one short message to the upstream model.
pub open spec fn key_test_body_v(p: ProviderV) -> JsonV {
    JsonV::Object(
        seq![
            ("model"@, JsonV::Str(upstream_model_v(p))),
            (
                "messages"@,
                JsonV::Array(
                    seq![
                        JsonV::Object(
                            seq![("role"@, JsonV::Str("user"@)), ("content"@, JsonV::Str("ping"@))],
                        ),
                    ],
                ),
            ),
            ("max_tokens"@, JsonV::Number(crate::text::decimal_seq(8))),
        ],
    )
}

/// The URL and body of the request that tests a key, or why it cannot be
/// tested.
pub fn api_key_test_request(provider: &ProviderConfig, api_key: &str) -> (r: Result<(String, Json), String>)
    ensures
        match key_test_refusal_v(provider@, api_key@) {
            Some(why) => r matches Err(e) && e@ == why,
            None => r matches Ok(t) && t.0@ == key_test_url_v(provider@) && t.1@ == key_test_body_v(
                provider@,
            ),
        },
{
    if api_key.is_empty() {
        return Err("API Key 不能为空".to_string());
    }
    if str_eq(provider.id.as_str(), "custom") && blank(provider.base_url.as_str()) {
        return Err("请填写 Base URL".to_string());
    }
    let base = crate::codex_setup::normalize_proxy_url(provider.base_url.as_str());
    let url = concat2(base.as_str(), "/chat/completions");
    let message = object2("role", Json::str_of("user"), "content", Json::str_of("ping"));
    let mut items: Vec<Json> = Vec::new();
    items.push(message);
    let ghost mv = items@[0]@;
    assert(view_items(items@) =~= seq![mv]);
    let body = object3(
        "model",
        Json::str_of(provider.upstream_model()),
        "messages",
        Json::Array(items),
        "max_tokens",
        crate::json::number_of_u64(8),
    );
    Ok((url, body))
}

/// The verdict on a key test from the upstream status: a success passes;
/// otherwise the status (as `status_text` shows it) and the body explain
/// the failure.
pub open spec fn key_test_verdict_v(status: u16, status_text: Seq<char>, body: Seq<char>) -> Option<Seq<char>> {
    if 200 <= status <= 299 {
        None
    } else {
        Some("连接失败 ("@ + status_text + ")："@ + body)
    }
}

pub fn api_key_test_outcome(status: u16, status_text: &str, body: &str) -> (r: Result<(), String>)
    ensures
        match key_test_verdict_v(status, status_text@, body@) {
            Some(why) => r matches Err(e) && e@ == why,
            None => r is Ok,
        },
{
    if 200 <= status && status <= 299 {
        return Ok(());
    }
    let mut e = concat3("连接失败 (", status_text, ")：");
    crate::text::push_str(&mut e, body);
    Err(e)
}

} // verus!
