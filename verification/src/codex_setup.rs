//! The Codex Desktop configuration the helper writes and reads: the
//! `config.toml` table (held as a JSON document), the proxy URL checks, the
//! Computer Use plugin switches, and small text helpers.
use vstd::prelude::*;

use crate::config::{proxy_base_url_v, AppConfig, ProviderConfig, ProviderV};
use crate::json::{
    deep_clone, get_bool_v, get_str_v, get_v, members_v, object1, remove_v, set_v, Json, JsonV,
};
use crate::presets::{builtin_presets, builtin_presets_v};
use crate::text::{
    ascii_lowercase, chars_of, contains, contains_seq, is_white, lower_seq, split_on, split_seq,
    str_eq, string_of_range, trim, trim_seq, views,
};

verus! {

/// The host the local proxy listens on.
pub const DEFAULT_HOST: &'static str = "127.0.0.1";

/// The id of the provider entry Codex Desktop shows for third-party models.
pub const CC_SWITCH_CODEX_PROVIDER_ID: &'static str = "custom";

/// The provider key the helper itself once wrote.
pub const PROVIDER_ID: &'static str = "codex-helper";

// ---------------------------------------------------------------------------
// Text helpers

/// `s` without leading characters `c`.
pub open spec fn strip_leading_v(s: Seq<char>, c: char) -> Seq<char>
    decreases s.len(),
{
    if s.len() > 0 && s[0] == c {
        strip_leading_v(s.drop_first(), c)
    } else {
        s
    }
}

/// `s` without trailing characters `c`.
pub open spec fn strip_trailing_v(s: Seq<char>, c: char) -> Seq<char>
    decreases s.len(),
{
    if s.len() > 0 && s.last() == c {
        strip_trailing_v(s.drop_last(), c)
    } else {
        s
    }
}

/// `str::trim_matches` for one character.
pub open spec fn trim_matches_v(s: Seq<char>, c: char) -> Seq<char> {
    strip_trailing_v(strip_leading_v(s, c), c)
}

proof fn lemma_strip_leading(s: Seq<char>, c: char, i: int)
    requires
        0 <= i <= s.len(),
        forall|k: int| 0 <= k < i ==> #[trigger] s[k] == c,
        i == s.len() || s[i] != c,
    ensures
        strip_leading_v(s, c) == s.subrange(i, s.len() as int),
    decreases i,
{
    if i == 0 {
        assert(s.subrange(0, s.len() as int) =~= s);
    } else {
        let t = s.drop_first();
        assert forall|k: int| 0 <= k < i - 1 implies #[trigger] t[k] == c by {
            assert(t[k] == s[k + 1]);
        }
        if i < s.len() {
            assert(t[i - 1] == s[i]);
        }
        lemma_strip_leading(t, c, i - 1);
        assert(t.subrange(i - 1, t.len() as int) =~= s.subrange(i, s.len() as int));
    }
}

proof fn lemma_strip_trailing(s: Seq<char>, c: char, j: int)
    requires
        0 <= j <= s.len(),
        forall|k: int| j <= k < s.len() ==> #[trigger] s[k] == c,
        j == 0 || s[j - 1] != c,
    ensures
        strip_trailing_v(s, c) == s.subrange(0, j),
    decreases s.len() - j,
{
    if j == s.len() {
        assert(s.subrange(0, j) =~= s);
    } else {
        let t = s.drop_last();
        assert forall|k: int| j <= k < t.len() implies #[trigger] t[k] == c by {
            assert(t[k] == s[k]);
        }
        if j > 0 {
            assert(t[j - 1] == s[j - 1]);
        }
        lemma_strip_trailing(t, c, j);
        assert(t.subrange(0, j) =~= s.subrange(0, j));
    }
}

/// `str::trim_matches` for one character, as an owned string.
pub fn trim_matches(s: &str, c: char) -> (r: String)
    ensures
        r@ == trim_matches_v(s@, c),
{
    let v = chars_of(s);
    let mut i: usize = 0;
    while i < v.len() && v[i] == c
        invariant
            i <= v.len(),
            forall|k: int| 0 <= k < i ==> #[trigger] v@[k] == c,
        decreases v.len() - i,
    {
        i = i + 1;
    }
    proof {
        lemma_strip_leading(v@, c, i as int);
    }
    let ghost t = v@.subrange(i as int, v@.len() as int);
    let mut j: usize = v.len();
    while j > i && v[j - 1] == c
        invariant
            i <= j <= v.len(),
            forall|k: int| j <= k < v.len() ==> #[trigger] v@[k] == c,
        decreases j,
    {
        j = j - 1;
    }
    proof {
        assert forall|k: int| j - i <= k < t.len() implies #[trigger] t[k] == c by {
            assert(t[k] == v@[k + i]);
        }
        if j > i {
            assert(t[j - i - 1] == v@[j - 1]);
        }
        lemma_strip_trailing(t, c, j - i);
        assert(t.subrange(0, j - i) =~= v@.subrange(i as int, j as int));
    }
    string_of_range(&v, i, j)
}

/// A path from a config value: trimmed, then without wrapping single and
/// double quotes.
pub open spec fn strip_quotes_v(value: Seq<char>) -> Seq<char> {
    trim_matches_v(trim_matches_v(trim_seq(value), '\''), '"')
}

pub fn strip_quotes(value: &str) -> (r: String)
    ensures
        r@ == strip_quotes_v(value@),
{
    let t = trim(value);
    let a = trim_matches(t.as_str(), '\'');
    trim_matches(a.as_str(), '"')
}

/// A proxy URL without trailing slashes.
pub open spec fn normalize_proxy_url_v(url: Seq<char>) -> Seq<char> {
    strip_trailing_v(url, '/')
}

pub fn normalize_proxy_url(url: &str) -> (r: String)
    ensures
        r@ == normalize_proxy_url_v(url@),
{
    let v = chars_of(url);
    let mut j: usize = v.len();
    while j > 0 && v[j - 1] == '/'
        invariant
            j <= v.len(),
            v@ == url@,
            forall|k: int| j <= k < v.len() ==> #[trigger] v@[k] == '/',
        decreases j,
    {
        j = j - 1;
    }
    proof {
        lemma_strip_trailing(v@, '/', j as int);
    }
    string_of_range(&v, 0, j)
}

/// A URL that points at the helper's local proxy.
pub open spec fn is_local_helper_proxy_url_v(url: Seq<char>) -> bool {
    contains_seq(url, "127.0.0.1"@) && contains_seq(url, "/v1"@)
}

pub fn is_local_helper_proxy_url(url: &str) -> (r: bool)
    ensures
        r == is_local_helper_proxy_url_v(url@),
{
    contains(url, "127.0.0.1") && contains(url, "/v1")
}

/// `s` with every `from` character replaced by `to`.
pub open spec fn replace_char_v(s: Seq<char>, from: char, to: Seq<char>) -> Seq<char>
    decreases s.len(),
{
    if s.len() == 0 {
        Seq::empty()
    } else {
        replace_char_v(s.drop_last(), from, to) + if s.last() == from {
            to
        } else {
            seq![s.last()]
        }
    }
}

fn replace_char(s: &str, from: char, to: &str) -> (r: String)
    ensures
        r@ == replace_char_v(s@, from, to@),
{
    let v = chars_of(s);
    let mut r = String::new();
    let mut i: usize = 0;
    proof {
        assert(v@.take(0) =~= Seq::<char>::empty());
    }
    while i < v.len()
        invariant
            i <= v.len(),
            v@ == s@,
            r@ == replace_char_v(v@.take(i as int), from, to@),
        decreases v.len() - i,
    {
        proof {
            assert(v@.take(i + 1).drop_last() =~= v@.take(i as int));
            assert(v@.take(i + 1).last() == v@[i as int]);
        }
        if v[i] == from {
            crate::text::push_str(&mut r, to);
        } else {
            crate::text::push_char(&mut r, v[i]);
            assert(r@ =~= replace_char_v(v@.take(i as int), from, to@) + seq![v@[i as int]]);
        }
        i = i + 1;
    }
    proof {
        assert(v@.take(v.len() as int) =~= v@);
    }
    r
}

/// A text quoted for AppleScript: backslashes doubled, then quotes escaped.
pub open spec fn escape_applescript_v(s: Seq<char>) -> Seq<char> {
    replace_char_v(replace_char_v(s, '\\', seq!['\\', '\\']), '"', seq!['\\', '"'])
}

pub fn escape_applescript(s: &str) -> (r: String)
    ensures
        r@ == escape_applescript_v(s@),
{
    proof {
        reveal_strlit("\\\\");
        reveal_strlit("\\\"");
    }
    let a = replace_char(s, '\\', "\\\\");
    let r = replace_char(a.as_str(), '"', "\\\"");
    assert("\\\\"@ =~= seq!['\\', '\\']);
    assert("\\\""@ =~= seq!['\\', '"']);
    r
}

/// A text for a single-quoted PowerShell string: quotes doubled.
pub open spec fn escape_powershell_single_quoted_v(s: Seq<char>) -> Seq<char> {
    replace_char_v(s, '\'', seq!['\'', '\''])
}

pub fn escape_powershell_single_quoted(value: &str) -> (r: String)
    ensures
        r@ == escape_powershell_single_quoted_v(value@),
{
    proof {
        reveal_strlit("''");
    }
    let r = replace_char(value, '\'', "''");
    assert("''"@ =~= seq!['\'', '\'']);
    r
}

// ---------------------------------------------------------------------------
// The Computer Use plugin path

/// A filesystem path.
#[verifier::external_type_specification]
#[verifier::external_body]
pub struct ExPathBuf(std::path::PathBuf);

/// The parent that `Path::parent` gives of a path, owned.
pub uninterp spec fn path_parent_of(p: std::path::PathBuf) -> Option<std::path::PathBuf>;

/// The path that `Path::join` makes of a path and one segment.
pub uninterp spec fn path_joined(p: std::path::PathBuf, segment: Seq<char>) -> std::path::PathBuf;

/// The path that `PathBuf::from` makes of a text.
pub uninterp spec fn path_of_text(s: Seq<char>) -> std::path::PathBuf;

/// `Path::parent`, as an owned path; its result is named by `path_parent_of`.
#[verifier::external_body]
fn path_parent(p: &std::path::PathBuf) -> (r: Option<std::path::PathBuf>)
    ensures
        r == path_parent_of(*p),
{
    p.parent().map(|x| x.to_path_buf())
}

/// `Path::join`; its result is named by `path_joined`.
#[verifier::external_body]
fn path_join(p: &std::path::PathBuf, segment: &str) -> (r: std::path::PathBuf)
    ensures
        r == path_joined(*p, segment@),
{
    p.join(segment)
}

/// `PathBuf::from`; its result is named by `path_of_text`.
#[verifier::external_body]
fn path_from(s: &str) -> (r: std::path::PathBuf)
    ensures
        r == path_of_text(s@),
{
    std::path::PathBuf::from(s)
}

/// The folders from the Codex CLI's directory to its bundled Computer Use
/// plugin.
pub open spec fn bundled_plugin_segments_v() -> Seq<Seq<char>> {
    seq!["plugins"@, "openai-bundled"@, "plugins"@, "computer-use"@]
}

/// Where the bundled Computer Use plugin lies next to the Codex CLI:
/// `plugins/openai-bundled/plugins/computer-use` in the CLI's directory, or
/// `computer-use` when the CLI path has no parent.
pub fn bundled_plugin_path(codex_cli: &std::path::PathBuf) -> (r: std::path::PathBuf)
    ensures
        r == match path_parent_of(*codex_cli) {
            Some(resources) => path_joined(
                path_joined(path_joined(path_joined(resources, "plugins"@), "openai-bundled"@), "plugins"@),
                "computer-use"@,
            ),
            None => path_of_text("computer-use"@),
        },
{
    match path_parent(codex_cli) {
        Some(resources) => {
            let a = path_join(&resources, "plugins");
            let b = path_join(&a, "openai-bundled");
            let c = path_join(&b, "plugins");
            path_join(&c, "computer-use")
        },
        None => path_from("computer-use"),
    }
}

// ---------------------------------------------------------------------------
// The config table

/// A table member when it is a table, else an empty table.
pub open spec fn table_or_empty_v(v: Option<JsonV>) -> JsonV {
    match v {
        Some(JsonV::Object(e)) => JsonV::Object(e),
        _ => JsonV::Object(Seq::empty()),
    }
}

fn table_or_empty(v: Option<&Json>) -> (r: Json)
    ensures
        r@ == table_or_empty_v(
            match v {
                Some(x) => Some(x@),
                None => None,
            },
        ),
{
    match v {
        Some(x) => if x.is_object() {
            deep_clone(x)
        } else {
            Json::empty_object()
        },
        None => Json::empty_object(),
    }
}

/// The table with the features Computer Use needs turned on: `js_repl`,
/// `plugins` and `apps`; other feature flags are kept.
pub open spec fn ensure_features_v(table: JsonV) -> JsonV {
    let f0 = table_or_empty_v(get_v(table, "features"@));
    let f1 = set_v(
        set_v(set_v(f0, "js_repl"@, JsonV::Bool(true)), "plugins"@, JsonV::Bool(true)),
        "apps"@,
        JsonV::Bool(true),
    );
    set_v(remove_v(table, "features"@), "features"@, f1)
}

/// Turns on the features Computer Use needs.
pub fn ensure_desktop_automation_features(table: &mut Json)
    requires
        old(table)@ is Object,
    ensures
        final(table)@ == ensure_features_v(old(table)@),
        final(table)@ is Object,
{
    let mut features = table_or_empty(table.get("features"));
    features.set("js_repl", Json::Bool(true));
    features.set("plugins", Json::Bool(true));
    features.set("apps", Json::Bool(true));
    table.remove("features");
    table.set("features", features);
}

/// Law: after turning the features on, `js_repl`, `plugins` and `apps` are
/// all `true`, and every other feature flag keeps its value.
pub proof fn lemma_features_enabled(table: JsonV, key: Seq<char>)
    requires
        table is Object,
    ensures
        get_v(get_v(ensure_features_v(table), "features"@)->0, "js_repl"@) == Some(JsonV::Bool(true)),
        get_v(get_v(ensure_features_v(table), "features"@)->0, "plugins"@) == Some(JsonV::Bool(true)),
        get_v(get_v(ensure_features_v(table), "features"@)->0, "apps"@) == Some(JsonV::Bool(true)),
        key != "js_repl"@ && key != "plugins"@ && key != "apps"@ ==> get_v(
            get_v(ensure_features_v(table), "features"@)->0,
            key,
        ) == get_v(table_or_empty_v(get_v(table, "features"@)), key),
{
    let f0 = table_or_empty_v(get_v(table, "features"@));
    let f1 = set_v(f0, "js_repl"@, JsonV::Bool(true));
    let f2 = set_v(f1, "plugins"@, JsonV::Bool(true));
    let f3 = set_v(f2, "apps"@, JsonV::Bool(true));
    crate::json::lemma_get_remove(table, "features"@, "features"@);
    crate::json::lemma_get_set(remove_v(table, "features"@), "features"@, f3, "features"@);
    reveal_strlit("js_repl");
    reveal_strlit("plugins");
    reveal_strlit("apps");
    assert("js_repl"@[0] != "plugins"@[0]);
    assert("js_repl"@.len() != "apps"@.len());
    assert("plugins"@.len() != "apps"@.len());
    crate::json::lemma_get_set(f2, "apps"@, JsonV::Bool(true), "js_repl"@);
    crate::json::lemma_get_set(f2, "apps"@, JsonV::Bool(true), "plugins"@);
    crate::json::lemma_get_set(f2, "apps"@, JsonV::Bool(true), "apps"@);
    crate::json::lemma_get_set(f1, "plugins"@, JsonV::Bool(true), "js_repl"@);
    crate::json::lemma_get_set(f1, "plugins"@, JsonV::Bool(true), "plugins"@);
    crate::json::lemma_get_set(f0, "js_repl"@, JsonV::Bool(true), "js_repl"@);
    crate::json::lemma_get_set(f2, "apps"@, JsonV::Bool(true), key);
    crate::json::lemma_get_set(f1, "plugins"@, JsonV::Bool(true), key);
    crate::json::lemma_get_set(f0, "js_repl"@, JsonV::Bool(true), key);
}

/// The provider keys the helper removes before writing its own: its old
/// key and the ids of the built-in presets.
pub open spec fn stale_provider_keys_v() -> Seq<Seq<char>> {
    seq!["codex-helper"@] + Seq::new(builtin_presets_v().len(), |i: int| builtin_presets_v()[i].id)
}

/// A table without the given keys.
pub open spec fn remove_keys_v(table: JsonV, keys: Seq<Seq<char>>) -> JsonV
    decreases keys.len(),
{
    if keys.len() == 0 {
        table
    } else {
        remove_v(remove_keys_v(table, keys.drop_last()), keys.last())
    }
}

proof fn lemma_remove_keys_object(table: JsonV, keys: Seq<Seq<char>>)
    requires
        table is Object,
    ensures
        remove_keys_v(table, keys) is Object,
    decreases keys.len(),
{
    if keys.len() > 0 {
        lemma_remove_keys_object(table, keys.drop_last());
    }
}

/// Removes only the provider keys the helper wrote, keeping the user's own
/// providers.
pub fn scrub_stale_helper_provider_keys(providers: &mut Json)
    ensures
        final(providers)@ == remove_keys_v(old(providers)@, stale_provider_keys_v()),
{
    let ghost p0 = providers@;
    let ghost keys = stale_provider_keys_v();
    providers.remove(PROVIDER_ID);
    proof {
        assert(keys.take(1) =~= seq!["codex-helper"@]);
        assert(keys.take(1).drop_last() =~= Seq::<Seq<char>>::empty());
        assert(remove_keys_v(p0, Seq::<Seq<char>>::empty()) == p0);
        assert(remove_keys_v(p0, keys.take(1)) == remove_v(p0, "codex-helper"@));
    }
    let presets = builtin_presets();
    let mut i: usize = 0;
    while i < presets.len()
        invariant
            i <= presets.len(),
            keys == stale_provider_keys_v(),
            keys.len() == presets.len() + 1,
            forall|k: int| 0 <= k < presets.len() ==> #[trigger] keys[k + 1] == presets@[k].id@,
            providers@ == remove_keys_v(p0, keys.take(i + 1)),
        decreases presets.len() - i,
    {
        proof {
            assert(keys.take(i + 2).drop_last() =~= keys.take(i + 1));
            assert(keys.take(i + 2).last() == keys[i + 1]);
        }
        providers.remove(presets[i].id.as_str());
        i = i + 1;
    }
    proof {
        assert(keys.take(presets.len() + 1) =~= keys);
    }
}

/// The `[model_providers.custom]` table the helper writes.
pub open spec fn provider_table_v(label: Seq<char>, base_url: Seq<char>, bearer: Seq<char>) -> JsonV {
    JsonV::Object(
        seq![
            ("name"@, JsonV::Str(label)),
            ("base_url"@, JsonV::Str(base_url)),
            ("experimental_bearer_token"@, JsonV::Str(bearer)),
            ("wire_api"@, JsonV::Str("responses"@)),
            ("requires_openai_auth"@, JsonV::Bool(true)),
        ],
    )
}

/// The table without the Windows sandbox setting (and without an empty
/// `windows` table).
pub open spec fn drop_windows_sandbox_v(table: JsonV) -> JsonV {
    match get_v(table, "windows"@) {
        Some(JsonV::Object(w)) => {
            let w2 = remove_v(JsonV::Object(w), "sandbox"@);
            if members_v(w2).len() == 0 {
                remove_v(table, "windows"@)
            } else {
                set_v(table, "windows"@, w2)
            }
        },
        _ => table,
    }
}

/// The Codex config table pointing Codex Desktop at the local proxy: the
/// existing table with the helper's provider entry, model, catalog and
/// reasoning effort set, automation features on, and the settings that make
/// Desktop misbehave removed.
pub open spec fn render_table_v(
    existing: JsonV,
    default_model: Seq<char>,
    catalog_path: Seq<char>,
    reasoning_effort: Seq<char>,
    label: Seq<char>,
    base_url: Seq<char>,
    bearer: Seq<char>,
) -> JsonV {
    let m1 = set_v(existing, "model_provider"@, JsonV::Str("custom"@));
    let m2 = set_v(m1, "preferred_auth_method"@, JsonV::Str("apikey"@));
    let m3 = set_v(m2, "model"@, JsonV::Str(default_model));
    let m4 = set_v(m3, "model_catalog_json"@, JsonV::Str(catalog_path));
    let m5 = set_v(m4, "model_reasoning_effort"@, JsonV::Str(reasoning_effort));
    let m6 = remove_v(m5, "disable_response_storage"@);
    let m7 = ensure_features_v(m6);
    let m8 = remove_v(remove_v(m7, "sandbox_mode"@), "approval_policy"@);
    let m9 = drop_windows_sandbox_v(m8);
    let m10 = set_v(m9, "experimental_bearer_token"@, JsonV::Str(bearer));
    let providers = remove_keys_v(
        table_or_empty_v(get_v(m10, "model_providers"@)),
        stale_provider_keys_v(),
    );
    let m11 = remove_v(m10, "model_providers"@);
    set_v(
        m11,
        "model_providers"@,
        set_v(providers, "custom"@, provider_table_v(label, base_url, bearer)),
    )
}

proof fn lemma_keep_features_set(m: JsonV, k: Seq<char>, v: JsonV)
    requires
        m is Object,
        k != "features"@,
    ensures
        get_v(set_v(m, k, v), "features"@) == get_v(m, "features"@),
        set_v(m, k, v) is Object,
{
    crate::json::lemma_get_set(m, k, v, "features"@);
}

proof fn lemma_keep_features_remove(m: JsonV, k: Seq<char>)
    requires
        m is Object,
        k != "features"@,
    ensures
        get_v(remove_v(m, k), "features"@) == get_v(m, "features"@),
        remove_v(m, k) is Object,
{
    crate::json::lemma_get_remove(m, k, "features"@);
}

/// Law: a Codex config table the helper renders has `js_repl` on, whatever
/// the table it started from (when that is a table).
pub proof fn lemma_rendered_config_enables_js_repl(
    existing: JsonV,
    default_model: Seq<char>,
    catalog_path: Seq<char>,
    reasoning_effort: Seq<char>,
    label: Seq<char>,
    base_url: Seq<char>,
    bearer: Seq<char>,
)
    requires
        existing is Object,
    ensures
        js_repl_enabled_v(
            render_table_v(existing, default_model, catalog_path, reasoning_effort, label, base_url, bearer),
        ),
{
    reveal_strlit("features");
    reveal_strlit("model_provider");
    reveal_strlit("preferred_auth_method");
    reveal_strlit("model");
    reveal_strlit("model_catalog_json");
    reveal_strlit("model_reasoning_effort");
    reveal_strlit("disable_response_storage");
    reveal_strlit("sandbox_mode");
    reveal_strlit("approval_policy");
    reveal_strlit("windows");
    reveal_strlit("experimental_bearer_token");
    reveal_strlit("model_providers");
    assert("features"@.len() == 8 && "model_provider"@.len() == 14 && "preferred_auth_method"@.len() == 21
        && "model"@.len() == 5 && "model_catalog_json"@.len() == 18 && "model_reasoning_effort"@.len() == 22
        && "disable_response_storage"@.len() == 24 && "sandbox_mode"@.len() == 12
        && "approval_policy"@.len() == 15 && "windows"@.len() == 7
        && "experimental_bearer_token"@.len() == 25 && "model_providers"@.len() == 15);
    let m1 = set_v(existing, "model_provider"@, JsonV::Str("custom"@));
    lemma_keep_features_set(existing, "model_provider"@, JsonV::Str("custom"@));
    let m2 = set_v(m1, "preferred_auth_method"@, JsonV::Str("apikey"@));
    lemma_keep_features_set(m1, "preferred_auth_method"@, JsonV::Str("apikey"@));
    let m3 = set_v(m2, "model"@, JsonV::Str(default_model));
    lemma_keep_features_set(m2, "model"@, JsonV::Str(default_model));
    let m4 = set_v(m3, "model_catalog_json"@, JsonV::Str(catalog_path));
    lemma_keep_features_set(m3, "model_catalog_json"@, JsonV::Str(catalog_path));
    let m5 = set_v(m4, "model_reasoning_effort"@, JsonV::Str(reasoning_effort));
    lemma_keep_features_set(m4, "model_reasoning_effort"@, JsonV::Str(reasoning_effort));
    let m6 = remove_v(m5, "disable_response_storage"@);
    lemma_keep_features_remove(m5, "disable_response_storage"@);
    let m7 = ensure_features_v(m6);
    lemma_features_enabled(m6, "js_repl"@);
    let f0 = table_or_empty_v(get_v(m6, "features"@));
    let f1 = set_v(
        set_v(set_v(f0, "js_repl"@, JsonV::Bool(true)), "plugins"@, JsonV::Bool(true)),
        "apps"@,
        JsonV::Bool(true),
    );
    crate::json::lemma_get_set(remove_v(m6, "features"@), "features"@, f1, "features"@);
    let f = get_v(m7, "features"@);
    assert(f == Some(f1));
    assert(get_v(f1, "js_repl"@) == Some(JsonV::Bool(true)));
    crate::json::lemma_set_is_object(remove_v(m6, "features"@), "features"@, get_v(m7, "features"@)->0);
    let a = remove_v(m7, "sandbox_mode"@);
    lemma_keep_features_remove(m7, "sandbox_mode"@);
    let m8 = remove_v(a, "approval_policy"@);
    lemma_keep_features_remove(a, "approval_policy"@);
    let m9 = drop_windows_sandbox_v(m8);
    match get_v(m8, "windows"@) {
        Some(JsonV::Object(w)) => {
            let w2 = remove_v(JsonV::Object(w), "sandbox"@);
            if members_v(w2).len() == 0 {
                lemma_keep_features_remove(m8, "windows"@);
            } else {
                lemma_keep_features_set(m8, "windows"@, w2);
            }
        },
        _ => {},
    }
    assert(get_v(m9, "features"@) == f && m9 is Object);
    let m10 = set_v(m9, "experimental_bearer_token"@, JsonV::Str(bearer));
    lemma_keep_features_set(m9, "experimental_bearer_token"@, JsonV::Str(bearer));
    let providers = remove_keys_v(table_or_empty_v(get_v(m10, "model_providers"@)), stale_provider_keys_v());
    let m11 = remove_v(m10, "model_providers"@);
    lemma_keep_features_remove(m10, "model_providers"@);
    lemma_keep_features_set(m11, "model_providers"@, set_v(providers, "custom"@, provider_table_v(label, base_url, bearer)));
    let r = render_table_v(existing, default_model, catalog_path, reasoning_effort, label, base_url, bearer);
    assert(get_v(r, "features"@) == Some(f1));
}

proof fn lemma_render_drops(
    existing: JsonV,
    default_model: Seq<char>,
    catalog_path: Seq<char>,
    reasoning_effort: Seq<char>,
    label: Seq<char>,
    base_url: Seq<char>,
    bearer: Seq<char>,
    k: Seq<char>,
)
    requires
        existing is Object,
        k == "approval_policy"@ || k == "sandbox_mode"@ || k == "disable_response_storage"@,
    ensures
        get_v(render_table_v(existing, default_model, catalog_path, reasoning_effort, label, base_url, bearer), k)
            is None,
{
    reveal_strlit("features");
    reveal_strlit("model_provider");
    reveal_strlit("preferred_auth_method");
    reveal_strlit("model");
    reveal_strlit("model_catalog_json");
    reveal_strlit("model_reasoning_effort");
    reveal_strlit("disable_response_storage");
    reveal_strlit("sandbox_mode");
    reveal_strlit("approval_policy");
    reveal_strlit("windows");
    reveal_strlit("experimental_bearer_token");
    reveal_strlit("model_providers");
    assert("features"@.len() == 8 && "model_provider"@.len() == 14 && "preferred_auth_method"@.len() == 21
        && "model"@.len() == 5 && "model_catalog_json"@.len() == 18 && "model_reasoning_effort"@.len() == 22
        && "disable_response_storage"@.len() == 24 && "sandbox_mode"@.len() == 12
        && "approval_policy"@.len() == 15 && "windows"@.len() == 7
        && "experimental_bearer_token"@.len() == 25 && "model_providers"@.len() == 15);
    assert("approval_policy"@[0] != "model_providers"@[0]);
    let m1 = set_v(existing, "model_provider"@, JsonV::Str("custom"@));
    let m2 = set_v(m1, "preferred_auth_method"@, JsonV::Str("apikey"@));
    let m3 = set_v(m2, "model"@, JsonV::Str(default_model));
    let m4 = set_v(m3, "model_catalog_json"@, JsonV::Str(catalog_path));
    let m5 = set_v(m4, "model_reasoning_effort"@, JsonV::Str(reasoning_effort));
    let m6 = remove_v(m5, "disable_response_storage"@);
    let m7 = ensure_features_v(m6);
    let a = remove_v(m7, "sandbox_mode"@);
    let m8 = remove_v(a, "approval_policy"@);
    let m9 = drop_windows_sandbox_v(m8);
    let m10 = set_v(m9, "experimental_bearer_token"@, JsonV::Str(bearer));
    let providers = remove_keys_v(table_or_empty_v(get_v(m10, "model_providers"@)), stale_provider_keys_v());
    let m11 = remove_v(m10, "model_providers"@);
    let pv = set_v(providers, "custom"@, provider_table_v(label, base_url, bearer));
    crate::json::lemma_get_remove(m5, "disable_response_storage"@, k);
    crate::json::lemma_get_remove(m6, "features"@, k);
    let f0 = table_or_empty_v(get_v(m6, "features"@));
    let f1 = set_v(
        set_v(set_v(f0, "js_repl"@, JsonV::Bool(true)), "plugins"@, JsonV::Bool(true)),
        "apps"@,
        JsonV::Bool(true),
    );
    crate::json::lemma_get_set(remove_v(m6, "features"@), "features"@, f1, k);
    crate::json::lemma_get_remove(m7, "sandbox_mode"@, k);
    crate::json::lemma_get_remove(a, "approval_policy"@, k);
    assert(get_v(m8, k) is None);
    match get_v(m8, "windows"@) {
        Some(JsonV::Object(w)) => {
            let w2 = remove_v(JsonV::Object(w), "sandbox"@);
            crate::json::lemma_get_remove(m8, "windows"@, k);
            crate::json::lemma_get_set(m8, "windows"@, w2, k);
        },
        _ => {},
    }
    assert(get_v(m9, k) is None && m9 is Object);
    crate::json::lemma_get_set(m9, "experimental_bearer_token"@, JsonV::Str(bearer), k);
    crate::json::lemma_get_remove(m10, "model_providers"@, k);
    crate::json::lemma_get_set(m11, "model_providers"@, pv, k);
}

/// Law: a Codex config table the helper renders holds no `approval_policy`,
/// `sandbox_mode` or `disable_response_storage`, whatever the table it
/// started from held (when that is a table).
pub proof fn lemma_rendered_config_drops_permission_settings(
    existing: JsonV,
    default_model: Seq<char>,
    catalog_path: Seq<char>,
    reasoning_effort: Seq<char>,
    label: Seq<char>,
    base_url: Seq<char>,
    bearer: Seq<char>,
)
    requires
        existing is Object,
    ensures
        get_v(
            render_table_v(existing, default_model, catalog_path, reasoning_effort, label, base_url, bearer),
            "approval_policy"@,
        ) is None,
        get_v(
            render_table_v(existing, default_model, catalog_path, reasoning_effort, label, base_url, bearer),
            "sandbox_mode"@,
        ) is None,
        get_v(
            render_table_v(existing, default_model, catalog_path, reasoning_effort, label, base_url, bearer),
            "disable_response_storage"@,
        ) is None,
{
    lemma_render_drops(existing, default_model, catalog_path, reasoning_effort, label, base_url, bearer, "approval_policy"@);
    lemma_render_drops(existing, default_model, catalog_path, reasoning_effort, label, base_url, bearer, "sandbox_mode"@);
    lemma_render_drops(
        existing,
        default_model,
        catalog_path,
        reasoning_effort,
        label,
        base_url,
        bearer,
        "disable_response_storage"@,
    );
}

/// The reasoning efforts Codex accepts in its config.
pub open spec fn is_known_effort_v(e: Seq<char>) -> bool {
    e == "minimal"@ || e == "low"@ || e == "medium"@ || e == "high"@ || e == "xhigh"@
}

/// The configured reasoning effort, trimmed and lower-cased; `medium` when
/// it is not one Codex accepts.
pub open spec fn normalized_effort_v(e: Seq<char>) -> Seq<char> {
    let n = lower_seq(trim_seq(e));
    if is_known_effort_v(n) {
        n
    } else {
        "medium"@
    }
}

impl AppConfig {
    /// The reasoning effort written to Codex (see [`normalized_effort_v`]).
    pub fn normalized_model_reasoning_effort(&self) -> (r: String)
        ensures
            r@ == normalized_effort_v(self.model_reasoning_effort@),
    {
        let t = trim(self.model_reasoning_effort.as_str());
        let n = ascii_lowercase(t.as_str());
        let s = n.as_str();
        if str_eq(s, "minimal") || str_eq(s, "low") || str_eq(s, "medium") || str_eq(s, "high")
            || str_eq(s, "xhigh") {
            n
        } else {
            "medium".to_string()
        }
    }
}

impl ProviderConfig {
    /// The provider label Codex Desktop shows next to the model picker.
    pub fn provider_chip_label(&self) -> (r: String)
        ensures
            r@ == self.name@,
    {
        self.name.clone()
    }
}

/// Builds the Codex config table from the existing one (an empty table when
/// there is none).
pub fn render_codex_config_table(
    existing: Json,
    app: &AppConfig,
    provider: &ProviderConfig,
    catalog_path: &str,
    bearer: &str,
) -> (r: Json)
    requires
        existing@ is Object,
    ensures
        r@ == render_table_v(
            existing@,
            provider.default_model@,
            catalog_path@,
            normalized_effort_v(app.model_reasoning_effort@),
            provider.name@,
            proxy_base_url_v(app.proxy.host@, app.proxy.port),
            bearer@,
        ),
{
    let mut m = existing;
    m.set("model_provider", Json::str_of(CC_SWITCH_CODEX_PROVIDER_ID));
    m.set("preferred_auth_method", Json::str_of("apikey"));
    m.set("model", Json::Str(provider.default_model.clone()));
    m.set("model_catalog_json", Json::str_of(catalog_path));
    m.set("model_reasoning_effort", Json::Str(app.normalized_model_reasoning_effort()));
    m.remove("disable_response_storage");
    ensure_desktop_automation_features(&mut m);
    m.remove("sandbox_mode");
    m.remove("approval_policy");
    let windows = match m.get("windows") {
        Some(w) => if w.is_object() {
            let mut w2 = deep_clone(w);
            w2.remove("sandbox");
            Some(w2)
        } else {
            None
        },
        None => None,
    };
    match windows {
        Some(w2) => {
            let empty = match &w2 {
                Json::Object(e) => e.len() == 0,
                _ => false,
            };
            if empty {
                m.remove("windows");
            } else {
                m.set("windows", w2);
            }
        },
        None => {},
    }
    let base_url = app.proxy_base_url();
    let mut e: Vec<(String, Json)> = Vec::new();
    e.push(("name".to_string(), Json::Str(provider.provider_chip_label())));
    e.push(("base_url".to_string(), Json::Str(base_url)));
    e.push(("experimental_bearer_token".to_string(), Json::str_of(bearer)));
    e.push(("wire_api".to_string(), Json::str_of("responses")));
    e.push(("requires_openai_auth".to_string(), Json::Bool(true)));
    let provider_table = Json::Object(e);
    assert(crate::json::view_entries(e@) =~= members_v(
        provider_table_v(provider.name@, proxy_base_url_v(app.proxy.host@, app.proxy.port), bearer@),
    ));
    m.set("experimental_bearer_token", Json::str_of(bearer));
    let mut providers = table_or_empty(m.get("model_providers"));
    let ghost p0 = providers@;
    scrub_stale_helper_provider_keys(&mut providers);
    proof {
        lemma_remove_keys_object(p0, stale_provider_keys_v());
    }
    m.remove("model_providers");
    providers.set(CC_SWITCH_CODEX_PROVIDER_ID, provider_table);
    m.set("model_providers", providers);
    m
}

/// The `base_url` of the helper's provider entry in a config table.
pub open spec fn custom_base_url_v(table: JsonV) -> Option<Seq<char>> {
    match get_v(table, "model_providers"@) {
        Some(JsonV::Object(p)) => match get_v(JsonV::Object(p), "custom"@) {
            Some(JsonV::Object(c)) => get_str_v(JsonV::Object(c), "base_url"@),
            _ => None,
        },
        _ => None,
    }
}

/// What a config table lacks for the helper's proxy entry.
#[derive(PartialEq, Eq, Structural)]
pub enum CodexConfigError {
    /// There is no `[model_providers.custom]` table.
    MissingCustomProvider,
    /// The entry has no `base_url` string.
    MissingBaseUrl,
}

/// The text of a Codex config error.
pub open spec fn codex_config_error_text_v(e: CodexConfigError) -> Seq<char> {
    match e {
        CodexConfigError::MissingCustomProvider => "config.toml 缺少 [model_providers.custom]"@,
        CodexConfigError::MissingBaseUrl => "config.toml 缺少 base_url"@,
    }
}

impl CodexConfigError {
    /// The error text.
    pub fn message(&self) -> (r: &'static str)
        ensures
            r@ == codex_config_error_text_v(*self),
    {
        match self {
            CodexConfigError::MissingCustomProvider => "config.toml 缺少 [model_providers.custom]",
            CodexConfigError::MissingBaseUrl => "config.toml 缺少 base_url",
        }
    }
}

/// Reads the helper's proxy URL from a Codex config table.
pub fn read_codex_custom_base_url(table: &Json) -> (r: Result<String, CodexConfigError>)
    ensures
        match r {
            Ok(u) => custom_base_url_v(table@) == Some(u@),
            Err(CodexConfigError::MissingCustomProvider) => !(get_v(table@, "model_providers"@) matches Some(
                JsonV::Object(p),
            ) && get_v(JsonV::Object(p), "custom"@) matches Some(JsonV::Object(_))),
            Err(CodexConfigError::MissingBaseUrl) => get_v(table@, "model_providers"@) matches Some(
                JsonV::Object(p),
            ) && get_v(JsonV::Object(p), "custom"@) matches Some(JsonV::Object(c)) && get_str_v(
                JsonV::Object(c),
                "base_url"@,
            ) is None,
        },
{
    let providers = match table.get("model_providers") {
        Some(p) => if p.is_object() {
            p
        } else {
            return Err(CodexConfigError::MissingCustomProvider);
        },
        None => {
            return Err(CodexConfigError::MissingCustomProvider);
        },
    };
    let custom = match providers.get(CC_SWITCH_CODEX_PROVIDER_ID) {
        Some(c) => if c.is_object() {
            c
        } else {
            return Err(CodexConfigError::MissingCustomProvider);
        },
        None => {
            return Err(CodexConfigError::MissingCustomProvider);
        },
    };
    match custom.get_str("base_url") {
        Some(u) => Ok(u.to_string()),
        None => Err(CodexConfigError::MissingBaseUrl),
    }
}

/// Whether a written config still points at the expected proxy URL (both
/// compared without trailing slashes).
pub open spec fn written_url_ok_v(table: JsonV, expected: Seq<char>) -> bool {
    match get2_str_v(table) {
        Some(u) => normalize_proxy_url_v(u) == normalize_proxy_url_v(expected),
        None => false,
    }
}

/// `model_providers.custom.base_url` read through any values.
pub open spec fn get2_str_v(table: JsonV) -> Option<Seq<char>> {
    match get_v(table, "model_providers"@) {
        Some(p) => match get_v(p, "custom"@) {
            Some(c) => get_str_v(c, "base_url"@),
            None => None,
        },
        None => None,
    }
}

/// Why a written config failed the check.
#[derive(PartialEq, Eq, Structural)]
pub enum WrittenConfigError {
    /// The written config has no `model_providers.custom.base_url`.
    MissingBaseUrl,
    /// The written URL is not the expected one.
    WrongBaseUrl,
}

/// Checks the config as written (read back as a table) against the proxy
/// URL.
pub fn verify_written_proxy_url(written: &Json, expected: &str) -> (r: Result<(), WrittenConfigError>)
    ensures
        r is Ok <==> written_url_ok_v(written@, expected@),
        r == Err::<(), WrittenConfigError>(WrittenConfigError::MissingBaseUrl) <==> get2_str_v(written@) is None,
{
    let base = match written.get("model_providers") {
        Some(p) => match p.get(CC_SWITCH_CODEX_PROVIDER_ID) {
            Some(c) => c.get_str("base_url"),
            None => None,
        },
        None => None,
    };
    match base {
        Some(u) => {
            let a = normalize_proxy_url(u);
            let b = normalize_proxy_url(expected);
            if str_eq(a.as_str(), b.as_str()) {
                Ok(())
            } else {
                Err(WrittenConfigError::WrongBaseUrl)
            }
        },
        None => Err(WrittenConfigError::MissingBaseUrl),
    }
}

/// Whether the helper's proxy entry in a config table matches the app's
/// proxy URL.
pub fn codex_proxy_port_matches(table: &Json, app: &AppConfig) -> (r: bool)
    ensures
        r == match custom_base_url_v(table@) {
            Some(u) => normalize_proxy_url_v(u) == normalize_proxy_url_v(
                proxy_base_url_v(app.proxy.host@, app.proxy.port),
            ),
            None => false,
        },
{
    match read_codex_custom_base_url(table) {
        Ok(u) => {
            let a = normalize_proxy_url(u.as_str());
            let b = normalize_proxy_url(app.proxy_base_url().as_str());
            str_eq(a.as_str(), b.as_str())
        },
        Err(_) => false,
    }
}

/// Whether `features.js_repl` is `true` in a config table.
pub open spec fn js_repl_enabled_v(table: JsonV) -> bool {
    match get_v(table, "features"@) {
        Some(f) => get_bool_v(f, "js_repl"@) == Some(true),
        None => false,
    }
}

pub fn read_js_repl_enabled(table: &Json) -> (r: bool)
    ensures
        r == js_repl_enabled_v(table@),
{
    match table.get("features") {
        Some(f) => match f.get_bool("js_repl") {
            Some(b) => b,
            None => false,
        },
        None => false,
    }
}

/// Whether the `node_repl` MCP server has a non-empty command.
pub open spec fn node_repl_configured_v(table: JsonV) -> bool {
    match get_v(table, "mcp_servers"@) {
        Some(s) => match get_v(s, "node_repl"@) {
            Some(n) => match get_str_v(n, "command"@) {
                Some(c) => c.len() > 0,
                None => false,
            },
            None => false,
        },
        None => false,
    }
}

pub fn read_node_repl_mcp_configured(table: &Json) -> (r: bool)
    ensures
        r == node_repl_configured_v(table@),
{
    match table.get("mcp_servers") {
        Some(s) => match s.get("node_repl") {
            Some(n) => match n.get_str("command") {
                Some(c) => !c.is_empty(),
                None => false,
            },
            None => false,
        },
        None => false,
    }
}

/// How many lines of a config text are exactly the helper's provider
/// section header (ignoring surrounding space).
pub open spec fn count_sections_v(lines: Seq<Seq<char>>) -> nat
    decreases lines.len(),
{
    if lines.len() == 0 {
        0
    } else {
        count_sections_v(lines.drop_last()) + if trim_seq(lines.last())
            == "[model_providers.custom]"@ {
            1nat
        } else {
            0nat
        }
    }
}

/// Counts the `[model_providers.custom]` headers of a config text.
pub fn count_custom_provider_sections(content: &str) -> (r: usize)
    ensures
        r == count_sections_v(split_seq(content@, '\n')),
{
    let lines = split_on(content, '\n');
    let ghost lv = views(lines@);
    let mut n: usize = 0;
    let mut i: usize = 0;
    proof {
        assert(lv.take(0) =~= Seq::<Seq<char>>::empty());
    }
    while i < lines.len()
        invariant
            i <= lines.len(),
            lv == views(lines@),
            n == count_sections_v(lv.take(i as int)),
            n <= i,
        decreases lines.len() - i,
    {
        proof {
            assert(lv.take(i + 1).drop_last() =~= lv.take(i as int));
            assert(lv.take(i + 1).last() == lines@[i as int]@);
        }
        let t = trim(lines[i].as_str());
        if str_eq(t.as_str(), "[model_providers.custom]") {
            n = n + 1;
        }
        i = i + 1;
    }
    proof {
        assert(lv.take(lines.len() as int) =~= lv);
    }
    n
}

// ---------------------------------------------------------------------------
// The Computer Use plugin entry

/// The plugin the helper installs for Computer Use.
pub const PLUGIN_SELECTOR: &'static str = "computer-use@computer-use-local";

/// The plugin entry Codex's own installer leaves behind.
pub const STALE_PLUGIN_KEY: &'static str = "computer-use@openai-bundled";

/// Whether the config enables the helper's Computer Use plugin.
pub open spec fn local_plugin_enabled_v(table: JsonV) -> bool {
    match get_v(table, "plugins"@) {
        Some(p) => match get_v(p, "computer-use@computer-use-local"@) {
            Some(e) => get_bool_v(e, "enabled"@) == Some(true),
            None => false,
        },
        None => false,
    }
}

pub fn config_enables_local_plugin(table: &Json) -> (r: bool)
    ensures
        r == local_plugin_enabled_v(table@),
{
    match table.get("plugins") {
        Some(p) => match p.get(PLUGIN_SELECTOR) {
            Some(e) => match e.get_bool("enabled") {
                Some(b) => b,
                None => false,
            },
            None => false,
        },
        None => false,
    }
}

/// The config after the Computer Use repair: automation features on, the
/// local plugin enabled, the stale bundled entry removed.
pub open spec fn plugin_config_v(table: JsonV) -> JsonV {
    let m1 = ensure_features_v(table);
    let plugins = set_v(
        table_or_empty_v(get_v(m1, "plugins"@)),
        "computer-use@computer-use-local"@,
        JsonV::Object(seq![("enabled"@, JsonV::Bool(true))]),
    );
    let m2 = set_v(remove_v(m1, "plugins"@), "plugins"@, plugins);
    match get_v(m2, "plugins"@) {
        Some(JsonV::Object(p)) => set_v(
            m2,
            "plugins"@,
            remove_v(JsonV::Object(p), "computer-use@openai-bundled"@),
        ),
        _ => m2,
    }
}

/// Enables the helper's Computer Use plugin in a config table.
pub fn finalize_plugin_config(table: &mut Json)
    requires
        old(table)@ is Object,
    ensures
        final(table)@ == plugin_config_v(old(table)@),
{
    ensure_desktop_automation_features(table);
    let mut plugins = table_or_empty(table.get("plugins"));
    plugins.set(PLUGIN_SELECTOR, object1("enabled", Json::Bool(true)));
    table.remove("plugins");
    table.set("plugins", plugins);
    let cleaned = match table.get("plugins") {
        Some(p) => if p.is_object() {
            let mut p2 = deep_clone(p);
            p2.remove(STALE_PLUGIN_KEY);
            Some(p2)
        } else {
            None
        },
        None => None,
    };
    match cleaned {
        Some(p2) => table.set("plugins", p2),
        None => {},
    }
}

/// The Codex CLI path the `node_repl` MCP server names: its
/// `env.CODEX_CLI_PATH`, or its command; unquoted. The caller checks which
/// of them is a file.
pub open spec fn node_repl_paths_v(table: JsonV) -> (Option<Seq<char>>, Option<Seq<char>>) {
    match get_v(table, "mcp_servers"@) {
        Some(s) => match get_v(s, "node_repl"@) {
            Some(JsonV::Object(n)) => {
                let env_path = match get_v(JsonV::Object(n), "env"@) {
                    Some(JsonV::Object(e)) => match get_str_v(JsonV::Object(e), "CODEX_CLI_PATH"@) {
                        Some(p) => Some(strip_quotes_v(p)),
                        None => None,
                    },
                    _ => None,
                };
                let command = match get_str_v(JsonV::Object(n), "command"@) {
                    Some(c) => Some(strip_quotes_v(c)),
                    None => None,
                };
                (env_path, command)
            },
            _ => (None, None),
        },
        None => (None, None),
    }
}

/// Reads the Codex CLI locations the `node_repl` MCP server points at.
pub fn read_node_repl_paths(table: &Json) -> (r: (Option<String>, Option<String>))
    ensures
        node_repl_paths_v(table@) == (
            match r.0 {
                Some(s) => Some(s@),
                None => None,
            },
            match r.1 {
                Some(s) => Some(s@),
                None => None,
            },
        ),
{
    let n = match table.get("mcp_servers") {
        Some(s) => match s.get("node_repl") {
            Some(n) => if n.is_object() {
                n
            } else {
                return (None, None);
            },
            None => {
                return (None, None);
            },
        },
        None => {
            return (None, None);
        },
    };
    let env_path = match n.get("env") {
        Some(e) => if e.is_object() {
            match e.get_str("CODEX_CLI_PATH") {
                Some(p) => Some(strip_quotes(p)),
                None => None,
            }
        } else {
            None
        },
        None => None,
    };
    let command = match n.get_str("command") {
        Some(c) => Some(strip_quotes(c)),
        None => None,
    };
    (env_path, command)
}


// ---------------------------------------------------------------------------
// Credentials and markers the helper writes for Codex

/// The placeholder token Codex gets when no key can be found.
pub open spec fn placeholder_token_v() -> Seq<char> {
    "local-proxy-placeholder"@
}

/// The bearer token written for Codex: the provider's key, else the key of
/// the placeholder variable, else the placeholder itself.
pub open spec fn bearer_token_v(provider_key: Option<Seq<char>>, dummy_key: Option<Seq<char>>) -> Seq<char> {
    match provider_key {
        Some(k) => k,
        None => match dummy_key {
            Some(k) => k,
            None => placeholder_token_v(),
        },
    }
}

/// The bearer token for Codex, from the keys found for the provider and
/// for the placeholder variable.
pub fn bearer_token_for_codex(provider_key: Option<String>, dummy_key: Option<String>) -> (r: String)
    ensures
        r@ == bearer_token_v(
            match provider_key {
                Some(k) => Some(k@),
                None => None,
            },
            match dummy_key {
                Some(k) => Some(k@),
                None => None,
            },
        ),
{
    match provider_key {
        Some(k) => k,
        None => match dummy_key {
            Some(k) => k,
            None => "local-proxy-placeholder".to_string(),
        },
    }
}

/// The `auth.json` Codex reads: the token as its API key, in API-key mode.
pub open spec fn codex_auth_v(token: Seq<char>) -> JsonV {
    JsonV::Object(
        seq![("OPENAI_API_KEY"@, JsonV::Str(token)), ("auth_mode"@, JsonV::Str("apikey"@))],
    )
}

pub fn codex_auth_json(token: &str) -> (r: Json)
    ensures
        r@ == codex_auth_v(token@),
{
    crate::json::object2("OPENAI_API_KEY", Json::str_of(token), "auth_mode", Json::str_of("apikey"))
}

/// Codex is set up to use the helper: its custom provider points at the
/// local proxy, or its config file names the helper.
pub open spec fn uses_helper_v(custom_base_url: Option<Seq<char>>, raw_config: Option<Seq<char>>) -> bool {
    (custom_base_url matches Some(u) && is_local_helper_proxy_url_v(u)) || (raw_config matches Some(
        c,
    ) && contains_seq(c, "codex-helper"@))
}

/// Whether Codex uses the helper, from the custom provider's base URL and
/// the config file's text (each when it could be read).
pub fn codex_config_uses_helper(custom_base_url: Option<&str>, raw_config: Option<&str>) -> (r: bool)
    ensures
        r == uses_helper_v(
            match custom_base_url {
                Some(u) => Some(u@),
                None => None,
            },
            match raw_config {
                Some(c) => Some(c@),
                None => None,
            },
        ),
{
    let via_url = match custom_base_url {
        Some(u) => is_local_helper_proxy_url(u),
        None => false,
    };
    if via_url {
        return true;
    }
    match raw_config {
        Some(c) => contains(c, PROVIDER_ID),
        None => false,
    }
}

/// Points the settings at the default proxy address before they are
/// written for Codex.
pub fn pin_default_proxy(app: &mut AppConfig)
    ensures
        final(app).proxy.host@ == DEFAULT_HOST@,
        final(app).proxy.port == crate::config::DEFAULT_PORT,
        final(app).active == old(app).active,
        final(app).providers == old(app).providers,
        final(app).tool_output_max_chars == old(app).tool_output_max_chars,
        final(app).model_reasoning_effort == old(app).model_reasoning_effort,
{
    app.proxy.host = DEFAULT_HOST.to_string();
    app.proxy.port = crate::config::DEFAULT_PORT;
}

// ---------------------------------------------------------------------------
// Config backups

/// How many backups of the Codex config are kept.
pub const MAX_CONFIG_BACKUPS: usize = 10;

/// The timestamp in a backup file name `config.toml.<secs>.bak`.
pub open spec fn backup_stamp_v(name: Seq<char>) -> Option<u64> {
    if name.len() >= 16 && crate::text::starts_with_seq(name, "config.toml."@)
        && crate::text::ends_with_seq(name, ".bak"@) {
        crate::upstream_retry::parse_u64_v(name.subrange(12, name.len() - 4))
    } else {
        None
    }
}

/// Reads the timestamp of a backup file name; `None` for other files.
pub fn backup_stamp(name: &str) -> (r: Option<u64>)
    ensures
        r == backup_stamp_v(name@),
{
    let v = chars_of(name);
    if v.len() < 16 || !crate::text::starts_with(name, "config.toml.") || !crate::text::ends_with(
        name,
        ".bak",
    ) {
        return None;
    }
    let middle = string_of_range(&v, 12, v.len() - 4);
    crate::upstream_retry::parse_u64(middle.as_str())
}

/// Backup `j` is newer than backup `i`: a later stamp, or the same stamp
/// later in the list.
pub open spec fn newer_v(s: Seq<u64>, j: int, i: int) -> bool {
    s[j] > s[i] || (s[j] == s[i] && j > i)
}

/// How many of the first `n` backups are newer than backup `i`.
pub open spec fn newer_count_v(s: Seq<u64>, i: int, n: int) -> nat
    decreases n,
{
    if n <= 0 {
        0
    } else {
        newer_count_v(s, i, n - 1) + if newer_v(s, n - 1, i) {
            1nat
        } else {
            0nat
        }
    }
}

/// Backup `i` goes: ten or more backups are newer.
pub open spec fn pruned_v(s: Seq<u64>, i: int) -> bool {
    newer_count_v(s, i, s.len() as int) >= MAX_CONFIG_BACKUPS
}

/// The positions, among the first `n`, of the backups that go, in order.
pub open spec fn prune_list_v(s: Seq<u64>, n: int) -> Seq<usize>
    decreases n,
{
    if n <= 0 {
        Seq::empty()
    } else {
        let r = prune_list_v(s, n - 1);
        if pruned_v(s, n - 1) {
            r.push((n - 1) as usize)
        } else {
            r
        }
    }
}

proof fn lemma_newer_count_le(s: Seq<u64>, i: int, n: int)
    ensures
        newer_count_v(s, i, n) <= if n < 0 {
            0
        } else {
            n
        },
    decreases n,
{
    if n > 0 {
        lemma_newer_count_le(s, i, n - 1);
    }
}

/// The positions of the backups to delete, given their timestamps, so that
/// the ten newest stay.
pub fn backups_to_prune(stamps: &Vec<u64>) -> (r: Vec<usize>)
    ensures
        r@ == prune_list_v(stamps@, stamps@.len() as int),
{
    let ghost s = stamps@;
    let mut out: Vec<usize> = Vec::new();
    let mut i: usize = 0;
    while i < stamps.len()
        invariant
            s == stamps@,
            i <= stamps.len(),
            out@ == prune_list_v(s, i as int),
        decreases stamps.len() - i,
    {
        let mut count: usize = 0;
        let mut j: usize = 0;
        while j < stamps.len()
            invariant
                s == stamps@,
                i < stamps.len(),
                j <= stamps.len(),
                count == newer_count_v(s, i as int, j as int),
            decreases stamps.len() - j,
        {
            proof {
                lemma_newer_count_le(s, i as int, j as int);
            }
            if stamps[j] > stamps[i] || (stamps[j] == stamps[i] && j > i) {
                count = count + 1;
            }
            j = j + 1;
        }
        if count >= MAX_CONFIG_BACKUPS {
            out.push(i);
        }
        i = i + 1;
    }
    out
}

proof fn lemma_newer_count_dominates(s: Seq<u64>, i: int, j: int, n: int)
    requires
        0 <= i < s.len(),
        0 <= j < s.len(),
        newer_v(s, j, i),
    ensures
        newer_count_v(s, i, n) >= newer_count_v(s, j, n) + if 0 <= j < n {
            1nat
        } else {
            0nat
        },
    decreases n,
{
    if n > 0 {
        lemma_newer_count_dominates(s, i, j, n - 1);
    }
}

/// The set of backups that stay.
pub open spec fn kept_backups_v(s: Seq<u64>) -> Set<int> {
    Set::new(|i: int| 0 <= i < s.len() && !pruned_v(s, i))
}

/// Law: after pruning, at most ten backups stay, and a backup newer than
/// one that stays stays too.
pub proof fn lemma_at_most_ten_backups_stay(s: Seq<u64>)
    ensures
        kept_backups_v(s).finite(),
        kept_backups_v(s).len() <= MAX_CONFIG_BACKUPS,
        forall|i: int, j: int|
            0 <= i < s.len() && 0 <= j < s.len() && !pruned_v(s, i) && newer_v(s, j, i) ==> !pruned_v(s, j),
{
    let n = s.len() as int;
    let k = kept_backups_v(s);
    let rank = |i: int| newer_count_v(s, i, n) as int;
    assert forall|i: int, j: int|
        0 <= i < s.len() && 0 <= j < s.len() && !pruned_v(s, i) && newer_v(s, j, i) implies !pruned_v(s, j) by {
        lemma_newer_count_dominates(s, i, j, n);
    }
    vstd::set_lib::lemma_int_range(0, n);
    assert(k.subset_of(vstd::set_lib::set_int_range(0, n)));
    vstd::set_lib::lemma_len_subset(k, vstd::set_lib::set_int_range(0, n));
    assert(vstd::relations::injective_on(rank, k)) by {
        assert forall|a: int, b: int| k.contains(a) && k.contains(b) && #[trigger] rank(a) == #[trigger] rank(b) implies a == b by {
            if a != b {
                if newer_v(s, b, a) {
                    lemma_newer_count_dominates(s, a, b, n);
                } else {
                    assert(newer_v(s, a, b));
                    lemma_newer_count_dominates(s, b, a, n);
                }
            }
        }
    }
    let img = k.map(rank);
    vstd::set_lib::lemma_map_size(k, img, rank);
    vstd::set_lib::lemma_int_range(0, 10);
    assert(img.subset_of(vstd::set_lib::set_int_range(0, 10))) by {
        assert forall|r: int| img.contains(r) implies vstd::set_lib::set_int_range(0, 10).contains(r) by {
            let a = choose|a: int| k.contains(a) && rank(a) == r;
        }
    }
    vstd::set_lib::lemma_len_subset(img, vstd::set_lib::set_int_range(0, 10));
}

} // verus!
