//! The model catalog Codex Desktop reads: one entry per model of the active
//! provider, built from entries of an earlier catalog where there are some
//! and from a template entry otherwise, the active model first and the rest
//! by priority.
use vstd::prelude::*;

use crate::codex_setup::normalized_effort_v;
use crate::config::{AppConfig, ConfigError, ProviderConfig, ProviderV};
use crate::json::{
    deep_clone, get_array_v, get_str_v, get_v, number_i64_v, number_of_u64, remove_v, set_v,
    view_items, Json, JsonV,
};
use crate::models::{entries_view, models_for_provider, models_for_provider_v, ModelEntry, ModelV};
use crate::reasoning::{catalog_levels_v, supported_reasoning_levels_for_catalog};
use crate::text::{concat2, concat3, decimal_seq, str_eq};

verus! {

/// A decimal number.
pub open spec fn num_v(n: nat) -> JsonV {
    JsonV::Number(decimal_seq(n))
}

// ---------------------------------------------------------------------------
// Fields every catalog entry needs

/// `m` with member `k` set to `v` when it has none.
pub open spec fn with_default_v(m: JsonV, k: Seq<char>, v: JsonV) -> JsonV {
    if get_v(m, k) is None {
        set_v(m, k, v)
    } else {
        m
    }
}

/// An entry with the members Codex Desktop requires that it lacks added
/// with their defaults; values that are not objects are left alone.
pub open spec fn ensure_required_v(m: JsonV) -> JsonV {
    if m is Object {
        let m1 = with_default_v(m, "availability_nux"@, JsonV::Null);
        let m2 = with_default_v(m1, "upgrade"@, JsonV::Null);
        let m3 = with_default_v(
            m2,
            "base_instructions"@,
            JsonV::Str("You are a helpful coding agent."@),
        );
        let m4 = with_default_v(m3, "support_verbosity"@, JsonV::Bool(false));
        let m5 = with_default_v(m4, "default_verbosity"@, JsonV::Null);
        let m6 = with_default_v(
            m5,
            "truncation_policy"@,
            JsonV::Object(seq![("mode"@, JsonV::Str("tokens"@)), ("limit"@, num_v(100000))]),
        );
        with_default_v(m6, "experimental_supported_tools"@, JsonV::Array(Seq::empty()))
    } else {
        m
    }
}

fn set_default(m: &mut Json, key: &str, v: Json)
    requires
        old(m)@ is Object,
    ensures
        final(m)@ == with_default_v(old(m)@, key@, v@),
        final(m)@ is Object,
{
    if m.get(key).is_none() {
        m.set(key, v);
    }
}

/// Adds the members Codex Desktop requires of a catalog entry.
pub fn ensure_required_v26_fields(model: &mut Json)
    ensures
        final(model)@ == ensure_required_v(old(model)@),
{
    if !model.is_object() {
        return;
    }
    set_default(model, "availability_nux", Json::Null);
    set_default(model, "upgrade", Json::Null);
    set_default(model, "base_instructions", Json::str_of("You are a helpful coding agent."));
    set_default(model, "support_verbosity", Json::Bool(false));
    set_default(model, "default_verbosity", Json::Null);
    let policy = crate::json::object2("mode", Json::str_of("tokens"), "limit", number_of_u64(100000));
    set_default(model, "truncation_policy", policy);
    set_default(model, "experimental_supported_tools", Json::Array(Vec::new()));
    proof {
        crate::json::lemma_view_items_empty();
    }
}

// ---------------------------------------------------------------------------
// Per-model metadata

/// An entry with both context window members set.
pub open spec fn context_window_v(m: JsonV, cw: u32) -> JsonV {
    if m is Object {
        set_v(set_v(m, "context_window"@, num_v(cw as nat)), "max_context_window"@, num_v(cw as nat))
    } else {
        m
    }
}

fn apply_context_window(model: &mut Json, context_window: u32)
    ensures
        final(model)@ == context_window_v(old(model)@, context_window),
{
    if model.is_object() {
        model.set("context_window", number_of_u64(context_window as u64));
        model.set("max_context_window", number_of_u64(context_window as u64));
    }
}

/// The priority of a model: DeepSeek V4 Pro first, then models with a
/// context of at least a million tokens, then the rest.
pub open spec fn priority_v(p: ProviderV, v: ModelV) -> nat {
    if p.id == "deepseek"@ && v.slug == "deepseek-v4-pro"@ {
        1000
    } else if v.context_window >= 1_000_000 {
        200
    } else {
        100
    }
}

/// An entry describing model `v` of provider `p`: its slug, priority,
/// visibility and context windows; its display name and description too
/// unless the entry's own labels are kept.
pub open spec fn patch_metadata_v(m: JsonV, p: ProviderV, v: ModelV, preserve_labels: bool) -> JsonV {
    if m is Object {
        let m1 = set_v(m, "slug"@, JsonV::Str(v.slug));
        let m2 = if preserve_labels {
            m1
        } else {
            set_v(
                set_v(m1, "display_name"@, JsonV::Str(v.display_name)),
                "description"@,
                JsonV::Str(v.display_name + " · "@ + p.name),
            )
        };
        let m3 = set_v(
            set_v(set_v(m2, "priority"@, num_v(priority_v(p, v))), "visibility"@, JsonV::Str("list"@)),
            "supported_in_api"@,
            JsonV::Bool(true),
        );
        context_window_v(m3, v.context_window)
    } else {
        m
    }
}

fn patch_variant_metadata(
    model: &mut Json,
    provider: &ProviderConfig,
    variant: &ModelEntry,
    preserve_labels: bool,
)
    ensures
        final(model)@ == patch_metadata_v(old(model)@, provider@, variant@, preserve_labels),
{
    if !model.is_object() {
        return;
    }
    model.set("slug", Json::Str(variant.slug.clone()));
    if !preserve_labels {
        model.set("display_name", Json::Str(variant.display_name.clone()));
        model.set(
            "description",
            Json::Str(concat3(variant.display_name.as_str(), " · ", provider.name.as_str())),
        );
    }
    let priority: u64 = if str_eq(provider.id.as_str(), "deepseek") && str_eq(
        variant.slug.as_str(),
        "deepseek-v4-pro",
    ) {
        1000
    } else if variant.context_window >= 1_000_000 {
        200
    } else {
        100
    };
    model.set("priority", number_of_u64(priority));
    model.set("visibility", Json::str_of("list"));
    model.set("supported_in_api", Json::Bool(true));
    apply_context_window(model, variant.context_window);
}

/// An entry with the model's display name.
pub open spec fn display_name_v(m: JsonV, v: ModelV) -> JsonV {
    if m is Object {
        set_v(m, "display_name"@, JsonV::Str(v.display_name))
    } else {
        m
    }
}

fn ensure_variant_display_name(model: &mut Json, variant: &ModelEntry)
    ensures
        final(model)@ == display_name_v(old(model)@, variant@),
{
    if model.is_object() {
        model.set("display_name", Json::Str(variant.display_name.clone()));
    }
}

/// An entry with the provider's reasoning levels and the default level
/// when its reasoning has levels, and without both otherwise.
pub open spec fn reasoning_fields_v(m: JsonV, p: ProviderV, effort: Seq<char>) -> JsonV {
    if m is Object {
        match catalog_levels_v(p) {
            Some(levels) => set_v(
                set_v(m, "default_reasoning_level"@, JsonV::Str(effort)),
                "supported_reasoning_levels"@,
                levels,
            ),
            None => remove_v(
                remove_v(m, "default_reasoning_level"@),
                "supported_reasoning_levels"@,
            ),
        }
    } else {
        m
    }
}

fn apply_reasoning_catalog_fields(model: &mut Json, provider: &ProviderConfig, default_reasoning_effort: &str)
    ensures
        final(model)@ == reasoning_fields_v(old(model)@, provider@, default_reasoning_effort@),
{
    if !model.is_object() {
        return;
    }
    match supported_reasoning_levels_for_catalog(provider) {
        Some(levels) => {
            model.set("default_reasoning_level", Json::str_of(default_reasoning_effort));
            model.set("supported_reasoning_levels", levels);
        },
        None => {
            model.remove("default_reasoning_level");
            model.remove("supported_reasoning_levels");
        },
    }
}

/// A new entry for model `v`, made from the template.
pub open spec fn from_variant_v(template: JsonV, p: ProviderV, v: ModelV) -> JsonV {
    context_window_v(patch_metadata_v(template, p, v, false), v.context_window)
}

fn model_from_variant(template: &Json, provider: &ProviderConfig, variant: &ModelEntry) -> (r: Json)
    ensures
        r@ == from_variant_v(template@, provider@, variant@),
{
    let mut model = deep_clone(template);
    patch_variant_metadata(&mut model, provider, variant, false);
    apply_context_window(&mut model, variant.context_window);
    model
}

// ---------------------------------------------------------------------------
// The template entry

/// The entry new models are made from when no earlier catalog gives one,
/// for provider `p`: its selected model, with the capabilities Codex
/// Desktop expects of a Chat model.
pub open spec fn minimal_entry_v(p: ProviderV) -> JsonV {
    let base = JsonV::Object(
        seq![
            ("slug"@, JsonV::Str(p.default_model)),
            ("display_name"@, JsonV::Str(p.default_model)),
            ("description"@, JsonV::Str(p.name + " · Codex Helper"@)),
            ("visibility"@, JsonV::Str("list"@)),
            ("supported_in_api"@, JsonV::Bool(true)),
            ("priority"@, num_v(100)),
            ("context_window"@, num_v(128000)),
            ("max_context_window"@, num_v(128000)),
            ("effective_context_window_percent"@, num_v(95)),
            ("input_modalities"@, JsonV::Array(seq![JsonV::Str("text"@)])),
            ("supports_parallel_tool_calls"@, JsonV::Bool(true)),
            ("supports_reasoning_summaries"@, JsonV::Bool(false)),
            ("apply_patch_tool_type"@, JsonV::Str("freeform"@)),
            ("shell_type"@, JsonV::Str("shell_command"@)),
            ("web_search_tool_type"@, JsonV::Str("text_and_image"@)),
        ],
    );
    ensure_required_v(reasoning_fields_v(base, p, "medium"@))
}

fn minimal_model_entry(provider: &ProviderConfig) -> (r: Json)
    ensures
        r@ == minimal_entry_v(provider@),
{
    let mut e: Vec<(String, Json)> = Vec::new();
    e.push(("slug".to_string(), Json::Str(provider.default_model.clone())));
    e.push(("display_name".to_string(), Json::Str(provider.default_model.clone())));
    e.push(
        ("description".to_string(), Json::Str(concat2(provider.name.as_str(), " · Codex Helper"))),
    );
    e.push(("visibility".to_string(), Json::str_of("list")));
    e.push(("supported_in_api".to_string(), Json::Bool(true)));
    e.push(("priority".to_string(), number_of_u64(100)));
    e.push(("context_window".to_string(), number_of_u64(128000)));
    e.push(("max_context_window".to_string(), number_of_u64(128000)));
    e.push(("effective_context_window_percent".to_string(), number_of_u64(95)));
    let mut modalities: Vec<Json> = Vec::new();
    modalities.push(Json::str_of("text"));
    let ghost text_v = modalities@[0]@;
    assert(view_items(modalities@) =~= seq![text_v]);
    e.push(("input_modalities".to_string(), Json::Array(modalities)));
    e.push(("supports_parallel_tool_calls".to_string(), Json::Bool(true)));
    e.push(("supports_reasoning_summaries".to_string(), Json::Bool(false)));
    e.push(("apply_patch_tool_type".to_string(), Json::str_of("freeform")));
    e.push(("shell_type".to_string(), Json::str_of("shell_command")));
    e.push(("web_search_tool_type".to_string(), Json::str_of("text_and_image")));
    assert(crate::json::view_entries(e@) =~= (
        seq![
            ("slug"@, JsonV::Str(provider.default_model@)),
            ("display_name"@, JsonV::Str(provider.default_model@)),
            ("description"@, JsonV::Str(provider.name@ + " · Codex Helper"@)),
            ("visibility"@, JsonV::Str("list"@)),
            ("supported_in_api"@, JsonV::Bool(true)),
            ("priority"@, num_v(100)),
            ("context_window"@, num_v(128000)),
            ("max_context_window"@, num_v(128000)),
            ("effective_context_window_percent"@, num_v(95)),
            ("input_modalities"@, JsonV::Array(seq![JsonV::Str("text"@)])),
            ("supports_parallel_tool_calls"@, JsonV::Bool(true)),
            ("supports_reasoning_summaries"@, JsonV::Bool(false)),
            ("apply_patch_tool_type"@, JsonV::Str("freeform"@)),
            ("shell_type"@, JsonV::Str("shell_command"@)),
            ("web_search_tool_type"@, JsonV::Str("text_and_image"@)),
        ]
    ));
    let mut entry = Json::Object(e);
    apply_reasoning_catalog_fields(&mut entry, provider, "medium");
    ensure_required_v26_fields(&mut entry);
    entry
}

/// The provider the template entry is made for.
pub open spec fn template_provider_v() -> ProviderV {
    ProviderV {
        id: "template"@,
        name: "Template"@,
        base_url: ""@,
        api_key_env: ""@,
        default_model: "deepseek-v4-flash"@,
        api_model: ""@,
        wire_api: "chat"@,
        custom_models: Seq::empty(),
    }
}

fn template_provider() -> (r: ProviderConfig)
    ensures
        r@ == template_provider_v(),
{
    ProviderConfig::new("template", "Template", "", "", "deepseek-v4-flash", "", "chat")
}

/// The models of a catalog: its `models` array, or none.
pub open spec fn catalog_models_v(catalog: Option<JsonV>) -> Seq<JsonV> {
    match catalog {
        Some(c) => match get_array_v(c, "models"@) {
            Some(a) => a,
            None => Seq::empty(),
        },
        None => Seq::empty(),
    }
}

/// The models listed in an earlier catalog (given when there is one).
pub fn catalog_models(catalog: Option<&Json>) -> (r: Vec<Json>)
    ensures
        view_items(r@) == catalog_models_v(
            match catalog {
                Some(c) => Some(c@),
                None => None,
            },
        ),
{
    match catalog {
        Some(c) => match c.get_array("models") {
            Some(a) => crate::json::clone_items(a),
            None => {
                proof {
                    crate::json::lemma_view_items_empty();
                }
                Vec::new()
            },
        },
        None => {
            proof {
                crate::json::lemma_view_items_empty();
            }
            Vec::new()
        },
    }
}

/// The template entry: the first model of an earlier catalog, or the
/// minimal entry of the template provider.
pub open spec fn template_v(catalog: Option<JsonV>, fallback: JsonV) -> JsonV {
    let models = catalog_models_v(catalog);
    if models.len() > 0 {
        models[0]
    } else {
        fallback
    }
}

/// The entry new catalog models are made from.
pub fn load_catalog_template(catalog: Option<&Json>) -> (r: Json)
    ensures
        r@ == template_v(
            match catalog {
                Some(c) => Some(c@),
                None => None,
            },
            minimal_entry_v(template_provider_v()),
        ),
{
    let models = catalog_models(catalog);
    let t = template_provider();
    let fallback = minimal_model_entry(&t);
    if models.len() > 0 {
        assert(view_items(models@)[0] == models@[0]@);
        deep_clone(&models[0])
    } else {
        fallback
    }
}


// ---------------------------------------------------------------------------
// Building the catalog

/// The slug an entry names.
pub open spec fn slug_of_v(m: JsonV) -> Option<Seq<char>> {
    get_str_v(m, "slug"@)
}

/// The last entry of an earlier catalog naming `slug`.
pub open spec fn last_with_slug_v(existing: Seq<JsonV>, slug: Seq<char>) -> Option<JsonV>
    decreases existing.len(),
{
    if existing.len() == 0 {
        None
    } else if slug_of_v(existing.last()) == Some(slug) {
        Some(existing.last())
    } else {
        last_with_slug_v(existing.drop_last(), slug)
    }
}

/// The entry for model `v`, given the entries made so far (an object keyed
/// by slug): the one made before, else the earlier catalog's, with the
/// model's metadata and its own labels; or a new one from the template.
/// Then the reasoning levels, and the display name for the selected model.
pub open spec fn variant_entry_v(
    made: JsonV,
    existing: Seq<JsonV>,
    template: JsonV,
    p: ProviderV,
    effort: Seq<char>,
    v: ModelV,
) -> JsonV {
    let base = match get_v(made, v.slug) {
        Some(m) => patch_metadata_v(m, p, v, true),
        None => match last_with_slug_v(existing, v.slug) {
            Some(e) => patch_metadata_v(e, p, v, true),
            None => from_variant_v(template, p, v),
        },
    };
    let e = reasoning_fields_v(base, p, effort);
    if v.slug == p.default_model {
        display_name_v(e, v)
    } else {
        e
    }
}

/// The entries for the models `vs`, as an object keyed by slug.
pub open spec fn made_entries_v(
    existing: Seq<JsonV>,
    template: JsonV,
    p: ProviderV,
    effort: Seq<char>,
    vs: Seq<ModelV>,
) -> JsonV
    decreases vs.len(),
{
    if vs.len() == 0 {
        JsonV::Object(Seq::empty())
    } else {
        let made = made_entries_v(existing, template, p, effort, vs.drop_last());
        set_v(made, vs.last().slug, variant_entry_v(made, existing, template, p, effort, vs.last()))
    }
}

/// Whether an entry is the active model's.
pub open spec fn is_active_entry_v(m: JsonV, active: Seq<char>) -> bool {
    slug_of_v(m) == Some(active)
}

/// The priority of an entry (0 when it has none).
pub open spec fn priority_of_v(m: JsonV) -> int {
    match get_v(m, "priority"@) {
        Some(n) => match number_i64_v(n) {
            Some(x) => x as int,
            None => 0,
        },
        None => 0,
    }
}

/// Entry `a` is listed before entry `b`: the active model first, then
/// higher priority first.
pub open spec fn goes_before_v(a: JsonV, b: JsonV, active: Seq<char>) -> bool {
    let aa = is_active_entry_v(a, active);
    let ba = is_active_entry_v(b, active);
    (aa && !ba) || (aa == ba && priority_of_v(a) > priority_of_v(b))
}

/// `x` put into `s` before the first entry it goes before.
pub open spec fn insert_sorted_v(s: Seq<JsonV>, x: JsonV, active: Seq<char>) -> Seq<JsonV>
    decreases s.len(),
{
    if s.len() == 0 {
        seq![x]
    } else if goes_before_v(x, s[0], active) {
        seq![x] + s
    } else {
        seq![s[0]] + insert_sorted_v(s.skip(1), x, active)
    }
}

/// The entries in listing order; entries that tie keep their order.
pub open spec fn sort_entries_v(s: Seq<JsonV>, active: Seq<char>) -> Seq<JsonV>
    decreases s.len(),
{
    if s.len() == 0 {
        s
    } else {
        insert_sorted_v(sort_entries_v(s.drop_last(), active), s.last(), active)
    }
}

/// The catalog for provider `p`: the entries of its models, completed with
/// the required members, in listing order.
pub open spec fn catalog_v(existing: Seq<JsonV>, template: JsonV, p: ProviderV, effort: Seq<char>) -> JsonV {
    let made = made_entries_v(existing, template, p, effort, models_for_provider_v(p));
    let models = crate::json::members_v(made).map_values(
        |e: (Seq<char>, JsonV)| ensure_required_v(e.1),
    );
    JsonV::Object(seq![("models"@, JsonV::Array(sort_entries_v(models, p.default_model)))])
}

fn last_with_slug<'a>(existing: &'a Vec<Json>, slug: &str) -> (r: Option<&'a Json>)
    ensures
        match last_with_slug_v(view_items(existing@), slug@) {
            Some(e) => r is Some && r->0@ == e,
            None => r is None,
        },
{
    let ghost ev = view_items(existing@);
    let mut i: usize = existing.len();
    proof {
        assert(ev.take(ev.len() as int) =~= ev);
    }
    while i > 0
        invariant
            i <= existing.len(),
            ev == view_items(existing@),
            last_with_slug_v(ev, slug@) == last_with_slug_v(ev.take(i as int), slug@),
        decreases i,
    {
        proof {
            assert(ev.take(i as int).drop_last() =~= ev.take(i - 1));
            assert(ev.take(i as int).last() == existing@[i - 1]@);
        }
        let m = &existing[i - 1];
        match m.get_str("slug") {
            Some(s) => if str_eq(s, slug) {
                return Some(m);
            },
            None => {},
        }
        i = i - 1;
    }
    None
}

fn entry_priority(m: &Json) -> (r: i64)
    ensures
        r as int == priority_of_v(m@),
{
    match m.get("priority") {
        Some(n) => match n.as_i64() {
            Some(x) => x,
            None => 0,
        },
        None => 0,
    }
}

fn is_active_entry(m: &Json, active: &str) -> (r: bool)
    ensures
        r == is_active_entry_v(m@, active@),
{
    match m.get_str("slug") {
        Some(s) => str_eq(s, active),
        None => false,
    }
}

fn goes_before(a: &Json, b: &Json, active: &str) -> (r: bool)
    ensures
        r == goes_before_v(a@, b@, active@),
{
    let aa = is_active_entry(a, active);
    let ba = is_active_entry(b, active);
    (aa && !ba) || (aa == ba && entry_priority(a) > entry_priority(b))
}

proof fn lemma_insert_sorted_at(s: Seq<JsonV>, x: JsonV, active: Seq<char>, i: int)
    requires
        0 <= i <= s.len(),
        forall|k: int| 0 <= k < i ==> !goes_before_v(x, #[trigger] s[k], active),
        i < s.len() ==> goes_before_v(x, s[i], active),
    ensures
        insert_sorted_v(s, x, active) == s.insert(i, x),
    decreases s.len(),
{
    if s.len() == 0 {
        assert(s.insert(i, x) =~= seq![x]);
    } else if i == 0 {
        assert(s.insert(0, x) =~= seq![x] + s);
    } else {
        assert(!goes_before_v(x, s[0], active));
        let t = s.skip(1);
        assert forall|k: int| 0 <= k < i - 1 implies !goes_before_v(x, #[trigger] t[k], active) by {
            assert(t[k] == s[k + 1]);
        }
        if i < s.len() {
            assert(t[i - 1] == s[i]);
        }
        lemma_insert_sorted_at(t, x, active, i - 1);
        assert(seq![s[0]] + t.insert(i - 1, x) =~= s.insert(i, x));
    }
}

fn insert_sorted(v: &mut Vec<Json>, x: Json, active: &str)
    ensures
        view_items(final(v)@) == insert_sorted_v(view_items(old(v)@), x@, active@),
{
    let ghost s = view_items(v@);
    let mut i: usize = 0;
    while i < v.len() && !goes_before(&x, &v[i], active)
        invariant
            i <= v.len(),
            s == view_items(v@),
            forall|k: int| 0 <= k < i ==> !goes_before_v(x@, #[trigger] s[k], active@),
        decreases v.len() - i,
    {
        assert(s[i as int] == v@[i as int]@);
        i = i + 1;
    }
    proof {
        if i < v.len() {
            assert(s[i as int] == v@[i as int]@);
        }
        lemma_insert_sorted_at(s, x@, active@, i as int);
    }
    let ghost xv = x@;
    v.insert(i, x);
    assert(view_items(v@) =~= s.insert(i as int, xv));
}

fn sort_entries(models: &Vec<Json>, active: &str) -> (r: Vec<Json>)
    ensures
        view_items(r@) == sort_entries_v(view_items(models@), active@),
{
    let ghost mv = view_items(models@);
    let mut sorted: Vec<Json> = Vec::new();
    let mut k: usize = 0;
    proof {
        crate::json::lemma_view_items_empty();
        assert(mv.take(0) =~= Seq::<JsonV>::empty());
    }
    while k < models.len()
        invariant
            k <= models.len(),
            mv == view_items(models@),
            view_items(sorted@) == sort_entries_v(mv.take(k as int), active@),
        decreases models.len() - k,
    {
        proof {
            assert(mv.take(k + 1).drop_last() =~= mv.take(k as int));
            assert(mv.take(k + 1).last() == models@[k as int]@);
        }
        insert_sorted(&mut sorted, deep_clone(&models[k]), active);
        k = k + 1;
    }
    proof {
        assert(mv.take(models.len() as int) =~= mv);
    }
    sorted
}

/// Builds the catalog for the active provider from the models of an
/// earlier catalog and a template entry.
pub fn build_merged_catalog(app: &AppConfig, existing: &Vec<Json>, template: &Json) -> (r: Result<
    Json,
    ConfigError,
>)
    requires
        app.wf(),
    ensures
        match r {
            Ok(c) => app.provider_map().contains_key(app.active@) && c@ == catalog_v(
                view_items(existing@),
                template@,
                app.provider_map()[app.active@],
                normalized_effort_v(app.model_reasoning_effort@),
            ),
            Err(ConfigError::UnknownProvider(id)) => !app.provider_map().contains_key(app.active@)
                && id@ == app.active@,
        },
{
    let p = match app.active_provider() {
        Ok(p) => p,
        Err(e) => {
            return Err(e);
        },
    };
    let effort = app.normalized_model_reasoning_effort();
    let variants = models_for_provider(p);
    let ghost vs = models_for_provider_v(p@);
    let ghost ev = view_items(existing@);
    let mut made = Json::empty_object();
    let mut i: usize = 0;
    proof {
        assert(vs.take(0) =~= Seq::<ModelV>::empty());
    }
    while i < variants.len()
        invariant
            i <= variants.len(),
            entries_view(variants@) == vs,
            ev == view_items(existing@),
            made@ == made_entries_v(ev, template@, p@, effort@, vs.take(i as int)),
            made@ is Object,
        decreases variants.len() - i,
    {
        proof {
            assert(vs.take(i + 1).drop_last() =~= vs.take(i as int));
            assert(vs.take(i + 1).last() == vs[i as int]);
            assert(vs[i as int] == variants@[i as int]@);
        }
        let v = &variants[i];
        let base = match made.get(v.slug.as_str()) {
            Some(m) => {
                let mut b = deep_clone(m);
                patch_variant_metadata(&mut b, p, v, true);
                b
            },
            None => match last_with_slug(existing, v.slug.as_str()) {
                Some(e) => {
                    let mut b = deep_clone(e);
                    patch_variant_metadata(&mut b, p, v, true);
                    b
                },
                None => model_from_variant(template, p, v),
            },
        };
        let mut entry = base;
        apply_reasoning_catalog_fields(&mut entry, p, effort.as_str());
        if str_eq(v.slug.as_str(), p.default_model.as_str()) {
            ensure_variant_display_name(&mut entry, v);
        }
        made.set(v.slug.as_str(), entry);
        i = i + 1;
    }
    proof {
        assert(vs.take(variants.len() as int) =~= vs);
    }
    let entries: Vec<(String, Json)> = match made {
        Json::Object(e) => e,
        _ => Vec::new(),
    };
    let ghost ms = crate::json::members_v(made_entries_v(ev, template@, p@, effort@, vs));
    assert(crate::json::view_entries(entries@) == ms);
    let mut models: Vec<Json> = Vec::new();
    let mut k: usize = 0;
    proof {
        crate::json::lemma_view_items_empty();
    }
    while k < entries.len()
        invariant
            k <= entries.len(),
            crate::json::view_entries(entries@) == ms,
            view_items(models@) == ms.take(k as int).map_values(
                |e: (Seq<char>, JsonV)| ensure_required_v(e.1),
            ),
        decreases entries.len() - k,
    {
        let mut m = deep_clone(&entries[k].1);
        proof {
            crate::json::lemma_view_entries_index(entries@, k as int);
        }
        ensure_required_v26_fields(&mut m);
        let ghost before = models@;
        proof {
            crate::json::lemma_view_items_push(before, m);
            assert(ms.take(k + 1).map_values(|e: (Seq<char>, JsonV)| ensure_required_v(e.1))
                =~= ms.take(k as int).map_values(|e: (Seq<char>, JsonV)| ensure_required_v(e.1)).push(
                ensure_required_v(ms[k as int].1),
            ));
        }
        models.push(m);
        k = k + 1;
    }
    proof {
        assert(ms.len() == entries.len());
        assert(ms.take(entries.len() as int) =~= ms);
    }
    let sorted = sort_entries(&models, p.default_model.as_str());
    let ghost sv = view_items(sorted@);
    let r = crate::json::object1("models", Json::Array(sorted));
    assert(r@ == JsonV::Object(seq![("models"@, JsonV::Array(sv))]));
    Ok(r)
}


// ---------------------------------------------------------------------------
// What every catalog satisfies

/// The models listed by a catalog.
pub open spec fn listed_models_v(catalog: JsonV) -> Seq<JsonV> {
    match get_array_v(catalog, "models"@) {
        Some(a) => a,
        None => Seq::empty(),
    }
}

/// The reasoning members every entry of a catalog for `p` carries: the
/// provider's levels and the default level when its reasoning has levels,
/// neither otherwise.
pub open spec fn has_reasoning_fields_v(m: JsonV, p: ProviderV, effort: Seq<char>) -> bool {
    &&& get_v(m, "supported_reasoning_levels"@) == catalog_levels_v(p)
    &&& get_v(m, "default_reasoning_level"@) == (match catalog_levels_v(p) {
        Some(_) => Some(JsonV::Str(effort)),
        None => None,
    })
}

proof fn lemma_reveal_keys()
    ensures
        "slug"@.len() == 4,
        "display_name"@.len() == 12,
        "description"@.len() == 11,
        "priority"@.len() == 8,
        "visibility"@.len() == 10,
        "supported_in_api"@.len() == 16,
        "context_window"@.len() == 14,
        "max_context_window"@.len() == 18,
        "default_reasoning_level"@.len() == 23,
        "supported_reasoning_levels"@.len() == 26,
        "availability_nux"@.len() == 16,
        "upgrade"@.len() == 7,
        "base_instructions"@.len() == 17,
        "support_verbosity"@.len() == 17,
        "default_verbosity"@.len() == 17,
        "truncation_policy"@.len() == 17,
        "experimental_supported_tools"@.len() == 28,
{
    reveal_strlit("slug");
    reveal_strlit("display_name");
    reveal_strlit("description");
    reveal_strlit("priority");
    reveal_strlit("visibility");
    reveal_strlit("supported_in_api");
    reveal_strlit("context_window");
    reveal_strlit("max_context_window");
    reveal_strlit("default_reasoning_level");
    reveal_strlit("supported_reasoning_levels");
    reveal_strlit("availability_nux");
    reveal_strlit("upgrade");
    reveal_strlit("base_instructions");
    reveal_strlit("support_verbosity");
    reveal_strlit("default_verbosity");
    reveal_strlit("truncation_policy");
    reveal_strlit("experimental_supported_tools");
}

/// The keys the catalog laws read.
pub open spec fn watched_key(k: Seq<char>) -> bool {
    k == "slug"@ || k == "supported_reasoning_levels"@ || k == "default_reasoning_level"@
}

/// The keys that carry a catalog entry's context window.
pub open spec fn window_key(k: Seq<char>) -> bool {
    k == "context_window"@ || k == "max_context_window"@
}

/// An entry whose context window and maximal context window are both `w`
/// tokens.
pub open spec fn has_window_v(m: JsonV, w: u32) -> bool {
    &&& get_v(m, "context_window"@) == Some(num_v(w as nat))
    &&& get_v(m, "max_context_window"@) == Some(num_v(w as nat))
}

/// The context window of the last model of `vs` with slug `s` (the one
/// whose entry the catalog keeps).
pub open spec fn window_of_v(vs: Seq<ModelV>, s: Seq<char>) -> u32
    decreases vs.len(),
{
    if vs.len() == 0 {
        0
    } else if vs.last().slug == s {
        vs.last().context_window
    } else {
        window_of_v(vs.drop_last(), s)
    }
}

proof fn lemma_window_set(m: JsonV, w: u32)
    requires
        m is Object,
    ensures
        has_window_v(context_window_v(m, w), w),
        context_window_v(m, w) is Object,
{
    lemma_reveal_keys();
    let c = num_v(w as nat);
    let a = set_v(m, "context_window"@, c);
    crate::json::lemma_get_set(m, "context_window"@, c, "context_window"@);
    crate::json::lemma_get_set(a, "max_context_window"@, c, "context_window"@);
    crate::json::lemma_get_set(a, "max_context_window"@, c, "max_context_window"@);
}

proof fn lemma_patch_window(m: JsonV, p: ProviderV, v: ModelV, preserve_labels: bool)
    requires
        m is Object,
    ensures
        has_window_v(patch_metadata_v(m, p, v, preserve_labels), v.context_window),
        patch_metadata_v(m, p, v, preserve_labels) is Object,
{
    let m1 = set_v(m, "slug"@, JsonV::Str(v.slug));
    let m2 = if preserve_labels {
        m1
    } else {
        set_v(
            set_v(m1, "display_name"@, JsonV::Str(v.display_name)),
            "description"@,
            JsonV::Str(v.display_name + " · "@ + p.name),
        )
    };
    let m3 = set_v(
        set_v(set_v(m2, "priority"@, num_v(priority_v(p, v))), "visibility"@, JsonV::Str("list"@)),
        "supported_in_api"@,
        JsonV::Bool(true),
    );
    lemma_window_set(m3, v.context_window);
}

proof fn lemma_reasoning_keeps_window(m: JsonV, p: ProviderV, effort: Seq<char>, k: Seq<char>)
    requires
        window_key(k),
    ensures
        get_v(reasoning_fields_v(m, p, effort), k) == get_v(m, k),
{
    lemma_reveal_keys();
    if m is Object {
        let d = "default_reasoning_level"@;
        let l = "supported_reasoning_levels"@;
        match catalog_levels_v(p) {
            Some(levels) => {
                crate::json::lemma_get_set(m, d, JsonV::Str(effort), k);
                crate::json::lemma_get_set(set_v(m, d, JsonV::Str(effort)), l, levels, k);
            },
            None => {
                crate::json::lemma_get_remove(m, d, k);
                crate::json::lemma_get_remove(remove_v(m, d), l, k);
            },
        }
    }
}

proof fn lemma_set_keeps(m: JsonV, k: Seq<char>, v: JsonV, k2: Seq<char>)
    requires
        m is Object,
        k != k2,
    ensures
        get_v(set_v(m, k, v), k2) == get_v(m, k2),
        set_v(m, k, v) is Object,
{
    crate::json::lemma_get_set(m, k, v, k2);
}

proof fn lemma_with_default_keeps(m: JsonV, k: Seq<char>, v: JsonV, k2: Seq<char>)
    requires
        m is Object,
        k != k2,
    ensures
        get_v(with_default_v(m, k, v), k2) == get_v(m, k2),
        with_default_v(m, k, v) is Object,
{
    lemma_set_keeps(m, k, v, k2);
}

proof fn lemma_ensure_required_keeps(m: JsonV, k: Seq<char>)
    requires
        watched_key(k) || window_key(k),
    ensures
        get_v(ensure_required_v(m), k) == get_v(m, k),
{
    lemma_reveal_keys();
    if m is Object {
        let m1 = with_default_v(m, "availability_nux"@, JsonV::Null);
        lemma_with_default_keeps(m, "availability_nux"@, JsonV::Null, k);
        let m2 = with_default_v(m1, "upgrade"@, JsonV::Null);
        lemma_with_default_keeps(m1, "upgrade"@, JsonV::Null, k);
        let v3 = JsonV::Str("You are a helpful coding agent."@);
        let m3 = with_default_v(m2, "base_instructions"@, v3);
        lemma_with_default_keeps(m2, "base_instructions"@, v3, k);
        let m4 = with_default_v(m3, "support_verbosity"@, JsonV::Bool(false));
        lemma_with_default_keeps(m3, "support_verbosity"@, JsonV::Bool(false), k);
        let m5 = with_default_v(m4, "default_verbosity"@, JsonV::Null);
        lemma_with_default_keeps(m4, "default_verbosity"@, JsonV::Null, k);
        let v6 = JsonV::Object(seq![("mode"@, JsonV::Str("tokens"@)), ("limit"@, num_v(100000))]);
        let m6 = with_default_v(m5, "truncation_policy"@, v6);
        lemma_with_default_keeps(m5, "truncation_policy"@, v6, k);
        lemma_with_default_keeps(m6, "experimental_supported_tools"@, JsonV::Array(Seq::empty()), k);
    }
}

proof fn lemma_patch_sets_slug(m: JsonV, p: ProviderV, v: ModelV, preserve_labels: bool)
    requires
        m is Object,
    ensures
        patch_metadata_v(m, p, v, preserve_labels) is Object,
        slug_of_v(patch_metadata_v(m, p, v, preserve_labels)) == Some(v.slug),
{
    lemma_reveal_keys();
    let k = "slug"@;
    let m1 = set_v(m, k, JsonV::Str(v.slug));
    crate::json::lemma_get_set(m, k, JsonV::Str(v.slug), k);
    let m2 = if preserve_labels {
        m1
    } else {
        let a = set_v(m1, "display_name"@, JsonV::Str(v.display_name));
        lemma_set_keeps(m1, "display_name"@, JsonV::Str(v.display_name), k);
        let d = JsonV::Str(v.display_name + " · "@ + p.name);
        lemma_set_keeps(a, "description"@, d, k);
        set_v(a, "description"@, d)
    };
    let b1 = set_v(m2, "priority"@, num_v(priority_v(p, v)));
    lemma_set_keeps(m2, "priority"@, num_v(priority_v(p, v)), k);
    let b2 = set_v(b1, "visibility"@, JsonV::Str("list"@));
    lemma_set_keeps(b1, "visibility"@, JsonV::Str("list"@), k);
    let m3 = set_v(b2, "supported_in_api"@, JsonV::Bool(true));
    lemma_set_keeps(b2, "supported_in_api"@, JsonV::Bool(true), k);
    let c = num_v(v.context_window as nat);
    let c1 = set_v(m3, "context_window"@, c);
    lemma_set_keeps(m3, "context_window"@, c, k);
    lemma_set_keeps(c1, "max_context_window"@, c, k);
}

proof fn lemma_context_window_keeps(m: JsonV, cw: u32, k: Seq<char>)
    requires
        watched_key(k),
    ensures
        get_v(context_window_v(m, cw), k) == get_v(m, k),
        m is Object ==> context_window_v(m, cw) is Object,
{
    lemma_reveal_keys();
    if m is Object {
        let c = num_v(cw as nat);
        lemma_set_keeps(m, "context_window"@, c, k);
        lemma_set_keeps(set_v(m, "context_window"@, c), "max_context_window"@, c, k);
    }
}

proof fn lemma_reasoning_fields(m: JsonV, p: ProviderV, effort: Seq<char>)
    requires
        m is Object,
    ensures
        reasoning_fields_v(m, p, effort) is Object,
        slug_of_v(reasoning_fields_v(m, p, effort)) == slug_of_v(m),
        has_reasoning_fields_v(reasoning_fields_v(m, p, effort), p, effort),
{
    lemma_reveal_keys();
    let d = "default_reasoning_level"@;
    let l = "supported_reasoning_levels"@;
    match catalog_levels_v(p) {
        Some(levels) => {
            let a = set_v(m, d, JsonV::Str(effort));
            lemma_set_keeps(m, d, JsonV::Str(effort), "slug"@);
            crate::json::lemma_get_set(m, d, JsonV::Str(effort), d);
            lemma_set_keeps(a, l, levels, "slug"@);
            lemma_set_keeps(a, l, levels, d);
            crate::json::lemma_get_set(a, l, levels, l);
        },
        None => {
            let a = remove_v(m, d);
            crate::json::lemma_get_remove(m, d, "slug"@);
            crate::json::lemma_get_remove(m, d, d);
            crate::json::lemma_get_remove(a, l, "slug"@);
            crate::json::lemma_get_remove(a, l, d);
            crate::json::lemma_get_remove(a, l, l);
        },
    }
}

proof fn lemma_display_name_keeps(m: JsonV, v: ModelV, k: Seq<char>)
    requires
        watched_key(k) || window_key(k),
    ensures
        get_v(display_name_v(m, v), k) == get_v(m, k),
        m is Object ==> display_name_v(m, v) is Object,
{
    lemma_reveal_keys();
    if m is Object {
        lemma_set_keeps(m, "display_name"@, JsonV::Str(v.display_name), k);
    }
}

proof fn lemma_last_with_slug(existing: Seq<JsonV>, slug: Seq<char>)
    ensures
        last_with_slug_v(existing, slug) matches Some(e) ==> slug_of_v(e) == Some(slug),
    decreases existing.len(),
{
    if existing.len() > 0 {
        lemma_last_with_slug(existing.drop_last(), slug);
    }
}

/// A value naming a slug is an object.
proof fn lemma_slug_object(m: JsonV)
    requires
        slug_of_v(m) is Some,
    ensures
        m is Object,
{
}

/// The entry made for a model names its slug and carries the provider's
/// reasoning members.
proof fn lemma_variant_entry(
    made: JsonV,
    existing: Seq<JsonV>,
    template: JsonV,
    p: ProviderV,
    effort: Seq<char>,
    v: ModelV,
)
    requires
        template is Object,
        get_v(made, v.slug) matches Some(x) ==> slug_of_v(x) is Some,
    ensures
        slug_of_v(variant_entry_v(made, existing, template, p, effort, v)) == Some(v.slug),
        has_reasoning_fields_v(variant_entry_v(made, existing, template, p, effort, v), p, effort),
        has_window_v(variant_entry_v(made, existing, template, p, effort, v), v.context_window),
{
    lemma_last_with_slug(existing, v.slug);
    let base = match get_v(made, v.slug) {
        Some(m) => patch_metadata_v(m, p, v, true),
        None => match last_with_slug_v(existing, v.slug) {
            Some(e) => patch_metadata_v(e, p, v, true),
            None => from_variant_v(template, p, v),
        },
    };
    match get_v(made, v.slug) {
        Some(m) => {
            lemma_slug_object(m);
            lemma_patch_sets_slug(m, p, v, true);
        },
        None => match last_with_slug_v(existing, v.slug) {
            Some(e) => {
                lemma_slug_object(e);
                lemma_patch_sets_slug(e, p, v, true);
            },
            None => {
                lemma_patch_sets_slug(template, p, v, false);
                lemma_context_window_keeps(patch_metadata_v(template, p, v, false), v.context_window, "slug"@);
            },
        },
    }
    assert(base is Object && slug_of_v(base) == Some(v.slug));
    lemma_reasoning_fields(base, p, effort);
    let e = reasoning_fields_v(base, p, effort);
    lemma_reveal_keys();
    lemma_display_name_keeps(e, v, "slug"@);
    lemma_display_name_keeps(e, v, "supported_reasoning_levels"@);
    lemma_display_name_keeps(e, v, "default_reasoning_level"@);
    match get_v(made, v.slug) {
        Some(m) => {
            lemma_patch_window(m, p, v, true);
        },
        None => match last_with_slug_v(existing, v.slug) {
            Some(x) => {
                lemma_patch_window(x, p, v, true);
            },
            None => {
                lemma_patch_window(template, p, v, false);
                lemma_window_set(patch_metadata_v(template, p, v, false), v.context_window);
            },
        },
    }
    lemma_reasoning_keeps_window(base, p, effort, "context_window"@);
    lemma_reasoning_keeps_window(base, p, effort, "max_context_window"@);
    lemma_display_name_keeps(e, v, "context_window"@);
    lemma_display_name_keeps(e, v, "max_context_window"@);
}

/// What every made entry satisfies: its key is its slug, the slug of one of
/// the models, and it carries the reasoning members; every model has one.
pub open spec fn made_entries_ok(e: Seq<(Seq<char>, JsonV)>, vs: Seq<ModelV>, p: ProviderV, effort: Seq<char>) -> bool {
    &&& forall|i: int| 0 <= i < e.len() ==> slug_of_v((#[trigger] e[i]).1) == Some(e[i].0)
    &&& forall|i: int| 0 <= i < e.len() ==> has_reasoning_fields_v((#[trigger] e[i]).1, p, effort)
    &&& forall|i: int| 0 <= i < e.len() ==> exists|j: int| 0 <= j < vs.len() && (#[trigger] vs[j]).slug == (#[trigger] e[i]).0
    &&& forall|j: int| 0 <= j < vs.len() ==> crate::json::has_key(e, (#[trigger] vs[j]).slug)
    &&& forall|i: int| 0 <= i < e.len() ==> has_window_v((#[trigger] e[i]).1, window_of_v(vs, e[i].0))
    &&& forall|i: int, j: int| 0 <= i < j < e.len() ==> (#[trigger] e[i]).0 != (#[trigger] e[j]).0
}

proof fn lemma_made_entries(
    existing: Seq<JsonV>,
    template: JsonV,
    p: ProviderV,
    effort: Seq<char>,
    vs: Seq<ModelV>,
)
    requires
        template is Object,
    ensures
        made_entries_v(existing, template, p, effort, vs) is Object,
        made_entries_ok(
            crate::json::members_v(made_entries_v(existing, template, p, effort, vs)),
            vs,
            p,
            effort,
        ),
    decreases vs.len(),
{
    if vs.len() > 0 {
        let prev_vs = vs.drop_last();
        lemma_made_entries(existing, template, p, effort, prev_vs);
        let made = made_entries_v(existing, template, p, effort, prev_vs);
        let e = crate::json::members_v(made);
        let v = vs.last();
        if let Some(x) = get_v(made, v.slug) {
            crate::json::lemma_key_index(e, v.slug);
            let q = crate::json::key_index(e, v.slug);
            assert(e[q].1 == x);
        }
        lemma_variant_entry(made, existing, template, p, effort, v);
        let entry = variant_entry_v(made, existing, template, p, effort, v);
        let n = crate::json::set_entries(e, v.slug, entry);
        assert(made_entries_v(existing, template, p, effort, vs) == JsonV::Object(n));
        crate::json::lemma_key_index(e, v.slug);
        if crate::json::has_key(e, v.slug) {
            let q = crate::json::key_index(e, v.slug);
            assert forall|i: int| 0 <= i < n.len() implies slug_of_v((#[trigger] n[i]).1) == Some(n[i].0)
                && has_reasoning_fields_v(n[i].1, p, effort) && has_window_v(n[i].1, window_of_v(vs, n[i].0)) by {
                if i != q {
                    assert(n[i] == e[i]);
                    assert(e[q].0 == v.slug);
                    if i < q {
                        assert(e[i].0 != e[q].0);
                    } else {
                        assert(e[q].0 != e[i].0);
                    }
                }
            }
            assert forall|i: int, j: int| 0 <= i < j < n.len() implies (#[trigger] n[i]).0 != (#[trigger] n[j]).0 by {
                assert(n[i].0 == e[i].0 && n[j].0 == e[j].0);
            }
            assert forall|i: int| 0 <= i < n.len() implies exists|j: int|
                0 <= j < vs.len() && (#[trigger] vs[j]).slug == (#[trigger] n[i]).0 by {
                if i != q {
                    assert(n[i] == e[i]);
                    let j = choose|j: int| 0 <= j < prev_vs.len() && (#[trigger] prev_vs[j]).slug == e[i].0;
                    assert(vs[j] == prev_vs[j]);
                } else {
                    assert(vs[vs.len() - 1].slug == n[i].0);
                }
            }
            assert forall|j: int| 0 <= j < vs.len() implies crate::json::has_key(n, (#[trigger] vs[j]).slug) by {
                if j < vs.len() - 1 {
                    assert(vs[j] == prev_vs[j]);
                    let w = choose|w: int| 0 <= w < e.len() && e[w].0 == prev_vs[j].slug;
                    assert(n[w].0 == e[w].0);
                } else {
                    assert(n[q].0 == v.slug);
                }
            }
        } else {
            assert forall|i: int| 0 <= i < n.len() implies slug_of_v((#[trigger] n[i]).1) == Some(n[i].0)
                && has_reasoning_fields_v(n[i].1, p, effort) && has_window_v(n[i].1, window_of_v(vs, n[i].0)) by {
                if i < e.len() {
                    assert(n[i] == e[i]);
                    if e[i].0 == v.slug {
                        assert(0 <= i < e.len() && e[i].0 == v.slug);
                        assert(crate::json::has_key(e, v.slug));
                    }
                }
            }
            assert forall|i: int, j: int| 0 <= i < j < n.len() implies (#[trigger] n[i]).0 != (#[trigger] n[j]).0 by {
                if j < e.len() {
                    assert(n[i] == e[i] && n[j] == e[j]);
                } else {
                    assert(n[i] == e[i]);
                    if e[i].0 == v.slug {
                        assert(crate::json::has_key(e, v.slug));
                    }
                }
            }
            assert forall|i: int| 0 <= i < n.len() implies exists|j: int|
                0 <= j < vs.len() && (#[trigger] vs[j]).slug == (#[trigger] n[i]).0 by {
                if i < e.len() {
                    assert(n[i] == e[i]);
                    let j = choose|j: int| 0 <= j < prev_vs.len() && (#[trigger] prev_vs[j]).slug == e[i].0;
                    assert(vs[j] == prev_vs[j]);
                } else {
                    assert(vs[vs.len() - 1].slug == n[i].0);
                }
            }
            assert forall|j: int| 0 <= j < vs.len() implies crate::json::has_key(n, (#[trigger] vs[j]).slug) by {
                if j < vs.len() - 1 {
                    assert(vs[j] == prev_vs[j]);
                    let w = choose|w: int| 0 <= w < e.len() && e[w].0 == prev_vs[j].slug;
                    assert(n[w].0 == e[w].0);
                } else {
                    assert(n[e.len() as int].0 == v.slug);
                }
            }
        }
    }
}

proof fn lemma_insert_sorted_contains(s: Seq<JsonV>, x: JsonV, active: Seq<char>, y: JsonV)
    ensures
        insert_sorted_v(s, x, active).contains(y) <==> (s.contains(y) || y == x),
    decreases s.len(),
{
    if s.len() == 0 {
        assert(insert_sorted_v(s, x, active) =~= seq![x]);
        assert(seq![x][0] == x);
    } else if goes_before_v(x, s[0], active) {
        let r = seq![x] + s;
        if s.contains(y) {
            let i = choose|i: int| 0 <= i < s.len() && s[i] == y;
            assert(r[i + 1] == y);
        }
        if y == x {
            assert(r[0] == y);
        }
        if r.contains(y) {
            let i = choose|i: int| 0 <= i < r.len() && r[i] == y;
            if i > 0 {
                assert(s[i - 1] == y);
            }
        }
    } else {
        let t = s.skip(1);
        lemma_insert_sorted_contains(t, x, active, y);
        let r = seq![s[0]] + insert_sorted_v(t, x, active);
        let it = insert_sorted_v(t, x, active);
        if s.contains(y) {
            let i = choose|i: int| 0 <= i < s.len() && s[i] == y;
            if i == 0 {
                assert(r[0] == y);
            } else {
                assert(t[i - 1] == y);
                let k = choose|k: int| 0 <= k < it.len() && it[k] == y;
                assert(r[k + 1] == y);
            }
        }
        if y == x {
            let k = choose|k: int| 0 <= k < it.len() && it[k] == y;
            assert(r[k + 1] == y);
        }
        if r.contains(y) {
            let i = choose|i: int| 0 <= i < r.len() && r[i] == y;
            if i == 0 {
                assert(s[0] == y);
            } else {
                assert(it[i - 1] == y);
                if t.contains(y) {
                    let k = choose|k: int| 0 <= k < t.len() && t[k] == y;
                    assert(s[k + 1] == y);
                }
            }
        }
    }
}

proof fn lemma_sort_contains(s: Seq<JsonV>, active: Seq<char>, y: JsonV)
    ensures
        sort_entries_v(s, active).contains(y) <==> s.contains(y),
    decreases s.len(),
{
    if s.len() > 0 {
        let t = s.drop_last();
        lemma_sort_contains(t, active, y);
        lemma_insert_sorted_contains(sort_entries_v(t, active), s.last(), active, y);
        if s.contains(y) {
            let i = choose|i: int| 0 <= i < s.len() && s[i] == y;
            if i < s.len() - 1 {
                assert(t[i] == y);
            }
        }
        if t.contains(y) {
            let i = choose|i: int| 0 <= i < t.len() && t[i] == y;
            assert(s[i] == y);
        }
    }
}

/// Law: a catalog lists exactly the active provider's models, each once per
/// slug: an entry names slug `s` if and only if one of the provider's
/// models has slug `s` (for a template entry that is an object).
pub proof fn lemma_catalog_lists_provider_models(
    existing: Seq<JsonV>,
    template: JsonV,
    p: ProviderV,
    effort: Seq<char>,
    s: Seq<char>,
)
    requires
        template is Object,
    ensures
        (exists|i: int|
            0 <= i < listed_models_v(catalog_v(existing, template, p, effort)).len()
                && slug_of_v(#[trigger] listed_models_v(catalog_v(existing, template, p, effort))[i])
                == Some(s)) <==> (exists|j: int|
            0 <= j < models_for_provider_v(p).len() && (#[trigger] models_for_provider_v(p)[j]).slug
                == s),
{
    let vs = models_for_provider_v(p);
    lemma_made_entries(existing, template, p, effort, vs);
    let e = crate::json::members_v(made_entries_v(existing, template, p, effort, vs));
    let models = e.map_values(|x: (Seq<char>, JsonV)| ensure_required_v(x.1));
    let sorted = sort_entries_v(models, p.default_model);
    let c = catalog_v(existing, template, p, effort);
    crate::json::lemma_key_index(seq![("models"@, JsonV::Array(sorted))], "models"@);
    assert(crate::json::first_key_at(seq![("models"@, JsonV::Array(sorted))], "models"@, 0));
    assert(listed_models_v(c) == sorted);
    if exists|i: int| 0 <= i < sorted.len() && slug_of_v(#[trigger] sorted[i]) == Some(s) {
        let i = choose|i: int| 0 <= i < sorted.len() && slug_of_v(#[trigger] sorted[i]) == Some(s);
        let y = sorted[i];
        lemma_sort_contains(models, p.default_model, y);
        assert(sorted.contains(y));
        let k = choose|k: int| 0 <= k < models.len() && models[k] == y;
        lemma_ensure_required_keeps(e[k].1, "slug"@);
        assert(slug_of_v(e[k].1) == Some(e[k].0));
        assert(e[k].0 == s);
        let j = choose|j: int| 0 <= j < vs.len() && (#[trigger] vs[j]).slug == e[k].0;
        assert(vs[j].slug == s);
    }
    if exists|j: int| 0 <= j < vs.len() && (#[trigger] vs[j]).slug == s {
        let j = choose|j: int| 0 <= j < vs.len() && (#[trigger] vs[j]).slug == s;
        assert(crate::json::has_key(e, vs[j].slug));
        let w = choose|w: int| 0 <= w < e.len() && e[w].0 == s;
        let y = models[w];
        lemma_ensure_required_keeps(e[w].1, "slug"@);
        assert(slug_of_v(y) == Some(s));
        assert(models.contains(y));
        lemma_sort_contains(models, p.default_model, y);
        let i = choose|i: int| 0 <= i < sorted.len() && sorted[i] == y;
        assert(slug_of_v(sorted[i]) == Some(s));
    }
}

/// Law: every entry of a catalog carries the provider's reasoning levels
/// and the default level when the provider's reasoning has levels, and
/// neither when it has none (for a template entry that is an object).
pub proof fn lemma_catalog_reasoning_levels(
    existing: Seq<JsonV>,
    template: JsonV,
    p: ProviderV,
    effort: Seq<char>,
)
    requires
        template is Object,
    ensures
        forall|i: int|
            0 <= i < listed_models_v(catalog_v(existing, template, p, effort)).len()
                ==> has_reasoning_fields_v(
                #[trigger] listed_models_v(catalog_v(existing, template, p, effort))[i],
                p,
                effort,
            ),
{
    let vs = models_for_provider_v(p);
    lemma_made_entries(existing, template, p, effort, vs);
    let e = crate::json::members_v(made_entries_v(existing, template, p, effort, vs));
    let models = e.map_values(|x: (Seq<char>, JsonV)| ensure_required_v(x.1));
    let sorted = sort_entries_v(models, p.default_model);
    let c = catalog_v(existing, template, p, effort);
    crate::json::lemma_key_index(seq![("models"@, JsonV::Array(sorted))], "models"@);
    assert(crate::json::first_key_at(seq![("models"@, JsonV::Array(sorted))], "models"@, 0));
    assert(listed_models_v(c) == sorted);
    assert forall|i: int| 0 <= i < sorted.len() implies has_reasoning_fields_v(
        #[trigger] sorted[i],
        p,
        effort,
    ) by {
        let y = sorted[i];
        lemma_sort_contains(models, p.default_model, y);
        assert(sorted.contains(y));
        let k = choose|k: int| 0 <= k < models.len() && models[k] == y;
        lemma_ensure_required_keeps(e[k].1, "supported_reasoning_levels"@);
        lemma_ensure_required_keeps(e[k].1, "default_reasoning_level"@);
        assert(has_reasoning_fields_v(e[k].1, p, effort));
    }
}

proof fn lemma_window_of_model(vs: Seq<ModelV>, s: Seq<char>)
    requires
        exists|j: int| 0 <= j < vs.len() && (#[trigger] vs[j]).slug == s,
    ensures
        exists|j: int|
            0 <= j < vs.len() && (#[trigger] vs[j]).slug == s && vs[j].context_window == window_of_v(vs, s),
    decreases vs.len(),
{
    if vs.last().slug != s {
        let j = choose|j: int| 0 <= j < vs.len() && (#[trigger] vs[j]).slug == s;
        let d = vs.drop_last();
        assert(d[j] == vs[j]);
        lemma_window_of_model(d, s);
        let k = choose|k: int| 0 <= k < d.len() && (#[trigger] d[k]).slug == s && d[k].context_window == window_of_v(d, s);
        assert(vs[k] == d[k]);
    } else {
        assert(vs[vs.len() - 1] == vs.last());
    }
}

/// Law: every entry of a catalog for provider `p` carries, as both its
/// context window and its maximal context window, the context window of
/// the provider's model with that entry's slug (the last one, should two
/// share a slug), for a template entry that is an object.
pub proof fn lemma_catalog_context_windows(
    existing: Seq<JsonV>,
    template: JsonV,
    p: ProviderV,
    effort: Seq<char>,
)
    requires
        template is Object,
    ensures
        forall|i: int|
            0 <= i < listed_models_v(catalog_v(existing, template, p, effort)).len() ==> {
                let y = #[trigger] listed_models_v(catalog_v(existing, template, p, effort))[i];
                &&& slug_of_v(y) is Some
                &&& has_window_v(y, window_of_v(models_for_provider_v(p), slug_of_v(y)->0))
                &&& exists|j: int|
                    0 <= j < models_for_provider_v(p).len()
                        && (#[trigger] models_for_provider_v(p)[j]).slug == slug_of_v(y)->0
                        && has_window_v(y, models_for_provider_v(p)[j].context_window)
            },
{
    let vs = models_for_provider_v(p);
    lemma_made_entries(existing, template, p, effort, vs);
    let e = crate::json::members_v(made_entries_v(existing, template, p, effort, vs));
    let models = e.map_values(|x: (Seq<char>, JsonV)| ensure_required_v(x.1));
    let sorted = sort_entries_v(models, p.default_model);
    let c = catalog_v(existing, template, p, effort);
    crate::json::lemma_key_index(seq![("models"@, JsonV::Array(sorted))], "models"@);
    assert(crate::json::first_key_at(seq![("models"@, JsonV::Array(sorted))], "models"@, 0));
    assert(listed_models_v(c) == sorted);
    assert forall|i: int| 0 <= i < sorted.len() implies {
        let y = #[trigger] sorted[i];
        &&& slug_of_v(y) is Some
        &&& has_window_v(y, window_of_v(vs, slug_of_v(y)->0))
        &&& exists|j: int|
            0 <= j < vs.len() && (#[trigger] vs[j]).slug == slug_of_v(y)->0 && has_window_v(y, vs[j].context_window)
    } by {
        let y = sorted[i];
        lemma_sort_contains(models, p.default_model, y);
        assert(sorted.contains(y));
        let k = choose|k: int| 0 <= k < models.len() && models[k] == y;
        lemma_ensure_required_keeps(e[k].1, "slug"@);
        lemma_ensure_required_keeps(e[k].1, "context_window"@);
        lemma_ensure_required_keeps(e[k].1, "max_context_window"@);
        assert(slug_of_v(y) == Some(e[k].0));
        assert(has_window_v(e[k].1, window_of_v(vs, e[k].0)));
        lemma_window_of_model(vs, e[k].0);
    }
}

} // verus!
