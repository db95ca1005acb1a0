//! Model lists per provider, tray labels, and the relay's custom model list.
use vstd::prelude::*;

use crate::config::{
    clone_custom_models, custom_models_view, CustomModelEntry, CustomModelV, ProviderConfig,
    ProviderV,
};
use crate::text::{
    blank, chars_of, concat2, concat3, is_blank, join_seq, join_strings, lemma_split_nonempty,
    owned, push_str, split_on, split_seq, starts_with, starts_with_seq, str_eq, trim, trim_seq,
    u64_decimal, decimal_seq, views,
};

verus! {

/// A built-in model of a provider.
pub struct ModelVariant {
    pub slug: &'static str,
    pub display_name: &'static str,
    pub api_model: &'static str,
    pub context_window: u32,
    /// Short tray-menu name, such as `flash` or `pro`.
    pub menu_tag: &'static str,
}

/// A model as listed to the user.
pub struct ModelEntry {
    pub slug: String,
    pub display_name: String,
    pub api_model: String,
    pub context_window: u32,
    pub menu_tag: String,
}

/// The view shared by [`ModelVariant`] and [`ModelEntry`].
pub struct ModelV {
    pub slug: Seq<char>,
    pub display_name: Seq<char>,
    pub api_model: Seq<char>,
    pub context_window: u32,
    pub menu_tag: Seq<char>,
}

impl View for ModelVariant {
    type V = ModelV;

    open spec fn view(&self) -> ModelV {
        ModelV {
            slug: self.slug@,
            display_name: self.display_name@,
            api_model: self.api_model@,
            context_window: self.context_window,
            menu_tag: self.menu_tag@,
        }
    }
}

impl View for ModelEntry {
    type V = ModelV;

    open spec fn view(&self) -> ModelV {
        ModelV {
            slug: self.slug@,
            display_name: self.display_name@,
            api_model: self.api_model@,
            context_window: self.context_window,
            menu_tag: self.menu_tag@,
        }
    }
}

pub open spec fn variants_view(s: Seq<ModelVariant>) -> Seq<ModelV> {
    Seq::new(s.len(), |i: int| s[i]@)
}

pub open spec fn entries_view(s: Seq<ModelEntry>) -> Seq<ModelV> {
    Seq::new(s.len(), |i: int| s[i]@)
}

pub open spec fn mv(
    slug: Seq<char>,
    display_name: Seq<char>,
    api_model: Seq<char>,
    context_window: u32,
    menu_tag: Seq<char>,
) -> ModelV {
    ModelV { slug, display_name, api_model, context_window, menu_tag }
}

/// The built-in models of provider `id`, flagship first.
pub open spec fn popular_models_v(id: Seq<char>) -> Seq<ModelV> {
    if id == "deepseek"@ {
        seq![
            mv("deepseek-v4-pro"@, "DeepSeek V4 Pro（旗舰）"@, "deepseek-v4-pro"@, 1_000_000, "pro"@),
            mv("deepseek-v4-flash"@, "DeepSeek V4 Flash"@, "deepseek-v4-flash"@, 1_000_000, "flash"@),
        ]
    } else if id == "qwen"@ {
        seq![
            mv("qwen3.7-max"@, "千问 3.7 Max（旗舰）"@, "qwen3.7-max"@, 1_000_000, "max"@),
            mv("qwen3.7-plus"@, "千问 3.7 Plus（多模态·1M）"@, "qwen3.7-plus"@, 1_000_000, "plus"@),
        ]
    } else if id == "zhipu"@ {
        seq![
            mv("glm-5.1"@, "GLM-5.1（旗舰）"@, "glm-5.1"@, 200_000, "5.1"@),
            mv("glm-5"@, "GLM-5"@, "glm-5"@, 200_000, "glm-5"@),
            mv("glm-4.7"@, "GLM-4.7"@, "glm-4.7"@, 200_000, "4.7"@),
        ]
    } else if id == "kimi"@ {
        seq![mv("kimi-k2.6"@, "Kimi K2.6（旗舰）"@, "kimi-k2.6"@, 256_000, "k2.6"@)]
    } else if id == "minimax"@ {
        seq![mv("minimax-m3"@, "MiniMax M3（旗舰·1M）"@, "MiniMax-M3"@, 1_000_000, "m3"@)]
    } else if id == "mimo"@ {
        seq![
            mv("mimo-v2.5-pro"@, "MiMo V2.5 Pro（旗舰·1M）"@, "mimo-v2.5-pro"@, 1_000_000, "pro"@),
            mv("mimo-v2.5"@, "MiMo V2.5（全模态·1M）"@, "mimo-v2.5"@, 1_000_000, "2.5"@),
            mv("mimo-v2-flash"@, "MiMo V2 Flash（256K）"@, "mimo-v2-flash"@, 256_000, "flash"@),
        ]
    } else if id == "custom"@ {
        seq![
            mv("gpt-5.5"@, "GPT-5.5（推荐）"@, "gpt-5.5"@, 256_000, "5.5"@),
            mv("gpt-5.4"@, "GPT-5.4"@, "gpt-5.4"@, 256_000, "5.4"@),
            mv("gpt-5.4-mini"@, "GPT-5.4 Mini"@, "gpt-5.4-mini"@, 128_000, "4-mini"@),
        ]
    } else {
        Seq::empty()
    }
}

fn variant(
    slug: &'static str,
    display_name: &'static str,
    api_model: &'static str,
    context_window: u32,
    menu_tag: &'static str,
) -> (r: ModelVariant)
    ensures
        r@ == mv(slug@, display_name@, api_model@, context_window, menu_tag@),
{
    ModelVariant { slug, display_name, api_model, context_window, menu_tag }
}

/// The built-in models of provider `provider_id`.
pub fn popular_models(provider_id: &str) -> (r: Vec<ModelVariant>)
    ensures
        variants_view(r@) == popular_models_v(provider_id@),
{
    let mut v: Vec<ModelVariant> = Vec::new();
    if str_eq(provider_id, "deepseek") {
        v.push(variant("deepseek-v4-pro", "DeepSeek V4 Pro（旗舰）", "deepseek-v4-pro", 1_000_000, "pro"));
        v.push(variant("deepseek-v4-flash", "DeepSeek V4 Flash", "deepseek-v4-flash", 1_000_000, "flash"));
    } else if str_eq(provider_id, "qwen") {
        v.push(variant("qwen3.7-max", "千问 3.7 Max（旗舰）", "qwen3.7-max", 1_000_000, "max"));
        v.push(variant("qwen3.7-plus", "千问 3.7 Plus（多模态·1M）", "qwen3.7-plus", 1_000_000, "plus"));
    } else if str_eq(provider_id, "zhipu") {
        v.push(variant("glm-5.1", "GLM-5.1（旗舰）", "glm-5.1", 200_000, "5.1"));
        v.push(variant("glm-5", "GLM-5", "glm-5", 200_000, "glm-5"));
        v.push(variant("glm-4.7", "GLM-4.7", "glm-4.7", 200_000, "4.7"));
    } else if str_eq(provider_id, "kimi") {
        v.push(variant("kimi-k2.6", "Kimi K2.6（旗舰）", "kimi-k2.6", 256_000, "k2.6"));
    } else if str_eq(provider_id, "minimax") {
        v.push(variant("minimax-m3", "MiniMax M3（旗舰·1M）", "MiniMax-M3", 1_000_000, "m3"));
    } else if str_eq(provider_id, "mimo") {
        v.push(variant("mimo-v2.5-pro", "MiMo V2.5 Pro（旗舰·1M）", "mimo-v2.5-pro", 1_000_000, "pro"));
        v.push(variant("mimo-v2.5", "MiMo V2.5（全模态·1M）", "mimo-v2.5", 1_000_000, "2.5"));
        v.push(variant("mimo-v2-flash", "MiMo V2 Flash（256K）", "mimo-v2-flash", 256_000, "flash"));
    } else if str_eq(provider_id, "custom") {
        v.push(variant("gpt-5.5", "GPT-5.5（推荐）", "gpt-5.5", 256_000, "5.5"));
        v.push(variant("gpt-5.4", "GPT-5.4", "gpt-5.4", 256_000, "5.4"));
        v.push(variant("gpt-5.4-mini", "GPT-5.4 Mini", "gpt-5.4-mini", 128_000, "4-mini"));
    }
    assert(variants_view(v@) =~= popular_models_v(provider_id@));
    v
}

/// A built-in model as an owned entry.
pub fn variant_to_entry(variant: &ModelVariant) -> (r: ModelEntry)
    ensures
        r@ == variant@,
{
    ModelEntry {
        slug: owned(variant.slug),
        display_name: owned(variant.display_name),
        api_model: owned(variant.api_model),
        context_window: variant.context_window,
        menu_tag: owned(variant.menu_tag),
    }
}

/// The entry of a user-listed model: a blank display name falls back to the
/// slug; the menu tag is the slug's last `-`-separated piece.
pub open spec fn custom_entry_v(c: CustomModelV) -> ModelV {
    ModelV {
        slug: c.slug,
        display_name: if is_blank(c.display_name) {
            c.slug
        } else {
            c.display_name
        },
        api_model: c.api_model,
        context_window: c.context_window,
        menu_tag: split_seq(c.slug, '-').last(),
    }
}

/// A user-listed model as an entry.
pub fn custom_model_to_entry(entry: &CustomModelEntry) -> (r: ModelEntry)
    ensures
        r@ == custom_entry_v(entry@),
{
    let display_name = if blank(entry.display_name.as_str()) {
        entry.slug.clone()
    } else {
        entry.display_name.clone()
    };
    let pieces = split_on(entry.slug.as_str(), '-');
    proof {
        lemma_split_nonempty(entry.slug@, '-');
    }
    let last = pieces.len() - 1;
    let menu_tag = pieces[last].clone();
    proof {
        assert(views(pieces@)[last as int] == pieces@[last as int]@);
    }
    ModelEntry {
        slug: entry.slug.clone(),
        display_name,
        api_model: entry.api_model.clone(),
        context_window: entry.context_window,
        menu_tag,
    }
}

/// The models offered for a provider: the user's list for a relay that has
/// one, otherwise the built-in models.
pub open spec fn models_for_provider_v(p: ProviderV) -> Seq<ModelV> {
    if p.id == "custom"@ && p.custom_models.len() > 0 {
        p.custom_models.map_values(|c: CustomModelV| custom_entry_v(c))
    } else {
        popular_models_v(p.id)
    }
}

/// The models offered for `provider`.
pub fn models_for_provider(provider: &ProviderConfig) -> (r: Vec<ModelEntry>)
    ensures
        entries_view(r@) == models_for_provider_v(provider@),
{
    let mut out: Vec<ModelEntry> = Vec::new();
    if str_eq(provider.id.as_str(), "custom") && provider.custom_models.len() > 0 {
        let ghost cv = custom_models_view(provider.custom_models@);
        let mut i: usize = 0;
        while i < provider.custom_models.len()
            invariant
                i <= provider.custom_models.len(),
                cv == custom_models_view(provider.custom_models@),
                out.len() == i,
                forall|k: int| 0 <= k < i ==> (#[trigger] out@[k])@ == custom_entry_v(cv[k]),
            decreases provider.custom_models.len() - i,
        {
            out.push(custom_model_to_entry(&provider.custom_models[i]));
            i = i + 1;
        }
        assert(entries_view(out@) =~= cv.map_values(|c: CustomModelV| custom_entry_v(c)));
    } else {
        let vs = popular_models(provider.id.as_str());
        let mut i: usize = 0;
        while i < vs.len()
            invariant
                i <= vs.len(),
                variants_view(vs@) == popular_models_v(provider.id@),
                out.len() == i,
                forall|k: int| 0 <= k < i ==> (#[trigger] out@[k])@ == vs@[k]@,
            decreases vs.len() - i,
        {
            out.push(variant_to_entry(&vs[i]));
            i = i + 1;
        }
        assert(entries_view(out@) =~= popular_models_v(provider.id@));
    }
    out
}

/// The first model of `s` with slug `slug`.
pub open spec fn first_with_slug(s: Seq<ModelV>, slug: Seq<char>) -> Option<ModelV>
    decreases s.len(),
{
    if s.len() == 0 {
        None
    } else if s[0].slug == slug {
        Some(s[0])
    } else {
        first_with_slug(s.drop_first(), slug)
    }
}

proof fn lemma_first_with_slug_skip(s: Seq<ModelV>, slug: Seq<char>, i: int)
    requires
        0 <= i <= s.len(),
        forall|k: int| 0 <= k < i ==> (#[trigger] s[k]).slug != slug,
    ensures
        first_with_slug(s, slug) == first_with_slug(s.skip(i), slug),
    decreases i,
{
    if i == 0 {
        assert(s.skip(0) =~= s);
    } else {
        assert(s[0].slug != slug);
        let t = s.drop_first();
        assert forall|k: int| 0 <= k < i - 1 implies (#[trigger] t[k]).slug != slug by {
            assert(t[k] == s[k + 1]);
        }
        lemma_first_with_slug_skip(t, slug, i - 1);
        assert(t.skip(i - 1) =~= s.skip(i));
    }
}

/// The model of `provider` with slug `slug`.
pub fn find_model_entry(provider: &ProviderConfig, slug: &str) -> (r: Option<ModelEntry>)
    ensures
        match first_with_slug(models_for_provider_v(provider@), slug@) {
            Some(m) => r is Some && r->0@ == m,
            None => r is None,
        },
{
    let mut models = models_for_provider(provider);
    let ghost all = entries_view(models@);
    let key = owned(slug);
    let mut i: usize = 0;
    while i < models.len()
        invariant
            i <= models.len(),
            all == entries_view(models@),
            all == models_for_provider_v(provider@),
            key@ == slug@,
            forall|k: int| 0 <= k < i ==> (#[trigger] all[k]).slug != slug@,
        decreases models.len() - i,
    {
        if models[i].slug == key {
            proof {
                lemma_first_with_slug_skip(all, slug@, i as int);
                assert(all.skip(i as int)[0] == all[i as int]);
                assert(all[i as int] == models@[i as int]@);
            }
            let ghost before = models@;
            let m = models.remove(i);
            assert(m == before[i as int]);
            return Some(m);
        }
        i = i + 1;
    }
    proof {
        lemma_first_with_slug_skip(all, slug@, i as int);
    }
    None
}

/// The built-in model of provider `provider_id` with slug `slug`.
pub fn find_model(provider_id: &str, slug: &str) -> (r: Option<ModelVariant>)
    ensures
        match first_with_slug(popular_models_v(provider_id@), slug@) {
            Some(m) => r is Some && r->0@ == m,
            None => r is None,
        },
{
    let mut models = popular_models(provider_id);
    let ghost all = variants_view(models@);
    let mut i: usize = 0;
    while i < models.len()
        invariant
            i <= models.len(),
            all == variants_view(models@),
            all == popular_models_v(provider_id@),
            forall|k: int| 0 <= k < i ==> (#[trigger] all[k]).slug != slug@,
        decreases models.len() - i,
    {
        if str_eq(models[i].slug, slug) {
            proof {
                lemma_first_with_slug_skip(all, slug@, i as int);
                assert(all.skip(i as int)[0] == all[i as int]);
                assert(all[i as int] == models@[i as int]@);
            }
            let ghost before = models@;
            let m = models.remove(i);
            assert(m == before[i as int]);
            return Some(m);
        }
        i = i + 1;
    }
    proof {
        lemma_first_with_slug_skip(all, slug@, i as int);
    }
    None
}

/// The tray short name of the provider's current model.
pub open spec fn menu_tag_v(p: ProviderV) -> Option<Seq<char>> {
    match first_with_slug(models_for_provider_v(p), p.default_model) {
        Some(m) => Some(m.menu_tag),
        None => None,
    }
}

/// The tray short name (such as `flash` or `pro`) of the provider's model.
pub fn menu_tag(provider: &ProviderConfig) -> (r: Option<String>)
    ensures
        match menu_tag_v(provider@) {
            Some(t) => r is Some && r->0@ == t,
            None => r is None,
        },
{
    match find_model_entry(provider, provider.default_model.as_str()) {
        Some(m) => Some(m.menu_tag),
        None => None,
    }
}

/// `1M`, `256K`, or the plain number of tokens.
pub open spec fn format_context_window_v(tokens: u32) -> Seq<char> {
    if tokens >= 1_000_000 && tokens % 1_000_000 == 0 {
        decimal_seq((tokens / 1_000_000) as nat) + "M"@
    } else if tokens >= 1_000 && tokens % 1_000 == 0 {
        decimal_seq((tokens / 1_000) as nat) + "K"@
    } else {
        decimal_seq(tokens as nat)
    }
}

/// A context window for the tray menu, such as `1M` or `256K`.
pub fn format_context_window(tokens: u32) -> (r: String)
    ensures
        r@ == format_context_window_v(tokens),
{
    if tokens >= 1_000_000 && tokens % 1_000_000 == 0 {
        let mut s = u64_decimal((tokens / 1_000_000) as u64);
        push_str(&mut s, "M");
        s
    } else if tokens >= 1_000 && tokens % 1_000 == 0 {
        let mut s = u64_decimal((tokens / 1_000) as u64);
        push_str(&mut s, "K");
        s
    } else {
        u64_decimal(tokens as u64)
    }
}

/// `{display name} · {context}`, prefixed with `✓ ` for the active model.
pub open spec fn tray_model_label_v(m: ModelV, active: bool) -> Seq<char> {
    let label = m.display_name + " · "@ + format_context_window_v(m.context_window);
    if active {
        "✓ "@ + label
    } else {
        label
    }
}

/// The tray label of a model.
pub fn tray_model_label(model: &ModelEntry, active: bool) -> (r: String)
    ensures
        r@ == tray_model_label_v(model@, active),
{
    let ctx = format_context_window(model.context_window);
    let label = concat3(model.display_name.as_str(), " · ", ctx.as_str());
    if active {
        concat2("✓ ", label.as_str())
    } else {
        label
    }
}

// ---------------------------------------------------------------------------
// The relay's custom model list as text

/// One line of the list: `display|slug|api`, `slug|api`, `display|slug`, or
/// `slug`, leaving out what equals the slug.
pub open spec fn custom_line_v(e: CustomModelV) -> Seq<char> {
    let display = if is_blank(e.display_name) {
        e.slug
    } else {
        e.display_name
    };
    if e.api_model != e.slug {
        if display != e.slug {
            display + "|"@ + e.slug + "|"@ + e.api_model
        } else {
            e.slug + "|"@ + e.api_model
        }
    } else if display != e.slug {
        display + "|"@ + e.slug
    } else {
        e.slug
    }
}

/// The list as text, one model per line.
pub open spec fn custom_models_text_v(entries: Seq<CustomModelV>) -> Seq<char> {
    join_seq(entries.map_values(|e: CustomModelV| custom_line_v(e)), "\n"@)
}

fn custom_line(e: &CustomModelEntry) -> (r: String)
    ensures
        r@ == custom_line_v(e@),
{
    let display = if blank(e.display_name.as_str()) {
        e.slug.as_str()
    } else {
        e.display_name.as_str()
    };
    let display_is_slug = str_eq(display, e.slug.as_str());
    if e.api_model != e.slug {
        if !display_is_slug {
            let mut r = concat3(display, "|", e.slug.as_str());
            push_str(&mut r, "|");
            push_str(&mut r, e.api_model.as_str());
            r
        } else {
            concat3(e.slug.as_str(), "|", e.api_model.as_str())
        }
    } else if !display_is_slug {
        concat3(display, "|", e.slug.as_str())
    } else {
        e.slug.clone()
    }
}

/// Writes the relay's model list as text.
pub fn custom_models_to_text(entries: &Vec<CustomModelEntry>) -> (r: String)
    ensures
        r@ == custom_models_text_v(custom_models_view(entries@)),
{
    let mut lines: Vec<String> = Vec::new();
    let mut i: usize = 0;
    while i < entries.len()
        invariant
            i <= entries.len(),
            lines.len() == i,
            forall|k: int| 0 <= k < i ==> (#[trigger] lines@[k])@ == custom_line_v(entries@[k]@),
        decreases entries.len() - i,
    {
        lines.push(custom_line(&entries[i]));
        i = i + 1;
    }
    assert(views(lines@) =~= custom_models_view(entries@).map_values(
        |e: CustomModelV| custom_line_v(e),
    ));
    join_strings(&lines, "\n")
}

/// A slug character: ASCII letter or digit, `-`, `_` or `.`.
pub open spec fn slug_char(c: char) -> bool {
    ('a' <= c <= 'z') || ('A' <= c <= 'Z') || ('0' <= c <= '9') || c == '-' || c == '_' || c
        == '.'
}

/// The trimmed slug when it is non-empty and made of slug characters.
pub open spec fn normalize_slug_v(raw: Seq<char>) -> Option<Seq<char>> {
    let s = trim_seq(raw);
    if s.len() == 0 {
        None
    } else if forall|i: int| 0 <= i < s.len() ==> slug_char(#[trigger] s[i]) {
        Some(s)
    } else {
        None
    }
}

fn normalize_model_slug(raw: &str) -> (r: Option<String>)
    ensures
        match normalize_slug_v(raw@) {
            Some(s) => r is Some && r->0@ == s,
            None => r is None,
        },
{
    let slug = trim(raw);
    let v = chars_of(slug.as_str());
    if v.len() == 0 {
        return None;
    }
    let mut i: usize = 0;
    while i < v.len()
        invariant
            i <= v.len(),
            v@ == slug@,
            slug@ == trim_seq(raw@),
            forall|k: int| 0 <= k < i ==> slug_char(#[trigger] v@[k]),
        decreases v.len() - i,
    {
        let c = v[i];
        let ok = ('a' <= c && c <= 'z') || ('A' <= c && c <= 'Z') || ('0' <= c && c <= '9') || c
            == '-' || c == '_' || c == '.';
        if !ok {
            assert(!slug_char(v@[i as int]));
            return None;
        }
        i = i + 1;
    }
    Some(slug)
}

/// The trimmed non-empty pieces of `parts`, in order.
pub open spec fn nonempty_trimmed(parts: Seq<Seq<char>>) -> Seq<Seq<char>>
    decreases parts.len(),
{
    if parts.len() == 0 {
        Seq::empty()
    } else {
        let r = nonempty_trimmed(parts.drop_last());
        let t = trim_seq(parts.last());
        if t.len() == 0 {
            r
        } else {
            r.push(t)
        }
    }
}

/// The context window given to user-listed models.
pub open spec fn default_custom_context_window_v() -> u32 {
    128_000
}

/// One list line as a model: `slug`, `slug|api`, or `display|slug|api`.
pub open spec fn parse_line_v(line: Seq<char>) -> Option<CustomModelV> {
    let parts = nonempty_trimmed(split_seq(line, '|'));
    if parts.len() == 1 {
        match normalize_slug_v(parts[0]) {
            Some(slug) => Some(
                CustomModelV {
                    slug,
                    api_model: slug,
                    display_name: slug,
                    context_window: default_custom_context_window_v(),
                },
            ),
            None => None,
        }
    } else if parts.len() == 2 {
        match normalize_slug_v(parts[0]) {
            Some(slug) => Some(
                CustomModelV {
                    slug,
                    api_model: parts[1],
                    display_name: slug,
                    context_window: default_custom_context_window_v(),
                },
            ),
            None => None,
        }
    } else if parts.len() == 3 {
        match normalize_slug_v(parts[1]) {
            Some(slug) => Some(
                CustomModelV {
                    slug,
                    api_model: parts[2],
                    display_name: parts[0],
                    context_window: default_custom_context_window_v(),
                },
            ),
            None => None,
        }
    } else {
        None
    }
}

fn parse_custom_model_line(line: &str) -> (r: Option<CustomModelEntry>)
    ensures
        match parse_line_v(line@) {
            Some(c) => r is Some && r->0@ == c,
            None => r is None,
        },
{
    let raw = split_on(line, '|');
    let ghost rv = views(raw@);
    let mut parts: Vec<String> = Vec::new();
    let mut i: usize = 0;
    proof {
        assert(rv.take(0) =~= Seq::<Seq<char>>::empty());
        assert(views(parts@) =~= Seq::<Seq<char>>::empty());
    }
    while i < raw.len()
        invariant
            i <= raw.len(),
            rv == views(raw@),
            views(parts@) == nonempty_trimmed(rv.take(i as int)),
        decreases raw.len() - i,
    {
        let t = trim(raw[i].as_str());
        proof {
            assert(rv.take(i + 1).drop_last() =~= rv.take(i as int));
            assert(rv.take(i + 1).last() == raw@[i as int]@);
        }
        let ghost prev = views(parts@);
        if !t.as_str().is_empty() {
            parts.push(t);
            proof {
                assert(views(parts@) =~= prev.push(trim_seq(raw@[i as int]@)));
            }
        }
        i = i + 1;
    }
    proof {
        assert(rv.take(raw.len() as int) =~= rv);
        assert(views(parts@).len() == parts.len());
    }
    if parts.len() == 1 {
        match normalize_model_slug(parts[0].as_str()) {
            Some(slug) => Some(
                CustomModelEntry {
                    api_model: slug.clone(),
                    display_name: slug.clone(),
                    slug,
                    context_window: 128_000,
                },
            ),
            None => None,
        }
    } else if parts.len() == 2 {
        match normalize_model_slug(parts[0].as_str()) {
            Some(slug) => Some(
                CustomModelEntry {
                    api_model: parts[1].clone(),
                    display_name: slug.clone(),
                    slug,
                    context_window: 128_000,
                },
            ),
            None => None,
        }
    } else if parts.len() == 3 {
        match normalize_model_slug(parts[1].as_str()) {
            Some(slug) => Some(
                CustomModelEntry {
                    api_model: parts[2].clone(),
                    display_name: parts[0].clone(),
                    slug,
                    context_window: 128_000,
                },
            ),
            None => None,
        }
    } else {
        None
    }
}

/// Errors of the model lists.
pub enum ModelsError {
    /// Line `line_no` (1-based) of the list is not a model.
    InvalidLine { line_no: usize, line: String },
    /// Two lines name the same slug.
    DuplicateSlug(String),
    /// The provider has no model with this slug.
    UnknownModel(String),
}

/// The view of a [`ModelsError`].
pub enum ModelsErrorV {
    InvalidLine { line_no: int, line: Seq<char> },
    DuplicateSlug(Seq<char>),
    UnknownModel(Seq<char>),
}

impl View for ModelsError {
    type V = ModelsErrorV;

    open spec fn view(&self) -> ModelsErrorV {
        match self {
            ModelsError::InvalidLine { line_no, line } => ModelsErrorV::InvalidLine {
                line_no: *line_no as int,
                line: line@,
            },
            ModelsError::DuplicateSlug(s) => ModelsErrorV::DuplicateSlug(s@),
            ModelsError::UnknownModel(s) => ModelsErrorV::UnknownModel(s@),
        }
    }
}

/// Whether some model of `ms` has slug `slug`.
pub open spec fn has_slug(ms: Seq<CustomModelV>, slug: Seq<char>) -> bool {
    exists|i: int| 0 <= i < ms.len() && ms[i].slug == slug
}

/// The models of the first `n` lines: blank lines and `#` comments are
/// skipped; the first invalid line or repeated slug is the error.
pub open spec fn parse_lines_v(lines: Seq<Seq<char>>, n: int) -> Result<
    Seq<CustomModelV>,
    ModelsErrorV,
>
    decreases n,
{
    if n <= 0 {
        Ok(Seq::empty())
    } else {
        match parse_lines_v(lines, n - 1) {
            Err(e) => Err(e),
            Ok(ms) => {
                let line = trim_seq(lines[n - 1]);
                if line.len() == 0 || starts_with_seq(line, "#"@) {
                    Ok(ms)
                } else {
                    match parse_line_v(line) {
                        None => Err(ModelsErrorV::InvalidLine { line_no: n, line }),
                        Some(m) => if has_slug(ms, m.slug) {
                            Err(ModelsErrorV::DuplicateSlug(m.slug))
                        } else {
                            Ok(ms.push(m))
                        },
                    }
                }
            },
        }
    }
}

proof fn lemma_parse_err_stays(lines: Seq<Seq<char>>, n: int, m: int)
    requires
        0 <= n <= m,
        parse_lines_v(lines, n) is Err,
    ensures
        parse_lines_v(lines, m) == parse_lines_v(lines, n),
    decreases m - n,
{
    if m > n {
        lemma_parse_err_stays(lines, n, m - 1);
    }
}

fn has_slug_exec(models: &Vec<CustomModelEntry>, slug: &String) -> (r: bool)
    ensures
        r == has_slug(custom_models_view(models@), slug@),
{
    let ghost mv = custom_models_view(models@);
    let mut k: usize = 0;
    while k < models.len()
        invariant
            k <= models.len(),
            mv == custom_models_view(models@),
            forall|m: int| 0 <= m < k ==> mv[m].slug != slug@,
        decreases models.len() - k,
    {
        if models[k].slug == *slug {
            assert(mv[k as int].slug == slug@);
            return true;
        }
        k = k + 1;
    }
    false
}

/// The relay's model list read from text, one model per line.
pub open spec fn parse_custom_models_v(text: Seq<char>) -> Result<Seq<CustomModelV>, ModelsErrorV> {
    let lines = split_seq(text, '\n');
    parse_lines_v(lines, lines.len() as int)
}

/// A model entry that the list text carries and gives back: a valid slug;
/// a display name and an API model that are trimmed and hold no `|` or line
/// feed; a non-empty API model; a display name that does not start with
/// `#`; the default context window; and, when the API model is the slug, a
/// display name that is empty or the slug (a line `display|slug` reads back
/// as `slug|api`).
pub open spec fn round_trips(e: CustomModelV) -> bool {
    &&& normalize_slug_v(e.slug) == Some(e.slug)
    &&& trim_seq(e.display_name) == e.display_name
    &&& trim_seq(e.api_model) == e.api_model
    &&& e.api_model.len() > 0
    &&& !e.display_name.contains('|')
    &&& !e.display_name.contains('\n')
    &&& !e.api_model.contains('|')
    &&& !e.api_model.contains('\n')
    &&& (e.display_name.len() > 0 ==> e.display_name[0] != '#')
    &&& e.context_window == default_custom_context_window_v()
    &&& (e.api_model == e.slug ==> e.display_name.len() == 0 || e.display_name == e.slug)
}

/// The entry as the list text gives it back: an empty display name becomes
/// the slug.
pub open spec fn read_back_v(e: CustomModelV) -> CustomModelV {
    CustomModelV {
        display_name: if e.display_name.len() == 0 {
            e.slug
        } else {
            e.display_name
        },
        ..e
    }
}

proof fn lemma_concat_free(a: Seq<char>, b: Seq<char>, c: char)
    requires
        !a.contains(c),
        !b.contains(c),
    ensures
        !(a + b).contains(c),
{
    if (a + b).contains(c) {
        let k = choose|k: int| 0 <= k < (a + b).len() && (a + b)[k] == c;
        if k < a.len() {
            assert(a[k] == c);
        } else {
            assert(b[k - a.len()] == c);
        }
    }
}

proof fn lemma_nonempty_trimmed_same(ps: Seq<Seq<char>>)
    requires
        forall|i: int| 0 <= i < ps.len() ==> (#[trigger] ps[i]).len() > 0 && trim_seq(ps[i]) == ps[i],
    ensures
        nonempty_trimmed(ps) == ps,
    decreases ps.len(),
{
    if ps.len() > 0 {
        let d = ps.drop_last();
        assert forall|i: int| 0 <= i < d.len() implies (#[trigger] d[i]).len() > 0 && trim_seq(d[i]) == d[i] by {
            assert(d[i] == ps[i]);
        }
        lemma_nonempty_trimmed_same(d);
        assert(ps[ps.len() - 1] == ps.last());
        assert(d.push(ps.last()) =~= ps);
    }
}

proof fn lemma_slug_facts(slug: Seq<char>)
    requires
        normalize_slug_v(slug) == Some(slug),
    ensures
        slug.len() > 0,
        trim_seq(slug) == slug,
        !slug.contains('|'),
        !slug.contains('\n'),
        slug[0] != '#',
        !crate::text::is_white(slug[0]),
        !crate::text::is_white(slug.last()),
{
    assert(slug_char(slug[0]));
    assert(slug_char(slug[slug.len() - 1]));
    if slug.contains('|') {
        let k = choose|k: int| 0 <= k < slug.len() && slug[k] == '|';
        assert(slug_char(slug[k]));
    }
    if slug.contains('\n') {
        let k = choose|k: int| 0 <= k < slug.len() && slug[k] == '\n';
        assert(slug_char(slug[k]));
    }
}

proof fn lemma_line_reads_back(e: CustomModelV)
    requires
        round_trips(e),
    ensures
        custom_line_v(e).len() > 0,
        trim_seq(custom_line_v(e)) == custom_line_v(e),
        !starts_with_seq(custom_line_v(e), "#"@),
        !custom_line_v(e).contains('\n'),
        parse_line_v(custom_line_v(e)) == Some(read_back_v(e)),
{
    reveal_strlit("|");
    reveal_strlit("#");
    let bar: Seq<char> = seq!['|'];
    assert("|"@ == bar);
    assert(!bar.contains('\n'));
    let slug = e.slug;
    let d = e.display_name;
    let api = e.api_model;
    lemma_slug_facts(slug);
    lemma_trimmed_edges_api(api);
    if d.len() > 0 {
        crate::text::lemma_trimmed_edges(d);
    }
    let line = custom_line_v(e);
    let display = if is_blank(d) {
        slug
    } else {
        d
    };
    assert(is_blank(d) <==> d.len() == 0);
    let r = read_back_v(e);
    if api != slug {
        if display != slug {
            assert(display == d && d.len() > 0);
            let x = d + bar + slug;
            assert(line == x + bar + api);
            crate::text::lemma_split_concat(d, slug, '|');
            crate::text::lemma_split_concat(x, api, '|');
            crate::text::lemma_split_no_sep(d, '|');
            crate::text::lemma_split_no_sep(slug, '|');
            crate::text::lemma_split_no_sep(api, '|');
            let parts = seq![d, slug, api];
            assert(split_seq(line, '|') =~= parts);
            lemma_nonempty_trimmed_same(parts);
            assert(line[0] == d[0]);
            assert(line.last() == api.last());
            lemma_concat_free(d, bar, '\n');
            lemma_concat_free(d + bar, slug, '\n');
            lemma_concat_free(x, bar, '\n');
            lemma_concat_free(x + bar, api, '\n');
        } else {
            let x = slug;
            assert(line == x + bar + api);
            crate::text::lemma_split_concat(slug, api, '|');
            crate::text::lemma_split_no_sep(slug, '|');
            crate::text::lemma_split_no_sep(api, '|');
            let parts = seq![slug, api];
            assert(split_seq(line, '|') =~= parts);
            lemma_nonempty_trimmed_same(parts);
            assert(line[0] == slug[0]);
            assert(line.last() == api.last());
            lemma_concat_free(slug, bar, '\n');
            lemma_concat_free(slug + bar, api, '\n');
        }
    } else {
        assert(display == slug);
        assert(line == slug);
        crate::text::lemma_split_no_sep(slug, '|');
        lemma_nonempty_trimmed_same(seq![slug]);
    }
    crate::text::lemma_trim_unchanged(line);
    assert(r == parse_line_v(line)->0);
    let hash: Seq<char> = seq!['#'];
    assert("#"@ == hash);
    assert(line[0] != '#');
    if starts_with_seq(line, "#"@) {
        assert(line.subrange(0, 1)[0] == line[0]);
    }
}

proof fn lemma_trimmed_edges_api(api: Seq<char>)
    requires
        trim_seq(api) == api,
        api.len() > 0,
    ensures
        !crate::text::is_white(api[0]),
        !crate::text::is_white(api.last()),
{
    crate::text::lemma_trimmed_edges(api);
}

proof fn lemma_lines_read_back(es: Seq<CustomModelV>, n: int)
    requires
        0 <= n <= es.len(),
        forall|i: int| 0 <= i < es.len() ==> round_trips(#[trigger] es[i]),
        forall|i: int, j: int| 0 <= i < j < es.len() ==> es[i].slug != es[j].slug,
    ensures
        parse_lines_v(es.map_values(|e: CustomModelV| custom_line_v(e)), n) == Ok::<
            Seq<CustomModelV>,
            ModelsErrorV,
        >(es.take(n).map_values(|e: CustomModelV| read_back_v(e))),
    decreases n,
{
    let lines = es.map_values(|e: CustomModelV| custom_line_v(e));
    if n == 0 {
        assert(es.take(0).map_values(|e: CustomModelV| read_back_v(e)) =~= Seq::<CustomModelV>::empty());
    } else {
        lemma_lines_read_back(es, n - 1);
        let ms = es.take(n - 1).map_values(|e: CustomModelV| read_back_v(e));
        let e = es[n - 1];
        lemma_line_reads_back(e);
        assert(lines[n - 1] == custom_line_v(e));
        assert(!has_slug(ms, e.slug)) by {
            if has_slug(ms, e.slug) {
                let i = choose|i: int| 0 <= i < ms.len() && ms[i].slug == e.slug;
                assert(ms[i] == read_back_v(es[i]));
            }
        }
        assert(ms.push(read_back_v(e)) =~= es.take(n).map_values(|e: CustomModelV| read_back_v(e)));
    }
}

/// Law: the relay's model list written as text reads back as the same
/// models (an empty display name comes back as the slug), for entries that
/// the text can carry (see `round_trips`) with distinct slugs.
pub proof fn lemma_custom_models_text_round_trip(es: Seq<CustomModelV>)
    requires
        forall|i: int| 0 <= i < es.len() ==> round_trips(#[trigger] es[i]),
        forall|i: int, j: int| 0 <= i < j < es.len() ==> es[i].slug != es[j].slug,
    ensures
        parse_custom_models_v(custom_models_text_v(es)) == Ok::<Seq<CustomModelV>, ModelsErrorV>(
            es.map_values(|e: CustomModelV| read_back_v(e)),
        ),
{
    reveal_strlit("\n");
    let lines = es.map_values(|e: CustomModelV| custom_line_v(e));
    assert("\n"@ == seq!['\n']);
    if es.len() == 0 {
        assert(lines =~= Seq::<Seq<char>>::empty());
        assert(custom_models_text_v(es) == Seq::<char>::empty());
        assert(split_seq(Seq::<char>::empty(), '\n') == seq![Seq::<char>::empty()]);
        assert(trim_seq(Seq::<char>::empty()) =~= Seq::<char>::empty());
        assert(es.map_values(|e: CustomModelV| read_back_v(e)) =~= Seq::<CustomModelV>::empty());
        assert(parse_lines_v(seq![Seq::<char>::empty()], 0) == Ok::<Seq<CustomModelV>, ModelsErrorV>(Seq::empty()));
    } else {
        assert forall|i: int| 0 <= i < lines.len() implies !(#[trigger] lines[i]).contains('\n') by {
            lemma_line_reads_back(es[i]);
        }
        crate::text::lemma_split_join(lines, '\n');
        let text = custom_models_text_v(es);
        assert(text == join_seq(lines, seq!['\n']));
        assert(split_seq(text, '\n') == lines);
        lemma_lines_read_back(es, es.len() as int);
        assert(es.take(es.len() as int) =~= es);
        assert(parse_custom_models_v(text) == parse_lines_v(lines, lines.len() as int));
    }
}

/// Reads the relay's model list from text.
pub fn parse_custom_models_text(text: &str) -> (r: Result<Vec<CustomModelEntry>, ModelsError>)
    ensures
        match parse_custom_models_v(text@) {
            Ok(ms) => r is Ok && custom_models_view(r->Ok_0@) == ms,
            Err(e) => r is Err && r->Err_0@ == e,
        },
{
    let lines = split_on(text, '\n');
    let ghost lv = views(lines@);
    let mut models: Vec<CustomModelEntry> = Vec::new();
    let mut i: usize = 0;
    proof {
        assert(custom_models_view(models@) =~= Seq::<CustomModelV>::empty());
    }
    while i < lines.len()
        invariant
            i <= lines.len(),
            lv == views(lines@),
            lv == split_seq(text@, '\n'),
            parse_lines_v(lv, i as int) == Ok::<Seq<CustomModelV>, ModelsErrorV>(
                custom_models_view(models@),
            ),
        decreases lines.len() - i,
    {
        let line = trim(lines[i].as_str());
        proof {
            assert(lv[i as int] == lines@[i as int]@);
        }
        if line.as_str().is_empty() || starts_with(line.as_str(), "#") {
            proof {
                assert(lv.take(i + 1).drop_last() =~= lv.take(i as int));
            }
            i = i + 1;
            continue;
        }
        match parse_custom_model_line(line.as_str()) {
            None => {
                proof {
                    assert(parse_lines_v(lv, i + 1) == Err::<Seq<CustomModelV>, ModelsErrorV>(
                        ModelsErrorV::InvalidLine { line_no: i + 1, line: line@ },
                    ));
                    lemma_parse_err_stays(lv, i + 1, lv.len() as int);
                }
                return Err(ModelsError::InvalidLine { line_no: i + 1, line });
            },
            Some(entry) => {
                let ghost mv = custom_models_view(models@);
                if has_slug_exec(&models, &entry.slug) {
                    proof {
                        assert(parse_lines_v(lv, i + 1) == Err::<Seq<CustomModelV>, ModelsErrorV>(
                            ModelsErrorV::DuplicateSlug(entry.slug@),
                        ));
                        lemma_parse_err_stays(lv, i + 1, lv.len() as int);
                    }
                    return Err(ModelsError::DuplicateSlug(entry.slug));
                }
                proof {
                    assert(!has_slug(mv, entry.slug@));
                }
                models.push(entry);
                proof {
                    assert(custom_models_view(models@) =~= mv.push(entry@));
                    assert(lv.take(i + 1).drop_last() =~= lv.take(i as int));
                }
            },
        }
        i = i + 1;
    }
    Ok(models)
}

// ---------------------------------------------------------------------------
// Selecting a provider's model

/// `provider` switched to the model `slug` of its list.
pub open spec fn apply_model_v(p: ProviderV, m: ModelV) -> ProviderV {
    ProviderV { default_model: m.slug, api_model: m.api_model, ..p }
}

/// Selects model `slug` of the provider's list.
pub fn apply_model_variant(provider: &mut ProviderConfig, slug: &str) -> (r: Result<
    (),
    ModelsError,
>)
    ensures
        match first_with_slug(models_for_provider_v(old(provider)@), slug@) {
            Some(m) => r is Ok && final(provider)@ == apply_model_v(old(provider)@, m),
            None => r is Err && r->Err_0@ == ModelsErrorV::UnknownModel(slug@)
                && final(provider)@ == old(provider)@,
        },
{
    match find_model_entry(provider, slug) {
        Some(entry) => {
            provider.default_model = entry.slug;
            provider.api_model = entry.api_model;
            Ok(())
        },
        None => Err(ModelsError::UnknownModel(owned(slug))),
    }
}

/// The current slug of a retired model, if `p` still names one.
pub open spec fn legacy_slug_replacement_v(id: Seq<char>, slug: Seq<char>) -> Option<Seq<char>> {
    if id == "deepseek"@ && slug == "deepseek-chat"@ {
        Some("deepseek-v4-flash"@)
    } else if id == "deepseek"@ && slug == "deepseek-reasoner"@ {
        Some("deepseek-v4-pro"@)
    } else if id == "qwen"@ && slug == "qwen-max"@ {
        Some("qwen3.7-max"@)
    } else if id == "qwen"@ && (slug == "qwen-turbo"@ || slug == "qwen-plus"@ || slug
        == "qwen-long"@) {
        Some("qwen3.7-plus"@)
    } else if id == "zhipu"@ && (slug == "glm-4-plus"@ || slug == "glm-4-air"@ || slug
        == "glm-4-long"@ || slug == "glm-4-flash"@) {
        Some("glm-5.1"@)
    } else if id == "kimi"@ && (slug == "kimi-k2.5"@ || starts_with_seq(slug, "moonshot-v1"@)) {
        Some("kimi-k2.6"@)
    } else if id == "minimax"@ && (slug == "abab6.5s-chat"@ || slug == "abab6.5g-chat"@ || slug
        == "minimax-m2.7"@ || slug == "minimax-m2.5"@) {
        Some("minimax-m3"@)
    } else if id == "mimo"@ && slug == "mimo-v2-pro"@ {
        Some("mimo-v2.5-pro"@)
    } else if id == "mimo"@ && slug == "mimo-v2-omni"@ {
        Some("mimo-v2.5"@)
    } else if id == "mimo"@ && starts_with_seq(slug, "mimo-v1"@) {
        Some("mimo-v2-flash"@)
    } else if id == "custom"@ && slug == "gpt-4o"@ {
        Some("gpt-5.5"@)
    } else {
        None
    }
}

fn legacy_slug_replacement(id: &str, slug: &str) -> (r: Option<&'static str>)
    ensures
        match legacy_slug_replacement_v(id@, slug@) {
            Some(s) => r is Some && r->0@ == s,
            None => r is None,
        },
{
    let deepseek = str_eq(id, "deepseek");
    let qwen = str_eq(id, "qwen");
    let zhipu = str_eq(id, "zhipu");
    let kimi = str_eq(id, "kimi");
    let minimax = str_eq(id, "minimax");
    let mimo = str_eq(id, "mimo");
    let custom = str_eq(id, "custom");
    if deepseek && str_eq(slug, "deepseek-chat") {
        Some("deepseek-v4-flash")
    } else if deepseek && str_eq(slug, "deepseek-reasoner") {
        Some("deepseek-v4-pro")
    } else if qwen && str_eq(slug, "qwen-max") {
        Some("qwen3.7-max")
    } else if qwen && (str_eq(slug, "qwen-turbo") || str_eq(slug, "qwen-plus") || str_eq(
        slug,
        "qwen-long",
    )) {
        Some("qwen3.7-plus")
    } else if zhipu && (str_eq(slug, "glm-4-plus") || str_eq(slug, "glm-4-air") || str_eq(
        slug,
        "glm-4-long",
    ) || str_eq(slug, "glm-4-flash")) {
        Some("glm-5.1")
    } else if kimi && (str_eq(slug, "kimi-k2.5") || starts_with(slug, "moonshot-v1")) {
        Some("kimi-k2.6")
    } else if minimax && (str_eq(slug, "abab6.5s-chat") || str_eq(slug, "abab6.5g-chat")
        || str_eq(slug, "minimax-m2.7") || str_eq(slug, "minimax-m2.5")) {
        Some("minimax-m3")
    } else if mimo && str_eq(slug, "mimo-v2-pro") {
        Some("mimo-v2.5-pro")
    } else if mimo && str_eq(slug, "mimo-v2-omni") {
        Some("mimo-v2.5")
    } else if mimo && starts_with(slug, "mimo-v1") {
        Some("mimo-v2-flash")
    } else if custom && str_eq(slug, "gpt-4o") {
        Some("gpt-5.5")
    } else {
        None
    }
}

/// `p` with a retired model slug replaced by its successor.
pub open spec fn migrate_legacy_v(p: ProviderV) -> ProviderV {
    match legacy_slug_replacement_v(p.id, p.default_model) {
        Some(s) => ProviderV { default_model: s, ..p },
        None => p,
    }
}

fn migrate_legacy_model_slug(provider: &mut ProviderConfig)
    ensures
        final(provider)@ == migrate_legacy_v(old(provider)@),
{
    match legacy_slug_replacement(provider.id.as_str(), provider.default_model.as_str()) {
        Some(s) => {
            provider.default_model = owned(s);
        },
        None => {},
    }
}

/// `p` after migrating a retired slug and making sure its model is one of
/// its list (the first listed model otherwise); the API model follows.
pub open spec fn ensure_valid_v(p: ProviderV) -> ProviderV {
    let q = migrate_legacy_v(p);
    let models = models_for_provider_v(q);
    match first_with_slug(models, q.default_model) {
        Some(m) => ProviderV { api_model: m.api_model, ..q },
        None => if models.len() > 0 {
            ProviderV { default_model: models[0].slug, api_model: models[0].api_model, ..q }
        } else {
            q
        },
    }
}

/// Makes sure the provider's model is one of its list.
pub fn ensure_valid_model(provider: &mut ProviderConfig)
    ensures
        final(provider)@ == ensure_valid_v(old(provider)@),
{
    migrate_legacy_model_slug(provider);
    match find_model_entry(provider, provider.default_model.as_str()) {
        Some(entry) => {
            provider.api_model = entry.api_model;
            return ;
        },
        None => {},
    }
    let models = models_for_provider(provider);
    if models.len() > 0 {
        proof {
            assert(entries_view(models@)[0] == models@[0]@);
        }
        provider.default_model = models[0].slug.clone();
        provider.api_model = models[0].api_model.clone();
    }
}

/// `p` after [`ensure_valid_v`], with the API model of a built-in model.
pub open spec fn sync_model_metadata_v(p: ProviderV) -> ProviderV {
    let q = ensure_valid_v(p);
    if q.id == "custom"@ && q.custom_models.len() > 0 {
        q
    } else {
        match first_with_slug(popular_models_v(q.id), q.default_model) {
            Some(m) => ProviderV { api_model: m.api_model, ..q },
            None => q,
        }
    }
}

/// Refreshes the provider's model metadata from the built-in list.
pub fn sync_model_metadata(provider: &mut ProviderConfig)
    ensures
        final(provider)@ == sync_model_metadata_v(old(provider)@),
{
    ensure_valid_model(provider);
    if str_eq(provider.id.as_str(), "custom") && provider.custom_models.len() > 0 {
        return ;
    }
    match find_model(provider.id.as_str(), provider.default_model.as_str()) {
        Some(v) => {
            provider.api_model = owned(v.api_model);
        },
        None => {},
    }
}

} // verus!
