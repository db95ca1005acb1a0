//! Provider and application settings.
use vstd::prelude::*;

use crate::text::{concat3, owned, str_eq, u64_decimal, decimal_seq};

verus! {

/// The fixed port of the local proxy.
pub const DEFAULT_PORT: u16 = 25543;

/// The reasoning effort written to Codex when none was chosen.
pub open spec fn default_reasoning_effort_v() -> Seq<char> {
    seq!['m', 'e', 'd', 'i', 'u', 'm']
}

/// A model the user listed for the relay provider.
pub struct CustomModelEntry {
    pub slug: String,
    pub api_model: String,
    pub display_name: String,
    pub context_window: u32,
}

pub struct CustomModelV {
    pub slug: Seq<char>,
    pub api_model: Seq<char>,
    pub display_name: Seq<char>,
    pub context_window: u32,
}

impl View for CustomModelEntry {
    type V = CustomModelV;

    open spec fn view(&self) -> CustomModelV {
        CustomModelV {
            slug: self.slug@,
            api_model: self.api_model@,
            display_name: self.display_name@,
            context_window: self.context_window,
        }
    }
}

impl CustomModelEntry {
    pub fn clone_entry(&self) -> (r: CustomModelEntry)
        ensures
            r@ == self@,
    {
        CustomModelEntry {
            slug: self.slug.clone(),
            api_model: self.api_model.clone(),
            display_name: self.display_name.clone(),
            context_window: self.context_window,
        }
    }
}

/// The views of a list of custom models.
pub open spec fn custom_models_view(s: Seq<CustomModelEntry>) -> Seq<CustomModelV> {
    Seq::new(s.len(), |i: int| s[i]@)
}

/// One upstream provider (DeepSeek, Qwen, the relay, …).
pub struct ProviderConfig {
    pub id: String,
    pub name: String,
    pub base_url: String,
    pub api_key_env: String,
    /// The model slug Codex sees.
    pub default_model: String,
    /// The model id sent upstream.
    pub api_model: String,
    pub wire_api: String,
    /// Models listed by the user (relay provider only).
    pub custom_models: Vec<CustomModelEntry>,
}

pub struct ProviderV {
    pub id: Seq<char>,
    pub name: Seq<char>,
    pub base_url: Seq<char>,
    pub api_key_env: Seq<char>,
    pub default_model: Seq<char>,
    pub api_model: Seq<char>,
    pub wire_api: Seq<char>,
    pub custom_models: Seq<CustomModelV>,
}

impl View for ProviderConfig {
    type V = ProviderV;

    open spec fn view(&self) -> ProviderV {
        ProviderV {
            id: self.id@,
            name: self.name@,
            base_url: self.base_url@,
            api_key_env: self.api_key_env@,
            default_model: self.default_model@,
            api_model: self.api_model@,
            wire_api: self.wire_api@,
            custom_models: custom_models_view(self.custom_models@),
        }
    }
}

/// The model id sent upstream: the API model when it is set, otherwise the
/// Codex-facing slug.
pub open spec fn upstream_model_v(p: ProviderV) -> Seq<char> {
    if crate::text::is_blank(p.api_model) {
        p.default_model
    } else {
        p.api_model
    }
}

/// Copies of the given custom models.
pub fn clone_custom_models(v: &Vec<CustomModelEntry>) -> (r: Vec<CustomModelEntry>)
    ensures
        custom_models_view(r@) == custom_models_view(v@),
{
    let mut out: Vec<CustomModelEntry> = Vec::new();
    let mut i: usize = 0;
    while i < v.len()
        invariant
            i <= v.len(),
            out.len() == i,
            forall|k: int| 0 <= k < i ==> (#[trigger] out@[k])@ == v@[k]@,
        decreases v.len() - i,
    {
        out.push(v[i].clone_entry());
        i = i + 1;
    }
    assert(custom_models_view(out@) =~= custom_models_view(v@));
    out
}

impl ProviderConfig {
    /// A provider with no custom models.
    pub fn new(
        id: &str,
        name: &str,
        base_url: &str,
        api_key_env: &str,
        default_model: &str,
        api_model: &str,
        wire_api: &str,
    ) -> (p: ProviderConfig)
        ensures
            p@ == (ProviderV {
                id: id@,
                name: name@,
                base_url: base_url@,
                api_key_env: api_key_env@,
                default_model: default_model@,
                api_model: api_model@,
                wire_api: wire_api@,
                custom_models: Seq::empty(),
            }),
    {
        let p = ProviderConfig {
            id: owned(id),
            name: owned(name),
            base_url: owned(base_url),
            api_key_env: owned(api_key_env),
            default_model: owned(default_model),
            api_model: owned(api_model),
            wire_api: owned(wire_api),
            custom_models: Vec::new(),
        };
        assert(custom_models_view(p.custom_models@) =~= Seq::<CustomModelV>::empty());
        p
    }

    /// A copy with the same view.
    pub fn clone_provider(&self) -> (r: ProviderConfig)
        ensures
            r@ == self@,
    {
        ProviderConfig {
            id: self.id.clone(),
            name: self.name.clone(),
            base_url: self.base_url.clone(),
            api_key_env: self.api_key_env.clone(),
            default_model: self.default_model.clone(),
            api_model: self.api_model.clone(),
            wire_api: self.wire_api.clone(),
            custom_models: clone_custom_models(&self.custom_models),
        }
    }

    /// The model id sent upstream.
    pub fn upstream_model(&self) -> (r: &str)
        ensures
            r@ == upstream_model_v(self@),
    {
        if crate::text::blank(self.api_model.as_str()) {
            self.default_model.as_str()
        } else {
            self.api_model.as_str()
        }
    }
}

// ---------------------------------------------------------------------------
// Providers keyed by id

/// The providers of a list, keyed by id (a later entry wins for a repeated id).
pub open spec fn provider_map(s: Seq<ProviderV>) -> Map<Seq<char>, ProviderV>
    decreases s.len(),
{
    if s.len() == 0 {
        Map::empty()
    } else {
        provider_map(s.drop_last()).insert(s.last().id, s.last())
    }
}

/// No two providers share an id.
pub open spec fn ids_unique(s: Seq<ProviderV>) -> bool {
    forall|i: int, j: int| 0 <= i < s.len() && 0 <= j < s.len() && i != j ==> s[i].id != s[j].id
}

/// The views of a list of providers.
pub open spec fn providers_view(s: Seq<ProviderConfig>) -> Seq<ProviderV> {
    Seq::new(s.len(), |i: int| s[i]@)
}

pub proof fn lemma_provider_map_domain(s: Seq<ProviderV>, k: Seq<char>)
    ensures
        provider_map(s).contains_key(k) <==> exists|i: int| 0 <= i < s.len() && s[i].id == k,
    decreases s.len(),
{
    if s.len() > 0 {
        lemma_provider_map_domain(s.drop_last(), k);
        if exists|i: int| 0 <= i < s.len() && s[i].id == k {
            let i = choose|i: int| 0 <= i < s.len() && s[i].id == k;
            if i < s.len() - 1 {
                assert(s.drop_last()[i].id == k);
            }
        }
        if provider_map(s.drop_last()).contains_key(k) {
            let i = choose|i: int| 0 <= i < s.drop_last().len() && s.drop_last()[i].id == k;
            assert(s[i].id == k);
        }
    }
}

pub proof fn lemma_provider_map_key_id(s: Seq<ProviderV>, k: Seq<char>)
    requires
        provider_map(s).contains_key(k),
    ensures
        provider_map(s)[k].id == k,
    decreases s.len(),
{
    if s.len() > 0 && s.last().id != k {
        lemma_provider_map_key_id(s.drop_last(), k);
    }
}

pub proof fn lemma_provider_map_at(s: Seq<ProviderV>, i: int)
    requires
        ids_unique(s),
        0 <= i < s.len(),
    ensures
        provider_map(s).contains_key(s[i].id),
        provider_map(s)[s[i].id] == s[i],
    decreases s.len(),
{
    lemma_provider_map_domain(s, s[i].id);
    if i < s.len() - 1 {
        let t = s.drop_last();
        assert(ids_unique(t)) by {
            assert forall|a: int, b: int|
                0 <= a < t.len() && 0 <= b < t.len() && a != b implies t[a].id != t[b].id by {
                assert(t[a] == s[a] && t[b] == s[b]);
            }
        }
        assert(t[i] == s[i]);
        lemma_provider_map_at(t, i);
        assert(s.last().id != s[i].id);
    }
}

pub proof fn lemma_provider_map_update(s: Seq<ProviderV>, i: int, q: ProviderV)
    requires
        ids_unique(s),
        0 <= i < s.len(),
        q.id == s[i].id,
    ensures
        ids_unique(s.update(i, q)),
        provider_map(s.update(i, q)) == provider_map(s).insert(q.id, q),
    decreases s.len(),
{
    let u = s.update(i, q);
    assert(ids_unique(u)) by {
        assert forall|a: int, b: int|
            0 <= a < u.len() && 0 <= b < u.len() && a != b implies u[a].id != u[b].id by {
            assert(u[a].id == s[a].id && u[b].id == s[b].id);
        }
    }
    if i == s.len() - 1 {
        assert(u.drop_last() =~= s.drop_last());
        assert(provider_map(u) =~= provider_map(s).insert(q.id, q));
    } else {
        let t = s.drop_last();
        assert(ids_unique(t)) by {
            assert forall|a: int, b: int|
                0 <= a < t.len() && 0 <= b < t.len() && a != b implies t[a].id != t[b].id by {
                assert(t[a] == s[a] && t[b] == s[b]);
            }
        }
        lemma_provider_map_update(t, i, q);
        assert(u.drop_last() =~= t.update(i, q));
        assert(s.last().id != q.id);
        assert(provider_map(u) =~= provider_map(s).insert(q.id, q));
    }
}

pub proof fn lemma_provider_map_push(s: Seq<ProviderV>, q: ProviderV)
    requires
        ids_unique(s),
        !provider_map(s).contains_key(q.id),
    ensures
        ids_unique(s.push(q)),
        provider_map(s.push(q)) == provider_map(s).insert(q.id, q),
{
    lemma_provider_map_domain(s, q.id);
    assert(s.push(q).drop_last() =~= s);
    let u = s.push(q);
    assert forall|a: int, b: int|
        0 <= a < u.len() && 0 <= b < u.len() && a != b implies u[a].id != u[b].id by {
        if a < s.len() && b < s.len() {
            assert(u[a] == s[a] && u[b] == s[b]);
        }
    }
}

pub proof fn lemma_provider_map_remove(s: Seq<ProviderV>, i: int)
    requires
        ids_unique(s),
        0 <= i < s.len(),
    ensures
        ids_unique(s.remove(i)),
        provider_map(s.remove(i)) == provider_map(s).remove(s[i].id),
    decreases s.len(),
{
    let u = s.remove(i);
    assert(ids_unique(u)) by {
        assert forall|a: int, b: int|
            0 <= a < u.len() && 0 <= b < u.len() && a != b implies u[a].id != u[b].id by {
            let a2 = if a < i { a } else { a + 1 };
            let b2 = if b < i { b } else { b + 1 };
            assert(u[a] == s[a2] && u[b] == s[b2]);
        }
    }
    let t = s.drop_last();
    assert(ids_unique(t)) by {
        assert forall|a: int, b: int|
            0 <= a < t.len() && 0 <= b < t.len() && a != b implies t[a].id != t[b].id by {
            assert(t[a] == s[a] && t[b] == s[b]);
        }
    }
    if i == s.len() - 1 {
        assert(u =~= t);
        lemma_provider_map_domain(t, s[i].id);
        assert forall|a: int| 0 <= a < t.len() implies t[a].id != s[i].id by {
            assert(t[a] == s[a]);
        }
        assert(!provider_map(t).contains_key(s[i].id));
        assert(provider_map(u) =~= provider_map(s).remove(s[i].id));
    } else {
        lemma_provider_map_remove(t, i);
        assert(u.drop_last() =~= t.remove(i));
        assert(u.last() == s.last());
        assert(s.last().id != s[i].id);
        assert(provider_map(u) =~= provider_map(s).remove(s[i].id));
    }
}

pub proof fn lemma_providers_view_push(s: Seq<ProviderConfig>, p: ProviderConfig)
    ensures
        providers_view(s.push(p)) == providers_view(s).push(p@),
{
    assert(providers_view(s.push(p)) =~= providers_view(s).push(p@));
}

/// Local proxy address.
pub struct ProxyConfig {
    pub host: String,
    pub port: u16,
}

/// Application settings.
pub struct AppConfig {
    /// Id of the active provider.
    pub active: String,
    pub providers: Vec<ProviderConfig>,
    pub proxy: ProxyConfig,
    /// Head+tail truncation limit for `role: tool` outputs; 0 = off.
    pub tool_output_max_chars: usize,
    pub model_reasoning_effort: String,
}

/// Errors of settings lookups.
pub enum ConfigError {
    /// No provider with this id.
    UnknownProvider(String),
}

/// The text of a settings lookup error.
pub open spec fn config_error_text_v(e: ConfigError) -> Seq<char> {
    match e {
        ConfigError::UnknownProvider(id) => "未知模型预设: "@ + id@ + "。运行 codex-helper list 查看可用项。"@,
    }
}

impl ConfigError {
    /// The error text.
    pub fn message(&self) -> (r: String)
        ensures
            r@ == config_error_text_v(*self),
    {
        match self {
            ConfigError::UnknownProvider(id) => crate::text::concat3(
                "未知模型预设: ",
                id.as_str(),
                "。运行 codex-helper list 查看可用项。",
            ),
        }
    }
}

impl AppConfig {
    /// The providers keyed by id.
    pub open spec fn provider_map(&self) -> Map<Seq<char>, ProviderV> {
        provider_map(providers_view(self.providers@))
    }

    /// Provider ids are unique.
    pub open spec fn wf(&self) -> bool {
        ids_unique(providers_view(self.providers@))
    }

    /// Position of the provider with id `id`.
    pub fn find_provider(&self, id: &str) -> (r: Option<usize>)
        ensures
            match r {
                Some(i) => i < self.providers.len() && self.providers@[i as int].id@ == id@,
                None => forall|i: int|
                    0 <= i < self.providers.len() ==> self.providers@[i].id@ != id@,
            },
    {
        let key = owned(id);
        let mut i: usize = 0;
        while i < self.providers.len()
            invariant
                i <= self.providers.len(),
                key@ == id@,
                forall|k: int| 0 <= k < i ==> self.providers@[k].id@ != id@,
            decreases self.providers.len() - i,
        {
            if self.providers[i].id == key {
                return Some(i);
            }
            i = i + 1;
        }
        None
    }

    /// The provider with id `id` (what `providers.get(id)` answers).
    pub fn provider(&self, id: &str) -> (r: Option<&ProviderConfig>)
        requires
            self.wf(),
        ensures
            match r {
                Some(p) => self.provider_map().contains_key(id@) && p@ == self.provider_map()[id@],
                None => !self.provider_map().contains_key(id@),
            },
    {
        let ghost pv = providers_view(self.providers@);
        proof {
            lemma_provider_map_domain(pv, id@);
        }
        match self.find_provider(id) {
            Some(i) => {
                proof {
                    lemma_provider_map_at(pv, i as int);
                }
                Some(&self.providers[i])
            },
            None => {
                proof {
                    assert forall|k: int| 0 <= k < pv.len() implies pv[k].id != id@ by {
                        assert(pv[k] == self.providers@[k]@);
                    }
                }
                None
            },
        }
    }

    /// Whether a provider with id `id` exists.
    pub fn has_provider(&self, id: &str) -> (r: bool)
        requires
            self.wf(),
        ensures
            r == self.provider_map().contains_key(id@),
    {
        self.provider(id).is_some()
    }

    /// Removes and returns the provider with id `id`.
    pub fn remove_provider(&mut self, id: &str) -> (r: Option<ProviderConfig>)
        requires
            old(self).wf(),
        ensures
            final(self).wf(),
            final(self).provider_map() == old(self).provider_map().remove(id@),
            match r {
                Some(p) => old(self).provider_map().contains_key(id@) && p@ == old(
                    self,
                ).provider_map()[id@] && p@.id == id@,
                None => !old(self).provider_map().contains_key(id@),
            },
            final(self).active == old(self).active,
            final(self).tool_output_max_chars == old(self).tool_output_max_chars,
            final(self).model_reasoning_effort == old(self).model_reasoning_effort,
            final(self).proxy == old(self).proxy,
    {
        let ghost pv = providers_view(self.providers@);
        proof {
            lemma_provider_map_domain(pv, id@);
        }
        match self.find_provider(id) {
            Some(i) => {
                proof {
                    lemma_provider_map_at(pv, i as int);
                    lemma_provider_map_remove(pv, i as int);
                    lemma_provider_map_key_id(pv, id@);
                }
                let p = self.providers.remove(i);
                proof {
                    assert(providers_view(self.providers@) =~= pv.remove(i as int));
                }
                Some(p)
            },
            None => {
                proof {
                    assert forall|k: int| 0 <= k < pv.len() implies pv[k].id != id@ by {
                        assert(pv[k] == self.providers@[k]@);
                    }
                    assert(self.provider_map().remove(id@) =~= self.provider_map());
                }
                None
            },
        }
    }

    /// Inserts `p` under its id, replacing a provider with the same id.
    pub fn insert_provider(&mut self, p: ProviderConfig)
        requires
            old(self).wf(),
        ensures
            final(self).wf(),
            final(self).provider_map() == old(self).provider_map().insert(p@.id, p@),
            final(self).active == old(self).active,
            final(self).tool_output_max_chars == old(self).tool_output_max_chars,
            final(self).model_reasoning_effort == old(self).model_reasoning_effort,
            final(self).proxy == old(self).proxy,
    {
        let ghost pv = providers_view(self.providers@);
        let ghost q = p@;
        proof {
            lemma_provider_map_domain(pv, q.id);
        }
        match self.find_provider(p.id.as_str()) {
            Some(i) => {
                proof {
                    lemma_provider_map_update(pv, i as int, q);
                }
                self.providers.set(i, p);
                proof {
                    assert(providers_view(self.providers@) =~= pv.update(i as int, q));
                }
            },
            None => {
                proof {
                    assert forall|k: int| 0 <= k < pv.len() implies pv[k].id != q.id by {
                        assert(pv[k] == self.providers@[k]@);
                    }
                    lemma_provider_map_push(pv, q);
                    lemma_providers_view_push(self.providers@, p);
                }
                self.providers.push(p);
            },
        }
    }

    /// The active provider.
    pub fn active_provider(&self) -> (r: Result<&ProviderConfig, ConfigError>)
        requires
            self.wf(),
        ensures
            match r {
                Ok(p) => self.provider_map().contains_key(self.active@) && p@
                    == self.provider_map()[self.active@],
                Err(ConfigError::UnknownProvider(id)) => !self.provider_map().contains_key(
                    self.active@,
                ) && id@ == self.active@,
            },
    {
        match self.provider(self.active.as_str()) {
            Some(p) => Ok(p),
            None => Err(ConfigError::UnknownProvider(self.active.clone())),
        }
    }

    /// The base URL Codex uses to reach the local proxy.
    pub fn proxy_base_url(&self) -> (r: String)
        ensures
            r@ == proxy_base_url_v(self.proxy.host@, self.proxy.port),
    {
        let port = u64_decimal(self.proxy.port as u64);
        let mut r = concat3("http://", self.proxy.host.as_str(), ":");
        crate::text::push_str(&mut r, port.as_str());
        crate::text::push_str(&mut r, "/v1");
        r
    }
}

/// `http://{host}:{port}/v1`.
pub open spec fn proxy_base_url_v(host: Seq<char>, port: u16) -> Seq<char> {
    "http://"@ + host + ":"@ + decimal_seq(port as nat) + "/v1"@
}

/// A relay Base URL as it is stored: trimmed, it must start with `http://`
/// or `https://`, and loses its trailing slashes.
pub open spec fn validated_base_url_v(url: Seq<char>) -> Option<Seq<char>> {
    let t = crate::text::trim_seq(url);
    if crate::text::starts_with_seq(t, "http://"@) || crate::text::starts_with_seq(t, "https://"@) {
        Some(crate::codex_setup::normalize_proxy_url_v(t))
    } else {
        None
    }
}

/// Why a Base URL without an HTTP scheme is refused.
pub open spec fn base_url_scheme_refusal_v() -> Seq<char> {
    "Base URL 必须以 http:// 或 https:// 开头"@
}

/// Checks and normalizes a relay Base URL.
pub fn validate_base_url(url: &str) -> (r: Result<String, String>)
    ensures
        match validated_base_url_v(url@) {
            Some(u) => r matches Ok(s) && s@ == u,
            None => r matches Err(e) && e@ == base_url_scheme_refusal_v(),
        },
{
    let t = crate::text::trim(url);
    if crate::text::starts_with(t.as_str(), "http://") || crate::text::starts_with(t.as_str(), "https://") {
        Ok(crate::codex_setup::normalize_proxy_url(t.as_str()))
    } else {
        Err("Base URL 必须以 http:// 或 https:// 开头".to_string())
    }
}

} // verus!
