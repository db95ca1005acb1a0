//! The provider table of the settings: listing, lookup, and merging the
//! built-in presets into saved settings.
use vstd::prelude::*;

use crate::config::{
    providers_view, AppConfig, ConfigError, ProviderConfig, ProviderV, ProxyConfig, DEFAULT_PORT,
};
use crate::models::{sync_model_metadata, sync_model_metadata_v};
use crate::presets::{builtin_presets, builtin_presets_v};
use crate::text::{owned, str_eq};

verus! {

/// The providers shown in the settings and tray, in this order: the
/// official providers, then the relay (`custom`).
pub open spec fn preset_order_v() -> Seq<Seq<char>> {
    seq!["deepseek"@, "qwen"@, "zhipu"@, "kimi"@, "minimax"@, "mimo"@, "custom"@]
}

/// The providers of `m` whose ids are among `order`, in that order.
pub open spec fn listed_v(m: Map<Seq<char>, ProviderV>, order: Seq<Seq<char>>) -> Seq<ProviderV>
    decreases order.len(),
{
    if order.len() == 0 {
        Seq::empty()
    } else {
        let r = listed_v(m, order.drop_last());
        if m.contains_key(order.last()) {
            r.push(m[order.last()])
        } else {
            r
        }
    }
}

proof fn lemma_listed_all(m: Map<Seq<char>, ProviderV>, order: Seq<Seq<char>>)
    requires
        forall|i: int| 0 <= i < order.len() ==> m.contains_key(#[trigger] order[i]),
    ensures
        listed_v(m, order) == order.map_values(|k: Seq<char>| m[k]),
    decreases order.len(),
{
    if order.len() > 0 {
        lemma_listed_all(m, order.drop_last());
        assert(order.map_values(|k: Seq<char>| m[k]) =~= order.drop_last().map_values(|k: Seq<char>| m[k]).push(
            m[order.last()],
        ));
    }
}

/// Law: when the settings hold every provider of the menu order, the list
/// has them all, the relay and MiMo among them, each entry the stored
/// provider of its id, in menu order and with distinct ids.
pub proof fn lemma_every_preset_listed(app: &AppConfig)
    requires
        app.wf(),
        forall|i: int| 0 <= i < preset_order_v().len() ==> app.provider_map().contains_key(
            #[trigger] preset_order_v()[i],
        ),
    ensures
        listed_v(app.provider_map(), preset_order_v()).len() == 7,
        forall|i: int|
            0 <= i < 7 ==> (#[trigger] listed_v(app.provider_map(), preset_order_v())[i]) == app.provider_map()[preset_order_v()[i]]
                && listed_v(app.provider_map(), preset_order_v())[i].id == preset_order_v()[i],
        forall|i: int, j: int|
            0 <= i < j < 7 ==> listed_v(app.provider_map(), preset_order_v())[i].id != listed_v(
                app.provider_map(),
                preset_order_v(),
            )[j].id,
        listed_v(app.provider_map(), preset_order_v())[5].id == "mimo"@,
        listed_v(app.provider_map(), preset_order_v())[6].id == "custom"@,
{
    let m = app.provider_map();
    let o = preset_order_v();
    lemma_listed_all(m, o);
    assert forall|i: int| 0 <= i < 7 implies m[o[i]].id == o[i] by {
        assert(m.contains_key(o[i]));
        crate::config::lemma_provider_map_key_id(providers_view(app.providers@), o[i]);
    }
    reveal_strlit("deepseek");
    reveal_strlit("qwen");
    reveal_strlit("zhipu");
    reveal_strlit("kimi");
    reveal_strlit("minimax");
    reveal_strlit("mimo");
    reveal_strlit("custom");
    assert forall|i: int, j: int| 0 <= i < j < 7 implies o[i] != o[j] by {
        assert(o[0].len() == 8 && o[1].len() == 4 && o[2].len() == 5 && o[3].len() == 4 && o[4].len() == 7
            && o[5].len() == 4 && o[6].len() == 6);
        assert(o[1][0] != o[3][0] && o[1][0] != o[5][0] && o[3][0] != o[5][0]);
    }
}

/// The listed providers of the settings, in menu order.
pub fn list_presets(config: &AppConfig) -> (r: Vec<&ProviderConfig>)
    requires
        config.wf(),
    ensures
        r@.map_values(|p: &ProviderConfig| p@) == listed_v(
            config.provider_map(),
            preset_order_v(),
        ),
{
    let mut order: Vec<&'static str> = Vec::new();
    order.push("deepseek");
    order.push("qwen");
    order.push("zhipu");
    order.push("kimi");
    order.push("minimax");
    order.push("mimo");
    order.push("custom");
    let ghost ov = preset_order_v();
    assert(order@.map_values(|s: &'static str| s@) =~= ov);
    let mut out: Vec<&ProviderConfig> = Vec::new();
    let mut i: usize = 0;
    proof {
        assert(ov.take(0) =~= Seq::<Seq<char>>::empty());
        assert(out@.map_values(|p: &ProviderConfig| p@) =~= Seq::<ProviderV>::empty());
    }
    while i < order.len()
        invariant
            i <= order.len(),
            config.wf(),
            order@.map_values(|s: &'static str| s@) == ov,
            out@.map_values(|p: &ProviderConfig| p@) == listed_v(
                config.provider_map(),
                ov.take(i as int),
            ),
        decreases order.len() - i,
    {
        let ghost prev = out@.map_values(|p: &ProviderConfig| p@);
        proof {
            assert(ov[i as int] == order@[i as int]@);
            assert(ov.take(i + 1).drop_last() =~= ov.take(i as int));
            assert(ov.take(i + 1).last() == ov[i as int]);
        }
        match config.provider(order[i]) {
            Some(p) => {
                out.push(p);
                proof {
                    assert(out@.map_values(|p: &ProviderConfig| p@) =~= prev.push(p@));
                }
            },
            None => {},
        }
        i = i + 1;
    }
    proof {
        assert(ov.take(order.len() as int) =~= ov);
    }
    out
}

/// The provider with id `id`.
pub fn get_preset<'a>(config: &'a AppConfig, id: &str) -> (r: Result<
    &'a ProviderConfig,
    ConfigError,
>)
    requires
        config.wf(),
    ensures
        match r {
            Ok(p) => config.provider_map().contains_key(id@) && p@ == config.provider_map()[id@],
            Err(ConfigError::UnknownProvider(s)) => !config.provider_map().contains_key(id@) && s@
                == id@,
        },
{
    match config.provider(id) {
        Some(p) => Ok(p),
        None => Err(ConfigError::UnknownProvider(owned(id))),
    }
}

/// Settings after renaming the retired `moonshot` provider to `kimi`.
pub open spec fn migrate_map_v(m: Map<Seq<char>, ProviderV>) -> Map<Seq<char>, ProviderV> {
    if m.contains_key("moonshot"@) {
        m.remove("moonshot"@).insert(
            "kimi"@,
            ProviderV { id: "kimi"@, name: "Kimi"@, ..m["moonshot"@] },
        )
    } else {
        m
    }
}

/// The active id after renaming `moonshot` to `kimi`.
pub open spec fn migrate_active_v(active: Seq<char>) -> Seq<char> {
    if active == "moonshot"@ {
        "kimi"@
    } else {
        active
    }
}

/// Renames the retired `moonshot` provider to `kimi`.
pub fn migrate_legacy_providers(app: &mut AppConfig)
    requires
        old(app).wf(),
    ensures
        final(app).wf(),
        final(app).active@ == migrate_active_v(old(app).active@),
        final(app).provider_map() == migrate_map_v(old(app).provider_map()),
        final(app).proxy == old(app).proxy,
        final(app).tool_output_max_chars == old(app).tool_output_max_chars,
        final(app).model_reasoning_effort == old(app).model_reasoning_effort,
{
    if str_eq(app.active.as_str(), "moonshot") {
        app.active = owned("kimi");
    }
    let ghost m0 = app.provider_map();
    match app.remove_provider("moonshot") {
        Some(mut old) => {
            old.id = owned("kimi");
            old.name = owned("Kimi");
            app.insert_provider(old);
        },
        None => {},
    }
}

/// `existing` with the preset's connection fields and refreshed model data.
/// The relay provider (`custom`) keeps the Base URL its user entered; every
/// other provider takes the preset's official one.
pub open spec fn refresh_preset_v(existing: ProviderV, preset: ProviderV) -> ProviderV {
    sync_model_metadata_v(
        ProviderV {
            base_url: if preset.id == "custom"@ {
                existing.base_url
            } else {
                preset.base_url
            },
            api_key_env: preset.api_key_env,
            name: preset.name,
            wire_api: preset.wire_api,
            ..existing
        },
    )
}

/// Settings with the presets `ps` merged in order: a known provider is
/// refreshed from its preset, a missing one is added.
pub open spec fn merge_presets_v(m: Map<Seq<char>, ProviderV>, ps: Seq<ProviderV>) -> Map<
    Seq<char>,
    ProviderV,
>
    decreases ps.len(),
{
    if ps.len() == 0 {
        m
    } else {
        let m1 = merge_presets_v(m, ps.drop_last());
        let p = ps.last();
        if m1.contains_key(p.id) {
            m1.insert(p.id, refresh_preset_v(m1[p.id], p))
        } else {
            m1.insert(p.id, p)
        }
    }
}

proof fn lemma_refresh_fields(e: ProviderV, p: ProviderV)
    ensures
        refresh_preset_v(e, p).name == p.name,
        refresh_preset_v(e, p).api_key_env == p.api_key_env,
        refresh_preset_v(e, p).wire_api == p.wire_api,
        refresh_preset_v(e, p).base_url == if p.id == "custom"@ {
            e.base_url
        } else {
            p.base_url
        },
{
}

/// No two of `ps` share an id.
pub open spec fn distinct_ids(ps: Seq<ProviderV>) -> bool {
    forall|i: int, j: int| 0 <= i < j < ps.len() ==> ps[i].id != ps[j].id
}

proof fn lemma_merge_untouched(m: Map<Seq<char>, ProviderV>, ps: Seq<ProviderV>, k: Seq<char>)
    requires
        forall|i: int| 0 <= i < ps.len() ==> ps[i].id != k,
    ensures
        merge_presets_v(m, ps).contains_key(k) == m.contains_key(k),
        m.contains_key(k) ==> merge_presets_v(m, ps)[k] == m[k],
    decreases ps.len(),
{
    if ps.len() > 0 {
        let d = ps.drop_last();
        assert forall|i: int| 0 <= i < d.len() implies d[i].id != k by {
            assert(d[i] == ps[i]);
        }
        assert(ps[ps.len() - 1].id != k);
        lemma_merge_untouched(m, d, k);
    }
}

proof fn lemma_merge_presets(m: Map<Seq<char>, ProviderV>, ps: Seq<ProviderV>)
    requires
        distinct_ids(ps),
    ensures
        forall|k: Seq<char>|
            (forall|i: int| 0 <= i < ps.len() ==> ps[i].id != k) ==> (#[trigger] merge_presets_v(m, ps).contains_key(k)
                == m.contains_key(k) && (m.contains_key(k) ==> merge_presets_v(m, ps)[k] == m[k])),
        forall|i: int|
            0 <= i < ps.len() ==> {
                let q = merge_presets_v(m, ps)[#[trigger] ps[i].id];
                &&& merge_presets_v(m, ps).contains_key(ps[i].id)
                &&& q.name == ps[i].name
                &&& q.api_key_env == ps[i].api_key_env
                &&& q.wire_api == ps[i].wire_api
                &&& q.base_url == if ps[i].id == "custom"@ && m.contains_key(ps[i].id) {
                    m[ps[i].id].base_url
                } else {
                    ps[i].base_url
                }
            },
    decreases ps.len(),
{
    if ps.len() > 0 {
        let d = ps.drop_last();
        let p = ps.last();
        assert(distinct_ids(d));
        lemma_merge_presets(m, d);
        let m1 = merge_presets_v(m, d);
        assert forall|i: int| 0 <= i < d.len() implies d[i].id != p.id by {
            assert(d[i] == ps[i]);
            assert(ps[ps.len() - 1] == p);
        }
        lemma_merge_untouched(m, d, p.id);
        if m1.contains_key(p.id) {
            lemma_refresh_fields(m1[p.id], p);
        }
        assert(m1.contains_key(p.id) == m.contains_key(p.id) && (m.contains_key(p.id) ==> m1[p.id] == m[p.id]));
        assert forall|i: int| 0 <= i < ps.len() implies {
            let q = merge_presets_v(m, ps)[#[trigger] ps[i].id];
            &&& merge_presets_v(m, ps).contains_key(ps[i].id)
            &&& q.name == ps[i].name
            &&& q.api_key_env == ps[i].api_key_env
            &&& q.wire_api == ps[i].wire_api
            &&& q.base_url == if ps[i].id == "custom"@ && m.contains_key(ps[i].id) {
                m[ps[i].id].base_url
            } else {
                ps[i].base_url
            }
        } by {
            if i < ps.len() - 1 {
                assert(ps[i] == d[i]);
                assert(d[i].id != p.id);
            }
        }
        assert forall|k: Seq<char>|
            (forall|i: int| 0 <= i < ps.len() ==> ps[i].id != k) implies (#[trigger] merge_presets_v(m, ps).contains_key(k)
                == m.contains_key(k) && (m.contains_key(k) ==> merge_presets_v(m, ps)[k] == m[k])) by {
            lemma_merge_untouched(m, ps, k);
        }
    }
}

/// Law: after merging the presets, every built-in provider is there with
/// its preset's name, key variable and wire API; every official provider
/// has its preset's Base URL, while the relay keeps the Base URL its user
/// entered; the retired `moonshot` entry is gone; and providers of other
/// ids (besides `moonshot` and `kimi`) are untouched.
pub proof fn lemma_sync_keeps_relay_url(m: Map<Seq<char>, ProviderV>)
    ensures
        forall|i: int|
            0 <= i < builtin_presets_v().len() ==> {
                let p = #[trigger] builtin_presets_v()[i];
                let q = synced_map_v(m)[p.id];
                &&& synced_map_v(m).contains_key(p.id)
                &&& q.name == p.name
                &&& q.api_key_env == p.api_key_env
                &&& q.wire_api == p.wire_api
                &&& (p.id != "custom"@ ==> q.base_url == p.base_url)
            },
        m.contains_key("custom"@) ==> synced_map_v(m).contains_key("custom"@) && synced_map_v(m)["custom"@].base_url
            == m["custom"@].base_url,
        !synced_map_v(m).contains_key("moonshot"@),
        forall|k: Seq<char>|
            k != "moonshot"@ && k != "kimi"@ && (forall|i: int|
                0 <= i < builtin_presets_v().len() ==> builtin_presets_v()[i].id != k) ==> (
            #[trigger] synced_map_v(m).contains_key(k) == m.contains_key(k) && (m.contains_key(k)
                ==> synced_map_v(m)[k] == m[k])),
{
    crate::presets::lemma_presets_are_consistent();
    let ps = builtin_presets_v();
    assert(distinct_ids(ps));
    reveal_strlit("moonshot");
    reveal_strlit("kimi");
    reveal_strlit("custom");
    reveal_strlit("deepseek");
    reveal_strlit("qwen");
    reveal_strlit("zhipu");
    reveal_strlit("minimax");
    reveal_strlit("mimo");
    assert("moonshot"@.len() == 8 && "deepseek"@.len() == 8 && "kimi"@.len() == 4 && "custom"@.len() == 6);
    assert("moonshot"@[0] != "deepseek"@[0]);
    assert("qwen"@.len() == 4 && "zhipu"@.len() == 5 && "minimax"@.len() == 7 && "mimo"@.len() == 4);
    let m2 = migrate_map_v(m).remove("moonshot"@);
    lemma_merge_presets(m2, ps);
    assert forall|i: int| 0 <= i < ps.len() implies ps[i].id != "moonshot"@ by {
        assert(ps[i].id.len() != 8 || ps[i].id[0] != "moonshot"@[0]);
    }
    assert("custom"@ != "moonshot"@ && "custom"@ != "kimi"@);
    assert(ps[6].id == "custom"@);
    if m.contains_key("custom"@) {
        assert(m2.contains_key("custom"@) && m2["custom"@] == m["custom"@]);
    }
}

/// The providers after [`sync_builtin_presets`].
pub open spec fn synced_map_v(m: Map<Seq<char>, ProviderV>) -> Map<Seq<char>, ProviderV> {
    merge_presets_v(migrate_map_v(m).remove("moonshot"@), builtin_presets_v())
}

/// Merges the built-in presets into the settings (new providers added,
/// display names and endpoints updated).
pub fn sync_builtin_presets(app: &mut AppConfig)
    requires
        old(app).wf(),
    ensures
        final(app).wf(),
        final(app).active@ == migrate_active_v(old(app).active@),
        final(app).provider_map() == synced_map_v(old(app).provider_map()),
        final(app).proxy == old(app).proxy,
        final(app).tool_output_max_chars == old(app).tool_output_max_chars,
        final(app).model_reasoning_effort == old(app).model_reasoning_effort,
{
    migrate_legacy_providers(app);
    let _ = app.remove_provider("moonshot");
    let ghost base = app.provider_map();
    let mut presets = builtin_presets();
    let ghost pv = providers_view(presets@);
    let ghost mut i: int = 0;
    proof {
        assert(pv.take(0) =~= Seq::<ProviderV>::empty());
        assert(pv.skip(0) =~= pv);
    }
    while presets.len() > 0
        invariant
            0 <= i <= pv.len(),
            pv == builtin_presets_v(),
            providers_view(presets@) == pv.skip(i),
            app.wf(),
            app.provider_map() == merge_presets_v(base, pv.take(i)),
            app.active@ == migrate_active_v(old(app).active@),
            app.proxy == old(app).proxy,
            app.tool_output_max_chars == old(app).tool_output_max_chars,
            app.model_reasoning_effort == old(app).model_reasoning_effort,
        decreases presets.len(),
    {
        let ghost before = presets@;
        let preset = presets.remove(0);
        proof {
            assert(providers_view(before).len() == before.len());
            assert(i < pv.len());
            assert(providers_view(before)[0] == preset@);
            assert(pv.skip(i)[0] == pv[i]);
            assert(providers_view(presets@) =~= pv.skip(i + 1)) by {
                assert forall|j: int| 0 <= j < presets@.len() implies providers_view(presets@)[j]
                    == pv.skip(i + 1)[j] by {
                    assert(presets@[j] == before[j + 1]);
                    assert(providers_view(before)[j + 1] == pv.skip(i)[j + 1]);
                    assert(pv.skip(i)[j + 1] == pv[i + j + 1]);
                }
            }
            assert(pv.take(i + 1).drop_last() =~= pv.take(i));
            assert(pv.take(i + 1).last() == pv[i]);
        }
        let ghost pp = preset@;
        let ghost m1 = merge_presets_v(base, pv.take(i));
        match app.remove_provider(preset.id.as_str()) {
            Some(mut existing) => {
                let ghost e0 = existing@;
                if !str_eq(preset.id.as_str(), "custom") {
                    existing.base_url = preset.base_url;
                }
                existing.api_key_env = preset.api_key_env;
                existing.name = preset.name;
                existing.wire_api = preset.wire_api;
                assert(existing@ == ProviderV {
                    base_url: if pp.id == "custom"@ {
                        e0.base_url
                    } else {
                        pp.base_url
                    },
                    api_key_env: pp.api_key_env,
                    name: pp.name,
                    wire_api: pp.wire_api,
                    ..e0
                });
                sync_model_metadata(&mut existing);
                assert(existing@ == refresh_preset_v(e0, pp));
                assert(existing@.id == pp.id);
                app.insert_provider(existing);
                proof {
                    assert(app.provider_map() =~= m1.insert(pv[i].id, refresh_preset_v(m1[pv[i].id], pv[i])));
                }
            },
            None => {
                app.insert_provider(preset);
                proof {
                    assert(app.provider_map() =~= m1.insert(pv[i].id, pv[i]));
                }
            },
        }
        proof {
            i = i + 1;
        }
    }
    proof {
        assert(pv.take(i) =~= pv);
    }
}

/// The settings used when nothing was saved: every built-in preset, DeepSeek
/// active, the proxy on `127.0.0.1:25543`, no tool output truncation,
/// `medium` reasoning.
pub fn default_app_config() -> (app: AppConfig)
    ensures
        app.wf(),
        app.active@ == "deepseek"@,
        app.provider_map() == merge_presets_v(Map::empty(), builtin_presets_v()),
        app.proxy.host@ == "127.0.0.1"@,
        app.proxy.port == DEFAULT_PORT,
        app.tool_output_max_chars == 0,
        app.model_reasoning_effort@ == "medium"@,
{
    let mut app = AppConfig {
        active: owned("deepseek"),
        providers: Vec::new(),
        proxy: ProxyConfig { host: owned("127.0.0.1"), port: DEFAULT_PORT },
        tool_output_max_chars: 0,
        model_reasoning_effort: owned("medium"),
    };
    proof {
        assert(providers_view(app.providers@) =~= Seq::<ProviderV>::empty());
    }
    sync_builtin_presets(&mut app);
    proof {
        assert(app.active@ == "deepseek"@) by {
            reveal_strlit("deepseek");
            reveal_strlit("moonshot");
            assert("deepseek"@[0] != "moonshot"@[0]);
        }
        assert(crate::config::provider_map(Seq::<ProviderV>::empty()) == Map::<
            Seq<char>,
            ProviderV,
        >::empty());
        assert(!Map::<Seq<char>, ProviderV>::empty().contains_key("moonshot"@));
        assert(Map::<Seq<char>, ProviderV>::empty().remove("moonshot"@) =~= Map::<
            Seq<char>,
            ProviderV,
        >::empty());
    }
    app
}

impl Default for AppConfig {
    /// The settings used when nothing was saved (see [`default_app_config`]).
    fn default() -> (app: Self)
        ensures
            app.wf(),
            app.active@ == "deepseek"@,
            app.provider_map() == merge_presets_v(Map::empty(), builtin_presets_v()),
            app.proxy.port == DEFAULT_PORT,
            app.tool_output_max_chars == 0,
    {
        default_app_config()
    }
}

} // verus!
