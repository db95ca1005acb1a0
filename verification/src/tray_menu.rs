//! The tray: its tooltip and menu texts, the menu itself as a tree of plain
//! entries, what a click on an entry asks for, and the switch of the active
//! provider and model.
use vstd::prelude::*;

use crate::config::{config_error_text_v, AppConfig, ConfigError, ProviderConfig, ProviderV};
use crate::models::{
    apply_model_v, apply_model_variant, first_with_slug, menu_tag, menu_tag_v,
    models_for_provider_v, popular_models, popular_models_v, tray_model_label, tray_model_label_v,
    variant_to_entry, ModelsError, ModelsErrorV,
};
use crate::provider::{get_preset, list_presets, listed_v, preset_order_v};
use crate::text::{blank, chars_of, concat2, concat3, find, first_occurrence, is_blank, starts_with, str_eq, string_of_range};

verus! {

/// The result of the last connection check.
pub enum ConnectionStatus {
    Unknown,
    Checking,
    Connected,
    Skipped(String),
    Failed(String),
}

/// The connection state of one provider.
pub struct ProviderHealth {
    pub provider_id: String,
    pub connection: ConnectionStatus,
}

impl Default for ProviderHealth {
    fn default() -> (r: Self)
        ensures
            r.provider_id@ == Seq::<char>::empty(),
            r.connection is Unknown,
    {
        ProviderHealth { provider_id: String::new(), connection: ConnectionStatus::Unknown }
    }
}

/// The name of the active provider, or `未知`.
pub open spec fn active_name_v(app: &AppConfig) -> Seq<char> {
    if app.provider_map().contains_key(app.active@) {
        app.provider_map()[app.active@].name
    } else {
        "未知"@
    }
}

/// The tray tooltip: the active provider and whether it needs a key, failed
/// to connect, or runs.
pub open spec fn tooltip_v(app: &AppConfig, health: &ProviderHealth, key_configured: bool) -> Seq<char> {
    let name = active_name_v(app);
    if !key_configured {
        "Codex Helper — "@ + name + "（需设置 API Key）"@
    } else if health.provider_id@ == app.active@ && health.connection is Failed {
        "Codex Helper — "@ + name + "（连接失败）"@
    } else {
        "Codex Helper — "@ + name + "（运行中）"@
    }
}

/// The tray tooltip; `key_configured` says whether the active provider's
/// API key can be found.
pub fn tooltip_text(app: &AppConfig, health: &ProviderHealth, key_configured: bool) -> (r: String)
    requires
        app.wf(),
    ensures
        r@ == tooltip_v(app, health, key_configured),
{
    let name: &str = match app.active_provider() {
        Ok(p) => p.name.as_str(),
        Err(_) => "未知",
    };
    if !key_configured {
        return concat3("Codex Helper — ", name, "（需设置 API Key）");
    }
    let failed = match &health.connection {
        ConnectionStatus::Failed(_) => true,
        _ => false,
    };
    if str_eq(health.provider_id.as_str(), app.active.as_str()) && failed {
        return concat3("Codex Helper — ", name, "（连接失败）");
    }
    concat3("Codex Helper — ", name, "（运行中）")
}

/// A provider name with its menu tag, if it has one.
pub open spec fn provider_with_tag_v(name: Seq<char>, p: ProviderV) -> Seq<char> {
    match menu_tag_v(p) {
        Some(tag) => name + " · "@ + tag,
        None => name,
    }
}

pub fn format_provider_with_tag(name: &str, provider: &ProviderConfig) -> (r: String)
    ensures
        r@ == provider_with_tag_v(name@, provider@),
{
    match menu_tag(provider) {
        Some(tag) => concat3(name, " · ", tag.as_str()),
        None => name.to_string(),
    }
}

/// The menu line about the API key.
pub open spec fn key_line_v(key_configured: bool) -> Seq<char> {
    if key_configured {
        "√ API Key：已配置"@
    } else {
        "× API Key：未配置"@
    }
}

pub fn menu_key_line(key_configured: bool) -> (r: String)
    ensures
        r@ == key_line_v(key_configured),
{
    if key_configured {
        "√ API Key：已配置".to_string()
    } else {
        "× API Key：未配置".to_string()
    }
}

/// `text` cut to `max_chars` characters with an ellipsis when longer.
pub open spec fn truncate_menu_v(text: Seq<char>, max_chars: nat) -> Seq<char> {
    if text.len() <= max_chars {
        text
    } else {
        text.take(max_chars as int) + "…"@
    }
}

pub fn truncate_menu_text(text: &str, max_chars: usize) -> (r: String)
    ensures
        r@ == truncate_menu_v(text@, max_chars as nat),
{
    let v = chars_of(text);
    if v.len() <= max_chars {
        return text.to_string();
    }
    let head = string_of_range(&v, 0, max_chars);
    assert(head@ =~= text@.take(max_chars as int));
    concat2(head.as_str(), "…")
}

/// The menu line about the connection of the active provider.
pub open spec fn connection_line_v(app: &AppConfig, health: &ProviderHealth) -> Seq<char> {
    if health.provider_id@ != app.active@ {
        "… 连接：检测中…"@
    } else {
        match health.connection {
            ConnectionStatus::Unknown => "… 连接：未检测"@,
            ConnectionStatus::Checking => "… 连接：检测中…"@,
            ConnectionStatus::Connected => "√ 连接：正常"@,
            ConnectionStatus::Skipped(msg) => "× 连接："@ + msg@,
            ConnectionStatus::Failed(msg) => "× 连接："@ + truncate_menu_v(msg@, 32),
        }
    }
}

pub fn menu_connection_line(app: &AppConfig, health: &ProviderHealth) -> (r: String)
    ensures
        r@ == connection_line_v(app, health),
{
    if !str_eq(health.provider_id.as_str(), app.active.as_str()) {
        return "… 连接：检测中…".to_string();
    }
    match &health.connection {
        ConnectionStatus::Unknown => "… 连接：未检测".to_string(),
        ConnectionStatus::Checking => "… 连接：检测中…".to_string(),
        ConnectionStatus::Connected => "√ 连接：正常".to_string(),
        ConnectionStatus::Skipped(msg) => concat2("× 连接：", msg.as_str()),
        ConnectionStatus::Failed(msg) => {
            let t = truncate_menu_text(msg.as_str(), 32);
            concat2("× 连接：", t.as_str())
        },
    }
}

// ---------------------------------------------------------------------------
// The menu

/// An entry of the tray menu.
pub enum MenuEntry {
    Item { id: String, text: String, enabled: bool },
    Separator,
    Submenu { id: String, text: String, enabled: bool, items: Vec<MenuEntry> },
}

/// The view of a menu entry.
pub enum MenuV {
    Item { id: Seq<char>, text: Seq<char>, enabled: bool },
    Separator,
    Submenu { id: Seq<char>, text: Seq<char>, enabled: bool, items: Seq<MenuV> },
}

pub open spec fn view_entry(e: MenuEntry) -> MenuV
    decreases e, 0nat,
{
    match e {
        MenuEntry::Item { id, text, enabled } => MenuV::Item { id: id@, text: text@, enabled },
        MenuEntry::Separator => MenuV::Separator,
        MenuEntry::Submenu { id, text, enabled, items } => MenuV::Submenu {
            id: id@,
            text: text@,
            enabled,
            items: view_entries_of(items@),
        },
    }
}

pub open spec fn view_entries_of(s: Seq<MenuEntry>) -> Seq<MenuV>
    decreases s, s.len(),
{
    Seq::new(s.len(), |i: int| if 0 <= i < s.len() { view_entry(s[i]) } else { MenuV::Separator })
}

impl View for MenuEntry {
    type V = MenuV;

    open spec fn view(&self) -> MenuV {
        view_entry(*self)
    }
}

/// A plain menu item.
pub open spec fn item_v(id: Seq<char>, text: Seq<char>, enabled: bool) -> MenuV {
    MenuV::Item { id, text, enabled }
}

fn item(id: &str, text: &str, enabled: bool) -> (r: MenuEntry)
    ensures
        r@ == item_v(id@, text@, enabled),
{
    MenuEntry::Item { id: id.to_string(), text: text.to_string(), enabled }
}

/// The model entries of a provider's submenu.
pub open spec fn model_items_v(p: ProviderV, active: Seq<char>) -> Seq<MenuV> {
    let ms = popular_models_v(p.id);
    Seq::new(
        ms.len(),
        |k: int|
            item_v(
                "use:"@ + p.id + ":"@ + ms[k].slug,
                tray_model_label_v(ms[k], p.id == active && p.default_model == ms[k].slug),
                true,
            ),
    )
}

/// A provider's submenu: its name (ticked when active) over its models.
pub open spec fn provider_menu_v(p: ProviderV, active: Seq<char>) -> MenuV {
    MenuV::Submenu {
        id: "provider:"@ + p.id,
        text: if p.id == active {
            "✓ "@ + p.name
        } else {
            p.name
        },
        enabled: true,
        items: model_items_v(p, active),
    }
}

/// The label of the active provider in the models menu.
pub open spec fn active_label_v(app: &AppConfig) -> Seq<char> {
    if app.provider_map().contains_key(app.active@) {
        let p = app.provider_map()[app.active@];
        provider_with_tag_v(p.name, p)
    } else {
        "未选择"@
    }
}

/// The whole tray menu.
pub open spec fn menu_v(app: &AppConfig, health: &ProviderHealth, key_configured: bool) -> Seq<MenuV> {
    let ps = listed_v(app.provider_map(), preset_order_v());
    seq![
        item_v("key_status"@, key_line_v(key_configured), false),
        item_v("conn_status"@, connection_line_v(app, health), false),
        MenuV::Separator,
        MenuV::Submenu {
            id: "models"@,
            text: "切换模型  ·  "@ + active_label_v(app),
            enabled: true,
            items: Seq::new(ps.len(), |i: int| provider_menu_v(ps[i], app.active@)),
        },
        MenuV::Separator,
        item_v("hdr_setup"@, "常用"@, false),
        item_v("settings"@, "设置…"@, true),
        item_v("resync"@, "重新同步配置"@, true),
        item_v("check_health"@, "检测连接"@, true),
        item_v("request_logs"@, "请求日志…"@, true),
        MenuV::Separator,
        item_v("hdr_more"@, "更多"@, false),
        item_v("open_helper"@, "打开配置文件夹"@, true),
        item_v("open_codex"@, "打开 Codex 文件夹"@, true),
        item_v("restore_openai"@, "切换回 OpenAI 官方"@, true),
        item_v("kill_reset_codex"@, "重置 Codex 为默认设置"@, true),
        MenuV::Separator,
        item_v("quit"@, "退出 Codex Helper"@, true),
    ]
}

fn push_entry(v: &mut Vec<MenuEntry>, e: MenuEntry)
    ensures
        view_entries_of(final(v)@) == view_entries_of(old(v)@).push(e@),
{
    let ghost before = v@;
    v.push(e);
    proof {
        assert(view_entries_of(v@) =~= view_entries_of(before).push(e@));
    }
}

fn provider_menu(p: &ProviderConfig, active: &str) -> (r: MenuEntry)
    ensures
        r@ == provider_menu_v(p@, active@),
{
    let is_active_provider = str_eq(p.id.as_str(), active);
    let label = if is_active_provider {
        concat2("✓ ", p.name.as_str())
    } else {
        p.name.clone()
    };
    let models = popular_models(p.id.as_str());
    let ghost ms = popular_models_v(p.id@);
    let mut items: Vec<MenuEntry> = Vec::new();
    let mut k: usize = 0;
    while k < models.len()
        invariant
            k <= models.len(),
            ms == popular_models_v(p.id@),
            crate::models::variants_view(models@) == ms,
            is_active_provider == (p.id@ == active@),
            items.len() == k,
            forall|j: int|
                0 <= j < k ==> (#[trigger] items@[j])@ == item_v(
                    "use:"@ + p.id@ + ":"@ + ms[j].slug,
                    tray_model_label_v(ms[j], p.id@ == active@ && p.default_model@ == ms[j].slug),
                    true,
                ),
        decreases models.len() - k,
    {
        let model = &models[k];
        let is_active = is_active_provider && str_eq(p.default_model.as_str(), model.slug);
        let entry = variant_to_entry(model);
        let text = tray_model_label(&entry, is_active);
        let a = concat3("use:", p.id.as_str(), ":");
        let id = concat2(a.as_str(), model.slug);
        items.push(MenuEntry::Item { id, text, enabled: true });
        k = k + 1;
    }
    let r = MenuEntry::Submenu {
        id: concat2("provider:", p.id.as_str()),
        text: label,
        enabled: true,
        items,
    };
    assert(view_entries_of(items@) =~= model_items_v(p@, active@));
    r
}

/// Builds the tray menu; `key_configured` says whether the active
/// provider's API key can be found.
pub fn build_menu(app: &AppConfig, health: &ProviderHealth, key_configured: bool) -> (r: Vec<MenuEntry>)
    requires
        app.wf(),
    ensures
        view_entries_of(r@) == menu_v(app, health, key_configured),
{
    let mut menu: Vec<MenuEntry> = Vec::new();
    let key_line = menu_key_line(key_configured);
    let conn_line = menu_connection_line(app, health);
    push_entry(&mut menu, item("key_status", key_line.as_str(), false));
    push_entry(&mut menu, item("conn_status", conn_line.as_str(), false));
    push_entry(&mut menu, MenuEntry::Separator);
    let active_label = match app.active_provider() {
        Ok(p) => format_provider_with_tag(p.name.as_str(), p),
        Err(_) => "未选择".to_string(),
    };
    let presets = list_presets(app);
    let ghost ps = listed_v(app.provider_map(), preset_order_v());
    let mut subs: Vec<MenuEntry> = Vec::new();
    let mut i: usize = 0;
    while i < presets.len()
        invariant
            i <= presets.len(),
            presets@.len() == ps.len(),
            forall|j: int| 0 <= j < presets@.len() ==> (#[trigger] presets@[j])@ == ps[j],
            subs.len() == i,
            forall|j: int| 0 <= j < i ==> (#[trigger] subs@[j])@ == provider_menu_v(ps[j], app.active@),
        decreases presets.len() - i,
    {
        subs.push(provider_menu(presets[i], app.active.as_str()));
        i = i + 1;
    }
    assert(view_entries_of(subs@) =~= Seq::new(ps.len(), |j: int| provider_menu_v(ps[j], app.active@)));
    push_entry(
        &mut menu,
        MenuEntry::Submenu {
            id: "models".to_string(),
            text: concat2("切换模型  ·  ", active_label.as_str()),
            enabled: true,
            items: subs,
        },
    );
    push_entry(&mut menu, MenuEntry::Separator);
    push_entry(&mut menu, item("hdr_setup", "常用", false));
    push_entry(&mut menu, item("settings", "设置…", true));
    push_entry(&mut menu, item("resync", "重新同步配置", true));
    push_entry(&mut menu, item("check_health", "检测连接", true));
    push_entry(&mut menu, item("request_logs", "请求日志…", true));
    push_entry(&mut menu, MenuEntry::Separator);
    push_entry(&mut menu, item("hdr_more", "更多", false));
    push_entry(&mut menu, item("open_helper", "打开配置文件夹", true));
    push_entry(&mut menu, item("open_codex", "打开 Codex 文件夹", true));
    push_entry(&mut menu, item("restore_openai", "切换回 OpenAI 官方", true));
    push_entry(&mut menu, item("kill_reset_codex", "重置 Codex 为默认设置", true));
    push_entry(&mut menu, MenuEntry::Separator);
    push_entry(&mut menu, item("quit", "退出 Codex Helper", true));
    assert(view_entries_of(menu@) =~= menu_v(app, health, key_configured));
    menu
}

// ---------------------------------------------------------------------------
// Menu clicks

/// What a click on a tray menu entry asks for.
pub enum MenuAction {
    Quit,
    OpenSettings,
    OpenLogs,
    OpenHelperDir,
    OpenCodexDir,
    Resync,
    CheckHealth,
    RestoreOpenai,
    KillResetCodex,
    /// Switch to a provider with its current model.
    UseProvider(String),
    /// Switch to a provider and one of its models.
    UseModel(String, String),
    /// The entry asks for nothing.
    Ignore,
}

/// The view of a menu action.
pub enum MenuActionV {
    Quit,
    OpenSettings,
    OpenLogs,
    OpenHelperDir,
    OpenCodexDir,
    Resync,
    CheckHealth,
    RestoreOpenai,
    KillResetCodex,
    UseProvider(Seq<char>),
    UseModel(Seq<char>, Seq<char>),
    Ignore,
}

impl View for MenuAction {
    type V = MenuActionV;

    open spec fn view(&self) -> MenuActionV {
        match self {
            MenuAction::Quit => MenuActionV::Quit,
            MenuAction::OpenSettings => MenuActionV::OpenSettings,
            MenuAction::OpenLogs => MenuActionV::OpenLogs,
            MenuAction::OpenHelperDir => MenuActionV::OpenHelperDir,
            MenuAction::OpenCodexDir => MenuActionV::OpenCodexDir,
            MenuAction::Resync => MenuActionV::Resync,
            MenuAction::CheckHealth => MenuActionV::CheckHealth,
            MenuAction::RestoreOpenai => MenuActionV::RestoreOpenai,
            MenuAction::KillResetCodex => MenuActionV::KillResetCodex,
            MenuAction::UseProvider(p) => MenuActionV::UseProvider(p@),
            MenuAction::UseModel(p, m) => MenuActionV::UseModel(p@, m@),
            MenuAction::Ignore => MenuActionV::Ignore,
        }
    }
}

/// The action of a `use:` entry: the text after `use:` split at its first
/// colon into provider and model; no model means the provider's current
/// one.
pub open spec fn use_action_v(rest: Seq<char>) -> MenuActionV {
    if crate::text::contains_seq(rest, ":"@) {
        let k = choose|k: int| first_occurrence(rest, ":"@, k);
        let model = rest.skip(k + 1);
        if model.len() == 0 {
            MenuActionV::UseProvider(rest.take(k))
        } else {
            MenuActionV::UseModel(rest.take(k), model)
        }
    } else {
        MenuActionV::UseProvider(rest)
    }
}

/// The action of a menu entry id.
pub open spec fn menu_action_v(id: Seq<char>) -> MenuActionV {
    if id == "quit"@ {
        MenuActionV::Quit
    } else if id == "settings"@ {
        MenuActionV::OpenSettings
    } else if id == "request_logs"@ {
        MenuActionV::OpenLogs
    } else if id == "open_helper"@ {
        MenuActionV::OpenHelperDir
    } else if id == "open_codex"@ {
        MenuActionV::OpenCodexDir
    } else if id == "resync"@ {
        MenuActionV::Resync
    } else if id == "check_health"@ {
        MenuActionV::CheckHealth
    } else if id == "restore_openai"@ {
        MenuActionV::RestoreOpenai
    } else if id == "kill_reset_codex"@ {
        MenuActionV::KillResetCodex
    } else if crate::text::starts_with_seq(id, "use:"@) {
        use_action_v(id.skip(4))
    } else {
        MenuActionV::Ignore
    }
}

/// Decides what a click on the entry `id` asks for.
pub fn menu_action(id: &str) -> (r: MenuAction)
    ensures
        r@ == menu_action_v(id@),
{
    if str_eq(id, "quit") {
        return MenuAction::Quit;
    }
    if str_eq(id, "settings") {
        return MenuAction::OpenSettings;
    }
    if str_eq(id, "request_logs") {
        return MenuAction::OpenLogs;
    }
    if str_eq(id, "open_helper") {
        return MenuAction::OpenHelperDir;
    }
    if str_eq(id, "open_codex") {
        return MenuAction::OpenCodexDir;
    }
    if str_eq(id, "resync") {
        return MenuAction::Resync;
    }
    if str_eq(id, "check_health") {
        return MenuAction::CheckHealth;
    }
    if str_eq(id, "restore_openai") {
        return MenuAction::RestoreOpenai;
    }
    if str_eq(id, "kill_reset_codex") {
        return MenuAction::KillResetCodex;
    }
    if !starts_with(id, "use:") {
        return MenuAction::Ignore;
    }
    proof {
        reveal_strlit("use:");
        reveal_strlit(":");
    }
    let v = chars_of(id);
    let rest = string_of_range(&v, 4, v.len());
    assert(rest@ =~= id@.skip(4));
    match find(rest.as_str(), ":") {
        Some(k) => {
            proof {
                let c = choose|c: int| first_occurrence(rest@, ":"@, c);
                assert(first_occurrence(rest@, ":"@, k as int));
                if c < k {
                    assert(!crate::text::occurs_at(rest@, ":"@, c));
                }
                if k < c {
                    assert(!crate::text::occurs_at(rest@, ":"@, k as int));
                }
            }
            let rc = chars_of(rest.as_str());
            let provider = string_of_range(&rc, 0, k);
            let model = string_of_range(&rc, k + 1, rc.len());
            assert(provider@ =~= rest@.take(k as int));
            assert(model@ =~= rest@.skip(k + 1));
            if model.as_str().is_empty() {
                MenuAction::UseProvider(provider)
            } else {
                MenuAction::UseModel(provider, model)
            }
        },
        None => MenuAction::UseProvider(rest),
    }
}

// ---------------------------------------------------------------------------
// Switching the active provider and model

/// Why a switch failed.
pub enum SwitchError {
    /// No provider with this id.
    UnknownProvider(String),
    /// The provider has no such model.
    Model(ModelsError),
}

/// Makes `provider_id` active with its model `model_slug`. The provider
/// becomes active even when it has no such model; then its model stays.
pub fn switch_provider_model(app: &mut AppConfig, provider_id: &str, model_slug: &str) -> (r: Result<(), SwitchError>)
    requires
        old(app).wf(),
    ensures
        final(app).wf(),
        final(app).proxy == old(app).proxy,
        !old(app).provider_map().contains_key(provider_id@) ==> (r matches Err(
            SwitchError::UnknownProvider(id),
        ) && id@ == provider_id@ && final(app).provider_map() == old(app).provider_map()
            && final(app).active == old(app).active),
        old(app).provider_map().contains_key(provider_id@) ==> {
            let p = old(app).provider_map()[provider_id@];
            &&& final(app).active@ == provider_id@
            &&& match first_with_slug(models_for_provider_v(p), model_slug@) {
                Some(m) => r is Ok && final(app).provider_map() == old(app).provider_map().insert(
                    provider_id@,
                    apply_model_v(p, m),
                ),
                None => (r matches Err(SwitchError::Model(e)) && e@ == ModelsErrorV::UnknownModel(
                    model_slug@,
                ) && final(app).provider_map() == old(app).provider_map()),
            }
        },
{
    let known = app.has_provider(provider_id);
    if !known {
        return Err(SwitchError::UnknownProvider(provider_id.to_string()));
    }
    app.active = provider_id.to_string();
    let ghost m0 = app.provider_map();
    let removed = app.remove_provider(provider_id);
    let mut p = match removed {
        Some(p) => p,
        None => {
            return Err(SwitchError::UnknownProvider(provider_id.to_string()));
        },
    };
    let ghost pv0 = p@;
    let r = apply_model_variant(&mut p, model_slug);
    proof {
        assert(p@.id == pv0.id);
    }
    app.insert_provider(p);
    proof {
        assert(m0.remove(provider_id@).insert(provider_id@, pv0) =~= m0);
    }
    match r {
        Ok(()) => Ok(()),
        Err(e) => Err(SwitchError::Model(e)),
    }
}

/// Makes `provider_id` active with the model it has selected.
pub fn switch_provider(app: &mut AppConfig, provider_id: &str) -> (r: Result<(), SwitchError>)
    requires
        old(app).wf(),
    ensures
        final(app).wf(),
        !old(app).provider_map().contains_key(provider_id@) ==> r is Err
            && final(app).provider_map() == old(app).provider_map(),
        old(app).provider_map().contains_key(provider_id@) ==> final(app).active@ == provider_id@,
{
    let slug = match get_preset(app, provider_id) {
        Ok(p) => p.default_model.clone(),
        Err(ConfigError::UnknownProvider(id)) => {
            return Err(SwitchError::UnknownProvider(id));
        },
    };
    switch_provider_model(app, provider_id, slug.as_str())
}

/// Law: a successful switch leaves the chosen provider active with the
/// chosen model as its default model, and every other provider unchanged.
pub proof fn lemma_switch_selects_model(
    before: Map<Seq<char>, ProviderV>,
    after: Map<Seq<char>, ProviderV>,
    provider_id: Seq<char>,
    m: crate::models::ModelV,
    other: Seq<char>,
)
    requires
        before.contains_key(provider_id),
        after == before.insert(provider_id, apply_model_v(before[provider_id], m)),
    ensures
        after[provider_id].default_model == m.slug,
        other != provider_id ==> after.contains_key(other) == before.contains_key(other) && (
        before.contains_key(other) ==> after[other] == before[other]),
{
}


// ---------------------------------------------------------------------------
// Checking the active provider's connection

/// What a connection check does next.
pub enum HealthPlan {
    /// Nothing to test: record this state.
    Report(ProviderHealth),
    /// Send a test request to the active provider with its key.
    TestKey,
}

/// The plan records a failed (or, with `skipped`, a skipped) check of
/// provider `id` with message `msg`.
pub open spec fn reports_v(r: HealthPlan, id: Seq<char>, skipped: bool, msg: Seq<char>) -> bool {
    match r {
        HealthPlan::Report(h) => h.provider_id@ == id && match h.connection {
            ConnectionStatus::Failed(m) => !skipped && m@ == msg,
            ConnectionStatus::Skipped(m) => skipped && m@ == msg,
            _ => false,
        },
        HealthPlan::TestKey => false,
    }
}

/// Decides a connection check of the active provider; `key_found` says
/// whether its API key can be found.
pub fn health_check_plan(app: &AppConfig, key_found: bool) -> (r: HealthPlan)
    requires
        app.wf(),
    ensures
        !app.provider_map().contains_key(app.active@) ==> reports_v(
            r,
            app.active@,
            false,
            config_error_text_v(ConfigError::UnknownProvider(app.active)),
        ),
        app.provider_map().contains_key(app.active@) && !key_found ==> reports_v(
            r,
            app.active@,
            true,
            "需先配置 Key"@,
        ),
        app.provider_map().contains_key(app.active@) && key_found && app.active@ == "custom"@
            && is_blank(app.provider_map()[app.active@].base_url) ==> reports_v(
            r,
            app.active@,
            true,
            "需填写 Base URL"@,
        ),
        app.provider_map().contains_key(app.active@) && key_found && !(app.active@ == "custom"@
            && is_blank(app.provider_map()[app.active@].base_url)) ==> r is TestKey,
{
    let p = match app.active_provider() {
        Ok(p) => p,
        Err(e) => {
            let m = e.message();
            return HealthPlan::Report(
                ProviderHealth { provider_id: app.active.clone(), connection: ConnectionStatus::Failed(m) },
            );
        },
    };
    proof {
        crate::config::lemma_provider_map_key_id(crate::config::providers_view(app.providers@), app.active@);
    }
    if !key_found {
        return HealthPlan::Report(
            ProviderHealth {
                provider_id: p.id.clone(),
                connection: ConnectionStatus::Skipped("需先配置 Key".to_string()),
            },
        );
    }
    if str_eq(p.id.as_str(), "custom") && blank(p.base_url.as_str()) {
        return HealthPlan::Report(
            ProviderHealth {
                provider_id: p.id.clone(),
                connection: ConnectionStatus::Skipped("需填写 Base URL".to_string()),
            },
        );
    }
    HealthPlan::TestKey
}

/// The state a connection check leaves: connected, or failed with the
/// reason the test gave.
pub fn health_after_test(provider_id: &str, result: Result<(), String>) -> (r: ProviderHealth)
    ensures
        r.provider_id@ == provider_id@,
        match result {
            Ok(()) => r.connection is Connected,
            Err(m) => r.connection == ConnectionStatus::Failed(m),
        },
{
    let connection = match result {
        Ok(()) => ConnectionStatus::Connected,
        Err(m) => ConnectionStatus::Failed(m),
    };
    ProviderHealth { provider_id: provider_id.to_string(), connection }
}

// ---------------------------------------------------------------------------
// The tray's event loop

/// What wakes the tray's event loop. Windows are known by an id that the
/// windowing layer hands out.
#[derive(Clone, Copy, Debug, PartialEq, Eq, Structural)]
pub enum TrayEvent {
    /// The loop has just started.
    Started,
    RefreshUi,
    CheckHealth,
    OpenSettings,
    OpenLogs,
    /// The user asked to close a window.
    CloseRequested(u64),
}

/// What the loop does for an event.
#[derive(Clone, Copy, Debug, PartialEq, Eq, Structural)]
pub enum TrayAction {
    /// Post a `CheckHealth` event to itself.
    PostCheckHealth,
    /// Redraw the tooltip and menu.
    RefreshUi,
    /// Run a connection check in the background.
    StartHealthCheck,
    /// Open the settings window, then record it with `settings_opened`.
    OpenSettings,
    FocusSettings,
    /// Open the request-log window, then record it with `logs_opened`.
    OpenLogs,
    FocusLogs,
    /// Close the settings window (it is no longer recorded).
    CloseSettings,
    /// Close the request-log window (it is no longer recorded).
    CloseLogs,
    Ignore,
}

/// The tray's own windows that are open: settings and the request log.
#[derive(Clone, Copy, Debug, PartialEq, Eq, Structural)]
pub struct TrayWindows {
    pub settings: Option<u64>,
    pub logs: Option<u64>,
}

/// The action for `event` with `windows` open: a window that is open is
/// focused rather than opened again; a close request closes the settings
/// window if it is that one, else the request-log window if it is that one.
pub open spec fn tray_action_v(windows: TrayWindows, event: TrayEvent) -> TrayAction {
    match event {
        TrayEvent::Started => TrayAction::PostCheckHealth,
        TrayEvent::RefreshUi => TrayAction::RefreshUi,
        TrayEvent::CheckHealth => TrayAction::StartHealthCheck,
        TrayEvent::OpenSettings => if windows.settings is Some {
            TrayAction::FocusSettings
        } else {
            TrayAction::OpenSettings
        },
        TrayEvent::OpenLogs => if windows.logs is Some {
            TrayAction::FocusLogs
        } else {
            TrayAction::OpenLogs
        },
        TrayEvent::CloseRequested(w) => if windows.settings == Some(w) {
            TrayAction::CloseSettings
        } else if windows.logs == Some(w) {
            TrayAction::CloseLogs
        } else {
            TrayAction::Ignore
        },
    }
}

/// The windows recorded after `action`: a closed window is forgotten.
pub open spec fn windows_after_v(windows: TrayWindows, action: TrayAction) -> TrayWindows {
    match action {
        TrayAction::CloseSettings => TrayWindows { settings: None, ..windows },
        TrayAction::CloseLogs => TrayWindows { logs: None, ..windows },
        _ => windows,
    }
}

impl TrayWindows {
    /// No window open.
    pub fn none() -> (r: TrayWindows)
        ensures
            r.settings is None,
            r.logs is None,
    {
        TrayWindows { settings: None, logs: None }
    }

    /// Decides what the loop does for `event` and forgets a window it closes.
    pub fn step(&mut self, event: TrayEvent) -> (r: TrayAction)
        ensures
            r == tray_action_v(*old(self), event),
            *final(self) == windows_after_v(*old(self), r),
    {
        let action = match event {
            TrayEvent::Started => TrayAction::PostCheckHealth,
            TrayEvent::RefreshUi => TrayAction::RefreshUi,
            TrayEvent::CheckHealth => TrayAction::StartHealthCheck,
            TrayEvent::OpenSettings => if self.settings.is_some() {
                TrayAction::FocusSettings
            } else {
                TrayAction::OpenSettings
            },
            TrayEvent::OpenLogs => if self.logs.is_some() {
                TrayAction::FocusLogs
            } else {
                TrayAction::OpenLogs
            },
            TrayEvent::CloseRequested(w) => {
                let is_settings = match self.settings {
                    Some(s) => s == w,
                    None => false,
                };
                let is_logs = match self.logs {
                    Some(l) => l == w,
                    None => false,
                };
                if is_settings {
                    TrayAction::CloseSettings
                } else if is_logs {
                    TrayAction::CloseLogs
                } else {
                    TrayAction::Ignore
                }
            },
        };
        match action {
            TrayAction::CloseSettings => {
                self.settings = None;
            },
            TrayAction::CloseLogs => {
                self.logs = None;
            },
            _ => {},
        }
        action
    }

    /// Records the settings window that was just opened.
    pub fn settings_opened(&mut self, window: u64)
        ensures
            final(self).settings == Some(window),
            final(self).logs == old(self).logs,
    {
        self.settings = Some(window);
    }

    /// Records the request-log window that was just opened.
    pub fn logs_opened(&mut self, window: u64)
        ensures
            final(self).logs == Some(window),
            final(self).settings == old(self).settings,
    {
        self.logs = Some(window);
    }
}

/// A window is never opened twice: an open request for a window that is
/// open focuses it, whatever else is open.
pub proof fn lemma_open_window_is_focused(windows: TrayWindows)
    ensures
        windows.settings is Some ==> tray_action_v(windows, TrayEvent::OpenSettings)
            == TrayAction::FocusSettings,
        windows.logs is Some ==> tray_action_v(windows, TrayEvent::OpenLogs) == TrayAction::FocusLogs,
{
}

} // verus!
