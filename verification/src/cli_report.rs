//! What the command line prints: the diagnosis of `doctor` (one line per
//! check from the facts gathered about the machine, and whether everything
//! is in order), the state shown by `status`, and the preset list.
use vstd::prelude::*;

use crate::codex_setup::{normalize_proxy_url, normalize_proxy_url_v};
use crate::config::{
    config_error_text_v, proxy_base_url_v, AppConfig, ConfigError, ProviderConfig, DEFAULT_PORT,
};
use crate::settings_api::{key_preview_defined, key_preview_v, mask_key_preview};
use crate::text::{concat2, concat3, decimal_seq, str_eq, u64_decimal, views};

verus! {

/// The system the helper runs on, as far as the checks differ.
#[derive(PartialEq, Eq, Structural, Clone, Copy)]
pub enum Platform {
    Windows,
    MacOs,
    Other,
}

/// What was found out about the machine before the diagnosis.
pub struct DoctorFacts {
    pub helper_dir_exists: bool,
    pub codex_config_exists: bool,
    /// The DeepSeek key, else the OpenAI key, when one is set.
    pub api_key: Option<String>,
    pub platform: Platform,
    /// `OPENAI_API_KEY` is set for the Windows user.
    pub windows_env_set: bool,
    /// `~/.codex/.env` exists.
    pub dotenv_exists: bool,
    /// Codex is set up to use the helper.
    pub uses_helper: bool,
    /// The base URL of Codex's custom provider, when it can be read.
    pub custom_base_url: Option<String>,
    /// How many `[model_providers.custom]` sections the config file has,
    /// when it can be read.
    pub custom_sections: Option<usize>,
    /// Whether `js_repl` is on in Codex's config, when it can be read.
    pub js_repl: Option<bool>,
    pub node_repl_configured: bool,
    /// The active provider's key is set.
    pub active_key_found: bool,
    /// The local proxy answers its health check.
    pub proxy_running: bool,
}

/// The diagnosis: its lines, and whether every check passed.
pub struct DoctorReport {
    pub lines: Vec<String>,
    pub ok: bool,
}

/// The lines of one check, and whether it passed.
pub struct CheckV {
    pub lines: Seq<Seq<char>>,
    pub ok: bool,
}

pub open spec fn check_v(pass: bool, good: Seq<Seq<char>>, bad: Seq<Seq<char>>) -> CheckV {
    if pass {
        CheckV { lines: good, ok: true }
    } else {
        CheckV { lines: bad, ok: false }
    }
}

/// A check that prints nothing and passes.
pub open spec fn silent_v() -> CheckV {
    CheckV { lines: Seq::empty(), ok: true }
}

/// The checks of the helper's and Codex's files and keys.
pub open spec fn file_checks_v(f: &DoctorFacts) -> Seq<CheckV> {
    seq![
        check_v(f.helper_dir_exists, seq!["✅ 配置目录存在"@], seq!["⚠️  配置目录不存在，运行 codex-helper init"@]),
        check_v(
            f.codex_config_exists,
            seq!["✅ Codex 配置文件存在"@],
            seq!["⚠️  Codex 配置文件不存在，运行 codex-helper init"@],
        ),
        match f.api_key {
            Some(k) => check_v(true, seq!["✅ API Key 已配置 ("@ + key_preview_v(k@) + ")"@], Seq::empty()),
            None => check_v(false, Seq::empty(), seq!["❌ API Key 未配置，请右键托盘 → 🔑 设置 API Key"@]),
        },
        if f.platform == Platform::Windows {
            check_v(
                f.windows_env_set,
                seq!["✅ Windows 用户环境变量 OPENAI_API_KEY 已设置（Desktop 需要）"@],
                seq!["⚠️  Windows 用户环境变量 OPENAI_API_KEY 未设置，请运行 codex-helper init 后重启 Codex"@],
            )
        } else {
            silent_v()
        },
        if f.platform == Platform::MacOs {
            check_v(
                f.dotenv_exists,
                seq!["✅ ~/.codex/.env 已生成（Codex Desktop 从此读取 API Key）"@],
                seq!["⚠️  ~/.codex/.env 不存在，请在设置中保存 API Key"@],
            )
        } else if f.dotenv_exists {
            check_v(true, seq!["✅ ~/.codex/.env 已生成"@], Seq::empty())
        } else {
            silent_v()
        },
        check_v(
            f.uses_helper,
            seq!["✅ Codex 已指向 Codex Helper 代理"@],
            seq!["⚠️  Codex 尚未指向本地代理"@],
        ),
    ]
}

/// The checks of Codex's config against the helper's settings.
pub open spec fn config_checks_v(f: &DoctorFacts, app: &AppConfig) -> Seq<CheckV> {
    let expected = proxy_base_url_v(app.proxy.host@, app.proxy.port);
    seq![
        if f.uses_helper {
            match f.custom_base_url {
                Some(url) => check_v(
                    normalize_proxy_url_v(url@) == normalize_proxy_url_v(expected),
                    seq!["✅ Codex config.toml 代理地址与 config.json 一致 ("@ + url@ + ")"@],
                    seq![
                        "❌ Codex config.toml 代理地址不一致: "@ + url@ + " ≠ "@ + expected,
                        "   期望端口 "@ + decimal_seq(DEFAULT_PORT as nat)
                            + "，请托盘「重新同步配置」后完全退出并重启 Codex Desktop"@,
                    ],
                ),
                None => check_v(
                    false,
                    Seq::empty(),
                    seq![
                        "❌ 无法读取 config.toml 中的 [model_providers.custom].base_url"@,
                        "   运行 codex-helper init 修复"@,
                    ],
                ),
            }
        } else {
            silent_v()
        },
        if f.uses_helper {
            match f.custom_sections {
                Some(n) => check_v(
                    n <= 1,
                    Seq::empty(),
                    seq![
                        "⚠️  config.toml 中有 "@ + decimal_seq(n as nat)
                            + " 个 [model_providers.custom] 块（可能有残留）"@,
                        "   运行 codex-helper init 或托盘「重新同步 Codex 配置」清理"@,
                    ],
                ),
                None => silent_v(),
            }
        } else {
            silent_v()
        },
        match f.js_repl {
            Some(on) => check_v(
                on,
                seq!["✅ Codex config.toml 已启用 js_repl（Computer Use / Browser Use 需要）"@],
                seq![
                    "⚠️  Codex config.toml 中 js_repl = false，Computer Use 会报 Node REPL 不可用"@,
                    "   托盘 → 重新同步配置，然后完全退出并重启 Codex Desktop"@,
                ],
            ),
            None => silent_v(),
        },
        check_v(
            f.node_repl_configured,
            seq!["✅ Codex 已配置 mcp_servers.node_repl"@],
            seq![
                "⚠️  Codex 未配置 mcp_servers.node_repl（Computer Use 依赖 node_repl MCP）"@,
                "   在 Codex 设置里安装 Computer Use 插件后重启 Desktop，或重新同步配置"@,
            ],
        ),
    ]
}

/// The checks of the active provider's key and the running proxy.
pub open spec fn runtime_checks_v(f: &DoctorFacts, app: &AppConfig) -> Seq<CheckV> {
    let p = app.provider_map()[app.active@];
    seq![
        check_v(
            f.active_key_found,
            seq!["✅ 当前模型 Key 已配置 ("@ + p.api_key_env + ")"@],
            seq!["❌ 当前模型 Key 未配置，请右键托盘 → 🔑 设置 API Key"@],
        ),
        check_v(
            f.proxy_running,
            seq!["✅ 本地代理正在运行"@],
            seq![
                "⚠️  本地代理未运行，运行: codex-helper start"@,
                "   默认代理地址: http://"@ + app.proxy.host@ + ":"@ + decimal_seq(DEFAULT_PORT as nat)
                    + "/v1 （健康检查 /health）"@,
            ],
        ),
    ]
}

/// The lines of several checks, in order.
pub open spec fn lines_of_v(cs: Seq<CheckV>) -> Seq<Seq<char>>
    decreases cs.len(),
{
    if cs.len() == 0 {
        Seq::empty()
    } else {
        lines_of_v(cs.drop_last()) + cs.last().lines
    }
}

/// Whether several checks all passed.
pub open spec fn all_ok_v(cs: Seq<CheckV>) -> bool {
    forall|i: int| 0 <= i < cs.len() ==> (#[trigger] cs[i]).ok
}

/// The header of the diagnosis.
pub open spec fn header_v() -> Seq<Seq<char>> {
    seq!["Codex Helper 诊断"@, "──────────────────────────────"@]
}

/// The closing lines: a blank line and the verdict.
pub open spec fn verdict_v(ok: bool) -> Seq<Seq<char>> {
    if ok {
        seq![""@, "一切正常，可以运行 codex 了。"@]
    } else {
        seq![""@, "发现一些问题，请按上方提示修复。"@]
    }
}

/// Every check of the diagnosis, in the order they are printed.
pub open spec fn all_checks_v(f: &DoctorFacts, app: &AppConfig) -> Seq<CheckV> {
    file_checks_v(f) + config_checks_v(f, app) + runtime_checks_v(f, app)
}

fn push_check(lines: &mut Vec<String>, ok: &mut bool, pass: bool, good: Vec<String>, bad: Vec<String>)
    ensures
        views(final(lines)@) == views(old(lines)@) + check_v(pass, views(good@), views(bad@)).lines,
        *final(ok) == (*old(ok) && check_v(pass, views(good@), views(bad@)).ok),
{
    let chosen = if pass {
        good
    } else {
        bad
    };
    let ghost before = lines@;
    let mut i: usize = 0;
    while i < chosen.len()
        invariant
            i <= chosen.len(),
            views(lines@) == views(before) + views(chosen@.take(i as int)),
        decreases chosen.len() - i,
    {
        let ghost prev = lines@;
        lines.push(chosen[i].clone());
        assert(views(lines@) =~= views(prev).push(chosen@[i as int]@));
        assert(views(chosen@.take(i + 1)) =~= views(chosen@.take(i as int)).push(chosen@[i as int]@));
        i = i + 1;
        assert(views(lines@) =~= views(before) + views(chosen@.take(i as int)));
    }
    assert(chosen@.take(chosen.len() as int) =~= chosen@);
    if !pass {
        *ok = false;
    }
}

fn one(s: String) -> (r: Vec<String>)
    ensures
        views(r@) == seq![s@],
{
    let mut v: Vec<String> = Vec::new();
    v.push(s);
    assert(views(v@) =~= seq![s@]);
    v
}

fn two(a: String, b: String) -> (r: Vec<String>)
    ensures
        views(r@) == seq![a@, b@],
{
    let mut v: Vec<String> = Vec::new();
    v.push(a);
    v.push(b);
    assert(views(v@) =~= seq![a@, b@]);
    v
}

fn none() -> (r: Vec<String>)
    ensures
        views(r@) == Seq::<Seq<char>>::empty(),
{
    let v: Vec<String> = Vec::new();
    assert(views(v@) =~= Seq::<Seq<char>>::empty());
    v
}

proof fn lemma_lines_of_push(cs: Seq<CheckV>, c: CheckV)
    ensures
        lines_of_v(cs.push(c)) == lines_of_v(cs) + c.lines,
        all_ok_v(cs.push(c)) == (all_ok_v(cs) && c.ok),
{
    assert(cs.push(c).drop_last() =~= cs);
    if all_ok_v(cs) && c.ok {
        assert forall|i: int| 0 <= i < cs.push(c).len() implies (#[trigger] cs.push(c)[i]).ok by {
            if i < cs.len() {
                assert(cs.push(c)[i] == cs[i]);
            }
        }
    }
    if all_ok_v(cs.push(c)) {
        assert(cs.push(c)[cs.len() as int] == c);
        assert forall|i: int| 0 <= i < cs.len() implies (#[trigger] cs[i]).ok by {
            assert(cs.push(c)[i] == cs[i]);
        }
    }
}

proof fn lemma_lines_of_concat(a: Seq<CheckV>, b: Seq<CheckV>)
    ensures
        lines_of_v(a + b) == lines_of_v(a) + lines_of_v(b),
        all_ok_v(a + b) == (all_ok_v(a) && all_ok_v(b)),
    decreases b.len(),
{
    if b.len() == 0 {
        assert(a + b =~= a);
        assert(lines_of_v(a) + lines_of_v(b) =~= lines_of_v(a));
    } else {
        lemma_lines_of_concat(a, b.drop_last());
        assert((a + b).drop_last() =~= a + b.drop_last());
        assert((a + b).last() == b.last());
        lemma_lines_of_push(a + b.drop_last(), b.last());
        lemma_lines_of_push(b.drop_last(), b.last());
        assert(b.drop_last().push(b.last()) =~= b);
        assert((a + b.drop_last()).push(b.last()) =~= a + b);
    }
}

#[verifier::rlimit(80)]
fn file_checks(f: &DoctorFacts, lines: &mut Vec<String>, ok: &mut bool)
    requires
        f.api_key matches Some(k) ==> key_preview_defined(k@),
    ensures
        views(final(lines)@) == views(old(lines)@) + lines_of_v(file_checks_v(f)),
        *final(ok) == (*old(ok) && all_ok_v(file_checks_v(f))),
{
    let ghost start = views(lines@);
    let ghost ok0 = *ok;
    let ghost mut cs: Seq<CheckV> = Seq::empty();
    assert(views(lines@) == start + lines_of_v(cs));
    let ghost c = check_v(f.helper_dir_exists, seq!["✅ 配置目录存在"@], seq!["⚠️  配置目录不存在，运行 codex-helper init"@]);
    push_check(
        lines,
        ok,
        f.helper_dir_exists,
        one("✅ 配置目录存在".to_string()),
        one("⚠️  配置目录不存在，运行 codex-helper init".to_string()),
    );
    proof {
        lemma_lines_of_push(cs, c);
        cs = cs.push(c);
    }
    let ghost c = check_v(
        f.codex_config_exists,
        seq!["✅ Codex 配置文件存在"@],
        seq!["⚠️  Codex 配置文件不存在，运行 codex-helper init"@],
    );
    push_check(
        lines,
        ok,
        f.codex_config_exists,
        one("✅ Codex 配置文件存在".to_string()),
        one("⚠️  Codex 配置文件不存在，运行 codex-helper init".to_string()),
    );
    proof {
        lemma_lines_of_push(cs, c);
        cs = cs.push(c);
    }
    let ghost c = file_checks_v(f)[2];
    match &f.api_key {
        Some(k) => {
            let preview = mask_key_preview(k.as_str());
            push_check(
                lines,
                ok,
                true,
                one(concat3("✅ API Key 已配置 (", preview.as_str(), ")")),
                none(),
            );
        },
        None => {
            push_check(
                lines,
                ok,
                false,
                none(),
                one("❌ API Key 未配置，请右键托盘 → 🔑 设置 API Key".to_string()),
            );
        },
    }
    proof {
        lemma_lines_of_push(cs, c);
        cs = cs.push(c);
    }
    let ghost c = file_checks_v(f)[3];
    if f.platform == Platform::Windows {
        push_check(
            lines,
            ok,
            f.windows_env_set,
            one("✅ Windows 用户环境变量 OPENAI_API_KEY 已设置（Desktop 需要）".to_string()),
            one("⚠️  Windows 用户环境变量 OPENAI_API_KEY 未设置，请运行 codex-helper init 后重启 Codex".to_string()),
        );
    } else {
        push_check(lines, ok, true, none(), none());
    }
    proof {
        lemma_lines_of_push(cs, c);
        cs = cs.push(c);
    }
    let ghost c = file_checks_v(f)[4];
    if f.platform == Platform::MacOs {
        push_check(
            lines,
            ok,
            f.dotenv_exists,
            one("✅ ~/.codex/.env 已生成（Codex Desktop 从此读取 API Key）".to_string()),
            one("⚠️  ~/.codex/.env 不存在，请在设置中保存 API Key".to_string()),
        );
    } else if f.dotenv_exists {
        push_check(lines, ok, true, one("✅ ~/.codex/.env 已生成".to_string()), none());
    } else {
        push_check(lines, ok, true, none(), none());
    }
    proof {
        lemma_lines_of_push(cs, c);
        cs = cs.push(c);
    }
    let ghost c = file_checks_v(f)[5];
    push_check(
        lines,
        ok,
        f.uses_helper,
        one("✅ Codex 已指向 Codex Helper 代理".to_string()),
        one("⚠️  Codex 尚未指向本地代理".to_string()),
    );
    proof {
        lemma_lines_of_push(cs, c);
        cs = cs.push(c);
        assert(cs =~= file_checks_v(f));
        assert(views(lines@) =~= start + lines_of_v(cs));
    }
}

#[verifier::rlimit(80)]
fn config_checks(f: &DoctorFacts, app: &AppConfig, lines: &mut Vec<String>, ok: &mut bool)
    ensures
        views(final(lines)@) == views(old(lines)@) + lines_of_v(config_checks_v(f, app)),
        *final(ok) == (*old(ok) && all_ok_v(config_checks_v(f, app))),
{
    let ghost start = views(lines@);
    let ghost ok0 = *ok;
    let ghost mut cs: Seq<CheckV> = Seq::empty();
    assert(views(lines@) == start + lines_of_v(cs));
    let expected = app.proxy_base_url();
    let ghost c = config_checks_v(f, app)[0];
    if f.uses_helper {
        match &f.custom_base_url {
            Some(url) => {
                let a = normalize_proxy_url(url.as_str());
                let b = normalize_proxy_url(expected.as_str());
                let port = u64_decimal(DEFAULT_PORT as u64);
                let mut bad1 = concat3("❌ Codex config.toml 代理地址不一致: ", url.as_str(), " ≠ ");
                crate::text::push_str(&mut bad1, expected.as_str());
                let bad2 = concat3(
                    "   期望端口 ",
                    port.as_str(),
                    "，请托盘「重新同步配置」后完全退出并重启 Codex Desktop",
                );
                push_check(
                    lines,
                    ok,
                    str_eq(a.as_str(), b.as_str()),
                    one(concat3("✅ Codex config.toml 代理地址与 config.json 一致 (", url.as_str(), ")")),
                    two(bad1, bad2),
                );
            },
            None => {
                push_check(
                    lines,
                    ok,
                    false,
                    none(),
                    two(
                        "❌ 无法读取 config.toml 中的 [model_providers.custom].base_url".to_string(),
                        "   运行 codex-helper init 修复".to_string(),
                    ),
                );
            },
        }
    } else {
        push_check(lines, ok, true, none(), none());
    }
    proof {
        lemma_lines_of_push(cs, c);
        cs = cs.push(c);
    }
    let ghost c = config_checks_v(f, app)[1];
    match (f.uses_helper, f.custom_sections) {
        (true, Some(n)) => {
            let count = u64_decimal(n as u64);
            push_check(
                lines,
                ok,
                n <= 1,
                none(),
                two(
                    concat3("⚠️  config.toml 中有 ", count.as_str(), " 个 [model_providers.custom] 块（可能有残留）"),
                    "   运行 codex-helper init 或托盘「重新同步 Codex 配置」清理".to_string(),
                ),
            );
        },
        _ => {
            push_check(lines, ok, true, none(), none());
        },
    }
    proof {
        lemma_lines_of_push(cs, c);
        cs = cs.push(c);
    }
    let ghost c = config_checks_v(f, app)[2];
    match f.js_repl {
        Some(on) => {
            push_check(
                lines,
                ok,
                on,
                one("✅ Codex config.toml 已启用 js_repl（Computer Use / Browser Use 需要）".to_string()),
                two(
                    "⚠️  Codex config.toml 中 js_repl = false，Computer Use 会报 Node REPL 不可用".to_string(),
                    "   托盘 → 重新同步配置，然后完全退出并重启 Codex Desktop".to_string(),
                ),
            );
        },
        None => {
            push_check(lines, ok, true, none(), none());
        },
    }
    proof {
        lemma_lines_of_push(cs, c);
        cs = cs.push(c);
    }
    let ghost c = config_checks_v(f, app)[3];
    push_check(
        lines,
        ok,
        f.node_repl_configured,
        one("✅ Codex 已配置 mcp_servers.node_repl".to_string()),
        two(
            "⚠️  Codex 未配置 mcp_servers.node_repl（Computer Use 依赖 node_repl MCP）".to_string(),
            "   在 Codex 设置里安装 Computer Use 插件后重启 Desktop，或重新同步配置".to_string(),
        ),
    );
    proof {
        lemma_lines_of_push(cs, c);
        cs = cs.push(c);
        assert(cs =~= config_checks_v(f, app));
        assert(views(lines@) =~= start + lines_of_v(cs));
    }
}

fn runtime_checks(f: &DoctorFacts, app: &AppConfig, p: &ProviderConfig, lines: &mut Vec<String>, ok: &mut bool)
    requires
        app.provider_map().contains_key(app.active@),
        p@ == app.provider_map()[app.active@],
    ensures
        views(final(lines)@) == views(old(lines)@) + lines_of_v(runtime_checks_v(f, app)),
        *final(ok) == (*old(ok) && all_ok_v(runtime_checks_v(f, app))),
{
    let ghost start = views(lines@);
    let ghost ok0 = *ok;
    let ghost mut cs: Seq<CheckV> = Seq::empty();
    assert(views(lines@) == start + lines_of_v(cs));
    let ghost c = runtime_checks_v(f, app)[0];
    push_check(
        lines,
        ok,
        f.active_key_found,
        one(concat3("✅ 当前模型 Key 已配置 (", p.api_key_env.as_str(), ")")),
        one("❌ 当前模型 Key 未配置，请右键托盘 → 🔑 设置 API Key".to_string()),
    );
    proof {
        lemma_lines_of_push(cs, c);
        cs = cs.push(c);
    }
    let ghost c = runtime_checks_v(f, app)[1];
    let port = u64_decimal(DEFAULT_PORT as u64);
    let mut hint = concat3("   默认代理地址: http://", app.proxy.host.as_str(), ":");
    crate::text::push_str(&mut hint, port.as_str());
    crate::text::push_str(&mut hint, "/v1 （健康检查 /health）");
    push_check(
        lines,
        ok,
        f.proxy_running,
        one("✅ 本地代理正在运行".to_string()),
        two("⚠️  本地代理未运行，运行: codex-helper start".to_string(), hint),
    );
    proof {
        lemma_lines_of_push(cs, c);
        cs = cs.push(c);
        assert(cs =~= runtime_checks_v(f, app));
        assert(views(lines@) =~= start + lines_of_v(cs));
    }
}

/// The diagnosis from the facts. It stops with the settings error when the
/// active provider is unknown, giving the lines printed until then.
pub fn doctor_report(f: &DoctorFacts, app: &AppConfig) -> (r: Result<DoctorReport, (Vec<String>, ConfigError)>)
    requires
        app.wf(),
        f.api_key matches Some(k) ==> key_preview_defined(k@),
    ensures
        match r {
            Ok(rep) => app.provider_map().contains_key(app.active@) && views(rep.lines@) == header_v()
                + lines_of_v(all_checks_v(f, app)) + verdict_v(all_ok_v(all_checks_v(f, app)))
                && rep.ok == all_ok_v(all_checks_v(f, app)),
            Err((lines, e)) => !app.provider_map().contains_key(app.active@) && (e matches ConfigError::UnknownProvider(
                id,
            ) && id@ == app.active@) && views(lines@) == header_v() + lines_of_v(
                file_checks_v(f) + config_checks_v(f, app),
            ),
        },
{
    let mut lines: Vec<String> = Vec::new();
    let mut ok = true;
    lines.push("Codex Helper 诊断".to_string());
    lines.push("──────────────────────────────".to_string());
    assert(views(lines@) =~= header_v());
    file_checks(f, &mut lines, &mut ok);
    config_checks(f, app, &mut lines, &mut ok);
    proof {
        lemma_lines_of_concat(file_checks_v(f), config_checks_v(f, app));
    }
    let p = match app.active_provider() {
        Ok(p) => p,
        Err(e) => {
            return Err((lines, e));
        },
    };
    runtime_checks(f, app, p, &mut lines, &mut ok);
    proof {
        lemma_lines_of_concat(file_checks_v(f) + config_checks_v(f, app), runtime_checks_v(f, app));
    }
    let ghost before = views(lines@);
    proof {
        reveal_strlit("");
    }
    lines.push(String::new());
    assert(views(lines@) =~= before.push(Seq::<char>::empty()));
    let verdict = if ok {
        "一切正常，可以运行 codex 了。".to_string()
    } else {
        "发现一些问题，请按上方提示修复。".to_string()
    };
    let ghost vv = verdict@;
    proof {
        assert(""@ =~= Seq::<char>::empty());
        if ok {
            assert(vv == "一切正常，可以运行 codex 了。"@);
        } else {
            assert(vv == "发现一些问题，请按上方提示修复。"@);
        }
    }
    assert(verdict_v(ok) =~= seq![Seq::<char>::empty(), vv]);
    let ghost mid = lines@;
    lines.push(verdict);
    assert(views(lines@) =~= views(mid).push(vv));
    assert(views(lines@) =~= before + verdict_v(ok));
    Ok(DoctorReport { lines, ok })
}


// ---------------------------------------------------------------------------
// `status`

/// The Codex config line of `status`.
pub open spec fn codex_state_v(uses_helper: bool, custom_base_url: Option<Seq<char>>, app: &AppConfig) -> Seq<char> {
    if uses_helper {
        if custom_base_url matches Some(u) && normalize_proxy_url_v(u) == normalize_proxy_url_v(
            proxy_base_url_v(app.proxy.host@, app.proxy.port),
        ) {
            "已指向本地代理（端口一致）"@
        } else {
            "已指向本地代理（⚠ 端口不一致，请重新同步）"@
        }
    } else {
        "未配置（运行 codex-helper init）"@
    }
}

/// The lines of `status` for provider `p`, the active one.
pub open spec fn status_lines_v(
    app: &AppConfig,
    p: crate::config::ProviderV,
    key_found: bool,
    uses_helper: bool,
    custom_base_url: Option<Seq<char>>,
) -> Seq<Seq<char>> {
    seq![
        "Codex Helper 状态"@,
        "──────────────────────────────"@,
        "当前模型:   "@ + app.active@ + " ("@ + p.name + ")"@,
        "默认模型:   "@ + p.default_model,
        "代理地址:   "@ + proxy_base_url_v(app.proxy.host@, app.proxy.port),
        "上游地址:   "@ + p.base_url,
        "API Key:    "@ + (if key_found {
            "已配置"@
        } else {
            "未配置"@
        }) + " ("@ + p.api_key_env + ")"@,
        "Codex 配置: "@ + codex_state_v(uses_helper, custom_base_url, app),
    ]
}

fn line2(a: &str, b: &str) -> (r: String)
    ensures
        r@ == a@ + b@,
{
    concat2(a, b)
}

/// The lines `status` prints; `key_found` says whether the active
/// provider's key is set, `custom_base_url` is the base URL of Codex's
/// custom provider when it can be read.
pub fn status_report(
    app: &AppConfig,
    key_found: bool,
    uses_helper: bool,
    custom_base_url: Option<&str>,
) -> (r: Result<Vec<String>, ConfigError>)
    requires
        app.wf(),
    ensures
        match r {
            Ok(lines) => app.provider_map().contains_key(app.active@) && views(lines@) == status_lines_v(
                app,
                app.provider_map()[app.active@],
                key_found,
                uses_helper,
                match custom_base_url {
                    Some(u) => Some(u@),
                    None => None,
                },
            ),
            Err(ConfigError::UnknownProvider(id)) => !app.provider_map().contains_key(app.active@)
                && id@ == app.active@,
        },
{
    let p = match app.active_provider() {
        Ok(p) => p,
        Err(e) => {
            return Err(e);
        },
    };
    let base = app.proxy_base_url();
    let key_state = if key_found {
        "已配置"
    } else {
        "未配置"
    };
    let state = if uses_helper {
        let matches = match custom_base_url {
            Some(u) => {
                let a = normalize_proxy_url(u);
                let b = normalize_proxy_url(base.as_str());
                str_eq(a.as_str(), b.as_str())
            },
            None => false,
        };
        if matches {
            "已指向本地代理（端口一致）"
        } else {
            "已指向本地代理（⚠ 端口不一致，请重新同步）"
        }
    } else {
        "未配置（运行 codex-helper init）"
    };
    let mut l3 = concat3("当前模型:   ", app.active.as_str(), " (");
    crate::text::push_str(&mut l3, p.name.as_str());
    crate::text::push_str(&mut l3, ")");
    let mut l7 = concat3("API Key:    ", key_state, " (");
    crate::text::push_str(&mut l7, p.api_key_env.as_str());
    crate::text::push_str(&mut l7, ")");
    let mut lines: Vec<String> = Vec::new();
    lines.push("Codex Helper 状态".to_string());
    lines.push("──────────────────────────────".to_string());
    lines.push(l3);
    lines.push(line2("默认模型:   ", p.default_model.as_str()));
    lines.push(line2("代理地址:   ", base.as_str()));
    lines.push(line2("上游地址:   ", p.base_url.as_str()));
    lines.push(l7);
    lines.push(line2("Codex 配置: ", state));
    assert(views(lines@) =~= status_lines_v(
        app,
        app.provider_map()[app.active@],
        key_found,
        uses_helper,
        match custom_base_url {
            Some(u) => Some(u@),
            None => None,
        },
    ));
    Ok(lines)
}

// ---------------------------------------------------------------------------
// `list`

/// `s` padded with spaces on the right to `width` characters.
pub open spec fn pad_right_v(s: Seq<char>, width: nat) -> Seq<char> {
    if s.len() < width {
        s + Seq::new((width - s.len()) as nat, |i: int| ' ')
    } else {
        s
    }
}

fn pad_right(s: &str, width: usize) -> (r: String)
    ensures
        r@ == pad_right_v(s@, width as nat),
{
    let n = crate::text::chars_of(s).len();
    let mut r = s.to_string();
    let mut k: usize = n;
    while k < width
        invariant
            n == s@.len(),
            n <= k <= width || (n > width && k == n),
            r@ == s@ + Seq::new((k - n) as nat, |i: int| ' '),
        decreases width - k,
    {
        crate::text::push_char(&mut r, ' ');
        k = k + 1;
        assert(r@ =~= s@ + Seq::new((k - n) as nat, |i: int| ' '));
    }
    proof {
        if n >= width {
            assert(r@ =~= s@);
        }
    }
    r
}

/// One line of the preset list: a check mark on the active preset, its
/// id and selected model in columns, and its name.
pub open spec fn preset_line_v(p: crate::config::ProviderV, active: Seq<char>) -> Seq<char> {
    "  "@ + (if p.id == active {
        "✓"@
    } else {
        " "@
    }) + " "@ + pad_right_v(p.id, 10) + " "@ + pad_right_v(p.default_model, 12) + " "@ + p.name
}

/// The lines `list` prints: a title, then the presets in menu order.
pub open spec fn preset_list_v(app: &AppConfig) -> Seq<Seq<char>> {
    let listed = crate::provider::listed_v(app.provider_map(), crate::provider::preset_order_v());
    seq!["可用模型预设:"@] + Seq::new(listed.len(), |i: int| preset_line_v(listed[i], app.active@))
}

pub fn preset_list_lines(app: &AppConfig) -> (r: Vec<String>)
    requires
        app.wf(),
    ensures
        views(r@) == preset_list_v(app),
{
    let listed = crate::provider::list_presets(app);
    let ghost lv = crate::provider::listed_v(app.provider_map(), crate::provider::preset_order_v());
    assert(listed@.map_values(|p: &ProviderConfig| p@) == lv);
    assert(listed@.len() == lv.len());
    let mut lines: Vec<String> = Vec::new();
    lines.push("可用模型预设:".to_string());
    let mut i: usize = 0;
    while i < listed.len()
        invariant
            i <= listed@.len(),
            listed@.len() == lv.len(),
            listed@.map_values(|p: &ProviderConfig| p@) == lv,
            views(lines@) == seq!["可用模型预设:"@] + Seq::new(
                i as nat,
                |k: int| preset_line_v(lv[k], app.active@),
            ),
        decreases listed@.len() - i,
    {
        let p = listed[i];
        assert(p@ == lv[i as int]);
        let mark = if str_eq(p.id.as_str(), app.active.as_str()) {
            "✓"
        } else {
            " "
        };
        let mut line = concat3("  ", mark, " ");
        crate::text::push_str(&mut line, pad_right(p.id.as_str(), 10).as_str());
        crate::text::push_str(&mut line, " ");
        crate::text::push_str(&mut line, pad_right(p.default_model.as_str(), 12).as_str());
        crate::text::push_str(&mut line, " ");
        crate::text::push_str(&mut line, p.name.as_str());
        assert(line@ =~= preset_line_v(lv[i as int], app.active@));
        let ghost prev = lines@;
        let ghost lview = line@;
        lines.push(line);
        assert(views(lines@) =~= views(prev).push(lview));
        i = i + 1;
        assert(views(lines@) =~= seq!["可用模型预设:"@] + Seq::new(
            i as nat,
            |k: int| preset_line_v(lv[k], app.active@),
        ));
    }
    lines
}

} // verus!
