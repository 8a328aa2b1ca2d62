//! What the window shows about the Codex installation, and the messages of
//! applying and removing the configuration.

use vstd::prelude::*;
use toml_edit::DocumentMut;
use crate::commands::{
    command_contains_manager, command_uses_exact_manager, contains_manager, is_manager,
    nested_notifier, uses_exact_manager,
};
use crate::json::{json_string_list, json_string_list_text};
use crate::config::{notify_command, notify_command_of, parse_config, toml_document, toml_entries};
use crate::notify::{
    lemma_install_puts_manager_in_place, install_failure, install_notify, keeps_order_adding_notify, keeps_other_entries, installed_entries, installed_previous, with_previous,
};
use crate::path::{join, join_path};
use crate::settings::{settings_error, validate_settings, AppSettings, SettingsModel};
use crate::sounds::{display_name, display_name_of};
use crate::text::{owned, strip_leading};

verus! {

/// The outcome of scanning for Codex.
pub struct ScanResult {
    pub codex_found: bool,
    pub config_found: bool,
    pub configured: bool,
    pub codex_home: String,
    pub config_path: String,
    pub executable_path: String,
    pub sound_name: String,
    pub using_default_sound: bool,
    pub settings: AppSettings,
    pub status_message: String,
}

/// The configuration file in Codex's data folder.
pub open spec fn config_file(home: Seq<char>) -> Seq<char> {
    join_path(home, "config.toml"@)
}

/// The path of Codex's configuration file.
pub fn config_path(codex_home: &str) -> (r: String)
    ensures
        r@ == config_file(codex_home@),
{
    join(codex_home, "config.toml")
}

/// The configuration text calls this tool: it parses as TOML and its
/// `notify` command is this tool's callback, directly or forwarded to.
pub open spec fn text_configured(text: Seq<char>) -> bool {
    match toml_document(strip_leading(text, '\u{feff}')) {
        Ok(entries) => match notify_command_of(entries) {
            Some(command) => contains_manager(command),
            None => false,
        },
        Err(_) => false,
    }
}

/// Whether a configuration text calls this tool.
pub fn config_is_configured(text: &str) -> (r: bool)
    ensures
        r == text_configured(text@),
{
    match parse_config(Some(text)) {
        Ok(document) => match notify_command(&document) {
            Some(command) => command_contains_manager(command.as_slice()),
            None => false,
        },
        Err(_) => false,
    }
}

/// The name shown for the sound in use.
pub open spec fn shown_sound_name(s: SettingsModel, sound_path: Seq<char>, using_default: bool) -> Seq<
    char,
> {
    if using_default {
        "内置默认提示音"@
    } else {
        match s.sound_name {
            Some(name) => name,
            None => display_name(sound_path),
        }
    }
}

/// The status line for a scan.
pub open spec fn status_text(codex_found: bool, configured: bool, config_found: bool) -> Seq<char> {
    if !codex_found {
        "未发现 Codex 用户目录"@
    } else if configured {
        "全局提示音已配置"@
    } else if config_found {
        "已发现 Codex，等待应用配置"@
    } else {
        "已发现 Codex 用户目录，尚未生成全局配置"@
    }
}

/// Summarizes a scan. `codex_found` and `config_found` tell whether the
/// data folder and its `config.toml` exist, `config_text` is the text of the
/// configuration when it could be read, and `sound_path` the sound in use.
pub fn scan_internal(
    settings: AppSettings,
    codex_home: String,
    codex_found: bool,
    config_found: bool,
    config_text: Option<String>,
    sound_path: &str,
    using_default_sound: bool,
    executable_path: String,
) -> (r: ScanResult)
    ensures
        r.codex_found == codex_found,
        r.config_found == config_found,
        r.configured == (config_found && (config_text matches Some(t) && text_configured(t@))),
        r.codex_home@ == codex_home@,
        r.config_path@ == config_file(codex_home@),
        r.executable_path@ == executable_path@,
        r.sound_name@ == shown_sound_name(settings@, sound_path@, using_default_sound),
        r.using_default_sound == using_default_sound,
        r.settings@ == settings@,
        r.status_message@ == status_text(codex_found, r.configured, config_found),
{
    let config_path = config_path(codex_home.as_str());
    let configured = if config_found {
        match &config_text {
            Some(text) => config_is_configured(text.as_str()),
            None => false,
        }
    } else {
        false
    };
    let sound_name = if using_default_sound {
        owned("内置默认提示音")
    } else {
        match &settings.sound_name {
            Some(name) => name.clone(),
            None => display_name_of(sound_path),
        }
    };
    let status_message = if !codex_found {
        owned("未发现 Codex 用户目录")
    } else if configured {
        owned("全局提示音已配置")
    } else if config_found {
        owned("已发现 Codex，等待应用配置")
    } else {
        owned("已发现 Codex 用户目录，尚未生成全局配置")
    };
    ScanResult {
        codex_found,
        config_found,
        configured,
        codex_home,
        config_path,
        executable_path,
        sound_name,
        using_default_sound,
        settings,
        status_message,
    }
}

/// This tool's callback command: the executable followed by `--notify`.
pub fn current_manager_command(executable_path: &str) -> (r: Vec<String>)
    ensures
        r.deep_view() == seq![executable_path@, "--notify"@],
{
    let mut command: Vec<String> = Vec::new();
    command.push(owned(executable_path));
    command.push(owned("--notify"));
    assert(command.deep_view() =~= seq![executable_path@, "--notify"@]);
    command
}

/// Why the configuration cannot be applied before the configuration file is
/// read, if it cannot: invalid settings, or no Codex data folder.
pub open spec fn apply_precondition_error(
    s: SettingsModel,
    sound_file_exists: bool,
    codex_home_is_dir: bool,
) -> Option<Seq<char>> {
    match settings_error(s, sound_file_exists) {
        Some(e) => Some(e),
        None => if !codex_home_is_dir {
            Some("未发现 Codex 用户目录，请先启动一次 Codex 后重新扫描"@)
        } else {
            None
        },
    }
}

/// Checks that the configuration can be applied.
pub fn check_apply_configuration(
    settings: &AppSettings,
    sound_file_exists: bool,
    codex_home_is_dir: bool,
) -> (r: Result<(), String>)
    ensures
        apply_precondition_error(settings@, sound_file_exists, codex_home_is_dir) matches Some(e)
            ==> (r matches Err(m) && m@ == e),
        apply_precondition_error(settings@, sound_file_exists, codex_home_is_dir) is None ==> (r is Ok),
{
    validate_settings(settings, sound_file_exists)?;
    if !codex_home_is_dir {
        return Err(owned("未发现 Codex 用户目录，请先启动一次 Codex 后重新扫描"));
    }
    Ok(())
}

/// Applies this tool's callback to Codex's configuration and records the
/// data folder in the settings; tells whether Codex already called exactly
/// this command before (so that no restart of Codex is needed).
pub fn configure_document(
    document: &mut DocumentMut,
    manager_command: &[String],
    settings: &mut AppSettings,
    codex_home: &str,
) -> (r: Result<bool, String>)
    ensures
        r is Err <==> install_failure(toml_entries(*old(document))) is Some,
        r is Err ==> *final(document) == *old(document),
        r is Err ==> final(settings)@ == old(settings)@,
        r is Ok ==> keeps_other_entries(*old(document), *final(document)),
        r is Ok ==> keeps_order_adding_notify(*old(document), *final(document)),
        r matches Ok(unchanged) ==> (unchanged == (notify_command_of(toml_entries(*old(document)))
            matches Some(c) && uses_exact_manager(c, manager_command.deep_view()))),
        r is Ok ==> toml_entries(*final(document)) == installed_entries(
            toml_entries(*old(document)),
            manager_command.deep_view(),
        ),
        r is Ok ==> final(settings)@ == (SettingsModel {
            codex_home: Some(codex_home@),
            ..with_previous(
                old(settings)@,
                installed_previous(toml_entries(*old(document)), old(settings)@.previous_notifier),
            )
        }),
{
    let unchanged = match notify_command(document) {
        Some(command) => command_uses_exact_manager(command.as_slice(), manager_command),
        None => false,
    };
    install_notify(document, manager_command, settings)?;
    settings.codex_home = Some(owned(codex_home));
    Ok(unchanged)
}

/// The message after applying: no restart is needed when Codex already
/// called exactly this command.
pub fn apply_configuration_message(already_configured: bool) -> (r: &'static str)
    ensures
        already_configured ==> r@ == "设置已保存，下一次任务完成立即生效，无需重启 Codex"@,
        !already_configured ==> r@ == "已写入 Codex 全局配置，请完整重启 Codex"@,
{
    if already_configured {
        "设置已保存，下一次任务完成立即生效，无需重启 Codex"
    } else {
        "已写入 Codex 全局配置，请完整重启 Codex"
    }
}

/// The message after removing the callback.
pub fn remove_configuration_message(changed: bool) -> (r: String)
    ensures
        changed ==> r@ == "已移除提示音回调，请完整重启 Codex"@,
        !changed ==> r@ == "当前 Codex 配置中没有本工具的回调"@,
{
    if changed {
        owned("已移除提示音回调，请完整重启 Codex")
    } else {
        owned("当前 Codex 配置中没有本工具的回调")
    }
}

/// A configuration text is reported as configured exactly when it parses
/// and its `notify` command is this tool's callback itself, or a wrapper
/// whose command after `--previous-notify` is this tool's callback.
pub proof fn lemma_configured_exactly_when_calling_this_tool(text: Seq<char>)
    ensures
        text_configured(text) <==> (toml_document(strip_leading(text, '\u{feff}')) matches Ok(
            entries,
        ) && notify_command_of(entries) matches Some(command) && (is_manager(command) || (
        nested_notifier(command) matches Some((_, nested)) && is_manager(nested)))),
{
}

/// A configuration whose entries are those that installing this tool's
/// callback gives, from any configuration the install accepts, is reported
/// as configured.
pub proof fn lemma_installed_configuration_is_configured(
    text: Seq<char>,
    entries: Map<Seq<char>, Option<Seq<Option<Seq<char>>>>>,
    manager: Seq<Seq<char>>,
)
    requires
        toml_document(strip_leading(text, '\u{feff}')) matches Ok(parsed) && parsed
            == installed_entries(entries, manager),
        install_failure(entries) is None,
        is_manager(manager),
        json_string_list(json_string_list_text(manager)) matches Ok(m) && m == manager,
    ensures
        text_configured(text),
{
    lemma_install_puts_manager_in_place(entries, manager);
    lemma_configured_exactly_when_calling_this_tool(text);
}

} // verus!
