use codex_sound_manager::notification::notification_success_message;
use codex_sound_manager::scan::apply_configuration_message;
use codex_sound_manager::settings::{is_supported_sound_file, runtime_preferences, AppSettings};
use codex_sound_manager::window::CloseChoice;

#[test]
fn validates_close_choices() {
    assert_eq!(CloseChoice::try_from("exit"), Ok(CloseChoice::Exit));
    assert_eq!(
        CloseChoice::try_from("tray"),
        Ok(CloseChoice::MinimizeToTray)
    );
    assert_eq!(CloseChoice::try_from("cancel"), Ok(CloseChoice::Cancel));
    assert!(CloseChoice::try_from("unknown").is_err());
}

#[test]
fn exposes_runtime_preferences_without_configuration_details() {
    let settings = AppSettings {
        enabled: false,
        floating_ball_enabled: true,
        ..AppSettings::default()
    };
    let preferences = runtime_preferences(&settings);
    assert!(!preferences.sound_enabled);
    assert!(preferences.floating_ball_enabled);
}

#[test]
fn explains_when_codex_restart_is_required() {
    assert_eq!(
        apply_configuration_message(true),
        "设置已保存，下一次任务完成立即生效，无需重启 Codex"
    );
    assert_eq!(
        apply_configuration_message(false),
        "已写入 Codex 全局配置，请完整重启 Codex"
    );
}

#[test]
fn preserves_chinese_dynamic_log_text() {
    assert_eq!(
        notification_success_message(2),
        "中文动态日志：任务完成，提示音已播放 2 次"
    );
}

#[test]
fn validates_supported_audio_extensions_case_insensitively() {
    assert!(is_supported_sound_file("notice.MP3"));
    assert!(!is_supported_sound_file("notice.exe"));
}
