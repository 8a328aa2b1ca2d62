use codex_sound_manager::notification::{log_line, log_needs_rotation};
use codex_sound_manager::settings::migration_outcome;
use codex_sound_manager::window::floating_ball_rollback;
use codex_sound_manager::locations::{
    app_data_dir, candidate_codex_homes, default_codex_home, find_codex_home,
    legacy_app_data_dirs, packages_directory, settings_path, HomeEnvironment,
};
use codex_sound_manager::notification::{
    lock_is_owned, lock_is_stale, lock_token, previous_notifier_exit_message, run_notification,
    should_run_previous_notifier, NotificationAction, NotificationEvent, NotificationStage,
};
use codex_sound_manager::settings::AppSettings;
use codex_sound_manager::sounds::{
    default_sound_path, legacy_sound_source, migration_destination, redirected_sound_path,
    should_write_default_sound, sound_import,
};
use codex_sound_manager::window::{floating_ball_position, tray_tooltip, CloseChoice};

fn strings(values: &[&str]) -> Vec<String> {
    values.iter().map(|value| value.to_string()).collect()
}

fn env(codex: Option<&str>, profile: Option<&str>, drive: Option<&str>, path: Option<&str>) -> HomeEnvironment {
    HomeEnvironment {
        codex_home: codex.map(str::to_string),
        user_profile: profile.map(str::to_string),
        home_drive: drive.map(str::to_string),
        home_path: path.map(str::to_string),
        local_app_data: None,
    }
}

#[test]
fn locates_codex_home_from_the_environment() {
    assert_eq!(default_codex_home(&env(Some("D:\\codex"), Some("C:\\Users\\a"), None, None)).as_deref(), Some("D:\\codex"));
    assert_eq!(default_codex_home(&env(None, Some("C:\\Users\\a"), None, None)).as_deref(), Some("C:\\Users\\a\\.codex"));
    assert_eq!(default_codex_home(&env(None, None, Some("C:"), Some("\\Users\\b"))).as_deref(), Some("C:\\Users\\b\\.codex"));
    assert!(default_codex_home(&env(None, None, Some("C:"), None)).is_none());
    assert_eq!(app_data_dir(&env(None, None, None, None)).unwrap_err(), "无法确定当前用户的 Codex 数据目录");
    assert_eq!(
        settings_path(&env(Some("D:\\codex"), None, None, None)).unwrap(),
        "D:\\codex\\codex-sound-manager\\settings.json"
    );
}

#[test]
fn candidate_homes_drop_case_only_repeats() {
    let settings = AppSettings {
        codex_home: Some("C:\\Users\\A\\.codex".to_string()),
        ..AppSettings::default()
    };
    let candidates = candidate_codex_homes(&settings, &env(None, Some("c:\\users\\a"), Some("D:"), Some("\\home")));
    assert_eq!(candidates, strings(&["C:\\Users\\A\\.codex", "D:\\home\\.codex"]));
}

#[test]
fn chooses_codex_home_by_what_exists() {
    let candidates = strings(&["a", "b", "c"]);
    assert_eq!(find_codex_home(&candidates, &[false, false, true], &[true, true, true]), "c");
    assert_eq!(find_codex_home(&candidates, &[false, false, false], &[false, true, true]), "b");
    assert_eq!(find_codex_home(&candidates, &[false, false, false], &[false, false, false]), "a");
    assert_eq!(find_codex_home(&[], &[], &[]), ".codex");
}

#[test]
fn lists_legacy_directories() {
    let environment = HomeEnvironment {
        local_app_data: Some("C:\\Users\\a\\AppData\\Local".to_string()),
        ..env(None, Some("C:\\Users\\a"), None, None)
    };
    assert_eq!(packages_directory(&environment).unwrap(), "C:\\Users\\a\\AppData\\Local\\Packages");
    let dirs = legacy_app_data_dirs(&environment, &strings(&["OpenAI.Codex_123", "Other.App"]));
    assert_eq!(
        dirs,
        strings(&[
            "C:\\Users\\a\\AppData\\Local\\CodexSoundManager",
            "C:\\Users\\a\\AppData\\Local\\Packages\\OpenAI.Codex_123\\LocalCache\\Local\\CodexSoundManager",
        ])
    );
}

#[test]
fn finds_audio_in_a_redirected_legacy_directory() {
    let settings = AppSettings {
        sound_path: Some(r"C:\Users\demo\AppData\Local\CodexSoundManager\sounds\custom-sound.mp3".to_string()),
        ..AppSettings::default()
    };
    let redirected = redirected_sound_path(&settings, "E:\\old").unwrap();
    assert_eq!(redirected, "E:\\old\\sounds\\custom-sound.mp3");
    assert_eq!(legacy_sound_source(&settings, "E:\\old", false, true), Some(redirected));
    assert_eq!(legacy_sound_source(&settings, "E:\\old", false, false), None);
    assert_eq!(
        legacy_sound_source(&settings, "E:\\old", true, true).as_deref(),
        settings.sound_path.as_deref()
    );
    assert_eq!(
        migration_destination("H:\\app", "x.MP3").unwrap(),
        "H:\\app\\sounds\\custom-sound.mp3"
    );
    assert_eq!(migration_destination("H:\\app", "noext").unwrap_err(), "旧版自定义提示音没有有效扩展名");
}

#[test]
fn imports_sound_files() {
    let (selection, copy) = sound_import("H:\\sounds", "D:\\music\\Bell.WAV", 10).unwrap();
    assert_eq!(selection.path, "H:\\sounds\\custom-sound.wav");
    assert_eq!(selection.name, "Bell.WAV");
    assert!(copy);
    let (_, copy) = sound_import("H:\\sounds", "H:\\sounds\\custom-sound.wav", 10).unwrap();
    assert!(!copy);
    assert_eq!(sound_import("H:", "a.wav", 52428801).unwrap_err().as_str(), "音频文件不能超过 50 MB");
    assert_eq!(sound_import("H:", "a", 1).unwrap_err().as_str(), "无法识别音频文件格式");
    assert_eq!(
        sound_import("H:", "a.exe", 1).unwrap_err().as_str(),
        "请选择 WAV、MP3、FLAC、OGG、M4A 或 AAC 音频文件"
    );
    assert_eq!(default_sound_path("H:\\app"), "H:\\app\\sounds\\default-notification.wav");
    assert!(should_write_default_sound(None, b"abc"));
    assert!(should_write_default_sound(Some(b"abd"), b"abc"));
    assert!(!should_write_default_sound(Some(b"abc"), b"abc"));
}

#[test]
fn notification_disabled_sound_is_logged_and_not_played() {
    let settings = AppSettings {
        enabled: false,
        ..AppSettings::default()
    };
    let step = run_notification(NotificationStage::LoadingSettings, NotificationEvent::SettingsLoaded(Ok(settings)));
    assert!(matches!(step.action, NotificationAction::Stop));
    assert_eq!(step.log, strings(&["中文动态日志：任务完成，提示音当前已关闭"]));
}

#[test]
fn notification_runs_previous_then_plays_under_the_lock() {
    let settings = AppSettings {
        previous_notifier: Some(strings(&["notify-send"])),
        ..AppSettings::default()
    };
    let step = run_notification(NotificationStage::LoadingSettings, NotificationEvent::SettingsLoaded(Ok(settings)));
    assert!(matches!(step.action, NotificationAction::RunPreviousNotifier));
    let step = run_notification(step.stage, NotificationEvent::PreviousFinished(Err("原通知回调退出码：1".to_string())));
    assert_eq!(step.log, strings(&["原通知回调退出码：1"]));
    assert!(matches!(step.action, NotificationAction::AcquireLock));
    let step = run_notification(step.stage, NotificationEvent::LockTaken(Ok(true)));
    assert!(matches!(step.action, NotificationAction::PlaySound));
    let step = run_notification(step.stage, NotificationEvent::Played(Ok(())));
    assert_eq!(step.log, strings(&["中文动态日志：任务完成，提示音已播放 2 次"]));
    assert!(matches!(step.action, NotificationAction::Stop));
}

#[test]
fn notification_with_unreadable_settings_uses_defaults_and_stops_when_locked() {
    let step = run_notification(NotificationStage::LoadingSettings, NotificationEvent::SettingsLoaded(Err("坏".to_string())));
    assert_eq!(step.log, strings(&["读取设置失败：坏"]));
    assert!(matches!(step.action, NotificationAction::AcquireLock));
    let step = run_notification(step.stage, NotificationEvent::LockTaken(Ok(false)));
    assert!(matches!(step.action, NotificationAction::Stop));
    assert!(step.log.is_empty());
    let played = run_notification(
        NotificationStage::Playing(AppSettings::default()),
        NotificationEvent::Played(Err("无设备".to_string())),
    );
    assert_eq!(played.log, strings(&["播放失败：无设备"]));
}

#[test]
fn previous_notifier_rules_and_messages() {
    assert!(should_run_previous_notifier(&strings(&["notify-send", "x"])));
    assert!(!should_run_previous_notifier(&[]));
    assert!(!should_run_previous_notifier(&strings(&["codex-sound-manager.exe", "--notify"])));
    assert!(!should_run_previous_notifier(&strings(&["pwsh", "C:\\u\\.codex\\bin\\task-complete.ps1"])));
    assert_eq!(previous_notifier_exit_message(Some(3)), "原通知回调退出码：3");
    assert_eq!(previous_notifier_exit_message(None), "原通知回调退出码：-1");
    assert_eq!(previous_notifier_exit_message(Some(-2147483648)), "原通知回调退出码：-2147483648");
}

#[test]
fn lock_guard_does_not_remove_a_replaced_lock() {
    assert!(lock_is_owned(Some("owned-token\n"), "owned-token"));
    assert!(!lock_is_owned(Some("replacement-token\n"), "old-token"));
    assert!(!lock_is_owned(None, "owned-token"));
    assert!(lock_is_owned(Some("\u{3000} t \r\n"), "t"));
    assert_eq!(lock_token(42, 1234567890123), "42-1234567890123");
    assert!(lock_is_stale(Some((121, 0))));
    assert!(lock_is_stale(Some((120, 1))));
    assert!(!lock_is_stale(Some((120, 0))));
    assert!(!lock_is_stale(None));
}

#[test]
fn window_texts_and_positions() {
    let settings = AppSettings {
        enabled: false,
        floating_ball_enabled: true,
        ..AppSettings::default()
    };
    assert_eq!(tray_tooltip(&settings), "Codex 提示音管理器\n提示音：已关闭\n悬浮球：已显示");
    assert_eq!(floating_ball_position(0, 0, 1920, 1040, 96, 96, 20), (1804, 924));
    assert_eq!(floating_ball_position(-1920, 10, 1920, 1080, 100, 50, 40), (-140, 1000));
    assert_eq!(CloseChoice::try_from("other").unwrap_err(), "无效的关闭选项");
}

#[test]
fn importing_the_already_imported_file_skips_the_copy() {
    let (selection, copy) =
        sound_import("C:/Users/demo/AppData/Local/codex-sound-manager/sounds", r"C:\Users\demo\AppData\Local\codex-sound-manager\sounds\custom-sound.mp3", 10)
            .unwrap();
    assert_eq!(selection.path, r"C:/Users/demo/AppData/Local/codex-sound-manager/sounds\custom-sound.mp3");
    assert!(!copy);
}

#[test]
fn floating_ball_position_wraps_like_a_release_build() {
    assert_eq!(floating_ball_position(0, 0, 1920, 1040, 64, 64, 20), (1836, 956));
    assert_eq!(floating_ball_position(i32::MAX, 0, 10, 100, 0, 0, 0), (i32::MIN + 9, 100));
    assert_eq!(floating_ball_position(0, 0, u32::MAX, 10, 0, 0, 0), (-1, 10));
}

#[test]
fn small_decisions_of_the_app() {
    assert!(log_needs_rotation(Some(1024 * 1024 + 1)));
    assert!(!log_needs_rotation(Some(1024 * 1024)));
    assert!(!log_needs_rotation(None));
    assert_eq!(log_line("2024-01-02 03:04:05", "中文"), "2024-01-02 03:04:05 中文");
    assert!(migration_outcome(Ok(None)).is_none());
    assert_eq!(migration_outcome(Err("bad".to_string())).unwrap().unwrap_err(), "bad");
    assert!(!migration_outcome(Ok(Some(AppSettings::default()))).unwrap().unwrap().floating_ball_enabled);
    assert_eq!(floating_ball_rollback(true, &Err("x".to_string())), Some(true));
    assert_eq!(floating_ball_rollback(true, &Ok(())), None);
}
