use codex_sound_manager::commands::{
    command_contains_manager, is_computer_use_wrapper, is_legacy_sound_command, is_manager_command,
    nested_previous_notifier,
};
use codex_sound_manager::config::{notify_command, parse_config, validate_notify_entry};
use codex_sound_manager::notify::{install_notify, uninstall_notify};
use codex_sound_manager::path::{join, path_extension, path_file_name, path_file_stem, paths_equal};
use codex_sound_manager::scan::{
    check_apply_configuration, config_is_configured, configure_document, current_manager_command,
    remove_configuration_message, scan_internal,
};
use codex_sound_manager::settings::{
    load_settings, normalize_settings, playback_plan, read_settings, validate_settings,
    AppSettings, SoundSource,
};
use toml_edit::DocumentMut;

fn manager() -> Vec<String> {
    vec![
        r"C:\Tools\codex-sound-manager.exe".to_string(),
        "--notify".to_string(),
    ]
}

fn strings(values: &[&str]) -> Vec<String> {
    values.iter().map(|value| value.to_string()).collect()
}

#[test]
fn install_then_uninstall_restores_plain_notifier_and_other_entries() {
    let source = "model = \"gpt\"\nnotify = [\"notify-send\", \"Codex\"]\n[profile]\nname = \"x\"\n";
    let mut document = source.parse::<DocumentMut>().unwrap();
    let mut settings = AppSettings::default();
    install_notify(&mut document, &manager(), &mut settings).unwrap();
    assert_eq!(notify_command(&document).unwrap(), manager());
    assert!(uninstall_notify(&mut document, &mut settings).unwrap());
    assert_eq!(
        notify_command(&document).unwrap(),
        strings(&["notify-send", "Codex"])
    );
    assert!(settings.previous_notifier.is_none());
    assert_eq!(document["model"].as_str(), Some("gpt"));
    assert_eq!(document["profile"]["name"].as_str(), Some("x"));
}

#[test]
fn install_then_uninstall_without_notify_removes_the_entry() {
    let mut document = "model = \"gpt\"\n".parse::<DocumentMut>().unwrap();
    let mut settings = AppSettings::default();
    install_notify(&mut document, &manager(), &mut settings).unwrap();
    assert!(command_contains_manager(&notify_command(&document).unwrap()));
    assert!(uninstall_notify(&mut document, &mut settings).unwrap());
    assert!(document.get("notify").is_none());
    assert_eq!(document["model"].as_str(), Some("gpt"));
}

#[test]
fn installing_twice_changes_nothing_more() {
    let mut document = "notify = [\"notify-send\", \"Codex\"]\n"
        .parse::<DocumentMut>()
        .unwrap();
    let mut settings = AppSettings::default();
    install_notify(&mut document, &manager(), &mut settings).unwrap();
    let once = document.to_string();
    let previous = settings.previous_notifier.clone();
    install_notify(&mut document, &manager(), &mut settings).unwrap();
    assert_eq!(document.to_string(), once);
    assert_eq!(settings.previous_notifier, previous);
}

#[test]
fn wrapper_without_previous_notifier_gains_and_loses_the_flag() {
    let source = "notify = ['C:\\Codex\\codex-computer-use.exe', 'turn-ended']\n";
    let mut document = source.parse::<DocumentMut>().unwrap();
    let mut settings = AppSettings::default();
    install_notify(&mut document, &manager(), &mut settings).unwrap();
    let command = notify_command(&document).unwrap();
    assert_eq!(command.len(), 4);
    assert_eq!(command[2], "--previous-notify");
    assert_eq!(command[3], serde_json::to_string(&manager()).unwrap());
    assert_eq!(nested_previous_notifier(&command).unwrap(), (2, manager()));
    assert!(uninstall_notify(&mut document, &mut settings).unwrap());
    assert_eq!(
        notify_command(&document).unwrap(),
        strings(&[r"C:\Codex\codex-computer-use.exe", "turn-ended"])
    );
}

#[test]
fn uninstall_leaves_foreign_callbacks_alone() {
    let mut document = "notify = [\"notify-send\"]\n".parse::<DocumentMut>().unwrap();
    let mut settings = AppSettings {
        previous_notifier: Some(strings(&["kept"])),
        ..AppSettings::default()
    };
    assert!(!uninstall_notify(&mut document, &mut settings).unwrap());
    assert_eq!(notify_command(&document).unwrap(), strings(&["notify-send"]));
    assert_eq!(settings.previous_notifier, Some(strings(&["kept"])));

    let mut empty = DocumentMut::new();
    assert!(!uninstall_notify(&mut empty, &mut settings).unwrap());
    assert!(settings.previous_notifier.is_none());
}

#[test]
fn uninstall_refuses_an_invalid_notify_entry() {
    let mut document = "notify = [1, 2]\n".parse::<DocumentMut>().unwrap();
    let mut settings = AppSettings::default();
    let error = uninstall_notify(&mut document, &mut settings).unwrap_err();
    assert_eq!(
        error,
        "Codex 配置中的 notify 必须是仅包含字符串的命令数组，请先修正该配置"
    );
    assert!(validate_notify_entry(&document).is_err());
}

#[test]
fn install_refuses_a_wrapper_with_malformed_json() {
    let source = "notify = ['C:\\Codex\\codex-computer-use.exe', '--previous-notify', 'not json']\n";
    let mut document = source.parse::<DocumentMut>().unwrap();
    let before = document.to_string();
    let mut settings = AppSettings::default();
    let error = install_notify(&mut document, &manager(), &mut settings).unwrap_err();
    assert!(error.starts_with("Computer Use 的原通知回调格式无效："));
    assert_eq!(document.to_string(), before);
}

#[test]
fn configure_document_reports_an_unchanged_callback() {
    let mut document = "notify = ['C:\\Tools\\codex-sound-manager.exe', '--notify']\n"
        .parse::<DocumentMut>()
        .unwrap();
    let mut settings = AppSettings::default();
    assert!(configure_document(&mut document, &manager(), &mut settings, "C:\\Users\\a\\.codex").unwrap());
    assert_eq!(settings.codex_home.as_deref(), Some("C:\\Users\\a\\.codex"));
    let mut fresh = DocumentMut::new();
    assert!(!configure_document(&mut fresh, &manager(), &mut settings, "home").unwrap());
}

#[test]
fn recognizes_manager_and_legacy_commands() {
    assert!(is_manager_command(&strings(&["D:/x/CODEX-SOUND-MANAGER.EXE", "--notify"])));
    assert!(!is_manager_command(&strings(&["codex-sound-manager.exe"])));
    assert!(!is_manager_command(&strings(&["codex-sound-manager.exe", "--other"])));
    assert!(is_legacy_sound_command(&strings(&[
        "pwsh",
        "C:/Users/Demo/.Codex/Bin/Play-Task-Complete-Sound.ps1"
    ])));
    assert!(!is_legacy_sound_command(&strings(&["pwsh", "task-complete.ps1"])));
}

#[test]
fn parses_config_text_with_byte_order_marks() {
    let document = parse_config(Some("\u{feff}\u{feff}notify = [\"a\"]\n")).unwrap();
    assert_eq!(notify_command(&document).unwrap(), strings(&["a"]));
    assert!(notify_command(&parse_config(None).unwrap()).is_none());
    let error = parse_config(Some("notify = [")).unwrap_err();
    assert!(error.starts_with("Codex 配置不是有效的 TOML："));
    assert!(config_is_configured("notify = ['C:\\\\x\\\\codex-sound-manager.exe', '--notify']\n"));
    assert!(!config_is_configured("notify = ['other']\n"));
}

#[test]
fn models_windows_paths() {
    assert_eq!(path_file_name(r"C:\a\b.mp3").as_deref(), Some("b.mp3"));
    assert_eq!(path_file_name("a/b/").as_deref(), Some("b"));
    assert_eq!(path_file_name(r"a\b\.").as_deref(), Some("b"));
    assert_eq!(path_file_name("C:"), None);
    assert_eq!(path_file_name(r"a\.."), None);
    assert_eq!(path_file_name("C:x.wav").as_deref(), Some("x.wav"));
    assert_eq!(path_extension("archive.tar.gz").as_deref(), Some("gz"));
    assert_eq!(path_extension(".hidden"), None);
    assert_eq!(path_file_stem(".hidden").as_deref(), Some(".hidden"));
    assert_eq!(path_file_stem("sound.").as_deref(), Some("sound"));
    assert_eq!(join(r"C:\Users", ".codex"), r"C:\Users\.codex");
    assert_eq!(join(r"C:\Users\", ".codex"), r"C:\Users\.codex");
    assert_eq!(join("C:", "x"), "C:x");
    assert_eq!(join("", "x"), "x");
    assert_eq!(join("base", "D:x"), "D:x");
}

#[test]
fn normalizes_loaded_settings() {
    let mut settings = AppSettings {
        play_count: 0,
        sound_path: Some("song.exe".to_string()),
        sound_name: Some("song".to_string()),
        ..AppSettings::default()
    };
    normalize_settings(&mut settings, true);
    assert_eq!(settings.play_count, 1);
    assert!(settings.sound_path.is_none());
    assert!(settings.sound_name.is_none());

    let mut settings = AppSettings {
        play_count: 200,
        sound_path: Some("song.wav".to_string()),
        sound_name: Some(String::new()),
        ..AppSettings::default()
    };
    normalize_settings(&mut settings, true);
    assert_eq!(settings.play_count, 10);
    assert_eq!(settings.sound_path.as_deref(), Some("song.wav"));
    assert!(settings.sound_name.is_none());

    let mut missing = AppSettings {
        sound_path: Some("song.wav".to_string()),
        ..AppSettings::default()
    };
    normalize_settings(&mut missing, false);
    assert!(missing.sound_path.is_none());
}

#[test]
fn validates_settings_with_each_error() {
    let bad_count = AppSettings {
        play_count: 11,
        ..AppSettings::default()
    };
    assert_eq!(
        validate_settings(&bad_count, false).unwrap_err(),
        "播放次数必须在 1 到 10 之间"
    );
    let missing = AppSettings {
        sound_path: Some("a.wav".to_string()),
        ..AppSettings::default()
    };
    assert_eq!(
        validate_settings(&missing, false).unwrap_err(),
        "自定义提示音文件不存在，请重新选择"
    );
    let unsupported = AppSettings {
        sound_path: Some("a.txt".to_string()),
        ..AppSettings::default()
    };
    assert_eq!(
        validate_settings(&unsupported, true).unwrap_err(),
        "自定义提示音格式不受支持"
    );
    assert!(validate_settings(&missing, true).is_ok());
}

#[test]
fn default_settings_and_load_precedence() {
    let defaults = AppSettings::default();
    assert!(defaults.enabled);
    assert_eq!(defaults.play_count, 2);
    assert!(!defaults.floating_ball_enabled);
    assert!(defaults.sound_path.is_none());

    let loaded = load_settings(None, None).unwrap();
    assert_eq!(loaded.play_count, 2);
    let current = AppSettings {
        play_count: 5,
        ..AppSettings::default()
    };
    let migrated = AppSettings {
        play_count: 7,
        ..AppSettings::default()
    };
    assert_eq!(
        load_settings(Some(Ok(current)), Some(Ok(migrated))).unwrap().play_count,
        5
    );
    let migrated = AppSettings {
        play_count: 7,
        ..AppSettings::default()
    };
    assert_eq!(load_settings(None, Some(Ok(migrated))).unwrap().play_count, 7);
    assert_eq!(
        load_settings(Some(Err("broken".to_string())), None).unwrap_err(),
        "broken"
    );
    let read = read_settings(
        Ok(AppSettings {
            play_count: 0,
            ..AppSettings::default()
        }),
        false,
    )
    .unwrap();
    assert_eq!(read.play_count, 1);
}

#[test]
fn plans_playback() {
    let disabled = AppSettings {
        enabled: false,
        ..AppSettings::default()
    };
    assert!(playback_plan(&disabled, false).unwrap().is_none());
    let custom = AppSettings {
        sound_path: Some("a.wav".to_string()),
        play_count: 3,
        ..AppSettings::default()
    };
    let plan = playback_plan(&custom, true).unwrap().unwrap();
    assert_eq!(plan.repetitions, 3);
    assert!(matches!(plan.source, SoundSource::Custom(ref p) if p == "a.wav"));
    let builtin = playback_plan(&AppSettings::default(), false).unwrap().unwrap();
    assert!(matches!(builtin.source, SoundSource::BuiltIn));
    assert!(playback_plan(&custom, false).is_err());
}

#[test]
fn scan_reports_status_and_sound_name() {
    let found = scan_internal(
        AppSettings::default(),
        r"C:\Users\a\.codex".to_string(),
        true,
        true,
        Some("notify = ['C:\\\\x\\\\codex-sound-manager.exe', '--notify']".to_string()),
        r"C:\sounds\default-notification.wav",
        true,
        "exe".to_string(),
    );
    assert!(found.configured);
    assert_eq!(found.config_path, r"C:\Users\a\.codex\config.toml");
    assert_eq!(found.status_message, "全局提示音已配置");
    assert_eq!(found.sound_name, "内置默认提示音");

    let waiting = scan_internal(
        AppSettings::default(),
        "home".to_string(),
        true,
        true,
        Some("model = 'x'".to_string()),
        r"C:\music\bell.mp3",
        false,
        String::new(),
    );
    assert!(!waiting.configured);
    assert_eq!(waiting.status_message, "已发现 Codex，等待应用配置");
    assert_eq!(waiting.sound_name, "bell.mp3");

    let missing = scan_internal(
        AppSettings::default(),
        "home".to_string(),
        false,
        false,
        None,
        "x.wav",
        false,
        String::new(),
    );
    assert_eq!(missing.status_message, "未发现 Codex 用户目录");
    let fresh = scan_internal(
        AppSettings {
            sound_name: Some("铃声".to_string()),
            ..AppSettings::default()
        },
        "home".to_string(),
        true,
        false,
        None,
        "x.wav",
        false,
        String::new(),
    );
    assert_eq!(fresh.status_message, "已发现 Codex 用户目录，尚未生成全局配置");
    assert_eq!(fresh.sound_name, "铃声");
}

#[test]
fn checks_before_applying_and_names_messages() {
    assert_eq!(
        check_apply_configuration(&AppSettings::default(), false, false).unwrap_err(),
        "未发现 Codex 用户目录，请先启动一次 Codex 后重新扫描"
    );
    assert!(check_apply_configuration(&AppSettings::default(), false, true).is_ok());
    assert_eq!(remove_configuration_message(true), "已移除提示音回调，请完整重启 Codex");
    assert_eq!(remove_configuration_message(false), "当前 Codex 配置中没有本工具的回调");
    assert_eq!(current_manager_command("C:\\a.exe"), strings(&["C:\\a.exe", "--notify"]));
}

#[test]
fn reads_unc_device_and_verbatim_prefixes() {
    assert_eq!(path_file_name(r"\\server\share.wav"), None);
    assert_eq!(path_file_name(r"\\server\share\x.wav").as_deref(), Some("x.wav"));
    assert_eq!(path_file_name("//server/share/x.wav").as_deref(), Some("x.wav"));
    assert_eq!(path_file_name(r"\\server\share\"), None);
    assert_eq!(path_file_name(r"\\.\COM1"), None);
    assert_eq!(path_file_name(r"\\?\C:\music\a/b.wav").as_deref(), Some("a/b.wav"));
    assert_eq!(path_file_name(r"\\?\C:\music\."), None);
    assert_eq!(path_file_name(r"\\?\UNC\server\share\bell.mp3").as_deref(), Some("bell.mp3"));
    assert_eq!(path_file_name(r"\\?\pictures"), None);
    assert_eq!(path_extension(r"\\server\share.wav"), None);
    assert!(!is_computer_use_wrapper(&[r"\\server\codex-computer-use.exe".to_string()]));
    assert!(is_computer_use_wrapper(&[r"\\server\tools\codex-computer-use.exe".to_string()]));
}

#[test]
fn compares_paths_by_components() {
    assert!(paths_equal(r"C:/Users/demo/a.wav", r"c:\Users\demo\a.wav"));
    assert!(paths_equal(r"C:\a\\b\", r"C:\a\b"));
    assert!(paths_equal(r"C:\a\.\b", r"C:\a\b"));
    assert!(!paths_equal(r"C:\A", r"C:\a"));
    assert!(!paths_equal(r"C:\a", r"C:a"));
    assert!(!paths_equal(r"C:\a\..\b", r"C:\b"));
    assert!(paths_equal(r"\\server\share", r"//server/share/"));
    assert!(!paths_equal(r"\\?\C:\a/b", r"\\?\C:\a\b"));
}

#[test]
fn joins_like_pathbuf_push() {
    assert_eq!(join(r"\\server\share", "x"), r"\\server\share\x");
    assert_eq!(join("C:", "x"), "C:x");
    assert_eq!(join(r"C:\dir", r"\x"), r"C:\x");
    assert_eq!(join(r"C:\dir", r"D:\b"), r"D:\b");
    assert_eq!(join(r"\\?\C:\a\\b\", "x"), r"\\?\C:\a\b\x");
    assert_eq!(join(r"\\?\C:\a\b", r"..\c"), r"\\?\C:\a\c");
    assert_eq!(join(r"\\?\C:\a", r"\x"), r"\\?\C:\x");
}
