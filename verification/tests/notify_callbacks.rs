use codex_sound_manager::commands::{
    command_contains_manager, command_uses_exact_manager, is_computer_use_wrapper,
    nested_previous_notifier,
};
use codex_sound_manager::config::notify_command;
use codex_sound_manager::notify::{install_notify, uninstall_notify};
use codex_sound_manager::settings::AppSettings;
use toml_edit::DocumentMut;

fn manager_command() -> Vec<String> {
    vec![
        r"C:\Program Files\Codex Sound Manager\codex-sound-manager.exe".to_string(),
        "--notify".to_string(),
    ]
}

#[test]
fn installs_and_restores_plain_notifier_without_losing_comments() {
    let mut document = r#"# 中文注释
model = "gpt-test"
notify = ["notify-send", "Codex"]
"#
    .parse::<DocumentMut>()
    .unwrap();
    let mut settings = AppSettings::default();
    install_notify(&mut document, &manager_command(), &mut settings).unwrap();
    assert!(command_contains_manager(
        &notify_command(&document).unwrap()
    ));
    assert!(document.to_string().contains("# 中文注释"));
    assert_eq!(
        settings.previous_notifier.as_ref().unwrap()[0],
        "notify-send"
    );

    assert!(uninstall_notify(&mut document, &mut settings).unwrap());
    assert_eq!(notify_command(&document).unwrap()[0], "notify-send");
}

#[test]
fn updates_computer_use_previous_notifier_in_place() {
    let previous = serde_json::to_string(&vec!["notify-send", "Codex"]).unwrap();
    let source = format!(
        "notify = ['C:\\\\Codex\\\\codex-computer-use.exe', 'turn-ended', '--previous-notify', '{}']\n",
        previous.replace('\\', "\\\\").replace('\'', "\\'")
    );
    let mut document = source.parse::<DocumentMut>().unwrap();
    let mut settings = AppSettings::default();
    install_notify(&mut document, &manager_command(), &mut settings).unwrap();
    let command = notify_command(&document).unwrap();
    assert!(is_computer_use_wrapper(&command));
    assert!(command_contains_manager(&command));
    assert_eq!(
        settings.previous_notifier.as_ref().unwrap()[0],
        "notify-send"
    );

    assert!(uninstall_notify(&mut document, &mut settings).unwrap());
    let restored = notify_command(&document).unwrap();
    assert_eq!(
        nested_previous_notifier(&restored).unwrap().1[0],
        "notify-send"
    );
}

#[test]
fn detects_when_the_configured_manager_command_is_unchanged() {
    let manager = manager_command();
    assert!(command_uses_exact_manager(&manager, &manager));

    let wrapped = vec![
        r"C:\Codex\codex-computer-use.exe".to_string(),
        "turn-ended".to_string(),
        "--previous-notify".to_string(),
        serde_json::to_string(&manager).unwrap(),
    ];
    assert!(command_uses_exact_manager(&wrapped, &manager));

    let mut moved_manager = manager.clone();
    moved_manager[0] = r"D:\Different\codex-sound-manager.exe".to_string();
    assert!(!command_uses_exact_manager(&moved_manager, &manager));
}

#[test]
fn ignores_legacy_personal_sound_script() {
    let mut document = r#"notify = ["powershell.exe", "-File", "C:\\Users\\demo\\.codex\\bin\\task-complete.ps1"]
"#
    .parse::<DocumentMut>()
    .unwrap();
    let mut settings = AppSettings::default();
    install_notify(&mut document, &manager_command(), &mut settings).unwrap();
    assert!(settings.previous_notifier.is_none());
}

#[test]
fn rejects_invalid_notify_without_overwriting_it() {
    let mut document = "notify = 'not-an-array'\n".parse::<DocumentMut>().unwrap();
    let mut settings = AppSettings::default();
    let error = install_notify(&mut document, &manager_command(), &mut settings).unwrap_err();
    assert!(error.contains("notify"));
    assert_eq!(document["notify"].as_str(), Some("not-an-array"));
}

#[test]
fn rejects_malformed_computer_use_previous_notifier() {
    let mut document =
        r#"notify = ["C:\\Codex\\codex-computer-use.exe", "turn-ended", "--previous-notify"]
"#
        .parse::<DocumentMut>()
        .unwrap();
    let mut settings = AppSettings::default();
    let error = install_notify(&mut document, &manager_command(), &mut settings).unwrap_err();
    assert!(error.contains("缺少命令参数"));
    assert_eq!(
        notify_command(&document)
            .unwrap()
            .iter()
            .filter(|argument| argument.as_str() == "--previous-notify")
            .count(),
        1
    );
}

#[test]
fn reapplying_after_moving_the_app_rewrites_the_callback() {
    let mut document = r#"notify = ["D:\\Old\\codex-sound-manager.exe", "--notify"]
"#
    .parse::<DocumentMut>()
    .unwrap();
    let moved = vec![
        r"C:\New\codex-sound-manager.exe".to_string(),
        "--notify".to_string(),
    ];
    let mut settings = AppSettings {
        previous_notifier: Some(vec!["notify-send".to_string(), "Codex".to_string()]),
        ..AppSettings::default()
    };
    install_notify(&mut document, &moved, &mut settings).unwrap();
    assert_eq!(notify_command(&document), Some(moved.clone()));
    assert_eq!(
        settings.previous_notifier,
        Some(vec!["notify-send".to_string(), "Codex".to_string()])
    );
    assert!(uninstall_notify(&mut document, &mut settings).unwrap());
    assert_eq!(notify_command(&document).unwrap()[0], "notify-send");
}

#[test]
fn reinstalling_the_same_callback_keeps_the_text() {
    let path = "C:/Program Files/Codex Sound Manager/codex-sound-manager.exe";
    let text = format!("# keep me\nnotify = [ \"{path}\",  \"--notify\" ] # trailing\n");
    let mut document = text.parse::<DocumentMut>().unwrap();
    let manager = vec![path.to_string(), "--notify".to_string()];
    let mut settings = AppSettings {
        previous_notifier: Some(vec!["notify-send".to_string()]),
        ..AppSettings::default()
    };
    install_notify(&mut document, &manager, &mut settings).unwrap();
    assert_eq!(document.to_string(), text);
    assert_eq!(settings.previous_notifier, Some(vec!["notify-send".to_string()]));
}

#[test]
fn refused_edits_leave_the_document_text() {
    let text = "# note\nmodel = \"gpt-test\"\nnotify = 'not-an-array'\n";
    let mut document = text.parse::<DocumentMut>().unwrap();
    let mut settings = AppSettings::default();
    assert!(install_notify(&mut document, &manager_command(), &mut settings).is_err());
    assert_eq!(document.to_string(), text);
    assert!(uninstall_notify(&mut document, &mut settings).is_err());
    assert_eq!(document.to_string(), text);

    let text = "notify = [\"C:\\\\Codex\\\\codex-computer-use.exe\", \"turn-ended\", \"--previous-notify\"] # wrapper\n";
    let mut document = text.parse::<DocumentMut>().unwrap();
    assert!(install_notify(&mut document, &manager_command(), &mut settings).is_err());
    assert_eq!(document.to_string(), text);

    let text = "# foreign\nnotify = [\"notify-send\",   \"Codex\"]\n";
    let mut document = text.parse::<DocumentMut>().unwrap();
    assert!(!uninstall_notify(&mut document, &mut settings).unwrap());
    assert_eq!(document.to_string(), text);
}

#[test]
fn edits_keep_other_values_and_comments() {
    let mut document = "# 中文注释\nmodel = \"gpt-test\"\n# about notify\nnotify = [\"notify-send\", \"Codex\"]\n[tools]\nweb = true\n"
        .parse::<DocumentMut>()
        .unwrap();
    let mut settings = AppSettings::default();
    install_notify(&mut document, &manager_command(), &mut settings).unwrap();
    assert_eq!(document["model"].as_str(), Some("gpt-test"));
    assert_eq!(document["tools"]["web"].as_bool(), Some(true));
    assert!(document.to_string().contains("# 中文注释\nmodel = \"gpt-test\"\n"));
    assert!(uninstall_notify(&mut document, &mut settings).unwrap());
    assert_eq!(document["model"].as_str(), Some("gpt-test"));
    assert_eq!(document["tools"]["web"].as_bool(), Some(true));
    assert!(document.to_string().contains("# 中文注释\nmodel = \"gpt-test\"\n"));
    assert_eq!(
        notify_command(&document),
        Some(vec!["notify-send".to_string(), "Codex".to_string()])
    );
}
