//! The tool's settings: their model, defaults, validation and normalization,
//! and the decisions that pick the sound to play.

use vstd::prelude::*;
use crate::path::{extension, path_extension};
use crate::text::{ascii_eq_ignore_case, eq_ignore_ascii_case, owned};

verus! {

/// The settings stored in `settings.json`.
#[derive(Debug)]
pub struct AppSettings {
    pub enabled: bool,
    pub play_count: u8,
    pub floating_ball_enabled: bool,
    pub sound_path: Option<String>,
    pub sound_name: Option<String>,
    pub previous_notifier: Option<Vec<String>>,
    pub codex_home: Option<String>,
}

/// The mathematical content of the settings.
pub struct SettingsModel {
    pub enabled: bool,
    pub play_count: u8,
    pub floating_ball_enabled: bool,
    pub sound_path: Option<Seq<char>>,
    pub sound_name: Option<Seq<char>>,
    pub previous_notifier: Option<Seq<Seq<char>>>,
    pub codex_home: Option<Seq<char>>,
}

impl View for AppSettings {
    type V = SettingsModel;

    open spec fn view(&self) -> SettingsModel {
        SettingsModel {
            enabled: self.enabled,
            play_count: self.play_count,
            floating_ball_enabled: self.floating_ball_enabled,
            sound_path: self.sound_path.deep_view(),
            sound_name: self.sound_name.deep_view(),
            previous_notifier: self.previous_notifier.deep_view(),
            codex_home: self.codex_home.deep_view(),
        }
    }
}

/// The settings of a fresh installation.
pub open spec fn default_settings() -> SettingsModel {
    SettingsModel {
        enabled: true,
        play_count: 2,
        floating_ball_enabled: false,
        sound_path: None,
        sound_name: None,
        previous_notifier: None,
        codex_home: None,
    }
}

impl Default for AppSettings {
    fn default() -> (r: Self)
        ensures
            r@ == default_settings(),
    {
        AppSettings {
            enabled: true,
            play_count: 2,
            floating_ball_enabled: false,
            sound_path: None,
            sound_name: None,
            previous_notifier: None,
            codex_home: None,
        }
    }
}

/// The sound file formats that can be chosen.
pub open spec fn is_supported_extension(e: Seq<char>) -> bool {
    ||| ascii_eq_ignore_case(e, "wav"@)
    ||| ascii_eq_ignore_case(e, "mp3"@)
    ||| ascii_eq_ignore_case(e, "flac"@)
    ||| ascii_eq_ignore_case(e, "ogg"@)
    ||| ascii_eq_ignore_case(e, "m4a"@)
    ||| ascii_eq_ignore_case(e, "aac"@)
}

/// A path names a sound file of a supported format, judged by its extension
/// without regard to ASCII case.
pub open spec fn is_supported_sound_path(p: Seq<char>) -> bool {
    match extension(p) {
        Some(e) => is_supported_extension(e),
        None => false,
    }
}

/// Whether the path names a sound file of a supported format.
pub fn is_supported_sound_file(path: &str) -> (r: bool)
    ensures
        r == is_supported_sound_path(path@),
{
    match path_extension(path) {
        Some(e) => {
            let e = e.as_str();
            eq_ignore_ascii_case(e, "wav") || eq_ignore_ascii_case(e, "mp3") || eq_ignore_ascii_case(
                e,
                "flac",
            ) || eq_ignore_ascii_case(e, "ogg") || eq_ignore_ascii_case(e, "m4a")
                || eq_ignore_ascii_case(e, "aac")
        },
        None => false,
    }
}

/// `play_count.clamp(1, 10)`.
pub open spec fn clamped_play_count(n: u8) -> u8 {
    if n < 1 {
        1
    } else if n > 10 {
        10
    } else {
        n
    }
}

/// The configured custom sound is unusable: it is not an existing file or
/// not of a supported format.
pub open spec fn sound_is_invalid(s: SettingsModel, sound_file_exists: bool) -> bool {
    match s.sound_path {
        Some(p) => !sound_file_exists || !is_supported_sound_path(p),
        None => false,
    }
}

/// Settings as they are after loading: the play count within 1 to 10, an
/// unusable custom sound forgotten together with its name, and an empty
/// sound name dropped.
pub open spec fn normalized(s: SettingsModel, sound_file_exists: bool) -> SettingsModel {
    let invalid = sound_is_invalid(s, sound_file_exists);
    let name = if invalid {
        None
    } else {
        s.sound_name
    };
    SettingsModel {
        play_count: clamped_play_count(s.play_count),
        sound_path: if invalid {
            None
        } else {
            s.sound_path
        },
        sound_name: if name == Some(Seq::<char>::empty()) {
            None
        } else {
            name
        },
        ..s
    }
}

/// Normalizes loaded settings; `sound_file_exists` tells whether the custom
/// sound path names an existing file.
pub fn normalize_settings(settings: &mut AppSettings, sound_file_exists: bool)
    ensures
        final(settings)@ == normalized(old(settings)@, sound_file_exists),
{
    let count = settings.play_count;
    settings.play_count = if count < 1 {
        1
    } else if count > 10 {
        10
    } else {
        count
    };
    let invalid_sound = match &settings.sound_path {
        Some(path) => !sound_file_exists || !is_supported_sound_file(path.as_str()),
        None => false,
    };
    if invalid_sound {
        settings.sound_path = None;
        settings.sound_name = None;
    }
    let empty_name = match &settings.sound_name {
        Some(name) => name.as_str().unicode_len() == 0,
        None => false,
    };
    if empty_name {
        settings.sound_name = None;
    }
    proof {
        let ghost n = normalized(old(settings)@, sound_file_exists);
        if empty_name {
            assert(n.sound_name == Some(Seq::<char>::empty())
                || n.sound_name is None) by {
                if !invalid_sound {
                    assert(old(settings)@.sound_name.unwrap() =~= Seq::<char>::empty());
                }
            }
        }
    }
}

/// Why settings cannot be saved or played, if they cannot.
pub open spec fn settings_error(s: SettingsModel, sound_file_exists: bool) -> Option<Seq<char>> {
    if !(1 <= s.play_count <= 10) {
        Some("播放次数必须在 1 到 10 之间"@)
    } else if s.sound_path is Some && !sound_file_exists {
        Some("自定义提示音文件不存在，请重新选择"@)
    } else if s.sound_path is Some && !is_supported_sound_path(s.sound_path.unwrap()) {
        Some("自定义提示音格式不受支持"@)
    } else {
        None
    }
}

/// Checks settings before they are saved or played.
pub fn validate_settings(settings: &AppSettings, sound_file_exists: bool) -> (r: Result<(), String>)
    ensures
        r is Ok <==> settings_error(settings@, sound_file_exists) is None,
        r matches Err(message) ==> Some(message@) == settings_error(settings@, sound_file_exists),
{
    if !(1 <= settings.play_count && settings.play_count <= 10) {
        return Err(owned("播放次数必须在 1 到 10 之间"));
    }
    if settings.sound_path.is_some() && !sound_file_exists {
        return Err(owned("自定义提示音文件不存在，请重新选择"));
    }
    if let Some(path) = &settings.sound_path {
        if !is_supported_sound_file(path.as_str()) {
            return Err(owned("自定义提示音格式不受支持"));
        }
    }
    Ok(())
}

/// Settings read from `settings.json`: the parsed settings, normalized.
pub fn read_settings(parsed: Result<AppSettings, String>, sound_file_exists: bool) -> (r: Result<
    AppSettings,
    String,
>)
    ensures
        parsed matches Ok(s) ==> (r matches Ok(t) && t@ == normalized(s@, sound_file_exists)),
        parsed matches Err(e) ==> (r matches Err(f) && f@ == e@),
{
    match parsed {
        Ok(mut settings) => {
            normalize_settings(&mut settings, sound_file_exists);
            Ok(settings)
        },
        Err(error) => Err(error),
    }
}

/// The settings in effect: those of the current settings file when it
/// exists, else those migrated from an older installation, else defaults.
pub fn load_settings(
    current: Option<Result<AppSettings, String>>,
    migrated: Option<Result<AppSettings, String>>,
) -> (r: Result<AppSettings, String>)
    ensures
        current matches Some(c) ==> r == c,
        current is None ==> (migrated matches Some(m) ==> r == m),
        current is None && migrated is None ==> (r matches Ok(s) && s@ == default_settings()),
{
    match current {
        Some(result) => result,
        None => match migrated {
            Some(result) => result,
            None => Ok(AppSettings::default()),
        },
    }
}

/// The runtime switches the window needs, without configuration details.
#[derive(Debug)]
pub struct RuntimePreferences {
    pub sound_enabled: bool,
    pub floating_ball_enabled: bool,
}

/// The runtime switches of the settings.
pub fn runtime_preferences(settings: &AppSettings) -> (r: RuntimePreferences)
    ensures
        r.sound_enabled == settings.enabled,
        r.floating_ball_enabled == settings.floating_ball_enabled,
{
    RuntimePreferences {
        sound_enabled: settings.enabled,
        floating_ball_enabled: settings.floating_ball_enabled,
    }
}

/// Which sound to play.
#[derive(Debug)]
pub enum SoundSource {
    /// The user's sound file at this path.
    Custom(String),
    /// The built-in default sound.
    BuiltIn,
}

/// The custom sound when its file exists, else the built-in sound.
pub fn resolved_sound(settings: &AppSettings, sound_file_exists: bool) -> (r: SoundSource)
    ensures
        sound_file_exists ==> (settings.sound_path matches Some(p) ==> (r matches SoundSource::Custom(
            q,
        ) && q@ == p@)),
        !(settings.sound_path is Some && sound_file_exists) ==> r is BuiltIn,
{
    match &settings.sound_path {
        Some(path) if sound_file_exists => SoundSource::Custom(path.clone()),
        _ => SoundSource::BuiltIn,
    }
}

/// What a playback does: which sound, how many times.
pub struct PlaybackPlan {
    pub source: SoundSource,
    pub repetitions: u8,
}

/// Decides a playback: invalid settings are refused, a disabled sound plays
/// nothing, otherwise the resolved sound plays `play_count` times.
pub fn playback_plan(settings: &AppSettings, sound_file_exists: bool) -> (r: Result<
    Option<PlaybackPlan>,
    String,
>)
    ensures
        settings_error(settings@, sound_file_exists) matches Some(e) ==> (r matches Err(m) && m@
            == e),
        settings_error(settings@, sound_file_exists) is None && !settings.enabled ==> r matches Ok(
            None,
        ),
        settings_error(settings@, sound_file_exists) is None && settings.enabled ==> (r matches Ok(
            Some(plan),
        ) && plan.repetitions == settings.play_count && (settings.sound_path matches Some(p)
            ==> plan.source matches SoundSource::Custom(q) && q@ == p@) && (
        settings.sound_path is None ==> plan.source is BuiltIn)),
{
    match validate_settings(settings, sound_file_exists) {
        Err(error) => Err(error),
        Ok(()) => {
            if !settings.enabled {
                Ok(None)
            } else {
                Ok(
                    Some(
                        PlaybackPlan {
                            source: resolved_sound(settings, sound_file_exists),
                            repetitions: settings.play_count,
                        },
                    ),
                )
            }
        },
    }
}

/// Normalized settings have a play count from 1 to 10, and normalizing
/// them again changes nothing.
pub proof fn lemma_normalized_is_stable(s: SettingsModel, sound_file_exists: bool)
    ensures
        1 <= normalized(s, sound_file_exists).play_count <= 10,
        normalized(normalized(s, sound_file_exists), sound_file_exists) == normalized(
            s,
            sound_file_exists,
        ),
        settings_error(normalized(s, sound_file_exists), sound_file_exists) is None,
{
}

/// What one older installation's migration decides while the older folders
/// are tried in turn: migrated settings end the search with them, an error
/// ends it with the error, and a folder without settings (`Ok(None)`) lets
/// the search go on (`None`).
pub fn migration_outcome(attempt: Result<Option<AppSettings>, String>) -> (r: Option<
    Result<AppSettings, String>,
>)
    ensures
        attempt matches Ok(Some(s)) ==> r == Some(Ok::<AppSettings, String>(s)),
        attempt matches Ok(None) ==> r is None,
        attempt matches Err(e) ==> r == Some(Err::<AppSettings, String>(e)),
{
    match attempt {
        Ok(Some(settings)) => Some(Ok(settings)),
        Ok(None) => None,
        Err(error) => Some(Err(error)),
    }
}

/// A path is a supported sound file exactly when its extension is, ignoring
/// ASCII case, one of wav, mp3, flac, ogg, m4a and aac.
pub proof fn lemma_supported_formats(p: Seq<char>)
    ensures
        is_supported_sound_path(p) <==> (extension(p) matches Some(e) && (ascii_eq_ignore_case(
            e,
            "wav"@,
        ) || ascii_eq_ignore_case(e, "mp3"@) || ascii_eq_ignore_case(e, "flac"@)
            || ascii_eq_ignore_case(e, "ogg"@) || ascii_eq_ignore_case(e, "m4a"@)
            || ascii_eq_ignore_case(e, "aac"@))),
{
}

} // verus!
