//! Sound files: the bundled default, the imported custom sound, and the
//! custom sound of an older installation.

use vstd::prelude::*;
use crate::path::{
    extension, file_name, join, join_path, path_extension, path_file_name, paths_equal, same_path,
};
use crate::settings::AppSettings;
use crate::text::{ascii_lowercase, join2, owned, same_text, to_ascii_lowercase};

verus! {

/// The largest sound file that can be imported: 50 MiB.
pub const MAX_SOUND_BYTES: u64 = 52428800;

/// The folder of sounds inside this tool's data folder.
pub open spec fn sounds_dir(app_dir: Seq<char>) -> Seq<char> {
    join_path(app_dir, "sounds"@)
}

/// Where the bundled default sound is written.
pub open spec fn default_sound_file(app_dir: Seq<char>) -> Seq<char> {
    join_path(sounds_dir(app_dir), "default-notification.wav"@)
}

/// The path of the bundled default sound in this tool's data folder.
pub fn default_sound_path(app_dir: &str) -> (r: String)
    ensures
        r@ == default_sound_file(app_dir@),
{
    let directory = join(app_dir, "sounds");
    join(directory.as_str(), "default-notification.wav")
}

/// Whether the default sound must be (re)written: the file could not be
/// read, or its bytes differ from the bundled ones.
pub fn should_write_default_sound(existing: Option<&[u8]>, bundled: &[u8]) -> (r: bool)
    ensures
        r == match existing {
            Some(bytes) => bytes@ != bundled@,
            None => true,
        },
{
    match existing {
        None => true,
        Some(bytes) => {
            let n = bytes.len();
            if n != bundled.len() {
                assert(bytes@.len() != bundled@.len());
                return true;
            }
            let mut i: usize = 0;
            while i < n
                invariant
                    existing == Some(bytes),
                    n == bytes@.len(),
                    n == bundled@.len(),
                    i <= n,
                    forall|j: int| 0 <= j < i ==> bytes@[j] == bundled@[j],
                decreases n - i,
            {
                if bytes[i] != bundled[i] {
                    assert(bytes@[i as int] != bundled@[i as int]);
                    return true;
                }
                i = i + 1;
            }
            assert(bytes@ =~= bundled@);
            false
        },
    }
}

/// The lowercase extension of a path.
pub open spec fn lower_extension(p: Seq<char>) -> Option<Seq<char>> {
    match extension(p) {
        Some(e) => Some(ascii_lowercase(e)),
        None => None,
    }
}

/// Where an imported custom sound with this extension is kept.
pub open spec fn custom_sound_file(dir: Seq<char>, ext: Seq<char>) -> Seq<char> {
    join_path(dir, "custom-sound."@ + ext)
}

/// The lowercase extension of a path.
fn lower_extension_of(p: &str) -> (r: Option<String>)
    ensures
        r.deep_view() == lower_extension(p@),
{
    match path_extension(p) {
        Some(e) => Some(to_ascii_lowercase(e.as_str())),
        None => None,
    }
}

/// The file name of a sound for display: its file name, or a generic name.
pub open spec fn display_name(p: Seq<char>) -> Seq<char> {
    match file_name(p) {
        Some(n) => n,
        None => "自定义提示音"@,
    }
}

pub fn display_name_of(p: &str) -> (r: String)
    ensures
        r@ == display_name(p@),
{
    match path_file_name(p) {
        Some(n) => n,
        None => owned("自定义提示音"),
    }
}

/// The path of the custom sound that an older installation used: the
/// configured file when it exists, else a file of the same name in the old
/// installation's `sounds` folder when that exists.
pub open spec fn redirected_sound(configured: Seq<char>, legacy_dir: Seq<char>) -> Option<Seq<char>> {
    match file_name(configured) {
        Some(name) => Some(join_path(sounds_dir(legacy_dir), name)),
        None => None,
    }
}

/// Where the custom sound of an older installation may have moved to.
pub fn redirected_sound_path(settings: &AppSettings, legacy_directory: &str) -> (r: Option<String>)
    ensures
        settings@.sound_path matches Some(p) ==> r.deep_view() == redirected_sound(
            p,
            legacy_directory@,
        ),
        settings@.sound_path is None ==> r is None,
{
    match &settings.sound_path {
        Some(configured) => match path_file_name(configured.as_str()) {
            Some(name) => {
                let sounds = join(legacy_directory, "sounds");
                Some(join(sounds.as_str(), name.as_str()))
            },
            None => None,
        },
        None => None,
    }
}

/// The custom sound to migrate from an older installation;
/// `configured_is_file` tells whether the configured path is a file and
/// `redirected_is_file` whether the `redirected_sound_path` is.
pub fn legacy_sound_source(
    settings: &AppSettings,
    legacy_directory: &str,
    configured_is_file: bool,
    redirected_is_file: bool,
) -> (r: Option<String>)
    ensures
        r.deep_view() == match settings@.sound_path {
            None => None,
            Some(p) => if configured_is_file {
                Some(p)
            } else if redirected_is_file {
                redirected_sound(p, legacy_directory@)
            } else {
                None
            },
        },
{
    match &settings.sound_path {
        None => None,
        Some(configured) => {
            if configured_is_file {
                Some(configured.clone())
            } else if redirected_is_file {
                redirected_sound_path(settings, legacy_directory)
            } else {
                None
            }
        },
    }
}

/// Where a migrated custom sound goes, or why it cannot be migrated.
pub open spec fn migration_target(app_dir: Seq<char>, source: Seq<char>) -> Result<Seq<char>, Seq<char>> {
    match lower_extension(source) {
        Some(ext) => Ok(custom_sound_file(sounds_dir(app_dir), ext)),
        None => Err("旧版自定义提示音没有有效扩展名"@),
    }
}

/// Where a migrated custom sound goes.
pub fn migration_destination(app_dir: &str, source: &str) -> (r: Result<String, String>)
    ensures
        migration_target(app_dir@, source@) matches Ok(d) ==> (r matches Ok(p) && p@ == d),
        migration_target(app_dir@, source@) matches Err(e) ==> (r matches Err(m) && m@ == e),
{
    match lower_extension_of(source) {
        Some(ext) => {
            let sounds = join(app_dir, "sounds");
            let file = join2("custom-sound.", ext.as_str());
            Ok(join(sounds.as_str(), file.as_str()))
        },
        None => Err(owned("旧版自定义提示音没有有效扩展名")),
    }
}

/// A chosen sound: the path it is kept at and its display name.
#[derive(Debug)]
pub struct SoundSelection {
    pub path: String,
    pub name: String,
}

/// The extensions accepted when importing, in lowercase.
pub open spec fn is_listed_extension(e: Seq<char>) -> bool {
    ||| e == "wav"@
    ||| e == "mp3"@
    ||| e == "flac"@
    ||| e == "ogg"@
    ||| e == "m4a"@
    ||| e == "aac"@
}

/// Why a file cannot be imported as the custom sound, if it cannot.
pub open spec fn import_error(source: Seq<char>, size: u64) -> Option<Seq<char>> {
    if size > MAX_SOUND_BYTES {
        Some("音频文件不能超过 50 MB"@)
    } else {
        match lower_extension(source) {
            None => Some("无法识别音频文件格式"@),
            Some(ext) => if !is_listed_extension(ext) {
                Some("请选择 WAV、MP3、FLAC、OGG、M4A 或 AAC 音频文件"@)
            } else {
                None
            },
        }
    }
}

/// Imports a chosen file as the custom sound: checks its size and format
/// and names where it is kept; the flag tells whether it must be copied
/// there (it is not already that path, compared as `Path` compares).
pub fn sound_import(destination_dir: &str, source: &str, size: u64) -> (r: Result<
    (SoundSelection, bool),
    String,
>)
    ensures
        import_error(source@, size) matches Some(e) ==> (r matches Err(m) && m@ == e),
        import_error(source@, size) is None ==> (r matches Ok((selection, copy)) && {
            let dest = custom_sound_file(destination_dir@, lower_extension(source@).unwrap());
            &&& selection.path@ == dest
            &&& selection.name@ == display_name(source@)
            &&& copy == !same_path(source@, dest)
        }),
{
    if size > MAX_SOUND_BYTES {
        return Err(owned("音频文件不能超过 50 MB"));
    }
    let ext = match lower_extension_of(source) {
        Some(ext) => ext,
        None => return Err(owned("无法识别音频文件格式")),
    };
    let e = ext.as_str();
    if !(same_text(e, "wav") || same_text(e, "mp3") || same_text(e, "flac") || same_text(e, "ogg")
        || same_text(e, "m4a") || same_text(e, "aac")) {
        return Err(owned("请选择 WAV、MP3、FLAC、OGG、M4A 或 AAC 音频文件"));
    }
    let file = join2("custom-sound.", e);
    let destination = join(destination_dir, file.as_str());
    let copy = !paths_equal(source, destination.as_str());
    Ok((SoundSelection { path: destination, name: display_name_of(source) }, copy))
}

/// A file of at most 50 MiB whose lowercase extension is wav, mp3, flac,
/// ogg, m4a or aac is imported; the format error comes only for a file
/// without an extension or with another one.
pub proof fn lemma_listed_formats_are_imported(source: Seq<char>, size: u64)
    ensures
        size <= 52428800 && (lower_extension(source) matches Some(e) && (e == "wav"@ || e == "mp3"@
            || e == "flac"@ || e == "ogg"@ || e == "m4a"@ || e == "aac"@)) ==> import_error(source, size)
            is None,
        import_error(source, size) == Some("请选择 WAV、MP3、FLAC、OGG、M4A 或 AAC 音频文件"@) ==> (
        lower_extension(source) matches Some(e) && e != "wav"@ && e != "mp3"@ && e != "flac"@ && e
            != "ogg"@ && e != "m4a"@ && e != "aac"@),
        size > 52428800 ==> import_error(source, size) == Some("音频文件不能超过 50 MB"@),
{
    reveal_strlit("请选择 WAV、MP3、FLAC、OGG、M4A 或 AAC 音频文件");
    reveal_strlit("无法识别音频文件格式");
    reveal_strlit("音频文件不能超过 50 MB");
    assert("请选择 WAV、MP3、FLAC、OGG、M4A 或 AAC 音频文件"@ != "无法识别音频文件格式"@) by {
        assert("无法识别音频文件格式"@.len() == 10);
    }
    assert("请选择 WAV、MP3、FLAC、OGG、M4A 或 AAC 音频文件"@ != "音频文件不能超过 50 MB"@) by {
        assert("音频文件不能超过 50 MB"@.len() == 14);
    }
}

} // verus!
