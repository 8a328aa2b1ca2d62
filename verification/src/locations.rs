//! Where Codex and this tool keep their files, worked out from the user's
//! environment variables and from what exists on disk.

use vstd::prelude::*;
use crate::path::{join, join_path};
use crate::settings::AppSettings;
use crate::text::{ascii_lowercase, has_prefix, join2, owned, starts_with, to_ascii_lowercase};

verus! {

/// The environment variables that locate the user's folders.
pub struct HomeEnvironment {
    pub codex_home: Option<String>,
    pub user_profile: Option<String>,
    pub home_drive: Option<String>,
    pub home_path: Option<String>,
    pub local_app_data: Option<String>,
}

/// The mathematical content of the environment.
pub struct HomeModel {
    pub codex_home: Option<Seq<char>>,
    pub user_profile: Option<Seq<char>>,
    pub home_drive: Option<Seq<char>>,
    pub home_path: Option<Seq<char>>,
    pub local_app_data: Option<Seq<char>>,
}

impl View for HomeEnvironment {
    type V = HomeModel;

    open spec fn view(&self) -> HomeModel {
        HomeModel {
            codex_home: self.codex_home.deep_view(),
            user_profile: self.user_profile.deep_view(),
            home_drive: self.home_drive.deep_view(),
            home_path: self.home_path.deep_view(),
            local_app_data: self.local_app_data.deep_view(),
        }
    }
}

/// What `str::to_lowercase` gives: the Unicode lowercase of a text.
pub uninterp spec fn unicode_lowercase(s: Seq<char>) -> Seq<char>;

/// Unicode lowercase of a text.
///
/// Trusted: calls `str::to_lowercase`, whose result depends on the text
/// alone (Unicode's lowercase mapping).
#[verifier::external_body]
fn lowercase(s: &str) -> (r: String)
    ensures
        r@ == unicode_lowercase(s@),
{
    s.to_lowercase()
}

/// The `.codex` folder under a home folder.
pub open spec fn codex_under(home: Seq<char>) -> Seq<char> {
    join_path(home, ".codex"@)
}

/// The home folder that `HOMEDRIVE` and `HOMEPATH` name together.
pub open spec fn drive_home(env: HomeModel) -> Option<Seq<char>> {
    match (env.home_drive, env.home_path) {
        (Some(drive), Some(path)) => Some(drive + path),
        _ => None,
    }
}

/// Codex's default data folder: `CODEX_HOME`, else `.codex` under
/// `USERPROFILE`, else `.codex` under `HOMEDRIVE` + `HOMEPATH`.
pub open spec fn default_home(env: HomeModel) -> Option<Seq<char>> {
    match env.codex_home {
        Some(home) => Some(home),
        None => match env.user_profile {
            Some(profile) => Some(codex_under(profile)),
            None => match drive_home(env) {
                Some(home) => Some(codex_under(home)),
                None => None,
            },
        },
    }
}

/// Codex's default data folder for this user.
pub fn default_codex_home(env: &HomeEnvironment) -> (r: Option<String>)
    ensures
        r.deep_view() == default_home(env@),
{
    if let Some(home) = &env.codex_home {
        return Some(home.clone());
    }
    if let Some(profile) = &env.user_profile {
        return Some(join(profile.as_str(), ".codex"));
    }
    match (&env.home_drive, &env.home_path) {
        (Some(drive), Some(path)) => {
            let home = join2(drive.as_str(), path.as_str());
            Some(join(home.as_str(), ".codex"))
        },
        _ => None,
    }
}

/// The message when no data folder can be found.
pub open spec fn no_data_dir_message() -> Seq<char> {
    "无法确定当前用户的 Codex 数据目录"@
}

/// This tool's data folder: `codex-sound-manager` in Codex's default folder.
pub open spec fn app_dir(env: HomeModel) -> Option<Seq<char>> {
    match default_home(env) {
        Some(home) => Some(join_path(home, "codex-sound-manager"@)),
        None => None,
    }
}

/// This tool's data folder.
pub fn app_data_dir(env: &HomeEnvironment) -> (r: Result<String, String>)
    ensures
        app_dir(env@) matches Some(d) ==> (r matches Ok(p) && p@ == d),
        app_dir(env@) is None ==> (r matches Err(m) && m@ == no_data_dir_message()),
{
    match default_codex_home(env) {
        Some(home) => Ok(join(home.as_str(), "codex-sound-manager")),
        None => Err(owned("无法确定当前用户的 Codex 数据目录")),
    }
}

/// The settings file in this tool's data folder.
pub fn settings_path(env: &HomeEnvironment) -> (r: Result<String, String>)
    ensures
        app_dir(env@) matches Some(d) ==> (r matches Ok(p) && p@ == join_path(d, "settings.json"@)),
        app_dir(env@) is None ==> (r matches Err(m) && m@ == no_data_dir_message()),
{
    let directory = app_data_dir(env)?;
    Ok(join(directory.as_str(), "settings.json"))
}

/// Some earlier entry has the same lowercase key.
pub open spec fn key_seen(paths: Seq<Seq<char>>, key: Seq<char>) -> bool {
    exists|j: int| 0 <= j < paths.len() && unicode_lowercase(#[trigger] paths[j]) == key
}

/// The paths in their order, each kept only when no earlier path has the
/// same Unicode lowercase form.
pub open spec fn dedup_lowercase(paths: Seq<Seq<char>>) -> Seq<Seq<char>>
    decreases paths.len(),
{
    if paths.len() == 0 {
        seq![]
    } else {
        let rest = dedup_lowercase(paths.drop_last());
        if key_seen(paths.drop_last(), unicode_lowercase(paths.last())) {
            rest
        } else {
            rest.push(paths.last())
        }
    }
}

/// The lowercase keys of paths.
pub open spec fn keys_of(paths: Seq<Seq<char>>) -> Seq<Seq<char>> {
    paths.map_values(|p: Seq<char>| unicode_lowercase(p))
}

/// A key occurs among the kept paths exactly when some path has it.
pub proof fn lemma_dedup_keys(paths: Seq<Seq<char>>, key: Seq<char>)
    ensures
        keys_of(dedup_lowercase(paths)).contains(key) <==> key_seen(paths, key),
    decreases paths.len(),
{
    if paths.len() > 0 {
        let init = paths.drop_last();
        let last = paths.last();
        let last_key = unicode_lowercase(last);
        lemma_dedup_keys(init, key);
        let rest = dedup_lowercase(init);
        let out = dedup_lowercase(paths);
        assert(paths[paths.len() - 1] == last);
        assert(key_seen(init, key) ==> key_seen(paths, key)) by {
            if key_seen(init, key) {
                let k = choose|k: int| 0 <= k < init.len() && unicode_lowercase(#[trigger] init[k]) == key;
                assert(paths[k] == init[k]);
            }
        }
        if key_seen(init, last_key) {
            assert(out == rest);
            lemma_dedup_keys(init, last_key);
            assert(key_seen(paths, key) ==> key_seen(init, key)) by {
                if key_seen(paths, key) {
                    let j = choose|j: int| 0 <= j < paths.len() && unicode_lowercase(#[trigger] paths[j]) == key;
                    if j < init.len() {
                        assert(init[j] == paths[j]);
                    }
                }
            }
        } else {
            assert(out == rest.push(last));
            assert(keys_of(out) =~= keys_of(rest).push(last_key));
            if key_seen(paths, key) {
                let j = choose|j: int| 0 <= j < paths.len() && unicode_lowercase(#[trigger] paths[j]) == key;
                if j < init.len() {
                    assert(init[j] == paths[j]);
                    assert(key_seen(init, key));
                    let i = choose|i: int| 0 <= i < keys_of(rest).len() && keys_of(rest)[i] == key;
                    assert(keys_of(out)[i] == key);
                } else {
                    assert(keys_of(out)[rest.len() as int] == key);
                }
            }
            if keys_of(out).contains(key) {
                let i = choose|i: int| 0 <= i < keys_of(out).len() && keys_of(out)[i] == key;
                if i < rest.len() {
                    assert(keys_of(rest)[i] == key);
                    assert(keys_of(rest).contains(key));
                } else {
                    assert(unicode_lowercase(paths[paths.len() - 1]) == key);
                }
            }
        }
    }
}

/// No two kept paths share a lowercase key.
pub proof fn lemma_dedup_distinct(paths: Seq<Seq<char>>)
    ensures
        forall|i: int, j: int|
            0 <= i < j < dedup_lowercase(paths).len() ==> unicode_lowercase(
                #[trigger] dedup_lowercase(paths)[i],
            ) != unicode_lowercase(#[trigger] dedup_lowercase(paths)[j]),
    decreases paths.len(),
{
    if paths.len() > 0 {
        let init = paths.drop_last();
        lemma_dedup_distinct(init);
        let rest = dedup_lowercase(init);
        let key = unicode_lowercase(paths.last());
        if !key_seen(init, key) {
            lemma_dedup_keys(init, key);
            let out = rest.push(paths.last());
            assert forall|i: int, j: int| 0 <= i < j < out.len() implies unicode_lowercase(
                #[trigger] out[i],
            ) != unicode_lowercase(#[trigger] out[j]) by {
                if j == out.len() - 1 {
                    assert(out[i] == rest[i]);
                    assert(keys_of(rest)[i] == unicode_lowercase(rest[i]));
                    assert(out[j] == paths.last());
                } else {
                    assert(out[i] == rest[i] && out[j] == rest[j]);
                }
            }
        }
    }
}

/// Keeps the first of the paths that differ only in letter case.
pub fn dedup_paths(paths: Vec<String>) -> (r: Vec<String>)
    ensures
        r.deep_view() == dedup_lowercase(paths.deep_view()),
{
    let ghost all = paths.deep_view();
    let n = paths.len();
    let mut out: Vec<String> = Vec::new();
    let mut keys: Vec<String> = Vec::new();
    let mut i: usize = 0;
    while i < n
        invariant
            n == all.len(),
            all == paths.deep_view(),
            i <= n,
            out.deep_view() == dedup_lowercase(all.take(i as int)),
            keys.deep_view() == keys_of(out.deep_view()),
        decreases n - i,
    {
        let key = lowercase(paths[i].as_str());
        let ghost init = all.take(i as int);
        let mut seen = false;
        let mut k: usize = 0;
        while k < keys.len()
            invariant
                k <= keys@.len(),
                !seen ==> forall|m: int| 0 <= m < k ==> keys.deep_view()[m] != key@,
                seen ==> keys.deep_view().contains(key@),
            decreases keys@.len() - k,
        {
            if crate::text::same_text(keys[k].as_str(), key.as_str()) {
                seen = true;
                assert(keys.deep_view()[k as int] == key@);
            }
            k = k + 1;
        }
        proof {
            lemma_dedup_keys(init, key@);
            assert(all.take(i + 1).drop_last() =~= init);
            assert(all.take(i + 1).last() == all[i as int]);
            if !seen {
                assert(!keys.deep_view().contains(key@));
            }
        }
        if !seen {
            out.push(paths[i].clone());
            keys.push(key);
            proof {
                assert(out.deep_view() =~= dedup_lowercase(init).push(all[i as int]));
                assert(keys_of(out.deep_view()) =~= keys_of(dedup_lowercase(init)).push(unicode_lowercase(all[i as int])));
                assert(keys.deep_view() =~= keys_of(dedup_lowercase(init)).push(unicode_lowercase(all[i as int])));
            }
        }
        i = i + 1;
    }
    assert(all.take(n as int) =~= all);
    out
}

/// The places that may be Codex's data folder, in order of preference:
/// the folder remembered in the settings, then the environment's choices.
pub open spec fn home_candidates(remembered: Option<Seq<char>>, env: HomeModel) -> Seq<Seq<char>> {
    let a: Seq<Seq<char>> = match remembered {
        Some(p) => seq![p],
        None => seq![],
    };
    let b: Seq<Seq<char>> = match env.codex_home {
        Some(p) => seq![p],
        None => seq![],
    };
    let c: Seq<Seq<char>> = match env.user_profile {
        Some(p) => seq![codex_under(p)],
        None => seq![],
    };
    let d: Seq<Seq<char>> = match drive_home(env) {
        Some(p) => seq![codex_under(p)],
        None => seq![],
    };
    a + b + c + d
}

/// The candidate data folders of Codex, without repeats that differ only
/// in letter case.
pub fn candidate_codex_homes(settings: &AppSettings, env: &HomeEnvironment) -> (r: Vec<String>)
    ensures
        r.deep_view() == dedup_lowercase(home_candidates(settings@.codex_home, env@)),
{
    let mut candidates: Vec<String> = Vec::new();
    if let Some(path) = &settings.codex_home {
        candidates.push(path.clone());
    }
    if let Some(path) = &env.codex_home {
        candidates.push(path.clone());
    }
    if let Some(profile) = &env.user_profile {
        candidates.push(join(profile.as_str(), ".codex"));
    }
    match (&env.home_drive, &env.home_path) {
        (Some(drive), Some(path)) => {
            let home = join2(drive.as_str(), path.as_str());
            candidates.push(join(home.as_str(), ".codex"));
        },
        _ => {},
    }
    assert(candidates.deep_view() =~= home_candidates(settings@.codex_home, env@));
    dedup_paths(candidates)
}

/// The first position at or after `start` where a flag is set.
pub open spec fn first_set_from(flags: Seq<bool>, start: int) -> Option<int>
    decreases flags.len() - start,
{
    if start < 0 || start >= flags.len() {
        None
    } else if flags[start] {
        Some(start)
    } else {
        first_set_from(flags, start + 1)
    }
}

/// Codex's data folder among the candidates: the first that holds a
/// `config.toml`, else the first that exists as a folder, else the first
/// candidate, else `.codex`.
pub open spec fn chosen_home(
    candidates: Seq<Seq<char>>,
    has_config: Seq<bool>,
    is_dir: Seq<bool>,
) -> Seq<char> {
    match first_set_from(has_config, 0) {
        Some(i) => candidates[i],
        None => match first_set_from(is_dir, 0) {
            Some(i) => candidates[i],
            None => if candidates.len() > 0 {
                candidates[0]
            } else {
                ".codex"@
            },
        },
    }
}

proof fn lemma_first_set_is(flags: Seq<bool>, start: int, i: int)
    requires
        0 <= start <= i < flags.len(),
        flags[i],
        forall|j: int| start <= j < i ==> !flags[j],
    ensures
        first_set_from(flags, start) == Some(i),
    decreases i - start,
{
    if start < i {
        lemma_first_set_is(flags, start + 1, i);
    }
}

proof fn lemma_none_set(flags: Seq<bool>, start: int)
    requires
        0 <= start,
        forall|j: int| start <= j < flags.len() ==> !flags[j],
    ensures
        first_set_from(flags, start) is None,
    decreases flags.len() - start,
{
    if start < flags.len() {
        lemma_none_set(flags, start + 1);
    }
}

/// Codex's folder is the earliest candidate holding a `config.toml`; when
/// none holds one, the earliest that is a folder; when none is, the first
/// candidate, or `.codex` without candidates.
pub proof fn lemma_chosen_home_is_the_earliest(
    candidates: Seq<Seq<char>>,
    has_config: Seq<bool>,
    is_dir: Seq<bool>,
    i: int,
)
    requires
        has_config.len() == candidates.len(),
        is_dir.len() == candidates.len(),
    ensures
        0 <= i < candidates.len() && has_config[i] && (forall|j: int| 0 <= j < i ==> !has_config[j])
            ==> chosen_home(candidates, has_config, is_dir) == candidates[i],
        (forall|j: int| 0 <= j < candidates.len() ==> !has_config[j]) && 0 <= i < candidates.len()
            && is_dir[i] && (forall|j: int| 0 <= j < i ==> !is_dir[j]) ==> chosen_home(
            candidates,
            has_config,
            is_dir,
        ) == candidates[i],
        (forall|j: int| 0 <= j < candidates.len() ==> !has_config[j] && !is_dir[j]) ==> chosen_home(
            candidates,
            has_config,
            is_dir,
        ) == if candidates.len() > 0 {
            candidates[0]
        } else {
            ".codex"@
        },
{
    if 0 <= i < candidates.len() && has_config[i] && (forall|j: int| 0 <= j < i ==> !has_config[j]) {
        lemma_first_set_is(has_config, 0, i);
    }
    if forall|j: int| 0 <= j < candidates.len() ==> !has_config[j] {
        lemma_none_set(has_config, 0);
        if 0 <= i < candidates.len() && is_dir[i] && (forall|j: int| 0 <= j < i ==> !is_dir[j]) {
            lemma_first_set_is(is_dir, 0, i);
        }
    }
    if forall|j: int| 0 <= j < candidates.len() ==> !has_config[j] && !is_dir[j] {
        lemma_none_set(has_config, 0);
        lemma_none_set(is_dir, 0);
    }
}

proof fn lemma_first_set_bounds(flags: Seq<bool>, start: int)
    ensures
        first_set_from(flags, start) matches Some(i) ==> start <= i < flags.len() && flags[i],
    decreases flags.len() - start,
{
    if 0 <= start < flags.len() && !flags[start] {
        lemma_first_set_bounds(flags, start + 1);
    }
}

fn first_set(flags: &[bool]) -> (r: Option<usize>)
    ensures
        r matches Some(i) ==> first_set_from(flags@, 0) == Some(i as int),
        r is None ==> first_set_from(flags@, 0) is None,
{
    let mut i: usize = 0;
    while i < flags.len()
        invariant
            i <= flags@.len(),
            first_set_from(flags@, 0) == first_set_from(flags@, i as int),
        decreases flags@.len() - i,
    {
        if flags[i] {
            return Some(i);
        }
        i = i + 1;
    }
    None
}

/// Chooses Codex's data folder; `has_config[i]` and `is_dir[i]` tell whether
/// candidate `i` holds a `config.toml` and whether it is a folder.
pub fn find_codex_home(candidates: &[String], has_config: &[bool], is_dir: &[bool]) -> (r: String)
    requires
        has_config@.len() == candidates@.len(),
        is_dir@.len() == candidates@.len(),
    ensures
        r@ == chosen_home(candidates.deep_view(), has_config@, is_dir@),
{
    proof {
        lemma_first_set_bounds(has_config@, 0);
        lemma_first_set_bounds(is_dir@, 0);
    }
    if let Some(i) = first_set(has_config) {
        return candidates[i].clone();
    }
    if let Some(i) = first_set(is_dir) {
        return candidates[i].clone();
    }
    if candidates.len() > 0 {
        candidates[0].clone()
    } else {
        owned(".codex")
    }
}

/// The `AppData\Local` folder under the user profile.
pub open spec fn local_under(profile: Seq<char>) -> Seq<char> {
    join_path(join_path(profile, "AppData"@), "Local"@)
}

/// The folder of Windows app packages under the user profile.
pub open spec fn packages_under(profile: Seq<char>) -> Seq<char> {
    join_path(local_under(profile), "Packages"@)
}

/// The folder whose package entries may hold an older installation's data.
pub fn packages_directory(env: &HomeEnvironment) -> (r: Option<String>)
    ensures
        env.user_profile matches Some(p) ==> (r matches Some(d) && d@ == packages_under(p@)),
        env.user_profile is None ==> r is None,
{
    match &env.user_profile {
        Some(profile) => {
            let app_data = join(profile.as_str(), "AppData");
            let local = join(app_data.as_str(), "Local");
            Some(join(local.as_str(), "Packages"))
        },
        None => None,
    }
}

/// A package entry of the Codex app, judged by its name without ASCII case.
pub open spec fn is_codex_package(name: Seq<char>) -> bool {
    has_prefix(ascii_lowercase(name), "openai.codex_"@)
}

/// The older installation's folder inside a Codex package entry.
pub open spec fn package_legacy_dir(packages: Seq<char>, name: Seq<char>) -> Seq<char> {
    join_path(
        join_path(join_path(join_path(packages, name), "LocalCache"@), "Local"@),
        "CodexSoundManager"@,
    )
}

/// The legacy folders inside the Codex package entries, in order.
pub open spec fn package_dirs(packages: Seq<char>, names: Seq<Seq<char>>) -> Seq<Seq<char>>
    decreases names.len(),
{
    if names.len() == 0 {
        seq![]
    } else {
        let rest = package_dirs(packages, names.drop_last());
        if is_codex_package(names.last()) {
            rest.push(package_legacy_dir(packages, names.last()))
        } else {
            rest
        }
    }
}

/// Where older installations kept their data, before removing repeats.
pub open spec fn legacy_candidates(env: HomeModel, package_names: Seq<Seq<char>>) -> Seq<Seq<char>> {
    let a: Seq<Seq<char>> = match env.local_app_data {
        Some(p) => seq![join_path(p, "CodexSoundManager"@)],
        None => seq![],
    };
    let b: Seq<Seq<char>> = match env.user_profile {
        Some(p) => seq![join_path(local_under(p), "CodexSoundManager"@)] + package_dirs(
            packages_under(p),
            package_names,
        ),
        None => seq![],
    };
    a + b
}

/// Where older installations kept their data; `package_names` are the
/// entries of the packages folder (read only when a user profile is set).
pub fn legacy_app_data_dirs(env: &HomeEnvironment, package_names: &[String]) -> (r: Vec<String>)
    ensures
        r.deep_view() == dedup_lowercase(legacy_candidates(env@, package_names.deep_view())),
{
    let mut candidates: Vec<String> = Vec::new();
    if let Some(local_app_data) = &env.local_app_data {
        candidates.push(join(local_app_data.as_str(), "CodexSoundManager"));
    }
    let ghost before = candidates.deep_view();
    if let Some(profile) = &env.user_profile {
        let app_data = join(profile.as_str(), "AppData");
        let local = join(app_data.as_str(), "Local");
        candidates.push(join(local.as_str(), "CodexSoundManager"));
        let packages = join(local.as_str(), "Packages");
        let ghost start = candidates.deep_view();
        let ghost names = package_names.deep_view();
        let n = package_names.len();
        let mut i: usize = 0;
        while i < n
            invariant
                n == names.len(),
                names == package_names.deep_view(),
                packages@ == packages_under(profile@),
                i <= n,
                candidates.deep_view() == start + package_dirs(packages@, names.take(i as int)),
            decreases n - i,
        {
            let lowered = to_ascii_lowercase(package_names[i].as_str());
            let entry = join(packages.as_str(), package_names[i].as_str());
            let take_it = starts_with(lowered.as_str(), "openai.codex_");
            proof {
                assert(names.take(i + 1).drop_last() =~= names.take(i as int));
                assert(names.take(i + 1).last() == names[i as int]);
            }
            if take_it {
                let cache = join(entry.as_str(), "LocalCache");
                let cache_local = join(cache.as_str(), "Local");
                let ghost prior = candidates.deep_view();
                candidates.push(join(cache_local.as_str(), "CodexSoundManager"));
                assert(package_dirs(packages@, names.take(i + 1)) == package_dirs(
                    packages@,
                    names.take(i as int),
                ).push(package_legacy_dir(packages@, names[i as int])));
                assert(candidates.deep_view() =~= prior.push(package_legacy_dir(packages@, names[i as int])));
                assert(candidates.deep_view() =~= start + package_dirs(packages@, names.take(i + 1)));
            } else {
                assert(package_dirs(packages@, names.take(i + 1)) == package_dirs(
                    packages@,
                    names.take(i as int),
                ));
            }
            i = i + 1;
        }
        assert(names.take(n as int) =~= names);
        assert(candidates.deep_view() =~= legacy_candidates(env@, package_names.deep_view()));
    } else {
        assert(candidates.deep_view() =~= legacy_candidates(env@, package_names.deep_view()));
    }
    dedup_paths(candidates)
}

} // verus!
