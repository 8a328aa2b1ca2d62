//! What happens when Codex reports a finished task: forwarding to the
//! previous callback, the sound lock, playing, and the log lines.

use vstd::prelude::*;
use crate::commands::{is_legacy_sound, is_legacy_sound_command, is_manager, is_manager_command};
use crate::settings::{default_settings, AppSettings, SettingsModel};
use crate::text::{decimal, decimal_text, join2, join3, owned};

verus! {

/// The previous callback is run for a finished task unless it is empty,
/// this tool's own callback, or a retired sound script.
pub open spec fn forwards_to(command: Seq<Seq<char>>) -> bool {
    command.len() > 0 && !is_manager(command) && !is_legacy_sound(command)
}

/// Whether the previous callback is run for a finished task.
pub fn should_run_previous_notifier(command: &[String]) -> (r: bool)
    ensures
        r == forwards_to(command.deep_view()),
{
    command.len() > 0 && !is_manager_command(command) && !is_legacy_sound_command(command)
}

/// The decimal text of an integer, with a minus sign when negative.
pub open spec fn signed_decimal(n: int) -> Seq<char> {
    if n < 0 {
        seq!['-'] + decimal((-n) as nat)
    } else {
        decimal(n as nat)
    }
}

/// The log line for a previous callback that failed with an exit code
/// (`-1` when it has none).
pub open spec fn exit_code_message(code: Option<i32>) -> Seq<char> {
    "原通知回调退出码："@ + signed_decimal(
        match code {
            Some(c) => c as int,
            None => -1,
        },
    )
}

/// The log line for a previous callback that exited with a failure.
pub fn previous_notifier_exit_message(code: Option<i32>) -> (r: String)
    ensures
        r@ == exit_code_message(code),
{
    let value: i32 = match code {
        Some(c) => c,
        None => -1,
    };
    let text = if value < 0 {
        let magnitude: u128 = (0i64 - value as i64) as u128;
        let digits = decimal_text(magnitude);
        join2("-", digits.as_str())
    } else {
        decimal_text(value as u128)
    };
    proof {
        reveal_strlit("-");
    }
    join2("原通知回调退出码：", text.as_str())
}

/// The log line after the sound played.
pub open spec fn success_message(play_count: u8) -> Seq<char> {
    "中文动态日志：任务完成，提示音已播放 "@ + decimal(play_count as nat) + " 次"@
}

/// The log line after the sound played `play_count` times.
pub fn notification_success_message(play_count: u8) -> (r: String)
    ensures
        r@ == success_message(play_count),
{
    let count = decimal_text(play_count as u128);
    join3("中文动态日志：任务完成，提示音已播放 ", count.as_str(), " 次")
}

/// The log line when the sound is switched off.
pub open spec fn disabled_message() -> Seq<char> {
    "中文动态日志：任务完成，提示音当前已关闭"@
}

/// Where the handling of a finished task stands.
pub enum NotificationStage {
    /// The settings are being read.
    LoadingSettings,
    /// The previous callback runs.
    ForwardingToPrevious(AppSettings),
    /// The sound lock is being taken.
    AcquiringLock(AppSettings),
    /// The sound plays under the lock.
    Playing(AppSettings),
    /// Nothing more to do.
    Finished,
}

/// What the outside world reports back.
pub enum NotificationEvent {
    /// The settings were read, or reading them failed.
    SettingsLoaded(Result<AppSettings, String>),
    /// The previous callback finished, or failed.
    PreviousFinished(Result<(), String>),
    /// The lock was taken (`Ok(true)`), is held by another run (`Ok(false)`),
    /// or could not be taken.
    LockTaken(Result<bool, String>),
    /// The sound played, or failed to.
    Played(Result<(), String>),
}

/// What to do next.
pub enum NotificationAction {
    /// Run the previous callback of the stage's settings with the task's arguments.
    RunPreviousNotifier,
    /// Take the sound lock.
    AcquireLock,
    /// Play the stage's settings' sound, holding the lock.
    PlaySound,
    /// Stop; release the lock if it is held.
    Stop,
}

/// One step: the new stage, the lines to log, and the action.
pub struct NotificationStep {
    pub stage: NotificationStage,
    pub log: Vec<String>,
    pub action: NotificationAction,
}

/// The step ends the handling without logging.
pub open spec fn stops_quietly(step: NotificationStep) -> bool {
    &&& step.stage is Finished
    &&& step.action is Stop
    &&& step.log@.len() == 0
}

/// After the previous callback: a disabled sound logs and stops, otherwise
/// the lock is taken next.
pub open spec fn continues_after_previous(s: SettingsModel, logged: Seq<Seq<char>>, step: NotificationStep) -> bool {
    if !s.enabled {
        &&& step.stage is Finished
        &&& step.action is Stop
        &&& step.log.deep_view() == logged.push(disabled_message())
    } else {
        &&& step.stage matches NotificationStage::AcquiringLock(t) && t@ == s
        &&& step.action is AcquireLock
        &&& step.log.deep_view() == logged
    }
}

/// The next step of handling a finished task.
pub open spec fn notification_step(
    stage: NotificationStage,
    event: NotificationEvent,
    step: NotificationStep,
) -> bool {
    match stage {
        NotificationStage::LoadingSettings => match event {
            NotificationEvent::SettingsLoaded(loaded) => {
                let s = match loaded {
                    Ok(t) => t@,
                    Err(_) => default_settings(),
                };
                let logged: Seq<Seq<char>> = match loaded {
                    Ok(_) => seq![],
                    Err(e) => seq!["读取设置失败："@ + e@],
                };
                if s.previous_notifier matches Some(p) && forwards_to(p) {
                    &&& step.stage matches NotificationStage::ForwardingToPrevious(t) && t@ == s
                    &&& step.action is RunPreviousNotifier
                    &&& step.log.deep_view() == logged
                } else {
                    continues_after_previous(s, logged, step)
                }
            },
            _ => stops_quietly(step),
        },
        NotificationStage::ForwardingToPrevious(t) => match event {
            NotificationEvent::PreviousFinished(outcome) => {
                let logged: Seq<Seq<char>> = match outcome {
                    Ok(_) => seq![],
                    Err(e) => seq![e@],
                };
                continues_after_previous(t@, logged, step)
            },
            _ => stops_quietly(step),
        },
        NotificationStage::AcquiringLock(t) => match event {
            NotificationEvent::LockTaken(Ok(true)) => {
                &&& step.stage matches NotificationStage::Playing(u) && u@ == t@
                &&& step.action is PlaySound
                &&& step.log@.len() == 0
            },
            _ => stops_quietly(step),
        },
        NotificationStage::Playing(t) => match event {
            NotificationEvent::Played(outcome) => {
                &&& step.stage is Finished
                &&& step.action is Stop
                &&& step.log.deep_view() == seq![
                    match outcome {
                        Ok(_) => success_message(t.play_count),
                        Err(e) => "播放失败："@ + e@,
                    },
                ]
            },
            _ => stops_quietly(step),
        },
        NotificationStage::Finished => stops_quietly(step),
    }
}

fn finish_quietly() -> (step: NotificationStep)
    ensures
        stops_quietly(step),
{
    NotificationStep { stage: NotificationStage::Finished, log: Vec::new(), action: NotificationAction::Stop }
}

fn after_previous(settings: AppSettings, log: Vec<String>) -> (step: NotificationStep)
    ensures
        continues_after_previous(settings@, log.deep_view(), step),
{
    let mut log = log;
    if !settings.enabled {
        let ghost before = log.deep_view();
        log.push(owned("中文动态日志：任务完成，提示音当前已关闭"));
        assert(log.deep_view() =~= before.push(disabled_message()));
        NotificationStep { stage: NotificationStage::Finished, log, action: NotificationAction::Stop }
    } else {
        NotificationStep {
            stage: NotificationStage::AcquiringLock(settings),
            log,
            action: NotificationAction::AcquireLock,
        }
    }
}

/// Handles a finished task one step at a time: given where it stands and
/// what was reported, says what to log and what to do next. Unreadable
/// settings are logged and replaced by the defaults; the previous callback
/// runs first; a disabled sound is logged and nothing plays; a lock held
/// elsewhere stops quietly; the outcome of playing is logged.
pub fn run_notification(stage: NotificationStage, event: NotificationEvent) -> (step: NotificationStep)
    ensures
        notification_step(stage, event, step),
{
    match stage {
        NotificationStage::LoadingSettings => match event {
            NotificationEvent::SettingsLoaded(loaded) => {
                let mut log: Vec<String> = Vec::new();
                let settings = match loaded {
                    Ok(settings) => settings,
                    Err(error) => {
                        log.push(join2("读取设置失败：", error.as_str()));
                        AppSettings::default()
                    },
                };
                assert(log.deep_view() =~= (match loaded {
                    Ok(_) => Seq::<Seq<char>>::empty(),
                    Err(e) => seq!["读取设置失败："@ + e@],
                }));
                let forward = match &settings.previous_notifier {
                    Some(previous) => should_run_previous_notifier(previous.as_slice()),
                    None => false,
                };
                if forward {
                    NotificationStep {
                        stage: NotificationStage::ForwardingToPrevious(settings),
                        log,
                        action: NotificationAction::RunPreviousNotifier,
                    }
                } else {
                    after_previous(settings, log)
                }
            },
            _ => finish_quietly(),
        },
        NotificationStage::ForwardingToPrevious(settings) => match event {
            NotificationEvent::PreviousFinished(outcome) => {
                let mut log: Vec<String> = Vec::new();
                if let Err(error) = outcome {
                    log.push(error);
                }
                assert(log.deep_view() =~= (match outcome {
                    Ok(_) => Seq::<Seq<char>>::empty(),
                    Err(e) => seq![e@],
                }));
                after_previous(settings, log)
            },
            _ => finish_quietly(),
        },
        NotificationStage::AcquiringLock(settings) => match event {
            NotificationEvent::LockTaken(Ok(true)) => NotificationStep {
                stage: NotificationStage::Playing(settings),
                log: Vec::new(),
                action: NotificationAction::PlaySound,
            },
            _ => finish_quietly(),
        },
        NotificationStage::Playing(settings) => match event {
            NotificationEvent::Played(outcome) => {
                let line = match outcome {
                    Ok(()) => notification_success_message(settings.play_count),
                    Err(error) => join2("播放失败：", error.as_str()),
                };
                let mut log: Vec<String> = Vec::new();
                log.push(line);
                assert(log.deep_view() =~= seq![line@]);
                NotificationStep { stage: NotificationStage::Finished, log, action: NotificationAction::Stop }
            },
            _ => finish_quietly(),
        },
        NotificationStage::Finished => finish_quietly(),
    }
}

/// Unicode whitespace (`char::is_whitespace`, the `White_Space` property).
pub open spec fn is_whitespace(c: char) -> bool {
    ||| ('\t' <= c && c <= '\r')
    ||| c == ' '
    ||| c == '\u{85}'
    ||| c == '\u{a0}'
    ||| c == '\u{1680}'
    ||| ('\u{2000}' <= c && c <= '\u{200a}')
    ||| c == '\u{2028}'
    ||| c == '\u{2029}'
    ||| c == '\u{202f}'
    ||| c == '\u{205f}'
    ||| c == '\u{3000}'
}

fn whitespace(c: char) -> (r: bool)
    ensures
        r == is_whitespace(c),
{
    ('\t' <= c && c <= '\r') || c == ' ' || c == '\u{85}' || c == '\u{a0}' || c == '\u{1680}' || (
    '\u{2000}' <= c && c <= '\u{200a}') || c == '\u{2028}' || c == '\u{2029}' || c == '\u{202f}'
        || c == '\u{205f}' || c == '\u{3000}'
}

/// Index of the first character at or after `i` that is not whitespace.
pub open spec fn trim_start_index(s: Seq<char>, i: int) -> int
    decreases s.len() - i,
{
    if i < 0 || i >= s.len() || !is_whitespace(s[i]) {
        i
    } else {
        trim_start_index(s, i + 1)
    }
}

/// One past the last character before `j` that is not whitespace, not
/// going below `lo`.
pub open spec fn trim_end_index(s: Seq<char>, lo: int, j: int) -> int
    decreases j - lo,
{
    if j <= lo || !is_whitespace(s[j - 1]) {
        j
    } else {
        trim_end_index(s, lo, j - 1)
    }
}

/// `str::trim`: the text without leading and trailing whitespace.
pub open spec fn trimmed(s: Seq<char>) -> Seq<char> {
    let a = trim_start_index(s, 0);
    s.subrange(a, trim_end_index(s, a, s.len() as int))
}

proof fn lemma_trim_start_bounds(s: Seq<char>, i: int)
    requires
        0 <= i <= s.len(),
    ensures
        i <= trim_start_index(s, i) <= s.len(),
    decreases s.len() - i,
{
    if i < s.len() && is_whitespace(s[i]) {
        lemma_trim_start_bounds(s, i + 1);
    }
}

proof fn lemma_trim_end_bounds(s: Seq<char>, lo: int, j: int)
    requires
        lo <= j <= s.len(),
    ensures
        lo <= trim_end_index(s, lo, j) <= j,
    decreases j - lo,
{
    if j > lo && is_whitespace(s[j - 1]) {
        lemma_trim_end_bounds(s, lo, j - 1);
    }
}

/// The text without leading and trailing whitespace.
pub fn trim(s: &str) -> (r: &str)
    ensures
        r@ == trimmed(s@),
{
    let n = s.unicode_len();
    let mut a: usize = 0;
    while a < n && whitespace(s.get_char(a))
        invariant
            n == s@.len(),
            a <= n,
            trim_start_index(s@, 0) == trim_start_index(s@, a as int),
        decreases n - a,
    {
        a = a + 1;
    }
    let mut b: usize = n;
    while b > a && whitespace(s.get_char(b - 1))
        invariant
            n == s@.len(),
            a <= b <= n,
            trim_start_index(s@, 0) == a,
            trim_end_index(s@, a as int, n as int) == trim_end_index(s@, a as int, b as int),
        decreases b - a,
    {
        b = b - 1;
    }
    let r = s.substring_char(a, b);
    r
}

/// The lock file belongs to this run: it holds the run's token, apart from
/// surrounding whitespace.
pub open spec fn owns_lock(content: Option<Seq<char>>, token: Seq<char>) -> bool {
    match content {
        Some(text) => trimmed(text) == token,
        None => false,
    }
}

/// Whether the lock file, read back (`None` when unreadable), still holds
/// this run's token, so that releasing it may delete it.
pub fn lock_is_owned(content: Option<&str>, token: &str) -> (r: bool)
    ensures
        r == owns_lock(content.deep_view(), token@),
{
    match content {
        Some(text) => crate::text::same_text(trim(text), token),
        None => false,
    }
}

/// The token written into the lock file: process id and time, joined by `-`.
pub open spec fn lock_token_text(process_id: u32, nanos: u128) -> Seq<char> {
    decimal(process_id as nat) + seq!['-'] + decimal(nanos as nat)
}

/// The token of this run's lock.
pub fn lock_token(process_id: u32, nanos: u128) -> (r: String)
    ensures
        r@ == lock_token_text(process_id, nanos),
{
    let pid = decimal_text(process_id as u128);
    let time = decimal_text(nanos);
    proof {
        reveal_strlit("-");
    }
    join3(pid.as_str(), "-", time.as_str())
}

/// A lock older than two minutes is stale and may be removed.
pub open spec fn stale_age(age: Option<(u64, u32)>) -> bool {
    match age {
        Some((secs, nanos)) => secs > 120 || (secs == 120 && nanos > 0),
        None => false,
    }
}

/// Whether a lock of this age (seconds and nanoseconds; `None` when it
/// cannot be told) is stale.
pub fn lock_is_stale(age: Option<(u64, u32)>) -> (r: bool)
    ensures
        r == stale_age(age),
{
    match age {
        Some((secs, nanos)) => secs > 120 || (secs == 120 && nanos > 0),
        None => false,
    }
}

/// The size above which the log file is started afresh: 1 MiB.
pub const LOG_LIMIT_BYTES: u64 = 1048576;

/// Whether the log file is removed before the next line is written: its
/// size is known and above 1 MiB.
pub fn log_needs_rotation(size: Option<u64>) -> (r: bool)
    ensures
        r == (size matches Some(n) && n > LOG_LIMIT_BYTES),
{
    match size {
        Some(n) => n > LOG_LIMIT_BYTES,
        None => false,
    }
}

/// A log line: the time stamp, a space, and the message.
pub fn log_line(timestamp: &str, message: &str) -> (r: String)
    ensures
        r@ == timestamp@ + " "@ + message@,
{
    join3(timestamp, " ", message)
}

/// Once the settings are read, the previous callback runs first exactly
/// when one is remembered that is not empty, not this tool's callback and
/// not a retired sound script, whether or not the sound is switched on; it
/// runs with the settings that were read.
pub proof fn lemma_previous_runs_whatever_the_sound(settings: AppSettings, step: NotificationStep)
    requires
        notification_step(
            NotificationStage::LoadingSettings,
            NotificationEvent::SettingsLoaded(Ok(settings)),
            step,
        ),
    ensures
        step.action is RunPreviousNotifier <==> (settings@.previous_notifier matches Some(p) && p.len()
            > 0 && !is_manager(p) && !is_legacy_sound(p)),
        step.action is RunPreviousNotifier ==> (step.stage matches NotificationStage::ForwardingToPrevious(
            t,
        ) && t@ == settings@),
{
}

/// A switched-off sound is never played: when the settings read say so, the
/// step after reading them (when nothing is forwarded) and the step after
/// the previous callback both stop, with the switched-off line as the last
/// line logged; a switched-on sound goes on to take the lock.
pub proof fn lemma_switched_off_sound_stops(
    settings: AppSettings,
    loaded_step: NotificationStep,
    outcome: Result<(), String>,
    forwarded_step: NotificationStep,
)
    requires
        notification_step(
            NotificationStage::LoadingSettings,
            NotificationEvent::SettingsLoaded(Ok(settings)),
            loaded_step,
        ),
        notification_step(
            NotificationStage::ForwardingToPrevious(settings),
            NotificationEvent::PreviousFinished(outcome),
            forwarded_step,
        ),
    ensures
        !settings.enabled ==> (forwarded_step.action is Stop && forwarded_step.stage is Finished
            && forwarded_step.log.deep_view().last() == "中文动态日志：任务完成，提示音当前已关闭"@),
        settings.enabled ==> forwarded_step.action is AcquireLock,
        !(loaded_step.action is RunPreviousNotifier) ==> (settings.enabled <==> loaded_step.action is AcquireLock),
        !(loaded_step.action is RunPreviousNotifier) && !settings.enabled ==> (loaded_step.action is Stop
            && loaded_step.log.deep_view() == seq!["中文动态日志：任务完成，提示音当前已关闭"@]),
{
}

} // verus!
