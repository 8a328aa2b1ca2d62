//! Recognizing the notification commands found in Codex's configuration:
//! this tool's own callback, the retired sound scripts, and the Computer
//! Use wrapper that forwards to a previous callback.

use vstd::prelude::*;
use crate::json::{decode_string_list, json_string_list};
use crate::path::{file_name, file_stem, path_file_name, path_file_stem};
use crate::text::{
    ascii_eq_ignore_case, ascii_lower, char_to_ascii_lower, ends_with, eq_ignore_ascii_case,
    has_suffix, push_char, same_text,
};

verus! {

/// This tool's callback: `<path to codex-sound-manager[.ext]> --notify ...`,
/// the program name compared without ASCII case.
pub open spec fn is_manager(command: Seq<Seq<char>>) -> bool {
    &&& command.len() >= 2
    &&& command[1] == "--notify"@
    &&& match file_stem(command[0]) {
        Some(stem) => ascii_eq_ignore_case(stem, "codex-sound-manager"@),
        None => false,
    }
}

/// One character of an argument as the script check sees it: `/` becomes
/// `\` and ASCII letters are lowercased.
pub open spec fn script_char(c: char) -> char {
    if c == '/' {
        '\\'
    } else {
        ascii_lower(c)
    }
}

/// An argument as the script check sees it.
pub open spec fn script_form(argument: Seq<char>) -> Seq<char> {
    argument.map_values(|c: char| script_char(c))
}

/// The argument names one of the retired personal sound scripts.
pub open spec fn is_legacy_script(argument: Seq<char>) -> bool {
    ||| has_suffix(script_form(argument), ".codex\\bin\\task-complete.ps1"@)
    ||| has_suffix(script_form(argument), ".codex\\bin\\play-task-complete-sound.ps1"@)
}

/// Some argument of the command names a retired personal sound script.
pub open spec fn is_legacy_sound(command: Seq<Seq<char>>) -> bool {
    exists|i: int| 0 <= i < command.len() && is_legacy_script(#[trigger] command[i])
}

/// The command runs Codex's Computer Use wrapper (`codex-computer-use.exe`,
/// compared without ASCII case).
pub open spec fn is_computer_use(command: Seq<Seq<char>>) -> bool {
    &&& command.len() > 0
    &&& match file_name(command[0]) {
        Some(name) => ascii_eq_ignore_case(name, "codex-computer-use.exe"@),
        None => false,
    }
}

/// The first position at or after `start` where `argument` occurs.
pub open spec fn position_from(command: Seq<Seq<char>>, argument: Seq<char>, start: int) -> Option<
    int,
>
    decreases command.len() - start,
{
    if start < 0 || start >= command.len() {
        None
    } else if command[start] == argument {
        Some(start)
    } else {
        position_from(command, argument, start + 1)
    }
}

/// The first position of `argument` in the command.
pub open spec fn position(command: Seq<Seq<char>>, argument: Seq<char>) -> Option<int> {
    position_from(command, argument, 0)
}

/// The flag after which the Computer Use wrapper keeps the previous callback.
pub open spec fn previous_notify_flag() -> Seq<char> {
    "--previous-notify"@
}

/// The previous callback that a wrapper forwards to: the position of the
/// first `--previous-notify` and the command encoded as JSON in the
/// argument after it.
pub open spec fn nested_notifier(command: Seq<Seq<char>>) -> Option<(int, Seq<Seq<char>>)> {
    match position(command, previous_notify_flag()) {
        Some(i) => if i + 1 < command.len() {
            match json_string_list(command[i + 1]) {
                Ok(nested) => Some((i, nested)),
                Err(_) => None,
            }
        } else {
            None
        },
        None => None,
    }
}

/// The command is this tool's callback, directly or as the callback that a
/// wrapper forwards to.
pub open spec fn contains_manager(command: Seq<Seq<char>>) -> bool {
    ||| is_manager(command)
    ||| (nested_notifier(command) matches Some((_, nested)) && is_manager(nested))
}

/// The command is exactly `manager`, directly or as the callback that a
/// wrapper forwards to.
pub open spec fn uses_exact_manager(command: Seq<Seq<char>>, manager: Seq<Seq<char>>) -> bool {
    ||| command == manager
    ||| (nested_notifier(command) matches Some((_, nested)) && nested == manager)
}

/// Whether the command is this tool's callback.
pub fn is_manager_command(command: &[String]) -> (r: bool)
    ensures
        r == is_manager(command.deep_view()),
{
    if command.len() < 2 {
        return false;
    }
    if !same_text(command[1].as_str(), "--notify") {
        return false;
    }
    match path_file_stem(command[0].as_str()) {
        Some(stem) => eq_ignore_ascii_case(stem.as_str(), "codex-sound-manager"),
        None => false,
    }
}

/// The script form of an argument.
fn script_form_of(argument: &str) -> (r: String)
    ensures
        r@ == script_form(argument@),
{
    let n = argument.unicode_len();
    let mut r = String::new();
    let mut i: usize = 0;
    while i < n
        invariant
            n == argument@.len(),
            i <= n,
            r@ == script_form(argument@.take(i as int)),
        decreases n - i,
    {
        let c = argument.get_char(i);
        let d = if c == '/' {
            '\\'
        } else {
            char_to_ascii_lower(c)
        };
        push_char(&mut r, d);
        assert(argument@.take(i + 1) =~= argument@.take(i as int).push(c));
        i = i + 1;
        assert(r@ =~= script_form(argument@.take(i as int)));
    }
    assert(argument@.take(n as int) =~= argument@);
    r
}

/// Whether some argument names a retired personal sound script.
pub fn is_legacy_sound_command(command: &[String]) -> (r: bool)
    ensures
        r == is_legacy_sound(command.deep_view()),
{
    let n = command.len();
    let mut i: usize = 0;
    while i < n
        invariant
            n == command@.len(),
            i <= n,
            forall|j: int| 0 <= j < i ==> !is_legacy_script(#[trigger] command.deep_view()[j]),
        decreases n - i,
    {
        let normalized = script_form_of(command[i].as_str());
        if ends_with(normalized.as_str(), ".codex\\bin\\task-complete.ps1") || ends_with(
            normalized.as_str(),
            ".codex\\bin\\play-task-complete-sound.ps1",
        ) {
            assert(is_legacy_script(command.deep_view()[i as int]));
            return true;
        }
        i = i + 1;
    }
    false
}

/// Whether the command runs Codex's Computer Use wrapper.
pub fn is_computer_use_wrapper(command: &[String]) -> (r: bool)
    ensures
        r == is_computer_use(command.deep_view()),
{
    if command.len() == 0 {
        return false;
    }
    match path_file_name(command[0].as_str()) {
        Some(name) => eq_ignore_ascii_case(name.as_str(), "codex-computer-use.exe"),
        None => false,
    }
}

/// The first position of an argument in a command.
pub fn find_argument(command: &[String], argument: &str) -> (r: Option<usize>)
    ensures
        r matches Some(i) ==> position(command.deep_view(), argument@) == Some(i as int),
        r matches Some(i) ==> i < command@.len(),
        r is None ==> position(command.deep_view(), argument@) is None,
{
    let ghost c = command.deep_view();
    let n = command.len();
    let mut i: usize = 0;
    while i < n
        invariant
            n == c.len(),
            c == command.deep_view(),
            i <= n,
            position(c, argument@) == position_from(c, argument@, i as int),
        decreases n - i,
    {
        if same_text(command[i].as_str(), argument) {
            return Some(i);
        }
        i = i + 1;
    }
    None
}

/// The previous callback that a wrapper forwards to, with the position of
/// its `--previous-notify` flag.
pub fn nested_previous_notifier(command: &[String]) -> (r: Option<(usize, Vec<String>)>)
    ensures
        r matches Some((i, nested)) ==> nested_notifier(command.deep_view()) == Some(
            (i as int, nested.deep_view()),
        ),
        r matches Some((i, _)) ==> i + 1 < command@.len(),
        r is None ==> nested_notifier(command.deep_view()) is None,
{
    let index = match find_argument(command, "--previous-notify") {
        Some(index) => index,
        None => return None,
    };
    let n = command.len();
    if index >= n - 1 {
        return None;
    }
    match decode_string_list(command[index + 1].as_str()) {
        Ok(nested) => Some((index, nested)),
        Err(_) => None,
    }
}

/// Whether the command is this tool's callback, directly or forwarded to.
pub fn command_contains_manager(command: &[String]) -> (r: bool)
    ensures
        r == contains_manager(command.deep_view()),
{
    if is_manager_command(command) {
        return true;
    }
    match nested_previous_notifier(command) {
        Some((_, nested)) => is_manager_command(nested.as_slice()),
        None => false,
    }
}

/// Whether two commands hold the same arguments.
pub fn same_command(a: &[String], b: &[String]) -> (r: bool)
    ensures
        r == (a.deep_view() == b.deep_view()),
{
    let n = a.len();
    if n != b.len() {
        assert(a.deep_view().len() != b.deep_view().len());
        return false;
    }
    let mut i: usize = 0;
    while i < n
        invariant
            n == a@.len(),
            n == b@.len(),
            i <= n,
            forall|j: int| 0 <= j < i ==> a.deep_view()[j] == b.deep_view()[j],
        decreases n - i,
    {
        if !same_text(a[i].as_str(), b[i].as_str()) {
            assert(a.deep_view()[i as int] != b.deep_view()[i as int]);
            return false;
        }
        i = i + 1;
    }
    assert(a.deep_view() =~= b.deep_view());
    true
}

/// Whether the command is exactly `manager_command`, directly or forwarded to.
pub fn command_uses_exact_manager(command: &[String], manager_command: &[String]) -> (r: bool)
    ensures
        r == uses_exact_manager(command.deep_view(), manager_command.deep_view()),
{
    if same_command(command, manager_command) {
        return true;
    }
    match nested_previous_notifier(command) {
        Some((_, nested)) => same_command(nested.as_slice(), manager_command),
        None => false,
    }
}

} // verus!
