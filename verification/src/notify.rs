//! Installing this tool as Codex's notification callback and removing it
//! again, keeping whatever callback was configured before.

use vstd::prelude::*;
use toml_edit::DocumentMut;
use crate::commands::{
    contains_manager, same_command, find_argument, is_computer_use, is_computer_use_wrapper, is_legacy_sound,
    is_legacy_sound_command, is_manager, is_manager_command, nested_notifier,
    nested_previous_notifier, position, position_from, previous_notify_flag,
};
use crate::config::{
    all_strings, document_remove, document_set_array, invalid_notify_message, notify_command,
    notify_command_of, notify_entry_valid, notify_key, string_items, strings_to_array,
    toml_entries, toml_key_order, toml_layout, validate_notify_entry, order_with, order_without,
};
use crate::json::{decode_string_list, encode_string_list, json_string_list, json_string_list_text};
use crate::settings::{AppSettings, SettingsModel};
use crate::text::{has_prefix, join2, owned};

verus! {

/// The top-level entries of a configuration document.
pub type TomlEntries = Map<Seq<char>, Option<Seq<Option<Seq<char>>>>>;

/// The entries with `notify` set to the given command.
pub open spec fn with_notify(entries: TomlEntries, command: Seq<Seq<char>>) -> TomlEntries {
    entries.insert(notify_key(), Some(string_items(command)))
}

/// Why installing the callback is refused.
pub enum InstallFailure {
    /// `notify` is neither absent nor an array of strings.
    InvalidNotify,
    /// A Computer Use wrapper ends with `--previous-notify`.
    MissingNestedCommand,
    /// A Computer Use wrapper forwards to something that is not a JSON list of strings.
    InvalidNestedCommand(Seq<char>),
}

/// Whether and why installing the callback is refused.
pub open spec fn install_failure(entries: TomlEntries) -> Option<InstallFailure> {
    if !notify_entry_valid(entries) {
        Some(InstallFailure::InvalidNotify)
    } else {
        match notify_command_of(entries) {
            Some(command) => if is_computer_use(command) {
                match position(command, previous_notify_flag()) {
                    Some(i) => if i + 1 >= command.len() {
                        Some(InstallFailure::MissingNestedCommand)
                    } else if json_string_list(command[i + 1]) is Err {
                        Some(InstallFailure::InvalidNestedCommand(json_string_list(command[i + 1])->Err_0))
                    } else {
                        None
                    },
                    None => None,
                }
            } else {
                None
            },
            None => None,
        }
    }
}

/// The configuration after installing `manager`: a Computer Use wrapper
/// keeps its place and forwards to `manager` instead (gaining a
/// `--previous-notify` argument when it had none); this tool's callback
/// stays when it is exactly `manager` and is rewritten when it names the
/// tool elsewhere (the tool was moved); any other command, or none, is
/// replaced by `manager`.
pub open spec fn installed_entries(entries: TomlEntries, manager: Seq<Seq<char>>) -> TomlEntries {
    match notify_command_of(entries) {
        Some(command) => if is_computer_use(command) {
            match position(command, previous_notify_flag()) {
                Some(i) => with_notify(
                    entries,
                    command.update(i + 1, json_string_list_text(manager)),
                ),
                None => with_notify(
                    entries,
                    command + seq![previous_notify_flag(), json_string_list_text(manager)],
                ),
            }
        } else if is_manager(command) {
            if command == manager {
                entries
            } else {
                with_notify(entries, manager)
            }
        } else {
            with_notify(entries, manager)
        },
        None => with_notify(entries, manager),
    }
}

/// The top-level keys keep their order: `notify` keeps its place when it
/// was stored, and is otherwise added last.
pub open spec fn keeps_order_adding_notify(before: DocumentMut, after: DocumentMut) -> bool {
    toml_key_order(after) == order_with(toml_key_order(before), notify_key())
}

/// The top-level keys keep their order: `notify` keeps its place when it
/// is still there, and the others close up when it was removed.
pub open spec fn keeps_order_removing_notify(before: DocumentMut, after: DocumentMut) -> bool {
    if toml_entries(after).dom().contains(notify_key()) {
        toml_key_order(after) == toml_key_order(before)
    } else {
        toml_key_order(after) == order_without(toml_key_order(before), notify_key())
    }
}

/// Every top-level entry but `notify` is written as it was: same key,
/// same comments before it, same value.
pub open spec fn keeps_other_entries(before: DocumentMut, after: DocumentMut) -> bool {
    toml_layout(after).remove(notify_key()) == toml_layout(before).remove(notify_key())
}

/// The remembered previous callback after installing: the callback that was
/// replaced or that the wrapper forwarded to, unless it is this tool's own
/// callback (then the remembered one stays) or a retired sound script (then
/// nothing is remembered).
pub open spec fn installed_previous(entries: TomlEntries, previous: Option<Seq<Seq<char>>>) -> Option<
    Seq<Seq<char>>,
> {
    match notify_command_of(entries) {
        Some(command) => if is_computer_use(command) {
            match position(command, previous_notify_flag()) {
                Some(i) => {
                    let nested = json_string_list(command[i + 1])->Ok_0;
                    if !is_manager(nested) && !is_legacy_sound(nested) {
                        Some(nested)
                    } else if is_legacy_sound(nested) {
                        None
                    } else {
                        previous
                    }
                },
                None => previous,
            }
        } else if is_manager(command) {
            previous
        } else if !is_legacy_sound(command) {
            Some(command)
        } else {
            None
        },
        None => None,
    }
}

/// The outcome of removing the callback: whether the configuration changed,
/// the new entries, and the remembered previous callback. A wrapper that
/// forwards to this tool forwards to the remembered callback again, or loses
/// its `--previous-notify` pair when none is remembered; this tool's own
/// callback gives way to the remembered one, or `notify` is removed.
pub open spec fn uninstalled(entries: TomlEntries, previous: Option<Seq<Seq<char>>>) -> (
    bool,
    TomlEntries,
    Option<Seq<Seq<char>>>,
) {
    match notify_command_of(entries) {
        None => (false, entries, None),
        Some(command) => if is_computer_use(command) {
            match nested_notifier(command) {
                Some((i, nested)) => if !is_manager(nested) {
                    (false, entries, previous)
                } else {
                    match previous {
                        Some(p) => (
                            true,
                            with_notify(entries, command.update(i + 1, json_string_list_text(p))),
                            None,
                        ),
                        None => (true, with_notify(entries, command.take(i) + command.skip(i + 2)), None),
                    }
                },
                None => (false, entries, previous),
            }
        } else if is_manager(command) {
            match previous {
                Some(p) => (true, with_notify(entries, p), None),
                None => (true, entries.remove(notify_key()), None),
            }
        } else {
            (false, entries, previous)
        },
    }
}

/// The settings with another remembered previous callback.
pub open spec fn with_previous(s: SettingsModel, previous: Option<Seq<Seq<char>>>) -> SettingsModel {
    SettingsModel { previous_notifier: previous, ..s }
}

/// The message for a wrapper without the command after `--previous-notify`.
pub open spec fn missing_nested_message() -> Seq<char> {
    "Computer Use 的 --previous-notify 缺少命令参数"@
}

/// The start of the message for a wrapper whose forwarded command is not JSON.
pub open spec fn invalid_nested_prefix() -> Seq<char> {
    "Computer Use 的原通知回调格式无效："@
}

proof fn lemma_string_items_all_strings(command: Seq<Seq<char>>)
    ensures
        all_strings(string_items(command)) == Some(command),
{
    let items = string_items(command);
    assert(forall|i: int| 0 <= i < items.len() ==> (#[trigger] items[i]) is Some);
    assert(items.map_values(|item: Option<Seq<char>>| item.unwrap()) =~= command);
}

proof fn lemma_all_strings_items(items: Seq<Option<Seq<char>>>, command: Seq<Seq<char>>)
    requires
        all_strings(items) == Some(command),
    ensures
        items == string_items(command),
{
    assert(forall|i: int| 0 <= i < items.len() ==> (#[trigger] items[i]) is Some);
    assert(items =~= string_items(command));
}

/// Setting `notify` to a command makes it the notify command.
pub proof fn lemma_notify_of_with_notify(entries: TomlEntries, command: Seq<Seq<char>>)
    ensures
        notify_command_of(with_notify(entries, command)) == Some(command),
        notify_entry_valid(with_notify(entries, command)),
{
    lemma_string_items_all_strings(command);
}

/// Setting `notify` to the command it already holds changes nothing.
proof fn lemma_with_same_notify(entries: TomlEntries, command: Seq<Seq<char>>)
    requires
        notify_command_of(entries) == Some(command),
    ensures
        with_notify(entries, command) == entries,
{
    lemma_all_strings_items(entries[notify_key()].unwrap(), command);
    assert(with_notify(entries, command) =~= entries);
}

proof fn lemma_position_from_bounds(command: Seq<Seq<char>>, argument: Seq<char>, start: int)
    ensures
        position_from(command, argument, start) matches Some(p) ==> start <= p < command.len()
            && command[p] == argument,
    decreases command.len() - start,
{
    if 0 <= start < command.len() && command[start] != argument {
        lemma_position_from_bounds(command, argument, start + 1);
    }
}

/// Changing an argument after the first occurrence keeps that occurrence first.
proof fn lemma_position_from_update(
    command: Seq<Seq<char>>,
    argument: Seq<char>,
    start: int,
    j: int,
    value: Seq<char>,
)
    requires
        position_from(command, argument, start) matches Some(p) && p < j,
        0 <= j < command.len(),
    ensures
        position_from(command.update(j, value), argument, start) == position_from(
            command,
            argument,
            start,
        ),
    decreases command.len() - start,
{
    lemma_position_from_bounds(command, argument, start);
    if 0 <= start < command.len() && command[start] != argument {
        lemma_position_from_update(command, argument, start + 1, j, value);
    }
}

/// Appending to a command without the argument finds it where the appended part has it.
proof fn lemma_position_from_append(
    command: Seq<Seq<char>>,
    argument: Seq<char>,
    start: int,
    tail: Seq<Seq<char>>,
)
    requires
        0 <= start <= command.len(),
        position_from(command, argument, start) is None,
        tail.len() > 0,
        tail[0] == argument,
    ensures
        position_from(command + tail, argument, start) == Some(command.len() as int),
    decreases command.len() - start,
{
    if start < command.len() {
        assert((command + tail)[start] == command[start]);
        lemma_position_from_append(command, argument, start + 1, tail);
    } else {
        assert((command + tail)[start] == tail[0]);
    }
}

/// Makes this tool Codex's notification callback, remembering the callback
/// that it takes over from.
pub fn install_notify(
    document: &mut DocumentMut,
    manager_command: &[String],
    settings: &mut AppSettings,
) -> (r: Result<(), String>)
    ensures
        r is Err <==> install_failure(toml_entries(*old(document))) is Some,
        r is Err ==> *final(document) == *old(document),
        r is Err ==> final(settings)@ == old(settings)@,
        r is Ok ==> keeps_other_entries(*old(document), *final(document)),
        r is Ok ==> keeps_order_adding_notify(*old(document), *final(document)),
        notify_command_of(toml_entries(*old(document))) == Some(manager_command.deep_view())
            && is_manager(manager_command.deep_view()) && !is_computer_use(
            manager_command.deep_view(),
        ) ==> r is Ok && *final(document) == *old(document) && final(settings)@ == old(settings)@,
        r is Ok ==> toml_entries(*final(document)) == installed_entries(
            toml_entries(*old(document)),
            manager_command.deep_view(),
        ),
        r is Ok ==> final(settings)@ == with_previous(
            old(settings)@,
            installed_previous(toml_entries(*old(document)), old(settings)@.previous_notifier),
        ),
        r matches Err(message) ==> match install_failure(toml_entries(*old(document))) {
            Some(InstallFailure::InvalidNotify) => message@ == invalid_notify_message(),
            Some(InstallFailure::MissingNestedCommand) => message@ == missing_nested_message(),
            Some(InstallFailure::InvalidNestedCommand(e)) => message@ == invalid_nested_prefix() + e,
            None => false,
        },
{
    let ghost entries = toml_entries(*document);
    let ghost manager = manager_command.deep_view();
    validate_notify_entry(document)?;
    let existing = notify_command(document);
    match existing {
        Some(mut command) => {
            let ghost before = command.deep_view();
            if is_computer_use_wrapper(command.as_slice()) {
                match find_argument(command.as_slice(), "--previous-notify") {
                    Some(index) => {
                        let n = command.len();
                        if index >= n - 1 {
                            return Err(owned("Computer Use 的 --previous-notify 缺少命令参数"));
                        }
                        let nested = match decode_string_list(command[index + 1].as_str()) {
                            Ok(nested) => nested,
                            Err(error) => {
                                let message = join2("Computer Use 的原通知回调格式无效：", error.as_str());
                                proof {
                                    reveal_strlit("Computer Use 的原通知回调格式无效：");
                                }
                                return Err(message);
                            },
                        };
                        let manager_nested = is_manager_command(nested.as_slice());
                        let legacy_nested = is_legacy_sound_command(nested.as_slice());
                        if !manager_nested && !legacy_nested {
                            settings.previous_notifier = Some(nested);
                        } else if legacy_nested {
                            settings.previous_notifier = None;
                        }
                        let encoded = match encode_string_list(manager_command) {
                            Ok(encoded) => encoded,
                            Err(error) => return Err(join2("生成通知回调参数失败：", error.as_str())),
                        };
                        command.set(index + 1, encoded);
                        assert(command.deep_view() =~= before.update(
                            index + 1,
                            json_string_list_text(manager),
                        ));
                    },
                    None => {
                        command.push(owned("--previous-notify"));
                        let encoded = match encode_string_list(manager_command) {
                            Ok(encoded) => encoded,
                            Err(error) => return Err(join2("生成通知回调参数失败：", error.as_str())),
                        };
                        command.push(encoded);
                        assert(command.deep_view() =~= before + seq![
                            previous_notify_flag(),
                            json_string_list_text(manager),
                        ]);
                    },
                }
                document_set_array(document, "notify", strings_to_array(command.as_slice()));
            } else if is_manager_command(command.as_slice()) {
                if !same_command(command.as_slice(), manager_command) {
                    document_set_array(document, "notify", strings_to_array(manager_command));
                }
            } else {
                if !is_legacy_sound_command(command.as_slice()) {
                    settings.previous_notifier = Some(command);
                } else {
                    settings.previous_notifier = None;
                }
                document_set_array(document, "notify", strings_to_array(manager_command));
            }
        },
        None => {
            settings.previous_notifier = None;
            document_set_array(document, "notify", strings_to_array(manager_command));
        },
    }
    Ok(())
}

/// Removes this tool's callback from Codex's configuration, restoring the
/// remembered previous callback; tells whether the configuration changed.
pub fn uninstall_notify(document: &mut DocumentMut, settings: &mut AppSettings) -> (r: Result<
    bool,
    String,
>)
    ensures
        r is Err <==> !notify_entry_valid(toml_entries(*old(document))),
        r matches Err(message) ==> message@ == invalid_notify_message(),
        r is Err ==> *final(document) == *old(document),
        r is Err ==> final(settings)@ == old(settings)@,
        r matches Ok(false) ==> *final(document) == *old(document),
        r matches Ok(true) ==> keeps_other_entries(*old(document), *final(document)),
        r matches Ok(true) ==> keeps_order_removing_notify(*old(document), *final(document)),
        r matches Ok(changed) ==> {
            let (c, e, p) = uninstalled(
                toml_entries(*old(document)),
                old(settings)@.previous_notifier,
            );
            &&& changed == c
            &&& toml_entries(*final(document)) == e
            &&& final(settings)@ == with_previous(old(settings)@, p)
        },
{
    let ghost entries = toml_entries(*document);
    validate_notify_entry(document)?;
    let mut command = match notify_command(document) {
        Some(command) => command,
        None => {
            settings.previous_notifier = None;
            return Ok(false);
        },
    };
    let ghost before = command.deep_view();
    if is_computer_use_wrapper(command.as_slice()) {
        match nested_previous_notifier(command.as_slice()) {
            Some((index, nested)) => {
                if !is_manager_command(nested.as_slice()) {
                    return Ok(false);
                }
                proof {
                    lemma_position_from_bounds(before, previous_notify_flag(), 0);
                }
                let n = command.len();
                assert(index + 1 < n);
                match &settings.previous_notifier {
                    Some(previous) => {
                        let encoded = match encode_string_list(previous.as_slice()) {
                            Ok(encoded) => encoded,
                            Err(error) => return Err(join2("恢复原通知回调失败：", error.as_str())),
                        };
                        command.set(index + 1, encoded);
                        assert(command.deep_view() =~= before.update(
                            index + 1,
                            json_string_list_text(old(settings)@.previous_notifier.unwrap()),
                        ));
                    },
                    None => {
                        command.remove(index);
                        command.remove(index);
                        assert(command.deep_view() =~= before.take(index as int) + before.skip(
                            index + 2,
                        ));
                    },
                }
                document_set_array(document, "notify", strings_to_array(command.as_slice()));
                settings.previous_notifier = None;
                return Ok(true);
            },
            None => {
                return Ok(false);
            },
        }
    }
    if is_manager_command(command.as_slice()) {
        let previous = settings.previous_notifier.take();
        match previous {
            Some(previous) => {
                document_set_array(document, "notify", strings_to_array(previous.as_slice()));
            },
            None => {
                document_remove(document, "notify");
                assert(toml_layout(*document).remove(notify_key()) =~= toml_layout(
                    *old(document),
                ).remove(notify_key()));
            },
        }
        return Ok(true);
    }
    Ok(false)
}

/// Installing and then removing the callback gives back the top-level
/// entries that were there before, when its callback was an ordinary command (not a
/// wrapper, not this tool, not a retired sound script) or absent, and
/// nothing stays remembered.
pub proof fn lemma_install_then_uninstall_restores(
    entries: TomlEntries,
    manager: Seq<Seq<char>>,
    previous: Option<Seq<Seq<char>>>,
)
    requires
        notify_entry_valid(entries),
        is_manager(manager),
        !is_computer_use(manager),
        notify_command_of(entries) matches Some(command) ==> !is_computer_use(command) && !is_manager(
            command,
        ) && !is_legacy_sound(command),
    ensures
        install_failure(entries) is None,
        uninstalled(installed_entries(entries, manager), installed_previous(entries, previous)) == (
            true,
            entries,
            None::<Seq<Seq<char>>>,
        ),
{
    let installed = installed_entries(entries, manager);
    lemma_notify_of_with_notify(entries, manager);
    match notify_command_of(entries) {
        Some(command) => {
            lemma_with_same_notify(entries, command);
            assert(with_notify(installed, command) =~= with_notify(entries, command));
        },
        None => {
            assert(!entries.dom().contains(notify_key()));
            assert(installed.remove(notify_key()) =~= entries);
        },
    }
}

/// Installing and then removing the callback restores a Computer Use
/// wrapper's forwarding to the callback it had: the wrapper is the same but
/// for the re-encoded forwarded command, which reads back as before. The
/// manager command must read back from its JSON form, as `serde_json` does.
pub proof fn lemma_install_then_uninstall_restores_wrapper(
    entries: TomlEntries,
    manager: Seq<Seq<char>>,
    previous: Option<Seq<Seq<char>>>,
    command: Seq<Seq<char>>,
    index: int,
    nested: Seq<Seq<char>>,
)
    requires
        notify_command_of(entries) == Some(command),
        is_computer_use(command),
        nested_notifier(command) == Some((index, nested)),
        !is_manager(nested),
        !is_legacy_sound(nested),
        is_manager(manager),
        json_string_list(json_string_list_text(manager)) == Ok::<Seq<Seq<char>>, Seq<char>>(manager),
        json_string_list(json_string_list_text(nested)) == Ok::<Seq<Seq<char>>, Seq<char>>(nested),
    ensures
        install_failure(entries) is None,
        ({
            let restored = command.update(index + 1, json_string_list_text(nested));
            &&& uninstalled(installed_entries(entries, manager), installed_previous(entries, previous))
                == (true, with_notify(entries, restored), None::<Seq<Seq<char>>>)
            &&& nested_notifier(restored) == Some((index, nested))
        }),
{
    let flag = previous_notify_flag();
    lemma_position_from_bounds(command, flag, 0);
    let installed_command = command.update(index + 1, json_string_list_text(manager));
    let installed = installed_entries(entries, manager);
    assert(installed == with_notify(entries, installed_command));
    lemma_notify_of_with_notify(entries, installed_command);
    lemma_position_from_update(command, flag, 0, index + 1, json_string_list_text(manager));
    assert(installed_command[0] == command[0]);
    assert(nested_notifier(installed_command) == Some((index, manager)));
    let restored = installed_command.update(index + 1, json_string_list_text(nested));
    assert(restored =~= command.update(index + 1, json_string_list_text(nested)));
    assert(with_notify(installed, restored) =~= with_notify(entries, restored));
    lemma_position_from_update(command, flag, 0, index + 1, json_string_list_text(nested));
}

/// Installing the callback a second time changes nothing more.
pub proof fn lemma_install_is_idempotent(
    entries: TomlEntries,
    manager: Seq<Seq<char>>,
    previous: Option<Seq<Seq<char>>>,
)
    requires
        install_failure(entries) is None,
        is_manager(manager),
        !is_computer_use(manager),
        !is_legacy_sound(manager),
        json_string_list(json_string_list_text(manager)) == Ok::<Seq<Seq<char>>, Seq<char>>(manager),
    ensures
        install_failure(installed_entries(entries, manager)) is None,
        installed_entries(installed_entries(entries, manager), manager) == installed_entries(
            entries,
            manager,
        ),
        installed_previous(installed_entries(entries, manager), installed_previous(entries, previous))
            == installed_previous(entries, previous),
{
    let flag = previous_notify_flag();
    let text = json_string_list_text(manager);
    lemma_notify_of_with_notify(entries, manager);
    match notify_command_of(entries) {
        Some(command) => {
            if is_computer_use(command) {
                lemma_position_from_bounds(command, flag, 0);
                match position(command, flag) {
                    Some(i) => {
                        let c1 = command.update(i + 1, text);
                        lemma_notify_of_with_notify(entries, c1);
                        lemma_position_from_update(command, flag, 0, i + 1, text);
                        assert(c1[0] == command[0]);
                        assert(c1.update(i + 1, text) =~= c1);
                        assert(with_notify(with_notify(entries, c1), c1) =~= with_notify(entries, c1));
                    },
                    None => {
                        let c1 = command + seq![flag, text];
                        lemma_notify_of_with_notify(entries, c1);
                        lemma_position_from_append(command, flag, 0, seq![flag, text]);
                        assert(c1[0] == command[0]);
                        assert(c1[command.len() as int + 1] == text);
                        assert(c1.update(command.len() as int + 1, text) =~= c1);
                        assert(with_notify(with_notify(entries, c1), c1) =~= with_notify(entries, c1));
                    },
                }
            } else if !is_manager(command) {
                assert(with_notify(entries, manager).insert(notify_key(), Some(string_items(manager)))
                    =~= with_notify(entries, manager));
            }
        },
        None => {},
    }
}

/// After installing, the callback in the configuration is this tool's,
/// directly or as the command a wrapper forwards to.
pub proof fn lemma_install_puts_manager_in_place(
    entries: TomlEntries,
    manager: Seq<Seq<char>>,
)
    requires
        install_failure(entries) is None,
        is_manager(manager),
        json_string_list(json_string_list_text(manager)) == Ok::<Seq<Seq<char>>, Seq<char>>(manager),
    ensures
        notify_command_of(installed_entries(entries, manager)) matches Some(command)
            && contains_manager(command),
{
    let flag = previous_notify_flag();
    let text = json_string_list_text(manager);
    lemma_notify_of_with_notify(entries, manager);
    match notify_command_of(entries) {
        Some(command) => {
            if is_computer_use(command) {
                lemma_position_from_bounds(command, flag, 0);
                match position(command, flag) {
                    Some(i) => {
                        let c1 = command.update(i + 1, text);
                        lemma_notify_of_with_notify(entries, c1);
                        lemma_position_from_update(command, flag, 0, i + 1, text);
                        assert(nested_notifier(c1) == Some((i, manager)));
                    },
                    None => {
                        let c1 = command + seq![flag, text];
                        lemma_notify_of_with_notify(entries, c1);
                        lemma_position_from_append(command, flag, 0, seq![flag, text]);
                        assert(c1[command.len() as int + 1] == text);
                        assert(nested_notifier(c1) == Some((command.len() as int, manager)));
                    },
                }
            }
        },
        None => {},
    }
}

/// In the model of top-level entries, installing and removing the callback
/// touch only `notify`: every other key keeps its presence and what the
/// model records of it (its array contents, or that it is not an array).
/// That those entries are also written as before, values and comments
/// included, is `keeps_other_entries` in the contracts of `install_notify`
/// and `uninstall_notify`.
pub proof fn lemma_callback_edits_keep_other_entries(
    entries: TomlEntries,
    manager: Seq<Seq<char>>,
    previous: Option<Seq<Seq<char>>>,
    key: Seq<char>,
)
    requires
        key != notify_key(),
    ensures
        installed_entries(entries, manager).dom().contains(key) == entries.dom().contains(key),
        installed_entries(entries, manager)[key] == entries[key],
        uninstalled(entries, previous).1.dom().contains(key) == entries.dom().contains(key),
        uninstalled(entries, previous).1[key] == entries[key],
{
}

/// Edits that each write every entry but `notify` as it was do so together:
/// installing and then removing the callback leaves every other entry of
/// the configuration, with its value and comments, as it was.
pub proof fn lemma_round_trip_keeps_other_entries(
    before: DocumentMut,
    installed: DocumentMut,
    after: DocumentMut,
)
    requires
        keeps_other_entries(before, installed),
        keeps_other_entries(installed, after),
    ensures
        keeps_other_entries(before, after),
{
}

/// Installing and then removing the callback keeps the order of the
/// top-level keys: when `notify` stays, it stays where it was stored (or
/// last, if it was new); when it goes, the other keys are in their old
/// order.
pub proof fn lemma_round_trip_keeps_order(
    before: DocumentMut,
    installed: DocumentMut,
    after: DocumentMut,
)
    requires
        keeps_order_adding_notify(before, installed),
        keeps_order_removing_notify(installed, after),
    ensures
        toml_entries(after).dom().contains(notify_key()) ==> toml_key_order(after) == order_with(
            toml_key_order(before),
            notify_key(),
        ),
        !toml_entries(after).dom().contains(notify_key()) ==> toml_key_order(after)
            == order_without(toml_key_order(before), notify_key()),
{
    let o = toml_key_order(before);
    let n = notify_key();
    if !o.contains(n) {
        assert(o.push(n).drop_last() =~= o);
        reveal_with_fuel(Seq::filter, 1);
        assert(order_without(o.push(n), n) == order_without(o, n));
    }
}

} // verus!
