//! Codex's `config.toml` as far as this tool reads and edits it: the
//! top-level entries of a `toml_edit` document and the string arrays in them.

use vstd::prelude::*;
use toml_edit::{Array, DocumentMut};
use crate::text::{has_prefix, join2, owned, strip_byte_order_marks, strip_leading};

verus! {

#[verifier::external_type_specification]
#[verifier::external_body]
pub struct ExDocumentMut(toml_edit::DocumentMut);

#[verifier::external_type_specification]
#[verifier::external_body]
pub struct ExArray(toml_edit::Array);

/// What a document holds at its top level: for each key that has an item,
/// `Some(elements)` when the item is an array value (each element `Some(text)`
/// when it is a string) and `None` for any other item.
pub uninterp spec fn toml_entries(doc: DocumentMut) -> Map<Seq<char>, Option<Seq<Option<Seq<char>>>>>;

/// How a document writes its top-level entries: for each key stored in the root table, a text of the stored key
/// (its name and its decor as stored, comments and blank lines before it
/// included) and of the stored item, each as `toml_edit` renders it, so
/// that the text records the entry's value and the comments before it.
pub uninterp spec fn toml_layout(doc: DocumentMut) -> Map<Seq<char>, Seq<char>>;

/// The keys stored in a document's root table, in the order in which they
/// are kept (the order of its `IndexMap`).
pub uninterp spec fn toml_key_order(doc: DocumentMut) -> Seq<Seq<char>>;

/// The key order after setting `key`: a stored key keeps its place, a new
/// key comes last.
pub open spec fn order_with(order: Seq<Seq<char>>, key: Seq<char>) -> Seq<Seq<char>> {
    if order.contains(key) {
        order
    } else {
        order.push(key)
    }
}

/// The key order after removing `key`: the others keep their order.
pub open spec fn order_without(order: Seq<Seq<char>>, key: Seq<char>) -> Seq<Seq<char>> {
    order.filter(|k: Seq<char>| k != key)
}

/// What an array holds: for each element, `Some(text)` when it is a string.
pub uninterp spec fn toml_array_items(array: Array) -> Seq<Option<Seq<char>>>;

/// What `toml_edit` parses from a text: the top-level entries of the
/// document, or the text of its error (`TomlError`'s `Display`) when the
/// text is not valid TOML.
pub uninterp spec fn toml_document(text: Seq<char>) -> Result<Map<Seq<char>, Option<Seq<Option<Seq<char>>>>>, Seq<char>>;

/// The key of Codex's notification callback.
pub open spec fn notify_key() -> Seq<char> {
    "notify"@
}

/// The strings of an array whose elements are all strings.
pub open spec fn all_strings(items: Seq<Option<Seq<char>>>) -> Option<Seq<Seq<char>>> {
    if forall|i: int| 0 <= i < items.len() ==> (#[trigger] items[i]) is Some {
        Some(items.map_values(|item: Option<Seq<char>>| item.unwrap()))
    } else {
        None
    }
}

/// The array of strings that `strings_to_array` builds.
pub open spec fn string_items(values: Seq<Seq<char>>) -> Seq<Option<Seq<char>>> {
    values.map_values(|value: Seq<char>| Some(value))
}

/// The command stored under `notify`, when it is an array of strings.
pub open spec fn notify_command_of(entries: Map<Seq<char>, Option<Seq<Option<Seq<char>>>>>) -> Option<
    Seq<Seq<char>>,
> {
    if entries.dom().contains(notify_key()) {
        match entries[notify_key()] {
            Some(items) => all_strings(items),
            None => None,
        }
    } else {
        None
    }
}

/// A `notify` entry is usable when it is absent or an array of strings.
pub open spec fn notify_entry_valid(entries: Map<Seq<char>, Option<Seq<Option<Seq<char>>>>>) -> bool {
    entries.dom().contains(notify_key()) ==> notify_command_of(entries) is Some
}

/// The message for an unusable `notify` entry.
pub open spec fn invalid_notify_message() -> Seq<char> {
    "Codex 配置中的 notify 必须是仅包含字符串的命令数组，请先修正该配置"@
}

/// The message for a configuration that is not TOML.
pub open spec fn invalid_toml_prefix() -> Seq<char> {
    "Codex 配置不是有效的 TOML："@
}

/// An empty document (`DocumentMut::new`).
///
/// Trusted: calls `DocumentMut::new`, which builds a document whose root
/// table has no entries.
#[verifier::external_body]
pub(crate) fn new_document() -> (document: DocumentMut)
    ensures
        toml_entries(document).dom().is_empty(),
        toml_layout(document).dom().is_empty(),
        toml_key_order(document) == Seq::<Seq<char>>::empty(),
{
    DocumentMut::new()
}

/// Parses a TOML text (`str::parse::<DocumentMut>`).
///
/// Trusted: claims that parsing succeeds exactly when `toml_document`
/// gives entries, that the parsed document holds those entries, and that an
/// error's text is the one `toml_document` names.
#[verifier::external_body]
pub(crate) fn parse_document(text: &str) -> (r: Result<DocumentMut, String>)
    ensures
        r is Ok <==> toml_document(text@) is Ok,
        r matches Ok(doc) ==> (toml_document(text@) matches Ok(m) && m == toml_entries(doc)),
        r matches Err(e) ==> (toml_document(text@) matches Err(m) && m == e@),
{
    text.parse::<DocumentMut>().map_err(|error| error.to_string())
}

/// The array stored under a top-level key (`Table::get`, then telling an
/// array value apart from other items as `Item::as_array` does).
///
/// Trusted: `None` when the key has no item, `Some(None)` when the item is
/// not an array value, and otherwise the array whose elements the entry
/// records. A key that has an item is one of the stored keys.
#[verifier::external_body]
pub(crate) fn document_array<'a>(doc: &'a DocumentMut, key: &str) -> (r: Option<Option<&'a Array>>)
    ensures
        r is None <==> !toml_entries(*doc).dom().contains(key@),
        r matches Some(inner) ==> (inner is None <==> toml_entries(*doc)[key@] is None),
        r matches Some(Some(array)) ==> toml_entries(*doc)[key@] == Some(toml_array_items(*array)),
        r is Some ==> toml_key_order(*doc).contains(key@),
{
    match doc.get(key) {
        None => None,
        Some(toml_edit::Item::Value(toml_edit::Value::Array(array))) => Some(Some(array)),
        Some(_) => Some(None),
    }
}

/// Stores an array under a top-level key (`doc[key] = Item::Value(Value::Array(..))`).
///
/// Trusted: `IndexMut` on the root table inserts the key when missing and
/// the assignment replaces its item, so the entry becomes that array and
/// every other stored key and item stays as it was. An existing key keeps
/// its place (`Entry::Occupied`); a new one is appended (`Entry::Vacant`
/// inserts at the end of the `IndexMap`). How the edited entry itself is
/// written afterwards is not stated.
#[verifier::external_body]
pub(crate) fn document_set_array(doc: &mut DocumentMut, key: &str, array: Array)
    ensures
        toml_entries(*final(doc)) == toml_entries(*old(doc)).insert(
            key@,
            Some(toml_array_items(array)),
        ),
        toml_layout(*final(doc)).remove(key@) == toml_layout(*old(doc)).remove(key@),
        toml_key_order(*final(doc)) == order_with(toml_key_order(*old(doc)), key@),
{
    doc[key] = toml_edit::Item::Value(toml_edit::Value::Array(array));
}

/// Removes a top-level key (`Table::remove`).
///
/// Trusted: `shift_remove` drops the key's entry; every other stored key
/// and item stays as it was, in the same order.
#[verifier::external_body]
pub(crate) fn document_remove(doc: &mut DocumentMut, key: &str)
    ensures
        toml_entries(*final(doc)) == toml_entries(*old(doc)).remove(key@),
        toml_layout(*final(doc)) == toml_layout(*old(doc)).remove(key@),
        toml_key_order(*final(doc)) == order_without(toml_key_order(*old(doc)), key@),
{
    doc.remove(key);
}

/// An empty array (`Array::new`).
///
/// Trusted: the new array has no elements.
#[verifier::external_body]
pub(crate) fn new_array() -> (array: Array)
    ensures
        toml_array_items(array) == Seq::<Option<Seq<char>>>::empty(),
{
    Array::new()
}

/// Appends a string element (`Array::push`).
///
/// Trusted: the array gains one string element at its end.
#[verifier::external_body]
pub(crate) fn array_push_str(array: &mut Array, value: &str)
    ensures
        toml_array_items(*final(array)) == toml_array_items(*old(array)).push(Some(value@)),
{
    array.push(value);
}

/// The number of elements (`Array::len`).
///
/// Trusted: the length of the element sequence.
#[verifier::external_body]
pub(crate) fn array_len(array: &Array) -> (n: usize)
    ensures
        n == toml_array_items(*array).len(),
{
    array.len()
}

/// The string at an index (`Array::get`, then `Value::as_str`).
///
/// Trusted: the element's text when it is a string, none otherwise.
#[verifier::external_body]
pub(crate) fn array_string_at(array: &Array, index: usize) -> (r: Option<String>)
    requires
        index < toml_array_items(*array).len(),
    ensures
        r matches Some(s) ==> toml_array_items(*array)[index as int] == Some(s@),
        r is None ==> toml_array_items(*array)[index as int] is None,
{
    array.get(index).and_then(toml_edit::Value::as_str).map(str::to_string)
}

/// Builds a TOML array of strings.
pub fn strings_to_array(values: &[String]) -> (array: Array)
    ensures
        toml_array_items(array) == string_items(values.deep_view()),
{
    let mut array = new_array();
    let n = values.len();
    let mut i: usize = 0;
    while i < n
        invariant
            n == values@.len(),
            i <= n,
            toml_array_items(array) == string_items(values.deep_view().take(i as int)),
        decreases n - i,
    {
        array_push_str(&mut array, values[i].as_str());
        assert(values.deep_view().take(i + 1) =~= values.deep_view().take(i as int).push(
            values@[i as int]@,
        ));
        i = i + 1;
        assert(toml_array_items(array) =~= string_items(values.deep_view().take(i as int)));
    }
    assert(values.deep_view().take(n as int) =~= values.deep_view());
    array
}

/// The strings of an array, or none when some element is not a string.
pub fn array_to_strings(array: &Array) -> (r: Option<Vec<String>>)
    ensures
        r matches Some(v) ==> all_strings(toml_array_items(*array)) == Some(v.deep_view()),
        r is None ==> all_strings(toml_array_items(*array)) is None,
{
    let ghost items = toml_array_items(*array);
    let n = array_len(array);
    let mut out: Vec<String> = Vec::new();
    let mut i: usize = 0;
    while i < n
        invariant
            n == items.len(),
            items == toml_array_items(*array),
            i <= n,
            out@.len() == i,
            forall|j: int| 0 <= j < i ==> (#[trigger] items[j]) == Some(out@[j]@),
        decreases n - i,
    {
        match array_string_at(array, i) {
            Some(s) => {
                out.push(s);
            },
            None => {
                assert(!(items[i as int] is Some));
                return None;
            },
        }
        i = i + 1;
    }
    assert(forall|j: int| 0 <= j < items.len() ==> (#[trigger] items[j]) is Some);
    assert(items.map_values(|item: Option<Seq<char>>| item.unwrap()) =~= out.deep_view());
    Some(out)
}

/// The command stored under `notify`, when it is an array of strings.
pub fn notify_command(document: &DocumentMut) -> (r: Option<Vec<String>>)
    ensures
        r matches Some(v) ==> notify_command_of(toml_entries(*document)) == Some(v.deep_view()),
        r is None ==> notify_command_of(toml_entries(*document)) is None,
        r is Some ==> toml_key_order(*document).contains(notify_key()),
{
    match document_array(document, "notify") {
        Some(Some(array)) => array_to_strings(array),
        _ => None,
    }
}

/// Refuses a `notify` entry that is not an array of strings.
pub fn validate_notify_entry(document: &DocumentMut) -> (r: Result<(), String>)
    ensures
        r is Ok <==> notify_entry_valid(toml_entries(*document)),
        r matches Err(message) ==> message@ == invalid_notify_message(),
{
    let present = match document_array(document, "notify") {
        Some(_) => true,
        None => false,
    };
    if present && notify_command(document).is_none() {
        return Err(owned("Codex 配置中的 notify 必须是仅包含字符串的命令数组，请先修正该配置"));
    }
    Ok(())
}

/// Reads Codex's configuration from the text of `config.toml`, or an empty
/// document when the file does not exist; leading byte-order marks are
/// ignored.
pub fn parse_config(content: Option<&str>) -> (r: Result<DocumentMut, String>)
    ensures
        content is None ==> (r matches Ok(doc) && toml_entries(doc).dom().is_empty()),
        content matches Some(text) ==> {
            let stripped = strip_leading(text@, '\u{feff}');
            &&& r is Ok <==> toml_document(stripped) is Ok
            &&& r matches Ok(doc) ==> toml_document(stripped) matches Ok(entries) && entries
                == toml_entries(doc)
            &&& r matches Err(message) ==> toml_document(stripped) matches Err(e) && message@
                == invalid_toml_prefix() + e
        },
{
    match content {
        None => Ok(new_document()),
        Some(text) => {
            let stripped = strip_byte_order_marks(text);
            match parse_document(stripped) {
                Ok(doc) => Ok(doc),
                Err(error) => {
                    let message = join2("Codex 配置不是有效的 TOML：", error.as_str());
                    proof {
                        reveal_strlit("Codex 配置不是有效的 TOML：");
                    }
                    Err(message)
                },
            }
        },
    }
}

} // verus!
