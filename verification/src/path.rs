//! A model of Windows path text as `std::path` reads it on Windows: the
//! prefix (drive, UNC share, device or verbatim), the root and the
//! components; file names, stems and extensions; equality of paths by
//! their components; and `PathBuf::push` of one path onto another.

use vstd::prelude::*;
use crate::text::{join2, join3, owned, push_char, same_text};

verus! {

/// Path separators on Windows.
pub open spec fn is_separator(c: char) -> bool {
    c == '/' || c == '\\'
}

/// A separator in a path of the given kind: a verbatim path (`\\?\`)
/// knows only `\`.
pub open spec fn is_sep_in(c: char, verbatim: bool) -> bool {
    if verbatim {
        c == '\\'
    } else {
        is_separator(c)
    }
}

/// An ASCII letter.
pub open spec fn is_ascii_alpha(c: char) -> bool {
    ('a' <= c && c <= 'z') || ('A' <= c && c <= 'Z')
}

/// ASCII uppercase of one character.
pub open spec fn ascii_upper(c: char) -> char {
    if 'a' <= c && c <= 'z' {
        ((c as u32) - 32) as char
    } else {
        c
    }
}

/// The text starts with a drive such as `C:`.
pub open spec fn has_drive_prefix(p: Seq<char>) -> bool {
    p.len() >= 2 && p[1] == ':' && is_ascii_alpha(p[0])
}

/// Index of the first separator of `s`, or its length when it has none.
pub open spec fn first_sep(s: Seq<char>, verbatim: bool) -> int
    decreases s.len(),
{
    if s.len() == 0 {
        0
    } else if is_sep_in(s[0], verbatim) {
        0
    } else {
        1 + first_sep(s.skip(1), verbatim)
    }
}

/// The text before the first separator.
pub open spec fn first_component(s: Seq<char>, verbatim: bool) -> Seq<char> {
    s.take(first_sep(s, verbatim))
}

/// The text after the first separator; empty when there is none.
pub open spec fn after_first_component(s: Seq<char>, verbatim: bool) -> Seq<char> {
    let i = first_sep(s, verbatim);
    if i < s.len() {
        s.skip(i + 1)
    } else {
        seq![]
    }
}

/// The kinds of `std::path::Prefix`.
#[derive(PartialEq, Eq, Structural, Clone, Copy, Debug)]
pub enum PrefixKind {
    /// `C:`
    Disk,
    /// `\\server\share`
    Unc,
    /// `\\.\device`
    DeviceNs,
    /// `\\?\name`
    Verbatim,
    /// `\\?\UNC\server\share`
    VerbatimUnc,
    /// `\\?\C:`
    VerbatimDisk,
}

/// A parsed prefix as `std::path::Prefix` holds it: its kind and its parts
/// (the uppercase drive letter for the drive kinds, the server and share
/// for the UNC kinds, the name for the others; unused parts are empty).
pub struct PrefixModel {
    pub kind: PrefixKind,
    pub first: Seq<char>,
    pub second: Seq<char>,
}

/// The kinds whose paths use `\` alone as separator.
pub open spec fn is_verbatim_kind(k: PrefixKind) -> bool {
    k == PrefixKind::Verbatim || k == PrefixKind::VerbatimUnc || k == PrefixKind::VerbatimDisk
}

/// The path starts with two separators.
pub open spec fn starts_double_sep(p: Seq<char>) -> bool {
    p.len() >= 2 && is_separator(p[0]) && is_separator(p[1])
}

/// The path starts with `\\?\`, written with backslashes.
pub open spec fn starts_verbatim(p: Seq<char>) -> bool {
    p.len() >= 4 && p[0] == '\\' && p[1] == '\\' && p[2] == '?' && p[3] == '\\'
}

/// The path starts with `\\.\`, with either separator.
pub open spec fn starts_device(p: Seq<char>) -> bool {
    p.len() >= 4 && is_separator(p[0]) && is_separator(p[1]) && p[2] == '.' && is_separator(
        p[3],
    )
}

/// The text starts with `UNC\` (or `UNC/`).
pub open spec fn starts_unc_marker(r: Seq<char>) -> bool {
    r.len() >= 4 && r[0] == 'U' && r[1] == 'N' && r[2] == 'C' && is_separator(r[3])
}

/// The text starts with a drive followed by `\`.
pub open spec fn starts_exact_drive(r: Seq<char>) -> bool {
    r.len() >= 3 && has_drive_prefix(r) && r[2] == '\\'
}

/// The length of a UNC-like prefix: its marker, the server, and the share
/// with the separator before it when the share is not empty.
pub open spec fn server_share_len(marker: int, server: Seq<char>, share: Seq<char>) -> int {
    marker + server.len() + if share.len() > 0 {
        share.len() + 1
    } else {
        0
    }
}

/// The prefix of a path, as `Path::components` parses it on Windows, with
/// its length: `\\?\UNC\server\share`, `\\?\C:`, `\\?\name`, `\\.\name`,
/// `\\server\share` (both parts not empty) and `C:`.
pub open spec fn path_prefix(p: Seq<char>) -> Option<(PrefixModel, int)> {
    if starts_double_sep(p) {
        if starts_verbatim(p) {
            let r = p.skip(4);
            if starts_unc_marker(r) {
                let server = first_component(r.skip(4), true);
                let share = first_component(after_first_component(r.skip(4), true), true);
                Some(
                    (
                        PrefixModel { kind: PrefixKind::VerbatimUnc, first: server, second: share },
                        server_share_len(8, server, share),
                    ),
                )
            } else if starts_exact_drive(r) {
                Some(
                    (
                        PrefixModel {
                            kind: PrefixKind::VerbatimDisk,
                            first: seq![ascii_upper(r[0])],
                            second: seq![],
                        },
                        6,
                    ),
                )
            } else {
                let name = first_component(r, true);
                Some(
                    (
                        PrefixModel { kind: PrefixKind::Verbatim, first: name, second: seq![] },
                        (4 + name.len()) as int,
                    ),
                )
            }
        } else if starts_device(p) {
            let name = first_component(p.skip(4), false);
            Some(
                (
                    PrefixModel { kind: PrefixKind::DeviceNs, first: name, second: seq![] },
                    (4 + name.len()) as int,
                ),
            )
        } else {
            let server = first_component(p.skip(2), false);
            let share = first_component(after_first_component(p.skip(2), false), false);
            if server.len() > 0 && share.len() > 0 {
                Some(
                    (
                        PrefixModel { kind: PrefixKind::Unc, first: server, second: share },
                        server_share_len(2, server, share),
                    ),
                )
            } else {
                None
            }
        }
    } else if has_drive_prefix(p) {
        Some(
            (
                PrefixModel { kind: PrefixKind::Disk, first: seq![ascii_upper(p[0])], second: seq![] },
                2,
            ),
        )
    } else {
        None
    }
}

/// The length of the path's prefix; zero without one.
pub open spec fn prefix_length(p: Seq<char>) -> int {
    match path_prefix(p) {
        Some((_, n)) => n,
        None => 0,
    }
}

/// The path has a verbatim prefix.
pub open spec fn path_is_verbatim(p: Seq<char>) -> bool {
    match path_prefix(p) {
        Some((m, _)) => is_verbatim_kind(m.kind),
        None => false,
    }
}

/// The text after the prefix.
pub open spec fn path_body(p: Seq<char>) -> Seq<char> {
    p.skip(prefix_length(p))
}

/// A separator right after the prefix.
pub open spec fn has_physical_root(p: Seq<char>) -> bool {
    path_body(p).len() > 0 && is_separator(path_body(p)[0])
}

/// The path has a root component: a separator after the prefix, or a UNC
/// or device prefix, which imply one.
pub open spec fn has_root_component(p: Seq<char>) -> bool {
    ||| has_physical_root(p)
    ||| (path_prefix(p) matches Some((m, _)) && (m.kind == PrefixKind::Unc || m.kind
        == PrefixKind::DeviceNs))
}

/// The text after the prefix and the root separator.
pub open spec fn path_rest(p: Seq<char>) -> Seq<char> {
    if has_physical_root(p) {
        path_body(p).skip(1)
    } else {
        path_body(p)
    }
}

/// Index of the last separator of `s`, or -1 when it has none.
pub open spec fn last_sep(s: Seq<char>, verbatim: bool) -> int
    decreases s.len(),
{
    if s.len() == 0 {
        -1
    } else if is_sep_in(s.last(), verbatim) {
        s.len() - 1
    } else {
        last_sep(s.drop_last(), verbatim)
    }
}

/// The components of a text split at separators: empty pieces are
/// dropped, `.` is dropped unless the path is verbatim (a leading `.` is
/// kept when `lead` holds), `..` and names are kept. `.` and `..` stand for
/// `Component::CurDir` and `Component::ParentDir`.
pub open spec fn split_components(s: Seq<char>, verbatim: bool, lead: bool) -> Seq<Seq<char>>
    decreases s.len(),
{
    let i = last_sep(s, verbatim);
    if i >= 0 {
        proof {
            lemma_last_sep_bounds(s, verbatim);
        }
        let c = s.skip(i + 1);
        let init = split_components(s.take(i), verbatim, lead);
        if c.len() == 0 || (!verbatim && c == seq!['.']) {
            init
        } else {
            init.push(c)
        }
    } else if s.len() == 0 || (!lead && s == seq!['.']) {
        seq![]
    } else {
        seq![s]
    }
}

/// The components after the prefix and the root (`Path::components`
/// without its `Prefix` and `RootDir`).
pub open spec fn components(p: Seq<char>) -> Seq<Seq<char>> {
    split_components(
        path_rest(p),
        path_is_verbatim(p),
        !has_root_component(p) || path_is_verbatim(p),
    )
}

/// What `Path` equality compares: the parsed prefix, the root and the
/// components.
pub open spec fn path_identity(p: Seq<char>) -> (Option<PrefixModel>, bool, Seq<Seq<char>>) {
    (
        match path_prefix(p) {
            Some((m, _)) => Some(m),
            None => None,
        },
        has_root_component(p),
        components(p),
    )
}

/// Two texts name the same path (`Path`'s `==`).
pub open spec fn same_path(a: Seq<char>, b: Seq<char>) -> bool {
    path_identity(a) == path_identity(b)
}

/// A component that is `.` or `..`.
pub open spec fn is_dot_component(c: Seq<char>) -> bool {
    c == seq!['.'] || c == seq!['.', '.']
}

/// The file name of a path (`Path::file_name`): its last component when
/// that is a name.
pub open spec fn file_name(p: Seq<char>) -> Option<Seq<char>> {
    let cs = components(p);
    if cs.len() == 0 || is_dot_component(cs.last()) {
        None
    } else {
        Some(cs.last())
    }
}

pub proof fn lemma_last_sep_bounds(s: Seq<char>, verbatim: bool)
    ensures
        -1 <= last_sep(s, verbatim) < s.len(),
        last_sep(s, verbatim) >= 0 ==> is_sep_in(s[last_sep(s, verbatim)], verbatim),
        forall|k: int| last_sep(s, verbatim) < k < s.len() ==> !is_sep_in(#[trigger] s[k], verbatim),
    decreases s.len(),
{
    if s.len() > 0 && !is_sep_in(s.last(), verbatim) {
        lemma_last_sep_bounds(s.drop_last(), verbatim);
        assert forall|k: int| last_sep(s, verbatim) < k < s.len() implies !is_sep_in(
            #[trigger] s[k],
            verbatim,
        ) by {
            if k < s.len() - 1 {
                assert(s[k] == s.drop_last()[k]);
            }
        }
    }
}

pub proof fn lemma_last_sep_is(s: Seq<char>, verbatim: bool, j: int)
    requires
        -1 <= j < s.len(),
        j >= 0 ==> is_sep_in(s[j], verbatim),
        forall|k: int| j < k < s.len() ==> !is_sep_in(#[trigger] s[k], verbatim),
    ensures
        last_sep(s, verbatim) == j,
    decreases s.len(),
{
    if s.len() > 0 && j != s.len() - 1 {
        assert(!is_sep_in(s[s.len() - 1], verbatim));
        assert forall|k: int| j < k < s.drop_last().len() implies !is_sep_in(
            #[trigger] s.drop_last()[k],
            verbatim,
        ) by {
            assert(s.drop_last()[k] == s[k]);
        }
        if j >= 0 {
            assert(s.drop_last()[j] == s[j]);
        }
        lemma_last_sep_is(s.drop_last(), verbatim, j);
    }
}

pub proof fn lemma_first_sep_is(s: Seq<char>, verbatim: bool, j: int)
    requires
        0 <= j <= s.len(),
        j < s.len() ==> is_sep_in(s[j], verbatim),
        forall|k: int| 0 <= k < j ==> !is_sep_in(#[trigger] s[k], verbatim),
    ensures
        first_sep(s, verbatim) == j,
    decreases j,
{
    if j > 0 {
        assert(!is_sep_in(s[0], verbatim));
        assert forall|k: int| 0 <= k < j - 1 implies !is_sep_in(#[trigger] s.skip(1)[k], verbatim) by {
            assert(s.skip(1)[k] == s[k + 1]);
        }
        if j < s.len() {
            assert(s.skip(1)[j - 1] == s[j]);
        }
        lemma_first_sep_is(s.skip(1), verbatim, j - 1);
    }
}

pub proof fn lemma_first_sep_bounds(s: Seq<char>, verbatim: bool)
    ensures
        0 <= first_sep(s, verbatim) <= s.len(),
    decreases s.len(),
{
    if s.len() > 0 && !is_sep_in(s[0], verbatim) {
        lemma_first_sep_bounds(s.skip(1), verbatim);
    }
}

/// The text of the path's prefix.
pub open spec fn prefix_text(p: Seq<char>) -> Seq<char> {
    p.take(prefix_length(p))
}

/// Components written one after another with `\` between them.
pub open spec fn joined(parts: Seq<Seq<char>>) -> Seq<char>
    decreases parts.len(),
{
    if parts.len() == 0 {
        seq![]
    } else if parts.len() == 1 {
        parts[0]
    } else {
        joined(parts.drop_last()) + seq!['\\'] + parts.last()
    }
}

/// One component pushed onto a verbatim path: `.` is dropped, `..` removes
/// a name before it, anything else is added.
pub open spec fn verbatim_step(parts: Seq<Seq<char>>, c: Seq<char>) -> Seq<Seq<char>> {
    if c == seq!['.'] {
        parts
    } else if c == seq!['.', '.'] {
        if parts.len() > 0 && !is_dot_component(parts.last()) {
            parts.drop_last()
        } else {
            parts
        }
    } else {
        parts.push(c)
    }
}

/// The components of a verbatim path after pushing `more` one by one.
pub open spec fn verbatim_steps(parts: Seq<Seq<char>>, more: Seq<Seq<char>>) -> Seq<Seq<char>>
    decreases more.len(),
{
    if more.len() == 0 {
        parts
    } else {
        verbatim_step(verbatim_steps(parts, more.drop_last()), more.last())
    }
}

/// `PathBuf::push` onto a verbatim path: the path is written again from
/// its components, with `.` and `..` of the pushed path resolved; a rooted
/// pushed path keeps only the prefix of the base.
pub open spec fn verbatim_join(base: Seq<char>, name: Seq<char>) -> Seq<char> {
    let root = has_root_component(base) || has_root_component(name);
    let start = if has_root_component(name) {
        Seq::<Seq<char>>::empty()
    } else {
        components(base)
    };
    let parts = verbatim_steps(start, components(name));
    prefix_text(base) + (if root || parts.len() > 0 {
        seq!['\\']
    } else {
        seq![]
    }) + joined(parts)
}

/// Whether pushing a relative path onto `base` inserts a separator: `base`
/// does not end with one and is not a bare drive.
pub open spec fn needs_separator(base: Seq<char>) -> bool {
    &&& base.len() > 0
    &&& !is_separator(base.last())
    &&& !(base.len() == 2 && has_drive_prefix(base))
}

/// `Path::join` on Windows: a path with a prefix replaces the base; onto a
/// verbatim base the result is normalized; a rooted path keeps only the
/// base's prefix; otherwise the two are joined with `\` when needed.
pub open spec fn join_path(base: Seq<char>, name: Seq<char>) -> Seq<char> {
    if path_prefix(name) is Some {
        name
    } else if path_is_verbatim(base) && name.len() > 0 {
        verbatim_join(base, name)
    } else if name.len() > 0 && is_separator(name[0]) {
        prefix_text(base) + name
    } else if needs_separator(base) {
        base + seq!['\\'] + name
    } else {
        base + name
    }
}

/// Index of the last occurrence of `c` in `s`, or -1 when there is none.
pub open spec fn last_index_of(s: Seq<char>, c: char) -> int
    decreases s.len(),
{
    if s.len() == 0 {
        -1
    } else if s.last() == c {
        s.len() - 1
    } else {
        last_index_of(s.drop_last(), c)
    }
}

pub proof fn lemma_last_index_is(s: Seq<char>, c: char, j: int)
    requires
        -1 <= j < s.len(),
        j >= 0 ==> s[j] == c,
        forall|k: int| j < k < s.len() ==> #[trigger] s[k] != c,
    ensures
        last_index_of(s, c) == j,
    decreases s.len(),
{
    if s.len() > 0 && j != s.len() - 1 {
        assert(s[s.len() - 1] != c);
        assert forall|k: int| j < k < s.drop_last().len() implies #[trigger] s.drop_last()[k]
            != c by {
            assert(s.drop_last()[k] == s[k]);
        }
        if j >= 0 {
            assert(s.drop_last()[j] == s[j]);
        }
        lemma_last_index_is(s.drop_last(), c, j);
    }
}

/// The extension of a file name: the text after its last dot, when that dot
/// is not the first character.
pub open spec fn name_extension(name: Seq<char>) -> Option<Seq<char>> {
    let d = last_index_of(name, '.');
    if d > 0 {
        Some(name.skip(d + 1))
    } else {
        None
    }
}

/// The stem of a file name: the text before its last dot, when that dot is
/// not the first character; the whole name otherwise.
pub open spec fn name_stem(name: Seq<char>) -> Seq<char> {
    let d = last_index_of(name, '.');
    if d > 0 {
        name.take(d)
    } else {
        name
    }
}

/// `Path::extension`.
pub open spec fn extension(p: Seq<char>) -> Option<Seq<char>> {
    match file_name(p) {
        Some(name) => name_extension(name),
        None => None,
    }
}

/// `Path::file_stem`.
pub open spec fn file_stem(p: Seq<char>) -> Option<Seq<char>> {
    match file_name(p) {
        Some(name) => Some(name_stem(name)),
        None => None,
    }
}

fn is_sep_char(c: char, verbatim: bool) -> (r: bool)
    ensures
        r == is_sep_in(c, verbatim),
{
    if verbatim {
        c == '\\'
    } else {
        c == '/' || c == '\\'
    }
}

fn is_alpha_char(c: char) -> (r: bool)
    ensures
        r == is_ascii_alpha(c),
{
    ('a' <= c && c <= 'z') || ('A' <= c && c <= 'Z')
}

fn upper_char(c: char) -> (r: char)
    ensures
        r == ascii_upper(c),
{
    if 'a' <= c && c <= 'z' {
        let b: u8 = c as u8;
        (b - 32) as char
    } else {
        c
    }
}

/// Index of the first separator at or after `start`, or the length.
fn first_sep_from(p: &str, start: usize, verbatim: bool) -> (j: usize)
    requires
        start <= p@.len(),
    ensures
        start <= j <= p@.len(),
        j - start == first_sep(p@.skip(start as int), verbatim),
{
    let n = p.unicode_len();
    let mut j = start;
    while j < n && !is_sep_char(p.get_char(j), verbatim)
        invariant
            start <= j <= n,
            n == p@.len(),
            forall|k: int| start <= k < j ==> !is_sep_in(#[trigger] p@[k], verbatim),
        decreases n - j,
    {
        j = j + 1;
    }
    proof {
        let s = p@.skip(start as int);
        assert forall|k: int| 0 <= k < j - start implies !is_sep_in(#[trigger] s[k], verbatim) by {
            assert(s[k] == p@[start + k]);
        }
        if j < n {
            assert(s[j - start] == p@[j as int]);
        }
        lemma_first_sep_is(s, verbatim, j - start);
    }
    j
}

/// The component that starts at `start`, and where the text after its
/// separator starts.
fn component_at(p: &str, start: usize, verbatim: bool) -> (r: (String, usize))
    requires
        start <= p@.len(),
    ensures
        r.0@ == first_component(p@.skip(start as int), verbatim),
        p@.skip(r.1 as int) == after_first_component(p@.skip(start as int), verbatim),
        start + r.0@.len() <= r.1 <= p@.len(),
        r.1 == p@.len() || r.1 == start + r.0@.len() + 1,
{
    let n = p.unicode_len();
    let j = first_sep_from(p, start, verbatim);
    let comp = p.substring_char(start, j);
    let ghost s = p@.skip(start as int);
    assert(comp@ =~= s.take(j - start));
    let next = if j < n {
        j + 1
    } else {
        n
    };
    proof {
        if j < n {
            assert(p@.skip(next as int) =~= s.skip(j - start + 1));
        } else {
            assert(p@.skip(next as int) =~= Seq::<char>::empty());
        }
    }
    (owned(comp), next)
}

/// A parsed prefix, held as text.
pub struct PrefixText {
    pub kind: PrefixKind,
    pub first: String,
    pub second: String,
}

impl View for PrefixText {
    type V = PrefixModel;

    open spec fn view(&self) -> PrefixModel {
        PrefixModel { kind: self.kind, first: self.first@, second: self.second@ }
    }
}

fn letter_text(c: char) -> (r: String)
    ensures
        r@ == seq![ascii_upper(c)],
{
    let mut s = String::new();
    push_char(&mut s, upper_char(c));
    assert(s@ =~= seq![ascii_upper(c)]);
    s
}

/// The prefix of a path and its length (`Path::components`).
fn prefix_of(p: &str) -> (r: Option<(PrefixText, usize)>)
    ensures
        match r {
            Some((t, n)) => path_prefix(p@) == Some((t@, n as int)),
            None => path_prefix(p@) is None,
        },
        r matches Some((_, n)) ==> n <= p@.len(),
{
    let len = p.unicode_len();
    let double = len >= 2 && is_sep_char(p.get_char(0), false) && is_sep_char(p.get_char(1), false);
    if double {
        let verbatim = len >= 4 && p.get_char(0) == '\\' && p.get_char(1) == '\\' && p.get_char(2)
            == '?' && p.get_char(3) == '\\';
        if verbatim {
            let ghost r = p@.skip(4);
            let unc = len >= 8 && p.get_char(4) == 'U' && p.get_char(5) == 'N' && p.get_char(6)
                == 'C' && is_sep_char(p.get_char(7), false);
            proof {
                if len >= 8 {
                    assert(r[0] == p@[4] && r[1] == p@[5] && r[2] == p@[6] && r[3] == p@[7]);
                }
                if len >= 8 {
                    assert(r.skip(4) =~= p@.skip(8));
                }
            }
            if unc {
                let (server, next) = component_at(p, 8, true);
                let (share, _) = component_at(p, next, true);
                let share_len = share.unicode_len();
                let n = 8 + server.unicode_len() + if share_len > 0 {
                    share_len + 1
                } else {
                    0
                };
                return Some((PrefixText { kind: PrefixKind::VerbatimUnc, first: server, second: share }, n));
            }
            let drive = len >= 7 && is_alpha_char(p.get_char(4)) && p.get_char(5) == ':'
                && p.get_char(6) == '\\';
            proof {
                if len >= 7 {
                    assert(r[0] == p@[4] && r[1] == p@[5] && r[2] == p@[6]);
                }
            }
            if drive {
                let first = letter_text(p.get_char(4));
                return Some((PrefixText { kind: PrefixKind::VerbatimDisk, first, second: String::new() }, 6));
            }
            let (name, _) = component_at(p, 4, true);
            let n = 4 + name.unicode_len();
            return Some((PrefixText { kind: PrefixKind::Verbatim, first: name, second: String::new() }, n));
        }
        let device = len >= 4 && p.get_char(2) == '.' && is_sep_char(p.get_char(3), false);
        if device {
            let (name, _) = component_at(p, 4, false);
            let n = 4 + name.unicode_len();
            return Some((PrefixText { kind: PrefixKind::DeviceNs, first: name, second: String::new() }, n));
        }
        let (server, next) = component_at(p, 2, false);
        let (share, _) = component_at(p, next, false);
        let server_len = server.unicode_len();
        let share_len = share.unicode_len();
        if server_len > 0 && share_len > 0 {
            let n = 2 + server_len + share_len + 1;
            return Some((PrefixText { kind: PrefixKind::Unc, first: server, second: share }, n));
        }
        return None;
    }
    let drive = len >= 2 && p.get_char(1) == ':' && is_alpha_char(p.get_char(0));
    if drive {
        let first = letter_text(p.get_char(0));
        Some((PrefixText { kind: PrefixKind::Disk, first, second: String::new() }, 2))
    } else {
        None
    }
}

/// Index of the last separator among `p[lo..end]`.
fn find_last_sep(p: &str, lo: usize, end: usize, verbatim: bool) -> (r: Option<usize>)
    requires
        lo <= end <= p@.len(),
    ensures
        r matches Some(j) ==> lo <= j < end && j - lo == last_sep(
            p@.subrange(lo as int, end as int),
            verbatim,
        ),
        r is None ==> last_sep(p@.subrange(lo as int, end as int), verbatim) == -1,
{
    let mut j: usize = end;
    while j > lo && !is_sep_char(p.get_char(j - 1), verbatim)
        invariant
            lo <= j <= end,
            end <= p@.len(),
            forall|k: int| j <= k < end ==> !is_sep_in(#[trigger] p@[k], verbatim),
        decreases j,
    {
        j = j - 1;
    }
    let ghost q = p@.subrange(lo as int, end as int);
    let ghost r: int = j - 1 - lo;
    proof {
        assert forall|k: int| r < k < q.len() implies !is_sep_in(#[trigger] q[k], verbatim) by {
            assert(q[k] == p@[lo + k]);
        }
        if r >= 0 {
            assert(q[r] == p@[lo + r]);
        }
        lemma_last_sep_is(q, verbatim, r);
    }
    if j == lo {
        None
    } else {
        Some(j - 1)
    }
}

fn is_single_dot(s: &str) -> (r: bool)
    ensures
        r == (s@ == seq!['.']),
{
    if s.unicode_len() == 1 {
        let r = s.get_char(0) == '.';
        proof {
            if r {
                assert(s@ =~= seq!['.']);
            }
        }
        r
    } else {
        assert(seq!['.'].len() == 1);
        false
    }
}

fn is_double_dot(s: &str) -> (r: bool)
    ensures
        r == (s@ == seq!['.', '.']),
{
    if s.unicode_len() == 2 {
        let r = s.get_char(0) == '.' && s.get_char(1) == '.';
        proof {
            if s@ == seq!['.', '.'] {
                assert(s@[0] == '.' && s@[1] == '.');
            }
            if r {
                assert(s@ =~= seq!['.', '.']);
            }
        }
        r
    } else {
        assert(seq!['.', '.'].len() == 2);
        false
    }
}

/// The components of `p[lo..hi]`.
fn components_between(p: &str, lo: usize, hi: usize, verbatim: bool, lead: bool) -> (r: Vec<String>)
    requires
        lo <= hi <= p@.len(),
    ensures
        r.deep_view() == split_components(p@.subrange(lo as int, hi as int), verbatim, lead),
    decreases hi - lo,
{
    let ghost s = p@.subrange(lo as int, hi as int);
    match find_last_sep(p, lo, hi, verbatim) {
        Some(j) => {
            proof {
                lemma_last_sep_bounds(s, verbatim);
                assert(s.take(j - lo) =~= p@.subrange(lo as int, j as int));
            }
            let mut init = components_between(p, lo, j, verbatim, lead);
            let c = p.substring_char(j + 1, hi);
            assert(c@ =~= s.skip(j - lo + 1));
            if c.unicode_len() == 0 || (!verbatim && is_single_dot(c)) {
                init
            } else {
                let ghost before = init.deep_view();
                init.push(owned(c));
                assert(init.deep_view() =~= before.push(c@));
                init
            }
        },
        None => {
            let whole = p.substring_char(lo, hi);
            assert(whole@ =~= s);
            if whole.unicode_len() == 0 || (!lead && is_single_dot(whole)) {
                let v: Vec<String> = Vec::new();
                assert(v.deep_view() =~= Seq::<Seq<char>>::empty());
                v
            } else {
                let mut v: Vec<String> = Vec::new();
                v.push(owned(whole));
                assert(v.deep_view() =~= seq![s]);
                v
            }
        },
    }
}

/// A path read as `Path::components` reads it.
struct PathLayout {
    prefix: Option<PrefixText>,
    prefix_len: usize,
    verbatim: bool,
    root: bool,
    parts: Vec<String>,
}

fn path_layout(p: &str) -> (l: PathLayout)
    ensures
        l.prefix_len == prefix_length(p@),
        l.prefix_len <= p@.len(),
        l.verbatim == path_is_verbatim(p@),
        l.root == has_root_component(p@),
        l.parts.deep_view() == components(p@),
        match l.prefix {
            Some(t) => path_prefix(p@) matches Some((m, _)) && m == t@,
            None => path_prefix(p@) is None,
        },
{
    let n = p.unicode_len();
    let pre = prefix_of(p);
    let (prefix, plen, verbatim, implicit) = match pre {
        Some((t, k)) => {
            let v = t.kind == PrefixKind::Verbatim || t.kind == PrefixKind::VerbatimUnc || t.kind
                == PrefixKind::VerbatimDisk;
            let i = t.kind == PrefixKind::Unc || t.kind == PrefixKind::DeviceNs;
            (Some(t), k, v, i)
        },
        None => (None, 0, false, false),
    };
    let physical = plen < n && is_sep_char(p.get_char(plen), false);
    proof {
        if plen < n {
            assert(path_body(p@)[0] == p@[plen as int]);
        }
    }
    let root = physical || implicit;
    let start = if physical {
        plen + 1
    } else {
        plen
    };
    assert(p@.subrange(start as int, n as int) =~= path_rest(p@));
    let parts = components_between(p, start, n, verbatim, !root || verbatim);
    PathLayout { prefix, prefix_len: plen, verbatim, root, parts }
}

/// Whether two texts name the same path (`Path`'s `==` on Windows).
pub fn paths_equal(a: &str, b: &str) -> (r: bool)
    ensures
        r == same_path(a@, b@),
{
    let la = path_layout(a);
    let lb = path_layout(b);
    let prefix_same = match (&la.prefix, &lb.prefix) {
        (Some(x), Some(y)) => x.kind == y.kind && same_text(x.first.as_str(), y.first.as_str())
            && same_text(x.second.as_str(), y.second.as_str()),
        (None, None) => true,
        _ => false,
    };
    let parts_same = crate::commands::same_command(la.parts.as_slice(), lb.parts.as_slice());
    prefix_same && la.root == lb.root && parts_same
}

/// The file name of a path (`Path::file_name`).
pub fn path_file_name(p: &str) -> (r: Option<String>)
    ensures
        r matches Some(s) ==> file_name(p@) == Some(s@),
        r is None ==> file_name(p@) is None,
{
    let l = path_layout(p);
    let k = l.parts.len();
    if k == 0 {
        return None;
    }
    let last = l.parts[k - 1].as_str();
    assert(l.parts.deep_view()[k - 1] == last@);
    if is_single_dot(last) || is_double_dot(last) {
        None
    } else {
        Some(owned(last))
    }
}

/// Index of the last `c` in `s`.
fn find_last_index_of(s: &str, c: char) -> (r: Option<usize>)
    ensures
        r matches Some(j) ==> j == last_index_of(s@, c) && j < s@.len(),
        r is None ==> last_index_of(s@, c) == -1,
{
    let mut j: usize = s.unicode_len();
    while j > 0 && s.get_char(j - 1) != c
        invariant
            j <= s@.len(),
            forall|k: int| j <= k < s@.len() ==> #[trigger] s@[k] != c,
        decreases j,
    {
        j = j - 1;
    }
    proof {
        lemma_last_index_is(s@, c, j - 1);
    }
    if j == 0 {
        None
    } else {
        Some(j - 1)
    }
}

/// The extension of a file name.
pub fn name_extension_of(name: &str) -> (r: Option<String>)
    ensures
        r matches Some(s) ==> name_extension(name@) == Some(s@),
        r is None ==> name_extension(name@) is None,
{
    let n = name.unicode_len();
    match find_last_index_of(name, '.') {
        Some(du) if du > 0 => {
            let e = name.substring_char(du + 1, n);
            assert(e@ =~= name@.skip(du + 1));
            Some(owned(e))
        },
        _ => None,
    }
}

/// The stem of a file name.
pub fn name_stem_of(name: &str) -> (r: String)
    ensures
        r@ == name_stem(name@),
{
    match find_last_index_of(name, '.') {
        Some(d) if d > 0 => {
            let s = name.substring_char(0, d);
            assert(s@ =~= name@.take(d as int));
            owned(s)
        },
        _ => owned(name),
    }
}

/// The extension of a path (`Path::extension`).
pub fn path_extension(p: &str) -> (r: Option<String>)
    ensures
        r matches Some(s) ==> extension(p@) == Some(s@),
        r is None ==> extension(p@) is None,
{
    match path_file_name(p) {
        Some(name) => name_extension_of(name.as_str()),
        None => None,
    }
}

/// The stem of a path (`Path::file_stem`).
pub fn path_file_stem(p: &str) -> (r: Option<String>)
    ensures
        r matches Some(s) ==> file_stem(p@) == Some(s@),
        r is None ==> file_stem(p@) is None,
{
    match path_file_name(p) {
        Some(name) => Some(name_stem_of(name.as_str())),
        None => None,
    }
}

/// The components written with `\` between them.
fn joined_text(parts: &Vec<String>) -> (r: String)
    ensures
        r@ == joined(parts.deep_view()),
{
    let n = parts.len();
    if n == 0 {
        let e = String::new();
        assert(e@ =~= joined(parts.deep_view()));
        return e;
    }
    let ghost all = parts.deep_view();
    let mut out = owned(parts[0].as_str());
    assert(all.take(1) =~= seq![all[0]]);
    let mut i: usize = 1;
    while i < n
        invariant
            1 <= i <= n,
            n == parts@.len(),
            all == parts.deep_view(),
            out@ == joined(all.take(i as int)),
        decreases n - i,
    {
        proof {
            reveal_strlit("\\");
            assert(all.take(i + 1).drop_last() =~= all.take(i as int));
            assert(all.take(i + 1).last() == parts@[i as int]@);
        }
        out = join3(out.as_str(), "\\", parts[i].as_str());
        i = i + 1;
    }
    assert(all.take(n as int) =~= all);
    out
}

/// Pushes components onto a verbatim path's components one by one.
fn verbatim_steps_of(parts: Vec<String>, more: &Vec<String>) -> (r: Vec<String>)
    ensures
        r.deep_view() == verbatim_steps(parts.deep_view(), more.deep_view()),
{
    let ghost start = parts.deep_view();
    let ghost all = more.deep_view();
    let mut parts = parts;
    let n = more.len();
    let mut i: usize = 0;
    assert(all.take(0) =~= Seq::<Seq<char>>::empty());
    while i < n
        invariant
            i <= n,
            n == more@.len(),
            all == more.deep_view(),
            parts.deep_view() == verbatim_steps(start, all.take(i as int)),
        decreases n - i,
    {
        let c = more[i].as_str();
        proof {
            assert(all.take(i + 1).drop_last() =~= all.take(i as int));
            assert(all.take(i + 1).last() == c@);
        }
        let ghost before = parts.deep_view();
        if is_single_dot(c) {
        } else if is_double_dot(c) {
            let k = parts.len();
            if k > 0 {
                let last = parts[k - 1].as_str();
                assert(before.last() == last@);
                if !is_single_dot(last) && !is_double_dot(last) {
                    parts.pop();
                    assert(parts.deep_view() =~= before.drop_last());
                }
            }
        } else {
            parts.push(owned(c));
            assert(parts.deep_view() =~= before.push(c@));
        }
        i = i + 1;
    }
    assert(all.take(n as int) =~= all);
    parts
}

/// `Path::join` on Windows.
pub fn join(base: &str, name: &str) -> (r: String)
    ensures
        r@ == join_path(base@, name@),
{
    if prefix_of(name).is_some() {
        return owned(name);
    }
    let lb = path_layout(base);
    let name_len = name.unicode_len();
    let plen = lb.prefix_len;
    proof {
        reveal_strlit("\\");
    }
    if lb.verbatim && name_len > 0 {
        let ln = path_layout(name);
        let root = lb.root || ln.root;
        let start = if ln.root {
            Vec::new()
        } else {
            lb.parts
        };
        assert(ln.root ==> start.deep_view() =~= Seq::<Seq<char>>::empty());
        let parts = verbatim_steps_of(start, &ln.parts);
        let pre = base.substring_char(0, plen);
        let body = joined_text(&parts);
        if root || parts.len() > 0 {
            return join3(pre, "\\", body.as_str());
        } else {
            assert(body@ =~= Seq::<char>::empty());
            return join2(pre, body.as_str());
        }
    }
    if name_len > 0 && is_sep_char(name.get_char(0), false) {
        return join2(base.substring_char(0, plen), name);
    }
    let n = base.unicode_len();
    let needs = n > 0 && !is_sep_char(base.get_char(n - 1), false) && !(n == 2 && base.get_char(1)
        == ':' && is_alpha_char(base.get_char(0)));
    assert(n > 0 ==> base@.last() == base@[n - 1]);
    if needs {
        join3(base, "\\", name)
    } else {
        join2(base, name)
    }
}

} // verus!
