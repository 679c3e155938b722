//! Paths as text: what the platform's path rules answer about a path, and
//! the unix form in which paths are recorded.

use vstd::prelude::*;
use vstd::string::*;
use crate::text::{chars_of, replace, replace_char, slice_of, string_of};

verus! {

/// Whether a path is one that every platform reads alike: it holds no
/// backslash and no drive colon, and does not begin with two separators.
/// Its segments are then what stands between its `/`.
pub open spec fn is_portable_path(path: Seq<char>) -> bool {
    &&& !path.contains('\\')
    &&& !path.contains(':')
    &&& !(path.len() >= 2 && path[0] == '/' && path[1] == '/')
}

/// The position of the last occurrence of a character before position
/// `upto`, or -1 where there is none.
pub open spec fn last_of(s: Seq<char>, c: char, upto: int) -> int
    decreases upto,
{
    if upto <= 0 || upto > s.len() {
        -1
    } else if s[upto - 1] == c {
        upto - 1
    } else {
        last_of(s, c, upto - 1)
    }
}

/// The name of the file that a path ends in: its last segment, where
/// empty segments and segments that are `.` do not count. None where
/// nothing is left, where only a `.` in front is left, and where the last
/// segment that counts is `..`.
pub open spec fn file_name_of(path: Seq<char>) -> Option<Seq<char>>
    decreases path.len(),
{
    let slash = last_of(path, '/', path.len() as int);
    let last = path.subrange(slash + 1, path.len() as int);
    if last == seq!['.', '.'] {
        None
    } else if last.len() == 0 || last == seq!['.'] {
        if 0 < slash < path.len() {
            file_name_of(path.subrange(0, slash))
        } else {
            None
        }
    } else {
        Some(last)
    }
}

/// The extension of a file name: none where no `.` stands after the first
/// character, else the text after the last `.`.
pub open spec fn bare_extension(name: Seq<char>) -> Option<Seq<char>> {
    let dot = last_of(name, '.', name.len() as int);
    if dot >= 1 {
        Some(name.subrange(dot + 1, name.len() as int))
    } else {
        None
    }
}

/// The extension of the file that a path ends in, if it ends in one that
/// has an extension.
pub open spec fn extension_of(path: Seq<char>) -> Option<Seq<char>> {
    match file_name_of(path) {
        Some(name) => bare_extension(name),
        None => None,
    }
}

/// Whether an extension that was found is the one given in the model.
pub open spec fn is_extension(found: Option<String>, extension: Option<Seq<char>>) -> bool {
    match found {
        Some(e) => extension == Some(e@),
        None => extension is None,
    }
}

/// The extension of a path's file name, if it has one.
///
/// Trusted: `std::path::Path::extension`. What counts as a separator or a
/// prefix depends on the platform, so of a path that holds `\` or `:`,
/// or begins with two separators, nothing is stated. Of any other path
/// the platforms agree, as documented: repeated separators, a separator
/// at the end and segments that are `.` are passed over, but for a `.` in
/// front; the file name is the last segment left, and there is none where
/// that segment is `..`. The extension is none where the name holds no
/// `.` or only one in front, else what follows the last `.`.
#[verifier::external_body]
pub(crate) fn path_extension(path: &str) -> (r: Option<String>)
    ensures
        is_portable_path(path@) ==> is_extension(r, extension_of(path@)),
{
    std::path::Path::new(path).extension().map(|e| e.to_string_lossy().into_owned())
}

/// Whether something exists at a path.
///
/// Trusted: `std::path::Path::exists`. The answer depends on what is on
/// disk, so nothing is stated of it.
#[verifier::external_body]
pub(crate) fn path_exists(path: &str) -> bool {
    std::path::Path::new(path).exists()
}

/// A text without its leading `./` segments.
pub open spec fn without_dot_slash(s: Seq<char>) -> Seq<char>
    decreases s.len(),
{
    if s.len() >= 2 && s[0] == '.' && s[1] == '/' {
        without_dot_slash(s.skip(2))
    } else {
        s
    }
}

/// The form in which a path is recorded: every backslash turned into a
/// slash, and no `./` in front.
pub open spec fn unix_form(raw: Seq<char>) -> Seq<char> {
    without_dot_slash(replace_char(raw, '\\', seq!['/']))
}

/// A text is in recorded form: it holds no backslash and does not begin
/// with `./`. The form says nothing of a leading `/`: rendering rewrites
/// separators and strips `./`, and leaves a path that starts at the root
/// of the file system as it is. A file below an ingestion root is made
/// relative to that root before its path is rendered; a file that is
/// ingested alone is recorded under its own path, absolute or not.
pub open spec fn is_unix_form(s: Seq<char>) -> bool {
    &&& !s.contains('\\')
    &&& !(s.len() >= 2 && s[0] == '.' && s[1] == '/')
}

proof fn lemma_replace_removes_backslash(raw: Seq<char>)
    ensures
        !replace_char(raw, '\\', seq!['/']).contains('\\'),
    decreases raw.len(),
{
    let out = replace_char(raw, '\\', seq!['/']);
    if raw.len() > 0 {
        lemma_replace_removes_backslash(raw.drop_last());
        let front = replace_char(raw.drop_last(), '\\', seq!['/']);
        if out.contains('\\') {
            let k = choose|k: int| 0 <= k < out.len() && out[k] == '\\';
            if k < front.len() {
                assert(front[k] == '\\');
            }
        }
    }
}

proof fn lemma_without_dot_slash(s: Seq<char>)
    requires
        !s.contains('\\'),
    ensures
        is_unix_form(without_dot_slash(s)),
        without_dot_slash(s).len() <= s.len(),
    decreases s.len(),
{
    if s.len() >= 2 && s[0] == '.' && s[1] == '/' {
        let rest = s.skip(2);
        if rest.contains('\\') {
            let k = choose|k: int| 0 <= k < rest.len() && rest[k] == '\\';
            assert(s[k + 2] == '\\');
        }
        lemma_without_dot_slash(rest);
    }
}

/// Path normalization: the recorded form of any path holds no backslash and
/// no leading `./`, and recording a recorded path changes nothing.
pub proof fn lemma_unix_form_is_normal(raw: Seq<char>)
    ensures
        is_unix_form(unix_form(raw)),
{
    lemma_replace_removes_backslash(raw);
    lemma_without_dot_slash(replace_char(raw, '\\', seq!['/']));
}

proof fn lemma_replaced_front(raw: Seq<char>)
    requires
        raw.len() > 0,
    ensures
        replace_char(raw, '\\', seq!['/']).len() == raw.len(),
        replace_char(raw, '\\', seq!['/'])[0] == (if raw[0] == '\\' {
            '/'
        } else {
            raw[0]
        }),
    decreases raw.len(),
{
    let front = replace_char(raw.drop_last(), '\\', seq!['/']);
    if raw.len() > 1 {
        lemma_replaced_front(raw.drop_last());
    } else {
        assert(front.len() == 0);
    }
}

/// A path that starts at the root of the file system is recorded as one
/// that does: rendering leaves a leading separator in place.
pub proof fn lemma_unix_form_keeps_leading_separator(raw: Seq<char>)
    requires
        raw.len() > 0,
        raw[0] == '/' || raw[0] == '\\',
    ensures
        unix_form(raw).len() == raw.len(),
        unix_form(raw)[0] == '/',
{
    lemma_replaced_front(raw);
}

/// Renders a path in recorded form.
pub fn path_to_unix(path: &str) -> (r: String)
    ensures
        r@ == unix_form(path@),
        is_unix_form(r@),
{
    let raw = chars_of(path);
    let slash: Vec<char> = vec!['/'];
    assert(slash@ =~= seq!['/']);
    let replaced = replace(raw.as_slice(), '\\', slash.as_slice());
    let mut start: usize = 0;
    assert(replaced@.skip(0) =~= replaced@);
    while replaced.len() - start >= 2 && replaced[start] == '.' && replaced[start + 1] == '/'
        invariant
            start <= replaced.len(),
            without_dot_slash(replaced@) == without_dot_slash(replaced@.skip(start as int)),
        decreases replaced.len() - start,
    {
        proof {
            assert(replaced@.skip(start as int).skip(2) =~= replaced@.skip(start + 2));
        }
        start += 2;
    }
    proof {
        lemma_unix_form_is_normal(path@);
        assert(replaced@.skip(start as int) =~= replaced@.subrange(
            start as int,
            replaced@.len() as int,
        ));
    }
    let kept = slice_of(replaced.as_slice(), start, replaced.len());
    string_of(kept.as_slice())
}

} // verus!
