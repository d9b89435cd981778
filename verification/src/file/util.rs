use crate::error::ErrorKind;
use vstd::prelude::*;
use vstd::string::StringExecFns;
use vstd::std_specs::iter::IteratorSpec;

verus! {

/// What a probe of the filesystem found at a path.
#[derive(Clone, Copy, Debug, PartialEq, Eq, Structural)]
pub enum FsObject {
    /// Nothing exists at the path.
    Missing,
    /// A directory.
    Directory,
    /// A regular file.
    File,
    /// Something that exists and is neither a directory nor a regular file.
    Other,
}

/// How an object is to be removed from the filesystem.
#[derive(Clone, Copy, Debug, PartialEq, Eq, Structural)]
pub enum Removal {
    /// Remove the directory with all that it holds.
    Tree,
    /// Remove the single file.
    File,
    /// Leave the filesystem as it is.
    Nothing,
}

/// `text` with each `~` replaced by `home`.
pub open spec fn with_home(text: Seq<char>, home: Seq<char>) -> Seq<char>
    decreases text.len(),
{
    if text.len() == 0 {
        Seq::empty()
    } else if text.last() == '~' {
        with_home(text.drop_last(), home) + home
    } else {
        with_home(text.drop_last(), home).push(text.last())
    }
}

/// Asks `dirs::home_dir` for the home directory of the user, as text. The
/// answer depends on the environment, so nothing is claimed of it.
#[verifier::external_body]
fn home_dir() -> Option<String> {
    dirs::home_dir()?.to_str().map(String::from)
}

/// Whether `text` begins with `~`.
pub open spec fn begins_with_tilde(text: Seq<char>) -> bool {
    text.len() > 0 && text[0] == '~'
}

/// Whether `text` is what the expansion of a leading `~` can make of `raw`:
/// `raw` as it is; or, where `raw` begins with `~` and goes on with a
/// separator or ends there, some home directory in the place of that `~`.
pub open spec fn home_expanded(raw: Seq<char>, text: Seq<char>) -> bool {
    ||| text == raw
    ||| {
        &&& begins_with_tilde(raw)
        &&& raw.len() == 1 || raw[1] == '/' || raw[1] == '\\'
        &&& exists|home: Seq<char>| text == home + raw.skip(1)
    }
}

/// Expands a leading `~` and the environment variables in `raw` with
/// `shellexpand::full`. What a variable or the `~` expands to depends on the
/// environment, and nothing is claimed of it. The contract claims what the
/// outside documentation and source show of a text without `$`: no variable
/// is looked up, so the call does not fail, and the text comes back as it is
/// unless its leading `~` was replaced by the home directory.
#[verifier::external_body]
fn shell_expand(raw: &str) -> (r: Option<String>)
    ensures
        r is None ==> raw@.contains('$'),
        r matches Some(text) ==> raw@.contains('$') || home_expanded(raw@, text@),
{
    shellexpand::full(raw).ok().map(String::from)
}

/// A run of text without `~` stays as it is.
proof fn lemma_with_home_plain(text: Seq<char>, home: Seq<char>)
    requires
        forall|i: int| 0 <= i < text.len() ==> text[i] != '~',
    ensures
        with_home(text, home) == text,
    decreases text.len(),
{
    if text.len() > 0 {
        lemma_with_home_plain(text.drop_last(), home);
    }
}

/// Replacing goes through a text piece by piece.
proof fn lemma_with_home_concat(a: Seq<char>, b: Seq<char>, home: Seq<char>)
    ensures
        with_home(a + b, home) == with_home(a, home) + with_home(b, home),
    decreases b.len(),
{
    if b.len() > 0 {
        lemma_with_home_concat(a, b.drop_last(), home);
        assert((a + b).drop_last() =~= a + b.drop_last());
    }
}

/// Replaces each `~` in `text` by `home`.
pub fn replace_home(text: &str, home: &str) -> (r: String)
    ensures
        r@ == with_home(text@, home@),
{
    let len: usize = text.unicode_len();
    let mut out = String::new();
    let mut start: usize = 0;
    let mut pos: usize = 0;
    let mut chars = text.chars();
    loop
        invariant
            len == text@.len(),
            start <= pos <= len,
            chars.remaining() == text@.skip(pos as int),
            out@ == with_home(text@.subrange(0, start as int), home@),
            forall|i: int| start <= i < pos ==> text@[i] != '~',
        ensures
            pos == len,
        decreases len - pos,
    {
        match chars.next() {
            Some(c) => {
                if c == '~' {
                    out.append(text.substring_char(start, pos));
                    out.append(home);
                    proof {
                        let head = text@.subrange(0, start as int);
                        let run = text@.subrange(start as int, pos as int);
                        let mark = text@.subrange(pos as int, pos + 1);
                        lemma_with_home_plain(run, home@);
                        lemma_with_home_concat(head, run, home@);
                        lemma_with_home_concat(head + run, mark, home@);
                        assert(with_home(mark.drop_last(), home@) =~= Seq::<char>::empty());
                        assert((head + run) + mark =~= text@.subrange(0, pos + 1));
                    }
                    start = pos + 1;
                }
                pos = pos + 1;
            },
            None => {
                break ;
            },
        }
    }
    out.append(text.substring_char(start, len));
    proof {
        let head = text@.subrange(0, start as int);
        let run = text@.subrange(start as int, len as int);
        lemma_with_home_plain(run, home@);
        lemma_with_home_concat(head, run, home@);
        assert(head + run =~= text@);
    }
    out
}

/// Replaces each `~` in `str` by the home directory of the user. A text
/// without `~` comes back as it is, whether or not a home directory is known;
/// a text with `~` gives `None` where none is known.
pub fn apply_home_dir(str: &str) -> (r: Option<String>)
    ensures
        match r {
            Some(text) => exists|home: Seq<char>| text@ == with_home(str@, home),
            None => str@.contains('~'),
        },
        !str@.contains('~') ==> (r matches Some(text) && text@ == str@),
{
    if !has_tilde(str) {
        proof {
            assert forall|i: int| 0 <= i < str@.len() implies str@[i] != '~' by {
                if str@[i] == '~' {
                    assert(str@.contains('~'));
                }
            }
            lemma_with_home_plain(str@, Seq::empty());
        }
        return Some(String::from_str(str));
    }
    match home_dir() {
        Some(home) => {
            let text = replace_home(str, home.as_str());
            Some(text)
        },
        None => None,
    }
}

/// Expands a leading `~` and the environment variables in `raw`, as a shell
/// would. Fails with `CantGetAbsPath` where a variable is unknown; a text
/// without `$` names no variable, and does not fail. Such a text comes back as
/// it is, unless it begins with `~`: then the home directory can stand in the
/// place of that `~`.
pub fn expand_path(raw: &str) -> (r: Result<String, ErrorKind>)
    ensures
        match r {
            Ok(text) => !raw@.contains('$') ==> home_expanded(raw@, text@),
            Err(e) => e == ErrorKind::CantGetAbsPath && raw@.contains('$'),
        },
        !raw@.contains('$') && !begins_with_tilde(raw@) ==> (r matches Ok(text) && text@ == raw@),
{
    match shell_expand(raw) {
        Some(text) => Ok(text),
        None => Err(ErrorKind::CantGetAbsPath),
    }
}

/// Whether `text` has a `~` in it.
fn has_tilde(text: &str) -> (r: bool)
    ensures
        r == text@.contains('~'),
{
    let mut chars = text.chars();
    let ghost mut pos: int = 0;
    loop
        invariant
            0 <= pos <= text@.len(),
            chars.remaining() == text@.skip(pos),
            forall|i: int| 0 <= i < pos ==> text@[i] != '~',
        decreases text@.len() - pos,
    {
        match chars.next() {
            Some(c) => {
                proof {
                    assert(text@.skip(pos).drop_first() =~= text@.skip(pos + 1));
                }
                if c == '~' {
                    proof {
                        assert(text@[pos] == '~');
                    }
                    return true;
                }
                proof {
                    pos = pos + 1;
                }
            },
            None => {
                return false;
            },
        }
    }
}

/// Decides how the object found at a path is to be removed. Fails with
/// `FileNotFound` where nothing exists there.
pub fn delete_element_from_fs(object: FsObject) -> (r: Result<Removal, ErrorKind>)
    ensures
        r == match object {
            FsObject::Missing => Err::<Removal, ErrorKind>(ErrorKind::FileNotFound),
            FsObject::Directory => Ok(Removal::Tree),
            FsObject::File => Ok(Removal::File),
            FsObject::Other => Ok(Removal::Nothing),
        },
{
    match object {
        FsObject::Missing => Err(ErrorKind::FileNotFound),
        FsObject::Directory => Ok(Removal::Tree),
        FsObject::File => Ok(Removal::File),
        FsObject::Other => Ok(Removal::Nothing),
    }
}

} // verus!
