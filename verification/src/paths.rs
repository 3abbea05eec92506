//! Pure string operations on `/`-separated path names: basename, parent
//! directory, file extension, and extension replacement.
use vstd::prelude::*;
use crate::strutil::has_suffix;
use crate::strutil::rfind_char;
use crate::strutil::substr_copy;

verus! {

/// Index of the last occurrence of `c` in `s`, if any.
pub open spec fn spec_rfind(s: Seq<char>, c: char) -> Option<int>
    decreases s.len(),
{
    if s.len() == 0 {
        None
    } else if s[s.len() - 1] == c {
        Some(s.len() - 1)
    } else {
        spec_rfind(s.drop_last(), c)
    }
}

pub proof fn lemma_rfind_some(s: Seq<char>, c: char, i: int)
    requires
        0 <= i < s.len(),
        s[i] == c,
        forall|j: int| i < j < s.len() ==> s[j] != c,
    ensures
        spec_rfind(s, c) == Some(i),
    decreases s.len(),
{
    if i == s.len() - 1 {
    } else {
        assert(s.drop_last() =~= s.take(s.len() - 1));
        lemma_rfind_some(s.drop_last(), c, i);
    }
}

pub proof fn lemma_rfind_none(s: Seq<char>, c: char)
    requires
        forall|j: int| 0 <= j < s.len() ==> s[j] != c,
    ensures
        spec_rfind(s, c) is None,
    decreases s.len(),
{
    if s.len() > 0 {
        assert(s.drop_last() =~= s.take(s.len() - 1));
        lemma_rfind_none(s.drop_last(), c);
    }
}

/// The part of a path after its last `/`; the whole path when it has none.
pub open spec fn spec_basename(s: Seq<char>) -> Seq<char> {
    match spec_rfind(s, '/') {
        Some(i) => s.skip(i + 1),
        None => s,
    }
}

/// The part of a path before its last `/`; empty when it has none.
pub open spec fn spec_parent(s: Seq<char>) -> Seq<char> {
    match spec_rfind(s, '/') {
        Some(i) => s.take(i),
        None => Seq::empty(),
    }
}

/// The part of a path after its last `.`; empty when it has none.
pub open spec fn spec_extension(s: Seq<char>) -> Seq<char> {
    match spec_rfind(s, '.') {
        Some(i) => s.skip(i + 1),
        None => Seq::empty(),
    }
}

/// The path without the suffix `ext`; the whole path when `ext` is not a
/// suffix of it.
pub open spec fn spec_strip_extension(s: Seq<char>, ext: Seq<char>) -> Seq<char> {
    if has_suffix(s, ext) {
        s.take(s.len() - ext.len())
    } else {
        s
    }
}

/// The path with the suffix `old` replaced by `new`; when `old` is not a
/// suffix, `new` is appended.
pub open spec fn spec_swap_extension(s: Seq<char>, old_ext: Seq<char>, new_ext: Seq<char>) -> Seq<
    char,
> {
    if has_suffix(s, old_ext) {
        s.take(s.len() - old_ext.len()) + new_ext
    } else {
        s + new_ext
    }
}

/// Removes the directory part and returns the file name.
pub fn basename(path: &str) -> (r: String)
    ensures
        r@ == spec_basename(path@),
{
    let n = path.unicode_len();
    match rfind_char(path, '/') {
        Some(i) => {
            proof {
                lemma_rfind_some(path@, '/', i as int);
                assert(path@.subrange(i + 1, n as int) =~= path@.skip(i + 1));
            }
            substr_copy(path, i + 1, n)
        },
        None => {
            proof {
                lemma_rfind_none(path@, '/');
            }
            path.to_owned()
        },
    }
}

/// Removes the file name and returns the directory part.
pub fn parent(path: &str) -> (r: String)
    ensures
        r@ == spec_parent(path@),
{
    match rfind_char(path, '/') {
        Some(i) => {
            proof {
                lemma_rfind_some(path@, '/', i as int);
                assert(path@.subrange(0, i as int) =~= path@.take(i as int));
            }
            substr_copy(path, 0, i)
        },
        None => {
            proof {
                lemma_rfind_none(path@, '/');
            }
            String::new()
        },
    }
}

/// The file extension of a path: what follows its last `.`.
pub fn extension(path: &str) -> (r: String)
    ensures
        r@ == spec_extension(path@),
{
    let n = path.unicode_len();
    match rfind_char(path, '.') {
        Some(i) => {
            proof {
                lemma_rfind_some(path@, '.', i as int);
                assert(path@.subrange(i + 1, n as int) =~= path@.skip(i + 1));
            }
            substr_copy(path, i + 1, n)
        },
        None => {
            proof {
                lemma_rfind_none(path@, '.');
            }
            String::new()
        },
    }
}

fn ends_with(s: &str, suffix: &str) -> (r: bool)
    ensures
        r == has_suffix(s@, suffix@),
{
    let sn = s.unicode_len();
    let en = suffix.unicode_len();
    if en > sn {
        return false;
    }
    let mut i: usize = 0;
    while i < en
        invariant
            sn == s@.len(),
            en == suffix@.len(),
            en <= sn,
            i <= en,
            forall|j: int| 0 <= j < i ==> s@[sn - en + j] == suffix@[j],
        decreases en - i,
    {
        if s.get_char(sn - en + i) != suffix.get_char(i) {
            return false;
        }
        i = i + 1;
    }
    proof {
        assert(s@.subrange(sn - en, sn as int) =~= suffix@);
    }
    true
}

/// Removes the suffix `ext` from the path, if present.
pub fn strip_extension(path: &str, ext: &str) -> (r: String)
    ensures
        r@ == spec_strip_extension(path@, ext@),
{
    let n = path.unicode_len();
    let en = ext.unicode_len();
    if ends_with(path, ext) {
        proof {
            assert(path@.subrange(0, n - en) =~= path@.take(path@.len() - ext@.len()));
        }
        substr_copy(path, 0, n - en)
    } else {
        path.to_owned()
    }
}

/// Replaces the suffix `old_ext` of the path by `new_ext`; when `old_ext` is
/// not a suffix, appends `new_ext`.
pub fn swap_extension(path: &str, old_ext: &str, new_ext: &str) -> (r: String)
    ensures
        r@ == spec_swap_extension(path@, old_ext@, new_ext@),
{
    let mut base = strip_extension(path, old_ext);
    base.append(new_ext);
    base
}

/// Returns the table name unchanged: qualification is resolved separately,
/// when the statement's location record is built.
pub fn qualify_name(_catalog: &str, _schema: &str, name: &str) -> (r: String)
    ensures
        r@ == name@,
{
    name.to_owned()
}

/// Returns the object name unchanged: qualification is resolved separately,
/// when the statement's location record is built.
pub fn qualify_object_name(
    _catalog: &str,
    _schema: &str,
    name: &crate::ast::ObjectName,
) -> (r: crate::ast::ObjectName)
    ensures
        r@ == name@,
{
    crate::ast::ObjectName(crate::ast::dup_idents(&name.0))
}

} // verus!
