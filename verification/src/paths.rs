//! Paths as the tool handles them: Unix path strings.
use vstd::prelude::*;

use crate::text::{
    concat2, copy_str, find_last_char, last_index_of, lemma_last_index_of, push_char, string_from,
    to_chars,
};

verus! {

/// A Unix path is absolute when it starts at the root.
pub open spec fn is_absolute(p: Seq<char>) -> bool {
    p.len() > 0 && p[0] == '/'
}

/// `base` adjoined with `rel`, as `Path::join` does on Unix: an absolute `rel`
/// replaces `base`; otherwise one separator is put between them unless `base`
/// is empty or already ends in one.
pub open spec fn join(base: Seq<char>, rel: Seq<char>) -> Seq<char> {
    if is_absolute(rel) {
        rel
    } else if base.len() == 0 || base.last() == '/' {
        base + rel
    } else {
        base.push('/') + rel
    }
}

/// What `Path::strip_prefix` gives for `path` and `base`: the rest of `path`
/// after the components of `base`, or nothing where `base` is not a prefix.
pub uninterp spec fn path_strip_prefix(path: Seq<char>, base: Seq<char>) -> Option<Seq<char>>;

/// The final component of a Unix path, as `Path::file_name` gives it: trailing
/// `/` separators and `.` components are passed over, and there is nothing
/// where what is left is empty, the root, or a `..` component.
pub open spec fn path_file_name(path: Seq<char>) -> Option<Seq<char>>
    decreases path.len(),
{
    if path.len() == 0 {
        None
    } else if path.last() == '/' {
        path_file_name(path.drop_last())
    } else {
        let i = last_index_of(path, '/');
        let name = path.skip(i + 1);
        if name == "."@ {
            proof {
                lemma_last_index_of(path, '/');
            }
            path_file_name(path.take(i + 1))
        } else if name == ".."@ {
            None
        } else {
            Some(name)
        }
    }
}

/// The extension of a file name as `Path::extension` documents it: nothing
/// where the name has no `.`, or begins with `.` and has no other; otherwise
/// what follows the final `.`.
pub open spec fn name_extension(name: Seq<char>) -> Option<Seq<char>> {
    let i = last_index_of(name, '.');
    if i <= 0 {
        None
    } else {
        Some(name.skip(i + 1))
    }
}

/// The extension of a path: that of its file name, where it has one.
pub open spec fn path_extension(path: Seq<char>) -> Option<Seq<char>> {
    match path_file_name(path) {
        Some(n) => name_extension(n),
        None => None,
    }
}

/// The view of an optional string.
pub open spec fn opt_view(o: Option<String>) -> Option<Seq<char>> {
    match o {
        Some(s) => Some(s@),
        None => None,
    }
}

/// Trusted wrapper around `std::path::Path::strip_prefix`.
///
/// Claims only that the result is the one named by `path_strip_prefix` for these
/// two paths; the component rules of `strip_prefix` are not restated.
#[verifier::external_body]
pub(crate) fn strip_path_prefix(path: &str, base: &str) -> (res: Option<String>)
    ensures
        opt_view(res) == path_strip_prefix(path@, base@),
{
    match std::path::Path::new(path).strip_prefix(base) {
        Ok(rest) => Some(rest.to_string_lossy().into_owned()),
        Err(_) => None,
    }
}

/// The final component of a path, as `Path::file_name` gives it.
pub(crate) fn file_name(path: &str) -> (res: Option<String>)
    ensures
        opt_view(res) == path_file_name(path@),
{
    let cs = to_chars(path);
    let n = cs.len();
    let mut end: usize = n;
    assert(cs@.take(n as int) =~= cs@);
    loop
        invariant
            end <= n == cs@.len(),
            cs@ == path@,
            path_file_name(cs@) == path_file_name(cs@.take(end as int)),
        decreases end,
    {
        let ghost q = cs@.take(end as int);
        proof {
            reveal_strlit(".");
            reveal_strlit("..");
        }
        if end == 0 {
            return None;
        }
        assert(q.last() == cs@[end - 1]);
        if cs[end - 1] == '/' {
            assert(q.drop_last() =~= cs@.take(end - 1));
            end = end - 1;
        } else {
            let start: usize = match find_last_char(cs.as_slice(), end, '/') {
                Some(i) => i + 1,
                None => 0,
            };
            proof {
                lemma_last_index_of(q, '/');
                assert(q.skip(last_index_of(q, '/') + 1) =~= cs@.subrange(start as int, end as int));
            }
            if end - start == 1 && cs[start] == '.' {
                proof {
                    assert(cs@.subrange(start as int, end as int) =~= "."@);
                    assert(q.take(start as int) =~= cs@.take(start as int));
                }
                end = start;
            } else if end - start == 2 && cs[start] == '.' && cs[start + 1] == '.' {
                proof {
                    assert(cs@.subrange(start as int, end as int) =~= ".."@);
                }
                return None;
            } else {
                proof {
                    if end - start == 1 {
                        assert(cs@.subrange(start as int, end as int)[0] != '.');
                        assert(cs@.subrange(start as int, end as int) != "."@);
                    }
                    if end - start == 2 {
                        assert(cs@.subrange(start as int, end as int)[0] != '.'
                            || cs@.subrange(start as int, end as int)[1] != '.');
                        assert(cs@.subrange(start as int, end as int) != ".."@);
                    }
                }
                return Some(string_from(cs.as_slice(), start, end));
            }
        }
    }
}

/// The extension of a path, as `Path::extension` documents it: that of its file
/// name, which is nothing where the name has no `.` or only a leading one, and
/// otherwise what follows the final `.`.
pub(crate) fn extension(path: &str) -> (res: Option<String>)
    ensures
        opt_view(res) == path_extension(path@),
{
    match file_name(path) {
        None => None,
        Some(name) => {
            let cs = to_chars(name.as_str());
            let n = cs.len();
            let found = find_last_char(cs.as_slice(), n, '.');
            assert(cs@.take(n as int) =~= cs@);
            assert(found matches Some(i) ==> i < n);
            match found {
                None => None,
                Some(i) => if i == 0 {
                    None
                } else {
                    Some(string_from(cs.as_slice(), i + 1, n))
                },
            }
        },
    }
}

/// Whether `p` is an absolute path.
pub fn path_is_absolute(p: &str) -> (b: bool)
    ensures
        b == is_absolute(p@),
{
    p.unicode_len() > 0 && p.get_char(0) == '/'
}

/// `base` adjoined with `rel`.
pub fn join_path(base: &str, rel: &str) -> (res: String)
    ensures
        res@ == join(base@, rel@),
{
    if path_is_absolute(rel) {
        return copy_str(rel);
    }
    let n = base.unicode_len();
    if n == 0 || base.get_char(n - 1) == '/' {
        concat2(base, rel)
    } else {
        let mut res = copy_str(base);
        push_char(&mut res, '/');
        res.append(rel);
        res
    }
}

/// A command-line path taken relative to `cwd` unless it is absolute.
pub fn resolve(cwd: &str, path: String) -> (res: String)
    ensures
        res@ == (if is_absolute(path@) {
            path@
        } else {
            join(cwd@, path@)
        }),
        res@ == join(cwd@, path@),
{
    if path_is_absolute(path.as_str()) {
        return path;
    }
    join_path(cwd, path.as_str())
}

/// `path` relative to `cwd` where it lies under it, else `path` as it is.
pub fn rel(path: &str, cwd: &str) -> (res: String)
    ensures
        res@ == (match path_strip_prefix(path@, cwd@) {
            Some(r) => r,
            None => path@,
        }),
{
    match strip_path_prefix(path, cwd) {
        Some(r) => r,
        None => copy_str(path),
    }
}

} // verus!

verus! {

/// Adjoining anything to an absolute path gives an absolute path.
pub proof fn lemma_join_absolute(base: Seq<char>, rel: Seq<char>)
    requires
        is_absolute(base),
    ensures
        is_absolute(join(base, rel)),
{
    if !is_absolute(rel) {
        if base.len() == 0 || base.last() == '/' {
            assert((base + rel)[0] == base[0]);
        } else {
            assert((base.push('/') + rel)[0] == base[0]);
        }
    }
}

/// Resolving against an absolute working directory gives an absolute path,
/// and resolving that again changes nothing.
pub proof fn lemma_resolve_idempotent(cwd: Seq<char>, path: Seq<char>)
    requires
        is_absolute(cwd),
    ensures
        is_absolute(join(cwd, path)),
        join(cwd, join(cwd, path)) == join(cwd, path),
{
    lemma_join_absolute(cwd, path);
}

/// An absolute path resolves to itself, whatever the working directory.
pub proof fn lemma_resolve_absolute(cwd: Seq<char>, path: Seq<char>)
    requires
        is_absolute(path),
    ensures
        join(cwd, path) == path,
{
}

} // verus!
