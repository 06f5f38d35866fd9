//! Locating the cache artifact and the paired test file of a changed source
//! file.
//!
//! A changed file is a relative path string.  Its compiled-cache artifact
//! lives in a reserved subdirectory beside it and is named by the file's stem
//! followed by a separator; its paired test lives under a top-level test
//! directory, mirroring the directory chain below the source root, with the
//! file name carrying a fixed marker prefix.  A file is only considered to
//! have a runnable test if a backup sentinel (`<path>` plus a fixed suffix)
//! exists on disk; the existence check itself is the driver's job and enters
//! here as a boolean.

use vstd::prelude::*;

use crate::text::{
    concat_str, is_prefix, join_path, join_view, last_index_of, lemma_deep_view_push,
    lemma_last_index_of, rfind_char, str_eq,
};

verus! {

/// The fixed path conventions of a run: directory names, markers and the
/// isolated-environment binary directory.  One value is built at startup and
/// passed everywhere, so tests can substitute a temporary tree.
pub struct Conventions {
    /// Top-level directory holding the source files (`src`).
    pub source_root: String,
    /// Top-level directory holding the paired tests (`tests`).
    pub test_root: String,
    /// Prefix put on a file name to obtain its test's name (`test_`).
    pub test_marker: String,
    /// Name of the per-directory compiled-cache subdirectory (`__pycache__`).
    pub cache_dir_name: String,
    /// Suffix of the backup sentinel beside an eligible source file (`.bak`).
    pub backup_suffix: String,
    /// Directory holding the toolchain executables to invoke.
    pub venv_bin_dir: String,
}

impl Conventions {
    /// The conventions of a real run.
    pub fn standard() -> (c: Conventions)
        ensures
            c.source_root@ == "src"@,
            c.test_root@ == "tests"@,
            c.test_marker@ == "test_"@,
            c.cache_dir_name@ == "__pycache__"@,
            c.backup_suffix@ == ".bak"@,
            c.venv_bin_dir@ == ".nox/mutmut_install/bin/"@,
    {
        Conventions {
            source_root: String::from_str("src"),
            test_root: String::from_str("tests"),
            test_marker: String::from_str("test_"),
            cache_dir_name: String::from_str("__pycache__"),
            backup_suffix: String::from_str(".bak"),
            venv_bin_dir: String::from_str(".nox/mutmut_install/bin/"),
        }
    }
}

/// A path names a file when it is non-empty and does not end in a separator.
pub open spec fn has_file_name(p: Seq<char>) -> bool {
    p.len() > 0 && p[p.len() - 1] != '/'
}

/// Everything before the last separator; empty when there is none.
pub open spec fn parent_view(p: Seq<char>) -> Seq<char> {
    let i = last_index_of(p, '/');
    if i <= -1 {
        Seq::empty()
    } else {
        p.take(i)
    }
}

/// Everything after the last separator.
pub open spec fn file_name_view(p: Seq<char>) -> Seq<char> {
    p.skip(last_index_of(p, '/') + 1)
}

/// The name up to its last dot; the whole name when there is no dot or the
/// only dot leads the name.
pub open spec fn file_stem_view(name: Seq<char>) -> Seq<char> {
    let d = last_index_of(name, '.');
    if d <= 0 {
        name
    } else {
        name.take(d)
    }
}

/// Splits a path into parent directory and file name.
pub fn split_file_path(p: &str) -> (r: Option<(String, String)>)
    ensures
        match r {
            Some(pair) => has_file_name(p@) && pair.0@ == parent_view(p@) && pair.1@
                == file_name_view(p@),
            None => !has_file_name(p@),
        },
{
    let n = p.unicode_len();
    if n == 0 {
        return None;
    }
    proof {
        lemma_last_index_of(p@, '/');
    }
    match rfind_char(p, '/') {
        Some(i) => {
            if i == n - 1 {
                None
            } else {
                let parent = String::from_str(p.substring_char(0, i));
                let name = String::from_str(p.substring_char(i + 1, n));
                Some((parent, name))
            }
        },
        None => {
            let name = String::from_str(p);
            proof {
                assert(p@.skip(0) =~= p@);
            }
            Some((String::new(), name))
        },
    }
}

/// The stem of a file name.
pub fn file_stem(name: &str) -> (r: String)
    ensures
        r@ == file_stem_view(name@),
{
    proof {
        lemma_last_index_of(name@, '.');
    }
    match rfind_char(name, '.') {
        Some(d) => {
            if d == 0 {
                String::from_str(name)
            } else {
                String::from_str(name.substring_char(0, d))
            }
        },
        None => String::from_str(name),
    }
}

/// The compiled-cache subdirectory belonging to a source path.
pub open spec fn cache_dir_view(cache_dir_name: Seq<char>, p: Seq<char>) -> Seq<char> {
    join_view(parent_view(p), cache_dir_name)
}

/// The artifact-name prefix belonging to a source path: its stem and a dot.
pub open spec fn cache_prefix_view(p: Seq<char>) -> Seq<char> {
    file_stem_view(file_name_view(p)) + "."@
}

/// Index of the first entry that `pre` is a prefix of, or -1 if none is.
pub open spec fn first_match(entries: Seq<Seq<char>>, pre: Seq<char>) -> int
    decreases entries.len(),
{
    if entries.len() == 0 {
        -1
    } else if pre.is_prefix_of(entries[0]) {
        0
    } else {
        let r = first_match(entries.drop_first(), pre);
        if r == -1 {
            -1
        } else {
            r + 1
        }
    }
}

/// `first_match` points at a match and nothing before it matches.
pub proof fn lemma_first_match(entries: Seq<Seq<char>>, pre: Seq<char>)
    ensures
        -1 <= first_match(entries, pre) < entries.len(),
        first_match(entries, pre) >= 0 ==> pre.is_prefix_of(entries[first_match(entries, pre)]),
        forall|j: int|
            0 <= j < first_match(entries, pre) ==> !pre.is_prefix_of(#[trigger] entries[j]),
        first_match(entries, pre) == -1 ==> forall|j: int|
            0 <= j < entries.len() ==> !pre.is_prefix_of(#[trigger] entries[j]),
    decreases entries.len(),
{
    if entries.len() > 0 && !pre.is_prefix_of(entries[0]) {
        let rest = entries.drop_first();
        lemma_first_match(rest, pre);
        assert forall|j: int|
            0 <= j < first_match(entries, pre) implies !pre.is_prefix_of(
            #[trigger] entries[j],
        ) by {
            if j > 0 {
                assert(rest[j - 1] == entries[j]);
            }
        }
        if first_match(entries, pre) == -1 {
            assert forall|j: int|
                0 <= j < entries.len() implies !pre.is_prefix_of(#[trigger] entries[j]) by {
                if j > 0 {
                    assert(rest[j - 1] == entries[j]);
                }
            }
        }
    }
}

/// Any matching position with no match before it is `first_match`.
pub proof fn lemma_first_match_unique(entries: Seq<Seq<char>>, pre: Seq<char>, i: int)
    requires
        0 <= i < entries.len(),
        pre.is_prefix_of(entries[i]),
        forall|j: int| 0 <= j < i ==> !pre.is_prefix_of(#[trigger] entries[j]),
    ensures
        first_match(entries, pre) == i,
{
    lemma_first_match(entries, pre);
}

/// The cache artifact of a source path, given the names found in its cache
/// subdirectory: the first entry carrying the stem-dot prefix, joined back
/// below that subdirectory; nothing when the path has no file name or no
/// entry matches.
pub open spec fn cache_file_view(
    cache_dir_name: Seq<char>,
    p: Seq<char>,
    entries: Seq<Seq<char>>,
) -> Option<Seq<char>> {
    if !has_file_name(p) {
        None
    } else {
        let m = first_match(entries, cache_prefix_view(p));
        if m == -1 {
            None
        } else {
            Some(join_view(cache_dir_view(cache_dir_name, p), entries[m]))
        }
    }
}

/// The cache subdirectory the driver must scan for `file`, or nothing when
/// the path has no file name.
pub fn cache_dir(conv: &Conventions, file: &str) -> (r: Option<String>)
    ensures
        match r {
            Some(d) => has_file_name(file@) && d@ == cache_dir_view(conv.cache_dir_name@, file@),
            None => !has_file_name(file@),
        },
{
    match split_file_path(file) {
        Some(pair) => Some(join_path(pair.0.as_str(), conv.cache_dir_name.as_str())),
        None => None,
    }
}

/// The cache artifact belonging to `file`, picked from the entry names the
/// driver read out of the cache subdirectory, in scan order.
pub fn cache_file(conv: &Conventions, file: &str, entries: &Vec<String>) -> (r: Option<String>)
    ensures
        match r {
            Some(a) => cache_file_view(conv.cache_dir_name@, file@, entries.deep_view()) == Some(
                a@,
            ),
            None => cache_file_view(conv.cache_dir_name@, file@, entries.deep_view()) is None,
        },
{
    let sp = split_file_path(file);
    match sp {
        None => None,
        Some(pair) => {
            let stem = file_stem(pair.1.as_str());
            let prefix = concat_str(stem.as_str(), ".");
            let dir = join_path(pair.0.as_str(), conv.cache_dir_name.as_str());
            let ghost pre = cache_prefix_view(file@);
            let ghost dents = entries.deep_view();
            let mut i: usize = 0;
            while i < entries.len()
                invariant
                    i <= entries@.len(),
                    dents == entries.deep_view(),
                    dents.len() == entries@.len(),
                    prefix@ == pre,
                    pre == cache_prefix_view(file@),
                    dir@ == cache_dir_view(conv.cache_dir_name@, file@),
                    has_file_name(file@),
                    forall|j: int| 0 <= j < i ==> !pre.is_prefix_of(#[trigger] dents[j]),
                decreases entries@.len() - i,
            {
                proof {
                    assert(dents[i as int] == entries@[i as int]@);
                }
                if is_prefix(entries[i].as_str(), prefix.as_str()) {
                    proof {
                        lemma_first_match_unique(dents, pre, i as int);
                    }
                    return Some(join_path(dir.as_str(), entries[i].as_str()));
                }
                i = i + 1;
            }
            proof {
                lemma_first_match(dents, pre);
            }
            None
        },
    }
}

/// The chain below `root`: empty when `dir` is `root` itself, the remainder
/// when `dir` starts with `root` and a separator, nothing otherwise.
pub open spec fn strip_root_view(root: Seq<char>, dir: Seq<char>) -> Option<Seq<char>> {
    if dir == root {
        Some(Seq::empty())
    } else if (root + "/"@).is_prefix_of(dir) {
        Some(dir.skip(root.len() + "/"@.len() as int))
    } else {
        None
    }
}

/// Strips the leading `root` component from the directory `dir`.
pub fn strip_root(root: &str, dir: &str) -> (r: Option<String>)
    ensures
        match r {
            Some(s) => strip_root_view(root@, dir@) == Some(s@),
            None => strip_root_view(root@, dir@) is None,
        },
{
    if str_eq(dir, root) {
        return Some(String::new());
    }
    let rooted = concat_str(root, "/");
    if is_prefix(dir, rooted.as_str()) {
        let k = rooted.unicode_len();
        let n = dir.unicode_len();
        Some(String::from_str(dir.substring_char(k, n)))
    } else {
        None
    }
}

/// The paired test of a source path: the file name gains the marker prefix
/// and the directory chain below the source root is replanted below the test
/// root.  Nothing when the path has no file name, does not sit below the
/// source root, or has no backup sentinel.
pub open spec fn test_file_view(
    source_root: Seq<char>,
    test_root: Seq<char>,
    test_marker: Seq<char>,
    p: Seq<char>,
    backup_exists: bool,
) -> Option<Seq<char>> {
    if !has_file_name(p) {
        None
    } else {
        match strip_root_view(source_root, parent_view(p)) {
            None => None,
            Some(rel) => if !backup_exists {
                None
            } else {
                Some(join_view(join_view(test_root, rel), test_marker + file_name_view(p)))
            },
        }
    }
}

/// The test file paired with `file`.  `backup_exists` reports whether the
/// backup sentinel (`backup_path`) exists on disk.
pub fn test_file(conv: &Conventions, file: &str, backup_exists: bool) -> (r: Option<String>)
    ensures
        match r {
            Some(t) => test_file_view(
                conv.source_root@,
                conv.test_root@,
                conv.test_marker@,
                file@,
                backup_exists,
            ) == Some(t@),
            None => test_file_view(
                conv.source_root@,
                conv.test_root@,
                conv.test_marker@,
                file@,
                backup_exists,
            ) is None,
        },
{
    match split_file_path(file) {
        None => None,
        Some(pair) => {
            match strip_root(conv.source_root.as_str(), pair.0.as_str()) {
                None => None,
                Some(rel) => {
                    if !backup_exists {
                        return None;
                    }
                    let marked = concat_str(conv.test_marker.as_str(), pair.1.as_str());
                    let below = join_path(conv.test_root.as_str(), rel.as_str());
                    Some(join_path(below.as_str(), marked.as_str()))
                },
            }
        },
    }
}

/// The cache artifacts of a whole change set, given the cache-subdirectory
/// listing read for each file: the artifact of each file that has one, in
/// change-set order, files without a match skipped.
pub open spec fn collect_cache_view(
    cache_dir_name: Seq<char>,
    files: Seq<Seq<char>>,
    listings: Seq<Seq<Seq<char>>>,
) -> Seq<Seq<char>>
    decreases files.len(),
{
    if files.len() == 0 {
        Seq::empty()
    } else {
        collect_cache_view(cache_dir_name, files.drop_last(), listings.drop_last()) + (match
            cache_file_view(cache_dir_name, files.last(), listings.last()) {
            Some(p) => seq![p],
            None => Seq::<Seq<char>>::empty(),
        })
    }
}

/// Maps a change set to its cache artifacts.  `listings[k]` holds the entry
/// names the driver read out of the cache subdirectory of `files[k]` (empty
/// when that directory was missing or unreadable).
pub fn collect_cache_paths(
    conv: &Conventions,
    files: &Vec<String>,
    listings: &Vec<Vec<String>>,
) -> (r: Vec<String>)
    requires
        files@.len() == listings@.len(),
    ensures
        r.deep_view() == collect_cache_view(
            conv.cache_dir_name@,
            files.deep_view(),
            listings.deep_view(),
        ),
{
    let ghost fd = files.deep_view();
    let ghost ld = listings.deep_view();
    let mut r: Vec<String> = Vec::new();
    let mut i: usize = 0;
    proof {
        assert(fd.take(0) =~= Seq::<Seq<char>>::empty());
    }
    while i < files.len()
        invariant
            i <= files@.len() == listings@.len(),
            fd == files.deep_view(),
            ld == listings.deep_view(),
            r.deep_view() == collect_cache_view(
                conv.cache_dir_name@,
                fd.take(i as int),
                ld.take(i as int),
            ),
        decreases files@.len() - i,
    {
        proof {
            assert(fd[i as int] == files@[i as int]@);
            assert(ld[i as int] == listings@[i as int].deep_view());
            assert(fd.take(i + 1).drop_last() =~= fd.take(i as int));
            assert(ld.take(i + 1).drop_last() =~= ld.take(i as int));
        }
        let c = cache_file(conv, files[i].as_str(), &listings[i]);
        match c {
            Some(p) => {
                let ghost before = r;
                r.push(p);
                proof {
                    lemma_deep_view_push(before, r, p);
                }
            },
            None => {},
        }
        i = i + 1;
    }
    proof {
        assert(fd.take(i as int) =~= fd);
        assert(ld.take(i as int) =~= ld);
    }
    r
}

/// The test files of a whole change set, given for each file whether its
/// backup sentinel exists: the test of each eligible file, in change-set
/// order, ineligible files skipped.
pub open spec fn collect_test_view(
    source_root: Seq<char>,
    test_root: Seq<char>,
    test_marker: Seq<char>,
    files: Seq<Seq<char>>,
    backups: Seq<bool>,
) -> Seq<Seq<char>>
    decreases files.len(),
{
    if files.len() == 0 {
        Seq::empty()
    } else {
        collect_test_view(
            source_root,
            test_root,
            test_marker,
            files.drop_last(),
            backups.drop_last(),
        ) + (match test_file_view(
            source_root,
            test_root,
            test_marker,
            files.last(),
            backups.last(),
        ) {
            Some(t) => seq![t],
            None => Seq::<Seq<char>>::empty(),
        })
    }
}

/// Maps a change set to its test files.  `backups[k]` reports whether the
/// backup sentinel of `files[k]` exists on disk.
pub fn collect_test_paths(conv: &Conventions, files: &Vec<String>, backups: &Vec<bool>) -> (r:
    Vec<String>)
    requires
        files@.len() == backups@.len(),
    ensures
        r.deep_view() == collect_test_view(
            conv.source_root@,
            conv.test_root@,
            conv.test_marker@,
            files.deep_view(),
            backups@,
        ),
{
    let ghost fd = files.deep_view();
    let mut r: Vec<String> = Vec::new();
    let mut i: usize = 0;
    proof {
        assert(fd.take(0) =~= Seq::<Seq<char>>::empty());
        assert(backups@.take(0) =~= Seq::<bool>::empty());
    }
    while i < files.len()
        invariant
            i <= files@.len() == backups@.len(),
            fd == files.deep_view(),
            r.deep_view() == collect_test_view(
                conv.source_root@,
                conv.test_root@,
                conv.test_marker@,
                fd.take(i as int),
                backups@.take(i as int),
            ),
        decreases files@.len() - i,
    {
        proof {
            assert(fd[i as int] == files@[i as int]@);
            assert(fd.take(i + 1).drop_last() =~= fd.take(i as int));
            assert(backups@.take(i + 1).drop_last() =~= backups@.take(i as int));
        }
        let t = test_file(conv, files[i].as_str(), backups[i]);
        match t {
            Some(p) => {
                let ghost before = r;
                r.push(p);
                proof {
                    lemma_deep_view_push(before, r, p);
                }
            },
            None => {},
        }
        i = i + 1;
    }
    proof {
        assert(fd.take(i as int) =~= fd);
        assert(backups@.take(i as int) =~= backups@);
    }
    r
}

/// The backup sentinel path of `file`: the path itself plus the fixed suffix.
pub fn backup_path(conv: &Conventions, file: &str) -> (r: String)
    ensures
        r@ == file@ + conv.backup_suffix@,
{
    concat_str(file, conv.backup_suffix.as_str())
}

/// The full path of an executable inside the isolated-environment binary
/// directory.
pub fn venv_bin(conv: &Conventions, exe: &str) -> (r: String)
    ensures
        r@ == conv.venv_bin_dir@ + exe@,
{
    concat_str(conv.venv_bin_dir.as_str(), exe)
}

} // verus!
