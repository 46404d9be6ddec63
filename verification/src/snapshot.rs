//! An in-memory snapshot of the part of a filesystem that a resolution looks
//! at. Paths are sequences of name segments, relative to the snapshot's base
//! directory. The engine only ever asks three questions of a filesystem:
//! does a directory exist, does a file exist, and what does a file hold; a
//! snapshot answers all three from plain data, so every decision taken on it
//! can be verified.

use vstd::prelude::*;

verus! {

/// A regular file in a snapshot: where it lies and what it holds.
pub struct SnapshotFile {
    pub path: Vec<String>,
    pub content: String,
}

/// A snapshot of a directory tree: the directories in it and the files in it.
/// Paths are segment lists relative to the snapshot base; the base itself is
/// the empty path.
pub struct FsSnapshot {
    pub dirs: Vec<Vec<String>>,
    pub files: Vec<SnapshotFile>,
}

/// The sequence of character-sequence views of a list of strings.
pub open spec fn str_views(p: Vec<String>) -> Seq<Seq<char>> {
    Seq::new(p@.len(), |i: int| p@[i]@)
}

/// The content of the first file record lying at `p`, if any.
pub open spec fn file_content_in(files: Seq<SnapshotFile>, p: Seq<Seq<char>>) -> Option<Seq<char>>
    decreases files.len(),
{
    if files.len() == 0 {
        None
    } else if str_views(files[0].path) == p {
        Some(files[0].content@)
    } else {
        file_content_in(files.skip(1), p)
    }
}

/// The content of the file at `p` in the snapshot, if such a file exists.
pub open spec fn file_content(s: FsSnapshot, p: Seq<Seq<char>>) -> Option<Seq<char>> {
    file_content_in(s.files@, p)
}

pub open spec fn has_file(s: FsSnapshot, p: Seq<Seq<char>>) -> bool {
    file_content(s, p) is Some
}

pub open spec fn has_dir(s: FsSnapshot, p: Seq<Seq<char>>) -> bool {
    exists|i: int| 0 <= i < s.dirs@.len() && str_views(s.dirs@[i]) == p
}

/// A copy of a path, segment by segment.
pub fn clone_path(p: &Vec<String>) -> (r: Vec<String>)
    ensures
        r@ == p@,
{
    let mut r: Vec<String> = Vec::new();
    let mut i: usize = 0;
    while i < p.len()
        invariant
            0 <= i <= p.len(),
            r@ =~= p@.take(i as int),
        decreases p.len() - i,
    {
        r.push(p[i].clone());
        proof {
            assert(r@ =~= p@.take(i + 1));
        }
        i += 1;
    }
    proof {
        assert(p@.take(p@.len() as int) =~= p@);
    }
    r
}

/// A copy of `p` with one more segment at its end.
pub fn path_push(p: &Vec<String>, seg: &str) -> (r: Vec<String>)
    ensures
        str_views(r) == str_views(*p).push(seg@),
{
    let mut r = clone_path(p);
    r.push(String::from_str(seg));
    proof {
        assert(str_views(r) =~= str_views(*p).push(seg@));
    }
    r
}

/// Whether two paths name the same place.
pub fn path_eq(a: &Vec<String>, b: &Vec<String>) -> (r: bool)
    ensures
        r == (str_views(*a) == str_views(*b)),
{
    if a.len() != b.len() {
        proof {
            assert(str_views(*a).len() != str_views(*b).len());
        }
        return false;
    }
    let mut i: usize = 0;
    while i < a.len()
        invariant
            0 <= i <= a.len(),
            a@.len() == b@.len(),
            forall|j: int| 0 <= j < i ==> a@[j]@ == b@[j]@,
        decreases a.len() - i,
    {
        if !(a[i] == b[i]) {
            proof {
                assert(str_views(*a)[i as int] != str_views(*b)[i as int]);
            }
            return false;
        }
        i += 1;
    }
    proof {
        assert(str_views(*a) =~= str_views(*b));
    }
    true
}

/// Whether the snapshot holds a directory at `p`.
pub fn dir_exists(s: &FsSnapshot, p: &Vec<String>) -> (r: bool)
    ensures
        r == has_dir(*s, str_views(*p)),
{
    let mut i: usize = 0;
    while i < s.dirs.len()
        invariant
            0 <= i <= s.dirs.len(),
            forall|j: int| 0 <= j < i ==> str_views(s.dirs@[j]) != str_views(*p),
        decreases s.dirs.len() - i,
    {
        if path_eq(&s.dirs[i], p) {
            return true;
        }
        i += 1;
    }
    false
}

/// The content of the file at `p`, if the snapshot holds one.
pub fn lookup_file(s: &FsSnapshot, p: &Vec<String>) -> (r: Option<String>)
    ensures
        match r {
            Some(c) => file_content(*s, str_views(*p)) == Some(c@),
            None => file_content(*s, str_views(*p)) is None,
        },
{
    let mut i: usize = 0;
    proof {
        assert(s.files@.skip(0) =~= s.files@);
    }
    while i < s.files.len()
        invariant
            0 <= i <= s.files.len(),
            file_content(*s, str_views(*p)) == file_content_in(
                s.files@.skip(i as int),
                str_views(*p),
            ),
        decreases s.files.len() - i,
    {
        proof {
            assert(s.files@.skip(i as int)[0] == s.files@[i as int]);
            assert(s.files@.skip(i as int).skip(1) =~= s.files@.skip(i + 1));
        }
        if path_eq(&s.files[i].path, p) {
            return Some(s.files[i].content.clone());
        }
        i += 1;
    }
    None
}

/// Whether the snapshot holds a file at `p`.
pub fn file_exists(s: &FsSnapshot, p: &Vec<String>) -> (r: bool)
    ensures
        r == has_file(*s, str_views(*p)),
{
    let c = lookup_file(s, p);
    c.is_some()
}

} // verus!
