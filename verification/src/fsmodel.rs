//! The in-memory file table that module stubs and the library root are
//! resolved against: each entry is a file path (as a sequence of components,
//! the last one being the file name) and its already-parsed document.

use vstd::prelude::*;

use crate::model::{clone_decls, decls_view, Decl, DeclV};

verus! {

/// One source file: its path components and its parsed declarations.
pub struct FsFile {
    pub path: Vec<String>,
    pub doc: Vec<Decl>,
}

/// The file table a merge session resolves against.
pub struct Fs {
    pub files: Vec<FsFile>,
}

/// The view of a path: its components as character sequences.
pub open spec fn path_view(p: Seq<String>) -> Seq<Seq<char>> {
    Seq::new(p.len(), |i: int| p[i]@)
}

/// The view of the file table: path and document views, in table order.
pub open spec fn fs_view(fs: Fs) -> Seq<(Seq<Seq<char>>, Seq<DeclV>)> {
    Seq::new(
        fs.files@.len(),
        |i: int| (path_view(fs.files@[i].path@), decls_view(fs.files@[i].doc@)),
    )
}

/// The document stored under `path`: the first entry with that path, if any.
pub open spec fn fs_lookup(
    fsv: Seq<(Seq<Seq<char>>, Seq<DeclV>)>,
    path: Seq<Seq<char>>,
) -> Option<Seq<DeclV>>
    decreases fsv,
{
    if fsv.len() == 0 {
        None
    } else if fsv[0].0 == path {
        Some(fsv[0].1)
    } else {
        fs_lookup(fsv.drop_first(), path)
    }
}

/// Whether two paths have the same components.
pub fn paths_equal(a: &Vec<String>, b: &Vec<String>) -> (r: bool)
    ensures
        r == (path_view(a@) == path_view(b@)),
{
    if a.len() != b.len() {
        proof {
            assert(path_view(a@).len() != path_view(b@).len());
        }
        return false;
    }
    let mut i: usize = 0;
    while i < a.len()
        invariant
            i <= a@.len(),
            a@.len() == b@.len(),
            forall|j: int| 0 <= j < i ==> a@[j]@ == b@[j]@,
        decreases a@.len() - i,
    {
        if !(a[i] == b[i]) {
            proof {
                assert(path_view(a@)[i as int] == a@[i as int]@);
                assert(path_view(b@)[i as int] == b@[i as int]@);
            }
            return false;
        }
        i += 1;
    }
    proof {
        assert(path_view(a@) =~= path_view(b@));
    }
    true
}

/// Finds the document stored under `path`, as a fresh copy.
pub fn fs_get(fs: &Fs, path: &Vec<String>) -> (r: Option<Vec<Decl>>)
    ensures
        (match r {
            Some(doc) => fs_lookup(fs_view(*fs), path_view(path@)) == Some(decls_view(doc@)),
            None => fs_lookup(fs_view(*fs), path_view(path@)) is None,
        }),
{
    let ghost fsv = fs_view(*fs);
    let ghost pv = path_view(path@);
    proof {
        assert(fsv.skip(0) =~= fsv);
    }
    let mut i: usize = 0;
    while i < fs.files.len()
        invariant
            i <= fs.files@.len(),
            fsv == fs_view(*fs),
            pv == path_view(path@),
            fs_lookup(fsv, pv) == fs_lookup(fsv.skip(i as int), pv),
        decreases fs.files@.len() - i,
    {
        proof {
            assert(fsv.skip(i as int)[0] == fsv[i as int]);
            assert(fsv.skip(i as int).drop_first() =~= fsv.skip(i as int + 1));
        }
        if paths_equal(&fs.files[i].path, path) {
            let doc = clone_decls(&fs.files[i].doc);
            return Some(doc);
        }
        i += 1;
    }
    proof {
        assert(fsv.skip(i as int) =~= Seq::<(Seq<Seq<char>>, Seq<DeclV>)>::empty());
    }
    None
}

/// A copy of a path with one more component.
pub fn path_push(base: &Vec<String>, seg: String) -> (r: Vec<String>)
    ensures
        path_view(r@) == path_view(base@).push(seg@),
{
    let mut r = base.clone();
    let ghost pre = r@;
    r.push(seg);
    proof {
        assert(path_view(pre) =~= path_view(base@));
        assert(path_view(r@) =~= path_view(base@).push(r@[r@.len() - 1]@));
    }
    r
}

/// A copy of a path, component for component.
pub fn clone_path_vec(v: &Vec<String>) -> (r: Vec<String>)
    ensures
        path_view(r@) == path_view(v@),
        r@.len() == v@.len(),
{
    let r = v.clone();
    proof {
        assert(path_view(r@) =~= path_view(v@));
    }
    r
}

} // verus!
