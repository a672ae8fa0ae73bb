//! The qualified-path rewriter: strips a leading segment that refers to the
//! unit being merged away.

use vstd::prelude::*;

use crate::model::QualPath;

verus! {

/// What rewriting does to the view of a path: if the first segment equals the
/// name of the unit being merged away, that segment is removed; otherwise the
/// path is unchanged.
pub open spec fn spec_rewrite_path(p: Seq<Seq<char>>, unit: Seq<char>) -> Seq<Seq<char>> {
    if p.len() > 0 && p[0] == unit {
        p.drop_first()
    } else {
        p
    }
}

/// Whether the first segment of `path` equals `segment`.
pub fn path_starts_with(path: &QualPath, segment: &String) -> (r: bool)
    ensures
        r == (path@.len() > 0 && path@[0] == segment@),
{
    path.segs.len() > 0 && path.segs[0] == *segment
}

/// Rewrites one qualified reference under the merge of unit `unit`: a leading
/// `unit` segment is stripped, anything else is left untouched.
pub fn rewrite_qual_path(p: &mut QualPath, unit: &String)
    ensures
        final(p)@ == spec_rewrite_path(old(p)@, unit@),
{
    if path_starts_with(p, unit) {
        p.segs.remove(0);
        assert(p@ =~= old(p)@.drop_first());
    }
}

/// Rewriting is idempotent: a second application with the same unit name
/// changes nothing, provided the path does not begin with two copies of the
/// unit name (after the first strip such a path still begins with it).
pub proof fn lemma_rewrite_idempotent(p: Seq<Seq<char>>, unit: Seq<char>)
    requires
        p.len() > 0,
        p[0] == unit && p.len() >= 2 ==> p[1] != unit,
    ensures
        spec_rewrite_path(spec_rewrite_path(p, unit), unit) == spec_rewrite_path(p, unit),
{
}

} // verus!
