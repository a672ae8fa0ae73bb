//! The import-tree adapter: decides, for every import declaration, whether it
//! survives the merge and what it becomes.

use vstd::prelude::*;

use crate::model::{ImportTree, TreeV, tree_view, trees_view, lemma_trees_view, tree_size, trees_size};

verus! {

/// The local self-reference token that a nested import's head is rewritten to.
pub open spec fn crate_tok() -> Seq<char> {
    "crate"@
}

/// A `String` holding the local self-reference token.
pub fn crate_token() -> (s: String)
    ensures
        s@ == crate_tok(),
{
    "crate".to_owned()
}

/// The "retain after unit-erasure" filter: once a tree no longer references
/// the erased unit, decides whether it still denotes something meaningful at
/// the new top-level scope.  A qualified path is kept; a bare name or wildcard
/// is redundant and dropped; a rename is conservatively dropped; a group
/// survives iff any member survives.
pub open spec fn spec_retain(t: TreeV) -> Option<TreeV>
    decreases t,
{
    match t {
        TreeV::Path { .. } => Some(t),
        TreeV::Name { .. } => None,
        TreeV::Glob => None,
        TreeV::Rename { .. } => None,
        TreeV::Group { members } => {
            let kept = spec_retain_members(members);
            if kept.len() > 0 {
                Some(TreeV::Group { members: kept })
            } else {
                None
            }
        }
    }
}

/// The members of a group that survive the retain filter, in their original
/// order.
pub open spec fn spec_retain_members(ms: Seq<TreeV>) -> Seq<TreeV>
    decreases ms,
{
    if ms.len() == 0 {
        Seq::empty()
    } else {
        match spec_retain(ms[0]) {
            Some(r) => seq![r] + spec_retain_members(ms.drop_first()),
            None => spec_retain_members(ms.drop_first()),
        }
    }
}

/// What adaptation does to one import tree under the merge of unit `unit`:
/// `None` means the import declaration is dropped entirely.
///
/// Cases, in priority order: a head equal to the unit name is erased at top
/// scope (then filtered), rewritten to the self-reference token in a nested
/// scope; a head that is already the self-reference token recurses; plain
/// paths, names, wildcards and renames are kept unchanged; a group keeps the
/// members whose recursive adaptation keeps them and survives iff one does.
pub open spec fn spec_adapt(t: TreeV, unit: Seq<char>, top: bool) -> Option<TreeV>
    decreases t,
{
    match t {
        TreeV::Path { name, sub } => {
            if name == unit && top {
                spec_retain(*sub)
            } else if name == unit {
                Some(TreeV::Path { name: crate_tok(), sub })
            } else if name == crate_tok() {
                match spec_adapt(*sub, unit, top) {
                    Some(s) => Some(TreeV::Path { name, sub: Box::new(s) }),
                    None => None,
                }
            } else {
                Some(t)
            }
        }
        TreeV::Name { .. } => Some(t),
        TreeV::Glob => Some(t),
        TreeV::Rename { .. } => Some(t),
        TreeV::Group { members } => {
            let kept = spec_adapt_members(members, unit, top);
            if kept.len() > 0 {
                Some(TreeV::Group { members: kept })
            } else {
                None
            }
        }
    }
}

/// The members of a group that survive adaptation, each in its adapted form,
/// in their original order.
pub open spec fn spec_adapt_members(ms: Seq<TreeV>, unit: Seq<char>, top: bool) -> Seq<TreeV>
    decreases ms,
{
    if ms.len() == 0 {
        Seq::empty()
    } else {
        match spec_adapt(ms[0], unit, top) {
            Some(r) => seq![r] + spec_adapt_members(ms.drop_first(), unit, top),
            None => spec_adapt_members(ms.drop_first(), unit, top),
        }
    }
}

/// The retain filter on one tree; returns the filtered tree, or `None` when
/// the import should be dropped.
pub fn retain_adapted_use_tree(t: ImportTree) -> (r: Option<ImportTree>)
    ensures
        (match r {
            Some(a) => spec_retain(tree_view(t)) == Some(tree_view(a)),
            None => spec_retain(tree_view(t)) is None,
        }),
    decreases tree_size(tree_view(t)), 0int,
{
    match t {
        ImportTree::Path { name, sub } => Some(ImportTree::Path { name, sub }),
        ImportTree::Name { name: _ } => None,
        ImportTree::Glob => None,
        ImportTree::Rename { name: _, alias: _ } => None,
        ImportTree::Group { members } => {
            proof {
                assert(tree_size(tree_view(ImportTree::Group { members })) == 1 + trees_size(
                    trees_view(members@),
                ));
            }
            let kept = retain_members(members);
            if kept.len() > 0 {
                Some(ImportTree::Group { members: kept })
            } else {
                proof {
                    lemma_trees_view(kept@);
                }
                None
            }
        }
    }
}

/// The retain filter over the members of a group.
fn retain_members(ms: Vec<ImportTree>) -> (r: Vec<ImportTree>)
    ensures
        trees_view(r@) == spec_retain_members(trees_view(ms@)),
    decreases trees_size(trees_view(ms@)), 1int,
{
    proof {
        lemma_trees_view(ms@);
    }
    let ghost orig = ms@;
    let ghost old_view = trees_view(ms@);
    let mut ms = ms;
    if ms.len() == 0 {
        ms
    } else {
        let first = ms.remove(0);
        proof {
            lemma_trees_view_drop_first(orig);
            assert(trees_view(ms@) =~= old_view.drop_first());
            assert(tree_size(tree_view(first)) <= trees_size(old_view));
        }
        match retain_adapted_use_tree(first) {
            Some(a) => {
                let mut rest = retain_members(ms);
                let ghost rest_pre = rest@;
                rest.insert(0, a);
                proof {
                    assert(rest@.drop_first() =~= rest_pre);
                    lemma_trees_view(rest@);
                    lemma_trees_view(rest@.drop_first());
                    assert(trees_view(rest@) =~= seq![tree_view(a)] + trees_view(
                        rest@.drop_first(),
                    ));
                    assert(trees_view(rest@.drop_first()) =~= spec_retain_members(
                        old_view.drop_first(),
                    ));
                }
                rest
            }
            None => retain_members(ms),
        }
    }
}

/// `trees_view` commutes with dropping the first element.
proof fn lemma_trees_view_drop_first(ts: Seq<ImportTree>)
    requires
        ts.len() > 0,
    ensures
        trees_view(ts).drop_first() =~= trees_view(ts.drop_first()),
        trees_view(ts)[0] == tree_view(ts[0]),
        trees_view(ts).len() == ts.len(),
{
    lemma_trees_view(ts);
    lemma_trees_view(ts.drop_first());
}

/// Adapts one import tree under the merge of unit `unit`; returns the adapted
/// tree, or `None` when the import declaration does not survive.
pub fn adapt_use_tree(t: ImportTree, unit: &String, top_scope: bool) -> (r: Option<ImportTree>)
    ensures
        (match r {
            Some(a) => spec_adapt(tree_view(t), unit@, top_scope) == Some(tree_view(a)),
            None => spec_adapt(tree_view(t), unit@, top_scope) is None,
        }),
    decreases tree_size(tree_view(t)), 0int,
{
    match t {
        ImportTree::Path { name, sub } => {
            if name == *unit && top_scope {
                retain_adapted_use_tree(*sub)
            } else if name == *unit {
                Some(ImportTree::Path { name: crate_token(), sub })
            } else if name == crate_token() {
                match adapt_use_tree(*sub, unit, top_scope) {
                    Some(s) => Some(ImportTree::Path { name, sub: Box::new(s) }),
                    None => None,
                }
            } else {
                Some(ImportTree::Path { name, sub })
            }
        }
        ImportTree::Name { name } => Some(ImportTree::Name { name }),
        ImportTree::Glob => Some(ImportTree::Glob),
        ImportTree::Rename { name, alias } => Some(ImportTree::Rename { name, alias }),
        ImportTree::Group { members } => {
            proof {
                assert(tree_size(tree_view(ImportTree::Group { members })) == 1 + trees_size(
                    trees_view(members@),
                ));
            }
            let kept = adapt_members(members, unit, top_scope);
            if kept.len() > 0 {
                Some(ImportTree::Group { members: kept })
            } else {
                proof {
                    lemma_trees_view(kept@);
                }
                None
            }
        }
    }
}

/// Adaptation over the members of a group: drops the members whose adaptation
/// drops them and keeps the rest, adapted, in order.
fn adapt_members(ms: Vec<ImportTree>, unit: &String, top_scope: bool) -> (r: Vec<ImportTree>)
    ensures
        trees_view(r@) == spec_adapt_members(trees_view(ms@), unit@, top_scope),
    decreases trees_size(trees_view(ms@)), 1int,
{
    proof {
        lemma_trees_view(ms@);
    }
    let ghost orig = ms@;
    let ghost old_view = trees_view(ms@);
    let mut ms = ms;
    if ms.len() == 0 {
        ms
    } else {
        let first = ms.remove(0);
        proof {
            lemma_trees_view_drop_first(orig);
            assert(trees_view(ms@) =~= old_view.drop_first());
            assert(tree_size(tree_view(first)) <= trees_size(old_view));
        }
        match adapt_use_tree(first, unit, top_scope) {
            Some(a) => {
                let mut rest = adapt_members(ms, unit, top_scope);
                let ghost rest_pre = rest@;
                rest.insert(0, a);
                proof {
                    assert(rest@.drop_first() =~= rest_pre);
                    lemma_trees_view(rest@);
                    lemma_trees_view(rest@.drop_first());
                    assert(trees_view(rest@) =~= seq![tree_view(a)] + trees_view(
                        rest@.drop_first(),
                    ));
                    assert(trees_view(rest@.drop_first()) =~= spec_adapt_members(
                        old_view.drop_first(),
                        unit@,
                        top_scope,
                    ));
                }
                rest
            }
            None => adapt_members(ms, unit, top_scope),
        }
    }
}

} // verus!
