//! The allow-list: the set of module names mentioned by the binary unit's
//! top-level import declarations, used to prune library modules that nothing
//! imports.

use vstd::prelude::*;

use crate::model::{
    DeclV, ImportTree, TreeV, lemma_trees_size_elem, lemma_trees_view, tree_size, tree_view,
    trees_size, trees_view,
};

verus! {

/// The set of character sequences that a sequence of strings holds.
pub open spec fn strings_set(ss: Seq<String>) -> Set<Seq<char>> {
    Set::new(|x: Seq<char>| exists|i: int| 0 <= i < ss.len() && ss[i]@ == x)
}

/// The names a single import tree contributes to the allow-list: the head of
/// every path, every bare name, and every group member's names.  Wildcards
/// carry no name; renames contribute nothing.
pub open spec fn spec_tree_names(t: TreeV) -> Set<Seq<char>>
    decreases t,
{
    match t {
        TreeV::Path { name, sub } => spec_tree_names(*sub).insert(name),
        TreeV::Name { name } => Set::empty().insert(name),
        TreeV::Glob => Set::empty(),
        TreeV::Rename { .. } => Set::empty(),
        TreeV::Group { members } => spec_trees_names(members),
    }
}

/// The union of the names of a sequence of import trees.
pub open spec fn spec_trees_names(ms: Seq<TreeV>) -> Set<Seq<char>>
    decreases ms,
{
    if ms.len() == 0 {
        Set::empty()
    } else {
        spec_tree_names(ms[0]).union(spec_trees_names(ms.drop_first()))
    }
}

/// The allow-list of a document: the names of every top-level import
/// declaration, united.
pub open spec fn spec_allow_names(items: Seq<DeclV>) -> Set<Seq<char>>
    decreases items,
{
    if items.len() == 0 {
        Set::empty()
    } else {
        (match items[0] {
            DeclV::Import { tree } => spec_tree_names(tree),
            _ => Set::empty(),
        }).union(spec_allow_names(items.drop_first()))
    }
}

/// Appending a string to a list adds exactly its view to the set it holds.
pub proof fn lemma_strings_set_push(a: Seq<String>, s: String)
    ensures
        strings_set(a.push(s)) =~= strings_set(a).insert(s@),
{
    assert forall|x: Seq<char>| strings_set(a.push(s)).contains(x) implies strings_set(
        a,
    ).insert(s@).contains(x) by {
        let i = choose|i: int| 0 <= i < a.push(s).len() && a.push(s)[i]@ == x;
        if i < a.len() {
            assert(a[i]@ == x);
        }
    };
    assert forall|x: Seq<char>| strings_set(a).insert(s@).contains(x) implies strings_set(
        a.push(s),
    ).contains(x) by {
        if strings_set(a).contains(x) {
            let i = choose|i: int| 0 <= i < a.len() && a[i]@ == x;
            assert(a.push(s)[i]@ == x);
        } else {
            assert(a.push(s)[a.len() as int]@ == x);
        }
    };
}

/// Concatenating two lists unites the sets they hold.
pub proof fn lemma_strings_set_concat(a: Seq<String>, b: Seq<String>)
    ensures
        strings_set(a + b) =~= strings_set(a).union(strings_set(b)),
{
    assert forall|x: Seq<char>| strings_set(a + b).contains(x) implies strings_set(a).union(
        strings_set(b),
    ).contains(x) by {
        let i = choose|i: int| 0 <= i < (a + b).len() && (a + b)[i]@ == x;
        if i < a.len() {
            assert(a[i]@ == x);
        } else {
            assert(b[i - a.len()]@ == x);
        }
    };
    assert forall|x: Seq<char>| strings_set(a).union(strings_set(b)).contains(x) implies strings_set(
        a + b,
    ).contains(x) by {
        if strings_set(a).contains(x) {
            let i = choose|i: int| 0 <= i < a.len() && a[i]@ == x;
            assert((a + b)[i]@ == x);
        } else {
            let i = choose|i: int| 0 <= i < b.len() && b[i]@ == x;
            assert((a + b)[a.len() + i]@ == x);
        }
    };
}

/// Collects every module name an import tree mentions.
pub fn extract_mods_name(item: &ImportTree) -> (r: Vec<String>)
    ensures
        strings_set(r@) == spec_tree_names(tree_view(*item)),
    decreases tree_size(tree_view(*item)), 0int, 0int,
{
    match item {
        ImportTree::Path { name, sub } => {
            let mut r = extract_mods_name(sub);
            let ghost pre = r@;
            r.push(name.clone());
            proof {
                lemma_strings_set_push(pre, *name);
            }
            r
        }
        ImportTree::Name { name } => {
            let mut r: Vec<String> = Vec::new();
            let ghost pre = r@;
            r.push(name.clone());
            proof {
                lemma_strings_set_push(pre, *name);
                assert(strings_set(pre) =~= Set::<Seq<char>>::empty());
            }
            r
        }
        ImportTree::Glob => {
            let r: Vec<String> = Vec::new();
            proof {
                assert(strings_set(r@) =~= Set::<Seq<char>>::empty());
            }
            r
        }
        ImportTree::Rename { name: _, alias: _ } => {
            let r: Vec<String> = Vec::new();
            proof {
                assert(strings_set(r@) =~= Set::<Seq<char>>::empty());
            }
            r
        }
        ImportTree::Group { members } => {
            let r = extract_names_members(members, 0);
            proof {
                assert(trees_view(members@).skip(0) =~= trees_view(members@));
            }
            r
        }
    }
}

/// Collects the names of the group members from index `i` on.
fn extract_names_members(ms: &Vec<ImportTree>, i: usize) -> (r: Vec<String>)
    requires
        i <= ms@.len(),
    ensures
        strings_set(r@) == spec_trees_names(trees_view(ms@).skip(i as int)),
    decreases trees_size(trees_view(ms@)), ms@.len() - i, 1int,
{
    proof {
        lemma_trees_view(ms@);
    }
    if i == ms.len() {
        let r: Vec<String> = Vec::new();
        proof {
            assert(trees_view(ms@).skip(i as int) =~= Seq::<TreeV>::empty());
            assert(strings_set(r@) =~= Set::<Seq<char>>::empty());
        }
        r
    } else {
        proof {
            lemma_trees_size_elem(trees_view(ms@), i as int);
        }
        let mut first = extract_mods_name(&ms[i]);
        let ghost first_pre = first@;
        let mut rest = extract_names_members(ms, i + 1);
        let ghost rest_pre = rest@;
        first.append(&mut rest);
        proof {
            lemma_strings_set_concat(first_pre, rest_pre);
            let tv = trees_view(ms@);
            assert(tv.skip(i as int)[0] == tv[i as int]);
            assert(tv.skip(i as int).drop_first() =~= tv.skip(i as int + 1));
            assert(strings_set(first@) =~= spec_trees_names(tv.skip(i as int)));
        }
        first
    }
}

/// Whether name `n` occurs anywhere in an import tree, as a path head, a bare
/// name, or inside a group.
pub open spec fn appears_in_tree(n: Seq<char>, t: TreeV) -> bool
    decreases t,
{
    match t {
        TreeV::Path { name, sub } => n == name || appears_in_tree(n, *sub),
        TreeV::Name { name } => n == name,
        TreeV::Glob => false,
        TreeV::Rename { .. } => false,
        TreeV::Group { members } => appears_in_trees(n, members),
    }
}

/// Whether name `n` occurs in any tree of the sequence.
pub open spec fn appears_in_trees(n: Seq<char>, ms: Seq<TreeV>) -> bool
    decreases ms,
{
    if ms.len() == 0 {
        false
    } else {
        appears_in_tree(n, ms[0]) || appears_in_trees(n, ms.drop_first())
    }
}

/// The names collected from one import tree are exactly those appearing in it.
pub proof fn lemma_tree_names_appear(n: Seq<char>, t: TreeV)
    ensures
        spec_tree_names(t).contains(n) == appears_in_tree(n, t),
    decreases t,
{
    match t {
        TreeV::Path { name: _, sub } => {
            lemma_tree_names_appear(n, *sub);
        }
        TreeV::Group { members } => {
            lemma_trees_names_appear(n, members);
        }
        _ => {}
    }
}

/// The names collected from a sequence of trees are those appearing in any.
pub proof fn lemma_trees_names_appear(n: Seq<char>, ms: Seq<TreeV>)
    ensures
        spec_trees_names(ms).contains(n) == appears_in_trees(n, ms),
    decreases ms,
{
    if ms.len() > 0 {
        lemma_tree_names_appear(n, ms[0]);
        lemma_trees_names_appear(n, ms.drop_first());
    }
}

/// Whether a declaration is an import whose tree mentions name `n`.
pub open spec fn import_mentions(d: DeclV, n: Seq<char>) -> bool {
    match d {
        DeclV::Import { tree } => appears_in_tree(n, tree),
        _ => false,
    }
}

/// Allow-list completeness: a name stands in the allow-list computed from a
/// document exactly when it appears somewhere in one of the document's
/// top-level import declarations; names that appear in no import are excluded.
pub proof fn lemma_allow_list_complete(n: Seq<char>, items: Seq<DeclV>)
    ensures
        spec_allow_names(items).contains(n) <==> exists|i: int|
            0 <= i < items.len() && #[trigger] import_mentions(items[i], n),
    decreases items,
{
    if items.len() > 0 {
        lemma_allow_list_complete(n, items.drop_first());
        match items[0] {
            DeclV::Import { tree } => {
                lemma_tree_names_appear(n, tree);
            }
            _ => {}
        }
        if spec_allow_names(items).contains(n) {
            if !import_mentions(items[0], n) {
                let j = choose|j: int|
                    0 <= j < items.drop_first().len() && #[trigger] import_mentions(
                        items.drop_first()[j],
                        n,
                    );
                assert(items[j + 1] == items.drop_first()[j]);
                assert(import_mentions(items[j + 1], n));
            }
        }
        if exists|i: int| 0 <= i < items.len() && #[trigger] import_mentions(items[i], n) {
            let i = choose|i: int| 0 <= i < items.len() && #[trigger] import_mentions(items[i], n);
            if i > 0 {
                assert(items.drop_first()[i - 1] == items[i]);
                assert(import_mentions(items.drop_first()[i - 1], n));
            }
        }
    }
}

/// Whether the list holds `name`.
pub fn contains_name(list: &Vec<String>, name: &String) -> (r: bool)
    ensures
        r == strings_set(list@).contains(name@),
{
    let mut i: usize = 0;
    while i < list.len()
        invariant
            i <= list@.len(),
            forall|j: int| 0 <= j < i ==> list@[j]@ != name@,
        decreases list@.len() - i,
    {
        if list[i] == *name {
            return true;
        }
        i += 1;
    }
    false
}

/// Whether a declaration survives allow-list filtering: module declarations
/// survive iff their name is in the allow-list, everything else survives.
pub open spec fn spec_is_allowed(d: DeclV, allow: Set<Seq<char>>) -> bool {
    match d {
        DeclV::ModStub { name } => allow.contains(name),
        DeclV::ModWithBody { name, body: _ } => allow.contains(name),
        _ => true,
    }
}

/// The declarations of an inlined library that survive filtering, in order.
pub open spec fn spec_filter_lib(items: Seq<DeclV>, allow: Set<Seq<char>>) -> Seq<DeclV>
    decreases items,
{
    if items.len() == 0 {
        Seq::empty()
    } else if spec_is_allowed(items[0], allow) {
        seq![items[0]] + spec_filter_lib(items.drop_first(), allow)
    } else {
        spec_filter_lib(items.drop_first(), allow)
    }
}

} // verus!
