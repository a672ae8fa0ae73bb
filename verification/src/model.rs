//! The data model of a compilation unit: qualified paths, import trees and
//! declarations, together with their mathematical views.

use vstd::prelude::*;

verus! {

/// A qualified reference: an ordered sequence of name segments,
/// e.g. `unit_name::sub::Thing`.
#[derive(Debug, PartialEq, Eq)]
pub struct QualPath {
    pub segs: Vec<String>,
}

impl View for QualPath {
    type V = Seq<Seq<char>>;

    open spec fn view(&self) -> Seq<Seq<char>> {
        Seq::new(self.segs@.len(), |i: int| self.segs@[i]@)
    }
}

/// The recursive shape of an import declaration: the tail of a path may be a
/// single name, a wildcard, a renamed name, or a grouped set of sub-trees.
#[derive(Debug, PartialEq, Eq)]
pub enum ImportTree {
    Path { name: String, sub: Box<ImportTree> },
    Name { name: String },
    Glob,
    Rename { name: String, alias: String },
    Group { members: Vec<ImportTree> },
}

/// The mathematical view of an [`ImportTree`]: the same shape over sequences
/// of characters.
pub enum TreeV {
    Path { name: Seq<char>, sub: Box<TreeV> },
    Name { name: Seq<char> },
    Glob,
    Rename { name: Seq<char>, alias: Seq<char> },
    Group { members: Seq<TreeV> },
}

/// The view of an [`ImportTree`], defined by structural recursion.
pub open spec fn tree_view(t: ImportTree) -> TreeV
    decreases t,
{
    match t {
        ImportTree::Path { name, sub } => TreeV::Path { name: name@, sub: Box::new(tree_view(*sub)) },
        ImportTree::Name { name } => TreeV::Name { name: name@ },
        ImportTree::Glob => TreeV::Glob,
        ImportTree::Rename { name, alias } => TreeV::Rename { name: name@, alias: alias@ },
        ImportTree::Group { members } => TreeV::Group { members: trees_view(members@) },
    }
}

/// The element-wise view of a sequence of import trees.
pub open spec fn trees_view(ts: Seq<ImportTree>) -> Seq<TreeV>
    decreases ts,
{
    if ts.len() == 0 {
        Seq::empty()
    } else {
        trees_view(ts.drop_last()).push(tree_view(ts.last()))
    }
}

/// `trees_view` maps the sequence element by element.
pub proof fn lemma_trees_view(ts: Seq<ImportTree>)
    ensures
        trees_view(ts).len() == ts.len(),
        forall|i: int| 0 <= i < ts.len() ==> trees_view(ts)[i] == tree_view(ts[i]),
    decreases ts,
{
    if ts.len() > 0 {
        lemma_trees_view(ts.drop_last());
    }
}

impl View for ImportTree {
    type V = TreeV;

    open spec fn view(&self) -> TreeV {
        tree_view(*self)
    }
}

/// A top-level or nested declaration of a unit.
#[derive(Debug, PartialEq, Eq)]
pub enum Decl {
    /// `mod name;` — the content lives in another file.
    ModStub { name: String },
    /// `mod name { ... }` — the content is already inline.
    ModWithBody { name: String, body: Vec<Decl> },
    /// An import declaration.
    Import { tree: ImportTree },
    /// A unit-reference marker: pulls a whole other compilation unit into
    /// scope by name.
    ExternUnit { name: String },
    /// Any other declaration, opaque except for the qualified references it
    /// contains.
    Other { paths: Vec<QualPath> },
}

/// The mathematical view of a [`Decl`].
pub enum DeclV {
    ModStub { name: Seq<char> },
    ModWithBody { name: Seq<char>, body: Seq<DeclV> },
    Import { tree: TreeV },
    ExternUnit { name: Seq<char> },
    Other { paths: Seq<Seq<Seq<char>>> },
}

/// The view of a [`Decl`], defined by structural recursion.
pub open spec fn decl_view(d: Decl) -> DeclV
    decreases d,
{
    match d {
        Decl::ModStub { name } => DeclV::ModStub { name: name@ },
        Decl::ModWithBody { name, body } => DeclV::ModWithBody {
            name: name@,
            body: decls_view(body@),
        },
        Decl::Import { tree } => DeclV::Import { tree: tree_view(tree) },
        Decl::ExternUnit { name } => DeclV::ExternUnit { name: name@ },
        Decl::Other { paths } => DeclV::Other {
            paths: Seq::new(paths@.len(), |i: int| paths@[i].view()),
        },
    }
}

/// The element-wise view of a sequence of declarations.
pub open spec fn decls_view(items: Seq<Decl>) -> Seq<DeclV>
    decreases items,
{
    if items.len() == 0 {
        Seq::empty()
    } else {
        decls_view(items.drop_last()).push(decl_view(items.last()))
    }
}

/// `decls_view` maps the sequence element by element.
pub proof fn lemma_decls_view(items: Seq<Decl>)
    ensures
        decls_view(items).len() == items.len(),
        forall|i: int| 0 <= i < items.len() ==> decls_view(items)[i] == decl_view(items[i]),
    decreases items,
{
    if items.len() > 0 {
        lemma_decls_view(items.drop_last());
    }
}

impl View for Decl {
    type V = DeclV;

    open spec fn view(&self) -> DeclV {
        decl_view(*self)
    }
}

/// The number of nodes of an import tree; used as a termination measure and to
/// state that vacuous imports shrink.
pub open spec fn tree_size(t: TreeV) -> nat
    decreases t,
{
    match t {
        TreeV::Path { name: _, sub } => 1 + tree_size(*sub),
        TreeV::Name { .. } => 1,
        TreeV::Glob => 1,
        TreeV::Rename { .. } => 1,
        TreeV::Group { members } => 1 + trees_size(members),
    }
}

/// The total node count of a sequence of import trees.
pub open spec fn trees_size(ms: Seq<TreeV>) -> nat
    decreases ms,
{
    if ms.len() == 0 {
        0
    } else {
        tree_size(ms[0]) + trees_size(ms.drop_first())
    }
}

/// Every member of a sequence of trees weighs at most the whole sequence.
pub proof fn lemma_trees_size_elem(ms: Seq<TreeV>, i: int)
    requires
        0 <= i < ms.len(),
    ensures
        tree_size(ms[i]) <= trees_size(ms),
    decreases ms,
{
    if i > 0 {
        lemma_trees_size_elem(ms.drop_first(), i - 1);
    }
}

/// The size of a declaration: one node plus the size of an inline body.
pub open spec fn declv_size(d: DeclV) -> nat
    decreases d,
{
    match d {
        DeclV::ModWithBody { name: _, body } => 1 + declsv_size(body),
        _ => 1,
    }
}

/// The total size of a sequence of declarations.
pub open spec fn declsv_size(s: Seq<DeclV>) -> nat
    decreases s,
{
    if s.len() == 0 {
        0
    } else {
        declv_size(s[0]) + declsv_size(s.drop_first())
    }
}

/// A copy of a qualified path with the same view.
pub fn clone_qual_path(p: &QualPath) -> (r: QualPath)
    ensures
        r@ == p@,
{
    let segs = p.segs.clone();
    proof {
        assert(QualPath { segs }@ =~= p@);
    }
    QualPath { segs }
}

/// A copy of an import tree with the same view.
pub fn clone_tree(t: &ImportTree) -> (r: ImportTree)
    ensures
        tree_view(r) == tree_view(*t),
    decreases tree_size(tree_view(*t)), 0int, 0int,
{
    match t {
        ImportTree::Path { name, sub } => ImportTree::Path {
            name: name.clone(),
            sub: Box::new(clone_tree(sub)),
        },
        ImportTree::Name { name } => ImportTree::Name { name: name.clone() },
        ImportTree::Glob => ImportTree::Glob,
        ImportTree::Rename { name, alias } => ImportTree::Rename {
            name: name.clone(),
            alias: alias.clone(),
        },
        ImportTree::Group { members } => {
            let ms = clone_trees_from(members, 0);
            proof {
                lemma_trees_view(ms@);
                lemma_trees_view(members@);
                assert(trees_view(ms@) =~= trees_view(members@));
            }
            ImportTree::Group { members: ms }
        }
    }
}

/// Copies the members of a group from index `i` on.
fn clone_trees_from(ms: &Vec<ImportTree>, i: usize) -> (r: Vec<ImportTree>)
    requires
        i <= ms@.len(),
    ensures
        r@.len() == ms@.len() - i,
        forall|j: int| 0 <= j < r@.len() ==> tree_view(r@[j]) == tree_view(ms@[i + j]),
    decreases trees_size(trees_view(ms@)), ms@.len() - i, 1int,
{
    if i == ms.len() {
        Vec::new()
    } else {
        proof {
            lemma_trees_view(ms@);
            lemma_trees_size_elem(trees_view(ms@), i as int);
        }
        let first = clone_tree(&ms[i]);
        let mut rest = clone_trees_from(ms, i + 1);
        rest.insert(0, first);
        rest
    }
}

/// A copy of a declaration with the same view.
pub fn clone_decl(d: &Decl) -> (r: Decl)
    ensures
        decl_view(r) == decl_view(*d),
    decreases declv_size(decl_view(*d)), 0int, 0int,
{
    match d {
        Decl::ModStub { name } => Decl::ModStub { name: name.clone() },
        Decl::ModWithBody { name, body } => {
            let b = clone_decls_from(body, 0);
            proof {
                lemma_decls_view(b@);
                lemma_decls_view(body@);
                assert(decls_view(b@) =~= decls_view(body@));
            }
            Decl::ModWithBody { name: name.clone(), body: b }
        }
        Decl::Import { tree } => Decl::Import { tree: clone_tree(tree) },
        Decl::ExternUnit { name } => Decl::ExternUnit { name: name.clone() },
        Decl::Other { paths } => {
            let mut ps: Vec<QualPath> = Vec::new();
            let mut k: usize = 0;
            while k < paths.len()
                invariant
                    k <= paths@.len(),
                    ps@.len() == k,
                    forall|j: int| 0 <= j < k ==> ps@[j]@ == paths@[j]@,
                decreases paths@.len() - k,
            {
                ps.push(clone_qual_path(&paths[k]));
                k += 1;
            }
            proof {
                assert(Seq::new(ps@.len(), |i: int| ps@[i]@) =~= Seq::new(
                    paths@.len(),
                    |i: int| paths@[i]@,
                ));
            }
            Decl::Other { paths: ps }
        }
    }
}

/// Every element of a sequence of declarations weighs at most the whole.
pub proof fn lemma_declsv_size_elem(s: Seq<DeclV>, i: int)
    requires
        0 <= i < s.len(),
    ensures
        declv_size(s[i]) <= declsv_size(s),
    decreases s,
{
    if i > 0 {
        lemma_declsv_size_elem(s.drop_first(), i - 1);
    }
}

/// Copies a declaration sequence from index `i` on.
pub fn clone_decls_from(items: &Vec<Decl>, i: usize) -> (r: Vec<Decl>)
    requires
        i <= items@.len(),
    ensures
        r@.len() == items@.len() - i,
        forall|j: int| 0 <= j < r@.len() ==> decl_view(r@[j]) == decl_view(items@[i + j]),
    decreases declsv_size(decls_view(items@)), items@.len() - i, 1int,
{
    if i == items.len() {
        Vec::new()
    } else {
        proof {
            lemma_decls_view(items@);
            lemma_declsv_size_elem(decls_view(items@), i as int);
        }
        let first = clone_decl(&items[i]);
        let mut rest = clone_decls_from(items, i + 1);
        rest.insert(0, first);
        rest
    }
}

/// `decls_view` commutes with dropping the first element.
pub proof fn lemma_decls_view_drop_first(items: Seq<Decl>)
    requires
        items.len() > 0,
    ensures
        decls_view(items).drop_first() =~= decls_view(items.drop_first()),
        decls_view(items)[0] == decl_view(items[0]),
        decls_view(items).len() == items.len(),
{
    lemma_decls_view(items);
    lemma_decls_view(items.drop_first());
}

/// `decls_view` distributes over concatenation.
pub proof fn lemma_decls_view_concat(a: Seq<Decl>, b: Seq<Decl>)
    ensures
        decls_view(a + b) =~= decls_view(a) + decls_view(b),
{
    lemma_decls_view(a + b);
    lemma_decls_view(a);
    lemma_decls_view(b);
}

/// Every declaration weighs at least one node.
pub proof fn lemma_declv_size_pos(d: DeclV)
    ensures
        declv_size(d) >= 1,
{
    match d {
        DeclV::ModWithBody { .. } => {}
        _ => {}
    }
}

/// A copy of a whole declaration sequence, with the same view.
pub fn clone_decls(items: &Vec<Decl>) -> (r: Vec<Decl>)
    ensures
        decls_view(r@) == decls_view(items@),
{
    let r = clone_decls_from(items, 0);
    proof {
        lemma_decls_view(r@);
        lemma_decls_view(items@);
        assert(decls_view(r@) =~= decls_view(items@));
    }
    r
}

} // verus!
