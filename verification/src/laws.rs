//! Document-level guarantees of the merge: vacuous imports shrink or vanish,
//! group filtering keeps order, and a fully expanded document holds no
//! reference whose head is the erased unit name.

use vstd::prelude::*;

use crate::allowlist::{spec_filter_lib, spec_is_allowed};
use crate::fsmodel::fs_lookup;
use crate::imports::{crate_tok, spec_adapt, spec_adapt_members, spec_retain, spec_retain_members};
use crate::model::{tree_size, trees_size, DeclV, TreeV};
use crate::paths::spec_rewrite_path;

verus! {

/// The retain filter never grows a tree.
pub proof fn lemma_retain_size(t: TreeV)
    ensures
        (match spec_retain(t) {
            Some(r) => tree_size(r) <= tree_size(t),
            None => true,
        }),
    decreases t,
{
    match t {
        TreeV::Group { members } => {
            lemma_retain_members_size(members);
        }
        _ => {}
    }
}

/// The retained members of a group never outweigh the group's members.
pub proof fn lemma_retain_members_size(ms: Seq<TreeV>)
    ensures
        trees_size(spec_retain_members(ms)) <= trees_size(ms),
    decreases ms,
{
    if ms.len() > 0 {
        lemma_retain_size(ms[0]);
        lemma_retain_members_size(ms.drop_first());
        match spec_retain(ms[0]) {
            Some(r) => {
                let rest = spec_retain_members(ms.drop_first());
                assert((seq![r] + rest)[0] == r);
                assert((seq![r] + rest).drop_first() =~= rest);
            }
            None => {}
        }
    }
}

/// Import vacuity elimination: an import of the merged unit at top scope
/// becomes either absent or a strictly smaller tree after adaptation.  (That
/// it never references the erased unit name is `lemma_adapt_clean`.)
pub proof fn lemma_import_vacuity(name: Seq<char>, sub: Box<TreeV>, unit: Seq<char>)
    requires
        name == unit,
    ensures
        (match spec_adapt(TreeV::Path { name, sub }, unit, true) {
            None => true,
            Some(r) => tree_size(r) < tree_size(TreeV::Path { name, sub }),
        }),
{
    lemma_retain_size(*sub);
}

/// Group filtering preserves the remaining members' relative order: for a
/// grouped import with members `[a, b, c]` where `b` is dropped by the
/// adaptation and `a`, `c` survive as `a2`, `c2`, the adapted group is
/// `[a2, c2]`, in that order.
pub proof fn lemma_group_filter_order(
    a: TreeV,
    b: TreeV,
    c: TreeV,
    unit: Seq<char>,
    top: bool,
    a2: TreeV,
    c2: TreeV,
)
    requires
        spec_adapt(a, unit, top) == Some(a2),
        spec_adapt(b, unit, top) is None,
        spec_adapt(c, unit, top) == Some(c2),
    ensures
        spec_adapt(TreeV::Group { members: seq![a, b, c] }, unit, top) == Some(
            TreeV::Group { members: seq![a2, c2] },
        ),
{
    let ms = seq![a, b, c];
    assert(ms[0] == a);
    assert(ms.drop_first() =~= seq![b, c]);
    assert(seq![b, c][0] == b);
    assert(seq![b, c].drop_first() =~= seq![c]);
    assert(seq![c][0] == c);
    assert(seq![c].drop_first() =~= Seq::<TreeV>::empty());
    assert(spec_adapt_members(Seq::<TreeV>::empty(), unit, top) == Seq::<TreeV>::empty());
    assert(seq![c2] + Seq::<TreeV>::empty() =~= seq![c2]);
    assert(spec_adapt_members(seq![c], unit, top) == seq![c2] + spec_adapt_members(
        seq![c].drop_first(),
        unit,
        top,
    ));
    assert(spec_adapt_members(seq![c], unit, top) =~= seq![c2]);
    assert(spec_adapt_members(seq![b, c], unit, top) =~= seq![c2]);
    assert(seq![a2] + seq![c2] =~= seq![a2, c2]);
    assert(spec_adapt_members(ms, unit, top) =~= seq![a2, c2]);
}

/// No node at head position is a path whose head segment is `unit`; bare
/// names, renames and wildcards are free since the retain filter drops them.
pub open spec fn path_heads_clean(t: TreeV, unit: Seq<char>) -> bool
    decreases t,
{
    match t {
        TreeV::Path { name, sub: _ } => name != unit,
        TreeV::Name { .. } => true,
        TreeV::Glob => true,
        TreeV::Rename { .. } => true,
        TreeV::Group { members } => path_heads_clean_all(members, unit),
    }
}

/// `path_heads_clean` over every member.
pub open spec fn path_heads_clean_all(ms: Seq<TreeV>, unit: Seq<char>) -> bool
    decreases ms,
{
    if ms.len() == 0 {
        true
    } else {
        path_heads_clean(ms[0], unit) && path_heads_clean_all(ms.drop_first(), unit)
    }
}

/// The head segment of no qualified path the import denotes equals `unit`.
pub open spec fn heads_clean(t: TreeV, unit: Seq<char>) -> bool
    decreases t,
{
    match t {
        TreeV::Path { name, sub: _ } => name != unit,
        TreeV::Name { name } => name != unit,
        TreeV::Rename { name, alias: _ } => name != unit,
        TreeV::Glob => true,
        TreeV::Group { members } => heads_clean_all(members, unit),
    }
}

/// `heads_clean` over every member.
pub open spec fn heads_clean_all(ms: Seq<TreeV>, unit: Seq<char>) -> bool
    decreases ms,
{
    if ms.len() == 0 {
        true
    } else {
        heads_clean(ms[0], unit) && heads_clean_all(ms.drop_first(), unit)
    }
}

/// An import whose adaptation is guaranteed to remove every head reference to
/// `unit`: a unit-headed path erases into a sub-tree whose retained heads are
/// clean; a self-reference head recurses; a bare name or rename must not be
/// the unit itself (those are kept unchanged).
pub open spec fn adaptable(t: TreeV, unit: Seq<char>) -> bool
    decreases t,
{
    match t {
        TreeV::Path { name, sub } => {
            if name == unit {
                path_heads_clean(*sub, unit)
            } else if name == crate_tok() {
                adaptable(*sub, unit)
            } else {
                true
            }
        }
        TreeV::Name { name } => name != unit,
        TreeV::Rename { name, alias: _ } => name != unit,
        TreeV::Glob => true,
        TreeV::Group { members } => adaptable_all(members, unit),
    }
}

/// `adaptable` over every member.
pub open spec fn adaptable_all(ms: Seq<TreeV>, unit: Seq<char>) -> bool
    decreases ms,
{
    if ms.len() == 0 {
        true
    } else {
        adaptable(ms[0], unit) && adaptable_all(ms.drop_first(), unit)
    }
}

/// A qualified reference the rewriter is guaranteed to leave without a `unit`
/// head: it must not begin with two `unit` segments.
pub open spec fn path_ok(p: Seq<Seq<char>>, unit: Seq<char>) -> bool {
    p.len() >= 1 && (p[0] == unit && p.len() >= 2 ==> p[1] != unit)
}

/// A qualified reference whose head is not `unit`.
pub open spec fn path_clean(p: Seq<Seq<char>>, unit: Seq<char>) -> bool {
    p.len() > 0 ==> p[0] != unit
}

/// `path_ok` over every reference of an opaque declaration.
pub open spec fn paths_ok(ps: Seq<Seq<Seq<char>>>, unit: Seq<char>) -> bool {
    forall|i: int| 0 <= i < ps.len() ==> path_ok(#[trigger] ps[i], unit)
}

/// What the structural walk needs of a declaration it will only walk: nested
/// imports are already clean (the walk does not adapt them), and every
/// qualified reference survives rewriting without a `unit` head.
pub open spec fn walk_ok_decl(d: DeclV, unit: Seq<char>) -> bool
    decreases d,
{
    match d {
        DeclV::ModStub { .. } => true,
        DeclV::ModWithBody { name: _, body } => walk_ok_decls(body, unit),
        DeclV::Import { tree } => heads_clean(tree, unit),
        DeclV::ExternUnit { .. } => true,
        DeclV::Other { paths } => paths_ok(paths, unit),
    }
}

/// `walk_ok_decl` over a sequence.
pub open spec fn walk_ok_decls(items: Seq<DeclV>, unit: Seq<char>) -> bool
    decreases items,
{
    if items.len() == 0 {
        true
    } else {
        walk_ok_decl(items[0], unit) && walk_ok_decls(items.drop_first(), unit)
    }
}

/// What the full per-file pipeline needs of a file's declarations: top-level
/// imports must be adaptable, everything else as for the walk.
pub open spec fn file_ok_decl(d: DeclV, unit: Seq<char>) -> bool
    decreases d,
{
    match d {
        DeclV::ModStub { .. } => true,
        DeclV::ModWithBody { name: _, body } => walk_ok_decls(body, unit),
        DeclV::Import { tree } => adaptable(tree, unit),
        DeclV::ExternUnit { .. } => true,
        DeclV::Other { paths } => paths_ok(paths, unit),
    }
}

/// `file_ok_decl` over a sequence.
pub open spec fn file_ok_decls(items: Seq<DeclV>, unit: Seq<char>) -> bool
    decreases items,
{
    if items.len() == 0 {
        true
    } else {
        file_ok_decl(items[0], unit) && file_ok_decls(items.drop_first(), unit)
    }
}

/// Every document of the file table meets the per-file condition.
pub open spec fn fs_ok(fsv: Seq<(Seq<Seq<char>>, Seq<DeclV>)>, unit: Seq<char>) -> bool {
    forall|i: int| #![trigger fsv[i]] 0 <= i < fsv.len() ==> file_ok_decls(fsv[i].1, unit)
}

/// A merged declaration free of `unit`: no import head and no qualified
/// reference head equals `unit`, recursively through module bodies.
pub open spec fn clean_decl(d: DeclV, unit: Seq<char>) -> bool
    decreases d,
{
    match d {
        DeclV::ModStub { .. } => true,
        DeclV::ModWithBody { name: _, body } => clean_decls(body, unit),
        DeclV::Import { tree } => heads_clean(tree, unit),
        DeclV::ExternUnit { .. } => true,
        DeclV::Other { paths } => forall|i: int|
            0 <= i < paths.len() ==> path_clean(#[trigger] paths[i], unit),
    }
}

/// `clean_decl` over a sequence.
pub open spec fn clean_decls(items: Seq<DeclV>, unit: Seq<char>) -> bool
    decreases items,
{
    if items.len() == 0 {
        true
    } else {
        clean_decl(items[0], unit) && clean_decls(items.drop_first(), unit)
    }
}

/// Retaining a tree with clean path heads yields a clean tree.
proof fn lemma_retain_clean(t: TreeV, unit: Seq<char>)
    requires
        path_heads_clean(t, unit),
    ensures
        (match spec_retain(t) {
            Some(r) => heads_clean(r, unit),
            None => true,
        }),
    decreases t,
{
    match t {
        TreeV::Group { members } => {
            lemma_retain_members_clean(members, unit);
        }
        _ => {}
    }
}

/// Retaining members with clean path heads yields clean members.
proof fn lemma_retain_members_clean(ms: Seq<TreeV>, unit: Seq<char>)
    requires
        path_heads_clean_all(ms, unit),
    ensures
        heads_clean_all(spec_retain_members(ms), unit),
    decreases ms,
{
    if ms.len() > 0 {
        lemma_retain_clean(ms[0], unit);
        lemma_retain_members_clean(ms.drop_first(), unit);
        match spec_retain(ms[0]) {
            Some(r) => {
                let rest = spec_retain_members(ms.drop_first());
                assert((seq![r] + rest)[0] == r);
                assert((seq![r] + rest).drop_first() =~= rest);
            }
            None => {}
        }
    }
}

/// Adapting an adaptable tree yields a clean tree.
pub proof fn lemma_adapt_clean(t: TreeV, unit: Seq<char>, top: bool)
    requires
        adaptable(t, unit),
        unit != crate_tok(),
    ensures
        (match spec_adapt(t, unit, top) {
            Some(r) => heads_clean(r, unit),
            None => true,
        }),
    decreases t,
{
    match t {
        TreeV::Path { name, sub } => {
            if name == unit && top {
                lemma_retain_clean(*sub, unit);
            } else if name == unit {
            } else if name == crate_tok() {
                lemma_adapt_clean(*sub, unit, top);
            }
        }
        TreeV::Group { members } => {
            lemma_adapt_members_clean(members, unit, top);
        }
        _ => {}
    }
}

/// Adapting adaptable members yields clean members.
proof fn lemma_adapt_members_clean(ms: Seq<TreeV>, unit: Seq<char>, top: bool)
    requires
        adaptable_all(ms, unit),
        unit != crate_tok(),
    ensures
        heads_clean_all(spec_adapt_members(ms, unit, top), unit),
    decreases ms,
{
    if ms.len() > 0 {
        lemma_adapt_clean(ms[0], unit, top);
        lemma_adapt_members_clean(ms.drop_first(), unit, top);
        match spec_adapt(ms[0], unit, top) {
            Some(r) => {
                let rest = spec_adapt_members(ms.drop_first(), unit, top);
                assert((seq![r] + rest)[0] == r);
                assert((seq![r] + rest).drop_first() =~= rest);
            }
            None => {}
        }
    }
}

/// Rewriting a reference that does not begin with two `unit` segments leaves
/// no `unit` head.
proof fn lemma_rewrite_path_clean(p: Seq<Seq<char>>, unit: Seq<char>)
    requires
        path_ok(p, unit),
    ensures
        path_clean(spec_rewrite_path(p, unit), unit),
{
}

/// A document found in a file table that meets the condition meets it too.
proof fn lemma_fs_lookup_ok(
    fsv: Seq<(Seq<Seq<char>>, Seq<DeclV>)>,
    path: Seq<Seq<char>>,
    unit: Seq<char>,
)
    requires
        fs_ok(fsv, unit),
    ensures
        (match fs_lookup(fsv, path) {
            Some(doc) => file_ok_decls(doc, unit),
            None => true,
        }),
    decreases fsv,
{
    if fsv.len() > 0 {
        assert(fsv[0] == fsv[0]);
        if fsv[0].0 == path {
        } else {
            assert forall|i: int| 0 <= i < fsv.drop_first().len() implies file_ok_decls(
                (#[trigger] fsv.drop_first()[i]).1,
                unit,
            ) by {
                assert(fsv.drop_first()[i] == fsv[i + 1]);
            };
            lemma_fs_lookup_ok(fsv.drop_first(), path, unit);
        }
    }
}

/// Allow-list filtering preserves the per-file condition.
proof fn lemma_filter_ok(items: Seq<DeclV>, allow: Set<Seq<char>>, unit: Seq<char>)
    requires
        file_ok_decls(items, unit),
    ensures
        file_ok_decls(spec_filter_lib(items, allow), unit),
    decreases items,
{
    if items.len() > 0 {
        lemma_filter_ok(items.drop_first(), allow, unit);
        if spec_is_allowed(items[0], allow) {
            let rest = spec_filter_lib(items.drop_first(), allow);
            assert((seq![items[0]] + rest)[0] == items[0]);
            assert((seq![items[0]] + rest).drop_first() =~= rest);
        }
    }
}

/// The per-file condition holds of a concatenation iff it holds of the parts.
proof fn lemma_file_ok_concat(a: Seq<DeclV>, b: Seq<DeclV>, unit: Seq<char>)
    requires
        file_ok_decls(a, unit),
        file_ok_decls(b, unit),
    ensures
        file_ok_decls(a + b, unit),
    decreases a,
{
    if a.len() == 0 {
        assert(a + b =~= b);
    } else {
        lemma_file_ok_concat(a.drop_first(), b, unit);
        assert((a + b)[0] == a[0]);
        assert((a + b).drop_first() =~= a.drop_first() + b);
    }
}

/// The unit-merge pass preserves the per-file condition.
proof fn lemma_expand_extern_ok(
    items: Seq<DeclV>,
    unit: Seq<char>,
    fsv: Seq<(Seq<Seq<char>>, Seq<DeclV>)>,
    base: Seq<Seq<char>>,
    remove: bool,
    allow: Set<Seq<char>>,
)
    requires
        fs_ok(fsv, unit),
        file_ok_decls(items, unit),
    ensures
        (match crate::expand::spec_expand_extern(items, unit, fsv, base, remove, allow) {
            Ok(e1) => file_ok_decls(e1, unit),
            Err(_) => true,
        }),
    decreases items,
{
    if items.len() > 0 {
        lemma_expand_extern_ok(items.drop_first(), unit, fsv, base, remove, allow);
        if crate::expand::is_unit_marker(items[0], unit) {
            lemma_fs_lookup_ok(fsv, crate::expand::lib_root_path(base), unit);
            match fs_lookup(fsv, crate::expand::lib_root_path(base)) {
                Some(lib) => {
                    lemma_filter_ok(lib, allow, unit);
                    let spliced = if remove {
                        spec_filter_lib(lib, allow)
                    } else {
                        lib
                    };
                    match crate::expand::spec_expand_extern(
                        items.drop_first(),
                        unit,
                        fsv,
                        base,
                        remove,
                        allow,
                    ) {
                        Ok(r) => {
                            lemma_file_ok_concat(spliced, r, unit);
                        }
                        Err(_) => {}
                    }
                }
                None => {}
            }
        } else {
            match crate::expand::spec_expand_extern(
                items.drop_first(),
                unit,
                fsv,
                base,
                remove,
                allow,
            ) {
                Ok(r) => {
                    assert(seq![items[0]][0] == items[0]);
                    assert(seq![items[0]].drop_first() =~= Seq::<DeclV>::empty());
                    assert(file_ok_decls(Seq::<DeclV>::empty(), unit));
                    assert(file_ok_decls(seq![items[0]], unit));
                    lemma_file_ok_concat(seq![items[0]], r, unit);
                }
                Err(_) => {}
            }
        }
    }
}

/// The import-adaptation pass turns a per-file-good sequence into a
/// walk-ready one: every surviving import is clean.
proof fn lemma_adapt_imports_ok(items: Seq<DeclV>, unit: Seq<char>, top: bool)
    requires
        file_ok_decls(items, unit),
        unit != crate_tok(),
    ensures
        walk_ok_decls(crate::expand::spec_adapt_imports(items, unit, top), unit),
    decreases items,
{
    if items.len() > 0 {
        lemma_adapt_imports_ok(items.drop_first(), unit, top);
        let rest = crate::expand::spec_adapt_imports(items.drop_first(), unit, top);
        match items[0] {
            DeclV::Import { tree } => {
                lemma_adapt_clean(tree, unit, top);
                match spec_adapt(tree, unit, top) {
                    Some(a) => {
                        let out = seq![DeclV::Import { tree: a }] + rest;
                        assert(heads_clean(a, unit));
                        assert(walk_ok_decl(DeclV::Import { tree: a }, unit));
                        assert(out[0] == DeclV::Import { tree: a });
                        assert(out.drop_first() =~= rest);
                        assert(walk_ok_decls(out.drop_first(), unit));
                        assert(walk_ok_decls(out, unit));
                    }
                    None => {}
                }
            }
            d => {
                assert(walk_ok_decl(d, unit));
                let out = seq![d] + rest;
                assert(out[0] == d);
                assert(out.drop_first() =~= rest);
                assert(walk_ok_decls(out, unit));
            }
        }
    }
}

/// The full per-file pipeline yields a clean document.
proof fn lemma_expand_file_clean(
    items: Seq<DeclV>,
    base: Seq<Seq<char>>,
    parent: Seq<char>,
    unit: Seq<char>,
    fsv: Seq<(Seq<Seq<char>>, Seq<DeclV>)>,
    remove: bool,
    allow: Set<Seq<char>>,
    top: bool,
    fuel: nat,
)
    requires
        fs_ok(fsv, unit),
        file_ok_decls(items, unit),
        unit != crate_tok(),
    ensures
        (match crate::expand::spec_expand_file(
            items,
            base,
            parent,
            unit,
            fsv,
            remove,
            allow,
            top,
            fuel,
        ) {
            Ok(out) => clean_decls(out, unit),
            Err(_) => true,
        }),
    decreases fuel + 1, 0int, 0int,
{
    lemma_expand_extern_ok(items, unit, fsv, base, remove, allow);
    match crate::expand::spec_expand_extern(items, unit, fsv, base, remove, allow) {
        Ok(e1) => {
            lemma_adapt_imports_ok(e1, unit, top);
            let e2 = crate::expand::spec_adapt_imports(e1, unit, top);
            lemma_visit_items_clean(e2, base, parent, unit, fsv, fuel);
        }
        Err(_) => {}
    }
}

/// The structural walk yields clean declarations.
proof fn lemma_visit_items_clean(
    items: Seq<DeclV>,
    base: Seq<Seq<char>>,
    parent: Seq<char>,
    unit: Seq<char>,
    fsv: Seq<(Seq<Seq<char>>, Seq<DeclV>)>,
    fuel: nat,
)
    requires
        fs_ok(fsv, unit),
        walk_ok_decls(items, unit),
        unit != crate_tok(),
    ensures
        (match crate::expand::spec_visit_items(items, base, parent, unit, fsv, fuel) {
            Ok(out) => clean_decls(out, unit),
            Err(_) => true,
        }),
    decreases fuel, crate::model::declsv_size(items), 2int,
{
    if items.len() > 0 {
        crate::model::lemma_declv_size_pos(items[0]);
        lemma_visit_item_clean(items[0], base, parent, unit, fsv, fuel);
        lemma_visit_items_clean(items.drop_first(), base, parent, unit, fsv, fuel);
        match crate::expand::spec_visit_item(items[0], base, parent, unit, fsv, fuel) {
            Ok(d) => {
                match crate::expand::spec_visit_items(
                    items.drop_first(),
                    base,
                    parent,
                    unit,
                    fsv,
                    fuel,
                ) {
                    Ok(r) => {
                        assert((seq![d] + r)[0] == d);
                        assert((seq![d] + r).drop_first() =~= r);
                    }
                    Err(_) => {}
                }
            }
            Err(_) => {}
        }
    }
}

/// The structural walk on one declaration yields a clean declaration.
proof fn lemma_visit_item_clean(
    d: DeclV,
    base: Seq<Seq<char>>,
    parent: Seq<char>,
    unit: Seq<char>,
    fsv: Seq<(Seq<Seq<char>>, Seq<DeclV>)>,
    fuel: nat,
)
    requires
        fs_ok(fsv, unit),
        walk_ok_decl(d, unit),
        unit != crate_tok(),
    ensures
        (match crate::expand::spec_visit_item(d, base, parent, unit, fsv, fuel) {
            Ok(r) => clean_decl(r, unit),
            Err(_) => true,
        }),
    decreases fuel, crate::model::declv_size(d), 1int,
{
    match d {
        DeclV::ModStub { name } => {
            lemma_expand_mod_clean(name, base, parent, unit, fsv, fuel);
        }
        DeclV::ModWithBody { name: _, body } => {
            lemma_visit_items_clean(body, base, parent, unit, fsv, fuel);
        }
        DeclV::Other { paths } => {
            let out = Seq::new(paths.len(), |i: int| spec_rewrite_path(paths[i], unit));
            assert forall|i: int| 0 <= i < out.len() implies path_clean(
                #[trigger] out[i],
                unit,
            ) by {
                lemma_rewrite_path_clean(paths[i], unit);
            };
        }
        _ => {}
    }
}

/// Resolving and expanding a module stub yields a clean module.
proof fn lemma_expand_mod_clean(
    name: Seq<char>,
    base: Seq<Seq<char>>,
    parent: Seq<char>,
    unit: Seq<char>,
    fsv: Seq<(Seq<Seq<char>>, Seq<DeclV>)>,
    fuel: nat,
)
    requires
        fs_ok(fsv, unit),
        unit != crate_tok(),
    ensures
        (match crate::expand::spec_expand_mod(name, base, parent, unit, fsv, fuel) {
            Ok(r) => clean_decl(r, unit),
            Err(_) => true,
        }),
    decreases fuel, 0int, 3int,
{
    lemma_fs_lookup_ok(fsv, base.push(crate::expand::dot_rs(name)), unit);
    lemma_fs_lookup_ok(fsv, base.push(parent).push(crate::expand::dot_rs(name)), unit);
    lemma_fs_lookup_ok(fsv, base.push(name).push("mod.rs"@), unit);
    if fuel > 0 {
        match fs_lookup(fsv, base.push(crate::expand::dot_rs(name))) {
            Some(doc) => {
                lemma_expand_file_clean(
                    doc,
                    base,
                    name,
                    unit,
                    fsv,
                    false,
                    Set::empty(),
                    false,
                    (fuel - 1) as nat,
                );
            }
            None => {
                match fs_lookup(fsv, base.push(parent).push(crate::expand::dot_rs(name))) {
                    Some(doc) => {
                        lemma_expand_file_clean(
                            doc,
                            base.push(parent),
                            name,
                            unit,
                            fsv,
                            false,
                            Set::empty(),
                            false,
                            (fuel - 1) as nat,
                        );
                    }
                    None => {
                        match fs_lookup(fsv, base.push(name).push("mod.rs"@)) {
                            Some(doc) => {
                                lemma_expand_file_clean(
                                    doc,
                                    base.push(name),
                                    name,
                                    unit,
                                    fsv,
                                    false,
                                    Set::empty(),
                                    false,
                                    (fuel - 1) as nat,
                                );
                            }
                            None => {}
                        }
                    }
                }
            }
        }
    }
}

/// No dangling unit references: when a whole merge succeeds on a binary
/// document and file table that avoid the untouched shapes (no reference or
/// import beginning with two `unit` segments, no bare import or rename of the
/// unit itself, and a unit not named like the self-reference token), the
/// merged output contains no import and no qualified reference whose head
/// segment equals the erased unit's name, anywhere in the document.
pub proof fn lemma_no_dangling_unit_refs(
    bin: Seq<DeclV>,
    fsv: Seq<(Seq<Seq<char>>, Seq<DeclV>)>,
    base: Seq<Seq<char>>,
    unit: Seq<char>,
    remove: bool,
    fuel: nat,
    out: Seq<DeclV>,
)
    requires
        unit != crate_tok(),
        fs_ok(fsv, unit),
        file_ok_decls(bin, unit),
        crate::expand::spec_bundle(bin, fsv, base, unit, remove, fuel) == Ok::<_, crate::expand::ErrV>(out),
    ensures
        clean_decls(out, unit),
{
    let allow = if remove {
        crate::allowlist::spec_allow_names(bin)
    } else {
        Set::empty()
    };
    lemma_expand_file_clean(bin, base, Seq::empty(), unit, fsv, remove, allow, true, fuel);
}

} // verus!
