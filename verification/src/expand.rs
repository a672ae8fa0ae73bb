//! The merge engine: inlines the referenced library unit into the binary
//! unit, adapts import declarations, resolves and inlines module stubs, and
//! rewrites qualified references, exactly once per node, in document order.

use vstd::prelude::*;

use crate::allowlist::{
    contains_name, extract_mods_name, spec_allow_names, spec_filter_lib, spec_is_allowed,
    spec_tree_names, strings_set,
};
use crate::fsmodel::{clone_path_vec, fs_get, fs_lookup, fs_view, path_push, path_view, Fs};
use crate::imports::{adapt_use_tree, spec_adapt};
use crate::model::{
    decl_view, decls_view, declsv_size, declv_size, lemma_decls_view, lemma_decls_view_concat,
    lemma_decls_view_drop_first, lemma_declv_size_pos, tree_view, Decl, DeclV,
};
use crate::paths::{rewrite_qual_path, spec_rewrite_path};
use crate::strutil::concat_str;

verus! {

/// Why a merge aborts: a module stub without a backing file, a unit-reference
/// marker without a library root document, or a module tree nested deeper
/// than the caller's limit.
#[derive(Debug, PartialEq, Eq)]
pub enum BundleError {
    ModNotFound { name: String },
    LibRootNotFound,
    DepthExceeded,
}

/// The mathematical view of a [`BundleError`].
pub enum ErrV {
    ModNotFound { name: Seq<char> },
    LibRootNotFound,
    DepthExceeded,
}

impl View for BundleError {
    type V = ErrV;

    open spec fn view(&self) -> ErrV {
        match self {
            BundleError::ModNotFound { name } => ErrV::ModNotFound { name: name@ },
            BundleError::LibRootNotFound => ErrV::LibRootNotFound,
            BundleError::DepthExceeded => ErrV::DepthExceeded,
        }
    }
}

/// The view of a document-or-error result.
pub open spec fn res_view(r: Result<Vec<Decl>, BundleError>) -> Result<Seq<DeclV>, ErrV> {
    match r {
        Ok(v) => Ok(decls_view(v@)),
        Err(e) => Err(e@),
    }
}

/// The view of a declaration-or-error result.
pub open spec fn decl_res_view(r: Result<Decl, BundleError>) -> Result<DeclV, ErrV> {
    match r {
        Ok(d) => Ok(decl_view(d)),
        Err(e) => Err(e@),
    }
}

/// Whether a declaration is a unit-reference marker for `unit`.
pub open spec fn is_unit_marker(d: DeclV, unit: Seq<char>) -> bool {
    match d {
        DeclV::ExternUnit { name } => name == unit,
        _ => false,
    }
}

/// The well-known root file name of a library unit, under its source root.
pub open spec fn lib_root_path(base: Seq<Seq<char>>) -> Seq<Seq<char>> {
    base.push("lib.rs"@)
}

/// Replacing every unit-reference marker for `unit` with the library root's
/// declarations, filtered by the allow-list when filtering is on.  A marker
/// whose library root is missing from the file table is fatal.
pub open spec fn spec_expand_extern(
    items: Seq<DeclV>,
    unit: Seq<char>,
    fsv: Seq<(Seq<Seq<char>>, Seq<DeclV>)>,
    base: Seq<Seq<char>>,
    remove: bool,
    allow: Set<Seq<char>>,
) -> Result<Seq<DeclV>, ErrV>
    decreases items,
{
    if items.len() == 0 {
        Ok(Seq::empty())
    } else {
        let rest = spec_expand_extern(items.drop_first(), unit, fsv, base, remove, allow);
        if is_unit_marker(items[0], unit) {
            match fs_lookup(fsv, lib_root_path(base)) {
                None => Err(ErrV::LibRootNotFound),
                Some(lib) => {
                    let spliced = if remove {
                        spec_filter_lib(lib, allow)
                    } else {
                        lib
                    };
                    match rest {
                        Ok(r) => Ok(spliced + r),
                        Err(e) => Err(e),
                    }
                }
            }
        } else {
            match rest {
                Ok(r) => Ok(seq![items[0]] + r),
                Err(e) => Err(e),
            }
        }
    }
}

/// Adapting every import declaration of a flat sequence; imports that do not
/// survive are dropped, everything else is kept unchanged, in order.
pub open spec fn spec_adapt_imports(items: Seq<DeclV>, unit: Seq<char>, top: bool) -> Seq<DeclV>
    decreases items,
{
    if items.len() == 0 {
        Seq::empty()
    } else {
        let rest = spec_adapt_imports(items.drop_first(), unit, top);
        match items[0] {
            DeclV::Import { tree } => match spec_adapt(tree, unit, top) {
                Some(a) => seq![DeclV::Import { tree: a }] + rest,
                None => rest,
            },
            d => seq![d] + rest,
        }
    }
}

/// The two flat passes over one file's declaration sequence: unit-merge, then
/// import adaptation.
pub open spec fn spec_expand_items(
    items: Seq<DeclV>,
    unit: Seq<char>,
    fsv: Seq<(Seq<Seq<char>>, Seq<DeclV>)>,
    base: Seq<Seq<char>>,
    remove: bool,
    allow: Set<Seq<char>>,
    top: bool,
) -> Result<Seq<DeclV>, ErrV> {
    match spec_expand_extern(items, unit, fsv, base, remove, allow) {
        Ok(e1) => Ok(spec_adapt_imports(e1, unit, top)),
        Err(e) => Err(e),
    }
}

/// The file name a module named `name` lives in.
pub open spec fn dot_rs(name: Seq<char>) -> Seq<char> {
    name + ".rs"@
}

/// The full expansion pipeline on one file's declarations: the two flat
/// passes, then the structural walk of every declaration.
pub open spec fn spec_expand_file(
    items: Seq<DeclV>,
    base: Seq<Seq<char>>,
    parent: Seq<char>,
    unit: Seq<char>,
    fsv: Seq<(Seq<Seq<char>>, Seq<DeclV>)>,
    remove: bool,
    allow: Set<Seq<char>>,
    top: bool,
    fuel: nat,
) -> Result<Seq<DeclV>, ErrV>
    decreases fuel + 1, 0int, 0int,
{
    match spec_expand_items(items, unit, fsv, base, remove, allow, top) {
        Ok(e2) => spec_visit_items(e2, base, parent, unit, fsv, fuel),
        Err(e) => Err(e),
    }
}

/// The structural walk over a declaration sequence: stubs are resolved and
/// inlined, inline module bodies are walked, qualified references are
/// rewritten; imports and markers at this level are left as they are.
pub open spec fn spec_visit_items(
    items: Seq<DeclV>,
    base: Seq<Seq<char>>,
    parent: Seq<char>,
    unit: Seq<char>,
    fsv: Seq<(Seq<Seq<char>>, Seq<DeclV>)>,
    fuel: nat,
) -> Result<Seq<DeclV>, ErrV>
    decreases fuel, declsv_size(items), 2int,
    via spec_visit_items_decreases
{
    if items.len() == 0 {
        Ok(Seq::empty())
    } else {
        match spec_visit_item(items[0], base, parent, unit, fsv, fuel) {
            Err(e) => Err(e),
            Ok(d) => match spec_visit_items(items.drop_first(), base, parent, unit, fsv, fuel) {
                Ok(r) => Ok(seq![d] + r),
                Err(e) => Err(e),
            },
        }
    }
}

#[via_fn]
proof fn spec_visit_items_decreases(
    items: Seq<DeclV>,
    base: Seq<Seq<char>>,
    parent: Seq<char>,
    unit: Seq<char>,
    fsv: Seq<(Seq<Seq<char>>, Seq<DeclV>)>,
    fuel: nat,
) {
    if items.len() > 0 {
        lemma_declv_size_pos(items[0]);
    }
}

/// The structural walk over one declaration.
pub open spec fn spec_visit_item(
    d: DeclV,
    base: Seq<Seq<char>>,
    parent: Seq<char>,
    unit: Seq<char>,
    fsv: Seq<(Seq<Seq<char>>, Seq<DeclV>)>,
    fuel: nat,
) -> Result<DeclV, ErrV>
    decreases fuel, declv_size(d), 1int,
{
    match d {
        DeclV::ModStub { name } => spec_expand_mod(name, base, parent, unit, fsv, fuel),
        DeclV::ModWithBody { name, body } => {
            match spec_visit_items(body, base, parent, unit, fsv, fuel) {
                Ok(b) => Ok(DeclV::ModWithBody { name, body: b }),
                Err(e) => Err(e),
            }
        }
        DeclV::Other { paths } => Ok(
            DeclV::Other { paths: Seq::new(paths.len(), |i: int| spec_rewrite_path(paths[i], unit)) },
        ),
        d2 => Ok(d2),
    }
}

/// Resolving one module stub: its source is the first file table hit among
/// `base/name.rs`, `base/parent/name.rs` and `base/name/mod.rs`; the found
/// document is expanded by a fresh pipeline rooted at the found directory and
/// spliced in as the module's body.
pub open spec fn spec_expand_mod(
    name: Seq<char>,
    base: Seq<Seq<char>>,
    parent: Seq<char>,
    unit: Seq<char>,
    fsv: Seq<(Seq<Seq<char>>, Seq<DeclV>)>,
    fuel: nat,
) -> Result<DeclV, ErrV>
    decreases fuel, 0int, 3int,
{
    let c1 = fs_lookup(fsv, base.push(dot_rs(name)));
    let c2 = fs_lookup(fsv, base.push(parent).push(dot_rs(name)));
    let c3 = fs_lookup(fsv, base.push(name).push("mod.rs"@));
    let found: Option<(Seq<Seq<char>>, Seq<DeclV>)> = match c1 {
        Some(doc) => Some((base, doc)),
        None => match c2 {
            Some(doc) => Some((base.push(parent), doc)),
            None => match c3 {
                Some(doc) => Some((base.push(name), doc)),
                None => None,
            },
        },
    };
    match found {
        None => Err(ErrV::ModNotFound { name }),
        Some(fb) => {
            if fuel == 0 {
                Err(ErrV::DepthExceeded)
            } else {
                match spec_expand_file(
                    fb.1,
                    fb.0,
                    name,
                    unit,
                    fsv,
                    false,
                    Set::empty(),
                    false,
                    (fuel - 1) as nat,
                ) {
                    Ok(body) => Ok(DeclV::ModWithBody { name, body }),
                    Err(e) => Err(e),
                }
            }
        }
    }
}

/// One merge session's context: the directory module stubs are resolved
/// against, the enclosing module's name, the name of the library unit being
/// merged away, and the optional allow-list.
pub struct Expander {
    pub base_path: Vec<String>,
    pub parent_name: String,
    pub crate_name: String,
    pub remove_unused_mod_in_lib: bool,
    pub allow_list_mod_in_lib: Vec<String>,
}

/// Whether `item` is a unit-reference marker for `crate_name`.
pub fn is_selected_extern_crate(item: &Decl, crate_name: &String) -> (r: bool)
    ensures
        r == is_unit_marker(decl_view(*item), crate_name@),
{
    match item {
        Decl::ExternUnit { name } => *name == *crate_name,
        _ => false,
    }
}

impl Expander {
    /// A fresh context with filtering off and an empty allow-list.
    pub fn new(base_path: Vec<String>, parent_name: String, crate_name: String) -> (e: Expander)
        ensures
            e.base_path == base_path,
            e.parent_name == parent_name,
            e.crate_name == crate_name,
            e.remove_unused_mod_in_lib == false,
            e.allow_list_mod_in_lib@ =~= Seq::<String>::empty(),
    {
        Expander {
            base_path,
            parent_name,
            crate_name,
            remove_unused_mod_in_lib: false,
            allow_list_mod_in_lib: Vec::new(),
        }
    }

    /// Turns allow-list filtering on and collects, from the document's
    /// top-level import declarations, every module name they mention.
    pub fn set_pub_mod_allow_list(&mut self, file_items: &Vec<Decl>)
        ensures
            final(self).remove_unused_mod_in_lib == true,
            strings_set(final(self).allow_list_mod_in_lib@) == strings_set(
                old(self).allow_list_mod_in_lib@,
            ).union(spec_allow_names(decls_view(file_items@))),
            final(self).base_path == old(self).base_path,
            final(self).parent_name == old(self).parent_name,
            final(self).crate_name == old(self).crate_name,
    {
        self.remove_unused_mod_in_lib = true;
        let ghost dv = decls_view(file_items@);
        let ghost start = strings_set(self.allow_list_mod_in_lib@);
        proof {
            lemma_decls_view(file_items@);
            assert(dv.skip(0) =~= dv);
            assert(start.union(spec_allow_names(dv.skip(0))) =~= start.union(spec_allow_names(dv)));
        }
        let mut i: usize = 0;
        while i < file_items.len()
            invariant
                i <= file_items@.len(),
                dv == decls_view(file_items@),
                dv.len() == file_items@.len(),
                forall|j: int| 0 <= j < dv.len() ==> dv[j] == decl_view(file_items@[j]),
                strings_set(self.allow_list_mod_in_lib@).union(spec_allow_names(dv.skip(i as int)))
                    == start.union(spec_allow_names(dv)),
                self.remove_unused_mod_in_lib == true,
                self.base_path == old(self).base_path,
                self.parent_name == old(self).parent_name,
                self.crate_name == old(self).crate_name,
            decreases file_items@.len() - i,
        {
            let ghost before = strings_set(self.allow_list_mod_in_lib@);
            proof {
                assert(dv.skip(i as int)[0] == dv[i as int]);
                assert(dv.skip(i as int).drop_first() =~= dv.skip(i as int + 1));
            }
            match &file_items[i] {
                Decl::Import { tree } => {
                    let mut mods = extract_mods_name(tree);
                    let ghost mods_v = mods@;
                    let ghost list_pre = self.allow_list_mod_in_lib@;
                    self.allow_list_mod_in_lib.append(&mut mods);
                    proof {
                        crate::allowlist::lemma_strings_set_concat(list_pre, mods_v);
                        assert(strings_set(self.allow_list_mod_in_lib@) == before.union(
                            spec_tree_names(tree_view(*tree)),
                        ));
                        assert(strings_set(self.allow_list_mod_in_lib@).union(
                            spec_allow_names(dv.skip(i as int + 1)),
                        ) =~= before.union(spec_allow_names(dv.skip(i as int))));
                    }
                }
                _ => {
                    proof {
                        assert(strings_set(self.allow_list_mod_in_lib@).union(
                            spec_allow_names(dv.skip(i as int + 1)),
                        ) =~= before.union(spec_allow_names(dv.skip(i as int))));
                    }
                }
            }
            i += 1;
        }
        proof {
            assert(dv.skip(i as int) =~= Seq::<DeclV>::empty());
            assert(strings_set(self.allow_list_mod_in_lib@).union(Set::<Seq<char>>::empty()) =~=
                strings_set(self.allow_list_mod_in_lib@));
            assert(strings_set(self.allow_list_mod_in_lib@) =~= start.union(spec_allow_names(dv)));
        }
    }

    /// Whether a library declaration survives allow-list filtering.
    pub fn is_allowed(&self, it: &Decl) -> (r: bool)
        ensures
            r == spec_is_allowed(decl_view(*it), strings_set(self.allow_list_mod_in_lib@)),
    {
        match it {
            Decl::ModStub { name } => contains_name(&self.allow_list_mod_in_lib, name),
            Decl::ModWithBody { name, body: _ } => contains_name(&self.allow_list_mod_in_lib, name),
            _ => true,
        }
    }

    /// The library declarations that survive filtering, in order.
    fn filter_allowed(&self, items: Vec<Decl>) -> (r: Vec<Decl>)
        ensures
            decls_view(r@) == spec_filter_lib(
                decls_view(items@),
                strings_set(self.allow_list_mod_in_lib@),
            ),
        decreases items@.len(),
    {
        proof {
            lemma_decls_view(items@);
        }
        let mut items = items;
        if items.len() == 0 {
            items
        } else {
            let ghost dv = decls_view(items@);
            let ghost orig_items = items@;
            let first = items.remove(0);
            proof {
                lemma_decls_view_drop_first(orig_items);
                assert(decls_view(items@) =~= dv.drop_first());
            }
            let keep = self.is_allowed(&first);
            let rest = self.filter_allowed(items);
            if keep {
                let mut rest = rest;
                let ghost rest_pre = rest@;
                rest.insert(0, first);
                proof {
                    assert(rest@.drop_first() =~= rest_pre);
                    lemma_decls_view_drop_first(rest@);
                    assert(decls_view(rest@) =~= seq![decl_view(first)] + decls_view(rest_pre));
                }
                rest
            } else {
                rest
            }
        }
    }

    /// The unit-merge pass of `expand_items`: replaces every unit-reference
    /// marker for the merged unit with the library root's declarations.
    pub fn expand_extern_crate(&self, items: Vec<Decl>, fs: &Fs) -> (r: Result<
        Vec<Decl>,
        BundleError,
    >)
        ensures
            res_view(r) == spec_expand_extern(
                decls_view(items@),
                self.crate_name@,
                fs_view(*fs),
                path_view(self.base_path@),
                self.remove_unused_mod_in_lib,
                strings_set(self.allow_list_mod_in_lib@),
            ),
        decreases items@.len(),
    {
        proof {
            lemma_decls_view(items@);
        }
        let mut items = items;
        if items.len() == 0 {
            Ok(items)
        } else {
            let ghost dv = decls_view(items@);
            let ghost orig_items = items@;
            let first = items.remove(0);
            proof {
                lemma_decls_view_drop_first(orig_items);
                assert(decls_view(items@) =~= dv.drop_first());
            }
            if is_selected_extern_crate(&first, &self.crate_name) {
                let lib_path = path_push(&self.base_path, lib_root_name());
                match fs_get(fs, &lib_path) {
                    None => Err(BundleError::LibRootNotFound),
                    Some(lib_doc) => {
                        let spliced = if self.remove_unused_mod_in_lib {
                            self.filter_allowed(lib_doc)
                        } else {
                            lib_doc
                        };
                        match self.expand_extern_crate(items, fs) {
                            Ok(mut rest) => {
                                let mut out = spliced;
                                let ghost out_pre = out@;
                                let ghost rest_pre = rest@;
                                out.append(&mut rest);
                                proof {
                                    lemma_decls_view_concat(out_pre, rest_pre);
                                }
                                Ok(out)
                            }
                            Err(e) => Err(e),
                        }
                    }
                }
            } else {
                match self.expand_extern_crate(items, fs) {
                    Ok(mut rest) => {
                        let ghost rest_pre = rest@;
                        rest.insert(0, first);
                        proof {
                            assert(rest@.drop_first() =~= rest_pre);
                            lemma_decls_view_drop_first(rest@);
                            assert(decls_view(rest@) =~= seq![decl_view(first)] + decls_view(
                                rest_pre,
                            ));
                        }
                        Ok(rest)
                    }
                    Err(e) => Err(e),
                }
            }
        }
    }

    /// The import-adaptation pass: adapts every import declaration of the
    /// flat sequence, dropping those that do not survive.
    pub fn expand_use_paths(&self, items: Vec<Decl>, top_scope: bool) -> (r: Vec<Decl>)
        ensures
            decls_view(r@) == spec_adapt_imports(decls_view(items@), self.crate_name@, top_scope),
        decreases items@.len(),
    {
        proof {
            lemma_decls_view(items@);
        }
        let mut items = items;
        if items.len() == 0 {
            items
        } else {
            let ghost dv = decls_view(items@);
            let ghost orig_items = items@;
            let first = items.remove(0);
            proof {
                lemma_decls_view_drop_first(orig_items);
                assert(decls_view(items@) =~= dv.drop_first());
            }
            match first {
                Decl::Import { tree } => {
                    let adapted = adapt_use_tree(tree, &self.crate_name, top_scope);
                    let rest = self.expand_use_paths(items, top_scope);
                    match adapted {
                        Some(a) => {
                            let mut rest = rest;
                            let ghost rest_pre = rest@;
                            rest.insert(0, Decl::Import { tree: a });
                            proof {
                                assert(rest@.drop_first() =~= rest_pre);
                                lemma_decls_view_drop_first(rest@);
                                assert(decls_view(rest@) =~= seq![
                                    DeclV::Import { tree: tree_view(a) },
                                ] + decls_view(rest_pre));
                            }
                            rest
                        }
                        None => rest,
                    }
                }
                d => {
                    let rest = self.expand_use_paths(items, top_scope);
                    let mut rest = rest;
                    let ghost rest_pre = rest@;
                    rest.insert(0, d);
                    proof {
                        assert(rest@.drop_first() =~= rest_pre);
                        lemma_decls_view_drop_first(rest@);
                        assert(decls_view(rest@) =~= seq![decl_view(rest@[0])] + decls_view(
                            rest_pre,
                        ));
                    }
                    rest
                }
            }
        }
    }

    /// The two flat passes over one file's top-level sequence.
    pub fn expand_items(&self, items: Vec<Decl>, fs: &Fs, top_scope: bool) -> (r: Result<
        Vec<Decl>,
        BundleError,
    >)
        ensures
            res_view(r) == spec_expand_items(
                decls_view(items@),
                self.crate_name@,
                fs_view(*fs),
                path_view(self.base_path@),
                self.remove_unused_mod_in_lib,
                strings_set(self.allow_list_mod_in_lib@),
                top_scope,
            ),
    {
        match self.expand_extern_crate(items, fs) {
            Ok(e1) => Ok(self.expand_use_paths(e1, top_scope)),
            Err(e) => Err(e),
        }
    }

    /// Rewrites one qualified reference under the merge.
    pub fn expand_crate_path(&self, p: &mut crate::model::QualPath)
        ensures
            final(p)@ == spec_rewrite_path(old(p)@, self.crate_name@),
    {
        rewrite_qual_path(p, &self.crate_name)
    }

    /// The walk's step on a qualified reference.
    pub fn visit_path_mut(&self, p: &mut crate::model::QualPath)
        ensures
            final(p)@ == spec_rewrite_path(old(p)@, self.crate_name@),
    {
        self.expand_crate_path(p)
    }

    /// Resolves one module stub and inlines its expanded body.
    pub fn expand_mods(&self, name: String, fs: &Fs, fuel: u64) -> (r: Result<Decl, BundleError>)
        ensures
            decl_res_view(r) == spec_expand_mod(
                name@,
                path_view(self.base_path@),
                self.parent_name@,
                self.crate_name@,
                fs_view(*fs),
                fuel as nat,
            ),
        decreases fuel as int, 0int, 3int,
    {
        let file_name = concat_str(&name, ".rs");
        let p1 = path_push(&self.base_path, file_name.clone());
        let found: Option<(Vec<String>, Vec<Decl>)> = match fs_get(fs, &p1) {
            Some(doc) => Some((clone_path_vec(&self.base_path), doc)),
            None => {
                let dir2 = path_push(&self.base_path, self.parent_name.clone());
                let p2 = path_push(&dir2, file_name.clone());
                match fs_get(fs, &p2) {
                    Some(doc) => Some((dir2, doc)),
                    None => {
                        let dir3 = path_push(&self.base_path, name.clone());
                        let p3 = path_push(&dir3, mod_rs_name());
                        match fs_get(fs, &p3) {
                            Some(doc) => Some((dir3, doc)),
                            None => None,
                        }
                    }
                }
            }
        };
        match found {
            None => Err(BundleError::ModNotFound { name }),
            Some((found_base, doc)) => {
                if fuel == 0 {
                    Err(BundleError::DepthExceeded)
                } else {
                    let sub = Expander::new(found_base, name.clone(), self.crate_name.clone());
                    proof {
                        assert(strings_set(sub.allow_list_mod_in_lib@)
                            =~= Set::<Seq<char>>::empty());
                    }
                    match sub.visit_file_mut(doc, fs, false, fuel - 1) {
                        Ok(body) => Ok(Decl::ModWithBody { name, body }),
                        Err(e) => Err(e),
                    }
                }
            }
        }
    }

    /// The full pipeline on one file: the two flat passes, then the walk.
    pub fn visit_file_mut(&self, items: Vec<Decl>, fs: &Fs, top_scope: bool, fuel: u64) -> (r:
        Result<Vec<Decl>, BundleError>)
        ensures
            res_view(r) == spec_expand_file(
                decls_view(items@),
                path_view(self.base_path@),
                self.parent_name@,
                self.crate_name@,
                fs_view(*fs),
                self.remove_unused_mod_in_lib,
                strings_set(self.allow_list_mod_in_lib@),
                top_scope,
                fuel as nat,
            ),
        decreases fuel as int + 1, 0int, 0int,
    {
        match self.expand_items(items, fs, top_scope) {
            Err(e) => Err(e),
            Ok(e2) => self.visit_items(e2, fs, fuel),
        }
    }

    /// The walk over a declaration sequence.
    fn visit_items(&self, items: Vec<Decl>, fs: &Fs, fuel: u64) -> (r: Result<
        Vec<Decl>,
        BundleError,
    >)
        ensures
            res_view(r) == spec_visit_items(
                decls_view(items@),
                path_view(self.base_path@),
                self.parent_name@,
                self.crate_name@,
                fs_view(*fs),
                fuel as nat,
            ),
        decreases fuel as int, declsv_size(decls_view(items@)), 2int,
    {
        proof {
            lemma_decls_view(items@);
        }
        let mut items = items;
        if items.len() == 0 {
            Ok(items)
        } else {
            let ghost dv = decls_view(items@);
            let ghost orig_items = items@;
            let first = items.remove(0);
            proof {
                lemma_decls_view_drop_first(orig_items);
                assert(decls_view(items@) =~= dv.drop_first());
                lemma_declv_size_pos(dv[0]);
            }
            match self.visit_item_mut(first, fs, fuel) {
                Err(e) => Err(e),
                Ok(d) => {
                    match self.visit_items(items, fs, fuel) {
                        Ok(mut rest) => {
                            let ghost rest_pre = rest@;
                            rest.insert(0, d);
                            proof {
                                assert(rest@.drop_first() =~= rest_pre);
                                lemma_decls_view_drop_first(rest@);
                                assert(decls_view(rest@) =~= seq![decl_view(rest@[0])]
                                    + decls_view(rest_pre));
                            }
                            Ok(rest)
                        }
                        Err(e) => Err(e),
                    }
                }
            }
        }
    }

    /// The walk's step on one declaration: module declarations go to
    /// `visit_item_mod_mut`, qualified references elsewhere are rewritten.
    fn visit_item_mut(&self, item: Decl, fs: &Fs, fuel: u64) -> (r: Result<Decl, BundleError>)
        ensures
            decl_res_view(r) == spec_visit_item(
                decl_view(item),
                path_view(self.base_path@),
                self.parent_name@,
                self.crate_name@,
                fs_view(*fs),
                fuel as nat,
            ),
        decreases fuel as int, declv_size(decl_view(item)), 1int,
    {
        match item {
            Decl::ModStub { name } => self.visit_item_mod_mut(Decl::ModStub { name }, fs, fuel),
            Decl::ModWithBody { name, body } => self.visit_item_mod_mut(
                Decl::ModWithBody { name, body },
                fs,
                fuel,
            ),
            Decl::Other { paths } => {
                let ghost paths_pre = paths@;
                let ps = self.rewrite_paths(paths);
                proof {
                    let pv = Seq::new(paths_pre.len(), |j: int| paths_pre[j]@);
                    assert(Seq::new(ps@.len(), |i: int| ps@[i]@) =~= Seq::new(
                        pv.len(),
                        |i: int| spec_rewrite_path(pv[i], self.crate_name@),
                    ));
                }
                Ok(Decl::Other { paths: ps })
            }
            d => Ok(d),
        }
    }

    /// The walk's step on a module declaration: a stub is resolved and
    /// inlined; an inline body is walked in place.
    fn visit_item_mod_mut(&self, item: Decl, fs: &Fs, fuel: u64) -> (r: Result<Decl, BundleError>)
        requires
            item matches Decl::ModStub { .. } || item matches Decl::ModWithBody { .. },
        ensures
            decl_res_view(r) == spec_visit_item(
                decl_view(item),
                path_view(self.base_path@),
                self.parent_name@,
                self.crate_name@,
                fs_view(*fs),
                fuel as nat,
            ),
        decreases fuel as int, declv_size(decl_view(item)), 0int,
    {
        match item {
            Decl::ModStub { name } => self.expand_mods(name, fs, fuel),
            Decl::ModWithBody { name, body } => {
                match self.visit_items(body, fs, fuel) {
                    Ok(b) => Ok(Decl::ModWithBody { name, body: b }),
                    Err(e) => Err(e),
                }
            }
            d => Ok(d),
        }
    }

    /// Rewrites every qualified reference of an opaque declaration.
    fn rewrite_paths(&self, paths: Vec<crate::model::QualPath>) -> (r: Vec<crate::model::QualPath>)
        ensures
            r@.len() == paths@.len(),
            forall|i: int| 0 <= i < r@.len() ==> r@[i]@ == spec_rewrite_path(
                paths@[i]@,
                self.crate_name@,
            ),
    {
        let ghost orig = paths@;
        let mut paths = paths;
        let mut out: Vec<crate::model::QualPath> = Vec::new();
        while paths.len() > 0
            invariant
                out@.len() + paths@.len() == orig.len(),
                forall|j: int| 0 <= j < paths@.len() ==> paths@[j] == orig[out@.len() + j],
                forall|i: int| 0 <= i < out@.len() ==> out@[i]@ == spec_rewrite_path(
                    orig[i]@,
                    self.crate_name@,
                ),
            decreases paths@.len(),
        {
            let mut p = paths.remove(0);
            self.visit_path_mut(&mut p);
            out.push(p);
        }
        out
    }
}

/// The three places a module named `name` may live, in lookup order:
/// `base/name.rs`, `base/parent/name.rs`, `base/name/mod.rs`.
pub fn module_candidate_paths(base: &Vec<String>, parent: &String, name: &String) -> (r: (
    Vec<String>,
    Vec<String>,
    Vec<String>,
))
    ensures
        path_view(r.0@) == path_view(base@).push(dot_rs(name@)),
        path_view(r.1@) == path_view(base@).push(parent@).push(dot_rs(name@)),
        path_view(r.2@) == path_view(base@).push(name@).push("mod.rs"@),
{
    let file_name = concat_str(name, ".rs");
    let c1 = path_push(base, file_name.clone());
    let dir2 = path_push(base, parent.clone());
    let c2 = path_push(&dir2, file_name);
    let dir3 = path_push(base, name.clone());
    let c3 = path_push(&dir3, mod_rs_name());
    (c1, c2, c3)
}

/// The library root's well-known file name.
fn lib_root_name() -> (s: String)
    ensures
        s@ == "lib.rs"@,
{
    "lib.rs".to_owned()
}

/// The file name of a directory-style module.
fn mod_rs_name() -> (s: String)
    ensures
        s@ == "mod.rs"@,
{
    "mod.rs".to_owned()
}

/// A per-run option of the merge.
#[derive(PartialEq, Eq, Hash, Structural)]
pub enum BundlerConfig {
    /// Prune library modules that no binary import mentions.
    RemoveUnusedModInLib,
}

/// What a whole merge run returns: the allow-list is computed from the binary
/// document's top-level imports when pruning is on, and the binary document
/// is expanded by the full pipeline at top scope.
pub open spec fn spec_bundle(
    bin: Seq<DeclV>,
    fsv: Seq<(Seq<Seq<char>>, Seq<DeclV>)>,
    base: Seq<Seq<char>>,
    unit: Seq<char>,
    remove: bool,
    fuel: nat,
) -> Result<Seq<DeclV>, ErrV> {
    let allow = if remove {
        spec_allow_names(bin)
    } else {
        Set::empty()
    };
    spec_expand_file(bin, base, Seq::empty(), unit, fsv, remove, allow, true, fuel)
}

/// Whether the configuration asks for unused library modules to be removed.
pub fn config_removes_unused(config: &Vec<BundlerConfig>) -> (r: bool)
    ensures
        r == config@.contains(BundlerConfig::RemoveUnusedModInLib),
{
    let mut i: usize = 0;
    while i < config.len()
        invariant
            i <= config@.len(),
            forall|j: int| 0 <= j < i ==> config@[j] != BundlerConfig::RemoveUnusedModInLib,
        decreases config@.len() - i,
    {
        match &config[i] {
            BundlerConfig::RemoveUnusedModInLib => {
                return true;
            }
        }
    }
    false
}

/// Creates a single-document version of a two-unit program: merges the
/// library unit named `crate_name` into the binary document `bin_items`,
/// resolving module stubs against the file table rooted at `base_path`.
/// `max_depth` bounds module-file nesting; a deeper tree fails.
pub fn bundle(
    bin_items: Vec<Decl>,
    fs: &Fs,
    base_path: Vec<String>,
    crate_name: String,
    config: &Vec<BundlerConfig>,
    max_depth: u64,
) -> (r: Result<Vec<Decl>, BundleError>)
    ensures
        res_view(r) == spec_bundle(
            decls_view(bin_items@),
            fs_view(*fs),
            path_view(base_path@),
            crate_name@,
            config@.contains(BundlerConfig::RemoveUnusedModInLib),
            max_depth as nat,
        ),
{
    let remove = config_removes_unused(config);
    let mut expander = Expander::new(base_path, String::new(), crate_name);
    if remove {
        expander.set_pub_mod_allow_list(&bin_items);
        proof {
            assert(strings_set(Seq::<String>::empty()).union(
                spec_allow_names(decls_view(bin_items@)),
            ) =~= spec_allow_names(decls_view(bin_items@)));
        }
    } else {
        proof {
            assert(strings_set(expander.allow_list_mod_in_lib@) =~= Set::<Seq<char>>::empty());
        }
    }
    expander.visit_file_mut(bin_items, fs, true, max_depth)
}

} // verus!
