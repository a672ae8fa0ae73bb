use bundler::allowlist::extract_mods_name;
use bundler::debug_fmt::{debug_str_item, debug_str_items};
use bundler::expand::{bundle, BundleError, BundlerConfig, Expander};
use bundler::fsmodel::{Fs, FsFile};
use bundler::imports::{adapt_use_tree, retain_adapted_use_tree};
use bundler::model::{Decl, ImportTree, QualPath};
use bundler::paths::{path_starts_with, rewrite_qual_path};
use bundler::strutil::usize_to_string;

fn s(x: &str) -> String {
    x.to_owned()
}

fn qp(segs: &[&str]) -> QualPath {
    QualPath { segs: segs.iter().map(|x| s(x)).collect() }
}

fn tree_path(name: &str, sub: ImportTree) -> ImportTree {
    ImportTree::Path { name: s(name), sub: Box::new(sub) }
}

fn tree_name(name: &str) -> ImportTree {
    ImportTree::Name { name: s(name) }
}

#[test]
fn test_create() {
    let base_path: Vec<String> = vec![s("tests"), s("testdata"), s("input")];
    let crate_name = s("my_lib");
    let expander = Expander::new(base_path, s(""), crate_name);
    assert_eq!(expander.parent_name, "");
    assert_eq!(expander.crate_name, "my_lib");
    assert!(!expander.remove_unused_mod_in_lib);
}

#[test]
fn rewrite_strips_leading_unit_segment() {
    let mut p = qp(&["my_lib", "internal", "hello_world"]);
    rewrite_qual_path(&mut p, &s("my_lib"));
    assert_eq!(p, qp(&["internal", "hello_world"]));
}

#[test]
fn rewrite_leaves_other_paths_alone() {
    let mut p = qp(&["other", "thing"]);
    rewrite_qual_path(&mut p, &s("my_lib"));
    assert_eq!(p, qp(&["other", "thing"]));
}

#[test]
fn rewrite_is_idempotent_on_ordinary_paths() {
    let mut once = qp(&["my_lib", "a", "b"]);
    rewrite_qual_path(&mut once, &s("my_lib"));
    let mut twice = qp(&["my_lib", "a", "b"]);
    rewrite_qual_path(&mut twice, &s("my_lib"));
    rewrite_qual_path(&mut twice, &s("my_lib"));
    assert_eq!(once, twice);
}

#[test]
fn path_starts_with_checks_head() {
    assert!(path_starts_with(&qp(&["my_lib", "x"]), &s("my_lib")));
    assert!(!path_starts_with(&qp(&["x", "my_lib"]), &s("my_lib")));
}

#[test]
fn adapt_unit_import_at_top_scope_erases_prefix() {
    let t = tree_path("my_lib", tree_path("internal", tree_name("hello_world")));
    let r = adapt_use_tree(t, &s("my_lib"), true);
    assert_eq!(r, Some(tree_path("internal", tree_name("hello_world"))));
}

#[test]
fn adapt_bare_unit_import_at_top_scope_is_dropped() {
    let t = tree_path("my_lib", tree_name("helper"));
    let r = adapt_use_tree(t, &s("my_lib"), true);
    assert_eq!(r, None);
}

#[test]
fn adapt_unit_import_in_nested_scope_uses_crate_token() {
    let t = tree_path("my_lib", tree_path("internal", tree_name("hello_world")));
    let r = adapt_use_tree(t, &s("my_lib"), false);
    assert_eq!(
        r,
        Some(tree_path("crate", tree_path("internal", tree_name("hello_world")))),
    );
}

#[test]
fn adapt_nested_rename_of_member_is_kept() {
    // Renaming a referenced item (not the unit itself) inside a nested module.
    let t = tree_path(
        "my_lib",
        tree_path(
            "internal",
            ImportTree::Rename { name: s("hello_world"), alias: s("hello_lib") },
        ),
    );
    let r = adapt_use_tree(t, &s("my_lib"), false);
    assert_eq!(
        r,
        Some(tree_path(
            "crate",
            tree_path(
                "internal",
                ImportTree::Rename { name: s("hello_world"), alias: s("hello_lib") },
            ),
        )),
    );
}

#[test]
fn adapt_crate_qualified_unit_import_trims_unit_segment() {
    let t = tree_path("crate", tree_path("my_lib", tree_path("a", tree_name("b"))));
    let r = adapt_use_tree(t, &s("my_lib"), true);
    assert_eq!(r, Some(tree_path("crate", tree_path("a", tree_name("b")))));
}

#[test]
fn adapt_group_drops_vacuous_members_in_order() {
    let t = ImportTree::Group {
        members: vec![
            tree_path("a", tree_name("b")),
            tree_path("my_lib", tree_name("z")),
            tree_name("w"),
        ],
    };
    let r = adapt_use_tree(t, &s("my_lib"), true);
    assert_eq!(
        r,
        Some(ImportTree::Group {
            members: vec![tree_path("a", tree_name("b")), tree_name("w")],
        }),
    );
}

#[test]
fn retain_drops_bare_names_globs_and_renames() {
    assert_eq!(retain_adapted_use_tree(tree_name("x")), None);
    assert_eq!(retain_adapted_use_tree(ImportTree::Glob), None);
    assert_eq!(
        retain_adapted_use_tree(ImportTree::Rename { name: s("a"), alias: s("b") }),
        None,
    );
    let kept = tree_path("a", tree_name("b"));
    assert_eq!(retain_adapted_use_tree(tree_path("a", tree_name("b"))), Some(kept));
}

#[test]
fn extract_collects_every_name_in_the_tree() {
    let t = tree_path(
        "my_lib",
        ImportTree::Group { members: vec![tree_name("a"), tree_path("b", tree_name("c"))] },
    );
    let names = extract_mods_name(&t);
    for expected in ["my_lib", "a", "b", "c"] {
        assert!(names.iter().any(|n| n == expected));
    }
    assert!(!names.iter().any(|n| n == "z"));
}

#[test]
fn bundle_inlines_library_and_rewrites_references() {
    // The binary unit references `lib`, imports `lib::internal::hello_world`
    // and calls it; the library root holds `pub mod internal { ... }`.
    let bin = vec![
        Decl::ExternUnit { name: s("lib") },
        Decl::Import {
            tree: tree_path("lib", tree_path("internal", tree_name("hello_world"))),
        },
        Decl::Other { paths: vec![qp(&["lib", "internal", "hello_world"])] },
    ];
    let fs = Fs {
        files: vec![FsFile {
            path: vec![s("lib.rs")],
            doc: vec![Decl::ModWithBody {
                name: s("internal"),
                body: vec![Decl::Other { paths: vec![] }],
            }],
        }],
    };
    let out = bundle(bin, &fs, vec![], s("lib"), &vec![], 16).unwrap();
    assert_eq!(
        out,
        vec![
            Decl::ModWithBody {
                name: s("internal"),
                body: vec![Decl::Other { paths: vec![] }],
            },
            Decl::Import { tree: tree_path("internal", tree_name("hello_world")) },
            Decl::Other { paths: vec![qp(&["internal", "hello_world"])] },
        ],
    );
}

#[test]
fn bundle_rewrites_nested_imports_with_crate_token() {
    // Two imports inside a module file, one a rename of the referenced item:
    // both get the local self-reference token and both are retained.
    let bin = vec![Decl::ModStub { name: s("sub") }];
    let fs = Fs {
        files: vec![FsFile {
            path: vec![s("sub.rs")],
            doc: vec![
                Decl::Import {
                    tree: tree_path(
                        "lib",
                        tree_path(
                            "internal",
                            ImportTree::Rename { name: s("hello_world"), alias: s("hello_lib") },
                        ),
                    ),
                },
                Decl::Import {
                    tree: tree_path("lib", tree_path("internal", tree_name("hello_world"))),
                },
            ],
        }],
    };
    let out = bundle(bin, &fs, vec![], s("lib"), &vec![], 16).unwrap();
    assert_eq!(
        out,
        vec![Decl::ModWithBody {
            name: s("sub"),
            body: vec![
                Decl::Import {
                    tree: tree_path(
                        "crate",
                        tree_path(
                            "internal",
                            ImportTree::Rename { name: s("hello_world"), alias: s("hello_lib") },
                        ),
                    ),
                },
                Decl::Import {
                    tree: tree_path("crate", tree_path("internal", tree_name("hello_world"))),
                },
            ],
        }],
    );
}

#[test]
fn bundle_with_filtering_keeps_only_imported_modules() {
    let bin = vec![
        Decl::ExternUnit { name: s("my_lib") },
        Decl::Import { tree: tree_path("my_lib", tree_name("used_mod")) },
    ];
    let fs = Fs {
        files: vec![FsFile {
            path: vec![s("lib.rs")],
            doc: vec![
                Decl::ModWithBody { name: s("used_mod"), body: vec![] },
                Decl::ModWithBody { name: s("unused_mod"), body: vec![] },
            ],
        }],
    };
    let config = vec![BundlerConfig::RemoveUnusedModInLib];
    let out = bundle(bin, &fs, vec![], s("my_lib"), &config, 16).unwrap();
    // `used_mod` survives; `unused_mod` is pruned; the import of a now-bare
    // name is vacuous and disappears.
    assert_eq!(out, vec![Decl::ModWithBody { name: s("used_mod"), body: vec![] }]);
}

#[test]
fn bundle_without_filtering_keeps_every_module() {
    let bin = vec![Decl::ExternUnit { name: s("my_lib") }];
    let fs = Fs {
        files: vec![FsFile {
            path: vec![s("lib.rs")],
            doc: vec![
                Decl::ModWithBody { name: s("used_mod"), body: vec![] },
                Decl::ModWithBody { name: s("unused_mod"), body: vec![] },
            ],
        }],
    };
    let out = bundle(bin, &fs, vec![], s("my_lib"), &vec![], 16).unwrap();
    assert_eq!(
        out,
        vec![
            Decl::ModWithBody { name: s("used_mod"), body: vec![] },
            Decl::ModWithBody { name: s("unused_mod"), body: vec![] },
        ],
    );
}

#[test]
fn bundle_fails_on_unresolvable_module_stub() {
    let bin = vec![Decl::ModStub { name: s("foo") }];
    let fs = Fs { files: vec![] };
    let err = bundle(bin, &fs, vec![], s("lib"), &vec![], 16).unwrap_err();
    assert_eq!(err, BundleError::ModNotFound { name: s("foo") });
}

#[test]
fn bundle_fails_when_library_root_is_missing() {
    let bin = vec![Decl::ExternUnit { name: s("lib") }];
    let fs = Fs { files: vec![] };
    let err = bundle(bin, &fs, vec![], s("lib"), &vec![], 16).unwrap_err();
    assert_eq!(err, BundleError::LibRootNotFound);
}

#[test]
fn bundle_fails_on_module_cycle_past_the_depth_limit() {
    // `a.rs` declares `mod a;`, which resolves back to `a.rs` itself.
    let bin = vec![Decl::ModStub { name: s("a") }];
    let fs = Fs {
        files: vec![FsFile {
            path: vec![s("a.rs")],
            doc: vec![Decl::ModStub { name: s("a") }],
        }],
    };
    let err = bundle(bin, &fs, vec![], s("lib"), &vec![], 3).unwrap_err();
    assert_eq!(err, BundleError::DepthExceeded);
}

#[test]
fn module_resolution_tries_parent_directory_convention() {
    // `outer.rs` declares `mod inner;`, found as `outer/inner.rs`.
    let bin = vec![Decl::ModStub { name: s("outer") }];
    let fs = Fs {
        files: vec![
            FsFile {
                path: vec![s("outer.rs")],
                doc: vec![Decl::ModStub { name: s("inner") }],
            },
            FsFile {
                path: vec![s("outer"), s("inner.rs")],
                doc: vec![Decl::Other { paths: vec![] }],
            },
        ],
    };
    let out = bundle(bin, &fs, vec![], s("lib"), &vec![], 16).unwrap();
    assert_eq!(
        out,
        vec![Decl::ModWithBody {
            name: s("outer"),
            body: vec![Decl::ModWithBody {
                name: s("inner"),
                body: vec![Decl::Other { paths: vec![] }],
            }],
        }],
    );
}

#[test]
fn module_resolution_tries_mod_rs_convention() {
    // `mod dir;` with only `dir/mod.rs` on disk.
    let bin = vec![Decl::ModStub { name: s("dir") }];
    let fs = Fs {
        files: vec![FsFile {
            path: vec![s("dir"), s("mod.rs")],
            doc: vec![Decl::Other { paths: vec![] }],
        }],
    };
    let out = bundle(bin, &fs, vec![], s("lib"), &vec![], 16).unwrap();
    assert_eq!(
        out,
        vec![Decl::ModWithBody {
            name: s("dir"),
            body: vec![Decl::Other { paths: vec![] }],
        }],
    );
}

#[test]
fn usize_to_string_formats_decimal() {
    assert_eq!(usize_to_string(0), "0");
    assert_eq!(usize_to_string(7), "7");
    assert_eq!(usize_to_string(12345), "12345");
}

#[test]
fn debug_str_item_names_each_shape() {
    assert_eq!(debug_str_item(&Decl::ExternUnit { name: s("lib") }), "extern_crate");
    assert_eq!(
        debug_str_item(&Decl::Import { tree: ImportTree::Name { name: s("x") } }),
        "use",
    );
    assert_eq!(debug_str_item(&Decl::ModStub { name: s("foo") }), "Mod (foo)");
    assert_eq!(debug_str_item(&Decl::Other { paths: vec![] }), "Others");
}

#[test]
fn debug_str_items_lists_length_and_items() {
    let items = vec![
        Decl::Import { tree: ImportTree::Name { name: s("x") } },
        Decl::Other { paths: vec![] },
    ];
    assert_eq!(debug_str_items(&items), "len=2  / use / Others");
}

#[test]
fn adapt_unit_glob_at_top_scope_is_dropped() {
    // `use my_lib::*;` at top scope is redundant once the unit is inlined.
    let t = tree_path("my_lib", ImportTree::Glob);
    assert_eq!(adapt_use_tree(t, &s("my_lib"), true), None);
}

#[test]
fn adapt_group_that_empties_is_dropped_entirely() {
    let t = tree_path(
        "my_lib",
        ImportTree::Group { members: vec![tree_name("a"), tree_name("b")] },
    );
    assert_eq!(adapt_use_tree(t, &s("my_lib"), true), None);
}

#[test]
fn allow_list_holds_every_name_from_nested_groups() {
    let bin = vec![
        Decl::Import {
            tree: tree_path(
                "my_lib",
                ImportTree::Group {
                    members: vec![
                        tree_name("used_mod"),
                        tree_path("deep", tree_name("inner")),
                    ],
                },
            ),
        },
        Decl::Other { paths: vec![] },
    ];
    let mut expander = Expander::new(vec![], s(""), s("my_lib"));
    expander.set_pub_mod_allow_list(&bin);
    assert!(expander.remove_unused_mod_in_lib);
    for name in ["my_lib", "used_mod", "deep", "inner"] {
        assert!(expander.is_allowed(&Decl::ModStub { name: s(name) }));
    }
    assert!(!expander.is_allowed(&Decl::ModStub { name: s("unused_mod") }));
    // Non-module declarations always survive filtering.
    assert!(expander.is_allowed(&Decl::Other { paths: vec![] }));
}
