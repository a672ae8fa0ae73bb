//! One-line summaries of declarations and declaration sequences, built with
//! an outside string builder.

use vstd::prelude::*;

use crate::model::{decl_view, decls_view, lemma_decls_view, Decl, DeclV};
use crate::strutil::{spec_dec, string_push_str, usize_to_string};

verus! {

#[verifier::external_type_specification]
#[verifier::external_body]
pub struct ExBuilder(simple_string_builder::Builder);

/// The text a builder holds: the concatenation of everything appended to it.
pub uninterp spec fn builder_text(b: simple_string_builder::Builder) -> Seq<char>;

/// Relies on `simple_string_builder::Builder::new`: a fresh builder holds
/// nothing.
#[verifier::external_body]
fn builder_new() -> (b: simple_string_builder::Builder)
    ensures
        builder_text(b) == Seq::<char>::empty(),
{
    simple_string_builder::Builder::new()
}

/// Relies on `simple_string_builder::Builder::append`: the given text is
/// added at the end of what the builder holds.
#[verifier::external_body]
fn builder_append(b: &mut simple_string_builder::Builder, s: &str)
    ensures
        builder_text(*final(b)) == builder_text(*old(b)) + s@,
{
    b.append(s)
}

/// Relies on `simple_string_builder::Builder::try_to_string`: the builder's
/// bytes were appended as UTF-8 text, so decoding succeeds and returns
/// exactly that text.
#[verifier::external_body]
fn builder_string(b: &simple_string_builder::Builder) -> (r: String)
    ensures
        r@ == builder_text(*b),
{
    b.try_to_string().unwrap()
}

/// The one-line summary of a declaration.
pub open spec fn spec_debug_item(d: DeclV) -> Seq<char> {
    match d {
        DeclV::ExternUnit { name: _ } => "extern_crate"@,
        DeclV::Import { tree: _ } => "use"@,
        DeclV::ModStub { name } => "Mod ("@ + name + ")"@,
        DeclV::ModWithBody { name, body: _ } => "Mod ("@ + name + ")"@,
        DeclV::Other { paths: _ } => "Others"@,
    }
}

/// The summaries of the declarations from index `i` on, each preceded by a
/// separator.
pub open spec fn spec_debug_items_from(items: Seq<DeclV>, i: int) -> Seq<char>
    decreases items.len() - i,
{
    if i < 0 || i >= items.len() {
        Seq::empty()
    } else {
        " / "@ + spec_debug_item(items[i]) + spec_debug_items_from(items, i + 1)
    }
}

/// The one-line summary of a declaration sequence: its length, then each
/// declaration's summary.
pub open spec fn spec_debug_items(items: Seq<DeclV>) -> Seq<char> {
    "len="@ + spec_dec(items.len() as nat) + " "@ + spec_debug_items_from(items, 0)
}

/// The one-line summary of one declaration.
pub fn debug_str_item(it: &Decl) -> (r: String)
    ensures
        r@ == spec_debug_item(decl_view(*it)),
{
    match it {
        Decl::ExternUnit { name: _ } => "extern_crate".to_owned(),
        Decl::Import { tree: _ } => "use".to_owned(),
        Decl::ModStub { name } => {
            let mut s = "Mod (".to_owned();
            string_push_str(&mut s, name.as_str());
            string_push_str(&mut s, ")");
            s
        }
        Decl::ModWithBody { name, body: _ } => {
            let mut s = "Mod (".to_owned();
            string_push_str(&mut s, name.as_str());
            string_push_str(&mut s, ")");
            s
        }
        Decl::Other { paths: _ } => "Others".to_owned(),
    }
}

/// The one-line summary of a declaration sequence.
pub fn debug_str_items(items: &Vec<Decl>) -> (r: String)
    ensures
        r@ == spec_debug_items(decls_view(items@)),
{
    let ghost dv = decls_view(items@);
    proof {
        lemma_decls_view(items@);
    }
    let mut builder = builder_new();
    builder_append(&mut builder, "len=");
    let count = usize_to_string(items.len());
    builder_append(&mut builder, count.as_str());
    builder_append(&mut builder, " ");
    let ghost header = "len="@ + spec_dec(items@.len() as nat) + " "@;
    proof {
        assert(builder_text(builder) =~= header);
    }
    let mut i: usize = 0;
    while i < items.len()
        invariant
            i <= items@.len(),
            dv == decls_view(items@),
            dv.len() == items@.len(),
            forall|j: int| 0 <= j < dv.len() ==> dv[j] == decl_view(items@[j]),
            builder_text(builder) + spec_debug_items_from(dv, i as int) == header
                + spec_debug_items_from(dv, 0),
        decreases items@.len() - i,
    {
        let ghost before = builder_text(builder);
        builder_append(&mut builder, " / ");
        let piece = debug_str_item(&items[i]);
        builder_append(&mut builder, piece.as_str());
        proof {
            assert(builder_text(builder) =~= before + (" / "@ + spec_debug_item(dv[i as int])));
            assert(builder_text(builder) + spec_debug_items_from(dv, i as int + 1) =~= before
                + spec_debug_items_from(dv, i as int));
        }
        i += 1;
    }
    proof {
        assert(spec_debug_items_from(dv, i as int) == Seq::<char>::empty());
        assert(builder_text(builder) + Seq::<char>::empty() =~= builder_text(builder));
        assert(spec_debug_items(dv) =~= header + spec_debug_items_from(dv, 0));
    }
    builder_string(&builder)
}

} // verus!
