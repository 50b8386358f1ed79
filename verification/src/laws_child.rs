//! What holds of the generated children, whatever the outside token and
//! syntax calls return.
use vstd::prelude::*;
use crate::grammar::{source_items, ItemView};
use crate::derive::{merged_derive_attr, struct_derive_merge};
use crate::tokens::{item_reading, printed_as};
use crate::extends::{
    child_code, child_derives, child_pieces_from, current_parts, extends_result_ok, getters_text,
    parent_parts, ChildPieces, ExtendsError,
};
use crate::struct_extends::{
    derive_attr_text, field_decls, struct_child_code, struct_decl_code, struct_extends_result_ok, struct_pieces_from,
    StructPieces,
};
use crate::laws::{item_name, law_line_based_merge_keeps_parent_derives};
use crate::grammar::is_rust_ident;

verus! {

/// The generated child lists a printing of its own fields and then a
/// printing of the parent's fields, those of the struct named exactly
/// `black_name`; its impl block ends with a printing of the items of the
/// parent's impl block named exactly `black_name`.
pub proof fn law_child_takes_parent_fields_and_impl(
    parent_source: Seq<char>,
    black_name: Seq<char>,
    attr_str: Seq<char>,
    input: Seq<char>,
    out: Seq<char>,
)
    requires
        extends_result_ok(Ok(out), parent_source, black_name, attr_str, input),
    ensures
        exists|p: ChildPieces|
            {
                &&& printed_as(current_parts(source_items(input)).1, p.cur)
                &&& printed_as(parent_parts(source_items(parent_source), black_name).1, p.par)
                &&& printed_as(parent_parts(source_items(parent_source), black_name).2, p.impl_items)
                &&& out == #[trigger] child_code(
                    p.derive,
                    p.name,
                    p.cur,
                    p.par,
                    getters_text("pub "@, p.name_lit, p.lits),
                    p.new_none,
                    p.impl_items,
                )
            },
{
    let p = choose|p: ChildPieces|
        #[trigger] child_pieces_from(p, parent_source, black_name, attr_str, input) && out
            == crate::extends::child_text(p);
    assert(out == child_code(
        p.derive,
        p.name,
        p.cur,
        p.par,
        getters_text("pub "@, p.name_lit, p.lits),
        p.new_none,
        p.impl_items,
    ));
}

/// Where no struct and no impl block is named `name`, the parent gives no
/// derive, no fields and no impl items.
proof fn lemma_parent_parts_missing(items: Seq<ItemView>, name: Seq<char>)
    requires
        forall|k: int| 0 <= k < items.len() ==> item_name(#[trigger] items[k]) != name,
    ensures
        parent_parts(items, name) == (Seq::<char>::empty(), Seq::<char>::empty(), Seq::<
            char,
        >::empty()),
    decreases items.len(),
{
    if items.len() > 0 {
        assert forall|k: int| 0 <= k < items.drop_last().len() implies item_name(
            #[trigger] items.drop_last()[k],
        ) != name by {
            assert(items.drop_last()[k] == items[k]);
        }
        lemma_parent_parts_missing(items.drop_last(), name);
        assert(item_name(items[items.len() - 1]) != name);
    }
}

/// Where the parent's file holds no struct and no impl block named
/// `black_name`, the generated child has the child's fields only, an impl
/// block with the generated functions only, and the child's derives alone.
pub proof fn law_missing_parent_gives_child_fields_only(
    parent_source: Seq<char>,
    black_name: Seq<char>,
    attr_str: Seq<char>,
    input: Seq<char>,
    out: Seq<char>,
)
    requires
        extends_result_ok(Ok(out), parent_source, black_name, attr_str, input),
        forall|k: int|
            0 <= k < source_items(parent_source).len() ==> item_name(
                #[trigger] source_items(parent_source)[k],
            ) != black_name,
    ensures
        exists|p: ChildPieces|
            {
                &&& printed_as(current_parts(source_items(input)).1, p.cur)
                &&& printed_as(merged_derive_attr(seq![], child_derives(attr_str)), p.derive)
                &&& out == #[trigger] child_code(
                    p.derive,
                    p.name,
                    p.cur,
                    seq![],
                    getters_text("pub "@, p.name_lit, p.lits),
                    p.new_none,
                    seq![],
                )
            },
{
    lemma_parent_parts_missing(source_items(parent_source), black_name);
    let p = choose|p: ChildPieces|
        #[trigger] child_pieces_from(p, parent_source, black_name, attr_str, input) && out
            == crate::extends::child_text(p);
    assert(p.par =~= seq![]);
    assert(p.impl_items =~= seq![]);
    assert(out == child_code(
        p.derive,
        p.name,
        p.cur,
        seq![],
        getters_text("pub "@, p.name_lit, p.lits),
        p.new_none,
        seq![],
    ));
}

/// The child of the line-based variant declares the struct under the name
/// that a parse of `input` gives, with that parse's fields made `pub`,
/// followed by a printing of the parent's field text, and derives a
/// printing of the merged derive names.
pub proof fn law_line_based_child_takes_parent_fields(
    attr_str: Seq<char>,
    input: Seq<char>,
    parent_content: Seq<char>,
    parent_derives: Seq<Seq<char>>,
    out: Seq<char>,
)
    requires
        struct_extends_result_ok(Ok(out), attr_str, input, parent_content, parent_derives),
    ensures
        exists|p: StructPieces|
            {
                &&& item_reading(input, p.name, p.kind, p.count, p.fields)
                &&& printed_as(parent_content, p.par)
                &&& struct_derive_merge(child_derives(attr_str), parent_derives) matches Some(m)
                    && printed_as(derive_attr_text(m), p.derive)
                &&& out == struct_child_code(
                    #[trigger] struct_decl_code(p.derive, p.name, field_decls(p.fields), p.par),
                    p.name,
                    getters_text(""@, p.name_lit, p.lits),
                    crate::extends::new_none_text(p.name, p.inits),
                )
            },
{
    let p = choose|p: StructPieces|
        #[trigger] struct_pieces_from(p, attr_str, input, parent_content, parent_derives) && out
            == crate::struct_extends::struct_child_text(p);
    assert(struct_decl_code(p.derive, p.name, field_decls(p.fields), p.par)
        == crate::struct_extends::struct_decl_of(p));
}

/// Every ASCII identifier is accepted as the child's name: where the
/// child's struct is named by a letter or `_` followed by letters, digits
/// and `_`, `extends_str` never answers with a `Name` error.
pub proof fn law_identifier_child_is_named(
    r: Result<Seq<char>, ExtendsError>,
    parent_source: Seq<char>,
    black_name: Seq<char>,
    attr_str: Seq<char>,
    input: Seq<char>,
    n: Seq<char>,
)
    requires
        extends_result_ok(r, parent_source, black_name, attr_str, input),
        n == current_parts(source_items(input)).0,
        n.len() > 0,
        ('a' <= n[0] && n[0] <= 'z') || ('A' <= n[0] && n[0] <= 'Z') || n[0] == '_',
        forall|k: int|
            0 <= k < n.len() ==> ('a' <= #[trigger] n[k] && n[k] <= 'z') || ('A' <= n[k] && n[k]
                <= 'Z') || ('0' <= n[k] && n[k] <= '9') || n[k] == '_',
    ensures
        r != Err::<Seq<char>, ExtendsError>(ExtendsError::Name),
{
    assert(is_rust_ident(n));
}

/// The parent's derives keep the line-based merge defined: where the parent
/// names a derive and the attribute is well formed, `struct_extends` never
/// answers with a `Derive` error, whether or not the child names a derive.
pub proof fn law_parent_derives_prevent_derive_error(
    r: Result<Seq<char>, ExtendsError>,
    attr_str: Seq<char>,
    input: Seq<char>,
    parent_content: Seq<char>,
    parent_derives: Seq<Seq<char>>,
)
    requires
        struct_extends_result_ok(r, attr_str, input, parent_content, parent_derives),
        parent_derives.len() > 0,
    ensures
        r != Err::<Seq<char>, ExtendsError>(ExtendsError::Derive),
{
    law_line_based_merge_keeps_parent_derives(child_derives(attr_str), parent_derives);
}

} // verus!
