//! The code that the attribute generates: the child struct with the parent's
//! fields, derives and impl merged in, and the helper functions
//! `get_struct_name`, `get_struct_attr_str` and `new_none`.
use vstd::prelude::*;
use crate::text::{push_str, chars_of, join, join_exec, push_all, string_of, strings, trim, trim_exec, views};
use crate::grammar::{
    is_rust_ident, is_rust_ident_exec, item_views, source_items, ExtendsParser, ItemView,
    SourceItem,
};
use crate::attr::{attr_pairs_ok, attr_value_of, lookup_attr};
use crate::derive::{merge_derive_ok, merged_derive_attr, try_merge_derive};
use crate::fields::{collect_field_attrs, field_attrs, find_none_inits, none_inits, FieldSpec};
use crate::tokens::{
    field_views, item_reading, lexing_of, literal_of, named_field_infos, parse_struct,
    parsing_of, printed_as, string_literal, token_text, DataKind,
};

verus! {

/// Why no code could be generated.
#[derive(Clone, Copy, Debug, PartialEq, Eq, Structural)]
pub enum ExtendsError {
    /// A `&&`-separated segment of the attribute holds no `=`.
    Attribute,
    /// The derive lists cannot be merged (an unclosed parent derive, or no
    /// derive at all).
    Derive,
    /// The child struct's name is not an identifier (no child struct was
    /// found, for one).
    Name,
    /// A piece of source text does not lex into tokens.
    Tokens,
    /// The assembled struct does not parse as a struct.
    StructSyntax,
    /// A field type cannot be summarized: it mentions `Option` without its
    /// `<` or `>`, or is a path without segments.
    FieldType,
    /// The printed struct lacks its braces.
    Braces,
}

pub open spec fn result_view(r: Result<String, ExtendsError>) -> Result<Seq<char>, ExtendsError> {
    match r {
        Ok(s) => Ok(s@),
        Err(e) => Err(e),
    }
}

// ----------------------------------------------------------------------------
// Specification
// ----------------------------------------------------------------------------

/// The parent's derive attribute, trimmed body and trimmed impl body: those
/// of the last struct, and of the last impl block, named `name`; empty where
/// there is none.
pub open spec fn parent_parts(items: Seq<ItemView>, name: Seq<char>) -> (
    Seq<char>,
    Seq<char>,
    Seq<char>,
)
    decreases items.len(),
{
    if items.len() == 0 {
        (seq![], seq![], seq![])
    } else {
        let (d, c, i) = parent_parts(items.drop_last(), name);
        match items.last() {
            ItemView::Struct { derive, name: n, body } => if n == name {
                (derive, trim(body), i)
            } else {
                (d, c, i)
            },
            ItemView::Impl { name: n, body } => if n == name {
                (d, c, trim(body))
            } else {
                (d, c, i)
            },
        }
    }
}

/// The trimmed name and body of the last struct; empty where there is none.
pub open spec fn current_parts(items: Seq<ItemView>) -> (Seq<char>, Seq<char>)
    decreases items.len(),
{
    if items.len() == 0 {
        (seq![], seq![])
    } else {
        match items.last() {
            ItemView::Struct { name, body, .. } => (trim(name), trim(body)),
            _ => current_parts(items.drop_last()),
        }
    }
}

/// `pub struct Name { child fields parent fields }`.
pub open spec fn struct_decl_text(name: Seq<char>, cur: Seq<char>, par: Seq<char>) -> Seq<char> {
    "pub struct "@ + name + " { "@ + cur + " "@ + par + " }"@
}

/// `String::from(<literal>)` for each literal.
pub open spec fn string_from_calls(lits: Seq<Seq<char>>) -> Seq<Seq<char>> {
    lits.map_values(|l: Seq<char>| "String::from("@ + l + ")"@)
}

/// The two getters, `vis` in front of each `fn`: `get_struct_name` returns
/// the string literal `name_lit`, `get_struct_attr_str` the string literals
/// `attr_lits`.
pub open spec fn getters_text(vis: Seq<char>, name_lit: Seq<char>, attr_lits: Seq<Seq<char>>) -> Seq<
    char,
> {
    vis + "fn get_struct_name()->String{ String::from("@ + name_lit + ") } "@ + vis
        + "fn get_struct_attr_str()->Vec<String>{ vec!("@ + join(string_from_calls(attr_lits), ","@)
        + ") }"@
}

/// `pub fn new_none()->Name{ Name { inits } }`.
pub open spec fn new_none_text(name: Seq<char>, inits: Seq<char>) -> Seq<char> {
    "pub fn new_none()->"@ + name + "{ "@ + name + " { "@ + inits + " } }"@
}

/// The generated child: the merged derive, the declaration with the
/// child's fields followed by the parent's, and the impl block with the
/// getters, `new_none` and the parent's impl body.
pub open spec fn child_code(
    derive_t: Seq<char>,
    name_t: Seq<char>,
    cur_t: Seq<char>,
    par_t: Seq<char>,
    getters: Seq<char>,
    new_none: Seq<char>,
    impl_t: Seq<char>,
) -> Seq<char> {
    derive_t + " pub struct "@ + name_t + "{ "@ + cur_t + " "@ + par_t + " } impl "@ + name_t + "{ "@
        + getters + " "@ + new_none + " "@ + impl_t + " }"@
}

/// The child's derive text from the attribute: the `derive` value, or empty.
pub open spec fn child_derives(attr_str: Seq<char>) -> Seq<char> {
    match attr_value_of(attr_str, "derive"@) {
        Some(v) => v,
        None => seq![],
    }
}

/// The parent's derive attribute as found in its file.
pub open spec fn parent_derive_of(parent_source: Seq<char>, black_name: Seq<char>) -> Seq<char> {
    parent_parts(source_items(parent_source), black_name).0
}

/// `v` is what the library reads of a parse of `text`: the `name:Type`
/// string of each named field, in order.
pub open spec fn attrs_reading(text: Seq<char>, v: Seq<Seq<char>>) -> bool {
    exists|name: Seq<char>, kind: DataKind, count: nat, fs: Seq<FieldSpec>|
        #[trigger] item_reading(text, name, kind, count, fs) && field_attrs(fs) == Some(v)
}

/// How reading the fields of `text` fails: the parse fails, or a field's
/// type mentions `Option` without its `<` or `>`.
pub open spec fn attrs_failure(text: Seq<char>, e: ExtendsError) -> bool {
    ||| e == ExtendsError::StructSyntax && parsing_of(text, None)
    ||| e == ExtendsError::FieldType && exists|
        name: Seq<char>,
        kind: DataKind,
        count: nat,
        fs: Seq<FieldSpec>,
    | #[trigger] item_reading(text, name, kind, count, fs) && field_attrs(fs) is None
}

/// `text` prints as `printed`, and the initializers read between the
/// printed braces print as `inits_t`.
pub open spec fn none_fn_from(text: Seq<char>, printed: Seq<char>, inits_t: Seq<char>) -> bool {
    &&& printed_as(text, printed)
    &&& none_inits(printed) matches Some(i) && printed_as(i, inits_t)
}

/// `s` is the `new_none` function named `name` for the struct `text`: every
/// field of a printing of `text` is initialized with `None`.
pub open spec fn new_none_reading(name: Seq<char>, text: Seq<char>, s: Seq<char>) -> bool {
    exists|printed: Seq<char>, inits_t: Seq<char>|
        #[trigger] none_fn_from(text, printed, inits_t) && s == new_none_text(name, inits_t)
}

/// How building `new_none` for `text` fails: `text` does not lex, its
/// printing lacks the braces, or the initializers do not lex.
pub open spec fn new_none_failure(text: Seq<char>, e: ExtendsError) -> bool {
    ||| e == ExtendsError::Tokens && lexing_of(text, None)
    ||| exists|printed: Seq<char>|
        #[trigger] lexing_of(text, Some(printed)) && match none_inits(printed) {
            None => e == ExtendsError::Braces,
            Some(i) => e == ExtendsError::Tokens && lexing_of(i, None),
        }
}

/// `cur_t` and `par_t` are printings of the child's fields `cur` and of the
/// parent's fields `par`.
pub open spec fn printings_of(cur: Seq<char>, par: Seq<char>, cur_t: Seq<char>, par_t: Seq<char>) -> bool {
    printed_as(cur, cur_t) && printed_as(par, par_t)
}

/// `v` is what the library reads of the struct `pub struct name { .. }`
/// that holds a printing of the child's fields `cur` and then one of the
/// parent's fields `par`.
pub open spec fn merged_attrs(name: Seq<char>, cur: Seq<char>, par: Seq<char>, v: Seq<Seq<char>>) -> bool {
    exists|cur_t: Seq<char>, par_t: Seq<char>|
        #[trigger] printings_of(cur, par, cur_t, par_t) && attrs_reading(
            struct_decl_text(name, cur_t, par_t),
            v,
        )
}

/// How reading the fields of that struct fails: `cur` or `par` does not
/// lex, or reading the struct of their printings fails.
pub open spec fn merged_attrs_failure(name: Seq<char>, cur: Seq<char>, par: Seq<char>, e: ExtendsError) -> bool {
    ||| e == ExtendsError::Tokens && (lexing_of(cur, None) || lexing_of(par, None))
    ||| exists|cur_t: Seq<char>, par_t: Seq<char>|
        #[trigger] printings_of(cur, par, cur_t, par_t) && attrs_failure(
            struct_decl_text(name, cur_t, par_t),
            e,
        )
}

/// `s` is the `new_none` function named `name` of the struct that holds a
/// printing of `cur` and then one of `par`.
pub open spec fn merged_new_none(name: Seq<char>, cur: Seq<char>, par: Seq<char>, s: Seq<char>) -> bool {
    exists|cur_t: Seq<char>, par_t: Seq<char>|
        #[trigger] printings_of(cur, par, cur_t, par_t) && new_none_reading(
            name,
            struct_decl_text(name, cur_t, par_t),
            s,
        )
}

/// How building that `new_none` fails: `cur` or `par` does not lex, or
/// building it for the struct of their printings fails.
pub open spec fn merged_new_none_failure(name: Seq<char>, cur: Seq<char>, par: Seq<char>, e: ExtendsError) -> bool {
    ||| e == ExtendsError::Tokens && (lexing_of(cur, None) || lexing_of(par, None))
    ||| exists|cur_t: Seq<char>, par_t: Seq<char>|
        #[trigger] printings_of(cur, par, cur_t, par_t) && new_none_failure(
            struct_decl_text(name, cur_t, par_t),
            e,
        )
}

/// `lits[k]` is a string literal of `values[k]`, for each `k`.
pub open spec fn literals_of(values: Seq<Seq<char>>, lits: Seq<Seq<char>>) -> bool {
    &&& lits.len() == values.len()
    &&& forall|k: int| 0 <= k < lits.len() ==> #[trigger] literal_of(values[k], lits[k])
}

/// The printed pieces of a generated child.
pub struct ChildPieces {
    pub derive: Seq<char>,
    pub name: Seq<char>,
    pub cur: Seq<char>,
    pub par: Seq<char>,
    pub name_lit: Seq<char>,
    pub attrs: Seq<Seq<char>>,
    pub lits: Seq<Seq<char>>,
    pub new_none: Seq<char>,
    pub impl_items: Seq<char>,
}

/// The generated child made of its pieces.
pub open spec fn child_text(p: ChildPieces) -> Seq<char> {
    child_code(
        p.derive,
        p.name,
        p.cur,
        p.par,
        getters_text("pub "@, p.name_lit, p.lits),
        p.new_none,
        p.impl_items,
    )
}

/// The pieces come from the inputs: the merged derive attribute, the
/// child's name and fields, the parent's fields and impl items, each
/// printed; the literal of the child's name; the field summaries of the
/// struct that merges the child's fields and the parent's, and their
/// literals; and that struct's `new_none`.
pub open spec fn child_pieces_from(
    p: ChildPieces,
    parent_source: Seq<char>,
    black_name: Seq<char>,
    attr_str: Seq<char>,
    input: Seq<char>,
) -> bool {
    let (pd, pc, pi) = parent_parts(source_items(parent_source), black_name);
    let (cn, cc) = current_parts(source_items(input));
    &&& printed_as(merged_derive_attr(pd, child_derives(attr_str)), p.derive)
    &&& printed_as(cn, p.name)
    &&& printed_as(cc, p.cur)
    &&& printed_as(pc, p.par)
    &&& printed_as(pi, p.impl_items)
    &&& literal_of(cn, p.name_lit)
    &&& merged_attrs(cn, cc, pc, p.attrs)
    &&& literals_of(p.attrs, p.lits)
    &&& merged_new_none(cn, cc, pc, p.new_none)
}

/// How the outside calls can fail on the child's pieces.
pub open spec fn child_failure(
    parent_source: Seq<char>,
    black_name: Seq<char>,
    attr_str: Seq<char>,
    input: Seq<char>,
    e: ExtendsError,
) -> bool {
    let (pd, pc, pi) = parent_parts(source_items(parent_source), black_name);
    let (cn, cc) = current_parts(source_items(input));
    ||| merged_attrs_failure(cn, cc, pc, e)
    ||| merged_new_none_failure(cn, cc, pc, e)
    ||| e == ExtendsError::Tokens && (lexing_of(cc, None) || lexing_of(pc, None) || lexing_of(
        cn,
        None,
    ) || lexing_of(pi, None) || lexing_of(merged_derive_attr(pd, child_derives(attr_str)), None))
}

/// What `extends_str` returns: an `Attribute` error exactly for a segment
/// without `=`, a `Derive` error exactly where the derive merge is
/// undefined, a `Name` error exactly where the child's name is not an
/// identifier, otherwise either a failure of the outside calls on the
/// pieces or the child made of pieces that come from the inputs.
pub open spec fn extends_result_ok(
    r: Result<Seq<char>, ExtendsError>,
    parent_source: Seq<char>,
    black_name: Seq<char>,
    attr_str: Seq<char>,
    input: Seq<char>,
) -> bool {
    let derive_ok = merge_derive_ok(
        parent_derive_of(parent_source, black_name),
        child_derives(attr_str),
    );
    let name_ok = is_rust_ident(current_parts(source_items(input)).0);
    &&& (r == Err::<Seq<char>, ExtendsError>(ExtendsError::Attribute) <==> !attr_pairs_ok(attr_str))
    &&& (r == Err::<Seq<char>, ExtendsError>(ExtendsError::Derive) <==> attr_pairs_ok(attr_str)
        && !derive_ok)
    &&& (r == Err::<Seq<char>, ExtendsError>(ExtendsError::Name) <==> attr_pairs_ok(attr_str)
        && derive_ok && !name_ok)
    &&& (r matches Err(e) ==> e == ExtendsError::Attribute || e == ExtendsError::Derive || e
        == ExtendsError::Name || child_failure(parent_source, black_name, attr_str, input, e))
    &&& (r matches Ok(out) ==> exists|p: ChildPieces|
        #[trigger] child_pieces_from(p, parent_source, black_name, attr_str, input) && out
            == child_text(p))
}

// ----------------------------------------------------------------------------
// Executable code
// ----------------------------------------------------------------------------

fn parent_parts_exec(items: &Vec<SourceItem>, name: &[char]) -> (r: (Vec<char>, Vec<char>, Vec<char>))
    ensures
        (r.0@, r.1@, r.2@) == parent_parts(item_views(items@), name@),
{
    let ghost iv = item_views(items@);
    let mut d: Vec<char> = Vec::new();
    let mut c: Vec<char> = Vec::new();
    let mut b: Vec<char> = Vec::new();
    let mut k: usize = 0;
    while k < items.len()
        invariant
            k <= items@.len(),
            iv == item_views(items@),
            (d@, c@, b@) == parent_parts(iv.take(k as int), name@),
        decreases items@.len() - k,
    {
        proof {
            assert(iv.take(k + 1).drop_last() =~= iv.take(k as int));
            assert(iv.take(k + 1).last() == iv[k as int]);
        }
        match &items[k] {
            SourceItem::Struct { derive, name: n, body } => {
                let nc = chars_of(n.as_str());
                if crate::text::same_chars(nc.as_slice(), name) {
                    d = chars_of(derive.as_str());
                    let bc = chars_of(body.as_str());
                    c = trim_exec(bc.as_slice());
                }
            },
            SourceItem::Impl { name: n, body } => {
                let nc = chars_of(n.as_str());
                if crate::text::same_chars(nc.as_slice(), name) {
                    let bc = chars_of(body.as_str());
                    b = trim_exec(bc.as_slice());
                }
            },
        }
        k += 1;
    }
    assert(iv.take(items@.len() as int) =~= iv);
    (d, c, b)
}

fn current_parts_exec(items: &Vec<SourceItem>) -> (r: (Vec<char>, Vec<char>))
    ensures
        (r.0@, r.1@) == current_parts(item_views(items@)),
{
    let ghost iv = item_views(items@);
    let mut n: Vec<char> = Vec::new();
    let mut c: Vec<char> = Vec::new();
    let mut k: usize = 0;
    while k < items.len()
        invariant
            k <= items@.len(),
            iv == item_views(items@),
            (n@, c@) == current_parts(iv.take(k as int)),
        decreases items@.len() - k,
    {
        proof {
            assert(iv.take(k + 1).drop_last() =~= iv.take(k as int));
            assert(iv.take(k + 1).last() == iv[k as int]);
        }
        match &items[k] {
            SourceItem::Struct { name: nm, body, .. } => {
                let nc = chars_of(nm.as_str());
                n = trim_exec(nc.as_slice());
                let bc = chars_of(body.as_str());
                c = trim_exec(bc.as_slice());
            },
            SourceItem::Impl { .. } => {},
        }
        k += 1;
    }
    assert(iv.take(items@.len() as int) =~= iv);
    (n, c)
}

fn struct_decl_exec(name: &str, cur: &str, par: &str) -> (r: String)
    ensures
        r@ == struct_decl_text(name@, cur@, par@),
{
    let mut v = chars_of("pub struct ");
    push_str(&mut v, name);
    push_str(&mut v, " { ");
    push_str(&mut v, cur);
    push_str(&mut v, " ");
    push_str(&mut v, par);
    push_str(&mut v, " }");
    string_of(v.as_slice())
}

/// The getters' text from the literals of the name and of the field
/// summaries, `vis` in front of each `fn`.
pub fn getters(vis: &str, name_lit: &str, attr_lits: &Vec<String>) -> (r: String)
    ensures
        r@ == getters_text(vis@, name_lit@, strings(attr_lits@)),
{
    let ghost want = string_from_calls(strings(attr_lits@));
    let mut calls: Vec<Vec<char>> = Vec::new();
    let mut k: usize = 0;
    while k < attr_lits.len()
        invariant
            k <= attr_lits@.len(),
            want == string_from_calls(strings(attr_lits@)),
            views(calls@) == want.take(k as int),
        decreases attr_lits@.len() - k,
    {
        let mut call = chars_of("String::from(");
        push_str(&mut call, attr_lits[k].as_str());
        push_str(&mut call, ")");
        let ghost before = calls@;
        calls.push(call);
        assert(views(calls@) =~= views(before).push(call@));
        assert(want.take(k + 1) =~= want.take(k as int).push(want[k as int]));
        k += 1;
    }
    assert(want.take(attr_lits@.len() as int) =~= want);
    let comma = chars_of(",");
    let list = join_exec(&calls, comma.as_slice());
    let mut v = chars_of(vis);
    push_str(&mut v, "fn get_struct_name()->String{ String::from(");
    push_str(&mut v, name_lit);
    push_str(&mut v, ") } ");
    push_str(&mut v, vis);
    push_str(&mut v, "fn get_struct_attr_str()->Vec<String>{ vec!(");
    push_all(&mut v, list.as_slice());
    push_str(&mut v, ") }");
    string_of(v.as_slice())
}

/// The string literal of each string.
pub(crate) fn literals(items: &Vec<String>) -> (r: Vec<String>)
    ensures
        literals_of(strings(items@), strings(r@)),
{
    let mut out: Vec<String> = Vec::new();
    let mut k: usize = 0;
    while k < items.len()
        invariant
            k <= items@.len(),
            out@.len() == k,
            forall|j: int| 0 <= j < k ==> #[trigger] literal_of(items@[j]@, out@[j]@),
        decreases items@.len() - k,
    {
        out.push(string_literal(items[k].as_str()));
        k += 1;
    }
    out
}

/// `pub fn new_none()->Name{ Name { inits } }`.
pub fn new_none_code(name: &str, inits: &str) -> (r: String)
    ensures
        r@ == new_none_text(name@, inits@),
{
    let mut v = chars_of("pub fn new_none()->");
    push_str(&mut v, name);
    push_str(&mut v, "{ ");
    push_str(&mut v, name);
    push_str(&mut v, " { ");
    push_str(&mut v, inits);
    push_str(&mut v, " } }");
    string_of(v.as_slice())
}

/// Assembles the generated child from its printed pieces (see `child_code`).
pub fn assemble_child(
    derive_t: &str,
    name_t: &str,
    cur_t: &str,
    par_t: &str,
    getters: &str,
    new_none: &str,
    impl_t: &str,
) -> (r: String)
    ensures
        r@ == child_code(derive_t@, name_t@, cur_t@, par_t@, getters@, new_none@, impl_t@),
{
    let mut v = chars_of(derive_t);
    push_str(&mut v, " pub struct ");
    push_str(&mut v, name_t);
    push_str(&mut v, "{ ");
    push_str(&mut v, cur_t);
    push_str(&mut v, " ");
    push_str(&mut v, par_t);
    push_str(&mut v, " } impl ");
    push_str(&mut v, name_t);
    push_str(&mut v, "{ ");
    push_str(&mut v, getters);
    push_str(&mut v, " ");
    push_str(&mut v, new_none);
    push_str(&mut v, " ");
    push_str(&mut v, impl_t);
    push_str(&mut v, " }");
    string_of(v.as_slice())
}

/// The `name:Type` strings of the struct `pub struct name { cur par }` that
/// merges the child's fields `cur` and the parent's `par`: both are lexed
/// and printed, the struct of the printings is parsed by `syn`, and its
/// named fields are summarized as `field_attr_strings` does. A `Tokens`
/// error where `cur` or `par` does not lex, a `StructSyntax` error where the
/// parse fails, a `FieldType` error where a field's `Option` type lacks its
/// brackets.
pub fn read_struct_attr(name: &str, par: &str, cur: &str) -> (r: Result<Vec<String>, ExtendsError>)
    requires
        is_rust_ident(name@),
    ensures
        match r {
            Ok(v) => merged_attrs(name@, cur@, par@, strings(v@)),
            Err(e) => merged_attrs_failure(name@, cur@, par@, e),
        },
{
    let cur_t = match token_text(cur) {
        Some(t) => t,
        None => return Err(ExtendsError::Tokens),
    };
    let par_t = match token_text(par) {
        Some(t) => t,
        None => return Err(ExtendsError::Tokens),
    };
    assert(printings_of(cur@, par@, cur_t@, par_t@));
    let text = struct_decl_exec(name, cur_t.as_str(), par_t.as_str());
    match parse_struct(text.as_str()) {
        None => Err(ExtendsError::StructSyntax),
        Some(p) => {
            let fields = named_field_infos(&p);
            proof {
                assert(item_reading(
                    text@,
                    p.name_view(),
                    p.kind_view(),
                    p.count(),
                    field_views(fields@),
                ));
            }
            match collect_field_attrs(&fields) {
                Some(v) => Ok(v),
                None => Err(ExtendsError::FieldType),
            }
        },
    }
}

/// The `new_none` function of the struct `pub struct name { cur par }` that
/// merges the child's fields `cur` and the parent's `par`: both are lexed
/// and printed, the struct of the printings is printed, and every field it
/// lists is initialized with `None` (see `none_initializers`). A `Tokens`
/// error where a text does not lex, a `Braces` error where the printing
/// lacks its braces.
pub fn get_new_none(name: &str, par: &str, cur: &str) -> (r: Result<String, ExtendsError>)
    ensures
        match r {
            Ok(s) => merged_new_none(name@, cur@, par@, s@),
            Err(e) => merged_new_none_failure(name@, cur@, par@, e),
        },
{
    let cur_t = match token_text(cur) {
        Some(t) => t,
        None => return Err(ExtendsError::Tokens),
    };
    let par_t = match token_text(par) {
        Some(t) => t,
        None => return Err(ExtendsError::Tokens),
    };
    assert(printings_of(cur@, par@, cur_t@, par_t@));
    let text = struct_decl_exec(name, cur_t.as_str(), par_t.as_str());
    match none_fn(text.as_str()) {
        Ok(inits_t) => {
            let s = new_none_code(name, inits_t.as_str());
            assert(new_none_reading(name@, text@, s@));
            Ok(s)
        },
        Err(e) => Err(e),
    }
}

/// The printed `name:None,` initializers for the fields of the struct
/// `text`: `text` is printed, the initializers are read between the
/// printed braces and printed in turn.
pub(crate) fn none_fn(text: &str) -> (r: Result<String, ExtendsError>)
    ensures
        match r {
            Ok(t) => exists|printed: Seq<char>| #[trigger] none_fn_from(text@, printed, t@),
            Err(e) => new_none_failure(text@, e),
        },
{
    let printed = match token_text(text) {
        Some(p) => p,
        None => return Err(ExtendsError::Tokens),
    };
    let inits = match find_none_inits(printed.as_str()) {
        Some(i) => i,
        None => {
            assert(lexing_of(text@, Some(printed@)));
            return Err(ExtendsError::Braces);
        },
    };
    let inits_t = match token_text(inits.as_str()) {
        Some(t) => t,
        None => {
            assert(lexing_of(text@, Some(printed@)));
            return Err(ExtendsError::Tokens);
        },
    };
    assert(printed_as(text@, printed@));
    assert(printed_as(inits@, inits_t@));
    assert(none_fn_from(text@, printed@, inits_t@));
    let r: Result<String, ExtendsError> = Ok(inits_t);
    assert(r matches Ok(t) && t@ == inits_t@);
    r
}

/// Generates the child struct: `input` is the printed child struct,
/// `parent_source` the text of the file that holds the parent, `black_name`
/// the parent's name and `attr_str` the cleaned attribute text. The child
/// keeps its own fields and takes the parent's after them, gets the merged
/// derive attribute and an inherent impl with `get_struct_name`,
/// `get_struct_attr_str`, `new_none` and the parent's impl items (see
/// `extends_result_ok`).
pub fn extends_str(parent_source: &str, black_name: &str, attr_str: &str, input: &str) -> (r:
    Result<String, ExtendsError>)
    ensures
        extends_result_ok(result_view(r), parent_source@, black_name@, attr_str@, input@),
{
    let parent_items = ExtendsParser::parse(parent_source);
    let black = chars_of(black_name);
    let (pd, pc, pi) = parent_parts_exec(&parent_items, black.as_slice());
    let input_items = ExtendsParser::parse(input);
    let (cn, cc) = current_parts_exec(&input_items);
    let a = chars_of(attr_str);
    let key = chars_of("derive");
    let dc = match lookup_attr(a.as_slice(), key.as_slice()) {
        None => return Err(ExtendsError::Attribute),
        Some(Some(v)) => v,
        Some(None) => Vec::new(),
    };
    assert(dc@ == child_derives(attr_str@));
    let derive_rs = match try_merge_derive(pd.as_slice(), dc.as_slice()) {
        None => return Err(ExtendsError::Derive),
        Some(d) => d,
    };
    if !is_rust_ident_exec(cn.as_slice()) {
        return Err(ExtendsError::Name);
    }
    let cc_s = string_of(cc.as_slice());
    let pc_s = string_of(pc.as_slice());
    let cn_s = string_of(cn.as_slice());
    let pi_s = string_of(pi.as_slice());
    let dr_s = string_of(derive_rs.as_slice());
    let attrs = match read_struct_attr(cn_s.as_str(), pc_s.as_str(), cc_s.as_str()) {
        Ok(v) => v,
        Err(e) => return Err(e),
    };
    let new_none = match get_new_none(cn_s.as_str(), pc_s.as_str(), cc_s.as_str()) {
        Ok(v) => v,
        Err(e) => return Err(e),
    };
    let cur_t = match token_text(cc_s.as_str()) {
        Some(t) => t,
        None => return Err(ExtendsError::Tokens),
    };
    let par_t = match token_text(pc_s.as_str()) {
        Some(t) => t,
        None => return Err(ExtendsError::Tokens),
    };
    let name_t = match token_text(cn_s.as_str()) {
        Some(t) => t,
        None => return Err(ExtendsError::Tokens),
    };
    let impl_t = match token_text(pi_s.as_str()) {
        Some(t) => t,
        None => return Err(ExtendsError::Tokens),
    };
    let derive_t = match token_text(dr_s.as_str()) {
        Some(t) => t,
        None => return Err(ExtendsError::Tokens),
    };
    let name_lit = string_literal(cn_s.as_str());
    let lits = literals(&attrs);
    let g = getters("pub ", name_lit.as_str(), &lits);
    let out = assemble_child(
        derive_t.as_str(),
        name_t.as_str(),
        cur_t.as_str(),
        par_t.as_str(),
        g.as_str(),
        new_none.as_str(),
        impl_t.as_str(),
    );
    proof {
        reveal_strlit("pub ");
        let p = ChildPieces {
            derive: derive_t@,
            name: name_t@,
            cur: cur_t@,
            par: par_t@,
            name_lit: name_lit@,
            attrs: strings(attrs@),
            lits: strings(lits@),
            new_none: new_none@,
            impl_items: impl_t@,
        };
        assert(child_pieces_from(p, parent_source@, black_name@, attr_str@, input@));
        assert(out@ == child_text(p));
    }
    Ok(out)
}

} // verus!
