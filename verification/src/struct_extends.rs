//! The line-based variant of the extension: the parent struct is cut out of
//! its file line by line, and the child struct is generated from the
//! child's parsed fields, the parent's field text and the merged derives.
use vstd::prelude::*;
use crate::text::{
    chars_of, contains, contains_exec, copy_range, join, join_exec, matches_at, matches_at_exec,
    push_all, push_str, split, split_exec, string_of, strings, views,
};
use crate::attr::{attr_pairs_ok, lookup_attr};
use crate::derive::{
    derive_list, derive_list_exec, derive_list_ok, merge_struct_derive, struct_derive_merge,
};
use crate::fields::{collect_first_idents, field_name, first_idents, FieldSpec};
use crate::grammar::{is_ident_char, skip_ws, skip_ws_exec};
use crate::tokens::{
    field_views, item_reading, lexing_of, literal_of, named_field_infos, parse_struct,
    parsing_of, printed_as, string_literal, token_text, DataKind, FieldInfo,
};
use crate::extends::{
    child_derives, getters, getters_text, literals, literals_of, new_none_code,
    new_none_failure, new_none_text, none_fn, none_fn_from, result_view, ExtendsError,
};

verus! {

// ----------------------------------------------------------------------------
// Cutting the parent struct out of its file
// ----------------------------------------------------------------------------

/// At `i` the line holds the word `struct`, whitespace, and then exactly
/// the name `block` (no identifier character before `struct` or after the
/// name).
pub open spec fn struct_named_at(line: Seq<char>, block: Seq<char>, i: int) -> bool {
    let j = skip_ws(line, i + 6);
    let e = j + block.len();
    &&& matches_at(line, "struct"@, i)
    &&& (i == 0 || !is_ident_char(line[i - 1]))
    &&& j > i + 6
    &&& matches_at(line, block, j)
    &&& (e >= line.len() || !is_ident_char(line[e]))
}

/// A line that opens the struct named `block`: it declares `struct block`
/// and holds a `{`.
pub open spec fn opens_block(line: Seq<char>, block: Seq<char>) -> bool {
    contains(line, "{"@) && exists|i: int| #[trigger] struct_named_at(line, block, i)
}

fn ident_char_exec(c: char) -> (r: bool)
    ensures
        r == is_ident_char(c),
{
    ('a' <= c && c <= 'z') || ('A' <= c && c <= 'Z') || ('0' <= c && c <= '9') || c == '_'
}

/// Whether the line declares `struct block` (see `struct_named_at`).
fn declares_struct(line: &[char], block: &[char]) -> (r: bool)
    ensures
        r == exists|i: int| #[trigger] struct_named_at(line@, block@, i),
{
    let n = line.len();
    let kw = chars_of("struct");
    proof {
        reveal_strlit("struct");
    }
    let mut i: usize = 0;
    while i < n
        invariant
            n == line@.len(),
            kw@ == "struct"@,
            kw@.len() == 6,
            i <= n,
            forall|k: int| 0 <= k < i ==> !struct_named_at(line@, block@, k),
        decreases n - i,
    {
        if 6 <= n - i && matches_at_exec(line, kw.as_slice(), i) && (i == 0 || !ident_char_exec(
            line[i - 1],
        )) {
            let j = skip_ws_exec(line, i + 6);
            if j > i + 6 && block.len() <= n - j && matches_at_exec(line, block, j) {
                let e = j + block.len();
                if e >= n || !ident_char_exec(line[e]) {
                    assert(struct_named_at(line@, block@, i as int));
                    return true;
                }
            }
        }
        i += 1;
    }
    assert forall|k: int| !struct_named_at(line@, block@, k) by {
        if k >= n {
            assert(!matches_at(line@, "struct"@, k));
        }
    }
    false
}

/// After the first `k` lines: the last row that opened the struct (0 when
/// none did), whether the struct is still being read, and the rows read.
/// Reading starts at an opening row and stops after the first row that
/// holds a `}`.
pub open spec fn scan_state(lines: Seq<Seq<char>>, block: Seq<char>, k: int) -> (int, bool, Seq<int>)
    decreases k,
{
    if k <= 0 {
        (0, false, seq![])
    } else {
        let (first, reading, rows) = scan_state(lines, block, k - 1);
        let line = lines[k - 1];
        let opens = opens_block(line, block);
        let first2 = if opens {
            k - 1
        } else {
            first
        };
        if reading || opens {
            (first2, !contains(line, "}"@), rows.push(k - 1))
        } else {
            (first2, false, rows)
        }
    }
}

/// The rows read, without the first and the last.
pub open spec fn inner_rows(rows: Seq<int>) -> Seq<int> {
    if rows.len() >= 2 {
        rows.subrange(1, rows.len() - 1)
    } else {
        seq![]
    }
}

/// The parent struct's field text (the inner rows read, joined without
/// separator) and the derive names on the line above its opening row;
/// `None` where no row after the first opens it, or where that derive line
/// has `#[derive(` without a `(..)` after it.
pub open spec fn struct_block(text: Seq<char>, block: Seq<char>) -> Option<
    (Seq<char>, Seq<Seq<char>>),
> {
    let lines = split(text, "\n"@);
    let (first, _, rows) = scan_state(lines, block, lines.len() as int);
    let content = join(inner_rows(rows).map_values(|r: int| lines[r]), seq![]);
    if first == 0 {
        None
    } else {
        let dl = lines[first - 1];
        if contains(dl, "#[derive("@) {
            if derive_list_ok(dl) {
                Some((content, derive_list(dl)))
            } else {
                None
            }
        } else {
            Some((content, seq![]))
        }
    }
}

proof fn lemma_scan_state_bounds(lines: Seq<Seq<char>>, block: Seq<char>, k: int)
    requires
        0 <= k,
    ensures
        0 <= scan_state(lines, block, k).0 && (k == 0 || scan_state(lines, block, k).0 < k),
        forall|j: int|
            0 <= j < scan_state(lines, block, k).2.len() ==> 0 <= #[trigger] scan_state(
                lines,
                block,
                k,
            ).2[j] < k,
    decreases k,
{
    if k > 0 {
        lemma_scan_state_bounds(lines, block, k - 1);
    }
}

/// Cuts the struct named `block_name` out of the source `text`, line by
/// line: the field text between its opening line and the line that closes
/// it, joined without line breaks, and the untrimmed derive names on the
/// line above the opening line. A line after the first must open the
/// struct, and a `#[derive(` on the line above it must be closed.
pub fn scan_struct_block(text: &str, block_name: &str) -> (r: (String, Vec<String>))
    requires
        struct_block(text@, block_name@) is Some,
    ensures
        struct_block(text@, block_name@) == Some((r.0@, strings(r.1@))),
{
    match find_struct_block(text, block_name) {
        Some(r) => r,
        None => (String::new(), Vec::new()),
    }
}

/// Whether `scan_struct_block` can cut the struct named `block_name` out of
/// `text`.
pub fn struct_block_found(text: &str, block_name: &str) -> (r: bool)
    ensures
        r == struct_block(text@, block_name@) is Some,
{
    match find_struct_block(text, block_name) {
        Some(_) => true,
        None => false,
    }
}

/// The struct cut out of `text` (see `scan_struct_block`); `None` where no
/// line after the first opens it, or where that derive line is not closed.
fn find_struct_block(text: &str, block_name: &str) -> (r: Option<(String, Vec<String>)>)
    ensures
        match r {
            Some((c, d)) => struct_block(text@, block_name@) == Some((c@, strings(d@))),
            None => struct_block(text@, block_name@) is None,
        },
{
    let t = chars_of(text);
    let block = chars_of(block_name);
    let nl = chars_of("\n");
    let open = chars_of("{");
    let close = chars_of("}");
    proof {
        reveal_strlit("\n");
    }
    let lines = split_exec(t.as_slice(), nl.as_slice());
    let ghost ls = views(lines@);
    let n = lines.len();
    let mut first: usize = 0;
    let mut reading = false;
    let mut rows: Vec<usize> = Vec::new();
    let mut k: usize = 0;
    while k < n
        invariant
            n == lines@.len(),
            ls == views(lines@),
            k <= n,
            open@ == "{"@,
            close@ == "}"@,
            scan_state(ls, block@, k as int) == (first as int, reading, rows@.map_values(
                |r: usize| r as int,
            )),
        decreases n - k,
    {
        let line = lines[k].as_slice();
        let opens = contains_exec(line, open.as_slice()) && declares_struct(line, block.as_slice());
        if opens {
            first = k;
        }
        if reading || opens {
            reading = !contains_exec(line, close.as_slice());
            let ghost before = rows@;
            rows.push(k);
            assert(rows@.map_values(|r: usize| r as int) =~= before.map_values(|r: usize| r as int).push(
                k as int,
            ));
        } else {
            reading = false;
        }
        k += 1;
    }
    proof {
        lemma_scan_state_bounds(ls, block@, n as int);
    }
    let ghost rs = rows@.map_values(|r: usize| r as int);
    let ghost want = inner_rows(rs).map_values(|r: int| ls[r]);
    let mut picked: Vec<Vec<char>> = Vec::new();
    if rows.len() >= 2 {
        let mut j: usize = 1;
        while j < rows.len() - 1
            invariant
                rows@.len() >= 2,
                1 <= j <= rows@.len() - 1,
                n == lines@.len(),
                ls == views(lines@),
                rs == rows@.map_values(|r: usize| r as int),
                want == inner_rows(rs).map_values(|r: int| ls[r]),
                forall|i: int| 0 <= i < rs.len() ==> 0 <= #[trigger] rs[i] < n,
                views(picked@) == want.take(j - 1),
            decreases rows@.len() - j,
        {
            let r = rows[j];
            assert(rs[j as int] == r as int);
            let copy = copy_range(lines[r].as_slice(), 0, lines[r].len());
            let ghost before = picked@;
            picked.push(copy);
            assert(views(picked@) =~= views(before).push(copy@));
            assert(copy@ =~= ls[r as int]);
            assert(want.take(j as int) =~= want.take(j - 1).push(want[j - 1]));
            j += 1;
        }
        assert(want.take(rows@.len() - 2) =~= want);
    } else {
        assert(want =~= seq![]);
        assert(views(picked@) =~= want);
    }
    let empty: Vec<char> = Vec::new();
    let content = join_exec(&picked, empty.as_slice());
    assert(empty@ =~= seq![]);
    if first == 0 {
        return None;
    }
    let dl = lines[first - 1].as_slice();
    let marker = chars_of("#[derive(");
    let derives: Vec<Vec<char>> = if contains_exec(dl, marker.as_slice()) {
        match derive_list_exec(dl, false) {
            Some(v) => v,
            None => return None,
        }
    } else {
        Vec::new()
    };
    let mut out: Vec<String> = Vec::new();
    let mut i: usize = 0;
    while i < derives.len()
        invariant
            i <= derives@.len(),
            strings(out@) == views(derives@).take(i as int),
        decreases derives@.len() - i,
    {
        let s = string_of(derives[i].as_slice());
        let ghost before = out@;
        out.push(s);
        assert(strings(out@) =~= strings(before).push(s@));
        assert(views(derives@).take(i + 1) =~= views(derives@).take(i as int).push(
            views(derives@)[i as int],
        ));
        i += 1;
    }
    assert(views(derives@).take(derives@.len() as int) =~= views(derives@));
    assert(views(derives@) =~= if contains(ls[first - 1], "#[derive("@) {
        derive_list(ls[first - 1])
    } else {
        seq![]
    });
    Some((string_of(content.as_slice()), out))
}

// ----------------------------------------------------------------------------
// Generating the child struct
// ----------------------------------------------------------------------------

/// `pub name:Type,` for each field, joined by spaces.
pub open spec fn field_decls(fs: Seq<FieldSpec>) -> Seq<char> {
    join(fs.map_values(|f: FieldSpec| "pub "@ + field_name(f) + ":"@ + f.1 + ","@), " "@)
}

/// `#[derive(..)]` of the merged derive text; empty for an empty text.
pub open spec fn derive_attr_text(merged: Seq<char>) -> Seq<char> {
    if merged.len() > 0 {
        "#[derive("@ + merged + ")]"@
    } else {
        seq![]
    }
}

/// The declaration of the generated child: derive, `struct Name`, the
/// child's fields and then the parent's field text.
pub open spec fn struct_decl_code(derive_t: Seq<char>, name: Seq<char>, decls: Seq<char>, par_t: Seq<
    char,
>) -> Seq<char> {
    derive_t + " struct "@ + name + " { "@ + decls + " "@ + par_t + " }"@
}

/// The generated child: its declaration and an impl block with the getters
/// and `new_none`.
pub open spec fn struct_child_code(decl: Seq<char>, name: Seq<char>, getters: Seq<char>, new_none: Seq<
    char,
>) -> Seq<char> {
    decl + " impl "@ + name + "{ "@ + getters + " "@ + new_none + " }"@
}

/// `name { decls par }`: the struct's fields as a struct expression.
pub open spec fn model_text(name: Seq<char>, decls: Seq<char>, par: Seq<char>) -> Seq<char> {
    name + " { "@ + decls + " "@ + par + " }"@
}

/// The printed pieces of a child of the line-based variant.
pub struct StructPieces {
    pub name: Seq<char>,
    pub kind: DataKind,
    pub count: nat,
    pub fields: Seq<FieldSpec>,
    pub derive: Seq<char>,
    pub par: Seq<char>,
    pub printed: Seq<char>,
    pub inits: Seq<char>,
    pub clone_name: Seq<char>,
    pub clone_kind: DataKind,
    pub clone_count: nat,
    pub clone_fields: Seq<FieldSpec>,
    pub attrs: Seq<Seq<char>>,
    pub name_lit: Seq<char>,
    pub lits: Seq<Seq<char>>,
}

/// The declaration of the child made of its pieces.
pub open spec fn struct_decl_of(p: StructPieces) -> Seq<char> {
    struct_decl_code(p.derive, p.name, field_decls(p.fields), p.par)
}

/// The generated child made of its pieces.
pub open spec fn struct_child_text(p: StructPieces) -> Seq<char> {
    struct_child_code(
        struct_decl_of(p),
        p.name,
        getters_text(""@, p.name_lit, p.lits),
        new_none_text(p.name, p.inits),
    )
}

/// The first pieces come from the inputs: the printed derive attribute of
/// the merged derive names, the child's name and fields as a parse of
/// `input` reads them, and the printed parent field text.
pub open spec fn struct_front(
    p: StructPieces,
    attr_str: Seq<char>,
    input: Seq<char>,
    parent_content: Seq<char>,
    parent_derives: Seq<Seq<char>>,
) -> bool {
    &&& struct_derive_merge(child_derives(attr_str), parent_derives) matches Some(m)
        && printed_as(derive_attr_text(m), p.derive)
    &&& item_reading(input, p.name, p.kind, p.count, p.fields)
    &&& printed_as(parent_content, p.par)
}

/// All pieces come from the inputs: the first pieces, the initializers of
/// the printed struct expression with the child's and the parent's fields,
/// the `name:Ident` summaries of a parse of the generated declaration, and
/// the string literals of the name and of the summaries.
pub open spec fn struct_pieces_from(
    p: StructPieces,
    attr_str: Seq<char>,
    input: Seq<char>,
    parent_content: Seq<char>,
    parent_derives: Seq<Seq<char>>,
) -> bool {
    &&& struct_front(p, attr_str, input, parent_content, parent_derives)
    &&& none_fn_from(model_text(p.name, field_decls(p.fields), p.par), p.printed, p.inits)
    &&& item_reading(struct_decl_of(p), p.clone_name, p.clone_kind, p.clone_count, p.clone_fields)
    &&& first_idents(p.clone_fields) == Some(p.attrs)
    &&& literal_of(p.name, p.name_lit)
    &&& literals_of(p.attrs, p.lits)
}

/// How the outside calls can fail: `input` does not parse, the parent's
/// field text or the derive attribute does not lex, or, past the first
/// pieces, building `new_none` fails, the generated declaration does not
/// parse or one of its fields is a path without segments.
pub open spec fn struct_failure(
    attr_str: Seq<char>,
    input: Seq<char>,
    parent_content: Seq<char>,
    parent_derives: Seq<Seq<char>>,
    e: ExtendsError,
) -> bool {
    ||| e == ExtendsError::StructSyntax && parsing_of(input, None)
    ||| e == ExtendsError::Tokens && lexing_of(parent_content, None)
    ||| e == ExtendsError::Tokens && (struct_derive_merge(child_derives(attr_str), parent_derives)
        matches Some(m) && lexing_of(derive_attr_text(m), None))
    ||| exists|p: StructPieces|
        #[trigger] struct_front(p, attr_str, input, parent_content, parent_derives) && {
            ||| new_none_failure(model_text(p.name, field_decls(p.fields), p.par), e)
            ||| e == ExtendsError::StructSyntax && parsing_of(struct_decl_of(p), None)
            ||| e == ExtendsError::FieldType && item_reading(
                struct_decl_of(p),
                p.clone_name,
                p.clone_kind,
                p.clone_count,
                p.clone_fields,
            ) && first_idents(p.clone_fields) is None
        }
}

/// What `struct_extends` returns: an `Attribute` error exactly for a
/// segment without `=`, a `Derive` error exactly where no derive name is
/// left, otherwise either a failure of the outside calls or the child made
/// of pieces that come from the inputs.
pub open spec fn struct_extends_result_ok(
    r: Result<Seq<char>, ExtendsError>,
    attr_str: Seq<char>,
    input: Seq<char>,
    parent_content: Seq<char>,
    parent_derives: Seq<Seq<char>>,
) -> bool {
    &&& (r == Err::<Seq<char>, ExtendsError>(ExtendsError::Attribute) <==> !attr_pairs_ok(attr_str))
    &&& (r == Err::<Seq<char>, ExtendsError>(ExtendsError::Derive) <==> attr_pairs_ok(attr_str)
        && struct_derive_merge(child_derives(attr_str), parent_derives) is None)
    &&& (r matches Err(e) ==> e == ExtendsError::Attribute || e == ExtendsError::Derive
        || struct_failure(attr_str, input, parent_content, parent_derives, e))
    &&& (r matches Ok(out) ==> exists|p: StructPieces|
        #[trigger] struct_pieces_from(p, attr_str, input, parent_content, parent_derives) && out
            == struct_child_text(p))
}

fn field_decls_exec(fields: &Vec<FieldInfo>) -> (r: Vec<char>)
    ensures
        r@ == field_decls(field_views(fields@)),
{
    let ghost want = field_views(fields@).map_values(
        |f: FieldSpec| "pub "@ + field_name(f) + ":"@ + f.1 + ","@,
    );
    let mut decls: Vec<Vec<char>> = Vec::new();
    let mut k: usize = 0;
    while k < fields.len()
        invariant
            k <= fields@.len(),
            want == field_views(fields@).map_values(
                |f: FieldSpec| "pub "@ + field_name(f) + ":"@ + f.1 + ","@,
            ),
            views(decls@) == want.take(k as int),
        decreases fields@.len() - k,
    {
        let mut d = chars_of("pub ");
        match &fields[k].name {
            Some(n) => push_str(&mut d, n.as_str()),
            None => {},
        }
        push_str(&mut d, ":");
        push_str(&mut d, fields[k].ty.as_str());
        push_str(&mut d, ",");
        let ghost before = decls@;
        decls.push(d);
        assert(views(decls@) =~= views(before).push(d@));
        assert(want.take(k + 1) =~= want.take(k as int).push(want[k as int]));
        k += 1;
    }
    assert(want.take(fields@.len() as int) =~= want);
    let space = chars_of(" ");
    join_exec(&decls, space.as_slice())
}

/// The declaration of the generated child (see `struct_decl_code`).
pub fn struct_decl(derive_t: &str, name: &str, decls: &str, par_t: &str) -> (r: String)
    ensures
        r@ == struct_decl_code(derive_t@, name@, decls@, par_t@),
{
    let mut v = chars_of(derive_t);
    push_str(&mut v, " struct ");
    push_str(&mut v, name);
    push_str(&mut v, " { ");
    push_str(&mut v, decls);
    push_str(&mut v, " ");
    push_str(&mut v, par_t);
    push_str(&mut v, " }");
    string_of(v.as_slice())
}

/// The generated child from its declaration, getters and `new_none` (see
/// `struct_child_code`).
pub fn assemble_struct_child(decl: &str, name: &str, getters: &str, new_none: &str) -> (r: String)
    ensures
        r@ == struct_child_code(decl@, name@, getters@, new_none@),
{
    let mut v = chars_of(decl);
    push_str(&mut v, " impl ");
    push_str(&mut v, name);
    push_str(&mut v, "{ ");
    push_str(&mut v, getters);
    push_str(&mut v, " ");
    push_str(&mut v, new_none);
    push_str(&mut v, " }");
    string_of(v.as_slice())
}

/// Generates the child struct of the line-based variant: `attr_str` is the
/// cleaned attribute text, `input` the printed child struct, and
/// `parent_content` and `parent_derives` what `scan_struct_block` cut out of
/// the parent's file. The child's named fields become `pub`, the parent's
/// field text follows them, the derive names are merged, and an impl with
/// `get_struct_name`, `get_struct_attr_str` and `new_none` is added (see
/// `struct_extends_result_ok`).
pub fn struct_extends(
    attr_str: &str,
    input: &str,
    parent_content: &str,
    parent_derives: &Vec<String>,
) -> (r: Result<String, ExtendsError>)
    ensures
        struct_extends_result_ok(
            result_view(r),
            attr_str@,
            input@,
            parent_content@,
            strings(parent_derives@),
        ),
{
    let a = chars_of(attr_str);
    let key = chars_of("derive");
    let derive = match lookup_attr(a.as_slice(), key.as_slice()) {
        None => return Err(ExtendsError::Attribute),
        Some(Some(v)) => v,
        Some(None) => Vec::new(),
    };
    assert(derive@ == child_derives(attr_str@));
    let mut pds: Vec<Vec<char>> = Vec::new();
    let mut k: usize = 0;
    while k < parent_derives.len()
        invariant
            k <= parent_derives@.len(),
            views(pds@) == strings(parent_derives@).take(k as int),
        decreases parent_derives@.len() - k,
    {
        let c = chars_of(parent_derives[k].as_str());
        let ghost before = pds@;
        pds.push(c);
        assert(views(pds@) =~= views(before).push(c@));
        assert(strings(parent_derives@).take(k + 1) =~= strings(parent_derives@).take(k as int).push(
            strings(parent_derives@)[k as int],
        ));
        k += 1;
    }
    assert(strings(parent_derives@).take(parent_derives@.len() as int) =~= strings(
        parent_derives@,
    ));
    let merged = match merge_struct_derive(derive.as_slice(), &pds) {
        None => return Err(ExtendsError::Derive),
        Some(m) => m,
    };
    let parsed = match parse_struct(input) {
        None => return Err(ExtendsError::StructSyntax),
        Some(p) => p,
    };
    let name = parsed.name();
    let fields = named_field_infos(&parsed);
    let mut dattr: Vec<char> = Vec::new();
    if merged.len() > 0 {
        dattr = chars_of("#[derive(");
        push_all(&mut dattr, merged.as_slice());
        push_str(&mut dattr, ")]");
    }
    assert(dattr@ == derive_attr_text(merged@));
    let dattr_s = string_of(dattr.as_slice());
    let par_t = match token_text(parent_content) {
        None => return Err(ExtendsError::Tokens),
        Some(t) => t,
    };
    let derive_t = match token_text(dattr_s.as_str()) {
        None => return Err(ExtendsError::Tokens),
        Some(t) => t,
    };
    let decls_v = field_decls_exec(&fields);
    let decls = string_of(decls_v.as_slice());
    let ghost front = StructPieces {
        name: name@,
        kind: parsed.kind_view(),
        count: parsed.count(),
        fields: field_views(fields@),
        derive: derive_t@,
        par: par_t@,
        printed: seq![],
        inits: seq![],
        clone_name: seq![],
        clone_kind: DataKind::Named,
        clone_count: 0,
        clone_fields: seq![],
        attrs: seq![],
        name_lit: seq![],
        lits: seq![],
    };
    assert(struct_front(front, attr_str@, input@, parent_content@, strings(parent_derives@)));
    let mut model = chars_of(name);
    push_str(&mut model, " { ");
    push_str(&mut model, decls.as_str());
    push_str(&mut model, " ");
    push_str(&mut model, par_t.as_str());
    push_str(&mut model, " }");
    let model_s = string_of(model.as_slice());
    assert(model_s@ == model_text(name@, field_decls(field_views(fields@)), par_t@));
    let inits_t = match none_fn(model_s.as_str()) {
        Err(e) => return Err(e),
        Ok(t) => t,
    };
    let ghost printed = choose|printed: Seq<char>| #[trigger] none_fn_from(model_s@, printed, inits_t@);
    let decl = struct_decl(derive_t.as_str(), name, decls.as_str(), par_t.as_str());
    assert(decl@ == struct_decl_of(front));
    let clone = match parse_struct(decl.as_str()) {
        None => return Err(ExtendsError::StructSyntax),
        Some(c) => c,
    };
    let clone_fields = named_field_infos(&clone);
    let ghost mid = StructPieces {
        clone_name: clone.name_view(),
        clone_kind: clone.kind_view(),
        clone_count: clone.count(),
        clone_fields: field_views(clone_fields@),
        ..front
    };
    assert(struct_front(mid, attr_str@, input@, parent_content@, strings(parent_derives@)));
    assert(item_reading(decl@, mid.clone_name, mid.clone_kind, mid.clone_count, mid.clone_fields));
    let attrs = match collect_first_idents(&clone_fields) {
        None => return Err(ExtendsError::FieldType),
        Some(a) => a,
    };
    let name_lit = string_literal(name);
    let lits = literals(&attrs);
    let g = getters("", name_lit.as_str(), &lits);
    let nn = new_none_code(name, inits_t.as_str());
    let out = assemble_struct_child(decl.as_str(), name, g.as_str(), nn.as_str());
    proof {
        reveal_strlit("");
        assert(""@ =~= Seq::<char>::empty());
        let p = StructPieces {
            printed: printed,
            inits: inits_t@,
            attrs: strings(attrs@),
            name_lit: name_lit@,
            lits: strings(lits@),
            ..mid
        };
        assert(struct_pieces_from(p, attr_str@, input@, parent_content@, strings(parent_derives@)));
        assert(out@ == struct_child_text(p));
    }
    Ok(out)
}

} // verus!
