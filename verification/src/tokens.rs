//! The calls into the token and syntax crates (`proc-macro2`, `syn`,
//! `quote`) and into `substring` and std's byte-indexed search, each behind
//! one trusted function.
//!
//! What `proc-macro2` lexes and prints depends on more than the text: inside
//! a macro expansion it uses the compiler's lexer and printer, elsewhere its
//! own. So the token and syntax calls are stated as relations between the
//! text handed to them and what comes back (`lexing_of`, `literal_of`,
//! `parsing_of`, `field_reading`), which fix the input of each call and
//! claim no single outcome.
use vstd::prelude::*;
use quote::ToTokens;
use std::str::FromStr;
use substring::Substring;
use crate::text::{find, opt_int, rfind, strings};
use crate::fields::FieldSpec;

verus! {

// ----------------------------------------------------------------------------
// Token text
// ----------------------------------------------------------------------------

/// The view of an optional string.
pub open spec fn opt_view(o: Option<String>) -> Option<Seq<char>> {
    match o {
        Some(s) => Some(s@),
        None => None,
    }
}

/// `out` is an outcome of lexing `src` with `proc_macro2` and printing the
/// tokens: `Some` of the printed text, or `None` where the lexer refuses
/// `src`. A relation, not a function: inside a macro expansion the
/// compiler's lexer and printer are used, elsewhere `proc_macro2`'s own, so
/// one text may have more than one outcome.
pub uninterp spec fn lexing_of(src: Seq<char>, out: Option<Seq<char>>) -> bool;

/// `out` is a printing of the tokens of `src`; the empty text has no
/// tokens and prints as the empty text.
pub open spec fn printed_as(src: Seq<char>, out: Seq<char>) -> bool {
    &&& lexing_of(src, Some(out))
    &&& src.len() == 0 ==> out.len() == 0
}

/// Lexes `s` with `proc_macro2::TokenStream::from_str` and prints the
/// result with its `Display`: an outcome of `lexing_of` for `s`. Stated
/// besides: the empty text lexes to no tokens, which print as nothing.
#[verifier::external_body]
pub(crate) fn token_text(s: &str) -> (r: Option<String>)
    ensures
        lexing_of(s@, opt_view(r)),
        s@.len() == 0 ==> opt_view(r) == Some(Seq::<char>::empty()),
{
    proc_macro2::TokenStream::from_str(s).ok().map(|t| t.to_string())
}

/// `lit` is a printing of a string literal token whose value is `value`
/// (the escaping is the printer's, see `lexing_of`).
pub uninterp spec fn literal_of(value: Seq<char>, lit: Seq<char>) -> bool;

/// The printed `proc_macro2::Literal::string(s)`, a string literal token
/// whose value is `s`.
#[verifier::external_body]
pub(crate) fn string_literal(s: &str) -> (r: String)
    ensures
        literal_of(s@, r@),
{
    proc_macro2::Literal::string(s).to_string()
}

// ----------------------------------------------------------------------------
// Struct syntax
// ----------------------------------------------------------------------------

#[verifier::external_type_specification]
#[verifier::external_body]
pub struct ExField(syn::Field);

/// The kind of item that a `syn::DeriveInput` holds.
#[derive(Clone, Copy, Debug, PartialEq, Eq, Structural)]
pub enum DataKind {
    /// A struct with named fields.
    Named,
    /// A tuple struct.
    Unnamed,
    /// A unit struct.
    Unit,
    Enum,
    Union,
}

/// `out` is an outcome of parsing `src` with
/// `syn::parse_str::<syn::DeriveInput>`: the item's printed name, its kind
/// and the number of fields it lists (the named fields of a struct or
/// union, the fields of a tuple struct, none for a unit struct or an enum),
/// or `None` where the parse fails. A relation, as `lexing_of` is.
pub uninterp spec fn parsing_of(src: Seq<char>, out: Option<(Seq<char>, DataKind, nat)>) -> bool;

/// `field` is how the field at `index` reads in a parse of `src`: its
/// printed name (none for a tuple field), its printed type and, for a path
/// type, the printed path and each segment's identifier.
pub uninterp spec fn field_reading(
    src: Seq<char>,
    index: int,
    field: (Option<Seq<char>>, Seq<char>, Option<(Seq<char>, Seq<Seq<char>>)>),
) -> bool;

/// A parsed item: the text it was parsed from, its name, its kind and its
/// fields. Only `parse_struct` makes one.
pub struct ParsedStruct {
    source: String,
    name: String,
    kind: DataKind,
    fields: Vec<syn::Field>,
}

impl ParsedStruct {
    /// The text the item was parsed from.
    pub closed spec fn source_view(&self) -> Seq<char> {
        self.source@
    }

    /// The item's printed name.
    pub closed spec fn name_view(&self) -> Seq<char> {
        self.name@
    }

    pub closed spec fn kind_view(&self) -> DataKind {
        self.kind
    }

    /// The number of fields the item lists.
    pub closed spec fn count(&self) -> nat {
        self.fields@.len()
    }

    pub fn name(&self) -> (r: &str)
        ensures
            r@ == self.name_view(),
    {
        self.name.as_str()
    }

    pub fn kind(&self) -> (r: DataKind)
        ensures
            r == self.kind_view(),
    {
        self.kind
    }

    pub fn field_count(&self) -> (r: usize)
        ensures
            r == self.count(),
    {
        self.fields.len()
    }
}

/// The printed segments of a path type and the identifier of each segment.
pub struct PathInfo {
    pub tokens: String,
    pub idents: Vec<String>,
}

/// What the library reads of one field: its name (none for a tuple field),
/// the printed tokens of its type and, for a path type, the path's printed
/// segments and their identifiers.
pub struct FieldInfo {
    pub name: Option<String>,
    pub ty: String,
    pub path: Option<PathInfo>,
}

pub open spec fn field_view(f: FieldInfo) -> FieldSpec {
    (
        match f.name {
            Some(n) => Some(n@),
            None => None,
        },
        f.ty@,
        match f.path {
            Some(p) => Some((p.tokens@, strings(p.idents@))),
            None => None,
        },
    )
}

pub open spec fn field_views(v: Seq<FieldInfo>) -> Seq<FieldSpec> {
    Seq::new(v.len(), |i: int| field_view(v[i]))
}

/// The view of a parse's outcome.
pub open spec fn parsed_view(r: Option<ParsedStruct>) -> Option<(Seq<char>, DataKind, nat)> {
    match r {
        Some(p) => Some((p.name_view(), p.kind_view(), p.count())),
        None => None,
    }
}

/// Parses `src` with `syn::parse_str::<syn::DeriveInput>`: an outcome of
/// `parsing_of` for `src`. The item keeps `src` as its source. Stated
/// besides: a unit struct and an enum come without fields.
#[verifier::external_body]
pub(crate) fn parse_struct(src: &str) -> (r: Option<ParsedStruct>)
    ensures
        parsing_of(src@, parsed_view(r)),
        r matches Some(p) ==> p.source_view() == src@,
        r matches Some(p) ==> (p.kind_view() == DataKind::Unit || p.kind_view() == DataKind::Enum
            ==> p.count() == 0),
{
    let d = syn::parse_str::<syn::DeriveInput>(src).ok()?;
    let (kind, fields) = match d.data {
        syn::Data::Struct(s) => match s.fields {
            syn::Fields::Named(f) => (DataKind::Named, f.named.into_iter().collect()),
            syn::Fields::Unnamed(f) => (DataKind::Unnamed, f.unnamed.into_iter().collect()),
            syn::Fields::Unit => (DataKind::Unit, Vec::new()),
        },
        syn::Data::Enum(_) => (DataKind::Enum, Vec::new()),
        syn::Data::Union(u) => (DataKind::Union, u.fields.named.into_iter().collect()),
    };
    Some(ParsedStruct { source: src.to_string(), name: d.ident.to_string(), kind, fields })
}

/// Reads the field at `k` of `p`, a `syn::Field`: its identifier printed,
/// its type's tokens printed and, for a `syn::Type::Path`, the printed
/// path segments and each segment's identifier; as `field_reading` relates
/// them to the text `p` was parsed from.
#[verifier::external_body]
pub(crate) fn field_info(p: &ParsedStruct, k: usize) -> (r: FieldInfo)
    requires
        k < p.count(),
    ensures
        field_reading(p.source_view(), k as int, field_view(r)),
{
    let f = &p.fields[k];
    FieldInfo {
        name: f.ident.as_ref().map(|i| i.to_string()),
        ty: f.ty.to_token_stream().to_string(),
        path: match &f.ty {
            syn::Type::Path(t) => Some(PathInfo {
                tokens: t.path.segments.to_token_stream().to_string(),
                idents: t.path.segments.iter().map(|s| s.ident.to_string()).collect(),
            }),
            _ => None,
        },
    }
}

/// A reading of `src` as an item: a parse of it gives the name `name`, the
/// kind `kind` and `count` fields, and `fs` is what the library reads of
/// them: every field of a struct with named fields, in order, and none for
/// any other item.
pub open spec fn item_reading(
    src: Seq<char>,
    name: Seq<char>,
    kind: DataKind,
    count: nat,
    fs: Seq<FieldSpec>,
) -> bool {
    &&& parsing_of(src, Some((name, kind, count)))
    &&& fs.len() == if kind == DataKind::Named {
        count
    } else {
        0
    }
    &&& forall|k: int| 0 <= k < fs.len() ==> #[trigger] field_reading(src, k, fs[k])
}

/// What the library reads of the fields that `parsed` holds: all of them,
/// in order, for a struct with named fields; none for any other item.
pub fn named_field_infos(parsed: &ParsedStruct) -> (r: Vec<FieldInfo>)
    ensures
        field_views(r@).len() == if parsed.kind_view() == DataKind::Named {
            parsed.count()
        } else {
            0
        },
        forall|k: int|
            0 <= k < r@.len() ==> #[trigger] field_reading(
                parsed.source_view(),
                k,
                field_views(r@)[k],
            ),
{
    let mut out: Vec<FieldInfo> = Vec::new();
    if parsed.kind() != DataKind::Named {
        return out;
    }
    let n = parsed.field_count();
    let mut k: usize = 0;
    while k < n
        invariant
            n == parsed.count(),
            k <= n,
            out@.len() == k,
            forall|j: int|
                0 <= j < k ==> #[trigger] field_reading(parsed.source_view(), j, field_view(out@[j])),
        decreases n - k,
    {
        out.push(field_info(parsed, k));
        k += 1;
    }
    out
}

// ----------------------------------------------------------------------------
// Byte-indexed search and char-indexed substrings
// ----------------------------------------------------------------------------

/// The number of bytes of `c` in UTF-8.
pub open spec fn utf8_width(c: char) -> nat {
    let u = c as u32;
    if u < 0x80 {
        1
    } else if u < 0x800 {
        2
    } else if u < 0x10000 {
        3
    } else {
        4
    }
}

/// The number of bytes of `s` in UTF-8.
pub open spec fn utf8_len(s: Seq<char>) -> nat
    decreases s.len(),
{
    if s.len() == 0 {
        0
    } else {
        utf8_len(s.drop_last()) + utf8_width(s.last())
    }
}

/// The byte offset of the char index `o`.
pub open spec fn byte_offset(s: Seq<char>, o: Option<int>) -> Option<int> {
    match o {
        Some(i) => Some(utf8_len(s.subrange(0, i)) as int),
        None => None,
    }
}

/// `str::find`: the byte index of the first match of `pat` in `s`. The
/// contract states that index as the UTF-8 length of the text before the
/// first match, and that it lies below `isize::MAX` (the bound on a
/// `str`'s length).
#[verifier::external_body]
pub(crate) fn find_byte(s: &str, pat: &str) -> (r: Option<usize>)
    ensures
        opt_int(r) == byte_offset(s@, find(s@, pat@)),
        r matches Some(i) ==> i < isize::MAX,
{
    s.find(pat)
}

/// `str::rfind`: the byte index of the last match of `pat` in `s`, stated
/// as for `find_byte`.
#[verifier::external_body]
pub(crate) fn rfind_byte(s: &str, pat: &str) -> (r: Option<usize>)
    ensures
        opt_int(r) == byte_offset(s@, rfind(s@, pat@)),
        r matches Some(i) ==> i < isize::MAX,
{
    s.rfind(pat)
}

/// What `Substring::substring(s, start, end)` returns: the chars from index
/// `start` to index `end`, each index cut at the length of `s`; empty when
/// `end <= start`.
pub open spec fn substring_of(s: Seq<char>, start: int, end: int) -> Seq<char> {
    if end <= start {
        seq![]
    } else {
        let n = s.len() as int;
        let a = if start < n {
            start
        } else {
            n
        };
        let b = if end < n {
            end
        } else {
            n
        };
        s.subrange(a, b)
    }
}

/// `substring::Substring::substring`: the chars of `s` from char index
/// `start` to char index `end`, as `substring_of` states.
#[verifier::external_body]
pub(crate) fn substring(s: &str, start: usize, end: usize) -> (r: String)
    ensures
        r@ == substring_of(s@, start as int, end as int),
{
    s.substring(start, end).to_string()
}

} // verus!
