//! Summaries of a struct's fields: the `name:Type` strings that the generated
//! `get_struct_attr_str` returns, and the `name:None,` initializers of the
//! generated `new_none`.
use vstd::prelude::*;
use crate::text::{
    chars_of, contains, contains_exec, copy_range, find, find_exec, lemma_find_from_found,
    push_all, push_str, rfind, split, split_exec, split_once, split_once_exec, starts_with,
    starts_with_exec, string_of, strings, trim, trim_exec, views,
};
use crate::grammar::is_ident_char;
use crate::tokens::{
    byte_offset, field_views, find_byte, rfind_byte, substring, substring_of, FieldInfo,
};

verus! {

/// A field as the library reads it: name (none for a tuple field), type
/// tokens, and for a path type the path's tokens and its segments'
/// identifiers.
pub type FieldSpec = (Option<Seq<char>>, Seq<char>, Option<(Seq<char>, Seq<Seq<char>>)>);

/// The field's name; empty for a tuple field.
pub open spec fn field_name(f: FieldSpec) -> Seq<char> {
    match f.0 {
        Some(n) => n,
        None => seq![],
    }
}

/// The type that a path type's tokens name, `Option` stripped: for tokens
/// that contain `Option`, the trimmed text between the first `<` and the
/// last `>` (the byte indices of the two used as char indices, as
/// `Substring::substring` takes them); otherwise the trimmed tokens. `None`
/// where the `<` or the `>` is missing.
pub open spec fn option_inner(path: Seq<char>) -> Option<Seq<char>> {
    if contains(path, "Option"@) {
        match (byte_offset(path, find(path, "<"@)), byte_offset(path, rfind(path, ">"@))) {
            (Some(a), Some(b)) => Some(trim(substring_of(path, a + 1, b))),
            _ => None,
        }
    } else {
        Some(trim(path))
    }
}

/// `name:Type` of a field, the type as `option_inner` reads it (empty for a
/// type that is not a path).
pub open spec fn field_attr_of(f: FieldSpec) -> Option<Seq<char>> {
    match f.2 {
        None => Some(field_name(f) + ":"@),
        Some((p, _)) => match option_inner(p) {
            Some(t) => Some(field_name(f) + ":"@ + t),
            None => None,
        },
    }
}

/// `name:Ident` of a field, `Ident` the first segment of a path type (empty
/// for a type that is not a path); `None` for a path without segments.
pub open spec fn first_ident_attr(f: FieldSpec) -> Option<Seq<char>> {
    match f.2 {
        None => Some(field_name(f) + ":"@),
        Some((_, ids)) => if ids.len() > 0 {
            Some(field_name(f) + ":"@ + ids[0])
        } else {
            None
        },
    }
}

/// All the values, in order; `None` where one of them is `None`.
pub open spec fn collect_some(xs: Seq<Option<Seq<char>>>) -> Option<Seq<Seq<char>>>
    decreases xs.len(),
{
    if xs.len() == 0 {
        Some(seq![])
    } else {
        match (collect_some(xs.drop_last()), xs.last()) {
            (Some(a), Some(x)) => Some(a.push(x)),
            _ => None,
        }
    }
}

/// The `name:Type` strings of all fields; `None` where one of them is.
pub open spec fn field_attrs(fs: Seq<FieldSpec>) -> Option<Seq<Seq<char>>> {
    collect_some(fs.map_values(|f: FieldSpec| field_attr_of(f)))
}

/// The `name:Ident` strings of all fields; `None` where one of them is.
pub open spec fn first_idents(fs: Seq<FieldSpec>) -> Option<Seq<Seq<char>>> {
    collect_some(fs.map_values(|f: FieldSpec| first_ident_attr(f)))
}

/// A field's name as written before its `:`, without a leading `pub`
/// visibility (`pub` alone, or with its `( .. )` restriction).
pub open spec fn strip_vis(t: Seq<char>) -> Seq<char> {
    if starts_with(t, "pub"@) && (t.len() == 3 || !is_ident_char(t[3])) {
        let r = trim(t.subrange(3, t.len() as int));
        if r.len() > 0 && r[0] == '(' {
            match find(r, ")"@) {
                Some(j) => trim(r.subrange(j + 1, r.len() as int)),
                None => r,
            }
        } else {
            r
        }
    } else {
        t
    }
}

/// `name:None,` for each comma-separated part that holds a `:`, the name
/// being the trimmed text before the part's first `:` without its `pub`
/// visibility.
pub open spec fn inits_of(parts: Seq<Seq<char>>) -> Seq<char>
    decreases parts.len(),
{
    if parts.len() == 0 {
        seq![]
    } else {
        let p = parts.last();
        inits_of(parts.drop_last()) + if contains(p, ":"@) {
            strip_vis(trim(split_once(p, ":"@).unwrap().0)) + ":None,"@
        } else {
            seq![]
        }
    }
}

/// The initializers for the fields of a printed struct: the text between
/// its first `{` and the first `}` after that, trimmed and read by
/// `inits_of`; `None` where either brace is missing.
pub open spec fn none_inits(text: Seq<char>) -> Option<Seq<char>> {
    match find(text, "{"@) {
        None => None,
        Some(a) => {
            let r = text.subrange(a + 1, text.len() as int);
            match find(r, "}"@) {
                None => None,
                Some(b) => Some(inits_of(split(trim(r.subrange(0, b)), ","@))),
            }
        },
    }
}

/// The type of a field read from its path tokens (see `option_inner`), for
/// tokens that either lack `Option` or hold both a `<` and a `>`.
pub fn option_inner_exec(path: &str) -> (r: String)
    requires
        option_inner(path@) is Some,
    ensures
        option_inner(path@) == Some(r@),
{
    match read_option_inner(path) {
        Some(t) => t,
        None => String::new(),
    }
}

fn read_option_inner(path: &str) -> (r: Option<String>)
    ensures
        match r {
            Some(t) => option_inner(path@) == Some(t@),
            None => option_inner(path@) is None,
        },
{
    let p = chars_of(path);
    let opt = chars_of("Option");
    if contains_exec(p.as_slice(), opt.as_slice()) {
        let a = find_byte(path, "<");
        let b = rfind_byte(path, ">");
        match (a, b) {
            (Some(a), Some(b)) => {
                let inner = substring(path, a + 1, b);
                let ic = chars_of(inner.as_str());
                let t = trim_exec(ic.as_slice());
                Some(string_of(t.as_slice()))
            },
            _ => None,
        }
    } else {
        let t = trim_exec(p.as_slice());
        Some(string_of(t.as_slice()))
    }
}

/// The `name:Type` strings of the fields, in order: the type is the text
/// inside `Option<..>` for a path type that mentions `Option`, the whole
/// path otherwise, trimmed, and empty for a type that is not a path. Every
/// path that mentions `Option` must hold its `<` and its `>`.
pub fn field_attr_strings(fields: &Vec<FieldInfo>) -> (r: Vec<String>)
    requires
        field_attrs(field_views(fields@)) is Some,
    ensures
        field_attrs(field_views(fields@)) == Some(strings(r@)),
{
    match collect_field_attrs(fields) {
        Some(v) => v,
        None => Vec::new(),
    }
}

/// The `name:Type` strings of the fields (see `field_attr_strings`); `None`
/// where a path that mentions `Option` lacks its `<` or its `>`.
pub(crate) fn collect_field_attrs(fields: &Vec<FieldInfo>) -> (r: Option<Vec<String>>)
    ensures
        match r {
            Some(v) => field_attrs(field_views(fields@)) == Some(strings(v@)),
            None => field_attrs(field_views(fields@)) is None,
        },
{
    let ghost xs = field_views(fields@).map_values(|f: FieldSpec| field_attr_of(f));
    let mut out: Vec<String> = Vec::new();
    let mut k: usize = 0;
    while k < fields.len()
        invariant
            k <= fields@.len(),
            xs == field_views(fields@).map_values(|f: FieldSpec| field_attr_of(f)),
            collect_some(xs.take(k as int)) == Some(strings(out@)),
        decreases fields@.len() - k,
    {
        proof {
            assert(xs.take(k + 1).drop_last() =~= xs.take(k as int));
            assert(xs.take(k + 1).last() == xs[k as int]);
        }
        let f = &fields[k];
        let mut s = match &f.name {
            Some(n) => chars_of(n.as_str()),
            None => Vec::new(),
        };
        push_str(&mut s, ":");
        match &f.path {
            None => {},
            Some(p) => {
                match read_option_inner(p.tokens.as_str()) {
                    Some(t) => {
                        push_str(&mut s, t.as_str());
                    },
                    None => {
                        proof {
                            lemma_collect_none(xs, k as int + 1);
                        }
                        return None;
                    },
                }
            },
        }
        assert(xs[k as int] == Some(s@));
        let ghost before = out@;
        let st = string_of(s.as_slice());
        out.push(st);
        assert(strings(out@) =~= strings(before).push(st@));
        k += 1;
    }
    assert(xs.take(fields@.len() as int) =~= xs);
    Some(out)
}

/// Once a prefix has a `None`, no longer prefix collects.
proof fn lemma_collect_none(xs: Seq<Option<Seq<char>>>, k: int)
    requires
        0 <= k <= xs.len(),
        collect_some(xs.take(k)) is None,
    ensures
        collect_some(xs) is None,
    decreases xs.len() - k,
{
    if k < xs.len() {
        assert(xs.take(k + 1).drop_last() =~= xs.take(k));
        lemma_collect_none(xs, k + 1);
    } else {
        assert(xs.take(k) =~= xs);
    }
}

/// The `name:Ident` strings of the fields, `Ident` being the first segment
/// of a path type and empty for other types; every path must have a
/// segment.
pub fn first_ident_strings(fields: &Vec<FieldInfo>) -> (r: Vec<String>)
    requires
        first_idents(field_views(fields@)) is Some,
    ensures
        first_idents(field_views(fields@)) == Some(strings(r@)),
{
    match collect_first_idents(fields) {
        Some(v) => v,
        None => Vec::new(),
    }
}

/// The `name:Ident` strings of the fields (see `first_ident_strings`);
/// `None` where a path has no segment.
pub(crate) fn collect_first_idents(fields: &Vec<FieldInfo>) -> (r: Option<Vec<String>>)
    ensures
        match r {
            Some(v) => first_idents(field_views(fields@)) == Some(strings(v@)),
            None => first_idents(field_views(fields@)) is None,
        },
{
    let ghost xs = field_views(fields@).map_values(|f: FieldSpec| first_ident_attr(f));
    let mut out: Vec<String> = Vec::new();
    let mut k: usize = 0;
    while k < fields.len()
        invariant
            k <= fields@.len(),
            xs == field_views(fields@).map_values(|f: FieldSpec| first_ident_attr(f)),
            collect_some(xs.take(k as int)) == Some(strings(out@)),
        decreases fields@.len() - k,
    {
        proof {
            assert(xs.take(k + 1).drop_last() =~= xs.take(k as int));
            assert(xs.take(k + 1).last() == xs[k as int]);
        }
        let f = &fields[k];
        let mut s = match &f.name {
            Some(n) => chars_of(n.as_str()),
            None => Vec::new(),
        };
        push_str(&mut s, ":");
        match &f.path {
            Some(p) => {
                if p.idents.len() == 0 {
                    proof {
                        lemma_collect_none(xs, k as int + 1);
                    }
                    return None;
                }
                push_str(&mut s, p.idents[0].as_str());
            },
            None => {},
        }
        assert(xs[k as int] == Some(s@));
        let ghost before = out@;
        let st = string_of(s.as_slice());
        out.push(st);
        assert(strings(out@) =~= strings(before).push(st@));
        k += 1;
    }
    assert(xs.take(fields@.len() as int) =~= xs);
    Some(out)
}

/// A name without its leading `pub` visibility (see `strip_vis`).
pub fn strip_vis_exec(t: &[char]) -> (r: Vec<char>)
    ensures
        r@ == strip_vis(t@),
{
    let n = t.len();
    let pub_kw = chars_of("pub");
    proof {
        reveal_strlit("pub");
        reveal_strlit(")");
    }
    let is_ident = n > 3 && (('a' <= t[3] && t[3] <= 'z') || ('A' <= t[3] && t[3] <= 'Z') || (
    '0' <= t[3] && t[3] <= '9') || t[3] == '_');
    if !(starts_with_exec(t, pub_kw.as_slice()) && !is_ident) {
        return copy_range(t, 0, n);
    }
    let rest = copy_range(t, 3, n);
    let r = trim_exec(rest.as_slice());
    if r.len() > 0 && r[0] == '(' {
        let close = chars_of(")");
        match find_exec(r.as_slice(), close.as_slice()) {
            Some(j) => {
                proof {
                    lemma_find_from_found(r@, close@, 0);
                }
                let after = copy_range(r.as_slice(), j + 1, r.len());
                trim_exec(after.as_slice())
            },
            None => r,
        }
    } else {
        r
    }
}

/// The `name:None,` initializers for the fields of a printed struct (see
/// `none_inits`), for a text that holds a `{` and a `}` after it.
pub fn none_initializers(text: &str) -> (r: String)
    requires
        none_inits(text@) is Some,
    ensures
        none_inits(text@) == Some(r@),
{
    match find_none_inits(text) {
        Some(t) => t,
        None => String::new(),
    }
}

/// The `name:None,` initializers (see `none_initializers`); `None` where the
/// text lacks the `{` or the `}` after it.
pub(crate) fn find_none_inits(text: &str) -> (r: Option<String>)
    ensures
        match r {
            Some(t) => none_inits(text@) == Some(t@),
            None => none_inits(text@) is None,
        },
{
    let t = chars_of(text);
    let open = chars_of("{");
    let close = chars_of("}");
    let comma = chars_of(",");
    let colon = chars_of(":");
    let tail = chars_of(":None,");
    proof {
        reveal_strlit("{");
        reveal_strlit(",");
        reveal_strlit(":");
    }
    let a = match find_exec(t.as_slice(), open.as_slice()) {
        Some(a) => a,
        None => return None,
    };
    proof {
        lemma_find_from_found(t@, open@, 0);
    }
    let tn = t.len();
    let r = copy_range(t.as_slice(), a + 1, tn);
    let b = match find_exec(r.as_slice(), close.as_slice()) {
        Some(b) => b,
        None => return None,
    };
    proof {
        lemma_find_from_found(r@, close@, 0);
    }
    let center = copy_range(r.as_slice(), 0, b);
    let trimmed = trim_exec(center.as_slice());
    let parts = split_exec(trimmed.as_slice(), comma.as_slice());
    let ghost ps = views(parts@);
    let mut out: Vec<char> = Vec::new();
    let mut k: usize = 0;
    while k < parts.len()
        invariant
            k <= parts@.len(),
            ps == views(parts@),
            colon@ == ":"@,
            tail@ == ":None,"@,
            colon@.len() > 0,
            out@ == inits_of(ps.take(k as int)),
        decreases parts@.len() - k,
    {
        proof {
            assert(ps.take(k + 1).drop_last() =~= ps.take(k as int));
            assert(ps.take(k + 1).last() == ps[k as int]);
        }
        let p = parts[k].as_slice();
        if contains_exec(p, colon.as_slice()) {
            let (name, _) = split_once_exec(p, colon.as_slice()).unwrap();
            let trimmed_name = trim_exec(name.as_slice());
            let cleaned = strip_vis_exec(trimmed_name.as_slice());
            push_all(&mut out, cleaned.as_slice());
            push_all(&mut out, tail.as_slice());
        }
        k += 1;
    }
    assert(ps.take(parts@.len() as int) =~= ps);
    Some(string_of(out.as_slice()))
}

} // verus!
