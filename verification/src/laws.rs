//! What holds of the library across its functions and for all inputs.
use vstd::prelude::*;
use crate::text::{find, lemma_find_from_found, split, split_once, starts_with, trim};
use crate::attr::{attr_noise, attr_segments, attr_value_of, cleaned_attr, lookup_last};
use crate::derive::{
    add_missing, child_derive_names, merged_derives, parent_derives, struct_derive_merge,
    struct_derive_names,
};
use crate::path::{
    crate_dir_probe_of, crate_root, is_crate_local, lib_rs_probe_of, module_file, module_item,
    path_ready, resolved_path, src_dir,
};
use crate::fields::{collect_some, field_attr_of, field_attrs, field_name, FieldSpec};
use crate::grammar::{
    braced_after, ident_end, is_ident_char, item_at, items_from, lemma_item_at_end, skip_ws,
    source_items, ItemView,
};

verus! {

// ----------------------------------------------------------------------------
// Helper lemmas
// ----------------------------------------------------------------------------

/// `split_once` cuts `s` into the part before the separator, the separator
/// and the part after it.
pub proof fn lemma_split_once_parts(s: Seq<char>, sep: Seq<char>)
    ensures
        split_once(s, sep) matches Some((a, b)) ==> s == a + sep + b,
{
    lemma_find_from_found(s, sep, 0);
    if let Some(i) = find(s, sep) {
        assert(s =~= s.subrange(0, i) + s.subrange(i, i + sep.len()) + s.subrange(
            i + sep.len(),
            s.len() as int,
        ));
    }
}

proof fn lemma_add_missing(acc: Seq<Seq<char>>, items: Seq<Seq<char>>)
    ensures
        add_missing(acc, items).len() >= acc.len(),
        add_missing(acc, items).subrange(0, acc.len() as int) == acc,
        forall|x: Seq<char>| items.contains(x) ==> #[trigger] add_missing(acc, items).contains(x),
        (forall|x: Seq<char>| items.contains(x) ==> #[trigger] acc.contains(x)) ==> add_missing(
            acc,
            items,
        ) == acc,
    decreases items.len(),
{
    if items.len() > 0 {
        let next = if acc.contains(items[0]) {
            acc
        } else {
            acc.push(items[0])
        };
        lemma_add_missing(next, items.drop_first());
        let r = add_missing(acc, items);
        assert(r.subrange(0, acc.len() as int) =~= r.subrange(0, next.len() as int).subrange(
            0,
            acc.len() as int,
        ));
        if !acc.contains(items[0]) {
            assert(next[acc.len() as int] == items[0]);
        }
        assert(next.contains(items[0]));
        assert(r.subrange(0, next.len() as int) == next);
        if next.contains(items[0]) {
            let j = choose|j: int| 0 <= j < next.len() && next[j] == items[0];
            assert(r[j] == items[0]);
        }
        assert forall|x: Seq<char>| items.contains(x) implies #[trigger] r.contains(x) by {
            let j = choose|j: int| 0 <= j < items.len() && items[j] == x;
            if j == 0 {
                let k = choose|k: int| 0 <= k < next.len() && next[k] == items[0];
                assert(r.subrange(0, next.len() as int)[k] == x);
            } else {
                assert(items.drop_first()[j - 1] == x);
            }
        }
        if forall|x: Seq<char>| items.contains(x) ==> #[trigger] acc.contains(x) {
            assert(items.contains(items[0]));
            assert(next == acc);
            assert forall|x: Seq<char>| items.drop_first().contains(x) implies #[trigger] acc.contains(
                x,
            ) by {
                let j = choose|j: int| 0 <= j < items.drop_first().len() && items.drop_first()[j]
                    == x;
                assert(items[j + 1] == x);
            }
        }
    }
}

proof fn lemma_add_missing_distinct(acc: Seq<Seq<char>>, items: Seq<Seq<char>>)
    requires
        acc.no_duplicates(),
    ensures
        add_missing(acc, items).no_duplicates(),
        forall|x: Seq<char>|
            #[trigger] add_missing(acc, items).contains(x) ==> acc.contains(x) || items.contains(x),
    decreases items.len(),
{
    if items.len() > 0 {
        let next = if acc.contains(items[0]) {
            acc
        } else {
            acc.push(items[0])
        };
        if !acc.contains(items[0]) {
            assert forall|i: int, j: int|
                0 <= i < next.len() && 0 <= j < next.len() && i != j implies next[i] != next[j] by {
                if i == acc.len() {
                    assert(acc[j] == next[j]);
                } else if j == acc.len() {
                    assert(acc[i] == next[i]);
                }
            }
        }
        lemma_add_missing_distinct(next, items.drop_first());
        assert forall|x: Seq<char>| #[trigger] add_missing(acc, items).contains(x) implies acc.contains(
            x,
        ) || items.contains(x) by {
            if next.contains(x) && !acc.contains(x) {
                let k = choose|k: int| 0 <= k < next.len() && next[k] == x;
                assert(k == acc.len());
                assert(items[0] == x);
            }
            if items.drop_first().contains(x) {
                let k = choose|k: int| 0 <= k < items.drop_first().len() && items.drop_first()[k] == x;
                assert(items[k + 1] == x);
            }
        }
    }
}

proof fn lemma_filter_idempotent(s: Seq<char>)
    ensures
        cleaned_attr(cleaned_attr(s)) == cleaned_attr(s),
        forall|i: int| 0 <= i < cleaned_attr(s).len() ==> !attr_noise(#[trigger] cleaned_attr(s)[i]),
    decreases s.len(),
{
    reveal(Seq::filter);
    if s.len() > 0 {
        lemma_filter_idempotent(s.drop_last());
        let sub = cleaned_attr(s.drop_last());
        if !attr_noise(s.last()) {
            let c = sub.push(s.last());
            assert(c.drop_last() =~= sub);
            assert(cleaned_attr(s) == c);
        }
    }
}

proof fn lemma_lookup_last(segs: Seq<Seq<char>>, key: Seq<char>)
    ensures
        lookup_last(segs, key) matches Some(v) ==> exists|j: int|
            0 <= j < segs.len() && #[trigger] segs[j] == key + "="@ + v,
    decreases segs.len(),
{
    if segs.len() > 0 {
        lemma_split_once_parts(segs.last(), "="@);
        lemma_lookup_last(segs.drop_last(), key);
        if let Some(v) = lookup_last(segs, key) {
            match split_once(segs.last(), "="@) {
                Some((k, w)) => {
                    if k == key {
                        assert(segs[segs.len() - 1] == key + "="@ + v);
                    } else {
                        let j = choose|j: int|
                            0 <= j < segs.drop_last().len() && #[trigger] segs.drop_last()[j] == key
                                + "="@ + v;
                        assert(segs[j] == key + "="@ + v);
                    }
                },
                None => {
                    let j = choose|j: int|
                        0 <= j < segs.drop_last().len() && #[trigger] segs.drop_last()[j] == key
                            + "="@ + v;
                    assert(segs[j] == key + "="@ + v);
                },
            }
        }
    }
}

// ----------------------------------------------------------------------------
// Laws
// ----------------------------------------------------------------------------

/// The derive merge loses nothing: the parent's derive names come first, in
/// their order, and every name that the child asks for is among the merged
/// names.
pub proof fn law_merge_derive_keeps_all(parent: Seq<char>, current: Seq<char>)
    ensures
        merged_derives(parent, current).len() >= parent_derives(parent).len(),
        merged_derives(parent, current).subrange(0, parent_derives(parent).len() as int)
            == parent_derives(parent),
        trim(current).len() > 0 ==> forall|x: Seq<char>|
            split(current, ","@).contains(x) ==> #[trigger] merged_derives(parent, current).contains(x),
{
    lemma_add_missing(parent_derives(parent), split(current, ","@));
    assert(parent_derives(parent).subrange(0, parent_derives(parent).len() as int)
        =~= parent_derives(parent));
}

/// Asking for derives that the parent already has changes nothing: the
/// merged names are the parent's.
pub proof fn law_merge_derive_no_new_names(parent: Seq<char>, current: Seq<char>)
    requires
        forall|x: Seq<char>|
            split(current, ","@).contains(x) ==> #[trigger] parent_derives(parent).contains(x),
    ensures
        merged_derives(parent, current) == parent_derives(parent),
{
    lemma_add_missing(parent_derives(parent), split(current, ","@));
}

/// The merge names each derive once, where the parent names each once: the
/// merged names are exactly the parent's and the child's, without a repeat.
pub proof fn law_merge_derive_distinct(parent: Seq<char>, current: Seq<char>)
    requires
        parent_derives(parent).no_duplicates(),
    ensures
        merged_derives(parent, current).no_duplicates(),
        forall|x: Seq<char>|
            #[trigger] merged_derives(parent, current).contains(x) <==> parent_derives(
                parent,
            ).contains(x) || (trim(current).len() > 0 && split(current, ","@).contains(x)),
{
    lemma_add_missing_distinct(parent_derives(parent), split(current, ","@));
    lemma_add_missing(parent_derives(parent), split(current, ","@));
    if trim(current).len() > 0 {
        let m = merged_derives(parent, current);
        let pd = parent_derives(parent);
        assert forall|x: Seq<char>| pd.contains(x) implies #[trigger] m.contains(x) by {
            let k = choose|k: int| 0 <= k < pd.len() && pd[k] == x;
            assert(m.subrange(0, pd.len() as int)[k] == x);
        }
    }
}

/// The line-based merge keeps every parent derive: each trimmed parent name
/// is among the merged names, whether or not the child names any, so the
/// merge is defined as soon as the parent names a derive.
pub proof fn law_line_based_merge_keeps_parent_derives(derive: Seq<char>, parent: Seq<Seq<char>>)
    ensures
        forall|k: int|
            0 <= k < parent.len() ==> struct_derive_names(derive, parent).contains(
                #[trigger] trim(parent[k]),
            ),
        parent.len() > 0 ==> struct_derive_merge(derive, parent) is Some,
{
    let items = parent.map_values(|x: Seq<char>| trim(x));
    lemma_add_missing(child_derive_names(derive), items);
    assert forall|k: int| 0 <= k < parent.len() implies struct_derive_names(derive, parent).contains(
        #[trigger] trim(parent[k]),
    ) by {
        assert(items[k] == trim(parent[k]));
        assert(items.contains(trim(parent[k])));
    }
    if parent.len() > 0 {
        assert(struct_derive_names(derive, parent).contains(trim(parent[0])));
    }
}

/// Cleaning the attribute text leaves none of the stripped characters, and
/// cleaning twice is cleaning once.
pub proof fn law_clean_attr_idempotent(s: Seq<char>)
    ensures
        cleaned_attr(cleaned_attr(s)) == cleaned_attr(s),
        forall|i: int| 0 <= i < cleaned_attr(s).len() ==> !attr_noise(#[trigger] cleaned_attr(s)[i]),
{
    lemma_filter_idempotent(s);
}

/// The value read for a key was written in the attribute: some segment is
/// exactly `key=value`.
pub proof fn law_attr_value_was_written(attr: Seq<char>, key: Seq<char>)
    ensures
        attr_value_of(attr, key) matches Some(v) ==> attr_segments(attr).contains(key + "="@ + v),
{
    lemma_lookup_last(attr_segments(attr), key);
    if let Some(v) = attr_value_of(attr, key) {
        let j = choose|j: int|
            0 <= j < attr_segments(attr).len() && #[trigger] attr_segments(attr)[j] == key + "="@
                + v;
        assert(attr_segments(attr)[j] == key + "="@ + v);
    }
}

/// Where the probed crate directory exists, the module is looked up inside
/// it: the resolved source directory is that directory with `/src`.
pub proof fn law_found_crate_dir_holds_the_module(attr: Seq<char>, cwd: Seq<char>)
    requires
        !is_crate_local(attr),
    ensures
        crate_dir_probe_of(attr, cwd) == Some(crate_root(attr, cwd, true)),
        src_dir(attr, cwd, true) == crate_dir_probe_of(attr, cwd).unwrap() + "/src"@,
{
}

/// Where the probed `lib.rs` exists, it is the file that the path resolves
/// to.
pub proof fn law_found_lib_rs_is_the_module(attr: Seq<char>, cwd: Seq<char>, crate_dir_found: bool)
    ensures
        lib_rs_probe_of(attr, cwd, crate_dir_found) matches Some(p) ==> module_file(
            attr,
            cwd,
            crate_dir_found,
            true,
        ) == p,
{
}

/// The item name and kind that a path resolves to, joined again by the
/// mark, give back the path's last segment.
pub proof fn law_path_item_round_trip(
    attr: Seq<char>,
    cwd: Seq<char>,
    crate_dir_found: bool,
    lib_found: bool,
    mark: Seq<char>,
)
    requires
        path_ready(attr, cwd, crate_dir_found, mark),
    ensures
        ({
            let (_, name, kind) = resolved_path(attr, cwd, crate_dir_found, lib_found, mark);
            name + mark + kind == module_item(attr)
        }),
{
    lemma_split_once_parts(module_item(attr), mark);
}

proof fn lemma_collect_some(xs: Seq<Option<Seq<char>>>)
    ensures
        collect_some(xs) matches Some(a) ==> a.len() == xs.len() && forall|i: int|
            0 <= i < xs.len() ==> xs[i] == Some(#[trigger] a[i]),
        collect_some(xs) is None ==> exists|i: int| 0 <= i < xs.len() && #[trigger] xs[i] is None,
    decreases xs.len(),
{
    if xs.len() > 0 {
        lemma_collect_some(xs.drop_last());
        if collect_some(xs) is None {
            if collect_some(xs.drop_last()) is None {
                let i = choose|i: int| 0 <= i < xs.drop_last().len() && #[trigger] xs.drop_last()[i] is None;
                assert(xs[i] is None);
            } else {
                assert(xs[xs.len() - 1] is None);
            }
        }
    }
}

proof fn lemma_collect_concat(xs: Seq<Option<Seq<char>>>, ys: Seq<Option<Seq<char>>>)
    ensures
        collect_some(xs + ys) == match (collect_some(xs), collect_some(ys)) {
            (Some(a), Some(b)) => Some(a + b),
            _ => None::<Seq<Seq<char>>>,
        },
    decreases ys.len(),
{
    if ys.len() == 0 {
        assert(xs + ys =~= xs);
        if let Some(a) = collect_some(xs) {
            assert(a + seq![] =~= a);
        }
    } else {
        lemma_collect_concat(xs, ys.drop_last());
        assert((xs + ys).drop_last() =~= xs + ys.drop_last());
        assert((xs + ys).last() == ys.last());
        if let (Some(a), Some(b)) = (collect_some(xs), collect_some(ys.drop_last())) {
            if let Some(y) = ys.last() {
                assert((a + b).push(y) =~= a + b.push(y));
            }
        }
    }
}

/// `get_struct_attr_str` lists one entry per field, in the fields' order,
/// each starting with its field's name and a colon.
pub proof fn law_field_attrs_one_per_field(fs: Seq<FieldSpec>)
    ensures
        field_attrs(fs) matches Some(a) ==> {
            &&& a.len() == fs.len()
            &&& forall|i: int|
                0 <= i < fs.len() ==> starts_with(#[trigger] a[i], field_name(fs[i]) + ":"@)
        },
{
    let xs = fs.map_values(|f: FieldSpec| field_attr_of(f));
    lemma_collect_some(xs);
    if let Some(a) = field_attrs(fs) {
        assert forall|i: int| 0 <= i < fs.len() implies starts_with(
            #[trigger] a[i],
            field_name(fs[i]) + ":"@,
        ) by {
            assert(xs[i] == Some(a[i]));
            let p = field_name(fs[i]) + ":"@;
            assert(a[i].subrange(0, p.len() as int) =~= p);
        }
    }
}

/// The field summaries of a struct whose fields are the child's followed by
/// the parent's are the child's summaries followed by the parent's; there
/// are none where either side has none.
pub proof fn law_field_attrs_concat(child: Seq<FieldSpec>, parent: Seq<FieldSpec>)
    ensures
        field_attrs(child + parent) == match (field_attrs(child), field_attrs(parent)) {
            (Some(a), Some(b)) => Some(a + b),
            _ => None::<Seq<Seq<char>>>,
        },
{
    let f = |f: FieldSpec| field_attr_of(f);
    assert((child + parent).map_values(f) =~= child.map_values(f) + parent.map_values(f));
    lemma_collect_concat(child.map_values(f), parent.map_values(f));
}

/// A nonempty run of identifier characters.
pub open spec fn is_identifier(n: Seq<char>) -> bool {
    n.len() > 0 && forall|i: int| 0 <= i < n.len() ==> is_ident_char(#[trigger] n[i])
}

pub open spec fn item_name(item: ItemView) -> Seq<char> {
    match item {
        ItemView::Struct { name, .. } => name,
        ItemView::Impl { name, .. } => name,
    }
}

proof fn lemma_ident_end_chars(s: Seq<char>, i: int)
    requires
        0 <= i,
    ensures
        forall|j: int| i <= j < ident_end(s, i) ==> is_ident_char(#[trigger] s[j]),
        ident_end(s, i) <= s.len() || ident_end(s, i) == i,
    decreases s.len() - i,
{
    if 0 <= i < s.len() && is_ident_char(s[i]) {
        lemma_ident_end_chars(s, i + 1);
    }
}

proof fn lemma_braced_after_ident(s: Seq<char>, n0: int)
    ensures
        braced_after(s, n0) matches Some((name, _, _)) ==> is_identifier(name),
{
    if n0 < 0 {
        return;
    }
    lemma_ident_end_chars(s, n0);
    crate::grammar::lemma_ident_end(s, n0);
    if let Some((name, _, _)) = braced_after(s, n0) {
        let n1 = ident_end(s, n0);
        assert forall|i: int| 0 <= i < name.len() implies is_ident_char(#[trigger] name[i]) by {
            assert(name[i] == s[n0 + i]);
        }
    }
}

proof fn lemma_items_from_named(s: Seq<char>, i: int)
    ensures
        forall|k: int|
            0 <= k < items_from(s, i).len() ==> is_identifier(
                #[trigger] item_name(items_from(s, i)[k]),
            ),
    decreases s.len() - i,
{
    if 0 <= i < s.len() {
        lemma_item_at_end(s, i);
        match item_at(s, i) {
            Some((item, end)) => {
                lemma_items_from_named(s, end);
                let j = match crate::grammar::derive_end(s, i) {
                    Some(e) => skip_ws(s, e),
                    None => i,
                };
                lemma_braced_after_ident(s, skip_ws(s, i + 4));
                let k = if crate::grammar::keyword_at(s, j, "pub"@) {
                    skip_ws(s, j + 3)
                } else {
                    j
                };
                lemma_braced_after_ident(s, skip_ws(s, k + 6));
                assert(is_identifier(item_name(item)));
                let all = items_from(s, i);
                assert(all == seq![item] + items_from(s, end));
                assert forall|q: int| 0 <= q < items_from(s, i).len() implies is_identifier(
                    #[trigger] item_name(items_from(s, i)[q]),
                ) by {
                    if q > 0 {
                        assert(all[q] == items_from(s, end)[q - 1]);
                    }
                }
            },
            None => {
                lemma_items_from_named(s, i + 1);
                assert(items_from(s, i) == items_from(s, i + 1));
            },
        }
    }
}

/// Every struct and impl block that the scanner reports is named by an
/// identifier.
pub proof fn law_found_items_are_named(s: Seq<char>)
    ensures
        forall|k: int|
            0 <= k < source_items(s).len() ==> is_identifier(#[trigger] item_name(source_items(s)[k])),
{
    lemma_items_from_named(s, 0);
}

} // verus!
