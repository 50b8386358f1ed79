//! Derive lists: reading the names out of a `#[derive(..)]` attribute and
//! merging the parent's derives with those that the child asks for.
use vstd::prelude::*;
use crate::text::{
    chars_of, contains, contains_exec, copy_range, find, find_exec, join, join_exec,
    lemma_find_from_found, push_all, same_chars, split,
    split_exec, string_of, trim, trim_exec, views,
};

verus! {

/// The comma-separated names between the first `(` of `attr` and the first
/// `)` after it, untrimmed.
pub open spec fn derive_list(attr: Seq<char>) -> Seq<Seq<char>> {
    let s1 = attr.subrange(find(attr, "("@).unwrap() + 1, attr.len() as int);
    let rs = s1.subrange(0, find(s1, ")"@).unwrap());
    split(rs, ","@)
}

/// `attr` has a `(` and, after it, a `)`: `derive_list` is defined.
pub open spec fn derive_list_ok(attr: Seq<char>) -> bool {
    &&& find(attr, "("@) is Some
    &&& find(attr.subrange(find(attr, "("@).unwrap() + 1, attr.len() as int), ")"@) is Some
}

/// The derives that a parent's attribute text names, trimmed; none when the
/// text holds no `#[derive(`.
pub open spec fn parent_derives(parent: Seq<char>) -> Seq<Seq<char>> {
    if contains(parent, "#[derive("@) {
        derive_list(parent).map_values(|x: Seq<char>| trim(x))
    } else {
        seq![]
    }
}

/// `items` added one after another to `acc`, each only if `acc` does not
/// hold it yet.
pub open spec fn add_missing(acc: Seq<Seq<char>>, items: Seq<Seq<char>>) -> Seq<Seq<char>>
    decreases items.len(),
{
    if items.len() == 0 {
        acc
    } else {
        let next = if acc.contains(items[0]) {
            acc
        } else {
            acc.push(items[0])
        };
        add_missing(next, items.drop_first())
    }
}

/// The merged derive names: the parent's, then each comma-separated name of
/// `current` that is not among them yet; only the parent's when `current`
/// is blank.
pub open spec fn merged_derives(parent: Seq<char>, current: Seq<char>) -> Seq<Seq<char>> {
    if trim(current).len() == 0 {
        parent_derives(parent)
    } else {
        add_missing(parent_derives(parent), split(current, ","@))
    }
}

/// The inputs on which the merge is defined: a parent `#[derive(` has its
/// `)`, and the merged list is not empty.
pub open spec fn merge_derive_ok(parent: Seq<char>, current: Seq<char>) -> bool {
    &&& contains(parent, "#[derive("@) ==> derive_list_ok(parent)
    &&& merged_derives(parent, current).len() > 0
}

/// The attribute that the merge produces.
pub open spec fn merged_derive_attr(parent: Seq<char>, current: Seq<char>) -> Seq<char> {
    "#[derive("@ + join(merged_derives(parent, current), ","@) + ")]"@
}

/// The child's derive names: the comma-separated names of its `derive`
/// argument, trimmed; none for a blank argument.
pub open spec fn child_derive_names(derive: Seq<char>) -> Seq<Seq<char>> {
    if trim(derive).len() == 0 {
        seq![]
    } else {
        split(derive, ","@).map_values(|x: Seq<char>| trim(x))
    }
}

/// The derive names of a struct built from a child's `derive` argument and
/// the parent's derive names: the child's, then each trimmed parent name
/// that is not among them yet.
pub open spec fn struct_derive_names(derive: Seq<char>, parent: Seq<Seq<char>>) -> Seq<Seq<char>> {
    add_missing(child_derive_names(derive), parent.map_values(|x: Seq<char>| trim(x)))
}

/// The merged derive names joined by commas; none when there are no names.
pub open spec fn struct_derive_merge(derive: Seq<char>, parent: Seq<Seq<char>>) -> Option<
    Seq<char>,
> {
    let names = struct_derive_names(derive, parent);
    if names.len() > 0 {
        Some(join(names, ","@))
    } else {
        None
    }
}

/// Adds to `list` each item that it does not hold yet, in order.
pub fn add_missing_exec(list: &mut Vec<Vec<char>>, items: &Vec<Vec<char>>)
    ensures
        views(final(list)@) == add_missing(views(old(list)@), views(items@)),
{
    let ghost acc0 = views(list@);
    assert(views(items@).skip(0) =~= views(items@));
    let mut k: usize = 0;
    while k < items.len()
        invariant
            k <= items@.len(),
            add_missing(acc0, views(items@)) == add_missing(views(list@), views(items@).skip(
                k as int,
            )),
        decreases items@.len() - k,
    {
        let ghost rest = views(items@).skip(k as int);
        assert(rest.drop_first() =~= views(items@).skip(k + 1));
        assert(rest[0] == items@[k as int]@);
        if !holds(list, items[k].as_slice()) {
            let ghost before = list@;
            let it = copy_range(items[k].as_slice(), 0, items[k].len());
            assert(it@ =~= items@[k as int]@);
            list.push(it);
            assert(views(list@) =~= views(before).push(it@));
        }
        k += 1;
    }
    assert(views(items@).skip(items@.len() as int) =~= seq![]);
}

/// Each item trimmed.
pub fn trim_all(items: &Vec<Vec<char>>) -> (r: Vec<Vec<char>>)
    ensures
        views(r@) == views(items@).map_values(|x: Seq<char>| trim(x)),
{
    let ghost want = views(items@).map_values(|x: Seq<char>| trim(x));
    let mut out: Vec<Vec<char>> = Vec::new();
    let mut k: usize = 0;
    while k < items.len()
        invariant
            k <= items@.len(),
            want == views(items@).map_values(|x: Seq<char>| trim(x)),
            views(out@) == want.take(k as int),
        decreases items@.len() - k,
    {
        let t = trim_exec(items[k].as_slice());
        let ghost before = out@;
        out.push(t);
        assert(views(out@) =~= views(before).push(t@));
        assert(want.take(k + 1) =~= want.take(k as int).push(want[k as int]));
        k += 1;
    }
    assert(want.take(items@.len() as int) =~= want);
    out
}

/// Whether `list` holds `item`.
pub fn holds(list: &Vec<Vec<char>>, item: &[char]) -> (r: bool)
    ensures
        r == views(list@).contains(item@),
{
    let mut k: usize = 0;
    while k < list.len()
        invariant
            k <= list@.len(),
            forall|j: int| 0 <= j < k ==> list@[j]@ != item@,
        decreases list@.len() - k,
    {
        if same_chars(list[k].as_slice(), item) {
            assert(views(list@)[k as int] == item@);
            return true;
        }
        k += 1;
    }
    assert(!views(list@).contains(item@)) by {
        if views(list@).contains(item@) {
            let j = choose|j: int| 0 <= j < views(list@).len() && views(list@)[j] == item@;
            assert(list@[j]@ == item@);
        }
    }
    false
}

/// The names of `derive_list(attr)`, each passed through `trim` when `trimmed`.
pub(crate) fn derive_list_exec(attr: &[char], trimmed: bool) -> (r: Option<Vec<Vec<char>>>)
    ensures
        r is Some <==> derive_list_ok(attr@),
        r matches Some(v) ==> views(v@) == if trimmed {
            derive_list(attr@).map_values(|x: Seq<char>| trim(x))
        } else {
            derive_list(attr@)
        },
{
    let n = attr.len();
    let open = chars_of("(");
    let close = chars_of(")");
    let comma = chars_of(",");
    let p = match find_exec(attr, open.as_slice()) {
        Some(p) => p,
        None => return None,
    };
    proof {
        lemma_find_from_found(attr@, open@, 0);
        reveal_strlit("(");
        reveal_strlit(",");
    }
    let s1 = copy_range(attr, p + 1, attr.len());
    let q = match find_exec(s1.as_slice(), close.as_slice()) {
        Some(q) => q,
        None => return None,
    };
    proof {
        lemma_find_from_found(s1@, close@, 0);
    }
    let rs = copy_range(s1.as_slice(), 0, q);
    let parts = split_exec(rs.as_slice(), comma.as_slice());
    if !trimmed {
        return Some(parts);
    }
    Some(trim_all(&parts))
}

/// The merged derive attribute, or `None` where the merge is undefined.
pub(crate) fn try_merge_derive(parent: &[char], current: &[char]) -> (r: Option<Vec<char>>)
    ensures
        r is Some <==> merge_derive_ok(parent@, current@),
        r matches Some(v) ==> v@ == merged_derive_attr(parent@, current@),
{
    let marker = chars_of("#[derive(");
    let comma = chars_of(",");
    proof {
        reveal_strlit(",");
    }
    let mut list: Vec<Vec<char>> = Vec::new();
    if contains_exec(parent, marker.as_slice()) {
        match derive_list_exec(parent, true) {
            Some(v) => {
                list = v;
            },
            None => return None,
        }
    }
    assert(views(list@) == parent_derives(parent@));
    let cur_trim = trim_exec(current);
    if cur_trim.len() != 0 {
        let items = split_exec(current, comma.as_slice());
        add_missing_exec(&mut list, &items);
    }
    assert(views(list@) == merged_derives(parent@, current@));
    if list.len() == 0 {
        return None;
    }
    let mut out = chars_of("#[derive(");
    let body = join_exec(&list, comma.as_slice());
    push_all(&mut out, body.as_slice());
    let tail = chars_of(")]");
    push_all(&mut out, tail.as_slice());
    Some(out)
}

/// Merges a parent struct's derive attribute with the comma-separated
/// derive names that the child asks for: the parent's names (trimmed) come
/// first, then each of the child's names that is not among them yet, and
/// the result is written as one `#[derive(..)]` attribute. A blank child
/// list leaves the parent's names alone; a parent text without
/// `#[derive(` contributes none.
pub fn merge_derive(parent_derive_str: String, derive_current: String) -> (r: String)
    requires
        merge_derive_ok(parent_derive_str@, derive_current@),
    ensures
        r@ == merged_derive_attr(parent_derive_str@, derive_current@),
{
    let p = chars_of(parent_derive_str.as_str());
    let c = chars_of(derive_current.as_str());
    let v = try_merge_derive(p.as_slice(), c.as_slice());
    match v {
        Some(v) => string_of(v.as_slice()),
        None => String::new(),
    }
}

/// The derive text of a struct built from a child's `derive` argument and
/// the parent's derive names: the child's names, then each parent name not
/// among them yet, all trimmed and joined by commas. `None` where there is
/// no name at all.
pub(crate) fn merge_struct_derive(derive: &[char], parent: &Vec<Vec<char>>) -> (r: Option<Vec<char>>)
    ensures
        r is Some <==> struct_derive_merge(derive@, views(parent@)) is Some,
        r matches Some(v) ==> struct_derive_merge(derive@, views(parent@)) == Some(v@),
{
    let comma = chars_of(",");
    proof {
        reveal_strlit(",");
    }
    let t = trim_exec(derive);
    let mut names: Vec<Vec<char>> = if t.len() == 0 {
        Vec::new()
    } else {
        let parts = split_exec(derive, comma.as_slice());
        trim_all(&parts)
    };
    assert(views(names@) =~= child_derive_names(derive@));
    let ps = trim_all(parent);
    add_missing_exec(&mut names, &ps);
    if names.len() == 0 {
        return None;
    }
    Some(join_exec(&names, comma.as_slice()))
}

} // verus!
