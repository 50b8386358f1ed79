//! Laws of the derive merge: merging is idempotent, and naming again a
//! derive that the parent already has changes nothing.
use vstd::prelude::*;
use crate::text::{
    contains, find, find_from, is_ws, join, lemma_find_from_found, matches_at, split, split_from, trim,
    trim_end, trim_start,
};
use crate::derive::{
    add_missing, derive_list, derive_list_ok, merge_derive_ok, merged_derive_attr,
    merged_derives, parent_derives,
};

verus! {

/// Every character of `s` satisfies `p`.
pub open spec fn all_chars(s: Seq<char>, p: spec_fn(char) -> bool) -> bool {
    forall|i: int| 0 <= i < s.len() ==> #[trigger] p(s[i])
}

// ----------------------------------------------------------------------------
// Searching for one character
// ----------------------------------------------------------------------------

pub(crate) proof fn lemma_match_char(s: Seq<char>, c: char, j: int)
    ensures
        matches_at(s, seq![c], j) == (0 <= j < s.len() && s[j] == c),
{
    if 0 <= j < s.len() {
        if s[j] == c {
            assert(s.subrange(j, j + 1) =~= seq![c]);
        } else {
            assert(s.subrange(j, j + 1)[0] != seq![c][0]);
        }
    }
}

pub(crate) proof fn lemma_find_first(s: Seq<char>, pat: Seq<char>, i: int, k: int)
    requires
        0 <= i <= k,
        matches_at(s, pat, k),
        forall|j: int| i <= j < k ==> !#[trigger] matches_at(s, pat, j),
    ensures
        find_from(s, pat, i) == Some(k),
    decreases k - i,
{
    if i < k {
        lemma_find_first(s, pat, i + 1, k);
    }
}

proof fn lemma_find_before(s: Seq<char>, pat: Seq<char>, i: int)
    ensures
        find_from(s, pat, i) matches Some(k) ==> forall|j: int|
            i <= j < k ==> !#[trigger] matches_at(s, pat, j),
    decreases s.len() + 1 - i,
{
    if !(i < 0 || i + pat.len() > s.len()) && !matches_at(s, pat, i) {
        lemma_find_before(s, pat, i + 1);
    }
}

/// No character `c` in `s` from `i` on: nothing is found.
pub(crate) proof fn lemma_find_none(s: Seq<char>, c: char, i: int)
    requires
        forall|j: int| i <= j < s.len() ==> s[j] != c,
    ensures
        find_from(s, seq![c], i) is None,
{
    lemma_find_from_found(s, seq![c], i);
    if let Some(k) = find_from(s, seq![c], i) {
        lemma_match_char(s, c, k);
    }
}

proof fn lemma_find_append(a: Seq<char>, x: Seq<char>, c: char, i: int)
    requires
        0 <= i <= a.len(),
    ensures
        find_from(a + seq![c] + x, seq![c], i) == match find_from(a, seq![c], i) {
            Some(j) => Some(j),
            None => Some(a.len() as int),
        },
    decreases a.len() - i,
{
    let s = a + seq![c] + x;
    lemma_match_char(s, c, i);
    lemma_match_char(a, c, i);
    if i < a.len() {
        assert(s[i] == a[i]);
        if !matches_at(a, seq![c], i) {
            lemma_find_append(a, x, c, i + 1);
        }
    } else {
        assert(s[i] == c);
    }
}

// ----------------------------------------------------------------------------
// Splitting at one character
// ----------------------------------------------------------------------------

proof fn lemma_split_pieces(s: Seq<char>, c: char, i: int, p: spec_fn(char) -> bool)
    requires
        0 <= i <= s.len(),
        all_chars(s, p),
    ensures
        forall|k: int|
            0 <= k < split_from(s, seq![c], i).len() ==> all_chars(
                #[trigger] split_from(s, seq![c], i)[k],
                p,
            ) && all_chars(split_from(s, seq![c], i)[k], |y: char| y != c),
    decreases s.len() + 1 - i,
{
    let sep = seq![c];
    lemma_find_from_found(s, sep, i);
    lemma_find_before(s, sep, i);
    let parts = split_from(s, sep, i);
    match find_from(s, sep, i) {
        None => {
            assert forall|j: int| i <= j < s.len() implies s[j] != c by {
                if s[j] == c {
                    lemma_match_char(s, c, j);
                    lemma_find_exists(s, sep, i, j);
                }
            }
            let piece = s.subrange(i, s.len() as int);
            assert(parts =~= seq![piece]);
            assert(all_chars(piece, p));
            assert(all_chars(piece, |y: char| y != c));
        },
        Some(j) => {
            let piece = s.subrange(i, j);
            assert forall|m: int| 0 <= m < piece.len() implies (|y: char| y != c)(piece[m]) by {
                assert(!matches_at(s, sep, i + m));
                lemma_match_char(s, c, i + m);
            }
            assert(all_chars(piece, p));
            lemma_split_pieces(s, c, j + 1, p);
            let rest = split_from(s, sep, j + 1);
            assert(parts =~= seq![piece] + rest);
            assert forall|k: int| 0 <= k < parts.len() implies all_chars(#[trigger] parts[k], p)
                && all_chars(parts[k], |y: char| y != c) by {
                if k > 0 {
                    assert(parts[k] == rest[k - 1]);
                }
            }
        },
    }
}

pub(crate) proof fn lemma_find_exists(s: Seq<char>, pat: Seq<char>, i: int, j: int)
    requires
        0 <= i <= j,
        matches_at(s, pat, j),
    ensures
        find_from(s, pat, i) is Some,
    decreases j - i,
{
    if i < j && !matches_at(s, pat, i) {
        lemma_find_exists(s, pat, i + 1, j);
    }
}

proof fn lemma_split_append_from(a: Seq<char>, x: Seq<char>, c: char, i: int)
    requires
        0 <= i <= a.len(),
        all_chars(x, |y: char| y != c),
    ensures
        split_from(a + seq![c] + x, seq![c], i) == split_from(a, seq![c], i) + seq![x],
    decreases a.len() - i,
{
    let s = a + seq![c] + x;
    let sep = seq![c];
    lemma_find_append(a, x, c, i);
    lemma_find_from_found(a, sep, i);
    match find_from(a, sep, i) {
        Some(j) => {
            lemma_match_char(a, c, j);
            assert(s.subrange(i, j) =~= a.subrange(i, j));
            lemma_split_append_from(a, x, c, j + 1);
            assert(split_from(s, sep, i) =~= seq![a.subrange(i, j)] + split_from(s, sep, j + 1));
            assert(split_from(a, sep, i) =~= seq![a.subrange(i, j)] + split_from(a, sep, j + 1));
        },
        None => {
            let n = a.len() as int;
            assert((a + seq![c]).len() == n + 1);
            assert(s.subrange(i, n) =~= a.subrange(i, n));
            assert forall|k: int| n + 1 <= k < s.len() implies s[k] != c by {
                assert(s[k] == x[k - n - 1]);
                assert((|y: char| y != c)(x[k - n - 1]));
            }
            lemma_find_none(s, c, n + 1);
            assert(s.subrange(n + 1, s.len() as int) =~= x);
            assert(split_from(s, sep, n + 1) =~= seq![x]);
            assert(split_from(s, sep, i) =~= seq![a.subrange(i, n)] + seq![x]);
            assert(split_from(a, sep, i) =~= seq![a.subrange(i, n)]);
        },
    }
}

pub(crate) proof fn lemma_split_join(parts: Seq<Seq<char>>, c: char)
    requires
        parts.len() >= 1,
        forall|k: int| 0 <= k < parts.len() ==> all_chars(#[trigger] parts[k], |y: char| y != c),
    ensures
        split(join(parts, seq![c]), seq![c]) == parts,
    decreases parts.len(),
{
    if parts.len() == 1 {
        let p0 = parts[0];
        assert(all_chars(p0, |y: char| y != c));
        assert forall|j: int| 0 <= j < p0.len() implies p0[j] != c by {
            assert((|y: char| y != c)(p0[j]));
        }
        lemma_find_none(p0, c, 0);
        assert(p0.subrange(0, p0.len() as int) =~= p0);
        assert(split(p0, seq![c]) =~= seq![p0]);
        assert(parts =~= seq![p0]);
    } else {
        let dl = parts.drop_last();
        assert forall|k: int| 0 <= k < dl.len() implies all_chars(#[trigger] dl[k], |y: char| y != c) by {
            assert(dl[k] == parts[k]);
        }
        lemma_split_join(dl, c);
        assert(all_chars(parts.last(), |y: char| y != c));
        lemma_split_append_from(join(dl, seq![c]), parts.last(), c, 0);
        assert(dl.push(parts.last()) =~= parts);
    }
}

// ----------------------------------------------------------------------------
// Trimming
// ----------------------------------------------------------------------------

proof fn lemma_trim_start_shape(s: Seq<char>)
    ensures
        trim_start(s).len() == 0 || !is_ws(trim_start(s)[0]),
        trim_start(s) =~= s.subrange(s.len() - trim_start(s).len(), s.len() as int),
        trim_start(s).len() <= s.len(),
    decreases s.len(),
{
    if s.len() > 0 && is_ws(s[0]) {
        lemma_trim_start_shape(s.drop_first());
    }
}

proof fn lemma_trim_end_shape(s: Seq<char>)
    ensures
        trim_end(s).len() == 0 || !is_ws(trim_end(s).last()),
        trim_end(s) =~= s.subrange(0, trim_end(s).len() as int),
        trim_end(s).len() <= s.len(),
    decreases s.len(),
{
    if s.len() > 0 && is_ws(s.last()) {
        lemma_trim_end_shape(s.drop_last());
    }
}

/// A text without whitespace at either end is its own trim.
proof fn lemma_trim_fixed(s: Seq<char>)
    requires
        s.len() == 0 || (!is_ws(s[0]) && !is_ws(s.last())),
    ensures
        trim(s) == s,
{
}

proof fn lemma_trim_idempotent(s: Seq<char>)
    ensures
        trim(trim(s)) == trim(s),
{
    let t = trim_start(s);
    lemma_trim_start_shape(s);
    lemma_trim_end_shape(t);
    let u = trim_end(t);
    if u.len() > 0 {
        assert(u[0] == t[0]);
    }
    lemma_trim_fixed(u);
}

proof fn lemma_trim_chars(s: Seq<char>, p: spec_fn(char) -> bool)
    requires
        all_chars(s, p),
    ensures
        all_chars(trim(s), p),
{
    let t = trim_start(s);
    lemma_trim_start_shape(s);
    lemma_trim_end_shape(t);
    assert forall|i: int| 0 <= i < trim(s).len() implies #[trigger] p(trim(s)[i]) by {
        assert(trim(s)[i] == t[i]);
        assert(t[i] == s[s.len() - t.len() + i]);
    }
}

/// A text that holds a non-whitespace character trims to a nonempty text.
proof fn lemma_trim_nonempty(s: Seq<char>, j: int)
    requires
        0 <= j < s.len(),
        !is_ws(s[j]),
    ensures
        trim(s).len() > 0,
    decreases s.len(),
{
    let t = trim_start(s);
    lemma_trim_start_shape(s);
    if t.len() == 0 {
        lemma_trim_start_reaches(s, j);
    } else {
        lemma_trim_end_shape(t);
        lemma_trim_end_keeps_head(t);
    }
}

proof fn lemma_trim_start_reaches(s: Seq<char>, j: int)
    requires
        0 <= j < s.len(),
        !is_ws(s[j]),
    ensures
        trim_start(s).len() >= s.len() - j,
    decreases s.len(),
{
    if s.len() > 0 && is_ws(s[0]) {
        assert(j > 0);
        assert(s.drop_first()[j - 1] == s[j]);
        lemma_trim_start_reaches(s.drop_first(), j - 1);
    }
}

proof fn lemma_trim_end_keeps_head(t: Seq<char>)
    requires
        t.len() > 0,
        !is_ws(t[0]),
    ensures
        trim_end(t).len() > 0,
    decreases t.len(),
{
    if is_ws(t.last()) {
        assert(t.len() > 1);
        assert(t.drop_last()[0] == t[0]);
        lemma_trim_end_keeps_head(t.drop_last());
    }
}

// ----------------------------------------------------------------------------
// The derive lists
// ----------------------------------------------------------------------------

/// The names that a derive list may hold and still read back the same:
/// trimmed, without a comma and without a `)`.
pub open spec fn clean_name(x: Seq<char>) -> bool {
    &&& trim(x) == x
    &&& all_chars(x, |y: char| y != ',')
    &&& all_chars(x, |y: char| y != ')')
}

proof fn lemma_add_missing_keeps(acc: Seq<Seq<char>>, items: Seq<Seq<char>>)
    requires
        forall|k: int| 0 <= k < acc.len() ==> clean_name(#[trigger] acc[k]),
        forall|k: int| 0 <= k < items.len() ==> clean_name(#[trigger] items[k]),
    ensures
        forall|k: int|
            0 <= k < add_missing(acc, items).len() ==> clean_name(#[trigger] add_missing(acc, items)[k]),
    decreases items.len(),
{
    if items.len() > 0 {
        let next = if acc.contains(items[0]) {
            acc
        } else {
            acc.push(items[0])
        };
        assert(add_missing(acc, items) == add_missing(next, items.drop_first()));
        assert forall|k: int| 0 <= k < next.len() implies clean_name(#[trigger] next[k]) by {
            if k < acc.len() {
                assert(next[k] == acc[k]);
            }
        }
        assert forall|k: int| 0 <= k < items.drop_first().len() implies clean_name(
            #[trigger] items.drop_first()[k],
        ) by {
            assert(items.drop_first()[k] == items[k + 1]);
        }
        lemma_add_missing_keeps(next, items.drop_first());
    }
}

proof fn lemma_add_missing_append(acc: Seq<Seq<char>>, items: Seq<Seq<char>>, x: Seq<char>)
    ensures
        add_missing(acc, items.push(x)) == add_missing(add_missing(acc, items), seq![x]),
    decreases items.len(),
{
    if items.len() == 0 {
        assert(items.push(x) =~= seq![x]);
    } else {
        let next = if acc.contains(items[0]) {
            acc
        } else {
            acc.push(items[0])
        };
        assert(items.push(x).drop_first() =~= items.drop_first().push(x));
        assert(items.push(x)[0] == items[0]);
        lemma_add_missing_append(next, items.drop_first(), x);
    }
}

/// The parent's trimmed derive names are clean, apart from the `)` (which
/// the cut at the first `)` rules out).
proof fn lemma_parent_derives_clean(p: Seq<char>)
    requires
        contains(p, "#[derive("@) ==> derive_list_ok(p),
    ensures
        forall|k: int|
            0 <= k < parent_derives(p).len() ==> clean_name(#[trigger] parent_derives(p)[k]),
{
    reveal_strlit(",");
    reveal_strlit("(");
    reveal_strlit(")");
    reveal_strlit("#[derive(");
    assert(","@ =~= seq![',']);
    if find(p, "#[derive("@) is Some {
        let s1 = p.subrange(find(p, "("@).unwrap() + 1, p.len() as int);
        let q = find(s1, ")"@).unwrap();
        let rs = s1.subrange(0, q);
        assert(")"@ =~= seq![')']);
        lemma_find_before(s1, ")"@, 0);
        lemma_find_from_found(s1, ")"@, 0);
        assert forall|m: int| 0 <= m < rs.len() implies (|y: char| y != ')')(rs[m]) by {
            assert(!matches_at(s1, ")"@, m));
            lemma_match_char(s1, ')', m);
        }
        lemma_split_pieces(rs, ',', 0, |y: char| y != ')');
        let parts = split(rs, ","@);
        assert forall|k: int| 0 <= k < parent_derives(p).len() implies clean_name(
            #[trigger] parent_derives(p)[k],
        ) by {
            let piece = parts[k];
            assert(parent_derives(p)[k] == trim(piece));
            lemma_trim_idempotent(piece);
            lemma_trim_chars(piece, |y: char| y != ',');
            lemma_trim_chars(piece, |y: char| y != ')');
        }
    }
}

/// The child's names are clean when its text has no whitespace and no `)`.
proof fn lemma_child_names_clean(c: Seq<char>)
    requires
        all_chars(c, |y: char| !is_ws(y) && y != ')'),
    ensures
        forall|k: int|
            0 <= k < split(c, ","@).len() ==> clean_name(#[trigger] split(c, ","@)[k]),
{
    reveal_strlit(",");
    assert(","@ =~= seq![',']);
    lemma_split_pieces(c, ',', 0, |y: char| !is_ws(y) && y != ')');
    assert forall|k: int| 0 <= k < split(c, ","@).len() implies clean_name(
        #[trigger] split(c, ","@)[k],
    ) by {
        let piece = split(c, ","@)[k];
        if piece.len() > 0 {
            assert((|y: char| !is_ws(y) && y != ')')(piece[0]));
            assert((|y: char| !is_ws(y) && y != ')')(piece[piece.len() - 1]));
        }
        lemma_trim_fixed(piece);
        assert forall|m: int| 0 <= m < piece.len() implies (|y: char| y != ')')(piece[m]) by {
            assert((|y: char| !is_ws(y) && y != ')')(piece[m]));
        }
    }
}

/// The attribute written from clean names reads back as those names.
proof fn lemma_reads_back(names: Seq<Seq<char>>)
    requires
        names.len() >= 1,
        forall|k: int| 0 <= k < names.len() ==> clean_name(#[trigger] names[k]),
    ensures
        ({
            let r = "#[derive("@ + join(names, ","@) + ")]"@;
            &&& derive_list_ok(r)
            &&& parent_derives(r) == names
        }),
{
    reveal_strlit(",");
    reveal_strlit("(");
    reveal_strlit(")");
    reveal_strlit(")]");
    reveal_strlit("#[derive(");
    assert(","@ =~= seq![',']);
    assert("("@ =~= seq!['(']);
    assert(")"@ =~= seq![')']);
    let j = join(names, ","@);
    let r = "#[derive("@ + j + ")]"@;
    assert("#[derive("@.len() == 9);
    assert(r.subrange(0, 9) =~= "#[derive("@);
    lemma_find_first(r, "#[derive("@, 0, 0);
    assert forall|m: int| 0 <= m < 8 implies !#[trigger] matches_at(r, "("@, m) by {
        lemma_match_char(r, '(', m);
        assert(r[m] == "#[derive("@[m]);
    }
    lemma_match_char(r, '(', 8);
    assert(r[8] == '(');
    lemma_find_first(r, "("@, 0, 8);
    let s1 = r.subrange(9, r.len() as int);
    assert(s1 =~= j + ")]"@);
    lemma_join_chars(names, ',', ')');
    assert forall|m: int| 0 <= m < j.len() implies !#[trigger] matches_at(s1, ")"@, m) by {
        lemma_match_char(s1, ')', m);
        assert(s1[m] == j[m]);
        assert((|y: char| y != ')')(j[m]));
    }
    lemma_match_char(s1, ')', j.len() as int);
    assert(s1[j.len() as int] == ')');
    lemma_find_first(s1, ")"@, 0, j.len() as int);
    assert(s1.subrange(0, j.len() as int) =~= j);
    assert forall|k: int| 0 <= k < names.len() implies all_chars(
        #[trigger] names[k],
        |y: char| y != ',',
    ) by {
        assert(clean_name(names[k]));
    }
    lemma_split_join(names, ',');
    assert(derive_list(r) == names);
    assert forall|k: int| 0 <= k < names.len() implies #[trigger] trim(names[k]) == names[k] by {
        assert(clean_name(names[k]));
    }
    assert(names.map_values(|x: Seq<char>| trim(x)) =~= names);
}

proof fn lemma_join_chars(names: Seq<Seq<char>>, sep: char, bad: char)
    requires
        sep != bad,
        forall|k: int| 0 <= k < names.len() ==> clean_name(#[trigger] names[k]),
        bad == ')',
    ensures
        all_chars(join(names, seq![sep]), |y: char| y != bad),
    decreases names.len(),
{
    if names.len() == 1 {
        assert(clean_name(names[0]));
    } else if names.len() > 1 {
        let dl = names.drop_last();
        assert forall|k: int| 0 <= k < dl.len() implies clean_name(#[trigger] dl[k]) by {
            assert(dl[k] == names[k]);
        }
        lemma_join_chars(dl, sep, bad);
        assert(clean_name(names.last()));
        let a = join(dl, seq![sep]);
        let whole = a + seq![sep] + names.last();
        assert forall|i: int| 0 <= i < whole.len() implies (|y: char| y != bad)(#[trigger] whole[i]) by {
            if i < a.len() {
                assert(whole[i] == a[i]);
            } else if i == a.len() {
                assert(whole[i] == sep);
            } else {
                assert(whole[i] == names.last()[i - a.len() - 1]);
            }
        }
    }
}

// ----------------------------------------------------------------------------
// Laws
// ----------------------------------------------------------------------------

/// Merging is idempotent: merging the merged attribute again with the same
/// child names, or with none, gives it back. The child's text holds no
/// whitespace and no `)` (names that the attribute can hold).
pub proof fn law_merge_derive_idempotent(parent: Seq<char>, current: Seq<char>)
    requires
        merge_derive_ok(parent, current),
        all_chars(current, |y: char| !is_ws(y) && y != ')'),
    ensures
        ({
            let r = merged_derive_attr(parent, current);
            &&& merge_derive_ok(r, current)
            &&& merged_derive_attr(r, current) == r
            &&& merge_derive_ok(r, seq![])
            &&& merged_derive_attr(r, seq![]) == r
        }),
{
    let names = merged_derives(parent, current);
    let pd = parent_derives(parent);
    lemma_parent_derives_clean(parent);
    lemma_child_names_clean(current);
    lemma_add_missing_keeps(pd, split(current, ","@));
    assert forall|k: int| 0 <= k < names.len() implies clean_name(#[trigger] names[k]) by {
        if trim(current).len() == 0 {
            assert(names == pd);
        }
    }
    lemma_reads_back(names);
    let r = merged_derive_attr(parent, current);
    reveal_strlit("#[derive(");
    assert(r.subrange(0, 9) =~= "#[derive("@);
    lemma_find_first(r, "#[derive("@, 0, 0);
    assert(parent_derives(r) == names);
    crate::laws::law_merge_derive_keeps_all(parent, current);
    if trim(current).len() > 0 {
        assert forall|x: Seq<char>| split(current, ","@).contains(x) implies #[trigger] names.contains(
            x,
        ) by {}
        crate::laws::law_merge_derive_no_new_names(r, current);
    }
    assert(trim(seq![]) == Seq::<char>::empty());
}

/// Naming again a derive that the parent already has changes nothing.
pub proof fn law_merge_derive_repeat_parent_name(parent: Seq<char>, current: Seq<char>, x: Seq<
    char,
>)
    requires
        derive_list_ok(parent),
        parent_derives(parent).contains(x),
        trim(current).len() > 0,
    ensures
        merged_derives(parent, current + ","@ + x) == merged_derives(parent, current),
        merge_derive_ok(parent, current + ","@ + x) == merge_derive_ok(parent, current),
        merged_derive_attr(parent, current + ","@ + x) == merged_derive_attr(parent, current),
{
    reveal_strlit(",");
    assert(","@ =~= seq![',']);
    let pd = parent_derives(parent);
    lemma_parent_derives_clean(parent);
    let k = choose|k: int| 0 <= k < pd.len() && pd[k] == x;
    assert(clean_name(pd[k]));
    lemma_split_append_from(current, x, ',', 0);
    let longer = current + ","@ + x;
    let t = trim_start(current);
    lemma_trim_start_shape(current);
    let j = current.len() - t.len();
    assert(!is_ws(current[j]));
    assert(longer[j] == current[j]);
    lemma_trim_nonempty(longer, j);
    lemma_add_missing_append(pd, split(current, ","@), x);
    assert(split(longer, ","@) == split(current, ","@).push(x));
    crate::laws::law_merge_derive_keeps_all(parent, current);
    let m = add_missing(pd, split(current, ","@));
    assert(merged_derives(parent, current) == m);
    assert(m.subrange(0, pd.len() as int) == pd);
    assert(m.subrange(0, pd.len() as int)[k] == x);
    assert(m[k] == x);
    assert(m.contains(x));
    assert(add_missing(m, seq![x]) == m) by {
        let next = if m.contains(x) {
            m
        } else {
            m.push(x)
        };
        assert(seq![x].drop_first() =~= Seq::<Seq<char>>::empty());
        assert(add_missing(m, Seq::<Seq<char>>::empty()) == m);
        assert(next == m);
    }
}

} // verus!
