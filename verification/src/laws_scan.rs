//! What the scanners find in source text, and what the field initializers
//! name, stated over the shape of the text.
use vstd::prelude::*;
use crate::text::{
    contains, find, is_ws, join, matches_at, split, starts_with, trim, trim_end, trim_start,
};
use crate::derive::{derive_list, derive_list_ok};
use crate::fields::{inits_of, none_inits, strip_vis};
use crate::struct_extends::{inner_rows, opens_block, scan_state, struct_block, struct_named_at};
use crate::laws_derive::{
    all_chars, lemma_find_exists, lemma_find_first, lemma_find_none, lemma_match_char,
    lemma_split_join,
};
use crate::grammar::{
    braced_after, close_brace, derive_end, ident_end, is_ident_char, item_at, items_from,
    keyword_at, skip_ws, source_items, struct_at, ItemView,
};

verus! {

/// An ASCII letter, digit or `_`.
pub open spec fn word_char(c: char) -> bool {
    ('a' <= c && c <= 'z') || ('A' <= c && c <= 'Z') || ('0' <= c && c <= '9') || c == '_'
}

proof fn lemma_word_char(c: char)
    ensures
        word_char(c) ==> is_ident_char(c) && !is_ws(c),
        is_ws(c) ==> !is_ident_char(c),
        c == '{' || c == '}' || c == ':' || c == '(' ==> !is_ws(c) && !is_ident_char(c),
{
}

proof fn lemma_ident_run(s: Seq<char>, i: int, j: int)
    requires
        0 <= i <= j <= s.len(),
        forall|k: int| i <= k < j ==> is_ident_char(#[trigger] s[k]),
        j == s.len() || !is_ident_char(s[j]),
    ensures
        ident_end(s, i) == j,
    decreases j - i,
{
    if i < j {
        lemma_ident_run(s, i + 1, j);
    }
}

proof fn lemma_ws_run(s: Seq<char>, i: int, j: int)
    requires
        0 <= i <= j <= s.len(),
        forall|k: int| i <= k < j ==> is_ws(#[trigger] s[k]),
        j == s.len() || !is_ws(s[j]),
    ensures
        skip_ws(s, i) == j,
    decreases j - i,
{
    if i < j {
        lemma_ws_run(s, i + 1, j);
    }
}

proof fn lemma_close_run(s: Seq<char>, i: int, j: int)
    requires
        0 <= i <= j < s.len(),
        forall|k: int| i <= k < j ==> #[trigger] s[k] != '{' && s[k] != '}',
        s[j] == '}',
    ensures
        close_brace(s, i, 1) == Some(j),
    decreases j - i,
{
    if i < j {
        lemma_close_run(s, i + 1, j);
    }
}

/// A struct is found whether or not whitespace stands between its name and
/// its `{`: the text `pub struct N{B}`, with any run of whitespace `w`
/// before the `{` and a body `B` without braces, holds exactly one item,
/// the struct `N` without derive and with body `B`.
pub proof fn law_struct_found_with_or_without_space(n: Seq<char>, w: Seq<char>, b: Seq<char>)
    requires
        n.len() > 0,
        forall|k: int| 0 <= k < n.len() ==> word_char(#[trigger] n[k]),
        forall|k: int| 0 <= k < w.len() ==> is_ws(#[trigger] w[k]),
        forall|k: int| 0 <= k < b.len() ==> #[trigger] b[k] != '{' && b[k] != '}',
    ensures
        source_items("pub struct "@ + n + w + "{"@ + b + "}"@) == seq![
            ItemView::Struct { derive: seq![], name: n, body: b },
        ],
{
    reveal_strlit("pub struct ");
    reveal_strlit("{");
    reveal_strlit("}");
    reveal_strlit("pub");
    reveal_strlit("struct");
    let pre = "pub struct "@;
    let s = pre + n + w + "{"@ + b + "}"@;
    let n1: int = 11 + n.len() as int;
    let o: int = n1 + w.len();
    let c: int = o + 1 + b.len();
    assert(s.len() == c + 1);
    assert forall|k: int| 0 <= k < 11 implies s[k] == pre[k] by {}
    assert forall|k: int| 11 <= k < n1 implies s[k] == n[k - 11] by {}
    assert forall|k: int| n1 <= k < o implies s[k] == w[k - n1] by {}
    assert(s[o] == '{');
    assert forall|k: int| o + 1 <= k < c implies s[k] == b[k - o - 1] by {}
    assert(s[c] == '}');
    assert(s[0] == 'p');
    assert(s.subrange(0, 3) =~= "pub"@);
    assert(s.subrange(4, 10) =~= "struct"@);
    lemma_word_char(s[11]);
    lemma_word_char(' ');
    lemma_word_char('{');
    lemma_word_char('}');
    lemma_ws_run(s, 3, 4);
    lemma_ws_run(s, 10, 11);
    assert forall|k: int| 11 <= k < n1 implies is_ident_char(#[trigger] s[k]) by {
        lemma_word_char(n[k - 11]);
    }
    if w.len() > 0 {
        lemma_word_char(w[0]);
        assert(s[n1] == w[0]);
    }
    lemma_ident_run(s, 11, n1);
    lemma_ws_run(s, n1, o);
    assert forall|k: int| o + 1 <= k < c implies #[trigger] s[k] != '{' && s[k] != '}' by {
        assert(s[k] == b[k - o - 1]);
    }
    lemma_close_run(s, o + 1, c);
    assert(s.subrange(11, n1) =~= n);
    assert(s.subrange(o + 1, c) =~= b);
    let item = ItemView::Struct { derive: seq![], name: n, body: b };
    assert(derive_end(s, 0) is None);
    assert(matches_at(s, "pub"@, 0));
    assert(keyword_at(s, 0, "pub"@));
    assert(matches_at(s, "struct"@, 4));
    assert(keyword_at(s, 4, "struct"@));
    assert(braced_after(s, 11) == Some((n, b, c + 1)));
    assert(struct_at(s, 0) == Some((item, c + 1)));
    assert(item_at(s, 0) == Some((item, c + 1)));
    assert(items_from(s, c + 1) =~= seq![]);
    assert(items_from(s, 0) == seq![item] + items_from(s, c + 1));
    assert(source_items(s) =~= seq![item]);
}

/// A line opens the struct named `block` when it declares `struct`, then
/// whitespace, then the name, whatever follows the name directly: in
/// particular a `{` with no whitespace before it.
pub proof fn law_struct_line_opens_block(pre: Seq<char>, w: Seq<char>, block: Seq<char>, post: Seq<char>)
    requires
        pre.len() == 0 || !word_char(pre.last()),
        w.len() > 0,
        forall|k: int| 0 <= k < w.len() ==> is_ws(#[trigger] w[k]),
        block.len() > 0,
        forall|k: int| 0 <= k < block.len() ==> word_char(#[trigger] block[k]),
    ensures
        opens_block(pre + "struct"@ + w + block + "{"@ + post, block),
{
    reveal_strlit("struct");
    reveal_strlit("{");
    let line = pre + "struct"@ + w + block + "{"@ + post;
    let i: int = pre.len() as int;
    let j: int = i + 6 + w.len();
    let e: int = j + block.len();
    assert forall|k: int| 0 <= k < i implies line[k] == pre[k] by {}
    assert forall|k: int| i + 6 <= k < j implies line[k] == w[k - i - 6] by {}
    assert forall|k: int| j <= k < e implies line[k] == block[k - j] by {}
    assert(line[e] == '{');
    assert(line.subrange(i, i + 6) =~= "struct"@);
    assert(line.subrange(j, e) =~= block);
    assert(line.subrange(e, e + 1) =~= "{"@);
    lemma_word_char(block[0]);
    lemma_word_char('{');
    assert(line[j] == block[0]);
    lemma_ws_run(line, i + 6, j);
    if i > 0 {
        lemma_word_char(pre.last());
        assert(line[i - 1] == pre.last());
    }
    assert(struct_named_at(line, block, i));
    lemma_find_exists(line, "{"@, 0, e);
    assert(contains(line, "{"@));
}

/// The lines of a text cut out line by line: a first line, the line that
/// opens the struct, the field lines, the closing line and the rest.
pub open spec fn block_lines(
    l0: Seq<char>,
    open: Seq<char>,
    fields: Seq<Seq<char>>,
    close: Seq<char>,
    rest: Seq<Seq<char>>,
) -> Seq<Seq<char>> {
    seq![l0, open] + fields + seq![close] + rest
}

proof fn lemma_no_match(s: Seq<char>, c: char)
    requires
        !s.contains(c),
    ensures
        find(s, seq![c]) is None,
{
    lemma_find_none(s, c, 0);
}

proof fn lemma_scan_reading(lines: Seq<Seq<char>>, block: Seq<char>, start: int, j: int, rows: Seq<int>)
    requires
        0 <= j,
        1 <= start,
        start + j <= lines.len(),
        scan_state(lines, block, start) == (1int, true, rows),
        forall|i: int|
            start <= i < start + j ==> !contains(#[trigger] lines[i], "{"@) && !contains(
                lines[i],
                "}"@,
            ),
    ensures
        scan_state(lines, block, start + j) == (1int, true, rows + Seq::new(
            j as nat,
            |i: int| start + i,
        )),
    decreases j,
{
    if j > 0 {
        lemma_scan_reading(lines, block, start, j - 1, rows);
        assert(!contains(lines[start + j - 1], "{"@));
        assert(rows + Seq::new(j as nat, |i: int| start + i) =~= (rows + Seq::new(
            (j - 1) as nat,
            |i: int| start + i,
        )).push(start + j - 1));
    } else {
        assert(rows + Seq::new(0, |i: int| start + i) =~= rows);
    }
}

proof fn lemma_scan_idle(lines: Seq<Seq<char>>, block: Seq<char>, start: int, j: int, st: (int, bool, Seq<int>))
    requires
        0 <= j,
        1 <= start,
        start + j <= lines.len(),
        scan_state(lines, block, start) == st,
        !st.1,
        forall|i: int| start <= i < start + j ==> !contains(#[trigger] lines[i], "{"@),
    ensures
        scan_state(lines, block, start + j) == st,
    decreases j,
{
    if j > 0 {
        lemma_scan_idle(lines, block, start, j - 1, st);
        assert(!contains(lines[start + j - 1], "{"@));
    }
}

/// The struct is cut out line by line: in a text whose second line
/// declares `struct Name` (the `{` directly after the name or not), followed
/// by field lines and a line with the `}`, the cut is the field lines
/// joined, and the derive names are those of the first line.
pub proof fn law_block_cut_line_by_line(
    l0: Seq<char>,
    pre: Seq<char>,
    w: Seq<char>,
    block: Seq<char>,
    post: Seq<char>,
    fields: Seq<Seq<char>>,
    close: Seq<char>,
    rest: Seq<Seq<char>>,
)
    requires
        !l0.contains('\n'),
        !l0.contains('{'),
        contains(l0, "#[derive("@) ==> derive_list_ok(l0),
        !pre.contains('\n'),
        !pre.contains('}'),
        pre.len() == 0 || !word_char(pre.last()),
        w.len() > 0,
        !w.contains('\n'),
        forall|k: int| 0 <= k < w.len() ==> is_ws(#[trigger] w[k]),
        block.len() > 0,
        forall|k: int| 0 <= k < block.len() ==> word_char(#[trigger] block[k]),
        !post.contains('\n'),
        !post.contains('}'),
        forall|k: int|
            0 <= k < fields.len() ==> !(#[trigger] fields[k]).contains('\n') && !fields[k].contains(
                '{',
            ) && !fields[k].contains('}'),
        !close.contains('\n'),
        !close.contains('{'),
        close.contains('}'),
        forall|k: int|
            0 <= k < rest.len() ==> !(#[trigger] rest[k]).contains('\n') && !rest[k].contains('{'),
    ensures
        struct_block(
            join(block_lines(l0, pre + "struct"@ + w + block + "{"@ + post, fields, close, rest), "\n"@),
            block,
        ) == Some(
            (
                join(fields, seq![]),
                if contains(l0, "#[derive("@) {
                    derive_list(l0)
                } else {
                    seq![]
                },
            ),
        ),
{
    reveal_strlit("\n");
    reveal_strlit("{");
    reveal_strlit("}");
    reveal_strlit("struct");
    let open = pre + "struct"@ + w + block + "{"@ + post;
    let lines = block_lines(l0, open, fields, close, rest);
    let nf: int = fields.len() as int;
    let nr: int = rest.len() as int;
    assert(lines.len() == 3 + nf + nr);
    assert("\n"@ =~= seq!['\n']);
    assert("{"@ =~= seq!['{']);
    assert("}"@ =~= seq!['}']);
    // No line holds a line break, so splitting the joined text gives the lines back.
    assert(!open.contains('\n')) by {
        if open.contains('\n') {
            let k = choose|k: int| 0 <= k < open.len() && open[k] == '\n';
            let a = pre.len() as int;
            let b = a + 6 + w.len();
            let e = b + block.len();
            if k < a {
                assert(pre[k] == '\n');
            } else if k < a + 6 {
                assert("struct"@[k - a] == open[k]);
            } else if k < b {
                assert(w[k - a - 6] == '\n');
            } else if k < e {
                assert(block[k - b] == open[k]);
                assert(word_char(block[k - b]));
            } else if k == e {
                assert(open[k] == '{');
            } else {
                assert(post[k - e - 1] == '\n');
            }
        }
    }
    assert(!open.contains('}')) by {
        if open.contains('}') {
            let k = choose|k: int| 0 <= k < open.len() && open[k] == '}';
            let a = pre.len() as int;
            let b = a + 6 + w.len();
            let e = b + block.len();
            lemma_word_char('}');
            if k < a {
                assert(pre[k] == '}');
                assert(pre.contains(pre[k]));
            } else if k < a + 6 {
                assert("struct"@[k - a] == open[k]);
            } else if k < b {
                assert(w[k - a - 6] == '}');
                assert(is_ws(w[k - a - 6]));
            } else if k < e {
                assert(block[k - b] == open[k]);
                assert(word_char(block[k - b]));
            } else if k == e {
                assert(open[k] == '{');
            } else {
                assert(post[k - e - 1] == '}');
                assert(post.contains(post[k - e - 1]));
            }
        }
    }
    assert forall|k: int| 0 <= k < lines.len() implies all_chars(
        #[trigger] lines[k],
        |y: char| y != '\n',
    ) by {
        let line = lines[k];
        if k == 0 {
            assert(line == l0);
        } else if k == 1 {
            assert(line == open);
        } else if k < 2 + nf {
            assert(line == fields[k - 2]);
        } else if k == 2 + nf {
            assert(line == close);
        } else {
            assert(line == rest[k - 3 - nf]);
        }
        assert forall|i: int| 0 <= i < line.len() implies #[trigger] line[i] != '\n' by {
            assert(line.contains(line[i]));
        }
    }
    lemma_split_join(lines, '\n');
    let text = join(lines, "\n"@);
    assert(split(text, "\n"@) == lines);
    // Which lines hold braces.
    lemma_no_match(l0, '{');
    assert(!opens_block(lines[0], block));
    law_struct_line_opens_block(pre, w, block, post);
    lemma_no_match(open, '}');
    assert(scan_state(lines, block, 0) == (0int, false, Seq::<int>::empty()));
    assert(scan_state(lines, block, 1) == (0int, false, Seq::<int>::empty()));
    assert(lines[1] == open);
    assert(scan_state(lines, block, 2) == (1int, true, seq![1int]));
    assert forall|i: int| 2 <= i < 2 + nf implies !contains(#[trigger] lines[i], "{"@) && !contains(
        lines[i],
        "}"@,
    ) by {
        assert(lines[i] == fields[i - 2]);
        lemma_no_match(fields[i - 2], '{');
        lemma_no_match(fields[i - 2], '}');
    }
    lemma_scan_reading(lines, block, 2, nf, seq![1int]);
    let rows0 = seq![1int] + Seq::new(nf as nat, |i: int| 2 + i);
    assert(lines[2 + nf] == close);
    lemma_no_match(close, '{');
    let kc = choose|k: int| 0 <= k < close.len() && close[k] == '}';
    lemma_match_char(close, '}', kc);
    lemma_find_exists(close, seq!['}'], 0, kc);
    let rows = rows0.push(2 + nf);
    assert(scan_state(lines, block, 3 + nf) == (1int, false, rows));
    assert forall|i: int| 3 + nf <= i < 3 + nf + nr implies !contains(#[trigger] lines[i], "{"@) by {
        assert(lines[i] == rest[i - 3 - nf]);
        lemma_no_match(rest[i - 3 - nf], '{');
    }
    lemma_scan_idle(lines, block, 3 + nf, nr, (1int, false, rows));
    assert(scan_state(lines, block, lines.len() as int) == (1int, false, rows));
    assert(inner_rows(rows).map_values(|r: int| lines[r]) =~= fields) by {
        assert(inner_rows(rows) =~= Seq::new(nf as nat, |i: int| 2 + i));
        assert forall|i: int| 0 <= i < nf implies lines[2 + i] == fields[i] by {}
    }
    assert(lines[0] == l0);
}

proof fn lemma_first_char(s: Seq<char>, c: char, m: int)
    requires
        0 <= m < s.len(),
        s[m] == c,
        forall|k: int| 0 <= k < m ==> s[k] != c,
    ensures
        find(s, seq![c]) == Some(m),
{
    assert forall|k: int| 0 <= k < m implies !#[trigger] matches_at(s, seq![c], k) by {
        lemma_match_char(s, c, k);
    }
    lemma_match_char(s, c, m);
    lemma_find_first(s, seq![c], 0, m);
}

/// The initializers are read between the first `{` and the first `}` after
/// it, and nowhere else: what stands before the `{` and after that `}`
/// changes nothing, and a text without `{` has none.
pub proof fn law_inits_read_between_first_braces(h: Seq<char>, m: Seq<char>, tail: Seq<char>)
    requires
        !h.contains('{'),
        !m.contains('}'),
    ensures
        none_inits(h + "{"@ + m + "}"@ + tail) == none_inits("{"@ + m + "}"@),
        none_inits(h + "{"@ + m + "}"@ + tail) is Some,
        none_inits(h) is None,
{
    reveal_strlit("{");
    reveal_strlit("}");
    assert("{"@ =~= seq!['{']);
    assert("}"@ =~= seq!['}']);
    let s1 = h + "{"@ + m + "}"@ + tail;
    let s2 = "{"@ + m + "}"@;
    let a = h.len() as int;
    assert(s1[a] == '{');
    assert forall|k: int| 0 <= k < a implies s1[k] != '{' by {
        assert(s1[k] == h[k]);
        assert(h.contains(h[k]));
    }
    lemma_first_char(s1, '{', a);
    assert(s2[0] == '{');
    lemma_first_char(s2, '{', 0);
    let r1 = s1.subrange(a + 1, s1.len() as int);
    let r2 = s2.subrange(1, s2.len() as int);
    let b = m.len() as int;
    assert(r1[b] == '}');
    assert(r2[b] == '}');
    assert forall|k: int| 0 <= k < b implies r1[k] != '}' && r2[k] != '}' by {
        assert(r1[k] == m[k]);
        assert(r2[k] == m[k]);
        assert(m.contains(m[k]));
    }
    lemma_first_char(r1, '}', b);
    lemma_first_char(r2, '}', b);
    assert(r1.subrange(0, b) =~= m);
    assert(r2.subrange(0, b) =~= m);
    lemma_no_match(h, '{');
}

/// Each initializer names its field: for a field part `pub n : T` (or
/// `n : T`), with any whitespace around, the initializer is `n:None,`,
/// whatever colons `T` holds.
pub proof fn law_initializer_names_its_field(
    parts: Seq<Seq<char>>,
    w1: Seq<char>,
    w2: Seq<char>,
    n: Seq<char>,
    w3: Seq<char>,
    t: Seq<char>,
)
    requires
        forall|k: int| 0 <= k < w1.len() ==> is_ws(#[trigger] w1[k]),
        w2.len() > 0,
        forall|k: int| 0 <= k < w2.len() ==> is_ws(#[trigger] w2[k]),
        forall|k: int| 0 <= k < w3.len() ==> is_ws(#[trigger] w3[k]),
        n.len() > 0,
        forall|k: int| 0 <= k < n.len() ==> word_char(#[trigger] n[k]),
    ensures
        inits_of(parts.push(w1 + "pub"@ + w2 + n + w3 + ":"@ + t)) == inits_of(parts) + n
            + ":None,"@,
        n != "pub"@ ==> inits_of(parts.push(w1 + n + w3 + ":"@ + t)) == inits_of(parts) + n
            + ":None,"@,
{
    reveal_strlit("pub");
    let v = "pub"@ + w2 + n;
    assert(v.subrange(0, 3) =~= "pub"@);
    assert(v[3] == w2[0]);
    lemma_word_char(w2[0]);
    assert(v.subrange(3, v.len() as int) =~= w2 + n);
    lemma_word_char(n[0]);
    lemma_word_char(n.last());
    lemma_trim_around(w2, n, seq![], seq![]);
    assert(w2 + n + seq![] + seq![] =~= w2 + n);
    assert(n + seq![] =~= n);
    assert(strip_vis(v) == n);
    lemma_first_colon(parts, w1, v, w3, t);
    assert(w1 + v + w3 + ":"@ + t =~= w1 + "pub"@ + w2 + n + w3 + ":"@ + t);
    if n != "pub"@ {
        if starts_with(n, "pub"@) {
            assert(n.len() > 3) by {
                if n.len() == 3 {
                    assert(n =~= n.subrange(0, 3));
                }
            }
            lemma_word_char(n[3]);
        }
        assert(strip_vis(n) == n);
        lemma_first_colon(parts, w1, n, w3, t);
    }
}

/// The name part of `w1 + v + w3 + ":" + t` is `v` trimmed, where `v` is a
/// run without `:` that starts and ends with a word character.
proof fn lemma_first_colon(parts: Seq<Seq<char>>, w1: Seq<char>, v: Seq<char>, w3: Seq<char>, t: Seq<char>)
    requires
        forall|k: int| 0 <= k < w1.len() ==> is_ws(#[trigger] w1[k]),
        forall|k: int| 0 <= k < w3.len() ==> is_ws(#[trigger] w3[k]),
        v.len() > 0,
        forall|k: int| 0 <= k < v.len() ==> #[trigger] v[k] != ':',
        word_char(v[0]),
        word_char(v.last()),
    ensures
        inits_of(parts.push(w1 + v + w3 + ":"@ + t)) == inits_of(parts) + strip_vis(v) + ":None,"@,
{
    reveal_strlit(":");
    let p = w1 + v + w3 + ":"@ + t;
    let m: int = (w1.len() + v.len() + w3.len()) as int;
    assert(":"@ =~= seq![':']);
    assert(p[m] == ':');
    assert forall|k: int| 0 <= k < m implies #[trigger] p[k] != ':' by {
        if k < w1.len() {
            assert(p[k] == w1[k]);
            lemma_word_char(':');
        } else if k < w1.len() + v.len() {
            assert(p[k] == v[k - w1.len()]);
        } else {
            assert(p[k] == w3[k - w1.len() - v.len()]);
            lemma_word_char(':');
        }
    }
    assert forall|k: int| 0 <= k < m implies !#[trigger] matches_at(p, ":"@, k) by {
        lemma_match_char(p, ':', k);
    }
    lemma_match_char(p, ':', m);
    lemma_find_first(p, ":"@, 0, m);
    assert(contains(p, ":"@));
    assert(p.subrange(0, m) =~= w1 + v + w3);
    lemma_trim_around(w1, v, seq![], w3);
    assert(w1 + v + seq![] + w3 =~= w1 + v + w3);
    assert(trim(seq![] + v + seq![]) == trim(v));
    assert(seq![] + v + seq![] =~= v);
    lemma_word_char(v[0]);
    lemma_word_char(v.last());
    assert(trim_start(v) == v);
    assert(trim(v) == v);
    assert(parts.push(p).drop_last() =~= parts);
    assert(parts.push(p).last() == p);
}

/// Whitespace around a run that starts and ends with a word character is
/// trimmed off exactly: `trim(a + v + x + b) == trim(v + x)` for leading
/// whitespace `a`, trailing whitespace `b`.
proof fn lemma_trim_around(a: Seq<char>, v: Seq<char>, x: Seq<char>, b: Seq<char>)
    requires
        forall|k: int| 0 <= k < a.len() ==> is_ws(#[trigger] a[k]),
        forall|k: int| 0 <= k < b.len() ==> is_ws(#[trigger] b[k]),
        v.len() > 0 || x.len() > 0,
        v.len() > 0 ==> word_char(v[0]),
        v.len() == 0 ==> !is_ws(x[0]),
        x.len() > 0 ==> word_char(x.last()),
        x.len() == 0 ==> word_char(v.last()),
    ensures
        trim(a + v + x + b) == v + x,
{
    let y = v + x;
    assert(y.len() > 0);
    if v.len() > 0 {
        assert(y[0] == v[0]);
        lemma_word_char(v[0]);
    } else {
        assert(y[0] == x[0]);
    }
    if x.len() > 0 {
        assert(y.last() == x.last());
        lemma_word_char(x.last());
    } else {
        assert(y.last() == v.last());
        lemma_word_char(v.last());
    }
    lemma_trim_start_ws(a, y + b);
    assert(a + v + x + b =~= a + (y + b));
    assert(trim_start(y + b) == y + b) by {
        assert((y + b)[0] == y[0]);
    }
    lemma_trim_end_ws(y, b);
    assert(trim_end(y) == y);
}

proof fn lemma_trim_start_ws(a: Seq<char>, y: Seq<char>)
    requires
        forall|k: int| 0 <= k < a.len() ==> is_ws(#[trigger] a[k]),
    ensures
        trim_start(a + y) == trim_start(y),
    decreases a.len(),
{
    if a.len() > 0 {
        assert((a + y)[0] == a[0]);
        assert((a + y).drop_first() =~= a.drop_first() + y);
        assert forall|k: int| 0 <= k < a.drop_first().len() implies is_ws(#[trigger] a.drop_first()[k]) by {
            assert(a.drop_first()[k] == a[k + 1]);
        }
        lemma_trim_start_ws(a.drop_first(), y);
    } else {
        assert(a + y =~= y);
    }
}

proof fn lemma_trim_end_ws(y: Seq<char>, b: Seq<char>)
    requires
        forall|k: int| 0 <= k < b.len() ==> is_ws(#[trigger] b[k]),
    ensures
        trim_end(y + b) == trim_end(y),
    decreases b.len(),
{
    if b.len() > 0 {
        assert((y + b).last() == b.last());
        assert((y + b).drop_last() =~= y + b.drop_last());
        assert forall|k: int| 0 <= k < b.drop_last().len() implies is_ws(#[trigger] b.drop_last()[k]) by {
            assert(b.drop_last()[k] == b[k]);
        }
        lemma_trim_end_ws(y, b.drop_last());
    } else {
        assert(y + b =~= y);
    }
}

} // verus!
