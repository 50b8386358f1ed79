//! The scanner that finds struct definitions and inherent impl blocks in
//! Rust source text, whether written by hand or printed from tokens.
//!
//! The grammar, with `ws` a run of whitespace and `ws?` an optional one:
//!
//! ```text
//! file    = (struct | impl | any char)*         tried in this order at each position
//! struct  = (derive ws?)? ("pub" ws)? "struct" ws ident ws? "{" body "}"
//! impl    = "impl" ws ident ws? "{" body "}"
//! derive  = "#" ws? "[" ws? "derive" ws? "(" (not ")")* ")" ws? "]"
//! ident   = (ASCII letter | ASCII digit | "_")+
//! body    = text in which `{` and `}` balance; it ends at the `}` that closes the first `{`
//! ```
//!
//! A struct yields its derive attribute as written (empty when there is
//! none), its name and its body; an impl its type name and its body.
use vstd::prelude::*;
use crate::text::{
    copy_range, find_from, find_from_exec, is_ws, is_ws_char, lemma_find_from_found, matches_at,
    matches_at_exec, opt_int, string_of,
};

verus! {

pub open spec fn is_ident_char(c: char) -> bool {
    ('a' <= c && c <= 'z') || ('A' <= c && c <= 'Z') || ('0' <= c && c <= '9') || c == '_'
}

/// An identifier that a token of its own can spell: an ASCII letter or `_`
/// followed by ASCII letters, digits and `_`.
pub open spec fn is_rust_ident(n: Seq<char>) -> bool {
    &&& n.len() > 0
    &&& !('0' <= n[0] && n[0] <= '9')
    &&& forall|i: int| 0 <= i < n.len() ==> is_ident_char(#[trigger] n[i])
}

pub open spec fn char_at(s: Seq<char>, i: int, c: char) -> bool {
    0 <= i < s.len() && s[i] == c
}

/// The first position `>= i` that does not hold whitespace.
pub open spec fn skip_ws(s: Seq<char>, i: int) -> int
    decreases s.len() - i,
{
    if 0 <= i < s.len() && is_ws(s[i]) {
        skip_ws(s, i + 1)
    } else {
        i
    }
}

/// The first position `>= i` that does not hold an identifier character.
pub open spec fn ident_end(s: Seq<char>, i: int) -> int
    decreases s.len() - i,
{
    if 0 <= i < s.len() && is_ident_char(s[i]) {
        ident_end(s, i + 1)
    } else {
        i
    }
}

/// The position of the `}` that brings the number of open braces from
/// `depth` down to zero, scanning from `i`.
pub open spec fn close_brace(s: Seq<char>, i: int, depth: nat) -> Option<int>
    decreases s.len() - i,
{
    if i < 0 || i >= s.len() {
        None
    } else if s[i] == '{' {
        close_brace(s, i + 1, depth + 1)
    } else if s[i] == '}' {
        if depth <= 1 {
            Some(i)
        } else {
            close_brace(s, i + 1, (depth - 1) as nat)
        }
    } else {
        close_brace(s, i + 1, depth)
    }
}

/// The keyword `kw` at `i`, followed by whitespace.
pub open spec fn keyword_at(s: Seq<char>, i: int, kw: Seq<char>) -> bool {
    matches_at(s, kw, i) && 0 <= i + kw.len() < s.len() && is_ws(s[i + kw.len()])
}

/// The end of a derive attribute that starts at `i`.
pub open spec fn derive_end(s: Seq<char>, i: int) -> Option<int> {
    if !char_at(s, i, '#') {
        None
    } else {
        let a = skip_ws(s, i + 1);
        if !char_at(s, a, '[') {
            None
        } else {
            let b = skip_ws(s, a + 1);
            if !matches_at(s, "derive"@, b) {
                None
            } else {
                let c = skip_ws(s, b + 6);
                if !char_at(s, c, '(') {
                    None
                } else {
                    match find_from(s, ")"@, c + 1) {
                        None => None,
                        Some(d) => {
                            let e = skip_ws(s, d + 1);
                            if char_at(s, e, ']') {
                                Some(e + 1)
                            } else {
                                None
                            }
                        },
                    }
                }
            }
        }
    }
}

/// A struct found in the source: its derive attribute (empty when absent),
/// name and body; or an impl block: its type name and body.
pub enum ItemView {
    Struct { derive: Seq<char>, name: Seq<char>, body: Seq<char> },
    Impl { name: Seq<char>, body: Seq<char> },
}

/// A named item with a braced body: name `s[n0..n1]`, `{` at or after `n1`.
pub open spec fn braced_after(s: Seq<char>, n0: int) -> Option<(Seq<char>, Seq<char>, int)> {
    let n1 = ident_end(s, n0);
    if n1 == n0 {
        None
    } else {
        let o = skip_ws(s, n1);
        if !char_at(s, o, '{') {
            None
        } else {
            match close_brace(s, o + 1, 1) {
                None => None,
                Some(c) => Some((s.subrange(n0, n1), s.subrange(o + 1, c), c + 1)),
            }
        }
    }
}

/// The struct definition that starts at `i`, with the position after it.
pub open spec fn struct_at(s: Seq<char>, i: int) -> Option<(ItemView, int)> {
    let (derive, j) = match derive_end(s, i) {
        Some(e) => (s.subrange(i, e), skip_ws(s, e)),
        None => (seq![], i),
    };
    let k = if keyword_at(s, j, "pub"@) {
        skip_ws(s, j + 3)
    } else {
        j
    };
    if !keyword_at(s, k, "struct"@) {
        None
    } else {
        match braced_after(s, skip_ws(s, k + 6)) {
            None => None,
            Some((name, body, end)) => Some((ItemView::Struct { derive, name, body }, end)),
        }
    }
}

/// The impl block that starts at `i`, with the position after it.
pub open spec fn impl_at(s: Seq<char>, i: int) -> Option<(ItemView, int)> {
    if !keyword_at(s, i, "impl"@) {
        None
    } else {
        match braced_after(s, skip_ws(s, i + 4)) {
            None => None,
            Some((name, body, end)) => Some((ItemView::Impl { name, body }, end)),
        }
    }
}

/// The item that starts at `i`: a struct if one does, else an impl block.
pub open spec fn item_at(s: Seq<char>, i: int) -> Option<(ItemView, int)> {
    match struct_at(s, i) {
        Some(r) => Some(r),
        None => impl_at(s, i),
    }
}

/// The items of `s` from position `i` on.
pub open spec fn items_from(s: Seq<char>, i: int) -> Seq<ItemView>
    decreases s.len() - i,
{
    if i < 0 || i >= s.len() {
        seq![]
    } else {
        match item_at(s, i) {
            Some((item, end)) => {
                proof {
                    lemma_item_at_end(s, i);
                }
                seq![item] + items_from(s, end)
            },
            None => items_from(s, i + 1),
        }
    }
}

/// The items of the whole text.
pub open spec fn source_items(s: Seq<char>) -> Seq<ItemView> {
    items_from(s, 0)
}

pub proof fn lemma_skip_ws(s: Seq<char>, i: int)
    ensures
        i <= skip_ws(s, i),
        0 <= i <= s.len() ==> skip_ws(s, i) <= s.len(),
    decreases s.len() - i,
{
    if 0 <= i < s.len() && is_ws(s[i]) {
        lemma_skip_ws(s, i + 1);
    }
}

pub proof fn lemma_ident_end(s: Seq<char>, i: int)
    ensures
        i <= ident_end(s, i),
        0 <= i <= s.len() ==> ident_end(s, i) <= s.len(),
    decreases s.len() - i,
{
    if 0 <= i < s.len() && is_ident_char(s[i]) {
        lemma_ident_end(s, i + 1);
    }
}

pub proof fn lemma_close_brace(s: Seq<char>, i: int, depth: nat)
    ensures
        close_brace(s, i, depth) matches Some(c) ==> i <= c < s.len(),
    decreases s.len() - i,
{
    if i < 0 || i >= s.len() {
    } else if s[i] == '{' {
        lemma_close_brace(s, i + 1, depth + 1);
    } else if s[i] == '}' {
        if depth > 1 {
            lemma_close_brace(s, i + 1, (depth - 1) as nat);
        }
    } else {
        lemma_close_brace(s, i + 1, depth);
    }
}

pub proof fn lemma_braced_after(s: Seq<char>, n0: int)
    requires
        0 <= n0,
    ensures
        braced_after(s, n0) matches Some((_, _, e)) ==> n0 < e <= s.len(),
{
    let n1 = ident_end(s, n0);
    lemma_ident_end(s, n0);
    let o = skip_ws(s, n1);
    lemma_skip_ws(s, n1);
    lemma_close_brace(s, o + 1, 1);
}

/// An item found at `i` ends after `i`.
pub proof fn lemma_item_at_end(s: Seq<char>, i: int)
    requires
        0 <= i,
    ensures
        item_at(s, i) matches Some((_, e)) ==> i < e <= s.len(),
{
    match derive_end(s, i) {
        Some(e) => {
            lemma_skip_ws(s, i + 1);
            let a = skip_ws(s, i + 1);
            lemma_skip_ws(s, a + 1);
            let b = skip_ws(s, a + 1);
            lemma_skip_ws(s, b + 6);
            let c = skip_ws(s, b + 6);
            lemma_find_from_found(s, ")"@, c + 1);
            let d = find_from(s, ")"@, c + 1).unwrap();
            lemma_skip_ws(s, d + 1);
            lemma_skip_ws(s, e);
        },
        None => {},
    }
    let j = match derive_end(s, i) {
        Some(e) => skip_ws(s, e),
        None => i,
    };
    lemma_skip_ws(s, j + 3);
    let k = if keyword_at(s, j, "pub"@) {
        skip_ws(s, j + 3)
    } else {
        j
    };
    lemma_skip_ws(s, k + 6);
    lemma_braced_after(s, skip_ws(s, k + 6));
    lemma_skip_ws(s, i + 4);
    lemma_braced_after(s, skip_ws(s, i + 4));
}


// ----------------------------------------------------------------------------
// Executable scanner
// ----------------------------------------------------------------------------

/// A struct definition or an impl block found in source text.
pub enum SourceItem {
    Struct { derive: String, name: String, body: String },
    Impl { name: String, body: String },
}

impl View for SourceItem {
    type V = ItemView;

    open spec fn view(&self) -> ItemView {
        match self {
            SourceItem::Struct { derive, name, body } => ItemView::Struct {
                derive: derive@,
                name: name@,
                body: body@,
            },
            SourceItem::Impl { name, body } => ItemView::Impl { name: name@, body: body@ },
        }
    }
}

pub open spec fn item_views(v: Seq<SourceItem>) -> Seq<ItemView> {
    Seq::new(v.len(), |i: int| v[i]@)
}

pub(crate) fn skip_ws_exec(s: &[char], i: usize) -> (r: usize)
    requires
        i <= s@.len(),
    ensures
        r == skip_ws(s@, i as int),
        i <= r <= s@.len(),
{
    let n = s.len();
    let mut j = i;
    while j < n && is_ws_char(s[j])
        invariant
            n == s@.len(),
            i <= j <= n,
            skip_ws(s@, i as int) == skip_ws(s@, j as int),
        decreases n - j,
    {
        j += 1;
    }
    j
}

/// Whether `n` is an identifier (see `is_rust_ident`).
pub fn is_rust_ident_exec(n: &[char]) -> (r: bool)
    ensures
        r == is_rust_ident(n@),
{
    if n.len() == 0 || ('0' <= n[0] && n[0] <= '9') {
        return false;
    }
    let mut i: usize = 0;
    while i < n.len()
        invariant
            i <= n@.len(),
            forall|j: int| 0 <= j < i ==> is_ident_char(#[trigger] n@[j]),
        decreases n@.len() - i,
    {
        let c = n[i];
        if !(('a' <= c && c <= 'z') || ('A' <= c && c <= 'Z') || ('0' <= c && c <= '9') || c == '_') {
            return false;
        }
        i += 1;
    }
    true
}

fn ident_end_exec(s: &[char], i: usize) -> (r: usize)
    requires
        i <= s@.len(),
    ensures
        r == ident_end(s@, i as int),
        i <= r <= s@.len(),
{
    let n = s.len();
    let mut j = i;
    while j < n && (('a' <= s[j] && s[j] <= 'z') || ('A' <= s[j] && s[j] <= 'Z') || ('0' <= s[j]
        && s[j] <= '9') || s[j] == '_')
        invariant
            n == s@.len(),
            i <= j <= n,
            ident_end(s@, i as int) == ident_end(s@, j as int),
        decreases n - j,
    {
        j += 1;
    }
    j
}

fn close_brace_exec(s: &[char], i: usize) -> (r: Option<usize>)
    requires
        1 <= i <= s@.len(),
    ensures
        opt_int(r) == close_brace(s@, i as int, 1),
{
    let n = s.len();
    let mut j = i;
    let mut depth: usize = 1;
    while j < n
        invariant
            n == s@.len(),
            i <= j <= n,
            1 <= depth <= j,
            close_brace(s@, i as int, 1) == close_brace(s@, j as int, depth as nat),
        decreases n - j,
    {
        if s[j] == '{' {
            depth += 1;
        } else if s[j] == '}' {
            if depth <= 1 {
                return Some(j);
            }
            depth -= 1;
        }
        j += 1;
    }
    None
}

fn char_at_exec(s: &[char], i: usize, c: char) -> (r: bool)
    ensures
        r == char_at(s@, i as int, c),
{
    i < s.len() && s[i] == c
}

fn keyword_at_exec(s: &[char], i: usize, kw: &[char]) -> (r: bool)
    requires
        i <= s@.len(),
    ensures
        r == keyword_at(s@, i as int, kw@),
{
    let n = s.len();
    if kw.len() >= n - i {
        return false;
    }
    matches_at_exec(s, kw, i) && is_ws_char(s[i + kw.len()])
}

fn derive_end_exec(s: &[char], i: usize) -> (r: Option<usize>)
    requires
        i <= s@.len(),
    ensures
        opt_int(r) == derive_end(s@, i as int),
        r matches Some(e) ==> i < e <= s@.len(),
{
    let n = s.len();
    if !char_at_exec(s, i, '#') {
        return None;
    }
    let a = skip_ws_exec(s, i + 1);
    if !char_at_exec(s, a, '[') {
        return None;
    }
    let b = skip_ws_exec(s, a + 1);
    let word = crate::text::chars_of("derive");
    proof {
        reveal_strlit("derive");
    }
    if word.len() > n - b || !matches_at_exec(s, word.as_slice(), b) {
        return None;
    }
    let c = skip_ws_exec(s, b + 6);
    if !char_at_exec(s, c, '(') {
        return None;
    }
    let close = crate::text::chars_of(")");
    proof {
        reveal_strlit(")");
    }
    match find_from_exec(s, close.as_slice(), c + 1) {
        None => None,
        Some(d) => {
            proof {
                lemma_find_from_found(s@, close@, c + 1);
            }
            let e = skip_ws_exec(s, d + 1);
            if char_at_exec(s, e, ']') {
                Some(e + 1)
            } else {
                None
            }
        },
    }
}

fn braced_after_exec(s: &[char], n0: usize) -> (r: Option<(Vec<char>, Vec<char>, usize)>)
    requires
        n0 <= s@.len(),
    ensures
        match r {
            Some((a, b, e)) => braced_after(s@, n0 as int) == Some((a@, b@, e as int)),
            None => braced_after(s@, n0 as int) is None,
        },
{
    let n = s.len();
    let n1 = ident_end_exec(s, n0);
    if n1 == n0 {
        return None;
    }
    let o = skip_ws_exec(s, n1);
    if !char_at_exec(s, o, '{') {
        return None;
    }
    match close_brace_exec(s, o + 1) {
        None => None,
        Some(c) => {
            proof {
                lemma_close_brace(s@, o + 1, 1);
            }
            Some((copy_range(s, n0, n1), copy_range(s, o + 1, c), c + 1))
        },
    }
}

fn item_at_exec(s: &[char], i: usize) -> (r: Option<(SourceItem, usize)>)
    requires
        i < s@.len(),
    ensures
        match r {
            Some((item, e)) => item_at(s@, i as int) == Some((item@, e as int)),
            None => item_at(s@, i as int) is None,
        },
{
    let n = s.len();
    let pub_kw = crate::text::chars_of("pub");
    let struct_kw = crate::text::chars_of("struct");
    let impl_kw = crate::text::chars_of("impl");
    proof {
        reveal_strlit("pub");
        reveal_strlit("struct");
        reveal_strlit("impl");
    }
    let (derive, j) = match derive_end_exec(s, i) {
        Some(e) => (copy_range(s, i, e), skip_ws_exec(s, e)),
        None => (Vec::new(), i),
    };
    assert(derive@ =~= match derive_end(s@, i as int) {
        Some(e) => s@.subrange(i as int, e),
        None => seq![],
    });
    let k = if keyword_at_exec(s, j, pub_kw.as_slice()) {
        skip_ws_exec(s, j + 3)
    } else {
        j
    };
    if keyword_at_exec(s, k, struct_kw.as_slice()) {
        let m = skip_ws_exec(s, k + 6);
        match braced_after_exec(s, m) {
            Some((name, body, end)) => {
                let item = SourceItem::Struct {
                    derive: string_of(derive.as_slice()),
                    name: string_of(name.as_slice()),
                    body: string_of(body.as_slice()),
                };
                return Some((item, end));
            },
            None => {},
        }
    }
    assert(struct_at(s@, i as int) is None);
    if keyword_at_exec(s, i, impl_kw.as_slice()) {
        let m = skip_ws_exec(s, i + 4);
        match braced_after_exec(s, m) {
            Some((name, body, end)) => {
                let item = SourceItem::Impl {
                    name: string_of(name.as_slice()),
                    body: string_of(body.as_slice()),
                };
                return Some((item, end));
            },
            None => {},
        }
    }
    None
}

/// The scanner for struct definitions and impl blocks (see the module's
/// grammar).
pub struct ExtendsParser;

impl ExtendsParser {
    /// The struct definitions and impl blocks of `text`, in order.
    pub fn parse(text: &str) -> (r: Vec<SourceItem>)
        ensures
            item_views(r@) == source_items(text@),
    {
        let v = crate::text::chars_of(text);
        let s = v.as_slice();
        let n = s.len();
        let mut out: Vec<SourceItem> = Vec::new();
        let mut i: usize = 0;
        while i < n
            invariant
                n == s@.len(),
                s@ == text@,
                i <= n,
                item_views(out@) + items_from(s@, i as int) == items_from(s@, 0),
            decreases n - i,
        {
            proof {
                lemma_item_at_end(s@, i as int);
            }
            match item_at_exec(s, i) {
                Some((item, end)) => {
                    let ghost before = out@;
                    let ghost iv = item@;
                    out.push(item);
                    assert(item_views(out@) =~= item_views(before).push(iv));
                    assert(item_views(out@) + items_from(s@, end as int) =~= item_views(before) + (
                    seq![iv] + items_from(s@, end as int)));
                    i = end;
                },
                None => {
                    i += 1;
                },
            }
        }
        assert(item_views(out@) =~= items_from(s@, 0));
        out
    }
}

} // verus!
