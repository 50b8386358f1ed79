//! The argument text of the attribute: `derive="A,B"&&extends="path@struct"`.
use vstd::prelude::*;
use crate::text::{chars_of, split, split_exec, split_once, split_once_exec, string_of, views};

verus! {

/// The characters that the attribute text is stripped of before it is read.
pub open spec fn attr_noise(c: char) -> bool {
    c == '/' || c == '\n' || c == '\\' || c == '"' || c == ' '
}

/// The attribute text without slashes, newlines, backslashes, quotes and spaces.
pub open spec fn cleaned_attr(s: Seq<char>) -> Seq<char> {
    s.filter(|c: char| !attr_noise(c))
}

/// The `&&`-separated `key=value` segments.
pub open spec fn attr_segments(attr: Seq<char>) -> Seq<Seq<char>> {
    split(attr, "&&"@)
}

/// Every segment holds an `=`.
pub open spec fn attr_pairs_ok(attr: Seq<char>) -> bool {
    forall|k: int|
        0 <= k < attr_segments(attr).len() ==> (#[trigger] split_once(
            attr_segments(attr)[k],
            "="@,
        )) is Some
}

/// The value of the last segment whose key (the text before its first `=`)
/// is `key`.
pub open spec fn lookup_last(segs: Seq<Seq<char>>, key: Seq<char>) -> Option<Seq<char>>
    decreases segs.len(),
{
    if segs.len() == 0 {
        None
    } else {
        match split_once(segs.last(), "="@) {
            Some((k, v)) => if k == key {
                Some(v)
            } else {
                lookup_last(segs.drop_last(), key)
            },
            None => lookup_last(segs.drop_last(), key),
        }
    }
}

pub open spec fn attr_value_of(attr: Seq<char>, key: Seq<char>) -> Option<Seq<char>> {
    lookup_last(attr_segments(attr), key)
}

/// Strips the attribute text of slashes, newlines, backslashes, double quotes
/// and spaces.
pub fn clean_attr(s: &str) -> (r: String)
    ensures
        r@ == cleaned_attr(s@),
{
    let v = chars_of(s);
    let mut out: Vec<char> = Vec::new();
    let mut k: usize = 0;
    while k < v.len()
        invariant
            k <= v@.len(),
            out@ == v@.take(k as int).filter(|c: char| !attr_noise(c)),
        decreases v@.len() - k,
    {
        let c = v[k];
        proof {
            reveal(Seq::filter);
            assert(v@.take(k + 1).drop_last() =~= v@.take(k as int));
        }
        if !(c == '/' || c == '\n' || c == '\\' || c == '"' || c == ' ') {
            out.push(c);
        }
        k += 1;
    }
    assert(v@.take(v@.len() as int) =~= v@);
    string_of(out.as_slice())
}

/// The value of `key` in the attribute; the outer `None` where a segment
/// holds no `=`.
pub(crate) fn lookup_attr(attr: &[char], key: &[char]) -> (r: Option<Option<Vec<char>>>)
    ensures
        r is Some <==> attr_pairs_ok(attr@),
        r matches Some(o) ==> match o {
            Some(v) => attr_value_of(attr@, key@) == Some(v@),
            None => attr_value_of(attr@, key@) is None,
        },
{
    let sep = chars_of("&&");
    let eq = chars_of("=");
    proof {
        reveal_strlit("&&");
    }
    let segs = split_exec(attr, sep.as_slice());
    let ghost sg = views(segs@);
    let mut found: Option<Vec<char>> = None;
    let mut k: usize = 0;
    while k < segs.len()
        invariant
            k <= segs@.len(),
            sg == views(segs@),
            sg == attr_segments(attr@),
            eq@ == "="@,
            forall|j: int| 0 <= j < k ==> (#[trigger] split_once(sg[j], "="@)) is Some,
            match found {
                Some(v) => lookup_last(sg.take(k as int), key@) == Some(v@),
                None => lookup_last(sg.take(k as int), key@) is None,
            },
        decreases segs@.len() - k,
    {
        proof {
            assert(sg.take(k + 1).drop_last() =~= sg.take(k as int));
            assert(sg.take(k + 1).last() == sg[k as int]);
        }
        match split_once_exec(segs[k].as_slice(), eq.as_slice()) {
            Some((kk, vv)) => {
                let same = crate::text::same_chars(kk.as_slice(), key);
                if same {
                    found = Some(vv);
                }
            },
            None => {
                assert(split_once(sg[k as int], "="@) is None);
                return None;
            },
        }
        k += 1;
    }
    assert(sg.take(segs@.len() as int) =~= sg);
    Some(found)
}

/// Whether every `&&`-separated segment of the attribute holds an `=`.
pub fn attr_pairs_ready(attr: &str) -> (r: bool)
    ensures
        r == attr_pairs_ok(attr@),
{
    let a = chars_of(attr);
    let k = chars_of("");
    lookup_attr(a.as_slice(), k.as_slice()).is_some()
}

/// The value given to `key` in the attribute text: that of the last
/// `key=value` segment with this key, the value being everything after the
/// segment's first `=`.
pub fn attr_value(attr: &str, key: &str) -> (r: Option<String>)
    requires
        attr_pairs_ok(attr@),
    ensures
        match r {
            Some(v) => attr_value_of(attr@, key@) == Some(v@),
            None => attr_value_of(attr@, key@) is None,
        },
{
    let a = chars_of(attr);
    let k = chars_of(key);
    match lookup_attr(a.as_slice(), k.as_slice()) {
        Some(Some(v)) => Some(string_of(v.as_slice())),
        _ => None,
    }
}

} // verus!
