//! The scripts and style sheets the single-user edition serves itself.

use crate::model::user::index_of_from;
use crate::text::{chars_eq, chars_of};
use vstd::prelude::*;

verus! {

/// A bundled asset.
#[derive(Debug, Clone, Copy, PartialEq, Eq, Structural)]
pub enum StaticAsset {
    Idiomorph,
    Pico,
    Ssr,
}

/// The index of the first `c` in `s`.
pub open spec fn first_index(s: Seq<char>, c: char) -> Option<int> {
    index_of_from(s, c, 0)
}

/// What the request for `name` serves: a name of the form `base.ext`, split at its first
/// `'.'`, with `ext` `css` or `js` and `base` (up to a first `'@'`, a version) one of the
/// bundled assets; the asset and its content type, or nothing (not found).
pub open spec fn asset_for(name: Seq<char>) -> Option<(StaticAsset, Seq<char>)> {
    match first_index(name, '.') {
        None => None,
        Some(dot) => {
            let base = name.subrange(0, dot);
            let ext = name.subrange(dot + 1, name.len() as int);
            let kind = if ext == "css"@ {
                Some("text/css"@)
            } else if ext == "js"@ {
                Some("text/javascript"@)
            } else {
                None
            };
            let stem = match first_index(base, '@') {
                Some(at) => base.subrange(0, at),
                None => base,
            };
            match kind {
                None => None,
                Some(k) => if stem == "idiomorph"@ {
                    Some((StaticAsset::Idiomorph, k))
                } else if stem == "pico"@ {
                    Some((StaticAsset::Pico, k))
                } else if stem == "ssr"@ {
                    Some((StaticAsset::Ssr, k))
                } else {
                    None
                },
            }
        },
    }
}

proof fn lemma_index_in_range(s: Seq<char>, c: char, from: int)
    ensures
        index_of_from(s, c, from) matches Some(i) ==> from <= i < s.len(),
    decreases s.len() - from,
{
    if 0 <= from < s.len() {
        lemma_index_in_range(s, c, from + 1);
    }
}

fn find_first(s: &[char], c: char) -> (r: Option<usize>)
    ensures
        r matches Some(i) ==> i < s@.len() && first_index(s@, c) == Some(i as int),
        r is None ==> first_index(s@, c) is None,
{
    let mut i: usize = 0;
    while i < s.len()
        invariant
            i <= s@.len(),
            index_of_from(s@, c, 0) == index_of_from(s@, c, i as int),
        decreases s@.len() - i,
    {
        if s[i] == c {
            return Some(i);
        }
        i = i + 1;
    }
    None
}

fn slice_range(s: &[char], from: usize, to: usize) -> (r: &[char])
    requires
        from <= to <= s@.len(),
    ensures
        r@ == s@.subrange(from as int, to as int),
{
    &s[from..to]
}

fn is_text(s: &[char], t: &str) -> (b: bool)
    ensures
        b == (s@ == t@),
{
    let tv = chars_of(t);
    chars_eq(s, tv.as_slice())
}

/// The asset and content type the request for `name` serves (see `asset_for`).
pub fn static_asset(name: &str) -> (r: Option<(StaticAsset, &'static str)>)
    ensures
        match asset_for(name@) {
            Some((a, k)) => r matches Some((b, t)) && b == a && t@ == k,
            None => r is None,
        },
{
    let cs = chars_of(name);
    let cv = cs.as_slice();
    assert(cv@ == name@);
    let dot = match find_first(cv, '.') {
        Some(d) => d,
        None => {
            return None;
        },
    };
    let n = cv.len();
    assert(dot < n);
    let after = dot + 1;
    let base = slice_range(cv, 0, dot);
    let ext = slice_range(cv, after, n);
    assert(base@ == cs@.subrange(0, dot as int));
    assert(ext@ == cs@.subrange(dot + 1, cs@.len() as int));
    let kind: &'static str = if is_text(ext, "css") {
        "text/css"
    } else if is_text(ext, "js") {
        "text/javascript"
    } else {
        return None;
    };
    let stem = match find_first(base, '@') {
        Some(at) => slice_range(base, 0, at),
        None => base,
    };
    if is_text(stem, "idiomorph") {
        Some((StaticAsset::Idiomorph, kind))
    } else if is_text(stem, "pico") {
        Some((StaticAsset::Pico, kind))
    } else if is_text(stem, "ssr") {
        Some((StaticAsset::Ssr, kind))
    } else {
        None
    }
}

} // verus!
