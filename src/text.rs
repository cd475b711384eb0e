//! Searching and slicing text by characters.
use vstd::prelude::*;

verus! {

pub open spec fn is_prefix_of(p: Seq<char>, s: Seq<char>) -> bool {
    p.len() <= s.len() && s.subrange(0, p.len() as int) == p
}

pub open spec fn occurs_at(s: Seq<char>, p: Seq<char>, i: int) -> bool {
    0 <= i && i + p.len() <= s.len() && s.subrange(i, i + p.len()) == p
}

/// The first position at or after `i` where `p` occurs in `s`.
pub open spec fn find_text(s: Seq<char>, p: Seq<char>, i: int) -> Option<int>
    decreases s.len() + 1 - i,
{
    if i < 0 || i + p.len() > s.len() {
        None
    } else if occurs_at(s, p, i) {
        Some(i)
    } else {
        find_text(s, p, i + 1)
    }
}

pub fn text_eq(a: &str, b: &str) -> (r: bool)
    ensures
        r == (a@ == b@),
{
    let x = String::from_str(a);
    let y = String::from_str(b);
    x == y
}

pub fn starts_with_text(s: &str, p: &str) -> (r: bool)
    ensures
        r == is_prefix_of(p@, s@),
{
    let plen = p.unicode_len();
    let slen = s.unicode_len();
    if plen > slen {
        false
    } else {
        text_eq(s.substring_char(0, plen), p)
    }
}

/// The first position at or after `from` where `p` occurs in `s`.
pub fn find_text_from(s: &str, p: &str, from: usize) -> (r: Option<usize>)
    ensures
        r matches Some(i) ==> find_text(s@, p@, from as int) == Some(i as int) && i + p@.len() <= s@.len(),
        r is None ==> find_text(s@, p@, from as int) is None,
{
    let plen = p.unicode_len();
    let slen = s.unicode_len();
    let mut i: usize = from;
    while i <= slen && slen - i >= plen
        invariant
            plen == p@.len(),
            slen == s@.len(),
            from <= i,
            find_text(s@, p@, from as int) == find_text(s@, p@, i as int),
        decreases slen + 1 - i,
    {
        if text_eq(s.substring_char(i, i + plen), p) {
            return Some(i);
        }
        if i == slen {
            assert(!occurs_at(s@, p@, i as int));
            assert(find_text(s@, p@, i as int + 1) is None);
            return None;
        }
        i = i + 1;
    }
    None
}

/// The characters of `s` from `from` up to `to`, as an owned string.
pub fn slice_text(s: &str, from: usize, to: usize) -> (r: String)
    requires
        from <= to <= s@.len(),
    ensures
        r@ == s@.subrange(from as int, to as int),
{
    String::from_str(s.substring_char(from, to))
}

} // verus!
