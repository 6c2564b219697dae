//! Tests on the bytes of a piece of source text.

use vstd::prelude::*;

verus! {

/// The bytes that a pattern written as a string stands for.
pub open spec fn pattern_bytes(pattern: String) -> Seq<u8> {
    vstd::utf8::encode_utf8(pattern@)
}

/// Whether `frag` stands in `text` at offset `at`.
pub open spec fn occurs_at(text: Seq<u8>, frag: Seq<u8>, at: int) -> bool {
    0 <= at && at + frag.len() <= text.len() && text.subrange(at, at + frag.len()) == frag
}

/// Whether the fragments from the `k`-th on occur in `text` one after the
/// other, without overlap, the first of them at `from` or later.
pub open spec fn in_order_from(text: Seq<u8>, frags: Seq<String>, k: int, from: int) -> bool
    decreases frags.len() - k,
{
    if k < 0 || k >= frags.len() {
        true
    } else {
        exists|p: int|
            from <= p && #[trigger] occurs_at(text, pattern_bytes(frags[k]), p) && in_order_from(
                text,
                frags,
                k + 1,
                p + pattern_bytes(frags[k]).len(),
            )
    }
}

/// An inclusive range of byte values.
#[derive(Debug, Clone, Copy, PartialEq, Eq)]
pub struct ByteRange {
    pub lo: u8,
    pub hi: u8,
}

/// Whether `b` lies in one of `ranges`.
pub open spec fn in_ranges(b: u8, ranges: Seq<ByteRange>) -> bool {
    exists|i: int| 0 <= i < ranges.len() && (#[trigger] ranges[i]).lo <= b <= ranges[i].hi
}

/// Whether every byte of `text` lies in one of `ranges`.
pub open spec fn all_in_ranges(text: Seq<u8>, ranges: Seq<ByteRange>) -> bool {
    forall|j: int| 0 <= j < text.len() ==> in_ranges(#[trigger] text[j], ranges)
}

/// Copies the bytes of `text` from `start` up to `end`.
pub fn slice_bytes(text: &[u8], start: usize, end: usize) -> (out: Vec<u8>)
    requires
        start <= end <= text@.len(),
    ensures
        out@ == text@.subrange(start as int, end as int),
{
    let mut out: Vec<u8> = Vec::new();
    let mut i: usize = start;
    while i < end
        invariant
            start <= i <= end <= text@.len(),
            out@ == text@.subrange(start as int, i as int),
        decreases end - i,
    {
        out.push(text[i]);
        assert(out@ =~= text@.subrange(start as int, i + 1));
        i += 1;
    }
    out
}

/// Decides whether `frag` stands in `text` at offset `at`.
pub fn matches_at(text: &[u8], frag: &[u8], at: usize) -> (found: bool)
    ensures
        found == occurs_at(text@, frag@, at as int),
{
    if frag.len() > text.len() || at > text.len() - frag.len() {
        return false;
    }
    let mut i: usize = 0;
    while i < frag.len()
        invariant
            i <= frag.len(),
            at + frag.len() <= text.len(),
            forall|j: int| 0 <= j < i ==> text@[at + j] == frag@[j],
        decreases frag.len() - i,
    {
        if text[at + i] != frag[i] {
            assert(text@.subrange(at as int, at + frag@.len())[i as int] != frag@[i as int]);
            return false;
        }
        i += 1;
    }
    assert(text@.subrange(at as int, at + frag@.len()) =~= frag@);
    true
}

/// Decides whether two byte strings are the same.
pub fn bytes_equal(a: &[u8], b: &[u8]) -> (same: bool)
    ensures
        same == (a@ == b@),
{
    if a.len() != b.len() {
        return false;
    }
    let found = matches_at(a, b, 0);
    assert(a@.subrange(0, a@.len() as int) =~= a@);
    found
}

/// The leftmost offset, `from` or later, at which `frag` stands in `text`.
pub fn find_from(text: &[u8], frag: &[u8], from: usize) -> (place: Option<usize>)
    ensures
        match place {
            Some(p) => from <= p && occurs_at(text@, frag@, p as int) && forall|q: int|
                from <= q < p ==> !occurs_at(text@, frag@, q),
            None => forall|q: int| from <= q ==> !occurs_at(text@, frag@, q),
        },
{
    if from > text.len() {
        return None;
    }
    let mut p: usize = from;
    while p < text.len()
        invariant
            from <= p <= text.len(),
            forall|q: int| from <= q < p ==> !occurs_at(text@, frag@, q),
        decreases text.len() - p,
    {
        if matches_at(text, frag, p) {
            return Some(p);
        }
        p += 1;
    }
    if matches_at(text, frag, p) {
        Some(p)
    } else {
        None
    }
}

/// Moving the start to the left keeps an ordered occurrence.
pub proof fn lemma_in_order_from_earlier(text: Seq<u8>, frags: Seq<String>, k: int, from: int, later: int)
    requires
        from <= later,
        in_order_from(text, frags, k, later),
    ensures
        in_order_from(text, frags, k, from),
{
    if 0 <= k < frags.len() {
        let p = choose|p: int|
            later <= p && #[trigger] occurs_at(text, pattern_bytes(frags[k]), p) && in_order_from(
                text,
                frags,
                k + 1,
                p + pattern_bytes(frags[k]).len(),
            );
        assert(from <= p && occurs_at(text, pattern_bytes(frags[k]), p));
    }
}

/// Decides whether the fragments occur in `text` one after the other,
/// without overlap.
pub fn contains_in_order(text: &[u8], frags: &Vec<String>) -> (found: bool)
    ensures
        found == in_order_from(text@, frags@, 0, 0),
{
    let mut pos: usize = 0;
    let mut k: usize = 0;
    while k < frags.len()
        invariant
            k <= frags.len(),
            in_order_from(text@, frags@, 0, 0) == in_order_from(text@, frags@, k as int, pos as int),
        decreases frags.len() - k,
    {
        let frag = frags[k].as_str().as_bytes();
        assert(frag@ == pattern_bytes(frags@[k as int]));
        match find_from(text, frag, pos) {
            None => {
                return false;
            },
            Some(p) => {
                proof {
                    let next = p + frag@.len();
                    if in_order_from(text@, frags@, k as int, pos as int) {
                        let q = choose|q: int|
                            pos <= q && #[trigger] occurs_at(text@, pattern_bytes(frags@[k as int]), q)
                                && in_order_from(
                                text@,
                                frags@,
                                k + 1,
                                q + pattern_bytes(frags@[k as int]).len(),
                            );
                        lemma_in_order_from_earlier(text@, frags@, k + 1, next, q + frag@.len());
                    }
                    if in_order_from(text@, frags@, k + 1, next) {
                        assert(occurs_at(text@, pattern_bytes(frags@[k as int]), p as int));
                    }
                }
                let limit = text.len();
                assert(p + frag@.len() <= limit);
                pos = p + frag.len();
            },
        }
        k += 1;
    }
    true
}

/// Decides whether `b` lies in one of `ranges`.
pub fn byte_in_ranges(b: u8, ranges: &Vec<ByteRange>) -> (found: bool)
    ensures
        found == in_ranges(b, ranges@),
{
    let mut i: usize = 0;
    while i < ranges.len()
        invariant
            i <= ranges.len(),
            forall|j: int| 0 <= j < i ==> !((#[trigger] ranges@[j]).lo <= b <= ranges@[j].hi),
        decreases ranges.len() - i,
    {
        if ranges[i].lo <= b && b <= ranges[i].hi {
            return true;
        }
        i += 1;
    }
    false
}

/// Decides whether every byte of `text` lies in one of `ranges`.
pub fn bytes_in_ranges(text: &[u8], ranges: &Vec<ByteRange>) -> (all: bool)
    ensures
        all == all_in_ranges(text@, ranges@),
{
    let mut j: usize = 0;
    while j < text.len()
        invariant
            j <= text.len(),
            forall|i: int| 0 <= i < j ==> in_ranges(#[trigger] text@[i], ranges@),
        decreases text.len() - j,
    {
        if !byte_in_ranges(text[j], ranges) {
            return false;
        }
        j += 1;
    }
    true
}

} // verus!
