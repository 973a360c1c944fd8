//! Coalescing a row of cells into maximal runs of equal keys.
//!
//! A renderer draws one rectangle or one text string per run of adjacent
//! cells that look alike instead of one per cell. Each cell gets an optional
//! key; a run is a maximal block of adjacent cells with the same key, and
//! cells without a key belong to no run.
use vstd::prelude::*;

verus! {

/// A run of cells `start..end`.
#[derive(Clone, Copy, Debug, PartialEq, Eq, Structural)]
pub struct Span {
    pub start: usize,
    pub end: usize,
}

/// The bounds of the spans, as integers.
pub open spec fn bounds(spans: Seq<Span>) -> Seq<(int, int)> {
    spans.map_values(|s: Span| (s.start as int, s.end as int))
}

/// `sp` lists, from left to right, exactly the maximal blocks of adjacent
/// positions of `keys` that hold the same key; positions without a key are
/// in no block.
pub open spec fn segments(keys: Seq<Option<u32>>, sp: Seq<(int, int)>) -> bool {
    &&& forall|i: int| 0 <= i < sp.len() ==> 0 <= (#[trigger] sp[i]).0 < sp[i].1 <= keys.len()
    &&& forall|i: int, j: int| 0 <= i < j < sp.len() ==> (#[trigger] sp[i]).1 <= (#[trigger] sp[j]).0
    &&& forall|i: int, c: int|
        0 <= i < sp.len() && (#[trigger] sp[i]).0 <= c < sp[i].1 ==> (#[trigger] keys[c]) is Some
            && keys[c] == keys[sp[i].0]
    &&& forall|i: int|
        0 <= i < sp.len() && (#[trigger] sp[i]).0 > 0 ==> keys[sp[i].0 - 1] != keys[sp[i].0]
    &&& forall|i: int|
        0 <= i < sp.len() && (#[trigger] sp[i]).1 < keys.len() ==> keys[sp[i].1] != keys[sp[i].0]
    &&& forall|c: int|
        0 <= c < keys.len() && (#[trigger] keys[c]) is Some ==> exists|i: int|
            0 <= i < sp.len() && (#[trigger] sp[i]).0 <= c < sp[i].1
}

/// Split `keys` into its maximal runs of equal keys, from left to right.
pub fn segment(keys: &Vec<Option<u32>>) -> (spans: Vec<Span>)
    ensures
        segments(keys@, bounds(spans@)),
{
    let n = keys.len();
    let mut spans: Vec<Span> = Vec::new();
    let mut open: Option<(usize, u32)> = None;
    let mut i: usize = 0;
    while i < n
        invariant
            n == keys@.len(),
            i <= n,
            ({
                let sp = bounds(spans@);
                &&& forall|a: int| 0 <= a < sp.len() ==> 0 <= (#[trigger] sp[a]).0 < sp[a].1 <= i
                &&& forall|a: int, b: int|
                    0 <= a < b < sp.len() ==> (#[trigger] sp[a]).1 <= (#[trigger] sp[b]).0
                &&& forall|a: int, c: int|
                    0 <= a < sp.len() && (#[trigger] sp[a]).0 <= c < sp[a].1 ==> (
                    #[trigger] keys@[c]) is Some && keys@[c] == keys@[sp[a].0]
                &&& forall|a: int|
                    0 <= a < sp.len() && (#[trigger] sp[a]).0 > 0 ==> keys@[sp[a].0 - 1]
                        != keys@[sp[a].0]
                &&& forall|a: int|
                    0 <= a < sp.len() && (#[trigger] sp[a]).1 < n ==> keys@[sp[a].1]
                        != keys@[sp[a].0]
                &&& match open {
                    Some((s, k)) => {
                        &&& s < i
                        &&& forall|c: int| s <= c < i ==> #[trigger] keys@[c] == Some(k)
                        &&& (s > 0 ==> keys@[s - 1] != Some(k))
                        &&& forall|a: int| 0 <= a < sp.len() ==> (#[trigger] sp[a]).1 <= s
                        &&& forall|c: int|
                            0 <= c < s && (#[trigger] keys@[c]) is Some ==> exists|a: int|
                                0 <= a < sp.len() && (#[trigger] sp[a]).0 <= c < sp[a].1
                    },
                    None => {
                        &&& (i > 0 ==> keys@[i - 1] is None)
                        &&& forall|c: int|
                            0 <= c < i && (#[trigger] keys@[c]) is Some ==> exists|a: int|
                                0 <= a < sp.len() && (#[trigger] sp[a]).0 <= c < sp[a].1
                    },
                }
            }),
        decreases n - i,
    {
        let ghost sp0 = bounds(spans@);
        let key = keys[i];
        match key {
            None => {
                match open {
                    Some((s, k)) => {
                        spans.push(Span { start: s, end: i });
                        open = None;
                        proof {
                            let sp = bounds(spans@);
                            assert(sp =~= sp0.push((s as int, i as int)));
                            assert forall|c: int|
                                0 <= c < i + 1 && (#[trigger] keys@[c]) is Some implies exists|a: int|
                                0 <= a < sp.len() && (#[trigger] sp[a]).0 <= c < sp[a].1 by {
                                if c >= s {
                                    assert(sp[sp.len() - 1] == (s as int, i as int));
                                } else {
                                    let a = choose|a: int|
                                        0 <= a < sp0.len() && (#[trigger] sp0[a]).0 <= c < sp0[a].1;
                                    assert(sp[a] == sp0[a]);
                                }
                            }
                        }
                    },
                    None => {},
                }
            },
            Some(k) => {
                match open {
                    Some((s, ok)) => {
                        if ok != k {
                            spans.push(Span { start: s, end: i });
                            open = Some((i, k));
                            proof {
                                let sp = bounds(spans@);
                                assert(sp =~= sp0.push((s as int, i as int)));
                                assert forall|c: int|
                                    0 <= c < i && (#[trigger] keys@[c]) is Some implies exists|a: int|
                                    0 <= a < sp.len() && (#[trigger] sp[a]).0 <= c < sp[a].1 by {
                                    if c >= s {
                                        assert(sp[sp.len() - 1] == (s as int, i as int));
                                    } else {
                                        let a = choose|a: int|
                                            0 <= a < sp0.len() && (#[trigger] sp0[a]).0 <= c
                                                < sp0[a].1;
                                        assert(sp[a] == sp0[a]);
                                    }
                                }
                            }
                        }
                    },
                    None => {
                        open = Some((i, k));
                    },
                }
            },
        }
        i = i + 1;
    }
    let ghost sp0 = bounds(spans@);
    match open {
        Some((s, k)) => {
            spans.push(Span { start: s, end: n });
            proof {
                let sp = bounds(spans@);
                assert(sp =~= sp0.push((s as int, n as int)));
                assert forall|c: int|
                    0 <= c < n && (#[trigger] keys@[c]) is Some implies exists|a: int|
                    0 <= a < sp.len() && (#[trigger] sp[a]).0 <= c < sp[a].1 by {
                    if c >= s {
                        assert(sp[sp.len() - 1] == (s as int, n as int));
                    } else {
                        let a = choose|a: int|
                            0 <= a < sp0.len() && (#[trigger] sp0[a]).0 <= c < sp0[a].1;
                        assert(sp[a] == sp0[a]);
                    }
                }
            }
        },
        None => {},
    }
    spans
}

} // verus!
