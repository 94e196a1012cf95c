//! Ordering listings: projects by last activity, sessions by modification
//! time — newest first, ties in their original order.
//!
//! The sort works on indices, so a caller can order any listing by the
//! keys it derives from it.

use vstd::prelude::*;

verus! {

/// Does some position of `s` hold the value `v`?
pub open spec fn holds_value(s: Seq<usize>, v: int) -> bool {
    exists|j: int| 0 <= j < s.len() && (#[trigger] s[j]) == v
}

/// Sort the positions `0..keys.len()` so that their keys descend; equal
/// keys keep their original order.  The result is a permutation: every
/// position appears exactly once.
pub fn sort_indices_desc(keys: &Vec<u64>) -> (r: Vec<usize>)
    ensures
        r@.len() == keys@.len(),
        forall|j: int| 0 <= j < r@.len() ==> (#[trigger] r@[j]) < keys@.len(),
        forall|i: int, j: int| 0 <= i < j < r@.len() ==> r@[i] != r@[j],
        forall|v: int| 0 <= v < keys@.len() ==> #[trigger] holds_value(r@, v),
        forall|i: int, j: int|
            0 <= i < j < r@.len() ==> keys@[r@[i] as int] >= keys@[r@[j] as int],
        forall|i: int, j: int|
            0 <= i < j < r@.len() && keys@[r@[i] as int] == keys@[r@[j] as int] ==> r@[i] < r@[j],
{
    let n = keys.len();
    let mut out: Vec<usize> = Vec::new();
    let mut k: usize = 0;
    while k < n
        invariant
            n == keys@.len(),
            k <= n,
            out@.len() == k,
            forall|j: int| 0 <= j < out@.len() ==> (#[trigger] out@[j]) < k,
            forall|i: int, j: int| 0 <= i < j < out@.len() ==> out@[i] != out@[j],
            forall|v: int| 0 <= v < k ==> #[trigger] holds_value(out@, v),
            forall|i: int, j: int|
                0 <= i < j < out@.len() ==> keys@[out@[i] as int] >= keys@[out@[j] as int],
            forall|i: int, j: int|
                0 <= i < j < out@.len() && keys@[out@[i] as int] == keys@[out@[j] as int]
                    ==> out@[i] < out@[j],
        decreases n - k,
    {
        let mut pos: usize = out.len();
        while pos > 0 && keys[out[pos - 1]] < keys[k]
            invariant
                n == keys@.len(),
                k < n,
                out@.len() == k,
                pos <= k,
                forall|j: int| 0 <= j < out@.len() ==> (#[trigger] out@[j]) < k,
                forall|j: int|
                    pos <= j < out@.len() ==> keys@[(#[trigger] out@[j]) as int] < keys@[k as int],
            decreases pos,
        {
            pos = pos - 1;
        }
        let ghost pre = out@;
        out.insert(pos, k);
        proof {
            assert(out@.len() == k + 1);
            assert forall|j: int| 0 <= j < out@.len() implies (#[trigger] out@[j]) < k + 1 by {
                if j < pos {
                    assert(out@[j] == pre[j]);
                } else if j == pos {
                } else {
                    assert(out@[j] == pre[j - 1]);
                }
            }
            assert forall|i: int, j: int| 0 <= i < j < out@.len() implies out@[i] != out@[j] by {
                let pi = if i < pos { i } else { i - 1 };
                let pj = if j < pos { j } else { j - 1 };
                if i == pos {
                    assert(out@[j] == pre[j - 1]);
                    assert(pre[j - 1] < k);
                } else if j == pos {
                    assert(out@[i] == pre[i]);
                    assert(pre[i] < k);
                } else {
                    assert(out@[i] == pre[pi]);
                    assert(out@[j] == pre[pj]);
                }
            }
            assert forall|v: int| 0 <= v < k + 1 implies #[trigger] holds_value(out@, v) by {
                if v == k {
                    assert(out@[pos as int] == k);
                } else {
                    assert(holds_value(pre, v));
                    let j0 = choose|j0: int| 0 <= j0 < pre.len() && (#[trigger] pre[j0]) == v;
                    if j0 < pos {
                        assert(out@[j0] == v);
                    } else {
                        assert(out@[j0 + 1] == v);
                    }
                }
            }
            if pos > 0 {
                assert(keys@[pre[pos - 1] as int] >= keys@[k as int]);
            }
            assert forall|i: int, j: int|
                0 <= i < j < out@.len() implies keys@[out@[i] as int] >= keys@.index(
                out@[j] as int,
            ) by {
                let pi = if i < pos { i } else { i - 1 };
                let pj = if j < pos { j } else { j - 1 };
                if i == pos {
                    assert(out@[j] == pre[j - 1]);
                } else if j == pos {
                    assert(out@[i] == pre[i]);
                    if i < pos - 1 {
                        assert(keys@[pre[i] as int] >= keys@[pre[pos - 1] as int]);
                    }
                } else {
                    assert(out@[i] == pre[pi]);
                    assert(out@[j] == pre[pj]);
                }
            }
            assert forall|i: int, j: int|
                0 <= i < j < out@.len() && keys@[out@[i] as int] == keys@[out@[j] as int]
                    implies out@[i] < out@[j] by {
                let pi = if i < pos { i } else { i - 1 };
                let pj = if j < pos { j } else { j - 1 };
                if i == pos {
                    // everything after the insertion point has a strictly
                    // smaller key
                    assert(out@[j] == pre[j - 1]);
                    assert(keys@[pre[j - 1] as int] < keys@[k as int]);
                } else if j == pos {
                    assert(out@[i] == pre[i]);
                    assert(pre[i] < k);
                } else {
                    assert(out@[i] == pre[pi]);
                    assert(out@[j] == pre[pj]);
                }
            }
        }
        k = k + 1;
    }
    out
}

/// Whether the newest session still counts as recent: with no window
/// everything does, with no known modification time the session passes,
/// and otherwise its age must lie within the window.
pub fn latest_is_recent(mtime: Option<u64>, now_ms: u64, within_seconds: Option<u64>) -> (r:
    bool)
    ensures
        r == (match (mtime, within_seconds) {
            (Some(m), Some(w)) => (if now_ms >= m {
                (now_ms - m) as int
            } else {
                0int
            }) <= w as int * 1000,
            _ => true,
        }),
{
    match (mtime, within_seconds) {
        (Some(m), Some(w)) => {
            let age_ms: u64 = if now_ms >= m {
                now_ms - m
            } else {
                0
            };
            if w > u64::MAX / 1000 {
                // The window covers more than the clock can express.
                true
            } else {
                age_ms <= w * 1000
            }
        },
        _ => true,
    }
}

/// Cut a listing down to a requested size; no limit keeps everything.
pub fn apply_limit(order: Vec<usize>, limit: Option<usize>) -> (r: Vec<usize>)
    ensures
        r@ == (match limit {
            Some(l) => if l < order@.len() {
                order@.subrange(0, l as int)
            } else {
                order@
            },
            None => order@,
        }),
{
    match limit {
        Some(l) => {
            let mut v = order;
            if l < v.len() {
                v.truncate(l);
            }
            v
        },
        None => order,
    }
}

} // verus!
