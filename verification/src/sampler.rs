//! Randomized winner selection: a partial Fisher-Yates shuffle driven by a
//! caller-supplied seed, returning `min(count, n)` distinct entries of the
//! participant list.

use vstd::prelude::*;

verus! {

/// True when the sequence holds no entry twice.
pub open spec fn distinct_seq(s: Seq<String>) -> bool {
    forall|i: int, j: int| 0 <= i < j < s.len() ==> s[i]@ != s[j]@
}

/// One step of a xorshift walk over `u64`; the successor of a draw state.
pub fn xorshift64(state: u64) -> u64 {
    let mut s = state;
    s = s ^ (s << 13u64);
    s = s ^ (s >> 7u64);
    s = s ^ (s << 17u64);
    s
}

/// Draw up to `count` winners from `participants`, shuffling with the walk
/// seeded by `seed`. The result has exactly `min(count, n)` entries, each an
/// entry of `participants`; no entry is drawn twice.
pub fn pick_winners(participants: &Vec<String>, count: usize, seed: u64) -> (winners: Vec<
    String,
>)
    requires
        distinct_seq(participants@),
    ensures
        winners@.len() == min_usize(count, participants@.len() as usize),
        distinct_seq(winners@),
        forall|i: int|
            0 <= i < winners@.len() ==> #[trigger] participants@.contains(winners@[i]),
{
    if participants.len() == 0 {
        let empty: Vec<String> = Vec::new();
        return empty;
    }
    let n = participants.len();
    let pick = if count < n {
        count
    } else {
        n
    };

    let mut pool: Vec<String> = Vec::new();
    let mut k: usize = 0;
    while k < n
        invariant
            k <= n,
            n == participants@.len(),
            pool@.len() == k as int,
            forall|i: int| 0 <= i < k as int ==> pool@[i] == participants@[i],
        decreases n - k,
    {
        pool.push(participants[k].clone());
        k = k + 1;
    }
    assert(pool@ =~= participants@);

    let mut state: u64 = seed;
    let mut i: usize = n - 1;
    while i >= 1
        invariant
            i < n,
            n == participants@.len(),
            pool@.len() == n as int,
            distinct_seq(pool@),
            forall|t: int| 0 <= t < n as int ==> #[trigger] participants@.contains(pool@[t]),
        decreases i,
    {
        state = xorshift64(state);
        let j = (state as usize) % (i + 1);
        let ghost prev = pool@;
        let a = pool[i].clone();
        let b = pool[j].clone();
        pool.set(i, b);
        pool.set(j, a);
        proof {
            lemma_swap_keeps_distinct(participants@, prev, pool@, i as int, j as int);
        }
        i = i - 1;
    }

    pool.truncate(pick);
    pool
}

/// After exchanging the entries at `i` and `j`, a duplicate-free pool stays
/// duplicate-free, and every entry is still an entry of the participant list.
proof fn lemma_swap_keeps_distinct(
    parts: Seq<String>,
    prev: Seq<String>,
    cur: Seq<String>,
    i: int,
    j: int,
)
    requires
        distinct_seq(prev),
        forall|t: int| 0 <= t < prev.len() ==> #[trigger] parts.contains(prev[t]),
        0 <= i < prev.len(),
        0 <= j < prev.len(),
        cur == prev.update(i, prev[j]).update(j, prev[i]),
    ensures
        distinct_seq(cur),
        forall|t: int| 0 <= t < cur.len() ==> #[trigger] parts.contains(cur[t]),
{
    assert forall|p: int, q: int| 0 <= p < q < cur.len() implies cur[p]@ != cur[q]@ by {
        let sp: int = if p == i {
            j
        } else if p == j {
            i
        } else {
            p
        };
        let sq: int = if q == i {
            j
        } else if q == j {
            i
        } else {
            q
        };
        assert(cur[p] == prev[sp]);
        assert(cur[q] == prev[sq]);
        assert(sp != sq);
    }
    assert forall|t: int| 0 <= t < cur.len() implies #[trigger] parts.contains(cur[t]) by {
        let s: int = if t == i {
            j
        } else if t == j {
            i
        } else {
            t
        };
        assert(cur[t] == prev[s]);
        assert(parts.contains(prev[s]));
    }
}

/// Smaller of two lengths, used to state how many winners a draw yields.
pub open spec fn min_usize(a: usize, b: usize) -> usize {
    if a <= b {
        a
    } else {
        b
    }
}

} // verus!
