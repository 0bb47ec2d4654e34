//! Picking a pooled connection: by quality score, at random weighted by
//! score, or in turn.

use rand::Rng;
use vstd::prelude::*;

verus! {

// ---------------------------------------------------------------------------
// Randomness and case folding from outside
// ---------------------------------------------------------------------------

/// Unicode lower-casing of a text.
pub uninterp spec fn lowercase(s: Seq<char>) -> Seq<char>;

/// `str::to_lowercase`.
#[verifier::external_body]
fn to_lowercase(s: &str) -> (r: String)
    ensures
        r@ == lowercase(s@),
{
    s.to_lowercase()
}

/// `rand::rng().random_range(0..n)`: a number below `n`.
#[verifier::external_body]
fn random_below(n: usize) -> (r: usize)
    requires
        n > 0,
    ensures
        r < n,
{
    rand::rng().random_range(0..n)
}

// ---------------------------------------------------------------------------
// Strategies
// ---------------------------------------------------------------------------

/// How a connection is picked from a pool.
#[derive(Debug, Clone, Copy, PartialEq, Eq, Structural)]
pub enum SelectionStrategy {
    /// The connection with the best quality score.
    BestQuality,
    /// At random, a better score making a connection more likely.
    WeightedRandom,
    /// In turn.
    RoundRobin,
    /// Fewest connections; for now the same as best quality.
    LeastConnections,
}

impl Default for SelectionStrategy {
    fn default() -> (r: Self)
        ensures
            r == SelectionStrategy::BestQuality,
    {
        SelectionStrategy::BestQuality
    }
}

/// The strategy a lower-cased name stands for.
pub open spec fn strategy_named(s: Seq<char>) -> Option<SelectionStrategy> {
    if s == "best_quality"@ || s == "best"@ {
        Some(SelectionStrategy::BestQuality)
    } else if s == "weighted_random"@ || s == "weighted"@ {
        Some(SelectionStrategy::WeightedRandom)
    } else if s == "round_robin"@ || s == "roundrobin"@ {
        Some(SelectionStrategy::RoundRobin)
    } else if s == "least_connections"@ || s == "least"@ {
        Some(SelectionStrategy::LeastConnections)
    } else {
        None
    }
}

fn eq_text(a: &String, b: &str) -> (r: bool)
    ensures
        r == (a@ == b@),
{
    let x = crate::text::chars_of(a.as_str());
    let y = crate::text::chars_of(b);
    crate::text::eq_chars(x.as_slice(), y.as_slice())
}

impl SelectionStrategy {
    /// The strategy named by a text, in any case: `best_quality` or `best`,
    /// `weighted_random` or `weighted`, `round_robin` or `roundrobin`,
    /// `least_connections` or `least`.
    pub fn from_str(s: &str) -> (r: Option<SelectionStrategy>)
        ensures
            r == strategy_named(lowercase(s@)),
    {
        let l = to_lowercase(s);
        if eq_text(&l, "best_quality") || eq_text(&l, "best") {
            Some(SelectionStrategy::BestQuality)
        } else if eq_text(&l, "weighted_random") || eq_text(&l, "weighted") {
            Some(SelectionStrategy::WeightedRandom)
        } else if eq_text(&l, "round_robin") || eq_text(&l, "roundrobin") {
            Some(SelectionStrategy::RoundRobin)
        } else if eq_text(&l, "least_connections") || eq_text(&l, "least") {
            Some(SelectionStrategy::LeastConnections)
        } else {
            None
        }
    }
}

// ---------------------------------------------------------------------------
// Picking an index
// ---------------------------------------------------------------------------

/// The first position of the highest score in `s[0..n]`.
pub open spec fn best_index(s: Seq<u8>, n: int) -> int
    decreases n,
{
    if n <= 1 {
        0
    } else {
        let b = best_index(s, n - 1);
        if s[n - 1] > s[b] {
            n - 1
        } else {
            b
        }
    }
}

proof fn lemma_best_index(s: Seq<u8>, n: int)
    requires
        1 <= n <= s.len(),
    ensures
        0 <= best_index(s, n) < n,
        forall|j: int| 0 <= j < n ==> #[trigger] s[j] <= s[best_index(s, n)],
        forall|j: int| 0 <= j < best_index(s, n) ==> #[trigger] s[j] < s[best_index(s, n)],
    decreases n,
{
    if n > 1 {
        lemma_best_index(s, n - 1);
    }
}

/// The sum of the scores.
pub open spec fn score_sum(s: Seq<u8>) -> nat
    decreases s.len(),
{
    if s.len() == 0 {
        0
    } else {
        score_sum(s.drop_last()) + s.last() as nat
    }
}

/// The position a weight falls on when the scores are laid end to end from
/// position `i`; the last position when it falls past them.
pub open spec fn weighted_pick(s: Seq<u8>, w: nat, i: int) -> int
    decreases s.len() - i,
{
    if i >= s.len() {
        s.len() - 1
    } else if w < s[i] {
        i
    } else {
        weighted_pick(s, (w - s[i]) as nat, i + 1)
    }
}

proof fn lemma_score_sum_take(s: Seq<u8>, i: int)
    requires
        0 <= i < s.len(),
    ensures
        score_sum(s.take(i + 1)) == score_sum(s.take(i)) + s[i],
{
    assert(s.take(i + 1).drop_last() =~= s.take(i));
}

proof fn lemma_score_sum_take_le(s: Seq<u8>, i: int)
    requires
        0 <= i <= s.len(),
    ensures
        score_sum(s.take(i)) <= score_sum(s),
    decreases s.len() - i,
{
    if i < s.len() {
        lemma_score_sum_take(s, i);
        lemma_score_sum_take_le(s, i + 1);
    } else {
        assert(s.take(i) =~= s);
    }
}

/// The position of the first highest score.
pub fn best_quality_index(scores: &Vec<u8>) -> (r: usize)
    requires
        scores@.len() > 0,
    ensures
        r == best_index(scores@, scores@.len() as int),
        r < scores@.len(),
        forall|j: int| 0 <= j < scores@.len() ==> scores@[j] <= scores@[r as int],
{
    let mut best: usize = 0;
    let mut best_score = scores[0];
    let mut i: usize = 1;
    while i < scores.len()
        invariant
            1 <= i <= scores@.len(),
            best == best_index(scores@, i as int),
            best_score == scores@[best as int],
            best < i,
        decreases scores@.len() - i,
    {
        proof {
            lemma_best_index(scores@, i as int);
        }
        if scores[i] > best_score {
            best_score = scores[i];
            best = i;
        }
        i = i + 1;
    }
    proof {
        lemma_best_index(scores@, scores@.len() as int);
    }
    best
}

/// The position a weight below the total falls on.
pub fn weighted_index(scores: &Vec<u8>, w: u32) -> (r: usize)
    requires
        scores@.len() > 0,
    ensures
        r == weighted_pick(scores@, w as nat, 0),
        r < scores@.len(),
{
    let mut rem: u32 = w;
    let mut i: usize = 0;
    while i < scores.len()
        invariant
            i <= scores@.len(),
            scores@.len() > 0,
            weighted_pick(scores@, w as nat, 0) == weighted_pick(scores@, rem as nat, i as int),
        decreases scores@.len() - i,
    {
        let s = scores[i] as u32;
        if rem < s {
            return i;
        }
        rem = rem - s;
        i = i + 1;
    }
    scores.len() - 1
}

/// The sum of the scores, computed.
fn total_weight(scores: &Vec<u8>) -> (r: u32)
    requires
        score_sum(scores@) <= u32::MAX,
    ensures
        r == score_sum(scores@),
{
    let mut total: u32 = 0;
    let mut i: usize = 0;
    while i < scores.len()
        invariant
            i <= scores@.len(),
            score_sum(scores@) <= u32::MAX,
            total == score_sum(scores@.take(i as int)),
        decreases scores@.len() - i,
    {
        proof {
            lemma_score_sum_take(scores@, i as int);
            lemma_score_sum_take_le(scores@, i as int + 1);
        }
        total = total + scores[i] as u32;
        i = i + 1;
    }
    assert(scores@.take(scores@.len() as int) =~= scores@);
    total
}

/// Whether the picked position `i` agrees with the strategy, given the
/// scores and the turn counter before the pick.
pub open spec fn pick_agrees(strategy: SelectionStrategy, scores: Seq<u8>, i: int, turn: usize) -> bool {
    match strategy {
        SelectionStrategy::BestQuality => i == best_index(scores, scores.len() as int),
        SelectionStrategy::LeastConnections => i == best_index(scores, scores.len() as int),
        SelectionStrategy::RoundRobin => i == turn as int % scores.len() as int,
        SelectionStrategy::WeightedRandom => if score_sum(scores) == 0 {
            0 <= i < scores.len()
        } else {
            exists|w: nat| w < score_sum(scores) && i == weighted_pick(scores, w, 0)
        },
    }
}

/// Picks a connection and takes it out of the pool (the last one takes its
/// place). `scores` are the quality scores of the pooled connections, in
/// order; `turn` is the round-robin counter, advanced by round-robin picks.
pub struct ConnectionSelector;

impl ConnectionSelector {
    pub fn select<T>(pool: &mut Vec<T>, scores: &Vec<u8>, strategy: SelectionStrategy, turn: &mut usize) -> (r:
        Option<T>)
        requires
            scores@.len() == old(pool)@.len(),
            strategy == SelectionStrategy::WeightedRandom ==> score_sum(scores@) <= u32::MAX,
            strategy == SelectionStrategy::RoundRobin ==> *old(turn) < usize::MAX,
        ensures
            old(pool)@.len() == 0 <==> r is None,
            old(pool)@.len() == 0 ==> final(pool)@ == old(pool)@ && *final(turn) == *old(turn),
            r is Some ==> exists|i: int|
                0 <= i < old(pool)@.len() && pick_agrees(strategy, scores@, i, *old(turn)) && r->Some_0
                    == old(pool)@[i] && final(pool)@ == old(pool)@.update(i, old(pool)@.last()).drop_last(),
            r is Some && strategy == SelectionStrategy::RoundRobin ==> *final(turn) == (*old(turn) + 1) as int
                % old(pool)@.len() as int,
            strategy != SelectionStrategy::RoundRobin ==> *final(turn) == *old(turn),
    {
        if pool.len() == 0 {
            return None;
        }
        let i: usize = match strategy {
            SelectionStrategy::BestQuality => best_quality_index(scores),
            SelectionStrategy::LeastConnections => best_quality_index(scores),
            SelectionStrategy::RoundRobin => {
                let i = *turn % pool.len();
                *turn = (*turn + 1) % pool.len();
                i
            },
            SelectionStrategy::WeightedRandom => {
                let total = total_weight(scores);
                if total == 0 {
                    random_below(pool.len())
                } else {
                    let w = random_below(total as usize) as u32;
                    let k = weighted_index(scores, w);
                    assert(w < score_sum(scores@) && k == weighted_pick(scores@, w as nat, 0));
                    k
                }
            },
        };
        Some(pool.swap_remove(i))
    }
}

/// A positive weight below the total falls on a connection with a positive
/// score.
pub proof fn lemma_weighted_pick_positive(s: Seq<u8>, w: nat, i: int)
    requires
        0 <= i <= s.len(),
        w < score_sum(s.skip(i)),
    ensures
        i <= weighted_pick(s, w, i) < s.len(),
        s[weighted_pick(s, w, i)] > 0,
    decreases s.len() - i,
{
    if i >= s.len() {
        assert(s.skip(i).len() == 0);
    } else {
        assert(score_sum(s.skip(i)) == s[i] + score_sum(s.skip(i + 1))) by {
            lemma_score_sum_front(s.skip(i));
            assert(s.skip(i).drop_first() =~= s.skip(i + 1));
        }
        if w >= s[i] {
            lemma_weighted_pick_positive(s, (w - s[i]) as nat, i + 1);
        }
    }
}

proof fn lemma_score_sum_front(s: Seq<u8>)
    requires
        s.len() > 0,
    ensures
        score_sum(s) == s[0] + score_sum(s.drop_first()),
    decreases s.len(),
{
    if s.len() > 1 {
        lemma_score_sum_front(s.drop_last());
        assert(s.drop_last().drop_first() =~= s.drop_first().drop_last());
        assert(s.drop_first().last() == s.last());
        assert(s.drop_last()[0] == s[0]);
    } else {
        assert(s.drop_last().len() == 0);
        assert(s.drop_first().len() == 0);
        assert(score_sum(s.drop_first()) == 0);
        assert(score_sum(s.drop_last()) == 0);
    }
}

// ---------------------------------------------------------------------------
// The multiplexed tunnel pool
// ---------------------------------------------------------------------------

/// How a multiplexed connection is picked from the tunnel pool.
#[derive(Debug, Clone, Copy, PartialEq, Eq, Structural)]
pub enum ConnectionSelectionStrategy {
    /// In turn (the default).
    RoundRobin,
    /// At random.
    Random,
    /// The connection carrying the fewest streams.
    LeastLoaded,
}

impl Default for ConnectionSelectionStrategy {
    fn default() -> (r: Self)
        ensures
            r == ConnectionSelectionStrategy::RoundRobin,
    {
        ConnectionSelectionStrategy::RoundRobin
    }
}

/// The first position of the smallest load.
pub open spec fn least_index(s: Seq<usize>, n: int) -> int
    decreases n,
{
    if n <= 1 {
        0
    } else {
        let b = least_index(s, n - 1);
        if s[n - 1] < s[b] {
            n - 1
        } else {
            b
        }
    }
}

proof fn lemma_least_index(s: Seq<usize>, n: int)
    requires
        1 <= n <= s.len(),
    ensures
        0 <= least_index(s, n) < n,
        forall|j: int| 0 <= j < n ==> s[least_index(s, n)] <= #[trigger] s[j],
    decreases n,
{
    if n > 1 {
        lemma_least_index(s, n - 1);
    }
}

/// The position of the first connection with the fewest streams.
pub fn least_loaded_index(loads: &Vec<usize>) -> (r: usize)
    requires
        loads@.len() > 0,
    ensures
        r == least_index(loads@, loads@.len() as int),
        r < loads@.len(),
        forall|j: int| 0 <= j < loads@.len() ==> loads@[r as int] <= loads@[j],
{
    let mut best: usize = 0;
    let mut i: usize = 1;
    while i < loads.len()
        invariant
            1 <= i <= loads@.len(),
            best == least_index(loads@, i as int),
            best < i,
        decreases loads@.len() - i,
    {
        proof {
            lemma_least_index(loads@, i as int);
        }
        if loads[i] < loads[best] {
            best = i;
        }
        i = i + 1;
    }
    proof {
        lemma_least_index(loads@, loads@.len() as int);
    }
    best
}

/// The position of the pooled connection to use: `counter` is the
/// round-robin counter before it is advanced, `loads` the streams each
/// connection carries.
pub fn pool_index(strategy: ConnectionSelectionStrategy, counter: usize, loads: &Vec<usize>) -> (r: usize)
    requires
        loads@.len() > 0,
    ensures
        r < loads@.len(),
        strategy == ConnectionSelectionStrategy::RoundRobin ==> r == counter as int % loads@.len() as int,
        strategy == ConnectionSelectionStrategy::LeastLoaded ==> r == least_index(
            loads@,
            loads@.len() as int,
        ),
{
    match strategy {
        ConnectionSelectionStrategy::RoundRobin => counter % loads.len(),
        ConnectionSelectionStrategy::Random => random_below(loads.len()),
        ConnectionSelectionStrategy::LeastLoaded => least_loaded_index(loads),
    }
}

/// Statistics of the multiplexed tunnel pool.
#[derive(Debug, Clone, Copy, PartialEq, Eq, Structural)]
pub struct PoolStats {
    pub pool_size: usize,
    pub active_connections: usize,
    pub total_streams: usize,
}

/// The total of some loads.
pub open spec fn load_sum(s: Seq<usize>) -> nat
    decreases s.len(),
{
    if s.len() == 0 {
        0
    } else {
        load_sum(s.drop_last()) + s.last() as nat
    }
}

/// The number of active connections.
pub open spec fn active_count(s: Seq<bool>) -> nat
    decreases s.len(),
{
    if s.len() == 0 {
        0
    } else {
        active_count(s.drop_last()) + if s.last() {
            1nat
        } else {
            0nat
        }
    }
}

impl PoolStats {
    /// The statistics of a pool from the streams each connection carries and
    /// whether each is active.
    pub fn collect(pool_size: usize, loads: &Vec<usize>, active: &Vec<bool>) -> (r: PoolStats)
        requires
            loads@.len() == active@.len(),
            load_sum(loads@) <= usize::MAX,
        ensures
            r.pool_size == pool_size,
            r.total_streams == load_sum(loads@),
            r.active_connections == active_count(active@),
    {
        let mut total: usize = 0;
        let mut count: usize = 0;
        let mut i: usize = 0;
        while i < loads.len()
            invariant
                loads@.len() == active@.len(),
                load_sum(loads@) <= usize::MAX,
                i <= loads@.len(),
                total == load_sum(loads@.take(i as int)),
                count == active_count(active@.take(i as int)),
                count <= i,
            decreases loads@.len() - i,
        {
            assert(loads@.take(i + 1).drop_last() =~= loads@.take(i as int));
            assert(active@.take(i + 1).drop_last() =~= active@.take(i as int));
            proof {
                lemma_load_sum_prefix(loads@, i + 1);
            }
            total = total + loads[i];
            if active[i] {
                count = count + 1;
            }
            i = i + 1;
        }
        assert(loads@.take(loads@.len() as int) =~= loads@);
        assert(active@.take(active@.len() as int) =~= active@);
        PoolStats { pool_size, active_connections: count, total_streams: total }
    }
}

proof fn lemma_load_sum_prefix(s: Seq<usize>, i: int)
    requires
        0 <= i <= s.len(),
    ensures
        load_sum(s.take(i)) <= load_sum(s),
    decreases s.len() - i,
{
    if i < s.len() {
        assert(s.take(i + 1).drop_last() =~= s.take(i));
        lemma_load_sum_prefix(s, i + 1);
    } else {
        assert(s.take(i) =~= s);
    }
}

} // verus!
