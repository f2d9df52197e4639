//! Combining the reports of several feeders into one value: reports older
//! than the expiry window are dropped, and when enough remain, the median by
//! value is taken (the upper median for an even count).
use vstd::prelude::*;

verus! {

/// A point in time, as the host reports it.
pub type Moment = u64;

/// A reported value.
pub type FeedValue = u64;

/// A value together with the time at which it was reported. Ordered by value
/// first, then by time.
#[derive(Clone, Copy, Debug, PartialEq, Eq, Structural, PartialOrd, Ord)]
pub struct TimestampedValue {
    pub value: FeedValue,
    pub timestamp: Moment,
}

/// A report is fresh at `now` while `timestamp + expires_in > now`.
pub open spec fn is_fresh(x: TimestampedValue, now: Moment, expires_in: Moment) -> bool {
    x.timestamp + expires_in > now
}

/// Freshness at `now` as a predicate on reports.
pub open spec fn fresh_at(now: Moment, expires_in: Moment) -> spec_fn(TimestampedValue) -> bool {
    |x: TimestampedValue| is_fresh(x, now, expires_in)
}

/// The reports of `s` that are fresh at `now`, in their order.
pub open spec fn fresh_values(s: Seq<TimestampedValue>, now: Moment, expires_in: Moment) -> Seq<
    TimestampedValue,
> {
    s.filter(fresh_at(now, expires_in))
}

/// How many reports of `s` have a value below `v`.
pub open spec fn count_below(s: Seq<TimestampedValue>, v: FeedValue) -> nat
    decreases s.len(),
{
    if s.len() == 0 {
        0
    } else {
        count_below(s.drop_last(), v) + if s.last().value < v {
            1nat
        } else {
            0nat
        }
    }
}

/// How many reports of `s` have a value of at most `v`.
pub open spec fn count_up_to(s: Seq<TimestampedValue>, v: FeedValue) -> nat
    decreases s.len(),
{
    if s.len() == 0 {
        0
    } else {
        count_up_to(s.drop_last(), v) + if s.last().value <= v {
            1nat
        } else {
            0nat
        }
    }
}

/// `v` is the value found at index `m` once the values of `s` are sorted
/// ascending: fewer than `m + 1` values lie below it, and more than `m` lie
/// at or below it.
pub open spec fn is_value_at_rank(s: Seq<TimestampedValue>, m: int, v: FeedValue) -> bool {
    count_below(s, v) <= m < count_up_to(s, v)
}

/// Index `i` holds the first report of `s` whose value is the one at index
/// `s.len() / 2` of the ascending order of values.
pub open spec fn is_median_index(s: Seq<TimestampedValue>, i: int) -> bool {
    &&& 0 <= i < s.len()
    &&& is_value_at_rank(s, s.len() as int / 2, s[i].value)
    &&& forall|j: int| 0 <= j < i ==> !is_value_at_rank(s, s.len() as int / 2, #[trigger] s[j].value)
}

/// The median report of a non-empty `s`: the first report whose value is the
/// value at index `s.len() / 2` after sorting ascending by value.
pub open spec fn median(s: Seq<TimestampedValue>) -> TimestampedValue {
    s[choose|i: int| is_median_index(s, i)]
}

/// A fresh combination: the median of the fresh reports when there are at
/// least `minimum_count` of them and at least one; otherwise nothing.
pub open spec fn fresh_median(
    values: Seq<TimestampedValue>,
    now: Moment,
    expires_in: Moment,
    minimum_count: u32,
) -> Option<TimestampedValue> {
    let fresh = fresh_values(values, now, expires_in);
    if fresh.len() < minimum_count || fresh.len() == 0 {
        None
    } else {
        Some(median(fresh))
    }
}

/// What combining yields: a fresh combination when there is one, else `prev`.
pub open spec fn combined_value(
    values: Seq<TimestampedValue>,
    prev: Option<TimestampedValue>,
    now: Moment,
    expires_in: Moment,
    minimum_count: u32,
) -> Option<TimestampedValue> {
    match fresh_median(values, now, expires_in, minimum_count) {
        Some(t) => Some(t),
        None => prev,
    }
}

/// When every value below `a` is at most `b`, no more values lie below `a`
/// than at or below `b`.
proof fn lemma_count_below_le_up_to(s: Seq<TimestampedValue>, a: FeedValue, b: FeedValue)
    requires
        forall|i: int| 0 <= i < s.len() && #[trigger] s[i].value < a ==> s[i].value <= b,
    ensures
        count_below(s, a) <= count_up_to(s, b),
    decreases s.len(),
{
    if s.len() > 0 {
        let d = s.drop_last();
        assert forall|i: int| 0 <= i < d.len() && #[trigger] d[i].value < a implies d[i].value <= b by {
            assert(d[i] == s[i]);
        }
        lemma_count_below_le_up_to(d, a, b);
        assert(s.last() == s[s.len() - 1]);
    }
}

proof fn lemma_count_below_none(s: Seq<TimestampedValue>, a: FeedValue)
    requires
        forall|i: int| 0 <= i < s.len() ==> !(#[trigger] s[i].value < a),
    ensures
        count_below(s, a) == 0,
    decreases s.len(),
{
    if s.len() > 0 {
        let d = s.drop_last();
        assert forall|i: int| 0 <= i < d.len() implies !(#[trigger] d[i].value < a) by {
            assert(d[i] == s[i]);
        }
        lemma_count_below_none(d, a);
        assert(s.last() == s[s.len() - 1]);
    }
}

proof fn lemma_count_up_to_all(s: Seq<TimestampedValue>, b: FeedValue)
    requires
        forall|i: int| 0 <= i < s.len() ==> #[trigger] s[i].value <= b,
    ensures
        count_up_to(s, b) == s.len(),
    decreases s.len(),
{
    if s.len() > 0 {
        let d = s.drop_last();
        assert forall|i: int| 0 <= i < d.len() implies #[trigger] d[i].value <= b by {
            assert(d[i] == s[i]);
        }
        lemma_count_up_to_all(d, b);
        assert(s.last() == s[s.len() - 1]);
    }
}

/// Among the indices below `n` that satisfy `p`, one whose value is least.
proof fn lemma_min_where(s: Seq<TimestampedValue>, p: spec_fn(int) -> bool, n: int) -> (r: int)
    requires
        0 < n <= s.len(),
        exists|j: int| 0 <= j < n && #[trigger] p(j),
    ensures
        0 <= r < n,
        p(r),
        forall|j: int| 0 <= j < n && #[trigger] p(j) ==> s[r].value <= s[j].value,
    decreases n,
{
    if exists|j: int| 0 <= j < n - 1 && #[trigger] p(j) {
        let r0 = lemma_min_where(s, p, n - 1);
        if p(n - 1) && s[n - 1].value < s[r0].value {
            n - 1
        } else {
            r0
        }
    } else {
        n - 1
    }
}

/// Among the indices below `n` that satisfy `p`, one whose value is greatest.
proof fn lemma_max_where(s: Seq<TimestampedValue>, p: spec_fn(int) -> bool, n: int) -> (r: int)
    requires
        0 < n <= s.len(),
        exists|j: int| 0 <= j < n && #[trigger] p(j),
    ensures
        0 <= r < n,
        p(r),
        forall|j: int| 0 <= j < n && #[trigger] p(j) ==> s[j].value <= s[r].value,
    decreases n,
{
    if exists|j: int| 0 <= j < n - 1 && #[trigger] p(j) {
        let r0 = lemma_max_where(s, p, n - 1);
        if p(n - 1) && s[r0].value < s[n - 1].value {
            n - 1
        } else {
            r0
        }
    } else {
        n - 1
    }
}

/// Every index `m` of a non-empty list has a value at that rank, held by
/// some report of the list.
proof fn lemma_rank_exists(s: Seq<TimestampedValue>, m: int)
    requires
        0 <= m < s.len(),
    ensures
        exists|i: int| 0 <= i < s.len() && is_value_at_rank(s, m, #[trigger] s[i].value),
{
    let n = s.len() as int;
    let any = |j: int| true;
    assert(any(0));
    let top = lemma_max_where(s, any, n);
    assert forall|i: int| 0 <= i < s.len() implies #[trigger] s[i].value <= s[top].value by {
        assert(any(i));
    }
    lemma_count_up_to_all(s, s[top].value);
    let cand = |j: int| count_up_to(s, s[j].value) > m;
    assert(cand(top));
    let lo = lemma_min_where(s, cand, n);
    let v = s[lo].value;
    let below = |j: int| s[j].value < v;
    if exists|j: int| 0 <= j < n && #[trigger] below(j) {
        let k = lemma_max_where(s, below, n);
        assert forall|i: int| 0 <= i < s.len() && #[trigger] s[i].value < v implies s[i].value
            <= s[k].value by {
            assert(below(i));
        }
        lemma_count_below_le_up_to(s, v, s[k].value);
        assert(!cand(k));
    } else {
        assert forall|i: int| 0 <= i < s.len() implies !(#[trigger] s[i].value < v) by {
            assert(!below(i));
        }
        lemma_count_below_none(s, v);
    }
    assert(is_value_at_rank(s, m, s[lo].value));
}

/// The first index holding the median is unique, so `median` names it.
proof fn lemma_median_at(s: Seq<TimestampedValue>, i: int)
    requires
        is_median_index(s, i),
    ensures
        median(s) == s[i],
{
    let k = choose|k: int| is_median_index(s, k);
    if k < i {
        assert(!is_value_at_rank(s, s.len() as int / 2, s[k].value));
    } else if i < k {
        assert(!is_value_at_rank(s, s.len() as int / 2, s[i].value));
    }
}

/// Every value at or below `b` lies below a greater `a`.
proof fn lemma_count_up_to_le_below(s: Seq<TimestampedValue>, b: FeedValue, a: FeedValue)
    requires
        b < a,
    ensures
        count_up_to(s, b) <= count_below(s, a),
    decreases s.len(),
{
    if s.len() > 0 {
        lemma_count_up_to_le_below(s.drop_last(), b, a);
    }
}

/// Two values at the same rank of the same list are equal.
pub proof fn lemma_rank_value_unique(s: Seq<TimestampedValue>, m: int, v1: FeedValue, v2: FeedValue)
    requires
        is_value_at_rank(s, m, v1),
        is_value_at_rank(s, m, v2),
    ensures
        v1 == v2,
{
    if v1 < v2 {
        lemma_count_up_to_le_below(s, v1, v2);
    } else if v2 < v1 {
        lemma_count_up_to_le_below(s, v2, v1);
    }
}

/// As time passes, reports only go stale: no more are fresh later than earlier.
pub proof fn lemma_fresh_shrinks(s: Seq<TimestampedValue>, now1: Moment, now2: Moment, expires_in: Moment)
    requires
        now1 <= now2,
    ensures
        fresh_values(s, now2, expires_in).len() <= fresh_values(s, now1, expires_in).len(),
    decreases s.len(),
{
    if s.len() > 0 {
        let d = s.drop_last();
        let x = s.last();
        lemma_fresh_shrinks(d, now1, now2, expires_in);
        assert(s =~= d.push(x));
        d.lemma_filter_push(x, fresh_at(now1, expires_in));
        d.lemma_filter_push(x, fresh_at(now2, expires_in));
    }
}

/// Reports that do not reach the quorum at one time do not reach it later.
pub proof fn lemma_no_quorum_later(
    s: Seq<TimestampedValue>,
    now1: Moment,
    now2: Moment,
    expires_in: Moment,
    minimum_count: u32,
)
    requires
        now1 <= now2,
        fresh_median(s, now1, expires_in, minimum_count) is None,
    ensures
        fresh_median(s, now2, expires_in, minimum_count) is None,
{
    lemma_fresh_shrinks(s, now1, now2, expires_in);
}

/// How many values of `s` lie below `v`, and how many at or below it.
fn count_around(s: &Vec<TimestampedValue>, v: FeedValue) -> (r: (usize, usize))
    ensures
        r.0 == count_below(s@, v),
        r.1 == count_up_to(s@, v),
{
    let mut below: usize = 0;
    let mut up_to: usize = 0;
    let mut i: usize = 0;
    while i < s.len()
        invariant
            i <= s@.len(),
            below == count_below(s@.take(i as int), v),
            up_to == count_up_to(s@.take(i as int), v),
            below <= i,
            up_to <= i,
        decreases s@.len() - i,
    {
        proof {
            assert(s@.take(i + 1).drop_last() =~= s@.take(i as int));
        }
        if s[i].value < v {
            below = below + 1;
        }
        if s[i].value <= v {
            up_to = up_to + 1;
        }
        i = i + 1;
    }
    proof {
        assert(s@.take(i as int) =~= s@);
    }
    (below, up_to)
}

/// The median report of a non-empty list: the first report whose value is
/// the value at index `len / 2` of the ascending order of values.
pub fn select_median(values: &Vec<TimestampedValue>) -> (r: TimestampedValue)
    requires
        values@.len() > 0,
    ensures
        r == median(values@),
        exists|i: int| is_median_index(values@, i) && r == values@[i],
{
    let mid = values.len() / 2;
    let mut i: usize = 0;
    while i < values.len()
        invariant
            i <= values@.len(),
            mid == values@.len() / 2,
            forall|j: int| 0 <= j < i ==> !is_value_at_rank(values@, mid as int, #[trigger] values@[j].value),
        decreases values@.len() - i,
    {
        let (below, up_to) = count_around(values, values[i].value);
        if below <= mid && mid < up_to {
            proof {
                assert(is_median_index(values@, i as int));
                lemma_median_at(values@, i as int);
            }
            return values[i];
        }
        i = i + 1;
    }
    proof {
        lemma_rank_exists(values@, mid as int);
        assert(false);
    }
    values[0]
}

/// The reports of `values` that are fresh at `now`, in their order.
pub fn retain_fresh(values: &Vec<TimestampedValue>, now: Moment, expires_in: Moment) -> (r: Vec<
    TimestampedValue,
>)
    ensures
        r@ == fresh_values(values@, now, expires_in),
{
    let mut r: Vec<TimestampedValue> = Vec::new();
    let mut i: usize = 0;
    while i < values.len()
        invariant
            i <= values@.len(),
            r@ == fresh_values(values@.take(i as int), now, expires_in),
        decreases values@.len() - i,
    {
        let x = values[i];
        let ghost t = values@.take(i + 1);
        proof {
            assert(t =~= values@.take(i as int).push(x));
            values@.take(i as int).lemma_filter_push(x, fresh_at(now, expires_in));
        }
        // written so that the sum cannot overflow
        if x.timestamp > now || now - x.timestamp < expires_in {
            proof {
                assert(fresh_at(now, expires_in)(x));
            }
            r.push(x);
        } else {
            proof {
                assert(!fresh_at(now, expires_in)(x));
            }
        }
        assert(r@ == fresh_values(t, now, expires_in));
        i = i + 1;
    }
    proof {
        assert(values@.take(i as int) =~= values@);
    }
    r
}

/// The rule for combining reports: a quorum of `minimum_count` fresh reports,
/// where a report is fresh for `expires_in` after it was made.
#[derive(Clone, Copy, Debug, PartialEq, Eq, Structural)]
pub struct DefaultCombineData {
    pub minimum_count: u32,
    pub expires_in: Moment,
}

impl DefaultCombineData {
    pub fn new(minimum_count: u32, expires_in: Moment) -> (r: Self)
        ensures
            r.minimum_count == minimum_count,
            r.expires_in == expires_in,
    {
        DefaultCombineData { minimum_count, expires_in }
    }

    /// The median of the reports of `values` that are fresh at `now`, when
    /// they reach the quorum.
    pub fn aggregate(&self, values: &Vec<TimestampedValue>, now: Moment) -> (r: Option<
        TimestampedValue,
    >)
        ensures
            r == fresh_median(values@, now, self.expires_in, self.minimum_count),
    {
        let fresh = retain_fresh(values, now, self.expires_in);
        let count = fresh.len();
        if count < self.minimum_count as usize || count == 0 {
            return None;
        }
        Some(select_median(&fresh))
    }

    /// Combines the reports `values` for a key at time `now`: the median of
    /// the fresh ones when they reach the quorum, else `prev_value`.
    pub fn combine_data(
        &self,
        values: &Vec<TimestampedValue>,
        prev_value: Option<TimestampedValue>,
        now: Moment,
    ) -> (r: Option<TimestampedValue>)
        ensures
            r == combined_value(values@, prev_value, now, self.expires_in, self.minimum_count),
    {
        match self.aggregate(values, now) {
            Some(t) => Some(t),
            None => prev_value,
        }
    }
}

} // verus!
