//! Laws of the oracle that relate several calls, stated over the spec
//! functions that the calls' contracts use.
use vstd::prelude::*;
use crate::combine::lemma_no_quorum_later;
use crate::pallet::{fed_keys, Error, Origin, PalletView, Pays};
use crate::registry::FeederId;
use crate::storage_order::FeedKey;
use crate::combine::{FeedValue, Moment};

verus! {

/// The registry lists each feeder at most once.
pub proof fn law_feeder_listed_once(s: PalletView, f: FeederId)
    requires
        s.wf(),
    ensures
        forall|i: int, j: int|
            0 <= i < s.feeders.len() && 0 <= j < s.feeders.len() && s.feeders[i] == f
                && s.feeders[j] == f ==> i == j,
{
    assert forall|i: int, j: int|
        0 <= i < s.feeders.len() && 0 <= j < s.feeders.len() && s.feeders[i] == f && s.feeders[j]
            == f implies i == j by {
        if i < j {
            assert(s.feeders[i] < s.feeders[j]);
        } else if j < i {
            assert(s.feeders[j] < s.feeders[i]);
        }
    }
}

/// Electing a feeder a second time fails with `AlreadyFeeder`.
pub proof fn law_elect_twice(s0: PalletView, s1: PalletView, f: FeederId)
    requires
        s0.elect_outcome(Origin::Root, f) is Ok,
        s0.elected(s1, f),
    ensures
        s1.elect_outcome(Origin::Root, f) == Err::<(), Error>(Error::AlreadyFeeder),
{
    assert(s1.is_feeder(f));
}

/// Removing a feeder a second time fails with `NotFeeder`.
pub proof fn law_remove_twice(s0: PalletView, s1: PalletView, f: FeederId)
    requires
        s0.remove_outcome(Origin::Root, f) is Ok,
        s0.removed(s1, f),
    ensures
        s1.remove_outcome(Origin::Root, f) == Err::<(), Error>(Error::NotFeeder),
{
    assert(!s1.is_feeder(f));
}

/// An account that is not a feeder cannot feed: the call fails with
/// `NoPermission`, and a failed call leaves the state as it was.
pub proof fn law_outsider_cannot_feed(s: PalletView, who: FeederId)
    requires
        !s.is_feeder(who),
    ensures
        s.feed_outcome(Origin::Signed(who)) == Err::<Pays, Error>(Error::NoPermission),
{
}

/// A feeder that has fed in this period is refused a second time, with
/// `AlreadyFeeded`.
pub proof fn law_feed_twice(
    s: PalletView,
    who: FeederId,
    values: Vec<(FeedKey, FeedValue)>,
    now: Moment,
)
    requires
        s.feed_outcome(Origin::Signed(who)) is Ok,
    ensures
        s.after_feed(who, values, now).feed_outcome(Origin::Signed(who)) == Err::<Pays, Error>(
            Error::AlreadyFeeded,
        ),
{
}

/// Once the period ends, a feeder that fed may feed again.
pub proof fn law_feed_after_period(
    s: PalletView,
    who: FeederId,
    values: Vec<(FeedKey, FeedValue)>,
    now: Moment,
)
    requires
        s.is_feeder(who),
    ensures
        s.after_feed(who, values, now).after_finalize().feed_outcome(Origin::Signed(who)) == Ok::<
            Pays,
            Error,
        >(Pays::No),
{
}

/// Reading a key twice, with no write between and time not going back,
/// gives the same result both times, and the second read changes nothing. A
/// read that finds the cache stale returns a combination of the current
/// reports, falling back on the cached value.
pub proof fn law_get_twice(s: PalletView, key: FeedKey, now1: Moment, now2: Moment)
    requires
        s.wf(),
        now1 <= now2,
    ensures
        s.after_get(key, now1).current(key, now2) == s.current(key, now1),
        s.after_get(key, now1).after_get(key, now2) == s.after_get(key, now1),
        !s.valid(key) ==> s.current(key, now1) == s.combined(key, now1),
{
    let s1 = s.after_get(key, now1);
    if !s.valid(key) && s.aggregate(key, now1) is None {
        lemma_no_quorum_later(
            s.reports(key),
            now1,
            now2,
            s.combine_data.expires_in,
            s.combine_data.minimum_count,
        );
    }
    assert(s1.reports(key) == s.reports(key));
}

/// Removing a feeder deletes its reports but leaves an up-to-date cached
/// combined value as it is.
pub proof fn law_remove_keeps_cache(
    s0: PalletView,
    s1: PalletView,
    f: FeederId,
    key: FeedKey,
    now: Moment,
)
    requires
        s0.remove_outcome(Origin::Root, f) is Ok,
        s0.removed(s1, f),
    ensures
        forall|k: FeedKey| #[trigger] s1.raw(f, k) is None,
        s0.valid(key) ==> s1.valid(key) && s1.current(key, now) == s0.current(key, now),
{
}

/// A write for a key marks its cached combined value stale.
pub proof fn law_write_invalidates(
    s: PalletView,
    who: FeederId,
    values: Vec<(FeedKey, FeedValue)>,
    now: Moment,
    key: FeedKey,
)
    requires
        fed_keys(values@).contains(key),
    ensures
        !s.after_feed(who, values, now).valid(key),
{
}

/// Feeding caches no combined value, so it adds no key to those that
/// `get_all_values` lists.
pub proof fn law_feeding_lists_nothing(
    s: PalletView,
    who: FeederId,
    values: Vec<(FeedKey, FeedValue)>,
    now: Moment,
)
    ensures
        s.after_feed(who, values, now).values == s.values,
{
}

/// After a read of `key`, `get_all_values` lists `key` exactly when the read
/// produced a value.
pub proof fn law_read_lists_key(s: PalletView, key: FeedKey, now: Moment)
    requires
        s.wf(),
    ensures
        s.after_get(key, now).values.contains_key(key) <==> s.current(key, now) is Some,
{
}

} // verus!
