//! The oracle's state and its calls: electing and removing feeders, feeding
//! values, and reading the combined value of a key.
use vstd::prelude::*;
use crate::combine::{
    combined_value, fresh_median, DefaultCombineData, FeedValue, Moment, TimestampedValue,
};
use crate::registry::{strictly_ascending, FeederId, FeederRegistry};
use crate::storage_order::{in_storage_order, storage_rank, FeedKey};
use crate::table::Table;

verus! {

/// An amount of the fee a feeder declares.
pub type Balance = u64;

/// Who makes a call, as the host has established it.
#[derive(Clone, Copy, Debug, PartialEq, Eq, Structural)]
pub enum Origin {
    /// The privileged administrator.
    Root,
    /// An ordinary account.
    Signed(FeederId),
    /// No one in particular.
    Unsigned,
}

/// Why a call failed.
#[derive(Clone, Copy, Debug, PartialEq, Eq, Structural)]
pub enum Error {
    /// The call needs another kind of origin.
    BadOrigin,
    /// Sender does not have permission
    NoPermission,
    /// Feeder has already feeded at this block
    AlreadyFeeded,
    /// Already a feeder
    AlreadyFeeder,
    /// Not a feeder
    NotFeeder,
}

/// Whether the caller pays a fee for a call.
#[derive(Clone, Copy, Debug, PartialEq, Eq, Structural)]
pub enum Pays {
    Yes,
    No,
}

/// What the oracle reports to observers.
#[derive(Clone, Debug, PartialEq, Eq)]
pub enum Event {
    /// New feed data is submitted. [sender, values]
    NewFeedData(FeederId, Vec<(FeedKey, FeedValue)>),
    /// New feeder is elected. [feeder]
    NewFeederElected(FeederId),
    /// A feeder declared its fee. [feeder, fee]
    FeeSetted(FeederId, Balance),
    /// Remove a feeder. [feeder]
    RemoveFeeder(FeederId),
}

/// The oracle's state as mathematical values.
pub struct PalletView {
    /// The authorised feeders, strictly ascending.
    pub feeders: Seq<FeederId>,
    /// The feeders that have fed in the current period.
    pub has_feeded: Map<FeederId, bool>,
    /// The keys whose cached combined value is up to date.
    pub is_combined: Map<FeedKey, bool>,
    /// The fee each feeder declared.
    pub fees: Map<FeederId, Balance>,
    /// The last report of each feeder for each key.
    pub all_value: Map<FeederId, Map<FeedKey, TimestampedValue>>,
    /// The last combined value of each key that was ever combined.
    pub values: Map<FeedKey, TimestampedValue>,
    /// The events, oldest first.
    pub events: Seq<Event>,
    /// The rule for combining reports.
    pub combine_data: DefaultCombineData,
}

/// The reports for `key` of the feeders `feeders`, in their order; a feeder
/// without a report for `key` is skipped.
pub open spec fn collect_reports(
    all_value: Map<FeederId, Map<FeedKey, TimestampedValue>>,
    feeders: Seq<FeederId>,
    key: FeedKey,
) -> Seq<TimestampedValue>
    decreases feeders.len(),
{
    if feeders.len() == 0 {
        Seq::empty()
    } else {
        let rest = collect_reports(all_value, feeders.drop_last(), key);
        let f = feeders.last();
        if all_value.contains_key(f) && all_value[f].contains_key(key) {
            rest.push(all_value[f][key])
        } else {
            rest
        }
    }
}

/// A feeder's row of reports after it fed `values` at `now`, in order: a
/// later pair for a key overrides an earlier one.
pub open spec fn fed_row(
    row: Map<FeedKey, TimestampedValue>,
    values: Seq<(FeedKey, FeedValue)>,
    now: Moment,
) -> Map<FeedKey, TimestampedValue>
    decreases values.len(),
{
    if values.len() == 0 {
        row
    } else {
        fed_row(row, values.drop_last(), now).insert(
            values.last().0,
            TimestampedValue { value: values.last().1, timestamp: now },
        )
    }
}

/// The keys of `values`.
pub open spec fn fed_keys(values: Seq<(FeedKey, FeedValue)>) -> Set<FeedKey> {
    Set::new(|k: FeedKey| exists|i: int| 0 <= i < values.len() && #[trigger] values[i].0 == k)
}

impl PalletView {
    pub open spec fn is_feeder(self, f: FeederId) -> bool {
        self.feeders.contains(f)
    }

    /// Whether `f` has fed in the current period.
    pub open spec fn feeded(self, f: FeederId) -> bool {
        self.has_feeded.contains_key(f) && self.has_feeded[f]
    }

    /// Whether the cached combined value of `key` is up to date.
    pub open spec fn valid(self, key: FeedKey) -> bool {
        self.is_combined.contains_key(key) && self.is_combined[key]
    }

    /// The cached combined value of `key`.
    pub open spec fn cached(self, key: FeedKey) -> Option<TimestampedValue> {
        if self.values.contains_key(key) {
            Some(self.values[key])
        } else {
            None
        }
    }

    /// The last report of `f` for `key`.
    pub open spec fn raw(self, f: FeederId, key: FeedKey) -> Option<TimestampedValue> {
        if self.all_value.contains_key(f) && self.all_value[f].contains_key(key) {
            Some(self.all_value[f][key])
        } else {
            None
        }
    }

    /// The row of reports of `f`.
    pub open spec fn row(self, f: FeederId) -> Map<FeedKey, TimestampedValue> {
        if self.all_value.contains_key(f) {
            self.all_value[f]
        } else {
            Map::empty()
        }
    }

    /// The reports for `key` of the current feeders, ascending by feeder.
    pub open spec fn reports(self, key: FeedKey) -> Seq<TimestampedValue> {
        collect_reports(self.all_value, self.feeders, key)
    }

    /// A fresh combination of the reports for `key` at `now`, if they reach the quorum.
    pub open spec fn aggregate(self, key: FeedKey, now: Moment) -> Option<TimestampedValue> {
        fresh_median(
            self.reports(key),
            now,
            self.combine_data.expires_in,
            self.combine_data.minimum_count,
        )
    }

    /// Combining the reports for `key` at `now`, falling back on the cached value.
    pub open spec fn combined(self, key: FeedKey, now: Moment) -> Option<TimestampedValue> {
        combined_value(
            self.reports(key),
            self.cached(key),
            now,
            self.combine_data.expires_in,
            self.combine_data.minimum_count,
        )
    }

    /// The combined value of `key` at `now`: the cached one while it is up
    /// to date, else a new combination.
    pub open spec fn current(self, key: FeedKey, now: Moment) -> Option<TimestampedValue> {
        if self.valid(key) {
            self.cached(key)
        } else {
            self.combined(key, now)
        }
    }

    /// The state after reading `key` at `now`: a fresh combination is cached
    /// and marked up to date; otherwise nothing changes.
    pub open spec fn after_get(self, key: FeedKey, now: Moment) -> PalletView {
        if !self.valid(key) && self.aggregate(key, now) is Some {
            PalletView {
                values: self.values.insert(key, self.aggregate(key, now)->0),
                is_combined: self.is_combined.insert(key, true),
                ..self
            }
        } else {
            self
        }
    }

    /// What electing `feeder` on behalf of `origin` returns.
    pub open spec fn elect_outcome(self, origin: Origin, feeder: FeederId) -> Result<(), Error> {
        if origin != Origin::Root {
            Err(Error::BadOrigin)
        } else if self.is_feeder(feeder) {
            Err(Error::AlreadyFeeder)
        } else {
            Ok(())
        }
    }

    /// `post` is this state with `feeder` elected: the feeders gain it and
    /// stay strictly ascending, an event tells of it, and nothing else changes.
    pub open spec fn elected(self, post: PalletView, feeder: FeederId) -> bool {
        &&& strictly_ascending(post.feeders)
        &&& forall|x: FeederId| #[trigger] post.is_feeder(x) <==> (self.is_feeder(x) || x == feeder)
        &&& post == (PalletView {
            feeders: post.feeders,
            events: self.events.push(Event::NewFeederElected(feeder)),
            ..self
        })
    }

    /// What removing `feeder` on behalf of `origin` returns.
    pub open spec fn remove_outcome(self, origin: Origin, feeder: FeederId) -> Result<(), Error> {
        if origin != Origin::Root {
            Err(Error::BadOrigin)
        } else if !self.is_feeder(feeder) {
            Err(Error::NotFeeder)
        } else {
            Ok(())
        }
    }

    /// `post` is this state with `feeder` removed: the feeders lose it, its
    /// reports are deleted, an event tells of it, and nothing else changes;
    /// in particular the cached combined values stay as they are.
    pub open spec fn removed(self, post: PalletView, feeder: FeederId) -> bool {
        &&& strictly_ascending(post.feeders)
        &&& forall|x: FeederId| #[trigger] post.is_feeder(x) <==> (self.is_feeder(x) && x != feeder)
        &&& post == (PalletView {
            feeders: post.feeders,
            all_value: self.all_value.remove(feeder),
            events: self.events.push(Event::RemoveFeeder(feeder)),
            ..self
        })
    }

    /// What feeding values on behalf of `origin` returns.
    pub open spec fn feed_outcome(self, origin: Origin) -> Result<Pays, Error> {
        match origin {
            Origin::Signed(who) => if !self.is_feeder(who) {
                Err(Error::NoPermission)
            } else if self.feeded(who) {
                Err(Error::AlreadyFeeded)
            } else {
                Ok(Pays::No)
            },
            _ => Err(Error::BadOrigin),
        }
    }

    /// The state at the start of a new period: no feeder has fed yet.
    pub open spec fn after_finalize(self) -> PalletView {
        PalletView { has_feeded: Map::empty(), ..self }
    }

    /// The state after `who` fed `values` at `now`: its reports are recorded,
    /// the combined values of their keys are marked stale, it has fed in this
    /// period, and an event tells of it.
    pub open spec fn after_feed(
        self,
        who: FeederId,
        values: Vec<(FeedKey, FeedValue)>,
        now: Moment,
    ) -> PalletView {
        PalletView {
            all_value: self.all_value.insert(who, fed_row(self.row(who), values@, now)),
            is_combined: self.is_combined.remove_keys(fed_keys(values@)),
            has_feeded: self.has_feeded.insert(who, true),
            events: self.events.push(Event::NewFeedData(who, values)),
            ..self
        }
    }

    /// The invariant of the state: the feeders are strictly ascending, and a
    /// key marked up to date has a cached value.
    pub open spec fn wf(self) -> bool {
        &&& strictly_ascending(self.feeders)
        &&& forall|k: FeedKey| #[trigger] self.valid(k) ==> self.values.contains_key(k)
    }
}

/// The cache invariant depends on the cache alone.
proof fn lemma_cache_frame(a: PalletView, b: PalletView)
    requires
        a.wf(),
        strictly_ascending(b.feeders),
        b.is_combined == a.is_combined,
        b.values == a.values,
    ensures
        b.wf(),
{
    assert forall|k: FeedKey| #[trigger] b.valid(k) implies b.values.contains_key(k) by {
        assert(a.valid(k));
    }
}

/// Records the reports `values`, made at `now`, in `row`, and marks their
/// keys stale in `is_combined`.
fn record_batch(
    is_combined: &mut Table<FeedKey, bool>,
    row: &mut Table<FeedKey, TimestampedValue>,
    values: &Vec<(FeedKey, FeedValue)>,
    now: Moment,
)
    requires
        old(is_combined).wf(),
        old(row).wf(),
    ensures
        final(is_combined).wf(),
        final(row).wf(),
        final(is_combined)@ == old(is_combined)@.remove_keys(fed_keys(values@)),
        final(row)@ == fed_row(old(row)@, values@, now),
{
    let ghost c0 = is_combined@;
    let ghost r0 = row@;
    let mut i: usize = 0;
    proof {
        assert(fed_keys(values@.take(0)) =~= Set::empty());
        assert(c0.remove_keys(Set::empty()) =~= c0);
        assert(values@.take(0) =~= Seq::empty());
    }
    while i < values.len()
        invariant
            i <= values@.len(),
            is_combined.wf(),
            row.wf(),
            is_combined@ == c0.remove_keys(fed_keys(values@.take(i as int))),
            row@ == fed_row(r0, values@.take(i as int), now),
        decreases values@.len() - i,
    {
        let (k, v) = values[i];
        let ghost ti = values@.take(i as int);
        let ghost t = values@.take(i + 1);
        proof {
            assert(t.drop_last() =~= ti);
            assert(t.last() == (k, v));
            assert forall|x: FeedKey| fed_keys(t).contains(x) <==> fed_keys(ti).contains(x) || x
                == k by {
                if fed_keys(t).contains(x) {
                    let j = choose|j: int| 0 <= j < t.len() && #[trigger] t[j].0 == x;
                    if j < i {
                        assert(ti[j].0 == x);
                    }
                }
                if fed_keys(ti).contains(x) {
                    let j = choose|j: int| 0 <= j < ti.len() && #[trigger] ti[j].0 == x;
                    assert(t[j].0 == x);
                }
                if x == k {
                    assert(t[i as int].0 == x);
                }
            }
            assert(fed_keys(t) =~= fed_keys(ti).insert(k));
        }
        let _ = is_combined.remove(&k);
        row.insert(k, TimestampedValue { value: v, timestamp: now });
        proof {
            assert(is_combined@ =~= c0.remove_keys(fed_keys(t)));
        }
        i = i + 1;
    }
    proof {
        assert(values@.take(i as int) =~= values@);
    }
}

/// The oracle.
pub struct Pallet {
    feeders: FeederRegistry,
    has_feeded: Table<FeederId, bool>,
    is_combined: Table<FeedKey, bool>,
    fees: Table<FeederId, Balance>,
    all_value: Table<FeederId, Table<FeedKey, TimestampedValue>>,
    values: Table<FeedKey, TimestampedValue>,
    events: Vec<Event>,
    combine_data: DefaultCombineData,
}

impl View for Pallet {
    type V = PalletView;

    closed spec fn view(&self) -> PalletView {
        PalletView {
            feeders: self.feeders@,
            has_feeded: self.has_feeded@,
            is_combined: self.is_combined@,
            fees: self.fees@,
            all_value: Map::new(
                |f: FeederId| self.all_value@.contains_key(f),
                |f: FeederId| self.all_value@[f]@,
            ),
            values: self.values@,
            events: self.events@,
            combine_data: self.combine_data,
        }
    }
}

impl Pallet {
    /// Well-formedness: every table is well formed, and so is the view.
    pub closed spec fn wf(&self) -> bool {
        &&& self.feeders.wf()
        &&& self.has_feeded.wf()
        &&& self.is_combined.wf()
        &&& self.fees.wf()
        &&& self.all_value.wf()
        &&& self.values.wf()
        &&& forall|f: FeederId| #[trigger]
            self.all_value@.contains_key(f) ==> self.all_value@[f].wf()
        &&& self@.wf()
    }

    /// An oracle with no feeder and no data.
    pub fn new(combine_data: DefaultCombineData) -> (r: Self)
        ensures
            r.wf(),
            r@ == (PalletView {
                feeders: Seq::empty(),
                has_feeded: Map::empty(),
                is_combined: Map::empty(),
                fees: Map::empty(),
                all_value: Map::empty(),
                values: Map::empty(),
                events: Seq::empty(),
                combine_data,
            }),
    {
        let r = Pallet {
            feeders: FeederRegistry::new(),
            has_feeded: Table::new(),
            is_combined: Table::new(),
            fees: Table::new(),
            all_value: Table::new(),
            values: Table::new(),
            events: Vec::new(),
            combine_data,
        };
        proof {
            assert(r@.all_value =~= Map::empty());
        }
        r
    }

    /// Adds `feeder` to the feeders. Only the administrator may.
    pub fn elect_feeder(&mut self, origin: Origin, feeder: FeederId) -> (r: Result<(), Error>)
        requires
            old(self).wf(),
        ensures
            final(self).wf(),
            r == old(self)@.elect_outcome(origin, feeder),
            r is Err ==> final(self)@ == old(self)@,
            r is Ok ==> old(self)@.elected(final(self)@, feeder),
    {
        if origin != Origin::Root {
            return Err(Error::BadOrigin);
        }
        let ghost prev = self@;
        if !self.feeders.elect(feeder) {
            return Err(Error::AlreadyFeeder);
        }
        self.events.push(Event::NewFeederElected(feeder));
        proof {
            lemma_cache_frame(prev, self@);
        }
        Ok(())
    }

    /// Takes `feeder` out of the feeders and deletes its reports. The cached
    /// combined values are left as they are. Only the administrator may.
    pub fn remove_feeder(&mut self, origin: Origin, feeder: FeederId) -> (r: Result<(), Error>)
        requires
            old(self).wf(),
        ensures
            final(self).wf(),
            r == old(self)@.remove_outcome(origin, feeder),
            r is Err ==> final(self)@ == old(self)@,
            r is Ok ==> old(self)@.removed(final(self)@, feeder),
    {
        if origin != Origin::Root {
            return Err(Error::BadOrigin);
        }
        let ghost prev = self@;
        if !self.feeders.remove(feeder) {
            return Err(Error::NotFeeder);
        }
        let _ = self.all_value.remove(&feeder);
        self.events.push(Event::RemoveFeeder(feeder));
        proof {
            assert(self@.all_value =~= prev.all_value.remove(feeder));
            lemma_cache_frame(prev, self@);
        }
        Ok(())
    }

    /// Records the fee that the calling feeder asks.
    pub fn set_fee(&mut self, origin: Origin, fee: Balance) -> (r: Result<(), Error>)
        requires
            old(self).wf(),
        ensures
            final(self).wf(),
            r == match origin {
                Origin::Signed(who) => if old(self)@.is_feeder(who) {
                    Ok(())
                } else {
                    Err(Error::NoPermission)
                },
                _ => Err(Error::BadOrigin),
            },
            r is Err ==> final(self)@ == old(self)@,
            r is Ok ==> final(self)@ == (PalletView {
                fees: old(self)@.fees.insert(origin->Signed_0, fee),
                events: old(self)@.events.push(Event::FeeSetted(origin->Signed_0, fee)),
                ..old(self)@
            }),
    {
        let who = match origin {
            Origin::Signed(who) => who,
            _ => {
                return Err(Error::BadOrigin);
            },
        };
        if !self.feeders.is_feeder(who) {
            return Err(Error::NoPermission);
        }
        let ghost prev = self@;
        self.fees.insert(who, fee);
        self.events.push(Event::FeeSetted(who, fee));
        proof {
            lemma_cache_frame(prev, self@);
        }
        Ok(())
    }

    /// Ends a period: every feeder may feed again.
    pub fn on_finalize(&mut self, block: u64)
        requires
            old(self).wf(),
        ensures
            final(self).wf(),
            final(self)@ == old(self)@.after_finalize(),
    {
        let ghost prev = self@;
        self.has_feeded.clear();
        proof {
            lemma_cache_frame(prev, self@);
        }
    }

    /// The last report of `feeder` for `key`.
    pub fn get_concrete(&self, key: FeedKey, feeder: FeederId) -> (r: Option<TimestampedValue>)
        requires
            self.wf(),
        ensures
            r == self@.raw(feeder, key),
    {
        match self.all_value.get(&feeder) {
            Some(row) => match row.get(&key) {
                Some(v) => Some(*v),
                None => None,
            },
            None => None,
        }
    }

    /// Records the reports `values` of `who`, made at `now`, marks the combined
    /// values of their keys stale, and notes that `who` has fed in this period.
    pub fn do_feed_values(
        &mut self,
        who: FeederId,
        values: Vec<(FeedKey, FeedValue)>,
        now: Moment,
    ) -> (r: Result<(), Error>)
        requires
            old(self).wf(),
        ensures
            final(self).wf(),
            r == Ok::<(), Error>(()),
            final(self)@ == old(self)@.after_feed(who, values, now),
    {
        let ghost prev = self@;
        let mut row = match self.all_value.remove(&who) {
            Some(row) => row,
            None => Table::new(),
        };
        record_batch(&mut self.is_combined, &mut row, &values, now);
        self.all_value.insert(who, row);
        self.has_feeded.insert(who, true);
        self.events.push(Event::NewFeedData(who, values));
        proof {
            let post = prev.after_feed(who, values, now);
            assert(self@.all_value =~= post.all_value);
            assert(self@.is_combined =~= post.is_combined);
            assert forall|k: FeedKey| #[trigger] self@.valid(k) implies self@.values.contains_key(k) by {
                assert(prev.valid(k));
            }
        }
        Ok(())
    }

    /// A feeder submits `values` at `now`, once per period.
    pub fn feed_values(
        &mut self,
        origin: Origin,
        values: Vec<(FeedKey, FeedValue)>,
        now: Moment,
    ) -> (r: Result<Pays, Error>)
        requires
            old(self).wf(),
        ensures
            final(self).wf(),
            r == old(self)@.feed_outcome(origin),
            r is Err ==> final(self)@ == old(self)@,
            r is Ok ==> final(self)@ == old(self)@.after_feed(origin->Signed_0, values, now),
    {
        let who = match origin {
            Origin::Signed(who) => who,
            _ => {
                return Err(Error::BadOrigin);
            },
        };
        if !self.feeders.is_feeder(who) {
            return Err(Error::NoPermission);
        }
        let feeded = match self.has_feeded.get(&who) {
            Some(b) => *b,
            None => false,
        };
        if feeded {
            return Err(Error::AlreadyFeeded);
        }
        let _ = self.do_feed_values(who, values, now);
        Ok(Pays::No)
    }

    /// Records one report of `who`, as a batch of one.
    pub fn feed_value(&mut self, who: FeederId, key: FeedKey, value: FeedValue, now: Moment) -> (r:
        Result<(), Error>)
        requires
            old(self).wf(),
        ensures
            final(self).wf(),
            r == Ok::<(), Error>(()),
            exists|values: Vec<(FeedKey, FeedValue)>|
                values@ == seq![(key, value)] && final(self)@ == old(self)@.after_feed(
                    who,
                    values,
                    now,
                ),
    {
        let mut values: Vec<(FeedKey, FeedValue)> = Vec::new();
        values.push((key, value));
        proof {
            assert(values@ =~= seq![(key, value)]);
        }
        self.do_feed_values(who, values, now)
    }

    /// The last report of `feeder` for `key`, as the query for the operator's
    /// own feeder reads it.
    pub fn get_polkafoundry(&self, key: FeedKey, feeder: FeederId) -> (r: Option<TimestampedValue>)
        requires
            self.wf(),
        ensures
            r == self@.raw(feeder, key),
    {
        self.get_concrete(key, feeder)
    }

    /// The reports for `key` of the current feeders, ascending by feeder.
    fn get_values(&self, key: FeedKey) -> (r: Vec<TimestampedValue>)
        requires
            self.wf(),
        ensures
            r@ == self@.reports(key),
    {
        let mut r: Vec<TimestampedValue> = Vec::new();
        let mut i: usize = 0;
        while i < self.feeders.len()
            invariant
                self.wf(),
                i <= self@.feeders.len(),
                r@ == collect_reports(self@.all_value, self@.feeders.take(i as int), key),
            decreases self@.feeders.len() - i,
        {
            let f = self.feeders.get(i);
            proof {
                let t = self@.feeders.take(i + 1);
                assert(t.drop_last() =~= self@.feeders.take(i as int));
                assert(t.last() == f);
            }
            match self.get_concrete(key, f) {
                Some(v) => r.push(v),
                None => {},
            }
            i = i + 1;
        }
        proof {
            assert(self@.feeders.take(i as int) =~= self@.feeders);
        }
        r
    }

    fn cached_value(&self, key: FeedKey) -> (r: Option<TimestampedValue>)
        requires
            self.wf(),
        ensures
            r == self@.cached(key),
    {
        match self.values.get(&key) {
            Some(v) => Some(*v),
            None => None,
        }
    }

    /// Whether the cached combined value of `key` is up to date.
    pub fn is_combined(&self, key: FeedKey) -> (r: bool)
        requires
            self.wf(),
        ensures
            r == self@.valid(key),
    {
        match self.is_combined.get(&key) {
            Some(b) => *b,
            None => false,
        }
    }

    /// Combines the current reports for `key` at `now`, falling back on the
    /// cached value when they do not reach the quorum.
    pub fn combine(&self, key: FeedKey, now: Moment) -> (r: Option<TimestampedValue>)
        requires
            self.wf(),
        ensures
            r == self@.combined(key, now),
    {
        let reports = self.get_values(key);
        self.combine_data.combine_data(&reports, self.cached_value(key), now)
    }

    /// The combined value of `key` at `now`, without caching it: the cached
    /// one while it is up to date, else a new combination.
    pub fn get_no_op(&self, key: FeedKey, now: Moment) -> (r: Option<TimestampedValue>)
        requires
            self.wf(),
        ensures
            r == self@.current(key, now),
    {
        if self.is_combined(key) {
            self.cached_value(key)
        } else {
            self.combine(key, now)
        }
    }

    /// The combined value of `key` at `now`. A fresh combination is cached
    /// and marked up to date; when the reports do not reach the quorum, the
    /// cached value is returned and stays stale.
    pub fn get(&mut self, key: FeedKey, now: Moment) -> (r: Option<TimestampedValue>)
        requires
            old(self).wf(),
        ensures
            final(self).wf(),
            r == old(self)@.current(key, now),
            final(self)@ == old(self)@.after_get(key, now),
    {
        if self.is_combined(key) {
            return self.cached_value(key);
        }
        let reports = self.get_values(key);
        match self.combine_data.aggregate(&reports, now) {
            Some(t) => {
                let ghost prev = self@;
                self.values.insert(key, t);
                self.is_combined.insert(key, true);
                proof {
                    assert forall|k: FeedKey| #[trigger] self@.valid(k) implies self@.values.contains_key(k) by {
                        if k != key {
                            assert(prev.valid(k));
                        }
                    }
                }
                Some(t)
            },
            None => self.cached_value(key),
        }
    }

    /// Every key that has a cached combined value, in storage's order, each
    /// with its combined value at `now`. Keys never combined are not listed.
    pub fn get_all_values(&self, now: Moment) -> (r: Vec<(FeedKey, Option<TimestampedValue>)>)
        requires
            self.wf(),
        ensures
            forall|k: FeedKey|
                self@.values.contains_key(k) <==> exists|i: int| 0 <= i < r@.len() && #[trigger] r@[i].0 == k,
            forall|i: int, j: int| 0 <= i < r@.len() && 0 <= j < r@.len() && i != j ==> #[trigger] r@[i].0 != #[trigger] r@[j].0,
            forall|i: int, j: int|
                0 <= i < j < r@.len() ==> storage_rank(#[trigger] r@[i].0) <= storage_rank(#[trigger] r@[j].0),
            forall|i: int| 0 <= i < r@.len() ==> #[trigger] r@[i].1 == self@.current(r@[i].0, now),
    {
        let keys = self.values.keys();
        let ordered = in_storage_order(&keys);
        let mut r: Vec<(FeedKey, Option<TimestampedValue>)> = Vec::new();
        let mut i: usize = 0;
        while i < ordered.len()
            invariant
                self.wf(),
                i <= ordered@.len(),
                r@.len() == i,
                forall|j: int| 0 <= j < i ==> (#[trigger] r@[j]).0 == ordered@[j],
                forall|j: int| 0 <= j < i ==> #[trigger] r@[j].1 == self@.current(r@[j].0, now),
            decreases ordered@.len() - i,
        {
            let k = ordered[i];
            r.push((k, self.get_no_op(k, now)));
            i = i + 1;
        }
        proof {
            assert forall|k: FeedKey|
                self@.values.contains_key(k) <==> exists|i: int| 0 <= i < r@.len() && #[trigger] r@[i].0 == k by {
                if self@.values.contains_key(k) {
                    assert(keys@.contains(k));
                    assert(ordered@.contains(k));
                    let j = choose|j: int| 0 <= j < ordered@.len() && ordered@[j] == k;
                    assert(r@[j].0 == k);
                }
                if exists|i: int| 0 <= i < r@.len() && #[trigger] r@[i].0 == k {
                    let j = choose|j: int| 0 <= j < r@.len() && #[trigger] r@[j].0 == k;
                    assert(ordered@[j] == k);
                    assert(ordered@.contains(k));
                }
            }
            assert forall|a: int, b: int| 0 <= a < r@.len() && 0 <= b < r@.len() && a != b implies #[trigger] r@[a].0 != #[trigger] r@[b].0 by {
                assert(r@[a].0 == ordered@[a] && r@[b].0 == ordered@[b]);
            }
            assert forall|a: int, b: int| 0 <= a < b < r@.len() implies storage_rank(#[trigger] r@[a].0) <= storage_rank(#[trigger] r@[b].0) by {
                assert(r@[a].0 == ordered@[a] && r@[b].0 == ordered@[b]);
            }
        }
        r
    }

    /// The feeders, ascending.
    pub fn feeders(&self) -> (r: Vec<FeederId>)
        ensures
            r@ == self@.feeders,
    {
        self.feeders.to_vec()
    }

    /// Whether `who` is a feeder.
    pub fn is_feeder(&self, who: FeederId) -> (r: bool)
        requires
            self.wf(),
        ensures
            r == self@.is_feeder(who),
    {
        self.feeders.is_feeder(who)
    }

    /// Whether `who` has fed in the current period.
    pub fn has_feeded(&self, who: FeederId) -> (r: bool)
        requires
            self.wf(),
        ensures
            r == self@.feeded(who),
    {
        match self.has_feeded.get(&who) {
            Some(b) => *b,
            None => false,
        }
    }

    /// The fee `who` declared; zero when it declared none.
    pub fn fees(&self, who: FeederId) -> (r: Balance)
        requires
            self.wf(),
        ensures
            r == if self@.fees.contains_key(who) {
                self@.fees[who]
            } else {
                0
            },
    {
        match self.fees.get(&who) {
            Some(b) => *b,
            None => 0,
        }
    }

    /// The last report of `feeder` for `key`.
    pub fn all_value(&self, feeder: FeederId, key: FeedKey) -> (r: Option<TimestampedValue>)
        requires
            self.wf(),
        ensures
            r == self@.raw(feeder, key),
    {
        self.get_concrete(key, feeder)
    }

    /// The cached combined value of `key`, up to date or not.
    pub fn values(&self, key: FeedKey) -> (r: Option<TimestampedValue>)
        requires
            self.wf(),
        ensures
            r == self@.cached(key),
    {
        self.cached_value(key)
    }

    /// The events, oldest first.
    pub fn events(&self) -> (r: &Vec<Event>)
        ensures
            r@ == self@.events,
    {
        &self.events
    }

    /// The rule for combining reports.
    pub fn combine_rule(&self) -> (r: DefaultCombineData)
        ensures
            r == self@.combine_data,
    {
        self.combine_data
    }
}

/// The initial feeders.
pub struct GenesisConfig {
    pub feeders: Vec<FeederId>,
}

impl Default for GenesisConfig {
    fn default() -> (r: Self)
        ensures
            r.feeders@ == Seq::<FeederId>::empty(),
    {
        GenesisConfig { feeders: Vec::new() }
    }
}

impl GenesisConfig {
    /// An oracle whose feeders are those listed, each once, ascending, and
    /// that holds no data yet.
    pub fn build(&self, combine_data: DefaultCombineData) -> (r: Pallet)
        ensures
            r.wf(),
            forall|x: FeederId| #[trigger] r@.is_feeder(x) <==> self.feeders@.contains(x),
            r@.has_feeded == Map::<FeederId, bool>::empty(),
            r@.is_combined == Map::<FeedKey, bool>::empty(),
            r@.fees == Map::<FeederId, Balance>::empty(),
            r@.all_value == Map::<FeederId, Map<FeedKey, TimestampedValue>>::empty(),
            r@.values == Map::<FeedKey, TimestampedValue>::empty(),
            r@.events == Seq::<Event>::empty(),
            r@.combine_data == combine_data,
    {
        let mut r = Pallet::new(combine_data);
        let mut i: usize = 0;
        while i < self.feeders.len()
            invariant
                i <= self.feeders@.len(),
                r.wf(),
                forall|x: FeederId| #[trigger] r@.is_feeder(x) <==> self.feeders@.take(i as int).contains(x),
                r@.has_feeded == Map::<FeederId, bool>::empty(),
                r@.is_combined == Map::<FeedKey, bool>::empty(),
                r@.fees == Map::<FeederId, Balance>::empty(),
                r@.all_value == Map::<FeederId, Map<FeedKey, TimestampedValue>>::empty(),
                r@.values == Map::<FeedKey, TimestampedValue>::empty(),
                r@.events == Seq::<Event>::empty(),
                r@.combine_data == combine_data,
            decreases self.feeders@.len() - i,
        {
            let f = self.feeders[i];
            let ghost prev = r@;
            let _ = r.feeders.elect(f);
            proof {
                let t = self.feeders@.take(i + 1);
                assert(t =~= self.feeders@.take(i as int).push(f));
                assert forall|x: FeederId| #[trigger] r@.is_feeder(x) <==> t.contains(x) by {
                    assert(prev.is_feeder(x) <==> self.feeders@.take(i as int).contains(x));
                    assert(r.feeders@.contains(x) <==> (prev.feeders.contains(x) || x == f));
                    if x == f {
                        assert(t[i as int] == f);
                    }
                    if t.contains(x) {
                        let j = choose|j: int| 0 <= j < t.len() && t[j] == x;
                        if j < i {
                            assert(self.feeders@.take(i as int)[j] == x);
                        }
                    }
                    if self.feeders@.take(i as int).contains(x) {
                        let j = choose|j: int| 0 <= j < i && self.feeders@.take(i as int)[j] == x;
                        assert(t[j] == x);
                    }
                }
                lemma_cache_frame(prev, r@);
            }
            i = i + 1;
        }
        proof {
            assert(self.feeders@.take(i as int) =~= self.feeders@);
        }
        r
    }
}

} // verus!
