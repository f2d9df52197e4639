use pkfp_oracle::combine::{select_median, DefaultCombineData, TimestampedValue};
use pkfp_oracle::pallet::{Error, Event, GenesisConfig, Origin, Pallet, Pays};
use pkfp_oracle::primitives::DataProviderId;
use pkfp_oracle::registry::{binary_search, FeederRegistry};
use pkfp_oracle::rpc::{self, Oracle};
use pkfp_oracle::storage_order::{in_storage_order, storage_rank_of};
use pkfp_oracle::table::Table;
use std::sync::Arc;

const A: u64 = 7;
const B: u64 = 8;
const C: u64 = 9;

fn tv(value: u64, timestamp: u64) -> TimestampedValue {
    TimestampedValue { value, timestamp }
}

fn three_feeders() -> Pallet {
    GenesisConfig { feeders: vec![A, B, C] }.build(DefaultCombineData::new(3, 600))
}

#[test]
fn electing_twice_fails_and_removing_twice_fails() {
    let mut o = Pallet::new(DefaultCombineData::new(1, 10));
    assert_eq!(o.elect_feeder(Origin::Root, 5), Ok(()));
    assert_eq!(o.elect_feeder(Origin::Root, 5), Err(Error::AlreadyFeeder));
    assert_eq!(o.feeders(), vec![5]);
    assert_eq!(o.remove_feeder(Origin::Root, 5), Ok(()));
    assert_eq!(o.remove_feeder(Origin::Root, 5), Err(Error::NotFeeder));
    assert_eq!(o.feeders(), Vec::<u64>::new());
    assert_eq!(o.events(), &vec![Event::NewFeederElected(5), Event::RemoveFeeder(5)]);
}

#[test]
fn only_root_changes_feeders() {
    let mut o = Pallet::new(DefaultCombineData::new(1, 10));
    assert_eq!(o.elect_feeder(Origin::Signed(1), 5), Err(Error::BadOrigin));
    assert_eq!(o.elect_feeder(Origin::Unsigned, 5), Err(Error::BadOrigin));
    assert_eq!(o.elect_feeder(Origin::Root, 5), Ok(()));
    assert_eq!(o.remove_feeder(Origin::Signed(5), 5), Err(Error::BadOrigin));
    assert!(o.is_feeder(5));
}

#[test]
fn feeders_stay_sorted_and_unique() {
    let mut o = GenesisConfig { feeders: vec![30, 10, 30, 20] }.build(DefaultCombineData::new(1, 10));
    assert_eq!(o.feeders(), vec![10, 20, 30]);
    assert_eq!(o.elect_feeder(Origin::Root, 15), Ok(()));
    assert_eq!(o.elect_feeder(Origin::Root, 40), Ok(()));
    assert_eq!(o.elect_feeder(Origin::Root, 1), Ok(()));
    assert_eq!(o.feeders(), vec![1, 10, 15, 20, 30, 40]);
    assert_eq!(o.remove_feeder(Origin::Root, 20), Ok(()));
    assert_eq!(o.feeders(), vec![1, 10, 15, 30, 40]);
}

#[test]
fn default_genesis_has_no_feeders() {
    let o = GenesisConfig::default().build(DefaultCombineData::new(1, 10));
    assert!(o.feeders().is_empty());
}

#[test]
fn outsider_cannot_feed_and_changes_nothing() {
    let mut o = three_feeders();
    let events = o.events().len();
    assert_eq!(o.feed_values(Origin::Signed(99), vec![(1, 5)], 100), Err(Error::NoPermission));
    assert_eq!(o.get_concrete(1, 99), None);
    assert!(!o.has_feeded(99));
    assert_eq!(o.events().len(), events);
    assert_eq!(o.feed_values(Origin::Unsigned, vec![(1, 5)], 100), Err(Error::BadOrigin));
    assert_eq!(o.set_fee(Origin::Root, 5), Err(Error::BadOrigin));
}

#[test]
fn feeding_twice_in_a_period_fails_until_reset() {
    let mut o = three_feeders();
    assert_eq!(o.feed_values(Origin::Signed(A), vec![(1, 5)], 100), Ok(Pays::No));
    assert!(o.has_feeded(A));
    assert_eq!(o.feed_values(Origin::Signed(A), vec![(1, 6)], 100), Err(Error::AlreadyFeeded));
    assert_eq!(o.get_concrete(1, A), Some(tv(5, 100)));
    o.on_finalize(1);
    assert!(!o.has_feeded(A));
    assert_eq!(o.feed_values(Origin::Signed(A), vec![(1, 6)], 101), Ok(Pays::No));
    assert_eq!(o.get_concrete(1, A), Some(tv(6, 101)));
}

#[test]
fn feeding_records_an_event() {
    let mut o = three_feeders();
    assert_eq!(o.feed_values(Origin::Signed(B), vec![(1, 5), (2, 6)], 100), Ok(Pays::No));
    assert_eq!(o.events(), &vec![Event::NewFeedData(B, vec![(1, 5), (2, 6)])]);
    assert_eq!(o.set_fee(Origin::Signed(B), 42), Ok(()));
    assert_eq!(o.events()[1], Event::FeeSetted(B, 42));
}

#[test]
fn quorum_reached_after_fresh_report() {
    let mut o = three_feeders();
    let k: u32 = 4;
    assert!(o.feed_values(Origin::Signed(A), vec![(k, 1000)], 100).is_ok());
    assert!(o.feed_values(Origin::Signed(B), vec![(k, 1300)], 1000).is_ok());
    assert!(o.feed_values(Origin::Signed(C), vec![(k, 1200)], 1200).is_ok());
    // only B and C are fresh at 1300
    assert_eq!(o.get(k, 1300), None);
    assert!(!o.is_combined(k));
    o.on_finalize(1);
    assert!(o.feed_values(Origin::Signed(A), vec![(k, 1000)], 1300).is_ok());
    assert_eq!(o.get(k, 1300), Some(tv(1200, 1200)));
    assert!(o.is_combined(k));
}

#[test]
fn expiry_boundary_is_stale() {
    let mut o = GenesisConfig { feeders: vec![A] }.build(DefaultCombineData::new(1, 600));
    assert!(o.feed_values(Origin::Signed(A), vec![(1, 50)], 100).is_ok());
    // 100 + 600 == 700: stale
    assert_eq!(o.get(1, 700), None);
    assert_eq!(o.get(1, 699), Some(tv(50, 100)));
}

#[test]
fn reading_twice_gives_the_same_value() {
    let mut o = three_feeders();
    assert!(o.feed_values(Origin::Signed(A), vec![(1, 10)], 100).is_ok());
    assert!(o.feed_values(Origin::Signed(B), vec![(1, 30)], 100).is_ok());
    assert!(o.feed_values(Origin::Signed(C), vec![(1, 20)], 100).is_ok());
    let fresh = o.combine(1, 100);
    let first = o.get(1, 100);
    assert_eq!(first, fresh);
    assert_eq!(first, Some(tv(20, 100)));
    assert_eq!(o.get(1, 200), first);
    assert_eq!(o.get_no_op(1, 200), first);
}

#[test]
fn stale_cache_is_returned_while_quorum_is_missing() {
    let mut o = three_feeders();
    assert!(o.feed_values(Origin::Signed(A), vec![(1, 10)], 100).is_ok());
    assert!(o.feed_values(Origin::Signed(B), vec![(1, 30)], 100).is_ok());
    assert!(o.feed_values(Origin::Signed(C), vec![(1, 20)], 100).is_ok());
    assert_eq!(o.get(1, 100), Some(tv(20, 100)));
    o.on_finalize(1);
    assert!(o.feed_values(Origin::Signed(A), vec![(1, 99)], 200).is_ok());
    assert!(!o.is_combined(1));
    // all three are still fresh: a new median
    assert_eq!(o.get(1, 200), Some(tv(30, 100)));
    o.on_finalize(2);
    assert!(o.feed_values(Origin::Signed(A), vec![(1, 5)], 900).is_ok());
    // only A is fresh at 900: the cached value comes back and stays stale
    assert_eq!(o.get(1, 900), Some(tv(30, 100)));
    assert!(!o.is_combined(1));
    assert_eq!(o.values(1), Some(tv(30, 100)));
}

#[test]
fn removing_a_feeder_keeps_the_cached_value_until_the_next_write() {
    let mut o = three_feeders();
    assert!(o.feed_values(Origin::Signed(A), vec![(1, 10)], 100).is_ok());
    assert!(o.feed_values(Origin::Signed(B), vec![(1, 30)], 100).is_ok());
    assert!(o.feed_values(Origin::Signed(C), vec![(1, 20)], 100).is_ok());
    assert_eq!(o.get(1, 100), Some(tv(20, 100)));
    assert_eq!(o.remove_feeder(Origin::Root, C), Ok(()));
    assert_eq!(o.get_concrete(1, C), None);
    assert!(o.is_combined(1));
    assert_eq!(o.get(1, 100), Some(tv(20, 100)));
    o.on_finalize(1);
    assert!(o.feed_values(Origin::Signed(A), vec![(1, 11)], 100).is_ok());
    assert!(!o.is_combined(1));
    // two feeders remain, under the quorum of three: the stale value stays
    assert_eq!(o.get(1, 100), Some(tv(20, 100)));
}

#[test]
fn get_all_lists_only_read_keys() {
    let mut o = three_feeders();
    assert!(o.feed_values(Origin::Signed(A), vec![(50, 1), (60, 1)], 100).is_ok());
    assert!(o.feed_values(Origin::Signed(B), vec![(50, 2), (60, 2)], 100).is_ok());
    assert!(o.feed_values(Origin::Signed(C), vec![(50, 3), (60, 3)], 100).is_ok());
    assert_eq!(o.get_all_values(100), vec![]);
    assert_eq!(o.get(50, 100), Some(tv(2, 100)));
    assert_eq!(o.get_all_values(100), vec![(50, Some(tv(2, 100)))]);
}

#[test]
fn median_is_upper_for_even_counts() {
    let v = vec![tv(40, 1), tv(10, 2), tv(30, 3), tv(20, 4)];
    assert_eq!(select_median(&v), tv(30, 3));
    let one = vec![tv(5, 9)];
    assert_eq!(select_median(&one), tv(5, 9));
}

#[test]
fn median_with_ties_takes_the_first_report() {
    let v = vec![tv(7, 1), tv(3, 2), tv(7, 3)];
    assert_eq!(select_median(&v), tv(7, 1));
    let w = vec![tv(2, 1), tv(2, 2), tv(2, 3), tv(2, 4)];
    assert_eq!(select_median(&w), tv(2, 1));
}

#[test]
fn combine_data_falls_back_on_the_previous_value() {
    let rule = DefaultCombineData::new(2, 100);
    let prev = Some(tv(1, 1));
    assert_eq!(rule.combine_data(&vec![tv(5, 50)], prev, 60), prev);
    assert_eq!(rule.combine_data(&vec![], prev, 60), prev);
    assert_eq!(rule.combine_data(&vec![tv(5, 50), tv(9, 55)], prev, 60), Some(tv(9, 55)));
    assert_eq!(rule.combine_data(&vec![tv(5, 50), tv(9, 55)], prev, 150), prev);
    assert_eq!(rule.aggregate(&vec![tv(5, 50), tv(9, 55)], 150), None);
    let no_quorum = DefaultCombineData::new(0, 100);
    assert_eq!(no_quorum.combine_data(&vec![], None, 60), None);
}

#[test]
fn expiry_does_not_overflow() {
    let rule = DefaultCombineData::new(1, u64::MAX);
    assert_eq!(rule.aggregate(&vec![tv(5, u64::MAX)], u64::MAX), Some(tv(5, u64::MAX)));
    assert_eq!(rule.aggregate(&vec![tv(5, 0)], u64::MAX), None);
}

#[test]
fn storage_order_follows_the_hashed_keys() {
    assert_eq!(storage_rank_of(50), 75324851533355875818551640064);
    assert_eq!(storage_rank_of(60), 74417662104467091902141825024);
    assert_eq!(in_storage_order(&vec![50, 60]), vec![60, 50]);
    assert_eq!(in_storage_order(&vec![60, 50]), vec![60, 50]);
    assert_eq!(in_storage_order(&vec![]), Vec::<u32>::new());
}

#[test]
fn binary_search_finds_places() {
    let v = vec![2, 4, 6];
    assert_eq!(binary_search(&v, 4), Ok(1));
    assert_eq!(binary_search(&v, 1), Err(0));
    assert_eq!(binary_search(&v, 5), Err(2));
    assert_eq!(binary_search(&v, 7), Err(3));
    let mut r = FeederRegistry::new();
    assert!(r.elect(3));
    assert!(!r.elect(3));
    assert!(r.is_feeder(3));
    assert!(r.remove(3));
    assert!(!r.remove(3));
    assert_eq!(r.len(), 0);
}

#[test]
fn table_keeps_one_value_per_key() {
    let mut t: Table<u32, u64> = Table::new();
    t.insert(1, 10);
    t.insert(2, 20);
    t.insert(1, 11);
    assert_eq!(t.get(&1), Some(&11));
    assert_eq!(t.keys(), vec![1, 2]);
    assert_eq!(t.remove(&1), Some(11));
    assert_eq!(t.get(&1), None);
    assert!(t.contains_key(&2));
    t.clear();
    assert_eq!(t.keys(), Vec::<u32>::new());
}

#[test]
fn rpc_error_code_and_handle() {
    assert_eq!(i64::from(rpc::Error::RuntimeError), 1);
    let client = Arc::new(5u8);
    let handle: Oracle<u8, ()> = Oracle::new(client.clone());
    assert_eq!(**handle.client(), 5);
}

#[test]
fn data_provider_ids_are_ordered() {
    assert!(DataProviderId::Combined < DataProviderId::PolkaFoundry);
    assert!(DataProviderId::Concrete < DataProviderId::All);
}

#[test]
fn feed_value_is_a_batch_of_one() {
    let mut o = three_feeders();
    assert_eq!(o.feed_value(A, 3, 77, 500), Ok(()));
    assert_eq!(o.get_concrete(3, A), Some(tv(77, 500)));
    assert_eq!(o.get_polkafoundry(3, A), Some(tv(77, 500)));
    assert_eq!(o.get_polkafoundry(3, B), None);
    assert!(o.has_feeded(A));
}
