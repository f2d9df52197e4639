use pkfp_oracle::combine::{DefaultCombineData, TimestampedValue};
use pkfp_oracle::pallet::{Error, GenesisConfig, Origin, Pallet, Pays};

const POLKAFOUNDRY: u64 = 1;
const ALICE: u64 = 2;
const BOB: u64 = 3;

const START: u64 = 12345;

fn oracle_with(feeders: Vec<u64>) -> Pallet {
    GenesisConfig { feeders }.build(DefaultCombineData::new(3, 600))
}

#[test]
fn elect_feeder_should_works() {
    let mut oracle = oracle_with(vec![ALICE]);
    let before = oracle.feeders();
    let events = oracle.events().len();
    assert_eq!(oracle.elect_feeder(Origin::Root, ALICE), Err(Error::AlreadyFeeder));
    assert_eq!(oracle.feeders(), before);
    assert_eq!(oracle.events().len(), events);
    assert_eq!(oracle.elect_feeder(Origin::Root, BOB), Ok(()));
    assert_eq!(oracle.feeders().len(), 2)
}

#[test]
fn set_fee_should_work() {
    let mut oracle = oracle_with(vec![ALICE]);
    assert_eq!(oracle.set_fee(Origin::Signed(POLKAFOUNDRY), 100u64), Err(Error::NoPermission));
    assert_eq!(oracle.fees(POLKAFOUNDRY), 0);
    assert_eq!(oracle.set_fee(Origin::Signed(ALICE), 100u64), Ok(()));
    assert_eq!(oracle.fees(ALICE), 100);
}

#[test]
fn feed_value_should_work() {
    let mut oracle = oracle_with(vec![ALICE]);
    assert_eq!(
        oracle.feed_values(Origin::Signed(BOB), vec![(1, 2)], START),
        Err(Error::NoPermission)
    );
    assert_eq!(oracle.all_value(BOB, 1), None);
    assert_eq!(
        oracle.feed_values(Origin::Signed(ALICE), vec![(1, 2)], START).unwrap(),
        Pays::No
    );
    assert_eq!(
        oracle.feed_values(Origin::Signed(ALICE), vec![(1, 2)], START),
        Err(Error::AlreadyFeeded)
    );
    oracle.on_finalize(1);
    assert_eq!(oracle.feed_values(Origin::Signed(ALICE), vec![(1, 2)], START), Ok(Pays::No));
    assert_eq!(
        oracle.all_value(ALICE, 1),
        Some(TimestampedValue { value: 2, timestamp: 12345 })
    );
    oracle.on_finalize(2);
    assert_eq!(oracle.feed_values(Origin::Signed(ALICE), vec![(1, 5)], START), Ok(Pays::No));
    assert_eq!(
        oracle.all_value(ALICE, 1),
        Some(TimestampedValue { value: 5, timestamp: 12345 })
    );
}

#[test]
fn combine_should_work() {
    let mut oracle = oracle_with(vec![POLKAFOUNDRY, ALICE, BOB]);
    let key: u32 = 50;
    let mut now: u64 = START;

    assert!(oracle.feed_values(Origin::Signed(POLKAFOUNDRY), vec![(key, 1300)], now).is_ok());
    assert!(oracle.feed_values(Origin::Signed(ALICE), vec![(key, 1000)], now).is_ok());
    // not enough feed
    assert_eq!(oracle.get(key, now), None);

    assert!(oracle.feed_values(Origin::Signed(BOB), vec![(key, 1200)], now).is_ok());

    let expected = Some(TimestampedValue { value: 1200, timestamp: 12345 });

    assert_eq!(oracle.get(key, now), expected);

    now = 23456;

    assert_eq!(oracle.get(key, now), expected);

    oracle.on_finalize(1);

    assert!(oracle.feed_values(Origin::Signed(POLKAFOUNDRY), vec![(key, 2300)], now).is_ok());
    assert!(oracle.feed_values(Origin::Signed(ALICE), vec![(key, 2000)], now).is_ok());

    assert_eq!(oracle.get(key, now), expected);

    oracle.on_finalize(2);

    assert!(oracle.feed_values(Origin::Signed(POLKAFOUNDRY), vec![(key, 2300)], now).is_ok());
    assert!(oracle.feed_values(Origin::Signed(ALICE), vec![(key, 2000)], now).is_ok());
    assert!(oracle.feed_values(Origin::Signed(BOB), vec![(key, 2200)], now).is_ok());
    let expected2 = Some(TimestampedValue { value: 2200, timestamp: 23456 });
    assert_eq!(oracle.get(key, now), expected2);
    now = 34567;
    oracle.on_finalize(2);
    assert!(oracle.feed_values(Origin::Signed(BOB), vec![(key, 2200)], now).is_ok());

    now = 40000;
    assert!(oracle.feed_values(Origin::Signed(POLKAFOUNDRY), vec![(key, 2300)], now).is_ok());
    assert!(oracle.feed_values(Origin::Signed(ALICE), vec![(key, 2000)], now).is_ok());
    // still old values because bob is expired
    let expected3 = Some(TimestampedValue { value: 2200, timestamp: 23456 });
    assert_eq!(oracle.get(key, now), expected3);
}

#[test]
fn get_concrete_should_work() {
    let mut oracle = oracle_with(vec![POLKAFOUNDRY, ALICE, BOB]);
    let key: u32 = 50;

    assert!(oracle.feed_values(Origin::Signed(POLKAFOUNDRY), vec![(key, 1300)], START).is_ok());
    assert!(oracle.feed_values(Origin::Signed(ALICE), vec![(key, 1000)], START).is_ok());
    assert!(oracle.feed_values(Origin::Signed(BOB), vec![(key, 1200)], START).is_ok());
    assert_eq!(
        oracle.get_concrete(key, POLKAFOUNDRY),
        Some(TimestampedValue { value: 1300, timestamp: 12345 })
    );
    assert_eq!(
        oracle.get_concrete(key, ALICE),
        Some(TimestampedValue { value: 1000, timestamp: 12345 })
    );
    assert_eq!(
        oracle.get_concrete(key, BOB),
        Some(TimestampedValue { value: 1200, timestamp: 12345 })
    );
}

#[test]
fn get_all_should_work() {
    let mut oracle = oracle_with(vec![POLKAFOUNDRY, ALICE, BOB]);
    let dot: u32 = 50;
    let ksm: u32 = 60;
    assert!(oracle
        .feed_values(Origin::Signed(POLKAFOUNDRY), vec![(dot, 1300), (ksm, 10000)], START)
        .is_ok());
    assert!(oracle
        .feed_values(Origin::Signed(ALICE), vec![(dot, 1000), (ksm, 11000), (ksm, 12000)], START)
        .is_ok());
    assert!(oracle
        .feed_values(Origin::Signed(BOB), vec![(dot, 1200), (dot, 1300), (ksm, 13000)], START)
        .is_ok());

    // not combined yet
    assert_eq!(oracle.get_all_values(START), vec![]);
    assert_eq!(
        oracle.get(dot, START),
        Some(TimestampedValue { value: 1300, timestamp: 12345 })
    );
    let dot_price = Some(TimestampedValue { value: 1300, timestamp: 12345 });

    assert_eq!(oracle.get_all_values(START), vec![(dot, dot_price)]);

    let ksm_price = Some(TimestampedValue { value: 12000, timestamp: 12345 });

    assert_eq!(oracle.get(ksm, START), ksm_price);

    assert_eq!(oracle.get_all_values(START), vec![(ksm, ksm_price), (dot, dot_price)]);
}

#[test]
fn remove_feeder_work() {
    let mut oracle = oracle_with(vec![POLKAFOUNDRY, ALICE, BOB]);
    let before = oracle.feeders();
    assert_eq!(oracle.remove_feeder(Origin::Root, 10u64), Err(Error::NotFeeder));
    assert_eq!(oracle.feeders(), before);
    assert_eq!(oracle.elect_feeder(Origin::Root, BOB), Err(Error::AlreadyFeeder));
    assert_eq!(oracle.feeders(), before);

    let key: u32 = 50;
    assert!(oracle.feed_values(Origin::Signed(POLKAFOUNDRY), vec![(key, 1300)], START).is_ok());
    assert!(oracle.feed_values(Origin::Signed(ALICE), vec![(key, 1000)], START).is_ok());
    assert!(oracle.feed_values(Origin::Signed(BOB), vec![(key, 1200)], START).is_ok());
    assert_eq!(
        oracle.get_concrete(key, BOB),
        Some(TimestampedValue { value: 1200, timestamp: 12345 })
    );
    assert_eq!(oracle.remove_feeder(Origin::Root, BOB), Ok(()));
    assert_eq!(oracle.get_concrete(key, BOB), None);
    assert_eq!(oracle.elect_feeder(Origin::Root, BOB), Ok(()));
}
