use pkfp_oracle::pallet::Origin;
use pkfp_oracle::redkite::{
    tokens_for, Claim, Error, Event, GenesisConfig, Pallet, Purchase, Tier, UserWinnerInfo,
};

const DEFAULT_TIER_DOVE: u128 = 500;
const DEFAULT_TIER_HAWK: u128 = 5_000;
const DEFAULT_TIER_EAGLE: u128 = 20_000;
const DEFAULT_TIER_PHOENIX: u128 = 60_000;

const DEFAULT_ADMIN_ID: u64 = 1;
const DEFAULT_POOL_ID: u32 = 1;
const DEFAULT_TOKEN: u32 = 1;
const DEFAULT_DURATION: u64 = 1000;
const DEFAULT_OPEN_TIME: u64 = 1;
const DEFAULT_OFFERED_CURRENCY: u32 = 1;
const DEFAULT_FUNDING_WALLET: u64 = 100;

fn mock_test() -> Pallet {
    let mut sale = GenesisConfig {
        administrators: vec![1u64, 2u64, 3u64],
        tiers: vec![DEFAULT_TIER_DOVE, DEFAULT_TIER_HAWK, DEFAULT_TIER_EAGLE, DEFAULT_TIER_PHOENIX],
    }
    .build();
    assert_eq!(
        sale.init_pool(
            Origin::Signed(DEFAULT_ADMIN_ID),
            DEFAULT_POOL_ID,
            DEFAULT_TOKEN,
            DEFAULT_DURATION,
            DEFAULT_OPEN_TIME,
            DEFAULT_OFFERED_CURRENCY,
            DEFAULT_FUNDING_WALLET,
        ),
        Ok(())
    );
    sale
}

#[test]
fn init_pool_work() {
    let mut sale = mock_test();
    let events = sale.events().len();
    // test administrator permission
    assert_eq!(
        sale.init_pool(
            Origin::Signed(4),
            DEFAULT_POOL_ID,
            DEFAULT_TOKEN,
            DEFAULT_DURATION,
            DEFAULT_OPEN_TIME,
            DEFAULT_OFFERED_CURRENCY,
            DEFAULT_FUNDING_WALLET,
        ),
        Err(Error::InvalidPermission)
    );
    assert_eq!(sale.events().len(), events);
    assert_eq!(sale.pools(DEFAULT_POOL_ID).unwrap().funding_wallet, DEFAULT_FUNDING_WALLET);
    assert_eq!(sale.pools(DEFAULT_POOL_ID).unwrap().close_time, 1001);
}

#[test]
fn set_open_time_work() {
    let mut sale = mock_test();
    const NEW_OPEN_TIME: u64 = 64;
    // test administrator permission
    assert_eq!(
        sale.set_open_time(Origin::Signed(4), DEFAULT_POOL_ID, NEW_OPEN_TIME),
        Err(Error::InvalidPermission)
    );
    assert_eq!(sale.pools(DEFAULT_POOL_ID).unwrap().open_time, DEFAULT_OPEN_TIME);
    assert_eq!(
        sale.set_open_time(Origin::Signed(DEFAULT_ADMIN_ID), DEFAULT_POOL_ID, NEW_OPEN_TIME),
        Ok(())
    );
    assert_eq!(sale.pools(DEFAULT_POOL_ID).unwrap().open_time, NEW_OPEN_TIME);
}

#[test]
fn set_close_time_work() {
    let mut sale = mock_test();
    const NEW_CLOSE_TIME: u64 = 64;
    // test administrator permission
    assert_eq!(
        sale.set_close_time(Origin::Signed(4), DEFAULT_POOL_ID, NEW_CLOSE_TIME),
        Err(Error::InvalidPermission)
    );
    assert_eq!(sale.pools(DEFAULT_POOL_ID).unwrap().close_time, 1001);
    assert_eq!(
        sale.set_close_time(Origin::Signed(DEFAULT_ADMIN_ID), DEFAULT_POOL_ID, NEW_CLOSE_TIME),
        Ok(())
    );
    assert_eq!(sale.pools(DEFAULT_POOL_ID).unwrap().close_time, NEW_CLOSE_TIME);
}

#[test]
fn grant_administrators_work() {
    let mut sale = mock_test();
    const NEW_CLOSE_TIME: u64 = 64;
    const NEW_ADMIN_ID: u64 = 10;
    // test administrator permission
    assert_eq!(
        sale.set_close_time(Origin::Signed(NEW_ADMIN_ID), DEFAULT_POOL_ID, NEW_CLOSE_TIME),
        Err(Error::InvalidPermission)
    );
    assert_eq!(sale.grant_administrators(Origin::Signed(DEFAULT_ADMIN_ID), vec![NEW_ADMIN_ID]), Ok(()));
    assert_eq!(
        sale.set_close_time(Origin::Signed(NEW_ADMIN_ID), DEFAULT_POOL_ID, NEW_CLOSE_TIME),
        Ok(())
    );
    assert_eq!(sale.pools(DEFAULT_POOL_ID).unwrap().close_time, NEW_CLOSE_TIME);
}

#[test]
fn set_bonus_work() {
    let mut sale = mock_test();
    const ACCOUNT_ID: u64 = 5;
    const BONUS: u128 = 100;

    assert_eq!(Option::is_none(&sale.redkite_points(ACCOUNT_ID)), true);
    assert_eq!(sale.set_bonus(Origin::Signed(DEFAULT_ADMIN_ID), vec![(ACCOUNT_ID, BONUS)]), Ok(()));
    assert_eq!(sale.redkite_points(ACCOUNT_ID).unwrap().bonus, BONUS);
    assert_eq!(sale.redkite_points(ACCOUNT_ID).unwrap().point(), BONUS);
}

#[test]
fn stake_and_tier_work() {
    let mut sale = mock_test();
    const DOVE_ID: u64 = 6;
    const HAWK_ID: u64 = 7;
    const EAGLE_ID: u64 = 8;
    const PHOENIX_ID: u64 = 9;
    const STAKE_BALANCE: u128 = 100;

    // tier with bonus
    assert_eq!(Option::is_none(&sale.redkite_points(DOVE_ID)), true);
    assert_eq!(
        sale.set_bonus(Origin::Signed(DEFAULT_ADMIN_ID), vec![(DOVE_ID, DEFAULT_TIER_DOVE + 1)]),
        Ok(())
    );
    assert_eq!(sale.redkite_points(DOVE_ID).unwrap().tier(sale.settings()), Tier::Dove);

    assert_eq!(Option::is_none(&sale.redkite_points(HAWK_ID)), true);
    assert_eq!(
        sale.set_bonus(Origin::Signed(DEFAULT_ADMIN_ID), vec![(HAWK_ID, DEFAULT_TIER_HAWK + 1)]),
        Ok(())
    );
    assert_eq!(sale.redkite_points(HAWK_ID).unwrap().tier(sale.settings()), Tier::Hawk);

    assert_eq!(Option::is_none(&sale.redkite_points(EAGLE_ID)), true);
    assert_eq!(
        sale.set_bonus(Origin::Signed(DEFAULT_ADMIN_ID), vec![(EAGLE_ID, DEFAULT_TIER_EAGLE - 1)]),
        Ok(())
    );
    assert_eq!(sale.redkite_points(EAGLE_ID).unwrap().tier(sale.settings()), Tier::Hawk);

    assert_eq!(Option::is_none(&sale.redkite_points(PHOENIX_ID)), true);
    assert_eq!(
        sale.set_bonus(
            Origin::Signed(DEFAULT_ADMIN_ID),
            vec![(PHOENIX_ID, DEFAULT_TIER_PHOENIX - 1)]
        ),
        Ok(())
    );
    assert_eq!(sale.redkite_points(PHOENIX_ID).unwrap().tier(sale.settings()), Tier::Eagle);

    // mixed both of stake and bonus
    assert_eq!(sale.stake(Origin::Signed(EAGLE_ID), STAKE_BALANCE, 0), Ok(()));
    assert_eq!(sale.redkite_points(EAGLE_ID).unwrap().tier(sale.settings()), Tier::Eagle);

    assert_eq!(sale.stake(Origin::Signed(PHOENIX_ID), STAKE_BALANCE, 0), Ok(()));
    assert_eq!(sale.redkite_points(PHOENIX_ID).unwrap().tier(sale.settings()), Tier::Phoenix);
}

#[test]
fn set_pool_winners_work() {
    let mut sale = mock_test();
    assert_eq!(sale.pools(1).unwrap().funding_wallet, DEFAULT_FUNDING_WALLET);
    assert_eq!(sale.set_pool_winners(Origin::Signed(4), 1, vec![(7, 50)]), Err(Error::InvalidPermission));
    assert_eq!(sale.winners(1, 7), None);
    assert_eq!(
        sale.set_pool_winners(Origin::Signed(DEFAULT_ADMIN_ID), 1, vec![(7, 50), (8, 60), (7, 70)]),
        Ok(())
    );
    assert_eq!(sale.winners(1, 7), Some(UserWinnerInfo::default_with_max_purchased(70)));
    assert_eq!(sale.winners(1, 8).unwrap().max_purchased, 60);
    assert_eq!(sale.winners(2, 8), None);
}

#[test]
fn un_stake_checks_the_stake() {
    let mut sale = mock_test();
    assert_eq!(sale.un_stake(Origin::Signed(6), 10, 5), Err(Error::UserNotFound));
    assert_eq!(sale.stake(Origin::Signed(6), 100, 5), Ok(()));
    assert_eq!(sale.un_stake(Origin::Signed(6), 101, 6), Err(Error::InsufficientBalance));
    assert_eq!(sale.un_stake(Origin::Signed(6), 40, 7), Ok(()));
    let info = sale.redkite_points(6).unwrap();
    assert_eq!(info.total_staked, 60);
    assert_eq!(info.last_staked_at, 7);
    assert_eq!(sale.events().last(), Some(&Event::UserUnStaked(6, 40, 7)));
    assert_eq!(sale.stake(Origin::Unsigned, 1, 1), Err(Error::BadOrigin));
}

#[test]
fn tier_settings_need_four_points() {
    let mut sale = mock_test();
    assert_eq!(
        sale.update_tier_setting(Origin::Signed(DEFAULT_ADMIN_ID), vec![1, 2, 3]),
        Err(Error::InvalidTierSetting)
    );
    assert_eq!(sale.settings().tier_minimum_points.len(), 4);
    assert_eq!(sale.update_tier_setting(Origin::Signed(DEFAULT_ADMIN_ID), vec![1, 2, 3, 4]), Ok(()));
    assert_eq!(sale.set_bonus(Origin::Signed(DEFAULT_ADMIN_ID), vec![(5, 3)]), Ok(()));
    assert_eq!(sale.tier_of(5), Tier::Eagle);
    assert_eq!(sale.tier_of(6), Tier::Unranked);
}

#[test]
fn operators_grant_operators() {
    let mut sale = mock_test();
    assert_eq!(sale.grant_operators(Origin::Signed(DEFAULT_ADMIN_ID), vec![20]), Err(Error::InvalidPermission));
    assert_eq!(sale.grant_administrators(Origin::Signed(DEFAULT_ADMIN_ID), vec![]), Ok(()));
    assert!(!sale.is_operator(20));
    assert!(sale.is_admin(2));
}

#[test]
fn pool_price_and_missing_pools() {
    let mut sale = mock_test();
    assert_eq!(
        sale.set_offered_currency(Origin::Signed(DEFAULT_ADMIN_ID), 9, 2, 6, 5),
        Err(Error::PoolNotFound)
    );
    assert_eq!(sale.set_offered_currency(Origin::Signed(DEFAULT_ADMIN_ID), 1, 2, 6, 5), Ok(()));
    let pool = sale.pools(1).unwrap();
    assert_eq!((pool.offered_currency, pool.offered_currency_decimals, pool.offered_currency_rate), (2, 6, 5));
    assert_eq!(pool.token, DEFAULT_TOKEN);
    assert_eq!(sale.init_pool(Origin::Signed(DEFAULT_ADMIN_ID), 3, 1, u64::MAX, 5, 1, 1), Ok(()));
    assert_eq!(sale.pools(3).unwrap().close_time, u64::MAX);
}

#[test]
fn token_price_follows_rate_and_decimals() {
    assert_eq!(tokens_for(1_000_000, 5, 6), 5);
    assert_eq!(tokens_for(7, 3, 0), 21);
    assert_eq!(tokens_for(1_999_999, 1, 6), 1);
    // 10^10 saturates to u32::MAX: a billionth rounds to nothing
    assert_eq!(tokens_for(u128::MAX, 1, 10), 0);
    assert_eq!(tokens_for(u128::MAX, 2, 0), u128::MAX);
}

#[test]
fn buying_and_claiming_tokens() {
    let mut sale = mock_test();
    assert_eq!(
        sale.set_pool_winners(Origin::Signed(DEFAULT_ADMIN_ID), 1, vec![(7, 10)]),
        Ok(())
    );
    assert_eq!(sale.buy_token(Origin::Signed(7), 1, 1_000_000, 500), Err(Error::RateNotFound));
    assert_eq!(sale.set_offered_currency(Origin::Signed(DEFAULT_ADMIN_ID), 1, 2, 6, 5), Ok(()));
    assert_eq!(sale.buy_token(Origin::Signed(8), 1, 1_000_000, 500), Err(Error::WinnerNotFound));
    assert_eq!(sale.buy_token(Origin::Signed(7), 2, 1_000_000, 500), Err(Error::PoolNotFound));
    assert_eq!(sale.buy_token(Origin::Signed(7), 1, 1_000_000, 2000), Err(Error::PoolClosed));
    assert_eq!(sale.buy_token(Origin::Signed(7), 1, 100, 500), Err(Error::PurchaseAmountBelowMinimum));
    let p = sale.buy_token(Origin::Signed(7), 1, 1_000_000, 500).unwrap();
    assert_eq!(
        p,
        Purchase { pool_id: 1, who: 7, currency: 2, funding_wallet: DEFAULT_FUNDING_WALLET, amount: 1_000_000, token_amount: 5 }
    );
    assert_eq!(sale.settle_purchase(p, false), Err(Error::BuyTokenFailed));
    assert_eq!(sale.winners(1, 7).unwrap().purchased, 0);
    assert_eq!(sale.settle_purchase(p, true), Ok(()));
    assert_eq!(sale.winners(1, 7).unwrap().purchased, 5);
    assert_eq!(sale.events().last(), Some(&Event::TokenPurchased(1, 7, 1_000_000)));
    assert_eq!(
        sale.buy_token(Origin::Signed(7), 1, 2_000_000, 500),
        Err(Error::PurchaseAmountAboveMaximum)
    );

    let c = sale.claim_token(Origin::Signed(7), 1, 3).unwrap();
    assert_eq!(c, Claim { pool_id: 1, who: 7, token: DEFAULT_TOKEN, amount: 3 });
    assert_eq!(sale.settle_claim(c, false), Err(Error::ClaimTokenFailed));
    assert_eq!(sale.settle_claim(c, true), Ok(()));
    assert_eq!(sale.winners(1, 7).unwrap().claimed, 3);
    assert_eq!(sale.claim_token(Origin::Signed(7), 1, 3), Err(Error::ClaimAmountAboveMaximum));
    assert_eq!(sale.claim_token(Origin::Unsigned, 1, 1), Err(Error::BadOrigin));
}
