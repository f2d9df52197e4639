//! Token-sale pools: administrators open pools and name their winners, and
//! accounts earn a tier from the points they stake or are granted.
use vstd::prelude::*;
use crate::combine::Moment;
use crate::pallet::Origin;
use crate::table::Table;

verus! {

pub type AccountId = u64;

pub type Balance = u128;

pub type CurrencyId = u32;

/// A sale pool.
#[derive(Clone, Copy, Debug, PartialEq, Eq, Structural)]
pub struct PoolInfo {
    pub token: CurrencyId,
    pub open_time: Moment,
    pub close_time: Moment,
    pub offered_currency: CurrencyId,
    pub funding_wallet: AccountId,
    /// for calculate price
    pub offered_currency_decimals: u32,
    /// for calculate price
    pub offered_currency_rate: u32,
}

/// What a winner of a pool may buy, and has bought and claimed.
#[derive(Clone, Copy, Debug, PartialEq, Eq, Structural)]
pub struct UserWinnerInfo {
    pub max_purchased: Balance,
    pub min_purchased: Balance,
    pub purchased: Balance,
    pub claimed: Balance,
}

impl UserWinnerInfo {
    /// A winner allowed to buy up to `amount`, who has bought nothing yet.
    pub fn default_with_max_purchased(amount: Balance) -> (r: Self)
        ensures
            r == (UserWinnerInfo { max_purchased: amount, min_purchased: 0, purchased: 0, claimed: 0 }),
    {
        UserWinnerInfo { min_purchased: 0, max_purchased: amount, purchased: 0, claimed: 0 }
    }
}

/// Redkite Tier System
#[derive(Clone, Copy, Debug, PartialEq, Eq, Structural)]
pub enum Tier {
    /// Phoenix
    Phoenix,
    /// Eagle
    Eagle,
    /// Hawk
    Hawk,
    /// Dove
    Dove,
    /// No tier reached
    Unranked,
}

/// Permission System
#[derive(Clone, Copy, Debug, PartialEq, Eq, Structural)]
pub enum Permission {
    /// Administrator
    Administrator,
    /// Operation
    Operator,
}

/// The points each tier needs, from the lowest tier to the highest.
pub struct SettingStruct {
    pub tier_minimum_points: Vec<(Tier, Balance)>,
}

impl Default for SettingStruct {
    fn default() -> (r: Self)
        ensures
            r.tier_minimum_points@ == Seq::<(Tier, Balance)>::empty(),
    {
        SettingStruct { tier_minimum_points: Vec::new() }
    }
}

/// The tiers set from four minimum points: Dove, Hawk, Eagle, Phoenix.
pub open spec fn tiers_from(p: Seq<Balance>) -> Seq<(Tier, Balance)> {
    seq![(Tier::Dove, p[0]), (Tier::Hawk, p[1]), (Tier::Eagle, p[2]), (Tier::Phoenix, p[3])]
}

/// The last tier of `s`, in order, whose minimum `point` reaches; `Unranked`
/// when it reaches none.
pub open spec fn tier_of(s: Seq<(Tier, Balance)>, point: Balance) -> Tier
    decreases s.len(),
{
    if s.len() == 0 {
        Tier::Unranked
    } else if point >= s.last().1 {
        s.last().0
    } else {
        tier_of(s.drop_last(), point)
    }
}

impl SettingStruct {
    /// Sets the tiers from four minimum points; any other number of points
    /// changes nothing.
    pub fn update_tier_system(&mut self, new_tier_points: Vec<Balance>)
        ensures
            new_tier_points@.len() == 4 ==> final(self).tier_minimum_points@ == tiers_from(
                new_tier_points@,
            ),
            new_tier_points@.len() != 4 ==> final(self).tier_minimum_points@ == old(self).tier_minimum_points@,
    {
        if new_tier_points.len() != 4 {
            return;
        }
        let mut tiers: Vec<(Tier, Balance)> = Vec::new();
        tiers.push((Tier::Dove, new_tier_points[0]));
        tiers.push((Tier::Hawk, new_tier_points[1]));
        tiers.push((Tier::Eagle, new_tier_points[2]));
        tiers.push((Tier::Phoenix, new_tier_points[3]));
        proof {
            assert(tiers@ =~= tiers_from(new_tier_points@));
        }
        self.tier_minimum_points = tiers;
    }
}

/// `a + b`, or the largest balance when that overflows.
pub open spec fn saturating_add(a: Balance, b: Balance) -> Balance {
    if a + b > Balance::MAX {
        Balance::MAX
    } else {
        (a + b) as Balance
    }
}

/// What an account has staked and been granted.
#[derive(Clone, Copy, Debug, PartialEq, Eq, Structural)]
pub struct UserInfo {
    pub total_staked: Balance,
    pub bonus: Balance,
    pub last_staked_at: Moment,
}

impl Default for UserInfo {
    fn default() -> (r: Self)
        ensures
            r == (UserInfo { total_staked: 0, bonus: 0, last_staked_at: 0 }),
    {
        UserInfo { total_staked: 0, bonus: 0, last_staked_at: 0 }
    }
}

impl UserInfo {
    /// Adds `amount` to the stake, at `now`.
    pub fn stake(&mut self, amount: Balance, now: Moment)
        ensures
            *final(self) == (UserInfo {
                total_staked: saturating_add(old(self).total_staked, amount),
                last_staked_at: now,
                ..*old(self)
            }),
    {
        self.total_staked = self.total_staked.saturating_add(amount);
        self.last_staked_at = now;
    }

    /// Takes `amount` off the stake, at `now`; changes nothing when less is staked.
    pub fn un_stake(&mut self, amount: Balance, now: Moment)
        ensures
            old(self).total_staked >= amount ==> *final(self) == (UserInfo {
                total_staked: (old(self).total_staked - amount) as Balance,
                last_staked_at: now,
                ..*old(self)
            }),
            old(self).total_staked < amount ==> *final(self) == *old(self),
    {
        if self.total_staked >= amount {
            self.total_staked = self.total_staked - amount;
            self.last_staked_at = now;
        }
    }

    pub fn set_bonus(&mut self, amount: Balance)
        ensures
            *final(self) == (UserInfo { bonus: amount, ..*old(self) }),
    {
        self.bonus = amount;
    }

    /// The points: stake plus bonus, saturating.
    pub fn point(self) -> (r: Balance)
        ensures
            r == saturating_add(self.total_staked, self.bonus),
    {
        self.total_staked.saturating_add(self.bonus)
    }

    /// The tier that the points reach under `setting`.
    pub fn tier(self, setting: &SettingStruct) -> (r: Tier)
        ensures
            r == tier_of(setting.tier_minimum_points@, saturating_add(self.total_staked, self.bonus)),
    {
        let point = self.point();
        let mut result = Tier::Unranked;
        let mut i: usize = 0;
        let s = &setting.tier_minimum_points;
        while i < s.len()
            invariant
                i <= s@.len(),
                result == tier_of(s@.take(i as int), point),
            decreases s@.len() - i,
        {
            let (tier, amount) = s[i];
            proof {
                let t = s@.take(i + 1);
                assert(t.drop_last() =~= s@.take(i as int));
                assert(t.last() == (tier, amount));
            }
            if point >= amount {
                result = tier;
            }
            i = i + 1;
        }
        proof {
            assert(s@.take(i as int) =~= s@);
        }
        result
    }
}

/// Why a call failed.
#[derive(Clone, Copy, Debug, PartialEq, Eq, Structural)]
pub enum Error {
    /// The call needs a signed origin.
    BadOrigin,
    /// Pool not found
    PoolNotFound,
    /// Pool closed
    PoolClosed,
    /// Winner not found
    WinnerNotFound,
    /// Exchange rate between Native token and token is not found
    RateNotFound,
    /// The amount of purchase below the minimum
    PurchaseAmountBelowMinimum,
    /// The amount of purchase above the maximum
    PurchaseAmountAboveMaximum,
    /// The amount of claim above the maximum
    ClaimAmountAboveMaximum,
    /// Token is staked failed
    StakeTokenFailed,
    /// Token is unstaked failed
    UnstakeTokenFailed,
    /// Token is bought failed
    BuyTokenFailed,
    /// Token is claimed failed
    ClaimTokenFailed,
    /// User not found
    UserNotFound,
    /// Insufficient Balance
    InsufficientBalance,
    /// Invalid permisison
    InvalidPermission,
    /// Invalid tier system
    InvalidTierSetting,
}

/// What the sale reports to observers.
#[derive(Clone, Copy, Debug, PartialEq, Eq, Structural)]
pub enum Event {
    /// A pool was opened or changed: [pool id, pool]
    PoolChanged(u32, PoolInfo),
    /// [pool id, buyer, amount paid]
    TokenPurchased(u32, AccountId, Balance),
    /// [pool id, winner, token, amount claimed]
    TokenClaimed(u32, AccountId, CurrencyId, Balance),
    UserStaked(AccountId, Balance, Moment),
    UserUnStaked(AccountId, Balance, Moment),
    GrantAdministrator(AccountId),
    GrantOperator(AccountId),
}

/// `a * b`, or the largest balance when that overflows.
pub open spec fn saturating_mul(a: Balance, b: Balance) -> Balance {
    if a * b > Balance::MAX {
        Balance::MAX
    } else {
        (a * b) as Balance
    }
}

pub open spec fn pow10(n: nat) -> nat
    decreases n,
{
    if n == 0 {
        1
    } else {
        pow10((n - 1) as nat) * 10
    }
}

/// `10^d`, or the largest `u32` when that overflows.
pub open spec fn pow10_capped(d: u32) -> nat {
    if pow10(d as nat) > u32::MAX {
        u32::MAX as nat
    } else {
        pow10(d as nat)
    }
}

/// How many billionths `1 / 10^decimals` is, rounded down.
pub open spec fn price_parts(decimals: u32) -> nat {
    1_000_000_000nat / pow10_capped(decimals)
}

/// The tokens bought with `amount` at `rate / 10^decimals` tokens per unit:
/// `amount * rate`, saturating, times `1 / 10^decimals` rounded down to
/// billionths, rounded down.
pub open spec fn token_amount(amount: Balance, rate: u32, decimals: u32) -> nat {
    (saturating_mul(amount, rate as Balance) as nat * price_parts(decimals)) / 1_000_000_000nat
}

/// Relies on sp_arithmetic's `Perbill::from_rational`: `p / q` in billionths,
/// rounded down.
#[verifier::external_body]
fn perbill_from_rational(p: u32, q: u32) -> (r: u32)
    requires
        0 < q,
        p <= q,
    ensures
        r == (p as nat * 1_000_000_000nat) / q as nat,
{
    sp_arithmetic::Perbill::from_rational(p, q).deconstruct()
}

/// Relies on sp_arithmetic's `Perbill::mul_floor`: `parts` billionths of `x`,
/// rounded down.
#[verifier::external_body]
fn perbill_mul_floor(parts: u32, x: Balance) -> (r: Balance)
    requires
        parts <= 1_000_000_000,
    ensures
        r == (x as nat * parts as nat) / 1_000_000_000nat,
{
    sp_arithmetic::Perbill::from_parts(parts).mul_floor(x)
}

fn saturating_pow10(d: u32) -> (r: u32)
    ensures
        r == pow10_capped(d),
{
    let mut r: u32 = 1;
    let mut i: u32 = 0;
    while i < d && r < u32::MAX
        invariant
            i <= d,
            r == (if pow10(i as nat) > u32::MAX {
                u32::MAX as nat
            } else {
                pow10(i as nat)
            }),
        decreases d - i,
    {
        proof {
            assert(pow10((i + 1) as nat) == pow10(i as nat) * 10);
        }
        if r > u32::MAX / 10 {
            r = u32::MAX;
        } else {
            r = r * 10;
        }
        i = i + 1;
    }
    proof {
        if i < d {
            lemma_pow10_grows(i as nat, d as nat);
        }
    }
    r
}

proof fn lemma_pow10_grows(a: nat, b: nat)
    requires
        a <= b,
    ensures
        pow10(a) <= pow10(b),
    decreases b,
{
    if a < b {
        lemma_pow10_grows(a, (b - 1) as nat);
    }
}

fn saturating_mul_balance(a: Balance, b: Balance) -> (r: Balance)
    ensures
        r == saturating_mul(a, b),
{
    if b == 0 || a <= Balance::MAX / b {
        proof {
            if b != 0 {
                assert(a * b <= Balance::MAX) by (nonlinear_arith)
                    requires
                        a <= Balance::MAX / b,
                        b > 0,
                ;
            }
        }
        a * b
    } else {
        proof {
            assert(a * b > Balance::MAX) by (nonlinear_arith)
                requires
                    a > Balance::MAX / b,
                    b > 0,
            ;
        }
        Balance::MAX
    }
}

/// The tokens bought with `amount` at `rate / 10^decimals` tokens per unit.
pub fn tokens_for(amount: Balance, rate: u32, decimals: u32) -> (r: Balance)
    ensures
        r == token_amount(amount, rate, decimals),
{
    let q = saturating_pow10(decimals);
    proof {
        assert(pow10(0) == 1);
        lemma_pow10_grows(0, decimals as nat);
    }
    let parts = perbill_from_rational(1, q);
    let x = saturating_mul_balance(amount, rate as Balance);
    perbill_mul_floor(parts, x)
}

/// A purchase that passed every check: `who` pays `amount` of `currency` to
/// `funding_wallet` for `token_amount` tokens of pool `pool_id`.
#[derive(Clone, Copy, Debug, PartialEq, Eq, Structural)]
pub struct Purchase {
    pub pool_id: u32,
    pub who: AccountId,
    pub currency: CurrencyId,
    pub funding_wallet: AccountId,
    pub amount: Balance,
    pub token_amount: Balance,
}

/// A claim that passed every check: the sale pays `amount` of `token` to `who`.
#[derive(Clone, Copy, Debug, PartialEq, Eq, Structural)]
pub struct Claim {
    pub pool_id: u32,
    pub who: AccountId,
    pub token: CurrencyId,
    pub amount: Balance,
}

/// The sale's state as mathematical values.
pub struct RedkiteView {
    pub pools: Map<u32, PoolInfo>,
    pub winners: Map<u32, Map<AccountId, UserWinnerInfo>>,
    pub points: Map<AccountId, UserInfo>,
    pub permissions: Map<AccountId, Permission>,
    pub tiers: Seq<(Tier, Balance)>,
    pub events: Seq<Event>,
}

impl RedkiteView {
    pub open spec fn is_admin(self, a: AccountId) -> bool {
        self.permissions.contains_key(a) && self.permissions[a] == Permission::Administrator
    }

    pub open spec fn is_operator(self, a: AccountId) -> bool {
        self.permissions.contains_key(a) && self.permissions[a] == Permission::Operator
    }

    /// The error of a call that an administrator must make, if any.
    pub open spec fn admin_check(self, origin: Origin) -> Option<Error> {
        match origin {
            Origin::Signed(who) => if self.is_admin(who) {
                None
            } else {
                Some(Error::InvalidPermission)
            },
            _ => Some(Error::BadOrigin),
        }
    }

    /// The state with pool `pool_id` set to `pool`, and an event telling of it.
    pub open spec fn with_pool(self, pool_id: u32, pool: PoolInfo) -> RedkiteView {
        RedkiteView {
            pools: self.pools.insert(pool_id, pool),
            events: self.events.push(Event::PoolChanged(pool_id, pool)),
            ..self
        }
    }

    /// What buying for `amount` in pool `pool_id` at `now` on behalf of
    /// `origin` yields: the purchase to settle, or why it is refused.
    pub open spec fn purchase_outcome(
        self,
        origin: Origin,
        pool_id: u32,
        amount: Balance,
        now: Moment,
    ) -> Result<Purchase, Error> {
        match origin {
            Origin::Signed(who) => if !self.pools.contains_key(pool_id) {
                Err(Error::PoolNotFound)
            } else if !self.winner_row(pool_id).contains_key(who) {
                Err(Error::WinnerNotFound)
            } else {
                let pool = self.pools[pool_id];
                let winner = self.winner_row(pool_id)[who];
                let tokens = token_amount(
                    amount,
                    pool.offered_currency_rate,
                    pool.offered_currency_decimals,
                );
                if pool.offered_currency_rate == 0 {
                    Err(Error::RateNotFound)
                } else if !(pool.open_time <= now && pool.close_time >= now) {
                    Err(Error::PoolClosed)
                } else if !(winner.min_purchased < tokens) {
                    Err(Error::PurchaseAmountBelowMinimum)
                } else if saturating_add(winner.purchased, tokens as Balance) > winner.max_purchased {
                    Err(Error::PurchaseAmountAboveMaximum)
                } else {
                    Ok(
                        Purchase {
                            pool_id,
                            who,
                            currency: pool.offered_currency,
                            funding_wallet: pool.funding_wallet,
                            amount,
                            token_amount: tokens as Balance,
                        },
                    )
                }
            },
            _ => Err(Error::BadOrigin),
        }
    }

    /// What claiming `amount` from pool `pool_id` on behalf of `origin`
    /// yields: the claim to settle, or why it is refused.
    pub open spec fn claim_outcome(self, origin: Origin, pool_id: u32, amount: Balance) -> Result<
        Claim,
        Error,
    > {
        match origin {
            Origin::Signed(who) => if !self.pools.contains_key(pool_id) {
                Err(Error::PoolNotFound)
            } else if !self.winner_row(pool_id).contains_key(who) {
                Err(Error::WinnerNotFound)
            } else if saturating_add(self.winner_row(pool_id)[who].claimed, amount)
                > self.winner_row(pool_id)[who].purchased {
                Err(Error::ClaimAmountAboveMaximum)
            } else {
                Ok(Claim { pool_id, who, token: self.pools[pool_id].token, amount })
            },
            _ => Err(Error::BadOrigin),
        }
    }

    /// The state with the winner `who` of pool `pool_id` set to `w`.
    pub open spec fn with_winner(self, pool_id: u32, who: AccountId, w: UserWinnerInfo) -> RedkiteView {
        RedkiteView {
            winners: self.winners.insert(pool_id, self.winner_row(pool_id).insert(who, w)),
            ..self
        }
    }

    pub open spec fn winner_row(self, pool_id: u32) -> Map<AccountId, UserWinnerInfo> {
        if self.winners.contains_key(pool_id) {
            self.winners[pool_id]
        } else {
            Map::empty()
        }
    }

    pub open spec fn points_of(self, a: AccountId) -> UserInfo {
        if self.points.contains_key(a) {
            self.points[a]
        } else {
            UserInfo { total_staked: 0, bonus: 0, last_staked_at: 0 }
        }
    }
}

/// A pool's winners after naming `winners`, in order: a later entry for an
/// account overrides an earlier one.
pub open spec fn named_winners(
    row: Map<AccountId, UserWinnerInfo>,
    winners: Seq<(AccountId, Balance)>,
) -> Map<AccountId, UserWinnerInfo>
    decreases winners.len(),
{
    if winners.len() == 0 {
        row
    } else {
        named_winners(row, winners.drop_last()).insert(
            winners.last().0,
            UserWinnerInfo { max_purchased: winners.last().1, min_purchased: 0, purchased: 0, claimed: 0 },
        )
    }
}

/// The permissions after granting `p` to each of `accounts`.
pub open spec fn granted(
    perms: Map<AccountId, Permission>,
    accounts: Seq<AccountId>,
    p: Permission,
) -> Map<AccountId, Permission>
    decreases accounts.len(),
{
    if accounts.len() == 0 {
        perms
    } else {
        granted(perms, accounts.drop_last(), p).insert(accounts.last(), p)
    }
}

/// The events that granting `p` to each of `accounts` adds.
pub open spec fn grant_events(accounts: Seq<AccountId>, p: Permission) -> Seq<Event>
    decreases accounts.len(),
{
    if accounts.len() == 0 {
        Seq::empty()
    } else {
        grant_events(accounts.drop_last(), p).push(
            if p == Permission::Administrator {
                Event::GrantAdministrator(accounts.last())
            } else {
                Event::GrantOperator(accounts.last())
            },
        )
    }
}

/// The points after setting the bonus of each account in `bonuses`.
pub open spec fn bonuses_set(
    points: Map<AccountId, UserInfo>,
    bonuses: Seq<(AccountId, Balance)>,
) -> Map<AccountId, UserInfo>
    decreases bonuses.len(),
{
    if bonuses.len() == 0 {
        points
    } else {
        let before = bonuses_set(points, bonuses.drop_last());
        let a = bonuses.last().0;
        let info = if before.contains_key(a) {
            before[a]
        } else {
            UserInfo { total_staked: 0, bonus: 0, last_staked_at: 0 }
        };
        before.insert(a, UserInfo { bonus: bonuses.last().1, ..info })
    }
}

fn name_winners(row: &mut Table<AccountId, UserWinnerInfo>, winners: &Vec<(AccountId, Balance)>)
    requires
        old(row).wf(),
    ensures
        final(row).wf(),
        final(row)@ == named_winners(old(row)@, winners@),
{
    let ghost r0 = row@;
    let mut i: usize = 0;
    while i < winners.len()
        invariant
            i <= winners@.len(),
            row.wf(),
            row@ == named_winners(r0, winners@.take(i as int)),
        decreases winners@.len() - i,
    {
        let (who, amount) = winners[i];
        proof {
            let t = winners@.take(i + 1);
            assert(t.drop_last() =~= winners@.take(i as int));
            assert(t.last() == (who, amount));
        }
        row.insert(who, UserWinnerInfo::default_with_max_purchased(amount));
        i = i + 1;
    }
    proof {
        assert(winners@.take(i as int) =~= winners@);
    }
}

fn grant_all(
    perms: &mut Table<AccountId, Permission>,
    events: &mut Vec<Event>,
    accounts: &Vec<AccountId>,
    p: Permission,
)
    requires
        old(perms).wf(),
    ensures
        final(perms).wf(),
        final(perms)@ == granted(old(perms)@, accounts@, p),
        final(events)@ == old(events)@ + grant_events(accounts@, p),
{
    let ghost p0 = perms@;
    let ghost e0 = events@;
    let mut i: usize = 0;
    proof {
        assert(e0 + grant_events(accounts@.take(0), p) =~= e0);
    }
    while i < accounts.len()
        invariant
            i <= accounts@.len(),
            perms.wf(),
            perms@ == granted(p0, accounts@.take(i as int), p),
            events@ == e0 + grant_events(accounts@.take(i as int), p),
        decreases accounts@.len() - i,
    {
        let a = accounts[i];
        proof {
            let t = accounts@.take(i + 1);
            assert(t.drop_last() =~= accounts@.take(i as int));
            assert(t.last() == a);
        }
        perms.insert(a, p);
        match p {
            Permission::Administrator => events.push(Event::GrantAdministrator(a)),
            Permission::Operator => events.push(Event::GrantOperator(a)),
        }
        proof {
            assert(events@ =~= e0 + grant_events(accounts@.take(i + 1), p));
        }
        i = i + 1;
    }
    proof {
        assert(accounts@.take(i as int) =~= accounts@);
    }
}

fn set_all_bonuses(points: &mut Table<AccountId, UserInfo>, bonuses: &Vec<(AccountId, Balance)>)
    requires
        old(points).wf(),
    ensures
        final(points).wf(),
        final(points)@ == bonuses_set(old(points)@, bonuses@),
{
    let ghost p0 = points@;
    let mut i: usize = 0;
    while i < bonuses.len()
        invariant
            i <= bonuses@.len(),
            points.wf(),
            points@ == bonuses_set(p0, bonuses@.take(i as int)),
        decreases bonuses@.len() - i,
    {
        let (a, amount) = bonuses[i];
        proof {
            let t = bonuses@.take(i + 1);
            assert(t.drop_last() =~= bonuses@.take(i as int));
            assert(t.last() == (a, amount));
        }
        let mut info = match points.get(&a) {
            Some(info) => *info,
            None => UserInfo::default(),
        };
        info.set_bonus(amount);
        points.insert(a, info);
        i = i + 1;
    }
    proof {
        assert(bonuses@.take(i as int) =~= bonuses@);
    }
}

/// The sale.
pub struct Pallet {
    pools: Table<u32, PoolInfo>,
    winners: Table<u32, Table<AccountId, UserWinnerInfo>>,
    points: Table<AccountId, UserInfo>,
    permissions: Table<AccountId, Permission>,
    settings: SettingStruct,
    events: Vec<Event>,
}

impl View for Pallet {
    type V = RedkiteView;

    closed spec fn view(&self) -> RedkiteView {
        RedkiteView {
            pools: self.pools@,
            winners: Map::new(
                |p: u32| self.winners@.contains_key(p),
                |p: u32| self.winners@[p]@,
            ),
            points: self.points@,
            permissions: self.permissions@,
            tiers: self.settings.tier_minimum_points@,
            events: self.events@,
        }
    }
}

impl Pallet {
    pub closed spec fn wf(&self) -> bool {
        &&& self.pools.wf()
        &&& self.winners.wf()
        &&& self.points.wf()
        &&& self.permissions.wf()
        &&& forall|p: u32| #[trigger] self.winners@.contains_key(p) ==> self.winners@[p].wf()
    }

    fn check_admin(&self, origin: Origin) -> (r: Option<Error>)
        requires
            self.wf(),
        ensures
            r == self@.admin_check(origin),
    {
        match origin {
            Origin::Signed(who) => if self.is_admin(who) {
                None
            } else {
                Some(Error::InvalidPermission)
            },
            _ => Some(Error::BadOrigin),
        }
    }

    pub fn is_admin(&self, account: AccountId) -> (r: bool)
        requires
            self.wf(),
        ensures
            r == self@.is_admin(account),
    {
        match self.permissions.get(&account) {
            Some(item) => *item == Permission::Administrator,
            None => false,
        }
    }

    pub fn is_operator(&self, account: AccountId) -> (r: bool)
        requires
            self.wf(),
        ensures
            r == self@.is_operator(account),
    {
        match self.permissions.get(&account) {
            Some(item) => *item == Permission::Operator,
            None => false,
        }
    }

    /// Opens pool `pool_id`, replacing any pool of that id. Its close time is
    /// `open_time + duration`, saturating.
    pub fn init_pool(
        &mut self,
        origin: Origin,
        pool_id: u32,
        token: CurrencyId,
        duration: Moment,
        open_time: Moment,
        offered_currency: CurrencyId,
        funding_wallet: AccountId,
    ) -> (r: Result<(), Error>)
        requires
            old(self).wf(),
        ensures
            final(self).wf(),
            old(self)@.admin_check(origin) matches Some(e) ==> r == Err::<(), Error>(e) && final(self)@ == old(self)@,
            old(self)@.admin_check(origin) is None ==> r is Ok && {
                let pool = PoolInfo {
                    token,
                    open_time,
                    close_time: if open_time + duration > Moment::MAX {
                        Moment::MAX
                    } else {
                        (open_time + duration) as Moment
                    },
                    offered_currency,
                    funding_wallet,
                    offered_currency_decimals: 0,
                    offered_currency_rate: 0,
                };
                final(self)@ == (RedkiteView {
                    pools: old(self)@.pools.insert(pool_id, pool),
                    events: old(self)@.events.push(Event::PoolChanged(pool_id, pool)),
                    ..old(self)@
                })
            },
    {
        if let Some(e) = self.check_admin(origin) {
            return Err(e);
        }
        let close_time = open_time.saturating_add(duration);
        let pool = PoolInfo {
            token,
            open_time,
            close_time,
            offered_currency,
            funding_wallet,
            offered_currency_rate: 0,
            offered_currency_decimals: 0,
        };
        self.pools.insert(pool_id, pool);
        self.events.push(Event::PoolChanged(pool_id, pool));
        Ok(())
    }

    /// Names the winners of pool `pool_id`, each with the most it may buy.
    pub fn set_pool_winners(
        &mut self,
        origin: Origin,
        pool_id: u32,
        winners: Vec<(AccountId, Balance)>,
    ) -> (r: Result<(), Error>)
        requires
            old(self).wf(),
        ensures
            final(self).wf(),
            old(self)@.admin_check(origin) matches Some(e) ==> r == Err::<(), Error>(e) && final(self)@ == old(self)@,
            old(self)@.admin_check(origin) is None ==> r is Ok && final(self)@ == (RedkiteView {
                winners: old(self)@.winners.insert(
                    pool_id,
                    named_winners(old(self)@.winner_row(pool_id), winners@),
                ),
                ..old(self)@
            }),
    {
        if let Some(e) = self.check_admin(origin) {
            return Err(e);
        }
        let ghost prev = self@;
        let mut row = match self.winners.remove(&pool_id) {
            Some(row) => row,
            None => Table::new(),
        };
        name_winners(&mut row, &winners);
        self.winners.insert(pool_id, row);
        proof {
            assert(self@.winners =~= prev.winners.insert(
                pool_id,
                named_winners(prev.winner_row(pool_id), winners@),
            ));
        }
        Ok(())
    }

    /// Sets pool `pool_id` to `pool` when an administrator asks and the pool exists.
    fn change_pool(&mut self, origin: Origin, pool_id: u32, pool: PoolInfo) -> (r: Result<(), Error>)
        requires
            old(self).wf(),
        ensures
            final(self).wf(),
            r == match old(self)@.admin_check(origin) {
                Some(e) => Err(e),
                None => if old(self)@.pools.contains_key(pool_id) {
                    Ok(())
                } else {
                    Err(Error::PoolNotFound)
                },
            },
            r is Err ==> final(self)@ == old(self)@,
            r is Ok ==> final(self)@ == old(self)@.with_pool(pool_id, pool),
    {
        if let Some(e) = self.check_admin(origin) {
            return Err(e);
        }
        if !self.pools.contains_key(&pool_id) {
            return Err(Error::PoolNotFound);
        }
        self.pools.insert(pool_id, pool);
        self.events.push(Event::PoolChanged(pool_id, pool));
        Ok(())
    }

    /// The pool `pool_id`, if it exists.
    pub fn pools(&self, pool_id: u32) -> (r: Option<PoolInfo>)
        requires
            self.wf(),
        ensures
            r == (if self@.pools.contains_key(pool_id) {
                Some(self@.pools[pool_id])
            } else {
                None
            }),
    {
        match self.pools.get(&pool_id) {
            Some(p) => Some(*p),
            None => None,
        }
    }

    /// Moves the close time of pool `pool_id`.
    pub fn set_close_time(&mut self, origin: Origin, pool_id: u32, close_time: Moment) -> (r: Result<
        (),
        Error,
    >)
        requires
            old(self).wf(),
        ensures
            final(self).wf(),
            r == match old(self)@.admin_check(origin) {
                Some(e) => Err(e),
                None => if old(self)@.pools.contains_key(pool_id) {
                    Ok(())
                } else {
                    Err(Error::PoolNotFound)
                },
            },
            r is Err ==> final(self)@ == old(self)@,
            r is Ok ==> final(self)@ == old(self)@.with_pool(
                pool_id,
                PoolInfo { close_time, ..old(self)@.pools[pool_id] },
            ),
    {
        let pool = match self.pools(pool_id) {
            Some(p) => PoolInfo { close_time, ..p },
            None => PoolInfo {
                token: 0,
                open_time: 0,
                close_time,
                offered_currency: 0,
                funding_wallet: 0,
                offered_currency_decimals: 0,
                offered_currency_rate: 0,
            },
        };
        self.change_pool(origin, pool_id, pool)
    }

    /// Moves the open time of pool `pool_id`.
    pub fn set_open_time(&mut self, origin: Origin, pool_id: u32, open_time: Moment) -> (r: Result<
        (),
        Error,
    >)
        requires
            old(self).wf(),
        ensures
            final(self).wf(),
            r == match old(self)@.admin_check(origin) {
                Some(e) => Err(e),
                None => if old(self)@.pools.contains_key(pool_id) {
                    Ok(())
                } else {
                    Err(Error::PoolNotFound)
                },
            },
            r is Err ==> final(self)@ == old(self)@,
            r is Ok ==> final(self)@ == old(self)@.with_pool(
                pool_id,
                PoolInfo { open_time, ..old(self)@.pools[pool_id] },
            ),
    {
        let pool = match self.pools(pool_id) {
            Some(p) => PoolInfo { open_time, ..p },
            None => PoolInfo {
                token: 0,
                open_time,
                close_time: 0,
                offered_currency: 0,
                funding_wallet: 0,
                offered_currency_decimals: 0,
                offered_currency_rate: 0,
            },
        };
        self.change_pool(origin, pool_id, pool)
    }

    /// Sets the currency pool `pool_id` is paid in, and its price: one token
    /// costs `rate / 10^decimals` of that currency.
    pub fn set_offered_currency(
        &mut self,
        origin: Origin,
        pool_id: u32,
        currency: CurrencyId,
        offered_currency_decimals: u32,
        offered_currency_rate: u32,
    ) -> (r: Result<(), Error>)
        requires
            old(self).wf(),
        ensures
            final(self).wf(),
            r == match old(self)@.admin_check(origin) {
                Some(e) => Err(e),
                None => if old(self)@.pools.contains_key(pool_id) {
                    Ok(())
                } else {
                    Err(Error::PoolNotFound)
                },
            },
            r is Err ==> final(self)@ == old(self)@,
            r is Ok ==> final(self)@ == old(self)@.with_pool(
                pool_id,
                PoolInfo {
                    offered_currency: currency,
                    offered_currency_decimals,
                    offered_currency_rate,
                    ..old(self)@.pools[pool_id]
                },
            ),
    {
        let pool = match self.pools(pool_id) {
            Some(p) => PoolInfo {
                offered_currency: currency,
                offered_currency_decimals,
                offered_currency_rate,
                ..p
            },
            None => PoolInfo {
                token: 0,
                open_time: 0,
                close_time: 0,
                offered_currency: currency,
                funding_wallet: 0,
                offered_currency_decimals,
                offered_currency_rate,
            },
        };
        self.change_pool(origin, pool_id, pool)
    }

    /// What pool `pool_id` allows `who` to buy, if `who` won in it.
    pub fn winners(&self, pool_id: u32, who: AccountId) -> (r: Option<UserWinnerInfo>)
        requires
            self.wf(),
        ensures
            r == (if self@.winner_row(pool_id).contains_key(who) {
                Some(self@.winner_row(pool_id)[who])
            } else {
                None
            }),
    {
        match self.winners.get(&pool_id) {
            Some(row) => match row.get(&who) {
                Some(w) => Some(*w),
                None => None,
            },
            None => None,
        }
    }

    /// Checks a purchase by the caller of `amount` in pool `pool_id` at
    /// `now`. The host then moves the payment and reports back through
    /// `settle_purchase`.
    pub fn buy_token(&self, origin: Origin, pool_id: u32, amount: Balance, now: Moment) -> (r:
        Result<Purchase, Error>)
        requires
            self.wf(),
        ensures
            r == self@.purchase_outcome(origin, pool_id, amount, now),
    {
        let who = match origin {
            Origin::Signed(who) => who,
            _ => {
                return Err(Error::BadOrigin);
            },
        };
        let pool = match self.pools(pool_id) {
            Some(p) => p,
            None => {
                return Err(Error::PoolNotFound);
            },
        };
        let winner = match self.winners(pool_id, who) {
            Some(w) => w,
            None => {
                return Err(Error::WinnerNotFound);
            },
        };
        if pool.offered_currency_rate == 0 {
            return Err(Error::RateNotFound);
        }
        let tokens = tokens_for(amount, pool.offered_currency_rate, pool.offered_currency_decimals);
        if !(pool.open_time <= now && pool.close_time >= now) {
            return Err(Error::PoolClosed);
        }
        if !(winner.min_purchased < tokens) {
            return Err(Error::PurchaseAmountBelowMinimum);
        }
        if winner.purchased.saturating_add(tokens) > winner.max_purchased {
            return Err(Error::PurchaseAmountAboveMaximum);
        }
        Ok(
            Purchase {
                pool_id,
                who,
                currency: pool.offered_currency,
                funding_wallet: pool.funding_wallet,
                amount,
                token_amount: tokens,
            },
        )
    }

    /// Records a checked purchase once the host reports whether the payment
    /// went through.
    pub fn settle_purchase(&mut self, p: Purchase, paid: bool) -> (r: Result<(), Error>)
        requires
            old(self).wf(),
        ensures
            final(self).wf(),
            r == (if !paid {
                Err(Error::BuyTokenFailed)
            } else if !old(self)@.winner_row(p.pool_id).contains_key(p.who) {
                Err(Error::WinnerNotFound)
            } else {
                Ok(())
            }),
            r is Err ==> final(self)@ == old(self)@,
            r is Ok ==> final(self)@ == ({
                let w = old(self)@.winner_row(p.pool_id)[p.who];
                let post = old(self)@.with_winner(
                    p.pool_id,
                    p.who,
                    UserWinnerInfo { purchased: saturating_add(w.purchased, p.token_amount), ..w },
                );
                RedkiteView {
                    events: old(self)@.events.push(Event::TokenPurchased(p.pool_id, p.who, p.amount)),
                    ..post
                }
            }),
    {
        if !paid {
            return Err(Error::BuyTokenFailed);
        }
        let mut w = match self.winners(p.pool_id, p.who) {
            Some(w) => w,
            None => {
                return Err(Error::WinnerNotFound);
            },
        };
        w.purchased = w.purchased.saturating_add(p.token_amount);
        self.put_winner(p.pool_id, p.who, w);
        self.events.push(Event::TokenPurchased(p.pool_id, p.who, p.amount));
        Ok(())
    }

    /// Checks a claim by the caller of `amount` tokens of pool `pool_id`. The
    /// host then pays them out and reports back through `settle_claim`.
    pub fn claim_token(&self, origin: Origin, pool_id: u32, amount: Balance) -> (r: Result<
        Claim,
        Error,
    >)
        requires
            self.wf(),
        ensures
            r == self@.claim_outcome(origin, pool_id, amount),
    {
        let who = match origin {
            Origin::Signed(who) => who,
            _ => {
                return Err(Error::BadOrigin);
            },
        };
        let pool = match self.pools(pool_id) {
            Some(p) => p,
            None => {
                return Err(Error::PoolNotFound);
            },
        };
        let winner = match self.winners(pool_id, who) {
            Some(w) => w,
            None => {
                return Err(Error::WinnerNotFound);
            },
        };
        if winner.claimed.saturating_add(amount) > winner.purchased {
            return Err(Error::ClaimAmountAboveMaximum);
        }
        Ok(Claim { pool_id, who, token: pool.token, amount })
    }

    /// Records a checked claim once the host reports whether the tokens were paid out.
    pub fn settle_claim(&mut self, c: Claim, paid: bool) -> (r: Result<(), Error>)
        requires
            old(self).wf(),
        ensures
            final(self).wf(),
            r == (if !paid {
                Err(Error::ClaimTokenFailed)
            } else if !old(self)@.winner_row(c.pool_id).contains_key(c.who) {
                Err(Error::WinnerNotFound)
            } else {
                Ok(())
            }),
            r is Err ==> final(self)@ == old(self)@,
            r is Ok ==> final(self)@ == ({
                let w = old(self)@.winner_row(c.pool_id)[c.who];
                let post = old(self)@.with_winner(
                    c.pool_id,
                    c.who,
                    UserWinnerInfo { claimed: saturating_add(w.claimed, c.amount), ..w },
                );
                RedkiteView {
                    events: old(self)@.events.push(
                        Event::TokenClaimed(c.pool_id, c.who, c.token, c.amount),
                    ),
                    ..post
                }
            }),
    {
        if !paid {
            return Err(Error::ClaimTokenFailed);
        }
        let mut w = match self.winners(c.pool_id, c.who) {
            Some(w) => w,
            None => {
                return Err(Error::WinnerNotFound);
            },
        };
        w.claimed = w.claimed.saturating_add(c.amount);
        self.put_winner(c.pool_id, c.who, w);
        self.events.push(Event::TokenClaimed(c.pool_id, c.who, c.token, c.amount));
        Ok(())
    }

    fn put_winner(&mut self, pool_id: u32, who: AccountId, w: UserWinnerInfo)
        requires
            old(self).wf(),
        ensures
            final(self).wf(),
            final(self)@ == old(self)@.with_winner(pool_id, who, w),
    {
        let ghost prev = self@;
        let mut row = match self.winners.remove(&pool_id) {
            Some(row) => row,
            None => Table::new(),
        };
        row.insert(who, w);
        self.winners.insert(pool_id, row);
        proof {
            assert(self@.winners =~= prev.with_winner(pool_id, who, w).winners);
        }
    }

    /// The points record of `who`, if any.
    pub fn redkite_points(&self, who: AccountId) -> (r: Option<UserInfo>)
        requires
            self.wf(),
        ensures
            r == (if self@.points.contains_key(who) {
                Some(self@.points[who])
            } else {
                None
            }),
    {
        match self.points.get(&who) {
            Some(i) => Some(*i),
            None => None,
        }
    }

    /// The tier of `who`.
    pub fn tier_of(&self, who: AccountId) -> (r: Tier)
        requires
            self.wf(),
        ensures
            r == tier_of(
                self@.tiers,
                saturating_add(self@.points_of(who).total_staked, self@.points_of(who).bonus),
            ),
    {
        let info = match self.points.get(&who) {
            Some(i) => *i,
            None => UserInfo::default(),
        };
        info.tier(&self.settings)
    }

    /// The caller stakes `amount` at `now`; the host locks that much of its
    /// balance.
    pub fn stake(&mut self, origin: Origin, amount: Balance, now: Moment) -> (r: Result<(), Error>)
        requires
            old(self).wf(),
        ensures
            final(self).wf(),
            !(origin is Signed) ==> r == Err::<(), Error>(Error::BadOrigin) && final(self)@ == old(self)@,
            origin matches Origin::Signed(who) ==> r is Ok && final(self)@ == (RedkiteView {
                points: old(self)@.points.insert(
                    who,
                    UserInfo {
                        total_staked: saturating_add(old(self)@.points_of(who).total_staked, amount),
                        last_staked_at: now,
                        ..old(self)@.points_of(who)
                    },
                ),
                events: old(self)@.events.push(Event::UserStaked(who, amount, now)),
                ..old(self)@
            }),
    {
        let who = match origin {
            Origin::Signed(who) => who,
            _ => {
                return Err(Error::BadOrigin);
            },
        };
        let mut info = match self.points.get(&who) {
            Some(i) => *i,
            None => UserInfo::default(),
        };
        info.stake(amount, now);
        self.points.insert(who, info);
        self.events.push(Event::UserStaked(who, amount, now));
        Ok(())
    }

    /// The caller takes `amount` off its stake at `now`; the host releases the lock.
    pub fn un_stake(&mut self, origin: Origin, amount: Balance, now: Moment) -> (r: Result<
        (),
        Error,
    >)
        requires
            old(self).wf(),
        ensures
            final(self).wf(),
            r == match origin {
                Origin::Signed(who) => if !old(self)@.points.contains_key(who) {
                    Err(Error::UserNotFound)
                } else if old(self)@.points[who].total_staked < amount {
                    Err(Error::InsufficientBalance)
                } else {
                    Ok(())
                },
                _ => Err(Error::BadOrigin),
            },
            r is Err ==> final(self)@ == old(self)@,
            r is Ok ==> final(self)@ == (RedkiteView {
                points: old(self)@.points.insert(
                    origin->Signed_0,
                    UserInfo {
                        total_staked: (old(self)@.points[origin->Signed_0].total_staked
                            - amount) as Balance,
                        last_staked_at: now,
                        ..old(self)@.points[origin->Signed_0]
                    },
                ),
                events: old(self)@.events.push(Event::UserUnStaked(origin->Signed_0, amount, now)),
                ..old(self)@
            }),
    {
        let who = match origin {
            Origin::Signed(who) => who,
            _ => {
                return Err(Error::BadOrigin);
            },
        };
        let mut info = match self.points.get(&who) {
            Some(i) => *i,
            None => {
                return Err(Error::UserNotFound);
            },
        };
        if info.total_staked < amount {
            return Err(Error::InsufficientBalance);
        }
        info.un_stake(amount, now);
        self.points.insert(who, info);
        self.events.push(Event::UserUnStaked(who, amount, now));
        Ok(())
    }

    /// An administrator makes each of `accounts` an administrator.
    pub fn grant_administrators(&mut self, origin: Origin, accounts: Vec<AccountId>) -> (r: Result<
        (),
        Error,
    >)
        requires
            old(self).wf(),
        ensures
            final(self).wf(),
            old(self)@.admin_check(origin) matches Some(e) ==> r == Err::<(), Error>(e) && final(self)@ == old(self)@,
            old(self)@.admin_check(origin) is None ==> r is Ok && final(self)@ == (RedkiteView {
                permissions: granted(old(self)@.permissions, accounts@, Permission::Administrator),
                events: old(self)@.events + grant_events(accounts@, Permission::Administrator),
                ..old(self)@
            }),
    {
        if let Some(e) = self.check_admin(origin) {
            return Err(e);
        }
        grant_all(&mut self.permissions, &mut self.events, &accounts, Permission::Administrator);
        Ok(())
    }

    /// An operator makes each of `accounts` an operator.
    pub fn grant_operators(&mut self, origin: Origin, accounts: Vec<AccountId>) -> (r: Result<
        (),
        Error,
    >)
        requires
            old(self).wf(),
        ensures
            final(self).wf(),
            r == match origin {
                Origin::Signed(who) => if old(self)@.is_operator(who) {
                    Ok(())
                } else {
                    Err(Error::InvalidPermission)
                },
                _ => Err(Error::BadOrigin),
            },
            r is Err ==> final(self)@ == old(self)@,
            r is Ok ==> final(self)@ == (RedkiteView {
                permissions: granted(old(self)@.permissions, accounts@, Permission::Operator),
                events: old(self)@.events + grant_events(accounts@, Permission::Operator),
                ..old(self)@
            }),
    {
        let who = match origin {
            Origin::Signed(who) => who,
            _ => {
                return Err(Error::BadOrigin);
            },
        };
        if !self.is_operator(who) {
            return Err(Error::InvalidPermission);
        }
        grant_all(&mut self.permissions, &mut self.events, &accounts, Permission::Operator);
        Ok(())
    }

    /// An administrator sets the bonus points of accounts.
    pub fn set_bonus(&mut self, origin: Origin, accounts: Vec<(AccountId, Balance)>) -> (r: Result<
        (),
        Error,
    >)
        requires
            old(self).wf(),
        ensures
            final(self).wf(),
            old(self)@.admin_check(origin) matches Some(e) ==> r == Err::<(), Error>(e) && final(self)@ == old(self)@,
            old(self)@.admin_check(origin) is None ==> r is Ok && final(self)@ == (RedkiteView {
                points: bonuses_set(old(self)@.points, accounts@),
                ..old(self)@
            }),
    {
        if let Some(e) = self.check_admin(origin) {
            return Err(e);
        }
        set_all_bonuses(&mut self.points, &accounts);
        Ok(())
    }

    /// An administrator sets the four tier minimums: Dove, Hawk, Eagle, Phoenix.
    pub fn update_tier_setting(&mut self, origin: Origin, tier_minimum_points: Vec<Balance>) -> (r:
        Result<(), Error>)
        requires
            old(self).wf(),
        ensures
            final(self).wf(),
            r == match old(self)@.admin_check(origin) {
                Some(e) => Err(e),
                None => if tier_minimum_points@.len() == 4 {
                    Ok(())
                } else {
                    Err(Error::InvalidTierSetting)
                },
            },
            r is Err ==> final(self)@ == old(self)@,
            r is Ok ==> final(self)@ == (RedkiteView {
                tiers: tiers_from(tier_minimum_points@),
                ..old(self)@
            }),
    {
        if let Some(e) = self.check_admin(origin) {
            return Err(e);
        }
        if tier_minimum_points.len() != 4 {
            return Err(Error::InvalidTierSetting);
        }
        self.settings.update_tier_system(tier_minimum_points);
        Ok(())
    }

    /// The tier minimums, lowest tier first.
    pub fn settings(&self) -> (r: &SettingStruct)
        ensures
            r.tier_minimum_points@ == self@.tiers,
    {
        &self.settings
    }

    /// The events, oldest first.
    pub fn events(&self) -> (r: &Vec<Event>)
        ensures
            r@ == self@.events,
    {
        &self.events
    }
}

/// The initial administrators and tier minimums.
pub struct GenesisConfig {
    pub administrators: Vec<AccountId>,
    pub tiers: Vec<Balance>,
}

impl Default for GenesisConfig {
    fn default() -> (r: Self)
        ensures
            r.administrators@ == Seq::<AccountId>::empty(),
            r.tiers@ == Seq::<Balance>::empty(),
    {
        GenesisConfig { administrators: Vec::new(), tiers: Vec::new() }
    }
}

impl GenesisConfig {
    /// A sale whose administrators are those listed, with the tiers set from
    /// the four minimums when four are given, and nothing else.
    pub fn build(&self) -> (r: Pallet)
        ensures
            r.wf(),
            r@.permissions == granted(Map::empty(), self.administrators@, Permission::Administrator),
            r@.tiers == (if self.tiers@.len() == 4 {
                tiers_from(self.tiers@)
            } else {
                Seq::empty()
            }),
            r@.pools == Map::<u32, PoolInfo>::empty(),
            r@.winners == Map::<u32, Map<AccountId, UserWinnerInfo>>::empty(),
            r@.points == Map::<AccountId, UserInfo>::empty(),
    {
        let mut permissions: Table<AccountId, Permission> = Table::new();
        let mut unused: Vec<Event> = Vec::new();
        grant_all(&mut permissions, &mut unused, &self.administrators, Permission::Administrator);
        let mut settings = SettingStruct::default();
        let mut tiers: Vec<Balance> = Vec::new();
        let mut i: usize = 0;
        while i < self.tiers.len()
            invariant
                i <= self.tiers@.len(),
                tiers@ == self.tiers@.take(i as int),
            decreases self.tiers@.len() - i,
        {
            tiers.push(self.tiers[i]);
            i = i + 1;
            proof {
                assert(tiers@ =~= self.tiers@.take(i as int));
            }
        }
        proof {
            assert(self.tiers@.take(i as int) =~= self.tiers@);
        }
        settings.update_tier_system(tiers);
        let r = Pallet {
            pools: Table::new(),
            winners: Table::new(),
            points: Table::new(),
            permissions,
            settings,
            events: Vec::new(),
        };
        proof {
            assert(r@.winners =~= Map::<u32, Map<AccountId, UserWinnerInfo>>::empty());
        }
        r
    }
}

} // verus!
