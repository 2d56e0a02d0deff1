//! The contract's entry points. Each one is specified by a function from the
//! environment before the invocation (and its arguments) to the environment
//! after it and the result. A failed invocation leaves the environment as
//! it was: on chain the whole transaction is rolled back.
//!
//! The caller is taken to have checked the authorizations the entry points
//! demand (`require_auth` of the wallet that acts), and to carry out the
//! token movements and publish the events that a successful invocation
//! leaves in the environment.
use vstd::prelude::*;

use crate::env::{emitted, requested, with_storage, Env, EnvView, TokenCall};
use crate::errors::{Error, Failure};
use crate::events;
use crate::events::Event;
use crate::keyed::lookup;
use crate::storage;
use crate::storage::{
    config_saved, due_among, goal_saved, ids_in, profile_saved, stats_saved, subscription_indexed,
    subscription_saved, tip_saved, StorageView,
};
use crate::types::{
    Config, CreatorProfile, LeaderboardEntry, ProtocolStats, Subscription, Tip, TipGoal,
    MAX_FEE_BASIS_POINTS, SECONDS_PER_MONTH,
};

verus! {

/// The SoroTip contract.
pub struct TipContract;

// ---------------------------------------------------------------------
// Arithmetic
// ---------------------------------------------------------------------

/// Integer division rounding toward zero, as Rust's `/` does.
pub open spec fn trunc_div(x: int, d: int) -> int {
    if x >= 0 {
        x / d
    } else {
        -((-x) / d)
    }
}

/// The value fits in an `i128`.
pub open spec fn fits_i128(x: int) -> bool {
    i128::MIN <= x <= i128::MAX
}

/// The protocol fee on `amount` at `fee_basis_points` (hundredths of a percent).
pub open spec fn fee_for(amount: int, fee_basis_points: int) -> int {
    trunc_div(amount * fee_basis_points, 10000)
}

/// The protocol fee on `amount`: `amount * fee_basis_points / 10000`.
pub fn compute_fee(amount: i128, fee_basis_points: u32) -> (fee: i128)
    requires
        fits_i128(amount * fee_basis_points),
    ensures
        fee == fee_for(amount as int, fee_basis_points as int),
{
    amount * (fee_basis_points as i128) / 10_000
}

proof fn lemma_fee_bounds(amount: int, fee_basis_points: int)
    requires
        amount > 0,
        fee_basis_points >= 0,
    ensures
        0 <= fee_for(amount, fee_basis_points) <= amount * fee_basis_points,
        fee_basis_points <= 10000 ==> fee_for(amount, fee_basis_points) <= amount,
{
    assert(amount * fee_basis_points >= 0) by (nonlinear_arith)
        requires
            amount > 0,
            fee_basis_points >= 0,
    ;
    assert(fee_basis_points <= 10000 ==> amount * fee_basis_points <= amount * 10000)
        by (nonlinear_arith)
        requires
            amount > 0,
            fee_basis_points >= 0,
    ;
}

// ---------------------------------------------------------------------
// What an entry point leaves behind
// ---------------------------------------------------------------------

/// An invocation that fails with a contract error and changes nothing.
pub open spec fn rejected<T>(s: EnvView, e: Error) -> (EnvView, Result<T, Failure>) {
    (s, Err(Failure::Contract(e)))
}

/// An invocation that aborts on an arithmetic overflow and changes nothing.
pub open spec fn aborted<T>(s: EnvView) -> (EnvView, Result<T, Failure>) {
    (s, Err(Failure::Overflow))
}

/// The error a tip or subscription amount is refused with, if any.
pub open spec fn amount_error(amount: i128) -> Option<Error> {
    if amount == 0 {
        Some(Error::ZeroAmount)
    } else if amount < 0 {
        Some(Error::InvalidAmount)
    } else {
        None
    }
}

/// A goal after `amount` more has been received toward it: it completes
/// once the running total reaches the target.
pub open spec fn progressed_goal(g: TipGoal, amount: int) -> TipGoal {
    TipGoal {
        current_amount: (g.current_amount + amount) as i128,
        completed: g.current_amount + amount >= g.goal_amount,
        ..g
    }
}

/// Counting `amount` toward the open goal of `creator` would overflow.
pub open spec fn goal_progress_overflows(st: StorageView, creator: Seq<char>, amount: int) -> bool {
    &&& st.goals.contains_key(creator)
    &&& !st.goals[creator].completed
    &&& !fits_i128(st.goals[creator].current_amount + amount)
}

/// Counts `amount` toward the open goal of `creator`, if there is one,
/// and publishes `GoalReached` when that completes it.
pub open spec fn goal_progress(s: EnvView, creator: String, amount: int, now: u64) -> EnvView {
    let st = s.storage;
    if st.goals.contains_key(creator@) && !st.goals[creator@].completed {
        let g = st.goals[creator@];
        let g2 = progressed_goal(g, amount);
        let s2 = with_storage(s, goal_saved(st, g2));
        if g2.completed {
            emitted(
                s2,
                Event::GoalReached {
                    goal_id: g.id,
                    creator,
                    goal_amount: g.goal_amount,
                    timestamp: now,
                },
            )
        } else {
            s2
        }
    } else {
        s
    }
}

/// Crediting `net` to a registered creator would overflow (its total, its
/// tip count when `count_tip`, or its goal's progress).
pub open spec fn credit_overflows(st: StorageView, creator: Seq<char>, net: int, count_tip: bool) -> bool {
    &&& st.profiles.contains_key(creator)
    &&& {
        ||| !fits_i128(st.profiles[creator].total_received + net)
        ||| (count_tip && st.profiles[creator].tip_count == u32::MAX)
        ||| goal_progress_overflows(st, creator, net)
    }
}

/// Credits `net` received by `creator`: when the creator is registered,
/// its total (and, for a tip, its tip count) grows and the amount counts
/// toward its goal. Unregistered recipients are left without a record.
pub open spec fn credited(s: EnvView, creator: String, net: int, count_tip: bool) -> EnvView {
    let st = s.storage;
    if st.profiles.contains_key(creator@) {
        let p = st.profiles[creator@];
        let p2 = CreatorProfile {
            total_received: (p.total_received + net) as i128,
            tip_count: if count_tip {
                (p.tip_count + 1) as u32
            } else {
                p.tip_count
            },
            ..p
        };
        goal_progress(with_storage(s, profile_saved(st, p2)), creator, net, s.timestamp)
    } else {
        s
    }
}

/// The fee routed to the treasury and the rest routed to the recipient,
/// both paid by `from`, through `transfer` (`spender` is `None`) or
/// through `transfer_from` by `spender`.
pub open spec fn payment_requested(
    s: EnvView,
    spender: Option<String>,
    from: String,
    to: String,
    treasury: String,
    net: i128,
    fee: i128,
) -> EnvView {
    let call = |dest: String, amount: i128|
        match spender {
            Some(sp) => TokenCall::TransferFrom { spender: sp, from, to: dest, amount },
            None => TokenCall::Transfer { from, to: dest, amount },
        };
    let s1 = requested(s, call(to, net));
    if fee > 0 {
        requested(s1, call(treasury, fee))
    } else {
        s1
    }
}

/// The statistics after one more creator registered.
pub open spec fn creator_counted(stats: ProtocolStats) -> ProtocolStats {
    ProtocolStats { total_creators: (stats.total_creators + 1) as u32, ..stats }
}

/// The statistics after a tip of `amount` that paid `fee`.
pub open spec fn tip_counted(stats: ProtocolStats, amount: int, fee: int) -> ProtocolStats {
    ProtocolStats {
        total_tips: (stats.total_tips + 1) as u32,
        total_volume: (stats.total_volume + amount) as i128,
        fee_collected: (stats.fee_collected + fee) as i128,
        ..stats
    }
}

/// The statistics after one more subscription was opened.
pub open spec fn subscription_counted(stats: ProtocolStats) -> ProtocolStats {
    ProtocolStats { total_subscriptions: (stats.total_subscriptions + 1) as u32, ..stats }
}

/// The statistics after a subscription charge of `amount` that paid `fee`.
pub open spec fn charge_counted(stats: ProtocolStats, amount: int, fee: int) -> ProtocolStats {
    ProtocolStats {
        total_volume: (stats.total_volume + amount) as i128,
        fee_collected: (stats.fee_collected + fee) as i128,
        ..stats
    }
}

// ---------------------------------------------------------------------
// Specifications of the entry points
// ---------------------------------------------------------------------

pub open spec fn initialize_spec(
    s: EnvView,
    admin: String,
    fee_basis_points: u32,
    treasury: String,
    token: String,
) -> (EnvView, Result<(), Failure>) {
    if s.storage.config is Some {
        rejected(s, Error::AlreadyInitialized)
    } else if fee_basis_points > MAX_FEE_BASIS_POINTS {
        rejected(s, Error::InvalidFee)
    } else {
        (
            with_storage(
                s,
                config_saved(s.storage, Config { admin, treasury, fee_basis_points, token }),
            ),
            Ok(()),
        )
    }
}

pub open spec fn register_creator_spec(
    s: EnvView,
    wallet: String,
    name: String,
    bio: String,
    avatar_ipfs: String,
) -> (EnvView, Result<u64, Failure>) {
    let st = s.storage;
    if st.config is None {
        rejected(s, Error::NotInitialized)
    } else if st.profiles.contains_key(wallet@) {
        (s, Ok(st.profiles[wallet@].id))
    } else if st.profile_id_counter == u64::MAX || st.stats.total_creators == u32::MAX {
        aborted(s)
    } else {
        let id = (st.profile_id_counter + 1) as u64;
        let profile = CreatorProfile {
            id,
            wallet,
            name,
            bio,
            avatar_ipfs,
            total_received: 0,
            tip_count: 0,
            subscriber_count: 0,
            registered_at: s.timestamp,
        };
        let st1 = profile_saved(StorageView { profile_id_counter: id, ..st }, profile);
        let st2 = stats_saved(st1, creator_counted(st.stats));
        (
            emitted(
                with_storage(s, st2),
                Event::CreatorRegistered { profile_id: id, wallet, name, timestamp: s.timestamp },
            ),
            Ok(id),
        )
    }
}

pub open spec fn update_profile_spec(
    s: EnvView,
    wallet: String,
    name: String,
    bio: String,
    avatar_ipfs: String,
) -> (EnvView, Result<(), Failure>) {
    let st = s.storage;
    if !st.profiles.contains_key(wallet@) {
        rejected(s, Error::CreatorNotFound)
    } else {
        let p = st.profiles[wallet@];
        (
            with_storage(s, profile_saved(st, CreatorProfile { name, bio, avatar_ipfs, ..p })),
            Ok(()),
        )
    }
}

/// A tip of `amount` would overflow a counter or a running total.
pub open spec fn tip_overflows(st: StorageView, c: Config, to: Seq<char>, amount: i128) -> bool {
    let fee = fee_for(amount as int, c.fee_basis_points as int);
    let net = amount - fee;
    ||| !fits_i128(amount * c.fee_basis_points)
    ||| st.tip_id_counter == u64::MAX
    ||| credit_overflows(st, to, net, true)
    ||| st.stats.total_tips == u32::MAX
    ||| !fits_i128(st.stats.total_volume + amount)
    ||| !fits_i128(st.stats.fee_collected + fee)
}

pub open spec fn tip_spec(s: EnvView, from: String, to: String, amount: i128, message_ipfs: String) -> (
    EnvView,
    Result<u64, Failure>,
) {
    let st = s.storage;
    match st.config {
        None => rejected(s, Error::NotInitialized),
        Some(c) => if amount_error(amount) is Some {
            rejected(s, amount_error(amount)->0)
        } else if tip_overflows(st, c, to@, amount) {
            aborted(s)
        } else {
            let fee = fee_for(amount as int, c.fee_basis_points as int) as i128;
            let net = (amount - fee) as i128;
            let id = (st.tip_id_counter + 1) as u64;
            let record = Tip {
                id,
                from,
                to,
                amount,
                fee_paid: fee,
                message_ipfs,
                timestamp: s.timestamp,
            };
            let s1 = payment_requested(s, None, from, to, c.treasury, net, fee);
            let s2 = with_storage(
                s1,
                tip_saved(StorageView { tip_id_counter: id, ..st }, record),
            );
            let s3 = credited(s2, to, net as int, true);
            let s4 = with_storage(
                s3,
                stats_saved(s3.storage, tip_counted(st.stats, amount as int, fee as int)),
            );
            (
                emitted(
                    s4,
                    Event::TipSent {
                        tip_id: id,
                        from,
                        to,
                        amount,
                        fee_paid: fee,
                        timestamp: s.timestamp,
                    },
                ),
                Ok(id),
            )
        },
    }
}

/// Opening a subscription would overflow a counter or the charge date.
pub open spec fn subscribe_overflows(st: StorageView, to: Seq<char>, now: u64) -> bool {
    ||| st.subscription_id_counter == u64::MAX
    ||| now + SECONDS_PER_MONTH > u64::MAX
    ||| (st.profiles.contains_key(to) && st.profiles[to].subscriber_count == u32::MAX)
    ||| st.stats.total_subscriptions == u32::MAX
}

pub open spec fn subscribe_spec(s: EnvView, from: String, to: String, amount_per_month: i128) -> (
    EnvView,
    Result<u64, Failure>,
) {
    let st = s.storage;
    if st.config is None {
        rejected(s, Error::NotInitialized)
    } else if amount_error(amount_per_month) is Some {
        rejected(s, amount_error(amount_per_month)->0)
    } else if subscribe_overflows(st, to@, s.timestamp) {
        aborted(s)
    } else {
        let id = (st.subscription_id_counter + 1) as u64;
        let next_charge_date = (s.timestamp + SECONDS_PER_MONTH) as u64;
        let subscription = Subscription {
            id,
            supporter: from,
            creator: to,
            amount_per_month,
            next_charge_date,
            active: true,
            created_at: s.timestamp,
        };
        let st1 = subscription_indexed(
            subscription_saved(StorageView { subscription_id_counter: id, ..st }, subscription),
            subscription,
        );
        let st2 = if st.profiles.contains_key(to@) {
            let p = st.profiles[to@];
            profile_saved(
                st1,
                CreatorProfile { subscriber_count: (p.subscriber_count + 1) as u32, ..p },
            )
        } else {
            st1
        };
        let st3 = stats_saved(st2, subscription_counted(st.stats));
        (
            emitted(
                with_storage(s, st3),
                Event::SubscriptionCreated {
                    subscription_id: id,
                    supporter: from,
                    creator: to,
                    amount_per_month,
                    next_charge_date,
                },
            ),
            Ok(id),
        )
    }
}

pub open spec fn cancel_subscription_spec(s: EnvView, from: String, subscription_id: u64) -> (
    EnvView,
    Result<(), Failure>,
) {
    let st = s.storage;
    match lookup(st.subscriptions, subscription_id) {
        None => rejected(s, Error::SubscriptionNotFound),
        Some(sub) => if sub.supporter@ != from@ {
            rejected(s, Error::NotSubscriber)
        } else if !sub.active {
            rejected(s, Error::SubscriptionAlreadyCancelled)
        } else {
            let st1 = subscription_saved(st, Subscription { active: false, ..sub });
            let st2 = if st.profiles.contains_key(sub.creator@) {
                let p = st.profiles[sub.creator@];
                profile_saved(
                    st1,
                    CreatorProfile {
                        subscriber_count: if p.subscriber_count > 0 {
                            (p.subscriber_count - 1) as u32
                        } else {
                            p.subscriber_count
                        },
                        ..p
                    },
                )
            } else {
                st1
            };
            (
                emitted(
                    with_storage(s, st2),
                    Event::SubscriptionCancelled {
                        subscription_id,
                        supporter: from,
                        creator: sub.creator,
                        timestamp: s.timestamp,
                    },
                ),
                Ok(()),
            )
        },
    }
}

pub open spec fn set_tip_goal_spec(
    s: EnvView,
    creator: String,
    goal_amount: i128,
    description: String,
) -> (EnvView, Result<u64, Failure>) {
    let st = s.storage;
    if !st.profiles.contains_key(creator@) {
        rejected(s, Error::CreatorNotFound)
    } else if goal_amount <= 0 {
        rejected(s, Error::InvalidAmount)
    } else if st.goal_id_counter == u64::MAX {
        aborted(s)
    } else {
        let id = (st.goal_id_counter + 1) as u64;
        let goal = TipGoal {
            id,
            creator,
            goal_amount,
            current_amount: 0,
            description,
            completed: false,
            created_at: s.timestamp,
        };
        (
            emitted(
                with_storage(s, goal_saved(StorageView { goal_id_counter: id, ..st }, goal)),
                Event::GoalSet { goal_id: id, creator, goal_amount, description },
            ),
            Ok(id),
        )
    }
}

pub open spec fn complete_tip_goal_spec(s: EnvView, creator: String, goal_id: u64) -> (
    EnvView,
    Result<(), Failure>,
) {
    let st = s.storage;
    match lookup(st.goals, creator@) {
        None => rejected(s, Error::GoalNotFound),
        Some(g) => if g.id != goal_id {
            rejected(s, Error::GoalNotFound)
        } else if g.completed {
            rejected(s, Error::GoalAlreadyCompleted)
        } else {
            (
                emitted(
                    with_storage(s, goal_saved(st, TipGoal { completed: true, ..g })),
                    Event::GoalReached {
                        goal_id: g.id,
                        creator,
                        goal_amount: g.goal_amount,
                        timestamp: s.timestamp,
                    },
                ),
                Ok(()),
            )
        },
    }
}

pub open spec fn update_fee_spec(s: EnvView, admin: String, fee_basis_points: u32) -> (
    EnvView,
    Result<(), Failure>,
) {
    match s.storage.config {
        None => rejected(s, Error::NotInitialized),
        Some(c) => if admin@ != c.admin@ {
            rejected(s, Error::Unauthorized)
        } else if fee_basis_points > MAX_FEE_BASIS_POINTS {
            rejected(s, Error::InvalidFee)
        } else {
            (
                emitted(
                    with_storage(s, config_saved(s.storage, Config { fee_basis_points, ..c })),
                    Event::FeeUpdated { old_fee: c.fee_basis_points, new_fee: fee_basis_points, admin },
                ),
                Ok(()),
            )
        },
    }
}

/// A charge of `amount_per_month` on `sub` would overflow a counter, the
/// charge date or a running total.
pub open spec fn charge_overflows(st: StorageView, c: Config, sub: Subscription, charged: u32) -> bool {
    let amount = sub.amount_per_month;
    let fee = fee_for(amount as int, c.fee_basis_points as int);
    let net = amount - fee;
    ||| !fits_i128(amount * c.fee_basis_points)
    ||| sub.next_charge_date + SECONDS_PER_MONTH > u64::MAX
    ||| credit_overflows(st, sub.creator@, net, false)
    ||| !fits_i128(st.stats.total_volume + amount)
    ||| !fits_i128(st.stats.fee_collected + fee)
    ||| charged == u32::MAX
}

/// One step of `process_due_subscriptions` on the due subscription `sub`,
/// given the allowance its supporter has granted the contract. A supporter
/// whose allowance falls short is skipped; otherwise the month is charged,
/// the charge date advances by a month, the creator is credited and the
/// statistics grow. The result tells whether the subscription was charged.
pub open spec fn charge_spec(
    s: EnvView,
    c: Config,
    sub: Subscription,
    charged: u32,
    allowance: i128,
) -> (EnvView, Result<bool, Failure>) {
    let st = s.storage;
    let amount = sub.amount_per_month;
    if allowance < amount {
        (s, Ok(false))
    } else if charge_overflows(st, c, sub, charged) {
        aborted(s)
    } else {
        let fee = fee_for(amount as int, c.fee_basis_points as int) as i128;
        let net = (amount - fee) as i128;
        let s1 = payment_requested(
            s,
            Some(s.contract_address),
            sub.supporter,
            sub.creator,
            c.treasury,
            net,
            fee,
        );
        let advanced = Subscription {
            next_charge_date: (sub.next_charge_date + SECONDS_PER_MONTH) as u64,
            ..sub
        };
        let s2 = with_storage(s1, subscription_saved(st, advanced));
        let s3 = credited(s2, sub.creator, net as int, false);
        let s4 = with_storage(
            s3,
            stats_saved(s3.storage, charge_counted(st.stats, amount as int, fee as int)),
        );
        (
            emitted(
                s4,
                Event::SubscriptionCharged {
                    subscription_id: sub.id,
                    supporter: sub.supporter,
                    creator: sub.creator,
                    amount,
                    timestamp: s.timestamp,
                },
            ),
            Ok(true),
        )
    }
}

/// A pass of `process_due_subscriptions` in progress: the configuration
/// read at its start, the subscriptions that were due then, how many of
/// them have been dealt with, and how many were charged.
///
/// Each charge reads the supporter's current allowance from the token, and
/// an earlier charge of the same supporter lowers it; so the pass advances
/// one subscription at a time, and the host carries out each charge's
/// token movements before it reads the next allowance.
#[derive(Debug)]
pub struct DueRun {
    pub config: Config,
    pub due: Vec<Subscription>,
    pub position: usize,
    pub charged: u32,
}

impl DueRun {
    /// Every due subscription has been dealt with.
    pub fn is_finished(&self) -> (r: bool)
        ensures
            r == (self.position >= self.due.len()),
    {
        self.position >= self.due.len()
    }

    /// The subscription to deal with next.
    pub fn current(&self) -> (r: &Subscription)
        requires
            self.position < self.due.len(),
        ensures
            *r == self.due@[self.position as int],
    {
        &self.due[self.position]
    }

    /// The number of subscriptions charged so far.
    pub fn charged(&self) -> (r: u32)
        ensures
            r == self.charged,
    {
        self.charged
    }
}

/// The pass that `process_due_subscriptions` starts.
pub open spec fn due_run_started(run: DueRun, s: EnvView, c: Config) -> bool {
    &&& run.config == c
    &&& run.due@ == due_among(s.storage.subscription_ids, s.storage.subscriptions, s.timestamp)
    &&& run.position == 0
    &&& run.charged == 0
}

/// The records of the ids that have one, in the order of the ids.
pub open spec fn present_among(ids: Seq<u64>, subs: Map<u64, Subscription>) -> Seq<Subscription>
    decreases ids.len(),
{
    if ids.len() == 0 {
        Seq::empty()
    } else {
        let prev = present_among(ids.drop_last(), subs);
        if subs.contains_key(ids.last()) {
            prev.push(subs[ids.last()])
        } else {
            prev
        }
    }
}

/// The last `n` tips among `ids` that have a record, newest first.
pub open spec fn recent_tips(ids: Seq<u64>, tips: Map<u64, Tip>, n: nat) -> Seq<Tip>
    decreases ids.len(),
{
    if ids.len() == 0 || n == 0 {
        Seq::empty()
    } else if tips.contains_key(ids.last()) {
        seq![tips[ids.last()]] + recent_tips(ids.drop_last(), tips, (n - 1) as nat)
    } else {
        recent_tips(ids.drop_last(), tips, n)
    }
}

/// The smaller of two lengths.
pub open spec fn min_nat(a: nat, b: nat) -> nat {
    if a < b {
        a
    } else {
        b
    }
}

/// The leaderboard row of a profile.
pub open spec fn entry_of(p: CreatorProfile) -> LeaderboardEntry {
    LeaderboardEntry {
        wallet: p.wallet,
        name: p.name,
        total_received: p.total_received,
        tip_count: p.tip_count,
    }
}

/// The rows of the listed wallets that have a profile, in list order.
pub open spec fn leaderboard_entries(
    wallets: Seq<String>,
    profiles: Map<Seq<char>, CreatorProfile>,
) -> Seq<LeaderboardEntry>
    decreases wallets.len(),
{
    if wallets.len() == 0 {
        Seq::empty()
    } else {
        let prev = leaderboard_entries(wallets.drop_last(), profiles);
        if profiles.contains_key(wallets.last()@) {
            prev.push(entry_of(profiles[wallets.last()@]))
        } else {
            prev
        }
    }
}

/// Inserts `x` into `sorted` just behind the last row that received at
/// least as much.
pub open spec fn insert_desc(sorted: Seq<LeaderboardEntry>, x: LeaderboardEntry) -> Seq<
    LeaderboardEntry,
>
    decreases sorted.len(),
{
    if sorted.len() == 0 {
        seq![x]
    } else if sorted.last().total_received < x.total_received {
        insert_desc(sorted.drop_last(), x).push(sorted.last())
    } else {
        sorted.push(x)
    }
}

/// The rows ordered by total received, descending; rows that received the
/// same keep their relative order.
pub open spec fn sort_desc(s: Seq<LeaderboardEntry>) -> Seq<LeaderboardEntry>
    decreases s.len(),
{
    if s.len() == 0 {
        s
    } else {
        insert_desc(sort_desc(s.drop_last()), s.last())
    }
}

/// The leaderboard: the `limit` creators that received most, descending.
pub open spec fn top_creators(st: StorageView, limit: nat) -> Seq<LeaderboardEntry> {
    let sorted = sort_desc(leaderboard_entries(st.creator_list, st.profiles));
    sorted.take(min_nat(limit, sorted.len()) as int)
}

// ---------------------------------------------------------------------
// Helpers
// ---------------------------------------------------------------------

fn require_initialized(env: &Env) -> (r: Result<Config, Failure>)
    ensures
        r == match env@.storage.config {
            Some(c) => Ok::<Config, Failure>(c),
            None => Err(Failure::Contract(Error::NotInitialized)),
        },
{
    match storage::load_config(&env.storage) {
        Some(config) => Ok(config),
        None => Err(Failure::Contract(Error::NotInitialized)),
    }
}

fn require_profile(env: &Env, wallet: &String) -> (r: Result<CreatorProfile, Failure>)
    ensures
        r == match lookup(env@.storage.profiles, wallet@) {
            Some(p) => Ok::<CreatorProfile, Failure>(p),
            None => Err(Failure::Contract(Error::CreatorNotFound)),
        },
        r matches Ok(p) ==> p.wallet@ == wallet@,
{
    match storage::load_profile(&env.storage, wallet) {
        Some(profile) => Ok(profile),
        None => Err(Failure::Contract(Error::CreatorNotFound)),
    }
}

fn validate_amount(amount: i128) -> (r: Result<(), Failure>)
    ensures
        r == match amount_error(amount) {
            Some(e) => Err(Failure::Contract(e)),
            None => Ok::<(), Failure>(()),
        },
{
    if amount == 0 {
        return Err(Failure::Contract(Error::ZeroAmount));
    }
    if amount < 0 {
        return Err(Failure::Contract(Error::InvalidAmount));
    }
    Ok(())
}

/// Counts `amount` toward the creator's open goal and completes it when
/// the target is reached.
fn apply_goal_progress(env: &mut Env, creator: &String, amount: i128, now: u64)
    requires
        !goal_progress_overflows(old(env)@.storage, creator@, amount as int),
    ensures
        final(env)@ == goal_progress(old(env)@, *creator, amount as int, now),
{
    if let Some(goal) = storage::load_goal(&env.storage, creator) {
        if !goal.completed {
            let mut goal = goal;
            goal.current_amount = goal.current_amount + amount;
            let reached = goal.current_amount >= goal.goal_amount;
            if reached {
                goal.completed = true;
            }
            storage::save_goal(&mut env.storage, &goal);
            if reached {
                events::goal_reached(env, goal.id, creator, goal.goal_amount, now);
            }
        }
    }
}

pub(crate) proof fn lemma_net_fits(amount: int, fee_basis_points: int)
    requires
        fits_i128(amount),
        0 <= fee_basis_points,
        fits_i128(amount * fee_basis_points),
    ensures
        fits_i128(amount - fee_for(amount, fee_basis_points)),
{
    let p = amount * fee_basis_points;
    if amount >= 0 {
        assert(p >= 0) by (nonlinear_arith)
            requires
                amount >= 0,
                fee_basis_points >= 0,
                p == amount * fee_basis_points,
        ;
    } else {
        assert(p <= 0) by (nonlinear_arith)
            requires
                amount < 0,
                fee_basis_points >= 0,
                p == amount * fee_basis_points,
        ;
    }
}

/// Whether crediting `net` to `creator` would overflow.
fn credit_would_overflow(env: &Env, creator: &String, net: i128, count_tip: bool) -> (r: bool)
    ensures
        r == credit_overflows(env@.storage, creator@, net as int, count_tip),
{
    match storage::load_profile(&env.storage, creator) {
        None => false,
        Some(p) => {
            if p.total_received.checked_add(net).is_none() {
                return true;
            }
            if count_tip && p.tip_count == u32::MAX {
                return true;
            }
            match storage::load_goal(&env.storage, creator) {
                None => false,
                Some(g) => !g.completed && g.current_amount.checked_add(net).is_none(),
            }
        },
    }
}

/// Credits `net` received by `creator` (see `credited`).
fn credit_creator(env: &mut Env, creator: &String, net: i128, count_tip: bool)
    requires
        !credit_overflows(old(env)@.storage, creator@, net as int, count_tip),
    ensures
        final(env)@ == credited(old(env)@, *creator, net as int, count_tip),
{
    if let Some(profile) = storage::load_profile(&env.storage, creator) {
        let mut profile = profile;
        profile.total_received = profile.total_received + net;
        if count_tip {
            profile.tip_count = profile.tip_count + 1;
        }
        storage::save_profile(&mut env.storage, &profile);
        let now = env.timestamp;
        apply_goal_progress(env, creator, net, now);
    }
}

/// Requests the payment of `net` to `to` and of `fee` (when positive) to
/// the treasury, both from `from`.
fn request_payment(
    env: &mut Env,
    spender: Option<String>,
    from: &String,
    to: &String,
    treasury: &String,
    net: i128,
    fee: i128,
)
    ensures
        final(env)@ == payment_requested(old(env)@, spender, *from, *to, *treasury, net, fee),
{
    match &spender {
        Some(sp) => env.request(
            TokenCall::TransferFrom {
                spender: sp.clone(),
                from: from.clone(),
                to: to.clone(),
                amount: net,
            },
        ),
        None => env.request(TokenCall::Transfer { from: from.clone(), to: to.clone(), amount: net }),
    }
    if fee > 0 {
        match &spender {
            Some(sp) => env.request(
                TokenCall::TransferFrom {
                    spender: sp.clone(),
                    from: from.clone(),
                    to: treasury.clone(),
                    amount: fee,
                },
            ),
            None => env.request(
                TokenCall::Transfer { from: from.clone(), to: treasury.clone(), amount: fee },
            ),
        }
    }
}

fn load_subscriptions(env: &Env, ids: &Vec<u64>) -> (r: Vec<Subscription>)
    ensures
        r@ == present_among(ids@, env@.storage.subscriptions),
{
    let mut result: Vec<Subscription> = Vec::new();
    let mut i: usize = 0;
    while i < ids.len()
        invariant
            i <= ids.len(),
            result@ == present_among(ids@.take(i as int), env@.storage.subscriptions),
        decreases ids.len() - i,
    {
        assert(ids@.take(i + 1).drop_last() =~= ids@.take(i as int));
        if let Some(subscription) = storage::load_subscription(&env.storage, ids[i]) {
            result.push(subscription);
        }
        i = i + 1;
    }
    assert(ids@.take(ids.len() as int) =~= ids@);
    result
}

/// Where the backward scan of insertion stops, `insert_desc` puts `x`.
proof fn lemma_insert_desc_at(sorted: Seq<LeaderboardEntry>, x: LeaderboardEntry, j: int)
    requires
        0 <= j <= sorted.len(),
        forall|k: int| j <= k < sorted.len() ==> #[trigger] sorted[k].total_received < x.total_received,
        j == 0 || sorted[j - 1].total_received >= x.total_received,
    ensures
        insert_desc(sorted, x) == sorted.take(j).push(x) + sorted.skip(j),
    decreases sorted.len() - j,
{
    if sorted.len() == 0 {
        assert(sorted.take(j).push(x) + sorted.skip(j) =~= seq![x]);
    } else if j == sorted.len() {
        assert(sorted.take(j).push(x) + sorted.skip(j) =~= sorted.push(x));
    } else {
        let init = sorted.drop_last();
        assert(sorted.last().total_received < x.total_received);
        lemma_insert_desc_at(init, x, j);
        assert(init.take(j).push(x) + init.skip(j) + seq![sorted.last()] =~= sorted.take(j).push(x)
            + sorted.skip(j));
    }
}

/// Sorts leaderboard entries by `total_received` descending, in place
/// (insertion sort: rows that received the same keep their order).
fn sort_leaderboard_desc(entries: &mut Vec<LeaderboardEntry>)
    ensures
        final(entries)@ == sort_desc(old(entries)@),
{
    let ghost orig = entries@;
    let len = entries.len();
    if len == 0 {
        return;
    }
    assert(orig.take(1).drop_last() =~= Seq::<LeaderboardEntry>::empty());
    assert(sort_desc(Seq::<LeaderboardEntry>::empty()) == Seq::<LeaderboardEntry>::empty());
    assert(insert_desc(Seq::<LeaderboardEntry>::empty(), orig[0]) == seq![orig[0]]);
    assert(entries@.take(1) =~= seq![orig[0]]);
    let mut i: usize = 1;
    while i < len
        invariant
            1 <= i <= len == entries.len() == orig.len(),
            entries@.take(i as int) == sort_desc(orig.take(i as int)),
            entries@.skip(i as int) == orig.skip(i as int),
        decreases len - i,
    {
        let ghost sorted = entries@.take(i as int);
        let current = entries[i].clone();
        assert(current == orig[i as int]) by {
            assert(entries@[i as int] == entries@.skip(i as int)[0]);
        }
        assert forall|k: int| i < k < len implies #[trigger] entries@[k] == orig[k] by {
            assert(entries@.skip(i as int)[k - i] == orig.skip(i as int)[k - i]);
        }
        assert forall|k: int| 0 <= k < i implies #[trigger] entries@[k] == sorted[k] by {
            assert(entries@.take(i as int)[k] == entries@[k]);
        }
        let mut j: usize = i;
        while j > 0 && entries[j - 1].total_received < current.total_received
            invariant
                0 <= j <= i < len == entries.len(),
                sorted.len() == i,
                forall|k: int| 0 <= k < j ==> #[trigger] entries@[k] == sorted[k],
                forall|k: int| j < k <= i ==> #[trigger] entries@[k] == sorted[k - 1],
                forall|k: int| j <= k < i ==> #[trigger] sorted[k].total_received < current.total_received,
                forall|k: int| i < k < len ==> #[trigger] entries@[k] == orig[k],
            decreases j,
        {
            let prev = entries[j - 1].clone();
            entries.set(j, prev);
            j = j - 1;
        }
        entries.set(j, current);
        proof {
            lemma_insert_desc_at(sorted, current, j as int);
            let next = orig.take(i + 1);
            assert(next.drop_last() =~= orig.take(i as int));
            assert(next.last() == orig[i as int]);
            assert(entries@.take(i + 1) =~= sorted.take(j as int).push(current) + sorted.skip(
                j as int,
            ));
            assert(entries@.skip(i + 1) =~= orig.skip(i + 1));
        }
        i = i + 1;
    }
    assert(entries@ =~= entries@.take(len as int));
    assert(orig =~= orig.take(len as int));
}

impl TipContract {
    /// Initializes the contract with an admin, protocol fee, treasury, and the
    /// token that all tips and subscriptions are denominated in. Can only be
    /// called once.
    pub fn initialize(
        env: &mut Env,
        admin: String,
        fee_basis_points: u32,
        treasury: String,
        token: String,
    ) -> (r: Result<(), Failure>)
        ensures
            (final(env)@, r) == initialize_spec(old(env)@, admin, fee_basis_points, treasury, token),
    {
        if storage::load_config(&env.storage).is_some() {
            return Err(Failure::Contract(Error::AlreadyInitialized));
        }
        if fee_basis_points > MAX_FEE_BASIS_POINTS {
            return Err(Failure::Contract(Error::InvalidFee));
        }
        storage::save_config(&mut env.storage, &Config { admin, treasury, fee_basis_points, token });
        Ok(())
    }

    /// Creates a public creator profile for `wallet`. Calling this again for
    /// an already-registered wallet returns the existing profile id and
    /// changes nothing.
    pub fn register_creator(
        env: &mut Env,
        wallet: String,
        name: String,
        bio: String,
        avatar_ipfs: String,
    ) -> (r: Result<u64, Failure>)
        ensures
            (final(env)@, r) == register_creator_spec(old(env)@, wallet, name, bio, avatar_ipfs),
    {
        require_initialized(env)?;
        if let Some(existing) = storage::load_profile(&env.storage, &wallet) {
            return Ok(existing.id);
        }
        if env.storage.profile_id_counter == u64::MAX || env.storage.stats.total_creators
            == u32::MAX {
            return Err(Failure::Overflow);
        }
        let id = storage::next_profile_id(&mut env.storage);
        let now = env.timestamp;
        let profile = CreatorProfile {
            id,
            wallet: wallet.clone(),
            name: name.clone(),
            bio,
            avatar_ipfs,
            total_received: 0,
            tip_count: 0,
            subscriber_count: 0,
            registered_at: now,
        };
        storage::save_profile(&mut env.storage, &profile);
        storage::update_protocol_stats(
            &mut env.storage,
            (|stats: ProtocolStats| -> (r: ProtocolStats)
                requires
                    stats.total_creators < u32::MAX,
                ensures
                    r == creator_counted(stats),
                {
                    ProtocolStats { total_creators: stats.total_creators + 1, ..stats }
                }),
        );
        events::creator_registered(env, id, &wallet, &name, now);
        Ok(id)
    }

    /// Updates an existing creator's public profile fields.
    pub fn update_profile(
        env: &mut Env,
        wallet: String,
        name: String,
        bio: String,
        avatar_ipfs: String,
    ) -> (r: Result<(), Failure>)
        ensures
            (final(env)@, r) == update_profile_spec(old(env)@, wallet, name, bio, avatar_ipfs),
    {
        let mut profile = require_profile(env, &wallet)?;
        profile.name = name;
        profile.bio = bio;
        profile.avatar_ipfs = avatar_ipfs;
        storage::save_profile(&mut env.storage, &profile);
        Ok(())
    }

    /// Sends a one-time tip of `amount` (in the token's smallest unit)
    /// directly from `from` to `to`. The protocol fee is deducted from
    /// `amount` and routed to the treasury in the same invocation.
    pub fn tip(env: &mut Env, from: String, to: String, amount: i128, message_ipfs: String) -> (r:
        Result<u64, Failure>)
        ensures
            (final(env)@, r) == tip_spec(old(env)@, from, to, amount, message_ipfs),
    {
        let config = require_initialized(env)?;
        validate_amount(amount)?;
        if amount.checked_mul(config.fee_basis_points as i128).is_none() {
            return Err(Failure::Overflow);
        }
        let fee = compute_fee(amount, config.fee_basis_points);
        proof {
            lemma_fee_bounds(amount as int, config.fee_basis_points as int);
        }
        let net = amount - fee;
        if env.storage.tip_id_counter == u64::MAX || credit_would_overflow(env, &to, net, true)
            || env.storage.stats.total_tips == u32::MAX
            || env.storage.stats.total_volume.checked_add(amount).is_none()
            || env.storage.stats.fee_collected.checked_add(fee).is_none() {
            return Err(Failure::Overflow);
        }
        request_payment(env, None, &from, &to, &config.treasury, net, fee);
        let id = storage::next_tip_id(&mut env.storage);
        let now = env.timestamp;
        let tip_record = Tip {
            id,
            from: from.clone(),
            to: to.clone(),
            amount,
            fee_paid: fee,
            message_ipfs,
            timestamp: now,
        };
        storage::save_tip(&mut env.storage, &tip_record);
        credit_creator(env, &to, net, true);
        storage::update_protocol_stats(
            &mut env.storage,
            (move |stats: ProtocolStats| -> (r: ProtocolStats)
                requires
                    stats.total_tips < u32::MAX,
                    fits_i128(stats.total_volume + amount),
                    fits_i128(stats.fee_collected + fee),
                ensures
                    r == tip_counted(stats, amount as int, fee as int),
                {
                    ProtocolStats {
                        total_tips: stats.total_tips + 1,
                        total_volume: stats.total_volume + amount,
                        fee_collected: stats.fee_collected + fee,
                        ..stats
                    }
                }),
        );
        events::tip_sent(env, id, &from, &to, amount, fee, now);
        Ok(id)
    }

    /// Opens a recurring monthly subscription from `from` to `to`. No funds
    /// move now: the first charge falls due a month later.
    pub fn subscribe(env: &mut Env, from: String, to: String, amount_per_month: i128) -> (r: Result<
        u64,
        Failure,
    >)
        ensures
            (final(env)@, r) == subscribe_spec(old(env)@, from, to, amount_per_month),
    {
        require_initialized(env)?;
        validate_amount(amount_per_month)?;
        let now = env.timestamp;
        let profile_opt = storage::load_profile(&env.storage, &to);
        let full_profile = match &profile_opt {
            Some(p) => p.subscriber_count == u32::MAX,
            None => false,
        };
        if env.storage.subscription_id_counter == u64::MAX || now > u64::MAX - SECONDS_PER_MONTH
            || full_profile || env.storage.stats.total_subscriptions == u32::MAX {
            return Err(Failure::Overflow);
        }
        let id = storage::next_subscription_id(&mut env.storage);
        let next_charge_date = now + SECONDS_PER_MONTH;
        let subscription = Subscription {
            id,
            supporter: from.clone(),
            creator: to.clone(),
            amount_per_month,
            next_charge_date,
            active: true,
            created_at: now,
        };
        storage::save_subscription(&mut env.storage, &subscription);
        storage::index_new_subscription(&mut env.storage, &subscription);
        if let Some(profile) = profile_opt {
            let mut profile = profile;
            profile.subscriber_count = profile.subscriber_count + 1;
            storage::save_profile(&mut env.storage, &profile);
        }
        storage::update_protocol_stats(
            &mut env.storage,
            (|stats: ProtocolStats| -> (r: ProtocolStats)
                requires
                    stats.total_subscriptions < u32::MAX,
                ensures
                    r == subscription_counted(stats),
                {
                    ProtocolStats { total_subscriptions: stats.total_subscriptions + 1, ..stats }
                }),
        );
        events::subscription_created(env, id, &from, &to, amount_per_month, next_charge_date);
        Ok(id)
    }

    /// Cancels a subscription. Only the supporter who opened it may cancel it.
    pub fn cancel_subscription(env: &mut Env, from: String, subscription_id: u64) -> (r: Result<
        (),
        Failure,
    >)
        ensures
            (final(env)@, r) == cancel_subscription_spec(old(env)@, from, subscription_id),
    {
        let subscription = match storage::load_subscription(&env.storage, subscription_id) {
            Some(s) => s,
            None => {
                return Err(Failure::Contract(Error::SubscriptionNotFound));
            },
        };
        if subscription.supporter != from {
            return Err(Failure::Contract(Error::NotSubscriber));
        }
        if !subscription.active {
            return Err(Failure::Contract(Error::SubscriptionAlreadyCancelled));
        }
        storage::cancel_subscription_storage(&mut env.storage, subscription_id);
        if let Some(profile) = storage::load_profile(&env.storage, &subscription.creator) {
            let mut profile = profile;
            if profile.subscriber_count > 0 {
                profile.subscriber_count = profile.subscriber_count - 1;
            }
            storage::save_profile(&mut env.storage, &profile);
        }
        let now = env.timestamp;
        events::subscription_cancelled(env, subscription_id, &from, &subscription.creator, now);
        Ok(())
    }

    /// Publishes a new funding goal for `creator`, replacing any previous one.
    pub fn set_tip_goal(env: &mut Env, creator: String, goal_amount: i128, description: String) -> (r:
        Result<u64, Failure>)
        ensures
            (final(env)@, r) == set_tip_goal_spec(old(env)@, creator, goal_amount, description),
    {
        if !storage::profile_exists(&env.storage, &creator) {
            return Err(Failure::Contract(Error::CreatorNotFound));
        }
        if goal_amount <= 0 {
            return Err(Failure::Contract(Error::InvalidAmount));
        }
        if env.storage.goal_id_counter == u64::MAX {
            return Err(Failure::Overflow);
        }
        let id = storage::next_goal_id(&mut env.storage);
        let now = env.timestamp;
        let goal = TipGoal {
            id,
            creator: creator.clone(),
            goal_amount,
            current_amount: 0,
            description: description.clone(),
            completed: false,
            created_at: now,
        };
        storage::save_goal(&mut env.storage, &goal);
        events::goal_set(env, id, &creator, goal_amount, &description);
        Ok(id)
    }

    /// Marks a creator's tip goal as completed ahead of its target. Goals
    /// also complete on their own once the amount received reaches the target.
    pub fn complete_tip_goal(env: &mut Env, creator: String, goal_id: u64) -> (r: Result<
        (),
        Failure,
    >)
        ensures
            (final(env)@, r) == complete_tip_goal_spec(old(env)@, creator, goal_id),
    {
        let goal = match storage::load_goal(&env.storage, &creator) {
            Some(g) => g,
            None => {
                return Err(Failure::Contract(Error::GoalNotFound));
            },
        };
        if goal.id != goal_id {
            return Err(Failure::Contract(Error::GoalNotFound));
        }
        if goal.completed {
            return Err(Failure::Contract(Error::GoalAlreadyCompleted));
        }
        let mut goal = goal;
        goal.completed = true;
        storage::save_goal(&mut env.storage, &goal);
        let now = env.timestamp;
        events::goal_reached(env, goal.id, &creator, goal.goal_amount, now);
        Ok(())
    }

    /// Updates the protocol fee. Only the configured admin may call this.
    pub fn update_fee(env: &mut Env, admin: String, fee_basis_points: u32) -> (r: Result<
        (),
        Failure,
    >)
        ensures
            (final(env)@, r) == update_fee_spec(old(env)@, admin, fee_basis_points),
    {
        let mut config = require_initialized(env)?;
        if admin != config.admin {
            return Err(Failure::Contract(Error::Unauthorized));
        }
        if fee_basis_points > MAX_FEE_BASIS_POINTS {
            return Err(Failure::Contract(Error::InvalidFee));
        }
        let old_fee = config.fee_basis_points;
        config.fee_basis_points = fee_basis_points;
        storage::save_config(&mut env.storage, &config);
        events::fee_updated(env, old_fee, fee_basis_points, &admin);
        Ok(())
    }

    /// Returns up to `limit` tips involving `wallet` (as sender or
    /// recipient), most recent first.
    pub fn get_tip_history(env: &Env, wallet: String, limit: u32) -> (r: Vec<Tip>)
        ensures
            r@ == recent_tips(
                ids_in(env@.storage.tips_by_wallet, wallet@),
                env@.storage.tips,
                min_nat(limit as nat, ids_in(env@.storage.tips_by_wallet, wallet@).len()),
            ),
    {
        let ids = storage::tip_ids_for_wallet(&env.storage, &wallet);
        let len = ids.len();
        let take = if (limit as usize) < len {
            limit as usize
        } else {
            len
        };
        let ghost tips = env@.storage.tips;
        let mut result: Vec<Tip> = Vec::new();
        let mut i = len;
        let mut collected: usize = 0;
        assert(ids@.take(len as int) =~= ids@);
        while i > 0 && collected < take
            invariant
                i <= len == ids.len(),
                collected <= take,
                tips == env@.storage.tips,
                result@ + recent_tips(ids@.take(i as int), tips, (take - collected) as nat)
                    == recent_tips(ids@, tips, take as nat),
            decreases i,
        {
            i = i - 1;
            let ghost before = result@;
            assert(ids@.take(i + 1).drop_last() =~= ids@.take(i as int));
            if let Some(t) = storage::load_tip(&env.storage, ids[i]) {
                result.push(t);
                collected = collected + 1;
                assert(result@ =~= before + seq![tips[ids@[i as int]]]);
            }
        }
        result
    }

    /// Returns every subscription a supporter has ever opened.
    pub fn get_subscriptions_by_supporter(env: &Env, supporter: String) -> (r: Vec<Subscription>)
        ensures
            r@ == present_among(
                ids_in(env@.storage.subs_by_supporter, supporter@),
                env@.storage.subscriptions,
            ),
    {
        let ids = storage::subscription_ids_by_supporter(&env.storage, &supporter);
        load_subscriptions(env, &ids)
    }

    /// Returns every subscription a creator has ever received.
    pub fn get_subscriptions_by_creator(env: &Env, creator: String) -> (r: Vec<Subscription>)
        ensures
            r@ == present_among(
                ids_in(env@.storage.subs_by_creator, creator@),
                env@.storage.subscriptions,
            ),
    {
        let ids = storage::subscription_ids_by_creator(&env.storage, &creator);
        load_subscriptions(env, &ids)
    }

    /// Returns the top `limit` creators ordered by total received, descending.
    pub fn get_top_creators(env: &Env, limit: u32) -> (r: Vec<LeaderboardEntry>)
        ensures
            r@ == top_creators(env@.storage, limit as nat),
    {
        let wallets = storage::all_creator_wallets(&env.storage);
        let ghost profiles = env@.storage.profiles;
        let mut entries: Vec<LeaderboardEntry> = Vec::new();
        let mut i: usize = 0;
        while i < wallets.len()
            invariant
                i <= wallets.len(),
                profiles == env@.storage.profiles,
                entries@ == leaderboard_entries(wallets@.take(i as int), profiles),
            decreases wallets.len() - i,
        {
            assert(wallets@.take(i + 1).drop_last() =~= wallets@.take(i as int));
            if let Some(profile) = storage::load_profile(&env.storage, &wallets[i]) {
                entries.push(
                    LeaderboardEntry {
                        wallet: profile.wallet,
                        name: profile.name,
                        total_received: profile.total_received,
                        tip_count: profile.tip_count,
                    },
                );
            }
            i = i + 1;
        }
        assert(wallets@.take(wallets.len() as int) =~= wallets@);
        sort_leaderboard_desc(&mut entries);
        let take = if (limit as usize) < entries.len() {
            limit as usize
        } else {
            entries.len()
        };
        let mut result: Vec<LeaderboardEntry> = Vec::new();
        let mut k: usize = 0;
        while k < take
            invariant
                k <= take <= entries.len(),
                result@ == entries@.take(k as int),
            decreases take - k,
        {
            result.push(entries[k].clone());
            k = k + 1;
            assert(result@ =~= entries@.take(k as int));
        }
        result
    }

    /// Starts charging every active subscription whose `next_charge_date`
    /// has passed (callable by anyone). The subscriptions due now are
    /// taken in creation order; `charge_next_due` deals with them one by
    /// one, and the run's `charged` count is the number of subscriptions
    /// charged in the pass.
    pub fn process_due_subscriptions(env: &Env) -> (r: Result<DueRun, Failure>)
        ensures
            match env@.storage.config {
                None => r == Err::<DueRun, Failure>(Failure::Contract(Error::NotInitialized)),
                Some(c) => r matches Ok(run) && due_run_started(run, env@, c),
            },
    {
        let config = require_initialized(env)?;
        let now = env.timestamp;
        let due = storage::get_due_subscriptions(&env.storage, now);
        Ok(DueRun { config, due, position: 0, charged: 0 })
    }

    /// Deals with the next due subscription of a pass, given the allowance
    /// its supporter has granted the contract on the token: a supporter
    /// whose allowance falls short of the monthly amount is skipped and
    /// stays due; otherwise the month is charged (see `charge_spec`).
    /// Returns whether the subscription was charged.
    pub fn charge_next_due(env: &mut Env, run: &mut DueRun, allowance: i128) -> (r: Result<
        bool,
        Failure,
    >)
        requires
            old(run).position < old(run).due.len(),
        ensures
            (final(env)@, r) == charge_spec(
                old(env)@,
                old(run).config,
                old(run).due@[old(run).position as int],
                old(run).charged,
                allowance,
            ),
            final(run).config == old(run).config,
            final(run).due@ == old(run).due@,
            final(run).position == if r is Ok {
                old(run).position + 1
            } else {
                old(run).position as int
            },
            final(run).charged == if r == Ok::<bool, Failure>(true) {
                old(run).charged + 1
            } else {
                old(run).charged as int
            },
    {
        let subscription = run.due[run.position].clone();
        let amount = subscription.amount_per_month;
        if allowance < amount {
            run.position = run.position + 1;
            return Ok(false);
        }
        let fee_basis_points = run.config.fee_basis_points;
        if amount.checked_mul(fee_basis_points as i128).is_none() {
            return Err(Failure::Overflow);
        }
        let fee = compute_fee(amount, fee_basis_points);
        proof {
            lemma_net_fits(amount as int, fee_basis_points as int);
        }
        let net = amount - fee;
        if subscription.next_charge_date > u64::MAX - SECONDS_PER_MONTH || credit_would_overflow(
            env,
            &subscription.creator,
            net,
            false,
        ) || env.storage.stats.total_volume.checked_add(amount).is_none()
            || env.storage.stats.fee_collected.checked_add(fee).is_none() || run.charged
            == u32::MAX {
            return Err(Failure::Overflow);
        }
        let contract_address = env.contract_address.clone();
        request_payment(
            env,
            Some(contract_address),
            &subscription.supporter,
            &subscription.creator,
            &run.config.treasury,
            net,
            fee,
        );
        let mut advanced = subscription.clone();
        advanced.next_charge_date = subscription.next_charge_date + SECONDS_PER_MONTH;
        storage::save_subscription(&mut env.storage, &advanced);
        credit_creator(env, &subscription.creator, net, false);
        storage::update_protocol_stats(
            &mut env.storage,
            (move |stats: ProtocolStats| -> (r: ProtocolStats)
                requires
                    fits_i128(stats.total_volume + amount),
                    fits_i128(stats.fee_collected + fee),
                ensures
                    r == charge_counted(stats, amount as int, fee as int),
                {
                    ProtocolStats {
                        total_volume: stats.total_volume + amount,
                        fee_collected: stats.fee_collected + fee,
                        ..stats
                    }
                }),
        );
        let now = env.timestamp;
        events::subscription_charged(
            env,
            subscription.id,
            &subscription.supporter,
            &subscription.creator,
            amount,
            now,
        );
        run.position = run.position + 1;
        run.charged = run.charged + 1;
        Ok(true)
    }

    /// Returns a creator's public profile.
    pub fn get_profile(env: &Env, wallet: String) -> (r: Result<CreatorProfile, Failure>)
        ensures
            r == match lookup(env@.storage.profiles, wallet@) {
                Some(p) => Ok::<CreatorProfile, Failure>(p),
                None => Err(Failure::Contract(Error::CreatorNotFound)),
            },
    {
        require_profile(env, &wallet)
    }

    /// Returns a creator's current tip goal, if one has been set.
    pub fn get_tip_goal(env: &Env, creator: String) -> (r: Option<TipGoal>)
        ensures
            r == lookup(env@.storage.goals, creator@),
    {
        storage::load_goal(&env.storage, &creator)
    }

    /// Returns aggregate, protocol-wide statistics.
    pub fn get_protocol_stats(env: &Env) -> (r: ProtocolStats)
        ensures
            r == env@.storage.stats,
    {
        storage::load_stats(&env.storage)
    }

    /// Returns the current protocol fee, in basis points.
    pub fn get_fee(env: &Env) -> (r: Result<u32, Failure>)
        ensures
            r == match env@.storage.config {
                Some(c) => Ok::<u32, Failure>(c.fee_basis_points),
                None => Err(Failure::Contract(Error::NotInitialized)),
            },
    {
        let config = require_initialized(env)?;
        Ok(config.fee_basis_points)
    }
}

} // verus!
