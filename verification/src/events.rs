//! The events the contract publishes. Each function appends one event to
//! the invocation's event log and leaves everything else as it was.
use vstd::prelude::*;

use crate::env::{emitted, Env};

verus! {

/// An event published by the contract.
#[derive(Debug, PartialEq, Eq)]
pub enum Event {
    CreatorRegistered { profile_id: u64, wallet: String, name: String, timestamp: u64 },
    TipSent {
        tip_id: u64,
        from: String,
        to: String,
        amount: i128,
        fee_paid: i128,
        timestamp: u64,
    },
    SubscriptionCreated {
        subscription_id: u64,
        supporter: String,
        creator: String,
        amount_per_month: i128,
        next_charge_date: u64,
    },
    SubscriptionCharged {
        subscription_id: u64,
        supporter: String,
        creator: String,
        amount: i128,
        timestamp: u64,
    },
    SubscriptionCancelled {
        subscription_id: u64,
        supporter: String,
        creator: String,
        timestamp: u64,
    },
    GoalSet { goal_id: u64, creator: String, goal_amount: i128, description: String },
    GoalReached { goal_id: u64, creator: String, goal_amount: i128, timestamp: u64 },
    FeeUpdated { old_fee: u32, new_fee: u32, admin: String },
}

/// Publishes a `CreatorRegistered` event when a new creator profile is created.
pub fn creator_registered(
    env: &mut Env,
    profile_id: u64,
    wallet: &String,
    name: &String,
    timestamp: u64,
)
    ensures
        final(env)@ == emitted(
            old(env)@,
            Event::CreatorRegistered { profile_id, wallet: *wallet, name: *name, timestamp },
        ),
{
    env.events.push(
        Event::CreatorRegistered {
            profile_id,
            wallet: wallet.clone(),
            name: name.clone(),
            timestamp,
        },
    );
}

/// Publishes a `TipSent` event whenever a tip is transferred.
pub fn tip_sent(
    env: &mut Env,
    tip_id: u64,
    from: &String,
    to: &String,
    amount: i128,
    fee_paid: i128,
    timestamp: u64,
)
    ensures
        final(env)@ == emitted(
            old(env)@,
            Event::TipSent { tip_id, from: *from, to: *to, amount, fee_paid, timestamp },
        ),
{
    env.events.push(
        Event::TipSent { tip_id, from: from.clone(), to: to.clone(), amount, fee_paid, timestamp },
    );
}

/// Publishes a `SubscriptionCreated` event when a new subscription is opened.
pub fn subscription_created(
    env: &mut Env,
    subscription_id: u64,
    supporter: &String,
    creator: &String,
    amount_per_month: i128,
    next_charge_date: u64,
)
    ensures
        final(env)@ == emitted(
            old(env)@,
            Event::SubscriptionCreated {
                subscription_id,
                supporter: *supporter,
                creator: *creator,
                amount_per_month,
                next_charge_date,
            },
        ),
{
    env.events.push(
        Event::SubscriptionCreated {
            subscription_id,
            supporter: supporter.clone(),
            creator: creator.clone(),
            amount_per_month,
            next_charge_date,
        },
    );
}

/// Publishes a `SubscriptionCharged` event each time a subscription is billed.
pub fn subscription_charged(
    env: &mut Env,
    subscription_id: u64,
    supporter: &String,
    creator: &String,
    amount: i128,
    timestamp: u64,
)
    ensures
        final(env)@ == emitted(
            old(env)@,
            Event::SubscriptionCharged {
                subscription_id,
                supporter: *supporter,
                creator: *creator,
                amount,
                timestamp,
            },
        ),
{
    env.events.push(
        Event::SubscriptionCharged {
            subscription_id,
            supporter: supporter.clone(),
            creator: creator.clone(),
            amount,
            timestamp,
        },
    );
}

/// Publishes a `SubscriptionCancelled` event when a supporter cancels.
pub fn subscription_cancelled(
    env: &mut Env,
    subscription_id: u64,
    supporter: &String,
    creator: &String,
    timestamp: u64,
)
    ensures
        final(env)@ == emitted(
            old(env)@,
            Event::SubscriptionCancelled {
                subscription_id,
                supporter: *supporter,
                creator: *creator,
                timestamp,
            },
        ),
{
    env.events.push(
        Event::SubscriptionCancelled {
            subscription_id,
            supporter: supporter.clone(),
            creator: creator.clone(),
            timestamp,
        },
    );
}

/// Publishes a `GoalSet` event when a creator publishes a new funding goal.
pub fn goal_set(
    env: &mut Env,
    goal_id: u64,
    creator: &String,
    goal_amount: i128,
    description: &String,
)
    ensures
        final(env)@ == emitted(
            old(env)@,
            Event::GoalSet { goal_id, creator: *creator, goal_amount, description: *description },
        ),
{
    env.events.push(
        Event::GoalSet {
            goal_id,
            creator: creator.clone(),
            goal_amount,
            description: description.clone(),
        },
    );
}

/// Publishes a `GoalReached` event when a funding goal's target has been met.
pub fn goal_reached(env: &mut Env, goal_id: u64, creator: &String, goal_amount: i128, timestamp: u64)
    ensures
        final(env)@ == emitted(
            old(env)@,
            Event::GoalReached { goal_id, creator: *creator, goal_amount, timestamp },
        ),
{
    env.events.push(Event::GoalReached { goal_id, creator: creator.clone(), goal_amount, timestamp });
}

/// Publishes a `FeeUpdated` event when the admin changes the protocol fee.
pub fn fee_updated(env: &mut Env, old_fee: u32, new_fee: u32, admin: &String)
    ensures
        final(env)@ == emitted(old(env)@, Event::FeeUpdated { old_fee, new_fee, admin: *admin }),
{
    env.events.push(Event::FeeUpdated { old_fee, new_fee, admin: admin.clone() });
}

} // verus!
