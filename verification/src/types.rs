//! The records the contract keeps. Account addresses are held by their
//! string form (the Stellar strkey), which is what the logic compares.
use vstd::prelude::*;

verus! {

/// The number of seconds a subscription advances by on each successful charge (~30 days).
pub const SECONDS_PER_MONTH: u64 = 30 * 24 * 60 * 60;

/// Maximum protocol fee, expressed in basis points (500 = 5%).
pub const MAX_FEE_BASIS_POINTS: u32 = 500;

/// Global contract configuration set at initialization and updatable by the admin.
#[derive(Debug, PartialEq, Eq)]
pub struct Config {
    pub admin: String,
    pub treasury: String,
    pub fee_basis_points: u32,
    pub token: String,
}

/// A creator's public on-chain profile.
#[derive(Debug, PartialEq, Eq)]
pub struct CreatorProfile {
    pub id: u64,
    pub wallet: String,
    pub name: String,
    pub bio: String,
    pub avatar_ipfs: String,
    pub total_received: i128,
    pub tip_count: u32,
    pub subscriber_count: u32,
    pub registered_at: u64,
}

/// A single tip transfer record.
#[derive(Debug, PartialEq, Eq)]
pub struct Tip {
    pub id: u64,
    pub from: String,
    pub to: String,
    pub amount: i128,
    pub fee_paid: i128,
    pub message_ipfs: String,
    pub timestamp: u64,
}

/// A recurring monthly subscription from a supporter to a creator.
#[derive(Debug, PartialEq, Eq)]
pub struct Subscription {
    pub id: u64,
    pub supporter: String,
    pub creator: String,
    pub amount_per_month: i128,
    pub next_charge_date: u64,
    pub active: bool,
    pub created_at: u64,
}

/// A funding goal a creator publishes on their profile.
#[derive(Debug, PartialEq, Eq)]
pub struct TipGoal {
    pub id: u64,
    pub creator: String,
    pub goal_amount: i128,
    pub current_amount: i128,
    pub description: String,
    pub completed: bool,
    pub created_at: u64,
}

/// Aggregate, protocol-wide statistics.
#[derive(Clone, Copy, Debug, PartialEq, Eq, Structural)]
pub struct ProtocolStats {
    pub total_tips: u32,
    pub total_volume: i128,
    pub total_creators: u32,
    pub total_subscriptions: u32,
    pub fee_collected: i128,
}

/// A single row in the top-creators leaderboard.
#[derive(Debug, PartialEq, Eq)]
pub struct LeaderboardEntry {
    pub wallet: String,
    pub name: String,
    pub total_received: i128,
    pub tip_count: u32,
}

impl ProtocolStats {
    /// Statistics of a contract that has recorded nothing yet.
    pub open spec fn spec_zero() -> ProtocolStats {
        ProtocolStats {
            total_tips: 0,
            total_volume: 0,
            total_creators: 0,
            total_subscriptions: 0,
            fee_collected: 0,
        }
    }

    /// Statistics of a contract that has recorded nothing yet.
    pub fn zero() -> (s: ProtocolStats)
        ensures
            s == ProtocolStats::spec_zero(),
    {
        ProtocolStats {
            total_tips: 0,
            total_volume: 0,
            total_creators: 0,
            total_subscriptions: 0,
            fee_collected: 0,
        }
    }
}

impl Clone for Config {
    fn clone(&self) -> (r: Self)
        ensures
            r == *self,
    {
        Config {
            admin: self.admin.clone(),
            treasury: self.treasury.clone(),
            fee_basis_points: self.fee_basis_points,
            token: self.token.clone(),
        }
    }
}

impl Clone for CreatorProfile {
    fn clone(&self) -> (r: Self)
        ensures
            r == *self,
    {
        CreatorProfile {
            id: self.id,
            wallet: self.wallet.clone(),
            name: self.name.clone(),
            bio: self.bio.clone(),
            avatar_ipfs: self.avatar_ipfs.clone(),
            total_received: self.total_received,
            tip_count: self.tip_count,
            subscriber_count: self.subscriber_count,
            registered_at: self.registered_at,
        }
    }
}

impl Clone for Tip {
    fn clone(&self) -> (r: Self)
        ensures
            r == *self,
    {
        Tip {
            id: self.id,
            from: self.from.clone(),
            to: self.to.clone(),
            amount: self.amount,
            fee_paid: self.fee_paid,
            message_ipfs: self.message_ipfs.clone(),
            timestamp: self.timestamp,
        }
    }
}

impl Clone for Subscription {
    fn clone(&self) -> (r: Self)
        ensures
            r == *self,
    {
        Subscription {
            id: self.id,
            supporter: self.supporter.clone(),
            creator: self.creator.clone(),
            amount_per_month: self.amount_per_month,
            next_charge_date: self.next_charge_date,
            active: self.active,
            created_at: self.created_at,
        }
    }
}

impl Clone for TipGoal {
    fn clone(&self) -> (r: Self)
        ensures
            r == *self,
    {
        TipGoal {
            id: self.id,
            creator: self.creator.clone(),
            goal_amount: self.goal_amount,
            current_amount: self.current_amount,
            description: self.description.clone(),
            completed: self.completed,
            created_at: self.created_at,
        }
    }
}

impl Clone for LeaderboardEntry {
    fn clone(&self) -> (r: Self)
        ensures
            r == *self,
    {
        LeaderboardEntry {
            wallet: self.wallet.clone(),
            name: self.name.clone(),
            total_received: self.total_received,
            tip_count: self.tip_count,
        }
    }
}

} // verus!
