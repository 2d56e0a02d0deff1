use tip::events;
use tip::storage::{self, Storage, WalletIndex};
use tip::types::{MAX_FEE_BASIS_POINTS, SECONDS_PER_MONTH};
use tip::{
    compute_fee, CreatorProfile, Env, Error, Event, Failure, ProtocolStats, Subscription, Tip,
    TipContract, TipGoal, TokenCall,
};

fn s(x: &str) -> String {
    x.to_string()
}

fn initialized(fee: u32) -> Env {
    let mut env = Env::new(1_000, s("CCONTRACT"));
    TipContract::initialize(&mut env, s("GADMIN"), fee, s("GTREASURY"), s("CTOKEN")).unwrap();
    env
}

fn contract_err(e: Error) -> Failure {
    Failure::Contract(e)
}

// ---------------------------------------------------------------------
// Fee arithmetic
// ---------------------------------------------------------------------

#[test]
fn fee_is_basis_points_of_amount_rounded_toward_zero() {
    assert_eq!(compute_fee(1_000, 250), 25);
    assert_eq!(compute_fee(100_0000000, 250), 2_5000000);
    assert_eq!(compute_fee(19_999, 1), 1);
    assert_eq!(compute_fee(9_999, 1), 0);
    assert_eq!(compute_fee(-1_000, 250), -25);
    assert_eq!(compute_fee(-9_999, 1), 0);
    assert_eq!(compute_fee(12_345, 0), 0);
}

#[test]
fn fee_never_exceeds_five_percent() {
    for amount in [1i128, 19, 20, 21, 399, 10_000, 123_456_789] {
        let fee = compute_fee(amount, MAX_FEE_BASIS_POINTS);
        assert!(fee >= 0 && 20 * fee <= amount);
        assert!(amount - fee > 0);
    }
}

#[test]
fn error_codes_match_the_contract() {
    assert_eq!(Error::NotInitialized.code(), 1);
    assert_eq!(Error::AlreadyInitialized.code(), 2);
    assert_eq!(Error::CreatorNotFound.code(), 3);
    assert_eq!(Error::SubscriptionAlreadyCancelled.code(), 7);
    assert_eq!(Error::InvalidFee.code(), 8);
    assert_eq!(Error::ZeroAmount.code(), 9);
    assert_eq!(Error::InvalidAmount.code(), 13);
    assert_eq!(Error::Unauthorized.code(), 14);
}

// ---------------------------------------------------------------------
// Errors, one input each
// ---------------------------------------------------------------------

#[test]
fn uninitialized_contract_refuses_tips_and_subscriptions() {
    let mut env = Env::new(0, s("CCONTRACT"));
    assert_eq!(
        TipContract::tip(&mut env, s("GA"), s("GB"), 10, s("")),
        Err(contract_err(Error::NotInitialized))
    );
    assert_eq!(
        TipContract::subscribe(&mut env, s("GA"), s("GB"), 10),
        Err(contract_err(Error::NotInitialized))
    );
    assert_eq!(
        TipContract::register_creator(&mut env, s("GA"), s("A"), s(""), s("")),
        Err(contract_err(Error::NotInitialized))
    );
    assert_eq!(TipContract::get_fee(&env), Err(contract_err(Error::NotInitialized)));
    assert!(TipContract::process_due_subscriptions(&env).is_err());
    assert!(env.events.is_empty() && env.token_calls.is_empty());
}

#[test]
fn initialize_refuses_a_second_time_and_a_fee_too_high() {
    let mut env = Env::new(0, s("CCONTRACT"));
    assert_eq!(
        TipContract::initialize(&mut env, s("GADMIN"), 501, s("GT"), s("CTOKEN")),
        Err(contract_err(Error::InvalidFee))
    );
    TipContract::initialize(&mut env, s("GADMIN"), 500, s("GT"), s("CTOKEN")).unwrap();
    assert_eq!(
        TipContract::initialize(&mut env, s("GOTHER"), 0, s("GT2"), s("CTOKEN2")),
        Err(contract_err(Error::AlreadyInitialized))
    );
    let config = storage::load_config(&env.storage).unwrap();
    assert_eq!(config.admin, "GADMIN");
    assert_eq!(config.fee_basis_points, 500);
}

#[test]
fn amounts_must_be_positive() {
    let mut env = initialized(0);
    assert_eq!(
        TipContract::tip(&mut env, s("GA"), s("GB"), 0, s("")),
        Err(contract_err(Error::ZeroAmount))
    );
    assert_eq!(
        TipContract::tip(&mut env, s("GA"), s("GB"), -5, s("")),
        Err(contract_err(Error::InvalidAmount))
    );
    assert_eq!(
        TipContract::subscribe(&mut env, s("GA"), s("GB"), 0),
        Err(contract_err(Error::ZeroAmount))
    );
    assert_eq!(
        TipContract::subscribe(&mut env, s("GA"), s("GB"), -1),
        Err(contract_err(Error::InvalidAmount))
    );
    assert!(env.events.is_empty() && env.token_calls.is_empty());
    assert_eq!(TipContract::get_protocol_stats(&env).total_tips, 0);
}

#[test]
fn profile_operations_need_a_registered_creator() {
    let mut env = initialized(0);
    assert_eq!(TipContract::get_profile(&env, s("GX")), Err(contract_err(Error::CreatorNotFound)));
    assert_eq!(
        TipContract::update_profile(&mut env, s("GX"), s("n"), s("b"), s("a")),
        Err(contract_err(Error::CreatorNotFound))
    );
    assert_eq!(
        TipContract::set_tip_goal(&mut env, s("GX"), 10, s("d")),
        Err(contract_err(Error::CreatorNotFound))
    );
    TipContract::register_creator(&mut env, s("GX"), s("X"), s(""), s("")).unwrap();
    assert_eq!(
        TipContract::set_tip_goal(&mut env, s("GX"), 0, s("d")),
        Err(contract_err(Error::InvalidAmount))
    );
}

#[test]
fn cancel_errors() {
    let mut env = initialized(0);
    assert_eq!(
        TipContract::cancel_subscription(&mut env, s("GA"), 7),
        Err(contract_err(Error::SubscriptionNotFound))
    );
    let id = TipContract::subscribe(&mut env, s("GA"), s("GB"), 10).unwrap();
    assert_eq!(
        TipContract::cancel_subscription(&mut env, s("GB"), id),
        Err(contract_err(Error::NotSubscriber))
    );
    TipContract::cancel_subscription(&mut env, s("GA"), id).unwrap();
    assert_eq!(
        TipContract::cancel_subscription(&mut env, s("GA"), id),
        Err(contract_err(Error::SubscriptionAlreadyCancelled))
    );
}

#[test]
fn goal_completion_errors() {
    let mut env = initialized(0);
    TipContract::register_creator(&mut env, s("GC"), s("C"), s(""), s("")).unwrap();
    assert_eq!(
        TipContract::complete_tip_goal(&mut env, s("GC"), 1),
        Err(contract_err(Error::GoalNotFound))
    );
    let goal_id = TipContract::set_tip_goal(&mut env, s("GC"), 100, s("mic")).unwrap();
    assert_eq!(
        TipContract::complete_tip_goal(&mut env, s("GC"), goal_id + 1),
        Err(contract_err(Error::GoalNotFound))
    );
    TipContract::complete_tip_goal(&mut env, s("GC"), goal_id).unwrap();
    assert!(TipContract::get_tip_goal(&env, s("GC")).unwrap().completed);
    assert_eq!(
        TipContract::complete_tip_goal(&mut env, s("GC"), goal_id),
        Err(contract_err(Error::GoalAlreadyCompleted))
    );
    assert_eq!(
        env.events.last(),
        Some(&Event::GoalReached { goal_id, creator: s("GC"), goal_amount: 100, timestamp: 1_000 })
    );
}

#[test]
fn update_fee_errors() {
    let mut env = initialized(0);
    assert_eq!(
        TipContract::update_fee(&mut env, s("GNOTADMIN"), 10),
        Err(contract_err(Error::Unauthorized))
    );
    assert_eq!(
        TipContract::update_fee(&mut env, s("GADMIN"), 501),
        Err(contract_err(Error::InvalidFee))
    );
    TipContract::update_fee(&mut env, s("GADMIN"), 42).unwrap();
    assert_eq!(
        env.events.last(),
        Some(&Event::FeeUpdated { old_fee: 0, new_fee: 42, admin: s("GADMIN") })
    );
}

#[test]
fn counter_overflow_aborts_without_change() {
    let mut env = initialized(0);
    env.storage.profile_id_counter = u64::MAX;
    assert_eq!(
        TipContract::register_creator(&mut env, s("GA"), s("A"), s(""), s("")),
        Err(Failure::Overflow)
    );
    assert!(!storage::profile_exists(&env.storage, &s("GA")));
    assert!(env.events.is_empty());

    env.storage.tip_id_counter = u64::MAX;
    assert_eq!(TipContract::tip(&mut env, s("GA"), s("GB"), 10, s("")), Err(Failure::Overflow));
    assert!(env.token_calls.is_empty());
}

#[test]
fn fee_product_overflow_aborts() {
    let mut env = initialized(500);
    assert_eq!(
        TipContract::tip(&mut env, s("GA"), s("GB"), i128::MAX / 2, s("")),
        Err(Failure::Overflow)
    );
    assert!(env.token_calls.is_empty());
}

// ---------------------------------------------------------------------
// Laws, on concrete values
// ---------------------------------------------------------------------

#[test]
fn register_is_idempotent() {
    let mut env = initialized(0);
    let id = TipContract::register_creator(&mut env, s("GA"), s("A"), s("bio"), s("")).unwrap();
    let events_before = env.events.len();
    let again =
        TipContract::register_creator(&mut env, s("GA"), s("Other"), s("x"), s("y")).unwrap();
    assert_eq!(again, id);
    assert_eq!(env.events.len(), events_before);
    assert_eq!(TipContract::get_profile(&env, s("GA")).unwrap().name, "A");
    assert_eq!(TipContract::get_protocol_stats(&env).total_creators, 1);
}

#[test]
fn tip_routes_net_to_creator_and_fee_to_treasury() {
    let mut env = initialized(250);
    let id = TipContract::tip(&mut env, s("GS"), s("GC"), 1_000, s("hi")).unwrap();
    assert_eq!(id, 1);
    assert_eq!(
        env.token_calls,
        vec![
            TokenCall::Transfer { from: s("GS"), to: s("GC"), amount: 975 },
            TokenCall::Transfer { from: s("GS"), to: s("GTREASURY"), amount: 25 },
        ]
    );
    assert_eq!(
        env.events,
        vec![Event::TipSent {
            tip_id: 1,
            from: s("GS"),
            to: s("GC"),
            amount: 1_000,
            fee_paid: 25,
            timestamp: 1_000,
        }]
    );
    let stats = TipContract::get_protocol_stats(&env);
    assert_eq!((stats.total_tips, stats.total_volume, stats.fee_collected), (1, 1_000, 25));
}

#[test]
fn tip_without_fee_is_a_single_transfer() {
    let mut env = initialized(0);
    TipContract::tip(&mut env, s("GS"), s("GC"), 7, s("")).unwrap();
    assert_eq!(env.token_calls, vec![TokenCall::Transfer { from: s("GS"), to: s("GC"), amount: 7 }]);
}

#[test]
fn tip_to_unregistered_wallet_is_recorded_without_profile() {
    let mut env = initialized(0);
    TipContract::tip(&mut env, s("GS"), s("GC"), 7, s("")).unwrap();
    assert!(TipContract::get_profile(&env, s("GC")).is_err());
    assert_eq!(TipContract::get_tip_history(&env, s("GC"), 5).len(), 1);
    assert_eq!(TipContract::get_tip_history(&env, s("GS"), 5).len(), 1);
}

#[test]
fn tip_history_newest_first_and_limited() {
    let mut env = initialized(0);
    for amount in 1..=5 {
        TipContract::tip(&mut env, s("GS"), s("GC"), amount, s("")).unwrap();
    }
    TipContract::tip(&mut env, s("GOTHER"), s("GX"), 99, s("")).unwrap();
    let history = TipContract::get_tip_history(&env, s("GC"), 3);
    let ids: Vec<u64> = history.iter().map(|t| t.id).collect();
    assert_eq!(ids, vec![5, 4, 3]);
    assert_eq!(TipContract::get_tip_history(&env, s("GC"), 0).len(), 0);
    assert_eq!(TipContract::get_tip_history(&env, s("GC"), 100).len(), 5);
    assert_eq!(TipContract::get_tip_history(&env, s("GNOBODY"), 100).len(), 0);
}

#[test]
fn tip_to_self_is_filed_once() {
    let mut env = initialized(0);
    TipContract::tip(&mut env, s("GS"), s("GS"), 3, s("")).unwrap();
    assert_eq!(storage::tip_ids_for_wallet(&env.storage, &s("GS")), vec![1]);
}

#[test]
fn goal_completes_exactly_when_target_is_reached() {
    let mut env = initialized(0);
    TipContract::register_creator(&mut env, s("GC"), s("C"), s(""), s("")).unwrap();
    let goal_id = TipContract::set_tip_goal(&mut env, s("GC"), 100, s("mic")).unwrap();
    TipContract::tip(&mut env, s("GS"), s("GC"), 99, s("")).unwrap();
    let goal = TipContract::get_tip_goal(&env, s("GC")).unwrap();
    assert!(!goal.completed && goal.current_amount == 99);
    TipContract::tip(&mut env, s("GS"), s("GC"), 1, s("")).unwrap();
    let goal = TipContract::get_tip_goal(&env, s("GC")).unwrap();
    assert!(goal.completed && goal.current_amount == 100);
    assert!(env.events.contains(&Event::GoalReached {
        goal_id,
        creator: s("GC"),
        goal_amount: 100,
        timestamp: 1_000,
    }));
    // A completed goal no longer counts.
    TipContract::tip(&mut env, s("GS"), s("GC"), 50, s("")).unwrap();
    assert_eq!(TipContract::get_tip_goal(&env, s("GC")).unwrap().current_amount, 100);
    assert_eq!(TipContract::get_profile(&env, s("GC")).unwrap().total_received, 150);
    assert_eq!(TipContract::get_profile(&env, s("GC")).unwrap().tip_count, 3);
}

#[test]
fn new_goal_replaces_the_previous_one() {
    let mut env = initialized(0);
    TipContract::register_creator(&mut env, s("GC"), s("C"), s(""), s("")).unwrap();
    TipContract::set_tip_goal(&mut env, s("GC"), 100, s("one")).unwrap();
    let second = TipContract::set_tip_goal(&mut env, s("GC"), 200, s("two")).unwrap();
    let goal = TipContract::get_tip_goal(&env, s("GC")).unwrap();
    assert_eq!((goal.id, goal.goal_amount, goal.current_amount), (second, 200, 0));
    assert_eq!(goal.description, "two");
}

fn charge_all(env: &mut Env, allowance: i128) -> u32 {
    let mut run = TipContract::process_due_subscriptions(env).unwrap();
    while !run.is_finished() {
        TipContract::charge_next_due(env, &mut run, allowance).unwrap();
    }
    run.charged()
}

#[test]
fn subscription_first_due_a_month_later() {
    let mut env = initialized(100);
    let id = TipContract::subscribe(&mut env, s("GS"), s("GC"), 10_000).unwrap();
    let sub = storage::load_subscription(&env.storage, id).unwrap();
    assert_eq!(sub.next_charge_date, 1_000 + SECONDS_PER_MONTH);
    env.timestamp = 1_000 + SECONDS_PER_MONTH - 1;
    assert!(storage::get_due_subscriptions(&env.storage, env.timestamp).is_empty());
    env.timestamp += 1;
    assert_eq!(storage::get_due_subscriptions(&env.storage, env.timestamp).len(), 1);
    assert_eq!(charge_all(&mut env, 10_000), 1);
    assert_eq!(
        env.token_calls,
        vec![
            TokenCall::TransferFrom {
                spender: s("CCONTRACT"),
                from: s("GS"),
                to: s("GC"),
                amount: 9_900,
            },
            TokenCall::TransferFrom {
                spender: s("CCONTRACT"),
                from: s("GS"),
                to: s("GTREASURY"),
                amount: 100,
            },
        ]
    );
    let sub = storage::load_subscription(&env.storage, id).unwrap();
    assert_eq!(sub.next_charge_date, 1_000 + 2 * SECONDS_PER_MONTH);
    let stats = TipContract::get_protocol_stats(&env);
    assert_eq!((stats.total_volume, stats.fee_collected, stats.total_tips), (10_000, 100, 0));
}

#[test]
fn short_allowance_skips_and_stays_due() {
    let mut env = initialized(0);
    TipContract::subscribe(&mut env, s("GS"), s("GC"), 10_000).unwrap();
    env.timestamp += SECONDS_PER_MONTH;
    assert_eq!(charge_all(&mut env, 9_999), 0);
    assert!(env.token_calls.is_empty());
    assert_eq!(storage::get_due_subscriptions(&env.storage, env.timestamp).len(), 1);
}

#[test]
fn cancelled_subscription_is_never_charged() {
    let mut env = initialized(0);
    TipContract::register_creator(&mut env, s("GC"), s("C"), s(""), s("")).unwrap();
    let id = TipContract::subscribe(&mut env, s("GS"), s("GC"), 10).unwrap();
    TipContract::cancel_subscription(&mut env, s("GS"), id).unwrap();
    env.timestamp += 3 * SECONDS_PER_MONTH;
    assert_eq!(charge_all(&mut env, 1_000), 0);
    assert!(env.token_calls.is_empty());
    assert_eq!(TipContract::get_profile(&env, s("GC")).unwrap().subscriber_count, 0);
}

#[test]
fn cancel_before_registration_keeps_count_at_zero() {
    let mut env = initialized(0);
    let id = TipContract::subscribe(&mut env, s("GS"), s("GC"), 10).unwrap();
    TipContract::register_creator(&mut env, s("GC"), s("C"), s(""), s("")).unwrap();
    TipContract::cancel_subscription(&mut env, s("GS"), id).unwrap();
    assert_eq!(TipContract::get_profile(&env, s("GC")).unwrap().subscriber_count, 0);
}

#[test]
fn leaderboard_descending_with_ties_in_registration_order() {
    let mut env = initialized(0);
    for (w, amount) in [("GA", 10i128), ("GB", 30), ("GC", 10), ("GD", 30), ("GE", 20)] {
        TipContract::register_creator(&mut env, s(w), s(w), s(""), s("")).unwrap();
        TipContract::tip(&mut env, s("GS"), s(w), amount, s("")).unwrap();
    }
    let top = TipContract::get_top_creators(&env, 10);
    let order: Vec<&str> = top.iter().map(|e| e.wallet.as_str()).collect();
    assert_eq!(order, vec!["GB", "GD", "GE", "GA", "GC"]);
    assert_eq!(TipContract::get_top_creators(&env, 2).len(), 2);
    assert_eq!(TipContract::get_top_creators(&env, 0).len(), 0);
}

#[test]
fn stats_count_creators_tips_and_subscriptions() {
    let mut env = initialized(0);
    TipContract::register_creator(&mut env, s("GA"), s("A"), s(""), s("")).unwrap();
    TipContract::register_creator(&mut env, s("GB"), s("B"), s(""), s("")).unwrap();
    TipContract::tip(&mut env, s("GS"), s("GA"), 5, s("")).unwrap();
    TipContract::subscribe(&mut env, s("GS"), s("GB"), 5).unwrap();
    let stats = TipContract::get_protocol_stats(&env);
    assert_eq!(stats.total_creators as usize, storage::all_creator_wallets(&env.storage).len());
    assert_eq!(stats.total_tips as u64, env.storage.tip_id_counter);
    assert_eq!(stats.total_subscriptions as u64, env.storage.subscription_id_counter);
}

// ---------------------------------------------------------------------
// Storage entries
// ---------------------------------------------------------------------

fn profile(wallet: &str, id: u64) -> CreatorProfile {
    CreatorProfile {
        id,
        wallet: s(wallet),
        name: s("n"),
        bio: s("b"),
        avatar_ipfs: s("a"),
        total_received: 0,
        tip_count: 0,
        subscriber_count: 0,
        registered_at: 0,
    }
}

#[test]
fn storage_starts_empty() {
    let st = Storage::new();
    assert!(storage::load_config(&st).is_none());
    assert_eq!(storage::load_stats(&st), ProtocolStats::zero());
    assert!(storage::all_creator_wallets(&st).is_empty());
    assert!(storage::load_tip(&st, 1).is_none());
    assert!(storage::load_goal(&st, &s("GA")).is_none());
}

#[test]
fn saving_a_profile_lists_the_wallet_once() {
    let mut st = Storage::new();
    storage::save_profile(&mut st, &profile("GA", 1));
    let mut updated = profile("GA", 1);
    updated.name = s("renamed");
    storage::save_profile(&mut st, &updated);
    storage::save_profile(&mut st, &profile("GB", 2));
    assert_eq!(storage::all_creator_wallets(&st), vec![s("GA"), s("GB")]);
    assert_eq!(storage::load_profile(&st, &s("GA")).unwrap().name, "renamed");
    assert!(storage::profile_exists(&st, &s("GB")));
    assert!(!storage::profile_exists(&st, &s("GC")));
}

#[test]
fn counters_hand_out_consecutive_ids() {
    let mut st = Storage::new();
    assert_eq!(storage::next_tip_id(&mut st), 1);
    assert_eq!(storage::next_tip_id(&mut st), 2);
    assert_eq!(storage::next_profile_id(&mut st), 1);
    assert_eq!(storage::next_subscription_id(&mut st), 1);
    assert_eq!(storage::next_goal_id(&mut st), 1);
    assert_eq!(storage::next_goal_id(&mut st), 2);
}

#[test]
fn saved_tips_are_indexed_by_both_wallets() {
    let mut st = Storage::new();
    let t = Tip {
        id: 4,
        from: s("GS"),
        to: s("GC"),
        amount: 10,
        fee_paid: 0,
        message_ipfs: s(""),
        timestamp: 0,
    };
    storage::save_tip(&mut st, &t);
    assert_eq!(storage::tip_ids_for_wallet(&st, &s("GS")), vec![4]);
    assert_eq!(storage::tip_ids_for_wallet(&st, &s("GC")), vec![4]);
    assert_eq!(storage::load_tip(&st, 4).unwrap(), t);
}

fn subscription(id: u64, next: u64, active: bool) -> Subscription {
    Subscription {
        id,
        supporter: s("GS"),
        creator: s("GC"),
        amount_per_month: 10,
        next_charge_date: next,
        active,
        created_at: 0,
    }
}

#[test]
fn due_subscriptions_are_active_and_past_their_date_in_creation_order() {
    let mut st = Storage::new();
    for sub in [subscription(1, 50, true), subscription(2, 10, true), subscription(3, 5, false), subscription(4, 200, true)] {
        storage::save_subscription(&mut st, &sub);
        storage::index_new_subscription(&mut st, &sub);
    }
    let due: Vec<u64> = storage::get_due_subscriptions(&st, 100).iter().map(|x| x.id).collect();
    assert_eq!(due, vec![1, 2]);
    assert_eq!(storage::subscription_ids_by_supporter(&st, &s("GS")), vec![1, 2, 3, 4]);
    assert_eq!(storage::subscription_ids_by_creator(&st, &s("GC")), vec![1, 2, 3, 4]);
    assert!(storage::subscription_ids_by_creator(&st, &s("GS")).is_empty());
}

#[test]
fn cancelling_in_storage() {
    let mut st = Storage::new();
    assert!(storage::cancel_subscription_storage(&mut st, 9).is_none());
    storage::save_subscription(&mut st, &subscription(9, 0, true));
    let cancelled = storage::cancel_subscription_storage(&mut st, 9).unwrap();
    assert!(!cancelled.active);
    assert!(!storage::load_subscription(&st, 9).unwrap().active);
}

#[test]
fn goals_are_kept_per_creator() {
    let mut st = Storage::new();
    let goal = TipGoal {
        id: 1,
        creator: s("GC"),
        goal_amount: 5,
        current_amount: 0,
        description: s("d"),
        completed: false,
        created_at: 0,
    };
    storage::save_goal(&mut st, &goal);
    assert_eq!(storage::load_goal(&st, &s("GC")).unwrap(), goal);
    assert!(storage::load_goal(&st, &s("GD")).is_none());
}

#[test]
fn stats_update_applies_the_change() {
    let mut st = Storage::new();
    storage::update_protocol_stats(&mut st, |stats: ProtocolStats| ProtocolStats {
        total_tips: stats.total_tips + 3,
        ..stats
    });
    assert_eq!(storage::load_stats(&st).total_tips, 3);
    assert_eq!(storage::load_stats(&st).total_volume, 0);
}

#[test]
fn wallet_index_holds_ids_in_order() {
    let entry = WalletIndex { wallet: s("GA"), ids: vec![1, 2] };
    assert_eq!(storage::copy_ids(&entry.ids), vec![1, 2]);
}

// ---------------------------------------------------------------------
// Events
// ---------------------------------------------------------------------

#[test]
fn each_event_function_publishes_one_event() {
    let mut env = Env::new(5, s("CCONTRACT"));
    events::creator_registered(&mut env, 1, &s("GA"), &s("A"), 5);
    events::tip_sent(&mut env, 2, &s("GA"), &s("GB"), 10, 1, 5);
    events::subscription_created(&mut env, 3, &s("GA"), &s("GB"), 10, 99);
    events::subscription_charged(&mut env, 3, &s("GA"), &s("GB"), 10, 6);
    events::subscription_cancelled(&mut env, 3, &s("GA"), &s("GB"), 7);
    events::goal_set(&mut env, 4, &s("GB"), 100, &s("d"));
    events::goal_reached(&mut env, 4, &s("GB"), 100, 8);
    events::fee_updated(&mut env, 0, 10, &s("GADMIN"));
    assert_eq!(env.events.len(), 8);
    assert_eq!(env.events[0], Event::CreatorRegistered { profile_id: 1, wallet: s("GA"), name: s("A"), timestamp: 5 });
    assert_eq!(
        env.events[2],
        Event::SubscriptionCreated {
            subscription_id: 3,
            supporter: s("GA"),
            creator: s("GB"),
            amount_per_month: 10,
            next_charge_date: 99,
        }
    );
    assert_eq!(env.events[7], Event::FeeUpdated { old_fee: 0, new_fee: 10, admin: s("GADMIN") });
    assert!(env.token_calls.is_empty());
}

#[test]
fn next_id_counts_up_from_the_stored_value() {
    let mut counter: u64 = 0;
    assert_eq!(storage::next_id(&mut counter), 1);
    assert_eq!(storage::next_id(&mut counter), 2);
    assert_eq!(storage::next_id(&mut counter), 3);
    assert_eq!(counter, 3);
    let mut other: u64 = 41;
    assert_eq!(storage::next_id(&mut other), 42);
    assert_eq!(counter, 3);
}

#[test]
fn pass_after_cancel_charges_only_the_others() {
    let mut env = initialized(0);
    let cancelled = TipContract::subscribe(&mut env, s("GS"), s("GC"), 10).unwrap();
    TipContract::cancel_subscription(&mut env, s("GS"), cancelled).unwrap();
    let kept = TipContract::subscribe(&mut env, s("GS"), s("GD"), 20).unwrap();
    let before = storage::load_subscription(&env.storage, cancelled).unwrap();
    env.timestamp += SECONDS_PER_MONTH;
    let mut run = TipContract::process_due_subscriptions(&env).unwrap();
    assert!(run.due.iter().all(|x| x.id != cancelled));
    while !run.is_finished() {
        TipContract::charge_next_due(&mut env, &mut run, 1_000).unwrap();
    }
    assert_eq!(run.charged(), 1);
    assert_eq!(
        env.token_calls,
        vec![TokenCall::TransferFrom { spender: s("CCONTRACT"), from: s("GS"), to: s("GD"), amount: 20 }]
    );
    assert_eq!(storage::load_subscription(&env.storage, cancelled).unwrap(), before);
    assert!(storage::load_subscription(&env.storage, kept).unwrap().active);
}

#[test]
fn subscription_lists_hold_every_subscription_once() {
    let mut env = initialized(0);
    let a = TipContract::subscribe(&mut env, s("GS"), s("GC"), 10).unwrap();
    let b = TipContract::subscribe(&mut env, s("GT"), s("GC"), 10).unwrap();
    let c = TipContract::subscribe(&mut env, s("GS"), s("GD"), 10).unwrap();
    let by_s: Vec<u64> = TipContract::get_subscriptions_by_supporter(&env, s("GS")).iter().map(|x| x.id).collect();
    let by_c: Vec<u64> = TipContract::get_subscriptions_by_creator(&env, s("GC")).iter().map(|x| x.id).collect();
    assert_eq!(by_s, vec![a, c]);
    assert_eq!(by_c, vec![a, b]);
}
