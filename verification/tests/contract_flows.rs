use std::collections::HashMap;

use tip::types::SECONDS_PER_MONTH;
use tip::{Env, TipContract, TokenCall};

/// A token ledger that carries out the movements an invocation requests.
struct Token {
    balances: HashMap<String, i128>,
    allowances: HashMap<(String, String), i128>,
    applied: usize,
}

impl Token {
    fn new() -> Token {
        Token { balances: HashMap::new(), allowances: HashMap::new(), applied: 0 }
    }

    fn mint(&mut self, to: &str, amount: i128) {
        *self.balances.entry(to.to_string()).or_insert(0) += amount;
    }

    fn balance(&self, who: &str) -> i128 {
        *self.balances.get(who).unwrap_or(&0)
    }

    fn approve(&mut self, from: &str, spender: &str, amount: i128) {
        self.allowances.insert((from.to_string(), spender.to_string()), amount);
    }

    fn allowance(&self, from: &str, spender: &str) -> i128 {
        *self.allowances.get(&(from.to_string(), spender.to_string())).unwrap_or(&0)
    }

    fn move_funds(&mut self, from: &str, to: &str, amount: i128) {
        assert!(amount >= 0);
        assert!(self.balance(from) >= amount, "insufficient balance");
        *self.balances.entry(from.to_string()).or_insert(0) -= amount;
        *self.balances.entry(to.to_string()).or_insert(0) += amount;
    }

    fn settle(&mut self, env: &Env) {
        while self.applied < env.token_calls.len() {
            match &env.token_calls[self.applied] {
                TokenCall::Transfer { from, to, amount } => {
                    let (from, to, amount) = (from.clone(), to.clone(), *amount);
                    self.move_funds(&from, &to, amount);
                }
                TokenCall::TransferFrom { spender, from, to, amount } => {
                    let (spender, from, to, amount) =
                        (spender.clone(), from.clone(), to.clone(), *amount);
                    let allowed = self.allowance(&from, &spender);
                    assert!(allowed >= amount, "insufficient allowance");
                    self.approve(&from, &spender, allowed - amount);
                    self.move_funds(&from, &to, amount);
                }
            }
            self.applied += 1;
        }
    }
}

struct TestCtx {
    env: Env,
    token: Token,
    admin: String,
    treasury: String,
}

const CONTRACT: &str = "CCONTRACT";

fn setup(fee_basis_points: u32) -> TestCtx {
    let mut env = Env::new(0, CONTRACT.to_string());
    let admin = "GADMIN".to_string();
    let treasury = "GTREASURY".to_string();
    TipContract::initialize(
        &mut env,
        admin.clone(),
        fee_basis_points,
        treasury.clone(),
        "CTOKEN".to_string(),
    )
    .unwrap();
    TestCtx { env, token: Token::new(), admin, treasury }
}

fn name(s: &str) -> String {
    s.to_string()
}

fn register(ctx: &mut TestCtx, wallet: &str, n: &str, bio: &str, avatar: &str) -> u64 {
    TipContract::register_creator(&mut ctx.env, name(wallet), name(n), name(bio), name(avatar)).unwrap()
}

fn tip(ctx: &mut TestCtx, from: &str, to: &str, amount: i128, message: &str) -> u64 {
    let id = TipContract::tip(&mut ctx.env, name(from), name(to), amount, name(message)).unwrap();
    ctx.token.settle(&ctx.env);
    id
}

fn process_due_subscriptions(ctx: &mut TestCtx) -> u32 {
    let mut run = TipContract::process_due_subscriptions(&ctx.env).unwrap();
    while !run.is_finished() {
        let supporter = run.current().supporter.clone();
        let allowance = ctx.token.allowance(&supporter, CONTRACT);
        TipContract::charge_next_due(&mut ctx.env, &mut run, allowance).unwrap();
        ctx.token.settle(&ctx.env);
    }
    run.charged()
}

#[test]
fn test_register_creator_success() {
    let mut ctx = setup(0);
    let creator = "GCREATOR";

    let id = register(&mut ctx, creator, "Ada", "Building on Stellar", "ipfs://avatar");

    assert_eq!(id, 1);
    let profile = TipContract::get_profile(&ctx.env, name(creator)).unwrap();
    assert_eq!(profile.wallet, creator);
    assert_eq!(profile.name, name("Ada"));
    assert_eq!(profile.total_received, 0);
    assert_eq!(profile.tip_count, 0);
}

#[test]
fn test_update_profile() {
    let mut ctx = setup(0);
    let creator = "GCREATOR";

    register(&mut ctx, creator, "Ada", "Old bio", "ipfs://old");
    TipContract::update_profile(
        &mut ctx.env,
        name(creator),
        name("Ada Lovelace"),
        name("New bio"),
        name("ipfs://new"),
    )
    .unwrap();

    let profile = TipContract::get_profile(&ctx.env, name(creator)).unwrap();
    assert_eq!(profile.name, name("Ada Lovelace"));
    assert_eq!(profile.bio, name("New bio"));
    assert_eq!(profile.avatar_ipfs, name("ipfs://new"));
}

#[test]
fn test_tip_direct_transfer() {
    let mut ctx = setup(0);
    let supporter = "GSUPPORTER";
    let creator = "GCREATOR";

    ctx.token.mint(supporter, 10_000_000_000);
    register(&mut ctx, creator, "Bob", "bio", "");

    tip(&mut ctx, supporter, creator, 100_0000000, "");

    assert_eq!(ctx.token.balance(creator), 100_0000000);
    assert_eq!(ctx.token.balance(supporter), 900_0000000);
}

#[test]
fn test_tip_with_fee() {
    let mut ctx = setup(250); // 2.5%
    let supporter = "GSUPPORTER";
    let creator = "GCREATOR";

    ctx.token.mint(supporter, 10_000_000_000);
    register(&mut ctx, creator, "Bob", "bio", "");

    tip(&mut ctx, supporter, creator, 100_0000000, "");

    let expected_fee = 100_0000000i128 * 250 / 10_000;
    assert_eq!(ctx.token.balance(&ctx.treasury), expected_fee);
    assert_eq!(ctx.token.balance(creator), 100_0000000 - expected_fee);
}

#[test]
fn test_tip_without_fee() {
    let mut ctx = setup(0);
    let supporter = "GSUPPORTER";
    let creator = "GCREATOR";

    ctx.token.mint(supporter, 500_0000000);
    register(&mut ctx, creator, "Bob", "bio", "");

    tip(&mut ctx, supporter, creator, 50_0000000, "");

    assert_eq!(ctx.token.balance(&ctx.treasury), 0);
    assert_eq!(ctx.token.balance(creator), 50_0000000);
}

#[test]
fn test_tip_message_stored() {
    let mut ctx = setup(0);
    let supporter = "GSUPPORTER";
    let creator = "GCREATOR";

    ctx.token.mint(supporter, 100_0000000);
    register(&mut ctx, creator, "Bob", "bio", "");
    tip(&mut ctx, supporter, creator, 10_0000000, "ipfs://message-hash");

    let history = TipContract::get_tip_history(&ctx.env, name(creator), 10);
    assert_eq!(history.len(), 1);
    assert_eq!(history[0].message_ipfs, name("ipfs://message-hash"));
}

#[test]
fn test_subscribe_success() {
    let mut ctx = setup(0);
    let supporter = "GSUPPORTER";
    let creator = "GCREATOR";
    register(&mut ctx, creator, "Bob", "bio", "");

    let id = TipContract::subscribe(&mut ctx.env, name(supporter), name(creator), 5_0000000).unwrap();
    assert_eq!(id, 1);

    let subs = TipContract::get_subscriptions_by_supporter(&ctx.env, name(supporter));
    assert_eq!(subs.len(), 1);
    let sub = &subs[0];
    assert!(sub.active);
    assert_eq!(sub.amount_per_month, 5_0000000);

    let profile = TipContract::get_profile(&ctx.env, name(creator)).unwrap();
    assert_eq!(profile.subscriber_count, 1);
}

#[test]
fn test_subscription_charged_on_schedule() {
    let mut ctx = setup(0);
    let supporter = "GSUPPORTER";
    let creator = "GCREATOR";
    register(&mut ctx, creator, "Bob", "bio", "");

    ctx.token.mint(supporter, 10_000_000_000);
    ctx.token.approve(supporter, CONTRACT, 100_0000000);

    TipContract::subscribe(&mut ctx.env, name(supporter), name(creator), 10_0000000).unwrap();

    // Nothing due yet.
    let charged = process_due_subscriptions(&mut ctx);
    assert_eq!(charged, 0);
    assert_eq!(ctx.token.balance(creator), 0);

    ctx.env.timestamp += SECONDS_PER_MONTH;

    let charged = process_due_subscriptions(&mut ctx);
    assert_eq!(charged, 1);
    assert_eq!(ctx.token.balance(creator), 10_0000000);

    let subs = TipContract::get_subscriptions_by_creator(&ctx.env, name(creator));
    let sub = &subs[0];
    assert!(sub.next_charge_date > ctx.env.timestamp);
}

#[test]
fn test_cancel_subscription() {
    let mut ctx = setup(0);
    let supporter = "GSUPPORTER";
    let creator = "GCREATOR";
    register(&mut ctx, creator, "Bob", "bio", "");

    let id = TipContract::subscribe(&mut ctx.env, name(supporter), name(creator), 5_0000000).unwrap();
    TipContract::cancel_subscription(&mut ctx.env, name(supporter), id).unwrap();

    let subs = TipContract::get_subscriptions_by_supporter(&ctx.env, name(supporter));
    assert!(!subs[0].active);

    let profile = TipContract::get_profile(&ctx.env, name(creator)).unwrap();
    assert_eq!(profile.subscriber_count, 0);

    let result = TipContract::cancel_subscription(&mut ctx.env, name(supporter), id);
    assert!(result.is_err());
}

#[test]
fn test_process_due_subscriptions_charges_correct_wallets() {
    let mut ctx = setup(0);
    let creator_a = "GCREATORA";
    let creator_b = "GCREATORB";
    let supporter_a = "GSUPPORTERA";
    let supporter_b = "GSUPPORTERB";

    register(&mut ctx, creator_a, "A", "", "");
    register(&mut ctx, creator_b, "B", "", "");

    ctx.token.mint(supporter_a, 10_000_000_000);
    ctx.token.mint(supporter_b, 10_000_000_000);
    ctx.token.approve(supporter_a, CONTRACT, 10_000_000_000);
    ctx.token.approve(supporter_b, CONTRACT, 10_000_000_000);

    TipContract::subscribe(&mut ctx.env, name(supporter_a), name(creator_a), 20_0000000).unwrap();
    TipContract::subscribe(&mut ctx.env, name(supporter_b), name(creator_b), 30_0000000).unwrap();

    ctx.env.timestamp += SECONDS_PER_MONTH;
    let charged = process_due_subscriptions(&mut ctx);

    assert_eq!(charged, 2);
    assert_eq!(ctx.token.balance(creator_a), 20_0000000);
    assert_eq!(ctx.token.balance(creator_b), 30_0000000);
    assert_eq!(ctx.token.balance(supporter_a), 980_0000000);
    assert_eq!(ctx.token.balance(supporter_b), 970_0000000);
}

#[test]
fn test_set_and_reach_tip_goal() {
    let mut ctx = setup(0);
    let creator = "GCREATOR";
    let supporter = "GSUPPORTER";

    register(&mut ctx, creator, "Bob", "bio", "");
    let goal_id =
        TipContract::set_tip_goal(&mut ctx.env, name(creator), 100_0000000, name("New microphone"))
            .unwrap();

    let goal = TipContract::get_tip_goal(&ctx.env, name(creator)).unwrap();
    assert_eq!(goal.id, goal_id);
    assert!(!goal.completed);

    ctx.token.mint(supporter, 200_0000000);
    tip(&mut ctx, supporter, creator, 60_0000000, "");
    assert!(!TipContract::get_tip_goal(&ctx.env, name(creator)).unwrap().completed);

    tip(&mut ctx, supporter, creator, 50_0000000, "");
    let goal = TipContract::get_tip_goal(&ctx.env, name(creator)).unwrap();
    assert!(goal.completed);
    assert!(goal.current_amount >= goal.goal_amount);
}

#[test]
fn test_get_top_creators_ordered_by_volume() {
    let mut ctx = setup(0);
    let creator_a = "GCREATORA";
    let creator_b = "GCREATORB";
    let creator_c = "GCREATORC";
    let supporter = "GSUPPORTER";

    register(&mut ctx, creator_a, "A", "", "");
    register(&mut ctx, creator_b, "B", "", "");
    register(&mut ctx, creator_c, "C", "", "");

    ctx.token.mint(supporter, 10_000_000_000);
    tip(&mut ctx, supporter, creator_a, 10_0000000, "");
    tip(&mut ctx, supporter, creator_b, 50_0000000, "");
    tip(&mut ctx, supporter, creator_c, 30_0000000, "");

    let top = TipContract::get_top_creators(&ctx.env, 2);
    assert_eq!(top.len(), 2);
    assert_eq!(top[0].wallet, creator_b);
    assert_eq!(top[1].wallet, creator_c);
}

#[test]
fn test_protocol_stats_accurate() {
    let mut ctx = setup(100); // 1%
    let creator = "GCREATOR";
    let supporter = "GSUPPORTER";

    register(&mut ctx, creator, "Bob", "bio", "");
    ctx.token.mint(supporter, 10_000_000_000);

    tip(&mut ctx, supporter, creator, 100_0000000, "");
    tip(&mut ctx, supporter, creator, 50_0000000, "");
    TipContract::subscribe(&mut ctx.env, name(supporter), name(creator), 5_0000000).unwrap();

    let stats = TipContract::get_protocol_stats(&ctx.env);
    assert_eq!(stats.total_tips, 2);
    assert_eq!(stats.total_volume, 150_0000000);
    assert_eq!(stats.total_creators, 1);
    assert_eq!(stats.total_subscriptions, 1);
    assert_eq!(stats.fee_collected, 150_0000000i128 * 100 / 10_000);
}

#[test]
fn test_unauthorized_fee_update_rejected() {
    let mut ctx = setup(0);
    let attacker = "GATTACKER";

    let result = TipContract::update_fee(&mut ctx.env, name(attacker), 500);
    assert!(result.is_err());
    assert_eq!(TipContract::get_fee(&ctx.env).unwrap(), 0);

    TipContract::update_fee(&mut ctx.env, ctx.admin.clone(), 300).unwrap();
    assert_eq!(TipContract::get_fee(&ctx.env).unwrap(), 300);
}
