//! Properties of the contract that span invocations or hold of every
//! result, proved over the specifications of the entry points.
use vstd::prelude::*;

use crate::contract::{
    cancel_subscription_spec, charge_spec, complete_tip_goal_spec, due_run_started, entry_of,
    fee_for, fits_i128, DueRun,
    initialize_spec, insert_desc, leaderboard_entries, min_nat, present_among, recent_tips,
    register_creator_spec, set_tip_goal_spec, sort_desc, subscribe_spec, tip_spec, top_creators,
    update_fee_spec, update_profile_spec,
};
use crate::env::{Env, EnvView, TokenCall};
use crate::errors::{Error, Failure};
use crate::events::Event;
use crate::storage::{
    due_among, empty_view, ids_in, index_push, lemma_records_under_own_keys, Storage, StorageView,
};
use crate::types::{
    Config, CreatorProfile, LeaderboardEntry, Subscription, Tip, TipGoal, MAX_FEE_BASIS_POINTS,
    SECONDS_PER_MONTH,
};

verus! {

broadcast use vstd::multiset::group_multiset_axioms, vstd::seq_lib::group_to_multiset_ensures;

/// Rows ordered by total received, descending.
pub open spec fn sorted_desc(s: Seq<LeaderboardEntry>) -> bool {
    forall|i: int, j: int|
        0 <= i < j < s.len() ==> #[trigger] s[i].total_received >= #[trigger] s[j].total_received
}

proof fn lemma_insert_desc_floor(sorted: Seq<LeaderboardEntry>, x: LeaderboardEntry, b: i128)
    requires
        forall|k: int| 0 <= k < sorted.len() ==> #[trigger] sorted[k].total_received >= b,
        x.total_received >= b,
    ensures
        forall|k: int|
            0 <= k < insert_desc(sorted, x).len() ==> #[trigger] insert_desc(sorted, x)[k].total_received
                >= b,
        insert_desc(sorted, x).len() == sorted.len() + 1,
    decreases sorted.len(),
{
    if sorted.len() > 0 && sorted.last().total_received < x.total_received {
        lemma_insert_desc_floor(sorted.drop_last(), x, b);
    }
}

proof fn lemma_insert_desc_sorted(sorted: Seq<LeaderboardEntry>, x: LeaderboardEntry)
    requires
        sorted_desc(sorted),
    ensures
        sorted_desc(insert_desc(sorted, x)),
        insert_desc(sorted, x).to_multiset() == sorted.to_multiset().insert(x),
        insert_desc(sorted, x).len() == sorted.len() + 1,
    decreases sorted.len(),
{
    if sorted.len() == 0 {
        assert(seq![x] =~= Seq::<LeaderboardEntry>::empty().push(x));
    } else if sorted.last().total_received < x.total_received {
        let init = sorted.drop_last();
        let last = sorted.last();
        lemma_insert_desc_sorted(init, x);
        lemma_insert_desc_floor(init, x, last.total_received);
        let r = insert_desc(init, x);
        assert(sorted =~= init.push(last));
        assert(insert_desc(sorted, x) == r.push(last));
        assert forall|i: int, j: int|
            0 <= i < j < r.push(last).len() implies #[trigger] r.push(last)[i].total_received
            >= #[trigger] r.push(last)[j].total_received by {
            if j == r.len() {
                assert(r[i].total_received >= last.total_received);
            } else {
                assert(r[i] == r.push(last)[i]);
                assert(r[j] == r.push(last)[j]);
            }
        }
        assert(r.push(last).to_multiset() =~= sorted.to_multiset().insert(x));
    } else {
        assert forall|i: int, j: int|
            0 <= i < j < sorted.push(x).len() implies #[trigger] sorted.push(x)[i].total_received
            >= #[trigger] sorted.push(x)[j].total_received by {
            if j == sorted.len() {
                if i < sorted.len() - 1 {
                    assert(sorted[i].total_received >= sorted[sorted.len() - 1].total_received);
                }
            } else {
                assert(sorted[i] == sorted.push(x)[i]);
                assert(sorted[j] == sorted.push(x)[j]);
            }
        }
    }
}

/// The leaderboard order is descending by total received, and it holds
/// exactly the rows it was given (the same rows, as many times each).
pub proof fn lemma_sort_desc_is_sorted_permutation(s: Seq<LeaderboardEntry>)
    ensures
        sorted_desc(sort_desc(s)),
        sort_desc(s).to_multiset() == s.to_multiset(),
        sort_desc(s).len() == s.len(),
    decreases s.len(),
{
    if s.len() > 0 {
        lemma_sort_desc_is_sorted_permutation(s.drop_last());
        lemma_insert_desc_sorted(sort_desc(s.drop_last()), s.last());
        assert(s =~= s.drop_last().push(s.last()));
    }
}

/// `get_top_creators` lists `min(limit, n)` rows of the `n` registered
/// creators, each one of them, descending by total received, and no row
/// left out received more than a row listed.
pub proof fn lemma_top_creators(st: crate::storage::StorageView, limit: nat)
    ensures
        ({
            let all = leaderboard_entries(st.creator_list, st.profiles);
            let top = top_creators(st, limit);
            &&& top.len() == min_nat(limit, all.len())
            &&& sorted_desc(top)
            &&& forall|k: int| 0 <= k < top.len() ==> all.contains(#[trigger] top[k])
            &&& forall|k: int, m: int|
                0 <= k < top.len() && top.len() <= m < all.len() ==> #[trigger] top[k].total_received
                    >= #[trigger] sort_desc(all)[m].total_received
            &&& sort_desc(all).to_multiset() == all.to_multiset()
        }),
{
    let all = leaderboard_entries(st.creator_list, st.profiles);
    let sorted = sort_desc(all);
    lemma_sort_desc_is_sorted_permutation(all);
    let top = top_creators(st, limit);
    assert forall|k: int| 0 <= k < top.len() implies all.contains(#[trigger] top[k]) by {
        assert(top[k] == sorted[k]);
        assert(sorted.to_multiset().count(sorted[k]) > 0);
    }
    assert forall|k: int, m: int|
        0 <= k < top.len() && top.len() <= m < all.len() implies #[trigger] top[k].total_received
        >= #[trigger] sort_desc(all)[m].total_received by {
        assert(top[k] == sorted[k]);
    }
    assert forall|i: int, j: int|
        0 <= i < j < top.len() implies #[trigger] top[i].total_received
        >= #[trigger] top[j].total_received by {
        assert(top[i] == sorted[i]);
        assert(top[j] == sorted[j]);
    }
}

// ---------------------------------------------------------------------
// The invariant every entry point keeps
// ---------------------------------------------------------------------

/// Records are filed under their own keys, and tip and subscription ids
/// come from their counters.
pub open spec fn keys_consistent(st: StorageView) -> bool {
    &&& forall|w: Seq<char>| #[trigger] st.profiles.contains_key(w) ==> st.profiles[w].wallet@ == w
    &&& forall|w: Seq<char>| #[trigger] st.goals.contains_key(w) ==> st.goals[w].creator@ == w
    &&& forall|id: u64| #[trigger]
        st.tips.contains_key(id) ==> st.tips[id].id == id && 1 <= id <= st.tip_id_counter
    &&& forall|id: u64| #[trigger]
        st.subscriptions.contains_key(id) ==> st.subscriptions[id].id == id && 1 <= id
            <= st.subscription_id_counter
}

/// The statistics count what was recorded: one creator per registration
/// (each registered wallet listed once for the leaderboard), one tip per
/// tip id and one subscription per subscription id.
pub open spec fn stats_consistent(st: StorageView) -> bool {
    &&& st.stats.total_creators == st.creator_list.len()
    &&& st.creator_list.len() == st.profile_id_counter
    &&& st.stats.total_tips == st.tip_id_counter
    &&& st.stats.total_subscriptions == st.subscription_id_counter
}

/// A goal that is still open has not reached its target.
pub open spec fn open_goals_below_target(st: StorageView) -> bool {
    forall|w: Seq<char>| #[trigger]
        st.goals.contains_key(w) && !st.goals[w].completed ==> st.goals[w].current_amount
            < st.goals[w].goal_amount
}

/// The ids filed under each wallet are increasing.
pub open spec fn index_increasing(m: Map<Seq<char>, Seq<u64>>) -> bool {
    forall|w: Seq<char>, i: int, j: int|
        0 <= i < j < ids_in(m, w).len() ==> #[trigger] ids_in(m, w)[i] < #[trigger] ids_in(m, w)[j]
}

/// Each tip filed under a wallet exists and was sent or received by it.
pub open spec fn tip_index_sound(st: StorageView) -> bool {
    &&& index_increasing(st.tips_by_wallet)
    &&& forall|w: Seq<char>, k: int|
        0 <= k < ids_in(st.tips_by_wallet, w).len() ==> {
            let id = #[trigger] ids_in(st.tips_by_wallet, w)[k];
            &&& st.tips.contains_key(id)
            &&& (st.tips[id].from@ == w || st.tips[id].to@ == w)
        }
}

/// Each listed subscription id has a record, and each subscription filed
/// under a supporter or a creator exists and belongs to it.
pub open spec fn subscription_indexes_sound(st: StorageView) -> bool {
    &&& index_increasing(st.subs_by_supporter)
    &&& index_increasing(st.subs_by_creator)
    &&& forall|k: int|
        0 <= k < st.subscription_ids.len() ==> st.subscriptions.contains_key(
            #[trigger] st.subscription_ids[k],
        )
    &&& forall|w: Seq<char>, k: int|
        0 <= k < ids_in(st.subs_by_supporter, w).len() ==> {
            let id = #[trigger] ids_in(st.subs_by_supporter, w)[k];
            &&& st.subscriptions.contains_key(id)
            &&& st.subscriptions[id].supporter@ == w
        }
    &&& forall|w: Seq<char>, k: int|
        0 <= k < ids_in(st.subs_by_creator, w).len() ==> {
            let id = #[trigger] ids_in(st.subs_by_creator, w)[k];
            &&& st.subscriptions.contains_key(id)
            &&& st.subscriptions[id].creator@ == w
        }
}

/// Every recorded tip is filed under its sender and under its recipient.
pub open spec fn tips_filed(st: StorageView) -> bool {
    forall|id: u64| #[trigger]
        st.tips.contains_key(id) ==> {
            &&& ids_in(st.tips_by_wallet, st.tips[id].from@).contains(id)
            &&& ids_in(st.tips_by_wallet, st.tips[id].to@).contains(id)
        }
}

/// Every recorded subscription is listed, and filed under its supporter
/// and under its creator.
pub open spec fn subscriptions_filed(st: StorageView) -> bool {
    forall|id: u64| #[trigger]
        st.subscriptions.contains_key(id) ==> {
            &&& st.subscription_ids.contains(id)
            &&& ids_in(st.subs_by_supporter, st.subscriptions[id].supporter@).contains(id)
            &&& ids_in(st.subs_by_creator, st.subscriptions[id].creator@).contains(id)
        }
}

/// Some wallet of the list is `w`.
pub open spec fn is_listed(list: Seq<String>, w: Seq<char>) -> bool {
    exists|k: int| 0 <= k < list.len() && #[trigger] list[k]@ == w
}

/// The leaderboard's list of wallets holds exactly the registered creators.
pub open spec fn creators_listed(st: StorageView) -> bool {
    &&& forall|k: int|
        0 <= k < st.creator_list.len() ==> st.profiles.contains_key(#[trigger] st.creator_list[k]@)
    &&& forall|w: Seq<char>| #[trigger]
        st.profiles.contains_key(w) ==> is_listed(st.creator_list, w)
}

/// What holds of the contract's state from deployment on, whatever
/// sequence of invocations it went through.
pub open spec fn contract_invariant(st: StorageView) -> bool {
    &&& (st.config matches Some(c) ==> c.fee_basis_points <= MAX_FEE_BASIS_POINTS)
    &&& keys_consistent(st)
    &&& creators_listed(st)
    &&& stats_consistent(st)
    &&& open_goals_below_target(st)
    &&& tip_index_sound(st)
    &&& tips_filed(st)
    &&& subscription_indexes_sound(st)
    &&& subscriptions_filed(st)
}

/// A freshly deployed contract satisfies the invariant.
pub proof fn lemma_invariant_at_deployment()
    ensures
        contract_invariant(empty_view()),
{
    let st = empty_view();
    assert forall|w: Seq<char>| ids_in(st.tips_by_wallet, w) == Seq::<u64>::empty() by {}
    assert forall|w: Seq<char>| ids_in(st.subs_by_supporter, w) == Seq::<u64>::empty() by {}
    assert forall|w: Seq<char>| ids_in(st.subs_by_creator, w) == Seq::<u64>::empty() by {}
}

/// The ids filed under `w` after `id` is filed under `w0`.
pub proof fn lemma_ids_in_push(m: Map<Seq<char>, Seq<u64>>, w0: Seq<char>, id: u64, w: Seq<char>)
    ensures
        ids_in(index_push(m, w0, id), w) == if w == w0 {
            ids_in(m, w0).push(id)
        } else {
            ids_in(m, w)
        },
{
}

/// `initialize` keeps the invariant.
pub proof fn lemma_initialize_keeps_invariant(
    s: EnvView,
    admin: String,
    fee_basis_points: u32,
    treasury: String,
    token: String,
)
    requires
        contract_invariant(s.storage),
    ensures
        contract_invariant(initialize_spec(s, admin, fee_basis_points, treasury, token).0.storage),
{
}

/// `update_fee` keeps the invariant.
pub proof fn lemma_update_fee_keeps_invariant(s: EnvView, admin: String, fee_basis_points: u32)
    requires
        contract_invariant(s.storage),
    ensures
        contract_invariant(update_fee_spec(s, admin, fee_basis_points).0.storage),
{
}

/// `register_creator` keeps the invariant.
pub proof fn lemma_register_creator_keeps_invariant(
    s: EnvView,
    wallet: String,
    name: String,
    bio: String,
    avatar_ipfs: String,
)
    requires
        contract_invariant(s.storage),
    ensures
        contract_invariant(register_creator_spec(s, wallet, name, bio, avatar_ipfs).0.storage),
{
    let st = s.storage;
    let post = register_creator_spec(s, wallet, name, bio, avatar_ipfs).0.storage;
    if post != st {
        let list = st.creator_list;
        assert(post.creator_list == list.push(wallet));
        assert forall|w: Seq<char>| #[trigger] post.profiles.contains_key(w) implies is_listed(
            post.creator_list,
            w,
        ) by {
            if w == wallet@ {
                assert(post.creator_list[list.len() as int]@ == w);
            } else {
                let k = choose|k: int| 0 <= k < list.len() && #[trigger] list[k]@ == w;
                assert(post.creator_list[k] == list[k]);
            }
        }
        assert forall|k: int| 0 <= k < post.creator_list.len() implies post.profiles.contains_key(
            #[trigger] post.creator_list[k]@,
        ) by {
            if k < list.len() {
                assert(post.creator_list[k] == list[k]);
            }
        }
    }
}

/// `update_profile` keeps the invariant.
pub proof fn lemma_update_profile_keeps_invariant(
    s: EnvView,
    wallet: String,
    name: String,
    bio: String,
    avatar_ipfs: String,
)
    requires
        contract_invariant(s.storage),
    ensures
        contract_invariant(update_profile_spec(s, wallet, name, bio, avatar_ipfs).0.storage),
{
}

/// `set_tip_goal` keeps the invariant.
pub proof fn lemma_set_tip_goal_keeps_invariant(
    s: EnvView,
    creator: String,
    goal_amount: i128,
    description: String,
)
    requires
        contract_invariant(s.storage),
    ensures
        contract_invariant(set_tip_goal_spec(s, creator, goal_amount, description).0.storage),
{
}

/// `complete_tip_goal` keeps the invariant.
pub proof fn lemma_complete_tip_goal_keeps_invariant(s: EnvView, creator: String, goal_id: u64)
    requires
        contract_invariant(s.storage),
    ensures
        contract_invariant(complete_tip_goal_spec(s, creator, goal_id).0.storage),
{
}

/// `cancel_subscription` keeps the invariant.
pub proof fn lemma_cancel_subscription_keeps_invariant(s: EnvView, from: String, subscription_id: u64)
    requires
        contract_invariant(s.storage),
    ensures
        contract_invariant(cancel_subscription_spec(s, from, subscription_id).0.storage),
{
}

/// Appending keeps what a list of ids contains, and adds the new id.
pub proof fn lemma_push_contains(ids: Seq<u64>, id: u64, x: u64)
    ensures
        ids.push(id).contains(id),
        ids.contains(x) ==> ids.push(id).contains(x),
{
    assert(ids.push(id)[ids.len() as int] == id);
    if ids.contains(x) {
        let k = choose|k: int| 0 <= k < ids.len() && ids[k] == x;
        assert(ids.push(id)[k] == x);
    }
}

/// `tip` keeps the invariant.
pub proof fn lemma_tip_keeps_invariant(
    s: EnvView,
    from: String,
    to: String,
    amount: i128,
    message_ipfs: String,
)
    requires
        contract_invariant(s.storage),
    ensures
        contract_invariant(tip_spec(s, from, to, amount, message_ipfs).0.storage),
{
    let st = s.storage;
    let post = tip_spec(s, from, to, amount, message_ipfs).0.storage;
    if post != st {
        let id = (st.tip_id_counter + 1) as u64;
        let t0 = st.tips_by_wallet;
        let t1 = index_push(t0, from@, id);
        let t2 = if to@ != from@ {
            index_push(t1, to@, id)
        } else {
            t1
        };
        assert(post.tips_by_wallet == t2);
        assert(post.tips.contains_key(id));
        assert(post.tips[id].id == id && post.tips[id].from == from && post.tips[id].to == to);
        assert forall|w: Seq<char>|
            ids_in(t2, w) == if w == from@ || w == to@ {
                ids_in(t0, w).push(id)
            } else {
                ids_in(t0, w)
            } by {
            lemma_ids_in_push(t0, from@, id, w);
            lemma_ids_in_push(t1, to@, id, w);
        }
        assert forall|w: Seq<char>, k: int| 0 <= k < ids_in(t0, w).len() implies {
            let old_id = #[trigger] ids_in(t0, w)[k];
            &&& old_id < id
            &&& post.tips.contains_key(old_id)
            &&& post.tips[old_id] == st.tips[old_id]
        } by {
            let old_id = ids_in(t0, w)[k];
            assert(st.tips.contains_key(old_id));
        }
        assert forall|w: Seq<char>, i: int, j: int|
            0 <= i < j < ids_in(post.tips_by_wallet, w).len() implies #[trigger] ids_in(
            post.tips_by_wallet,
            w,
        )[i] < #[trigger] ids_in(post.tips_by_wallet, w)[j] by {
            let before = ids_in(t0, w);
            if j < before.len() {
                assert(ids_in(post.tips_by_wallet, w)[i] == before[i]);
                assert(ids_in(post.tips_by_wallet, w)[j] == before[j]);
            } else {
                assert(ids_in(post.tips_by_wallet, w)[i] == before[i]);
            }
        }
        assert forall|x: u64| #[trigger] post.tips.contains_key(x) implies {
            &&& ids_in(post.tips_by_wallet, post.tips[x].from@).contains(x)
            &&& ids_in(post.tips_by_wallet, post.tips[x].to@).contains(x)
        } by {
            let f = post.tips[x].from@;
            let t = post.tips[x].to@;
            lemma_push_contains(ids_in(t0, f), id, x);
            lemma_push_contains(ids_in(t0, t), id, x);
            if x != id {
                assert(st.tips.contains_key(x));
                assert(post.tips[x] == st.tips[x]);
            }
        }
        assert forall|w: Seq<char>, k: int|
            0 <= k < ids_in(post.tips_by_wallet, w).len() implies {
            let i = #[trigger] ids_in(post.tips_by_wallet, w)[k];
            &&& post.tips.contains_key(i)
            &&& (post.tips[i].from@ == w || post.tips[i].to@ == w)
        } by {
            let before = ids_in(t0, w);
            if k < before.len() {
                assert(ids_in(post.tips_by_wallet, w)[k] == before[k]);
            }
        }
    }
}

/// `subscribe` keeps the invariant.
pub proof fn lemma_subscribe_keeps_invariant(
    s: EnvView,
    from: String,
    to: String,
    amount_per_month: i128,
)
    requires
        contract_invariant(s.storage),
    ensures
        contract_invariant(subscribe_spec(s, from, to, amount_per_month).0.storage),
{
    let st = s.storage;
    let post = subscribe_spec(s, from, to, amount_per_month).0.storage;
    if post != st {
        let id = (st.subscription_id_counter + 1) as u64;
        assert(post.subs_by_supporter == index_push(st.subs_by_supporter, from@, id));
        assert(post.subs_by_creator == index_push(st.subs_by_creator, to@, id));
        assert(post.subscriptions.contains_key(id));
        assert(post.subscriptions[id].supporter == from && post.subscriptions[id].creator == to);
        assert forall|w: Seq<char>, k: int| 0 <= k < ids_in(st.subs_by_supporter, w).len() implies {
            let old_id = #[trigger] ids_in(st.subs_by_supporter, w)[k];
            &&& old_id < id
            &&& post.subscriptions[old_id] == st.subscriptions[old_id]
        } by {
            assert(st.subscriptions.contains_key(ids_in(st.subs_by_supporter, w)[k]));
        }
        assert forall|w: Seq<char>, k: int| 0 <= k < ids_in(st.subs_by_creator, w).len() implies {
            let old_id = #[trigger] ids_in(st.subs_by_creator, w)[k];
            &&& old_id < id
            &&& post.subscriptions[old_id] == st.subscriptions[old_id]
        } by {
            assert(st.subscriptions.contains_key(ids_in(st.subs_by_creator, w)[k]));
        }
        assert forall|x: u64| #[trigger] post.subscriptions.contains_key(x) implies {
            &&& post.subscription_ids.contains(x)
            &&& ids_in(post.subs_by_supporter, post.subscriptions[x].supporter@).contains(x)
            &&& ids_in(post.subs_by_creator, post.subscriptions[x].creator@).contains(x)
        } by {
            let sp = post.subscriptions[x].supporter@;
            let cr = post.subscriptions[x].creator@;
            lemma_ids_in_push(st.subs_by_supporter, from@, id, sp);
            lemma_ids_in_push(st.subs_by_creator, to@, id, cr);
            lemma_push_contains(st.subscription_ids, id, x);
            lemma_push_contains(ids_in(st.subs_by_supporter, sp), id, x);
            lemma_push_contains(ids_in(st.subs_by_creator, cr), id, x);
            if x != id {
                assert(st.subscriptions.contains_key(x));
                assert(post.subscriptions[x] == st.subscriptions[x]);
            }
        }
        assert forall|w: Seq<char>, i: int, j: int|
            0 <= i < j < ids_in(post.subs_by_supporter, w).len() implies #[trigger] ids_in(
            post.subs_by_supporter,
            w,
        )[i] < #[trigger] ids_in(post.subs_by_supporter, w)[j] by {
            lemma_ids_in_push(st.subs_by_supporter, from@, id, w);
            let before = ids_in(st.subs_by_supporter, w);
            assert(ids_in(post.subs_by_supporter, w)[i] == before[i]);
            if j < before.len() {
                assert(ids_in(post.subs_by_supporter, w)[j] == before[j]);
            }
        }
        assert forall|w: Seq<char>, i: int, j: int|
            0 <= i < j < ids_in(post.subs_by_creator, w).len() implies #[trigger] ids_in(
            post.subs_by_creator,
            w,
        )[i] < #[trigger] ids_in(post.subs_by_creator, w)[j] by {
            lemma_ids_in_push(st.subs_by_creator, to@, id, w);
            let before = ids_in(st.subs_by_creator, w);
            assert(ids_in(post.subs_by_creator, w)[i] == before[i]);
            if j < before.len() {
                assert(ids_in(post.subs_by_creator, w)[j] == before[j]);
            }
        }
        assert forall|w: Seq<char>, k: int|
            0 <= k < ids_in(post.subs_by_supporter, w).len() implies {
            let i = #[trigger] ids_in(post.subs_by_supporter, w)[k];
            &&& post.subscriptions.contains_key(i)
            &&& post.subscriptions[i].supporter@ == w
        } by {
            lemma_ids_in_push(st.subs_by_supporter, from@, id, w);
            let before = ids_in(st.subs_by_supporter, w);
            if k < before.len() {
                assert(ids_in(post.subs_by_supporter, w)[k] == before[k]);
            }
        }
        assert forall|w: Seq<char>, k: int|
            0 <= k < ids_in(post.subs_by_creator, w).len() implies {
            let i = #[trigger] ids_in(post.subs_by_creator, w)[k];
            &&& post.subscriptions.contains_key(i)
            &&& post.subscriptions[i].creator@ == w
        } by {
            lemma_ids_in_push(st.subs_by_creator, to@, id, w);
            let before = ids_in(st.subs_by_creator, w);
            if k < before.len() {
                assert(ids_in(post.subs_by_creator, w)[k] == before[k]);
            }
        }
    }
}

/// A step of `process_due_subscriptions` keeps the invariant, when the
/// subscription it charges is the stored one (as every subscription of a
/// pass started by `process_due_subscriptions` is: a pass only changes the
/// charge dates of the subscriptions it charges).
pub proof fn lemma_charge_keeps_invariant(
    s: EnvView,
    c: Config,
    sub: Subscription,
    charged: u32,
    allowance: i128,
)
    requires
        contract_invariant(s.storage),
        s.storage.subscriptions.contains_key(sub.id),
        s.storage.subscriptions[sub.id].supporter == sub.supporter,
        s.storage.subscriptions[sub.id].creator == sub.creator,
    ensures
        contract_invariant(charge_spec(s, c, sub, charged, allowance).0.storage),
{
}

// ---------------------------------------------------------------------
// Payments
// ---------------------------------------------------------------------

/// A fee within the bound (at most 500 basis points) takes at most 5% of a
/// positive amount, and what is left for the recipient is positive.
pub proof fn lemma_fee_at_most_five_percent(amount: int, fee_basis_points: int)
    requires
        amount > 0,
        0 <= fee_basis_points <= MAX_FEE_BASIS_POINTS,
    ensures
        0 <= fee_for(amount, fee_basis_points),
        20 * fee_for(amount, fee_basis_points) <= amount,
        amount - fee_for(amount, fee_basis_points) > 0,
{
    let p = amount * fee_basis_points;
    assert(0 <= p <= amount * 500) by (nonlinear_arith)
        requires
            amount > 0,
            0 <= fee_basis_points <= 500,
            p == amount * fee_basis_points,
    ;
    assert(p / 10000 <= (amount * 500) / 10000) by (nonlinear_arith)
        requires
            0 <= p <= amount * 500,
    ;
    assert((amount * 500) / 10000 == amount / 20) by (nonlinear_arith)
        requires
            amount > 0,
    ;
}

/// A successful tip asks the token for exactly two movements out of the
/// supporter's wallet, or one when there is no fee: the amount less the
/// fee straight to the recipient, and the fee to the treasury. Nothing is
/// paid to or held by the contract, and nothing else is asked of the token.
pub proof fn lemma_tip_routes_funds(
    s: EnvView,
    from: String,
    to: String,
    amount: i128,
    message_ipfs: String,
)
    requires
        contract_invariant(s.storage),
        tip_spec(s, from, to, amount, message_ipfs).1 is Ok,
    ensures
        ({
            let c = s.storage.config->0;
            let fee = fee_for(amount as int, c.fee_basis_points as int);
            let post = tip_spec(s, from, to, amount, message_ipfs).0;
            &&& amount > 0
            &&& 0 <= fee
            &&& 20 * fee <= amount
            &&& post.token_calls == s.token_calls + if fee > 0 {
                seq![
                    TokenCall::Transfer { from, to, amount: (amount - fee) as i128 },
                    TokenCall::Transfer { from, to: c.treasury, amount: fee as i128 },
                ]
            } else {
                seq![TokenCall::Transfer { from, to, amount }]
            }
        }),
{
    let c = s.storage.config->0;
    lemma_fee_at_most_five_percent(amount as int, c.fee_basis_points as int);
    let post = tip_spec(s, from, to, amount, message_ipfs).0;
    let fee = fee_for(amount as int, c.fee_basis_points as int);
    if fee > 0 {
        assert(post.token_calls =~= s.token_calls + seq![
            TokenCall::Transfer { from, to, amount: (amount - fee) as i128 },
            TokenCall::Transfer { from, to: c.treasury, amount: fee as i128 },
        ]);
    } else {
        assert(post.token_calls =~= s.token_calls + seq![TokenCall::Transfer { from, to, amount }]);
    }
}

/// A charged subscription draws exactly its monthly amount from the
/// supporter's allowance to the contract: the amount less the fee to the
/// creator and the fee (when positive) to the treasury, both by
/// `transfer_from` with the contract as spender. A skipped subscription
/// asks the token for nothing.
pub proof fn lemma_charge_routes_funds(
    s: EnvView,
    c: Config,
    sub: Subscription,
    charged: u32,
    allowance: i128,
)
    ensures
        ({
            let (post, r) = charge_spec(s, c, sub, charged, allowance);
            let amount = sub.amount_per_month;
            let fee = fee_for(amount as int, c.fee_basis_points as int);
            &&& r == Ok::<bool, Failure>(false) ==> post == s && allowance < amount
            &&& r == Ok::<bool, Failure>(true) ==> {
                &&& allowance >= amount
                &&& post.token_calls == s.token_calls + if fee > 0 {
                    seq![
                        TokenCall::TransferFrom {
                            spender: s.contract_address,
                            from: sub.supporter,
                            to: sub.creator,
                            amount: (amount - fee) as i128,
                        },
                        TokenCall::TransferFrom {
                            spender: s.contract_address,
                            from: sub.supporter,
                            to: c.treasury,
                            amount: fee as i128,
                        },
                    ]
                } else {
                    seq![
                        TokenCall::TransferFrom {
                            spender: s.contract_address,
                            from: sub.supporter,
                            to: sub.creator,
                            amount: (amount - fee) as i128,
                        },
                    ]
                }
            }
        }),
{
    let (post, r) = charge_spec(s, c, sub, charged, allowance);
    let amount = sub.amount_per_month;
    let fee = fee_for(amount as int, c.fee_basis_points as int);
    if r == Ok::<bool, Failure>(true) {
        if fee > 0 {
            assert(post.token_calls =~= s.token_calls + seq![
                TokenCall::TransferFrom {
                    spender: s.contract_address,
                    from: sub.supporter,
                    to: sub.creator,
                    amount: (amount - fee) as i128,
                },
                TokenCall::TransferFrom {
                    spender: s.contract_address,
                    from: sub.supporter,
                    to: c.treasury,
                    amount: fee as i128,
                },
            ]);
        } else {
            assert(post.token_calls =~= s.token_calls + seq![
                TokenCall::TransferFrom {
                    spender: s.contract_address,
                    from: sub.supporter,
                    to: sub.creator,
                    amount: (amount - fee) as i128,
                },
            ]);
        }
    }
}

// ---------------------------------------------------------------------
// One-shot setup, idempotence, authority
// ---------------------------------------------------------------------

/// Once initialized, the contract refuses to be initialized again and its
/// configuration stays as it is.
pub proof fn lemma_initialize_only_once(
    s: EnvView,
    admin: String,
    fee_basis_points: u32,
    treasury: String,
    token: String,
    admin2: String,
    fee_basis_points2: u32,
    treasury2: String,
    token2: String,
)
    requires
        initialize_spec(s, admin, fee_basis_points, treasury, token).1 is Ok,
    ensures
        ({
            let s1 = initialize_spec(s, admin, fee_basis_points, treasury, token).0;
            initialize_spec(s1, admin2, fee_basis_points2, treasury2, token2) == (
                s1,
                Err::<(), Failure>(Failure::Contract(Error::AlreadyInitialized)),
            )
        }),
{
}

/// Registering a wallet again returns the id it got the first time and
/// changes nothing, whatever profile fields come with the second call.
pub proof fn lemma_register_creator_idempotent(
    s: EnvView,
    wallet: String,
    name: String,
    bio: String,
    avatar_ipfs: String,
    name2: String,
    bio2: String,
    avatar_ipfs2: String,
)
    requires
        register_creator_spec(s, wallet, name, bio, avatar_ipfs).1 is Ok,
    ensures
        ({
            let (s1, r1) = register_creator_spec(s, wallet, name, bio, avatar_ipfs);
            register_creator_spec(s1, wallet, name2, bio2, avatar_ipfs2) == (s1, r1)
        }),
{
}

/// Only the configured admin can change the fee: anyone else is refused
/// and nothing changes.
pub proof fn lemma_fee_changes_only_by_admin(s: EnvView, caller: String, fee_basis_points: u32)
    requires
        s.storage.config matches Some(c) && caller@ != c.admin@,
    ensures
        update_fee_spec(s, caller, fee_basis_points) == (
            s,
            Err::<(), Failure>(Failure::Contract(Error::Unauthorized)),
        ),
{
}

// ---------------------------------------------------------------------
// Refused invocations change nothing
// ---------------------------------------------------------------------

/// Every entry point that fails, with a contract error or an overflow,
/// leaves the environment exactly as it was: no state, no event, no
/// token movement.
pub proof fn lemma_failed_invocations_change_nothing(
    s: EnvView,
    a: String,
    b: String,
    c: String,
    d: String,
    n: u32,
    amount: i128,
    id: u64,
    config: Config,
    sub: Subscription,
    charged: u32,
)
    ensures
        initialize_spec(s, a, n, b, c).1 is Err ==> initialize_spec(s, a, n, b, c).0 == s,
        register_creator_spec(s, a, b, c, d).1 is Err ==> register_creator_spec(s, a, b, c, d).0
            == s,
        update_profile_spec(s, a, b, c, d).1 is Err ==> update_profile_spec(s, a, b, c, d).0 == s,
        tip_spec(s, a, b, amount, c).1 is Err ==> tip_spec(s, a, b, amount, c).0 == s,
        subscribe_spec(s, a, b, amount).1 is Err ==> subscribe_spec(s, a, b, amount).0 == s,
        cancel_subscription_spec(s, a, id).1 is Err ==> cancel_subscription_spec(s, a, id).0 == s,
        set_tip_goal_spec(s, a, amount, b).1 is Err ==> set_tip_goal_spec(s, a, amount, b).0 == s,
        complete_tip_goal_spec(s, a, id).1 is Err ==> complete_tip_goal_spec(s, a, id).0 == s,
        update_fee_spec(s, a, n).1 is Err ==> update_fee_spec(s, a, n).0 == s,
        charge_spec(s, config, sub, charged, amount).1 is Err ==> charge_spec(
            s,
            config,
            sub,
            charged,
            amount,
        ).0 == s,
{
}

// ---------------------------------------------------------------------
// Subscriptions over time
// ---------------------------------------------------------------------

/// Every subscription in the due list is active and its charge date has come.
pub proof fn lemma_due_are_active_and_due(ids: Seq<u64>, subs: Map<u64, Subscription>, now: u64)
    ensures
        forall|k: int|
            0 <= k < due_among(ids, subs, now).len() ==> (#[trigger] due_among(ids, subs, now)[k]).active
                && due_among(ids, subs, now)[k].next_charge_date <= now,
    decreases ids.len(),
{
    if ids.len() > 0 {
        lemma_due_are_active_and_due(ids.drop_last(), subs, now);
        let prev = due_among(ids.drop_last(), subs, now);
        let due = due_among(ids, subs, now);
        assert forall|k: int| 0 <= k < prev.len() implies #[trigger] due[k] == prev[k] by {}
        assert forall|k: int| 0 <= k < due.len() implies (#[trigger] due[k]).active
            && due[k].next_charge_date <= now by {
            if k < prev.len() {
                assert(due[k] == prev[k]);
            }
        }
    }
}

/// A cancelled subscription is never charged again: its record is inactive,
/// so it is in no due list, at any time.
pub proof fn lemma_cancelled_subscription_never_due(
    s: EnvView,
    from: String,
    subscription_id: u64,
    now: u64,
)
    requires
        contract_invariant(s.storage),
        cancel_subscription_spec(s, from, subscription_id).1 is Ok,
    ensures
        ({
            let post = cancel_subscription_spec(s, from, subscription_id).0.storage;
            let cancelled = post.subscriptions[subscription_id];
            &&& !cancelled.active
            &&& !due_among(post.subscription_ids, post.subscriptions, now).contains(cancelled)
        }),
{
    let post = cancel_subscription_spec(s, from, subscription_id).0.storage;
    let cancelled = post.subscriptions[subscription_id];
    assert(s.storage.subscriptions[subscription_id].id == subscription_id);
    assert(!cancelled.active);
    let due = due_among(post.subscription_ids, post.subscriptions, now);
    lemma_due_are_active_and_due(post.subscription_ids, post.subscriptions, now);
    if due.contains(cancelled) {
        let k = choose|k: int| 0 <= k < due.len() && due[k] == cancelled;
        assert(due[k].active);
    }
}

proof fn lemma_due_among_fresh_insert(
    ids: Seq<u64>,
    subs: Map<u64, Subscription>,
    id: u64,
    sub: Subscription,
    now: u64,
)
    requires
        !ids.contains(id),
    ensures
        due_among(ids, subs.insert(id, sub), now) == due_among(ids, subs, now),
    decreases ids.len(),
{
    if ids.len() > 0 {
        assert(!ids.drop_last().contains(id)) by {
            if ids.drop_last().contains(id) {
                let k = choose|k: int| 0 <= k < ids.drop_last().len() && ids.drop_last()[k] == id;
                assert(ids[k] == id);
            }
        }
        assert(ids.last() != id) by {
            assert(ids[ids.len() - 1] == ids.last());
        }
        lemma_due_among_fresh_insert(ids.drop_last(), subs, id, sub, now);
    }
}

/// A new subscription is first charged a month after it was opened: from
/// then on it comes last in the due list, and before then the due list is
/// what it was before the subscription was opened.
pub proof fn lemma_new_subscription_due_after_a_month(
    s: EnvView,
    from: String,
    to: String,
    amount_per_month: i128,
    now: u64,
)
    requires
        contract_invariant(s.storage),
        subscribe_spec(s, from, to, amount_per_month).1 is Ok,
    ensures
        ({
            let st = s.storage;
            let post = subscribe_spec(s, from, to, amount_per_month).0.storage;
            let id = subscribe_spec(s, from, to, amount_per_month).1->Ok_0;
            let sub = post.subscriptions[id];
            &&& sub.active && sub.supporter == from && sub.creator == to
            &&& sub.next_charge_date == s.timestamp + SECONDS_PER_MONTH
            &&& now >= s.timestamp + SECONDS_PER_MONTH ==> due_among(
                post.subscription_ids,
                post.subscriptions,
                now,
            ) == due_among(st.subscription_ids, st.subscriptions, now).push(sub)
            &&& now < s.timestamp + SECONDS_PER_MONTH ==> due_among(
                post.subscription_ids,
                post.subscriptions,
                now,
            ) == due_among(st.subscription_ids, st.subscriptions, now)
        }),
{
    let st = s.storage;
    let post = subscribe_spec(s, from, to, amount_per_month).0.storage;
    let id = (st.subscription_id_counter + 1) as u64;
    let sub = post.subscriptions[id];
    assert(!st.subscription_ids.contains(id)) by {
        if st.subscription_ids.contains(id) {
            let k = choose|k: int|
                0 <= k < st.subscription_ids.len() && st.subscription_ids[k] == id;
            assert(st.subscriptions.contains_key(st.subscription_ids[k]));
        }
    }
    lemma_due_among_fresh_insert(st.subscription_ids, st.subscriptions, id, sub, now);
    assert(post.subscription_ids.drop_last() =~= st.subscription_ids);
}

// ---------------------------------------------------------------------
// Reads
// ---------------------------------------------------------------------

proof fn lemma_recent_tips_all_present(ids: Seq<u64>, tips: Map<u64, Tip>, n: nat)
    requires
        forall|k: int| 0 <= k < ids.len() ==> tips.contains_key(#[trigger] ids[k]),
    ensures
        recent_tips(ids, tips, n).len() == min_nat(n, ids.len()),
        forall|k: int|
            0 <= k < recent_tips(ids, tips, n).len() ==> #[trigger] recent_tips(ids, tips, n)[k]
                == tips[ids[ids.len() - 1 - k]],
    decreases ids.len(),
{
    if ids.len() > 0 && n > 0 {
        let init = ids.drop_last();
        assert(tips.contains_key(ids[ids.len() - 1]));
        assert forall|k: int| 0 <= k < init.len() implies tips.contains_key(#[trigger] init[k]) by {
            assert(init[k] == ids[k]);
        }
        lemma_recent_tips_all_present(init, tips, (n - 1) as nat);
        let r = recent_tips(ids, tips, n);
        let rest = recent_tips(init, tips, (n - 1) as nat);
        assert(r == seq![tips[ids.last()]] + rest);
        assert forall|k: int| 0 <= k < r.len() implies #[trigger] r[k] == tips[ids[ids.len() - 1
            - k]] by {
            if k > 0 {
                assert(r[k] == rest[k - 1]);
                assert(init[init.len() - 1 - (k - 1)] == ids[ids.len() - 1 - k]);
            }
        }
    }
}

/// `get_tip_history` gives `min(limit, n)` of the `n` recorded tips that
/// involve the wallet: the latest ones, newest first, each sent or received
/// by it. Every recorded tip that involves the wallet is among the `n`, so
/// a limit of at least `n` gives them all.
pub proof fn lemma_tip_history(st: StorageView, wallet: Seq<char>, limit: nat)
    requires
        contract_invariant(st),
    ensures
        ({
            let ids = ids_in(st.tips_by_wallet, wallet);
            let history = recent_tips(ids, st.tips, min_nat(limit, ids.len()));
            &&& history.len() == min_nat(limit, ids.len())
            &&& forall|k: int|
                0 <= k < history.len() ==> (#[trigger] history[k]).from@ == wallet
                    || history[k].to@ == wallet
            &&& forall|i: int, j: int|
                0 <= i < j < history.len() ==> #[trigger] history[i].id > #[trigger] history[j].id
            &&& forall|k: int|
                0 <= k < history.len() ==> #[trigger] history[k] == st.tips[ids[ids.len() - 1 - k]]
            &&& forall|id: u64|
                #![trigger st.tips[id]]
                st.tips.contains_key(id) && (st.tips[id].from@ == wallet || st.tips[id].to@ == wallet)
                    ==> ids.contains(id)
            &&& limit >= ids.len() ==> forall|id: u64|
                #![trigger st.tips[id]]
                st.tips.contains_key(id) && (st.tips[id].from@ == wallet || st.tips[id].to@ == wallet)
                    ==> history.contains(st.tips[id])
        }),
{
    let ids = ids_in(st.tips_by_wallet, wallet);
    let n = min_nat(limit, ids.len());
    assert forall|k: int| 0 <= k < ids.len() implies st.tips.contains_key(#[trigger] ids[k]) by {
        assert(st.tips.contains_key(ids_in(st.tips_by_wallet, wallet)[k]));
    }
    lemma_recent_tips_all_present(ids, st.tips, n);
    let history = recent_tips(ids, st.tips, n);
    assert forall|k: int| 0 <= k < history.len() implies (#[trigger] history[k]).from@ == wallet
        || history[k].to@ == wallet by {
        let id = ids_in(st.tips_by_wallet, wallet)[ids.len() - 1 - k];
        assert(st.tips.contains_key(id));
    }
    assert forall|i: int, j: int| 0 <= i < j < history.len() implies #[trigger] history[i].id
        > #[trigger] history[j].id by {
        let a = ids_in(st.tips_by_wallet, wallet)[ids.len() - 1 - j];
        let b = ids_in(st.tips_by_wallet, wallet)[ids.len() - 1 - i];
        assert(a < b);
        assert(st.tips.contains_key(a) && st.tips.contains_key(b));
    }
    assert forall|id: u64|
        st.tips.contains_key(id) && (st.tips[id].from@ == wallet || st.tips[id].to@ == wallet)
        implies ids.contains(id) by {
        assert(ids_in(st.tips_by_wallet, st.tips[id].from@).contains(id));
        assert(ids_in(st.tips_by_wallet, st.tips[id].to@).contains(id));
    }
    if limit >= ids.len() {
        assert forall|id: u64|
            st.tips.contains_key(id) && (st.tips[id].from@ == wallet || st.tips[id].to@ == wallet)
            implies history.contains(st.tips[id]) by {
            assert(ids.contains(id));
            let k = choose|k: int| 0 <= k < ids.len() && ids[k] == id;
            let h = ids.len() - 1 - k;
            assert(history[h] == st.tips[ids[ids.len() - 1 - h]]);
        }
    }
}

proof fn lemma_present_among_all_present(ids: Seq<u64>, subs: Map<u64, Subscription>)
    requires
        forall|k: int| 0 <= k < ids.len() ==> subs.contains_key(#[trigger] ids[k]),
    ensures
        present_among(ids, subs).len() == ids.len(),
        forall|k: int|
            0 <= k < ids.len() ==> #[trigger] present_among(ids, subs)[k] == subs[ids[k]],
    decreases ids.len(),
{
    if ids.len() > 0 {
        let init = ids.drop_last();
        assert(subs.contains_key(ids[ids.len() - 1]));
        assert forall|k: int| 0 <= k < init.len() implies subs.contains_key(#[trigger] init[k]) by {
            assert(init[k] == ids[k]);
        }
        lemma_present_among_all_present(init, subs);
        let r = present_among(ids, subs);
        assert forall|k: int| 0 <= k < ids.len() implies #[trigger] r[k] == subs[ids[k]] by {
            if k < init.len() {
                assert(init[k] == ids[k]);
            }
        }
    }
}

/// `get_subscriptions_by_supporter` gives every recorded subscription the
/// supporter opened, once each, in the order they were opened, and no one
/// else's.
pub proof fn lemma_subscriptions_by_supporter(st: StorageView, supporter: Seq<char>)
    requires
        contract_invariant(st),
    ensures
        ({
            let ids = ids_in(st.subs_by_supporter, supporter);
            let subs = present_among(ids, st.subscriptions);
            &&& subs.len() == ids.len()
            &&& forall|k: int| 0 <= k < subs.len() ==> (#[trigger] subs[k]).supporter@ == supporter
            &&& forall|i: int, j: int| 0 <= i < j < subs.len() ==> #[trigger] subs[i].id < #[trigger] subs[j].id
            &&& forall|id: u64|
                #![trigger st.subscriptions[id]]
                st.subscriptions.contains_key(id) && st.subscriptions[id].supporter@ == supporter
                    ==> subs.contains(st.subscriptions[id])
        }),
{
    let ids = ids_in(st.subs_by_supporter, supporter);
    assert forall|k: int| 0 <= k < ids.len() implies st.subscriptions.contains_key(
        #[trigger] ids[k],
    ) by {
        assert(st.subscriptions.contains_key(ids_in(st.subs_by_supporter, supporter)[k]));
    }
    lemma_present_among_all_present(ids, st.subscriptions);
    let subs = present_among(ids, st.subscriptions);
    assert forall|k: int| 0 <= k < subs.len() implies (#[trigger] subs[k]).supporter@ == supporter by {
        assert(st.subscriptions.contains_key(ids_in(st.subs_by_supporter, supporter)[k]));
    }
    assert forall|i: int, j: int| 0 <= i < j < subs.len() implies #[trigger] subs[i].id
        < #[trigger] subs[j].id by {
        let a = ids_in(st.subs_by_supporter, supporter)[i];
        let b = ids_in(st.subs_by_supporter, supporter)[j];
        assert(a < b);
        assert(st.subscriptions.contains_key(a) && st.subscriptions.contains_key(b));
    }
    assert forall|id: u64|
        st.subscriptions.contains_key(id) && st.subscriptions[id].supporter@ == supporter implies subs.contains(
        st.subscriptions[id],
    ) by {
        assert(ids_in(st.subs_by_supporter, st.subscriptions[id].supporter@).contains(id));
        let k = choose|k: int| 0 <= k < ids.len() && ids[k] == id;
        assert(subs[k] == st.subscriptions[ids[k]]);
    }
}

/// `get_subscriptions_by_creator` gives every recorded subscription the
/// creator received, once each, in the order they were opened, and no one
/// else's.
pub proof fn lemma_subscriptions_by_creator(st: StorageView, creator: Seq<char>)
    requires
        contract_invariant(st),
    ensures
        ({
            let ids = ids_in(st.subs_by_creator, creator);
            let subs = present_among(ids, st.subscriptions);
            &&& subs.len() == ids.len()
            &&& forall|k: int| 0 <= k < subs.len() ==> (#[trigger] subs[k]).creator@ == creator
            &&& forall|i: int, j: int| 0 <= i < j < subs.len() ==> #[trigger] subs[i].id < #[trigger] subs[j].id
            &&& forall|id: u64|
                #![trigger st.subscriptions[id]]
                st.subscriptions.contains_key(id) && st.subscriptions[id].creator@ == creator
                    ==> subs.contains(st.subscriptions[id])
        }),
{
    let ids = ids_in(st.subs_by_creator, creator);
    assert forall|k: int| 0 <= k < ids.len() implies st.subscriptions.contains_key(
        #[trigger] ids[k],
    ) by {
        assert(st.subscriptions.contains_key(ids_in(st.subs_by_creator, creator)[k]));
    }
    lemma_present_among_all_present(ids, st.subscriptions);
    let subs = present_among(ids, st.subscriptions);
    assert forall|k: int| 0 <= k < subs.len() implies (#[trigger] subs[k]).creator@ == creator by {
        assert(st.subscriptions.contains_key(ids_in(st.subs_by_creator, creator)[k]));
    }
    assert forall|i: int, j: int| 0 <= i < j < subs.len() implies #[trigger] subs[i].id
        < #[trigger] subs[j].id by {
        let a = ids_in(st.subs_by_creator, creator)[i];
        let b = ids_in(st.subs_by_creator, creator)[j];
        assert(a < b);
        assert(st.subscriptions.contains_key(a) && st.subscriptions.contains_key(b));
    }
    assert forall|id: u64|
        st.subscriptions.contains_key(id) && st.subscriptions[id].creator@ == creator implies subs.contains(
        st.subscriptions[id],
    ) by {
        assert(ids_in(st.subs_by_creator, st.subscriptions[id].creator@).contains(id));
        let k = choose|k: int| 0 <= k < ids.len() && ids[k] == id;
        assert(subs[k] == st.subscriptions[ids[k]]);
    }
}

proof fn lemma_entries_all_present(list: Seq<String>, profiles: Map<Seq<char>, CreatorProfile>)
    requires
        forall|k: int| 0 <= k < list.len() ==> profiles.contains_key(#[trigger] list[k]@),
    ensures
        leaderboard_entries(list, profiles).len() == list.len(),
        forall|k: int|
            0 <= k < list.len() ==> #[trigger] leaderboard_entries(list, profiles)[k] == entry_of(
                profiles[list[k]@],
            ),
    decreases list.len(),
{
    if list.len() > 0 {
        let init = list.drop_last();
        assert(profiles.contains_key(list[list.len() - 1]@));
        assert forall|k: int| 0 <= k < init.len() implies profiles.contains_key(
            #[trigger] init[k]@,
        ) by {
            assert(init[k] == list[k]);
        }
        lemma_entries_all_present(init, profiles);
        let r = leaderboard_entries(list, profiles);
        assert forall|k: int| 0 <= k < list.len() implies #[trigger] r[k] == entry_of(
            profiles[list[k]@],
        ) by {
            if k < init.len() {
                assert(init[k] == list[k]);
            }
        }
    }
}

/// The leaderboard ranks every registered creator, once per registration
/// (as many rows as `total_creators` counts), so `get_top_creators` lists
/// `min(limit, total_creators)` rows.
pub proof fn lemma_leaderboard_covers_creators(st: StorageView, limit: nat)
    requires
        contract_invariant(st),
    ensures
        leaderboard_entries(st.creator_list, st.profiles).len() == st.stats.total_creators,
        top_creators(st, limit).len() == min_nat(limit, st.stats.total_creators as nat),
        forall|w: Seq<char>| #[trigger]
            st.profiles.contains_key(w) ==> leaderboard_entries(st.creator_list, st.profiles).contains(
                entry_of(st.profiles[w]),
            ),
{
    lemma_entries_all_present(st.creator_list, st.profiles);
    lemma_top_creators(st, limit);
    let all = leaderboard_entries(st.creator_list, st.profiles);
    assert forall|w: Seq<char>| #[trigger] st.profiles.contains_key(w) implies all.contains(
        entry_of(st.profiles[w]),
    ) by {
        assert(is_listed(st.creator_list, w));
        let k = choose|k: int| 0 <= k < st.creator_list.len() && #[trigger] st.creator_list[k]@ == w;
        assert(all[k] == entry_of(st.profiles[st.creator_list[k]@]));
    }
}

proof fn lemma_due_are_stored(ids: Seq<u64>, subs: Map<u64, Subscription>, now: u64)
    requires
        forall|x: u64| #[trigger] subs.contains_key(x) ==> subs[x].id == x,
    ensures
        forall|k: int|
            0 <= k < due_among(ids, subs, now).len() ==> subs.contains_key(
                (#[trigger] due_among(ids, subs, now)[k]).id,
            ) && subs[due_among(ids, subs, now)[k].id] == due_among(ids, subs, now)[k],
    decreases ids.len(),
{
    if ids.len() > 0 {
        lemma_due_are_stored(ids.drop_last(), subs, now);
        let prev = due_among(ids.drop_last(), subs, now);
        let due = due_among(ids, subs, now);
        assert forall|k: int| 0 <= k < due.len() implies subs.contains_key((#[trigger] due[k]).id)
            && subs[due[k].id] == due[k] by {
            if k < prev.len() {
                assert(due[k] == prev[k]);
            }
        }
    }
}

/// A subscription whose record is inactive is in no due list, at any time:
/// a pass started while it is cancelled never deals with it.
pub proof fn lemma_inactive_subscription_not_due(st: &Storage, id: u64, now: u64)
    requires
        st@.subscriptions.contains_key(id),
        !st@.subscriptions[id].active,
    ensures
        forall|k: int|
            0 <= k < due_among(st@.subscription_ids, st@.subscriptions, now).len()
                ==> (#[trigger] due_among(st@.subscription_ids, st@.subscriptions, now)[k]).id != id,
{
    lemma_records_under_own_keys(st);
    lemma_due_are_stored(st@.subscription_ids, st@.subscriptions, now);
    lemma_due_are_active_and_due(st@.subscription_ids, st@.subscriptions, now);
}

/// A step of a pass that charges or skips one subscription leaves the record
/// of every other subscription as it was, and asks the token only to draw
/// on the supporter of the subscription it deals with.
pub proof fn lemma_charge_leaves_other_subscriptions(
    s: EnvView,
    c: Config,
    sub: Subscription,
    charged: u32,
    allowance: i128,
    id: u64,
)
    requires
        sub.id != id,
        s.storage.subscriptions.contains_key(id),
    ensures
        ({
            let post = charge_spec(s, c, sub, charged, allowance).0;
            &&& post.storage.subscriptions.contains_key(id)
            &&& post.storage.subscriptions[id] == s.storage.subscriptions[id]
            &&& forall|k: int|
                s.token_calls.len() <= k < post.token_calls.len() ==> (#[trigger] post.token_calls[k]
                    matches TokenCall::TransferFrom { from, .. } && from == sub.supporter)
        }),
{
    lemma_charge_routes_funds(s, c, sub, charged, allowance);
}

/// A pass of `process_due_subscriptions` started while a subscription is
/// cancelled never charges it: none of the subscriptions the pass deals
/// with is that one, so no step draws on it, counts it, or changes its
/// record.
pub proof fn lemma_pass_never_charges_cancelled(env: &Env, run: DueRun, c: Config, id: u64)
    requires
        due_run_started(run, env@, c),
        env@.storage.subscriptions.contains_key(id),
        !env@.storage.subscriptions[id].active,
    ensures
        forall|k: int| 0 <= k < run.due@.len() ==> (#[trigger] run.due@[k]).id != id,
{
    lemma_inactive_subscription_not_due(&env.storage, id, env@.timestamp);
}

/// Once cancelled, a subscription's record stays exactly as it is through
/// every later invocation: no entry point makes it active again, and a
/// step of a pass changes it only when it deals with that subscription
/// (which no pass started after the cancellation does).
pub proof fn lemma_cancelled_stays_cancelled(
    s: EnvView,
    id: u64,
    a: String,
    b: String,
    c: String,
    d: String,
    n: u32,
    amount: i128,
    other: u64,
    config: Config,
    sub: Subscription,
    charged: u32,
)
    requires
        contract_invariant(s.storage),
        s.storage.subscriptions.contains_key(id),
        !s.storage.subscriptions[id].active,
        sub.id != id,
    ensures
        ({
            let rec = s.storage.subscriptions[id];
            &&& initialize_spec(s, a, n, b, c).0.storage.subscriptions[id] == rec
            &&& update_fee_spec(s, a, n).0.storage.subscriptions[id] == rec
            &&& register_creator_spec(s, a, b, c, d).0.storage.subscriptions[id] == rec
            &&& update_profile_spec(s, a, b, c, d).0.storage.subscriptions[id] == rec
            &&& tip_spec(s, a, b, amount, c).0.storage.subscriptions[id] == rec
            &&& subscribe_spec(s, a, b, amount).0.storage.subscriptions[id] == rec
            &&& cancel_subscription_spec(s, a, other).0.storage.subscriptions[id] == rec
            &&& set_tip_goal_spec(s, a, amount, b).0.storage.subscriptions[id] == rec
            &&& complete_tip_goal_spec(s, a, other).0.storage.subscriptions[id] == rec
            &&& charge_spec(s, config, sub, charged, amount).0.storage.subscriptions[id] == rec
        }),
{
    let st = s.storage;
    if st.subscriptions.contains_key(other) {
        assert(st.subscriptions[other].id == other);
    }
}


// ---------------------------------------------------------------------
// What each entry point records
// ---------------------------------------------------------------------

/// A first registration stores, under the wallet, a profile with exactly
/// the wallet, name, bio and avatar that were passed, the id it returns,
/// nothing received yet, no tips, no subscribers, and the current time as
/// its registration date; no other profile changes. One more creator is
/// counted, and the registration is published.
pub proof fn lemma_register_creator_stores_profile(
    s: EnvView,
    wallet: String,
    name: String,
    bio: String,
    avatar_ipfs: String,
)
    requires
        !s.storage.profiles.contains_key(wallet@),
        register_creator_spec(s, wallet, name, bio, avatar_ipfs).1 is Ok,
    ensures
        ({
            let (post, r) = register_creator_spec(s, wallet, name, bio, avatar_ipfs);
            let p = post.storage.profiles[wallet@];
            &&& post.storage.profiles.contains_key(wallet@)
            &&& r == Ok::<u64, Failure>(p.id)
            &&& p.id == s.storage.profile_id_counter + 1
            &&& p.wallet == wallet
            &&& p.name == name
            &&& p.bio == bio
            &&& p.avatar_ipfs == avatar_ipfs
            &&& p.total_received == 0
            &&& p.tip_count == 0
            &&& p.subscriber_count == 0
            &&& p.registered_at == s.timestamp
            &&& post.storage.profiles.remove(wallet@) == s.storage.profiles
            &&& post.storage.stats.total_creators == s.storage.stats.total_creators + 1
            &&& post.events == s.events.push(
                Event::CreatorRegistered {
                    profile_id: p.id,
                    wallet,
                    name,
                    timestamp: s.timestamp,
                },
            )
        }),
{
    let post = register_creator_spec(s, wallet, name, bio, avatar_ipfs).0;
    assert(post.storage.profiles.remove(wallet@) =~= s.storage.profiles);
}

/// The record a successful tip stores under the id it returns holds the
/// sender, the recipient, the message, the current time, the amount tipped,
/// and as the fee paid `amount * fee_basis_points / 10000`: exactly the fee
/// that the tip sends to the treasury, the recipient getting the rest. The
/// statistics count one more tip, the amount as volume and the fee as
/// collected, and the last event published is the tip's.
pub proof fn lemma_tip_stores_record(
    s: EnvView,
    from: String,
    to: String,
    amount: i128,
    message_ipfs: String,
)
    requires
        tip_spec(s, from, to, amount, message_ipfs).1 is Ok,
    ensures
        ({
            let (post, r) = tip_spec(s, from, to, amount, message_ipfs);
            let c = s.storage.config->0;
            let id = r->Ok_0;
            let t = post.storage.tips[id];
            &&& id == s.storage.tip_id_counter + 1
            &&& post.storage.tips.contains_key(id)
            &&& t.id == id
            &&& t.from == from
            &&& t.to == to
            &&& t.amount == amount
            &&& t.fee_paid == (amount * c.fee_basis_points) / 10000
            &&& t.message_ipfs == message_ipfs
            &&& t.timestamp == s.timestamp
            &&& post.token_calls[s.token_calls.len() as int] == TokenCall::Transfer {
                from,
                to,
                amount: (amount - t.fee_paid) as i128,
            }
            &&& t.fee_paid > 0 ==> post.token_calls[s.token_calls.len() as int + 1]
                == TokenCall::Transfer { from, to: c.treasury, amount: t.fee_paid }
            &&& t.fee_paid == 0 ==> post.token_calls.len() == s.token_calls.len() + 1
            &&& post.storage.stats.total_tips == s.storage.stats.total_tips + 1
            &&& post.storage.stats.total_volume == s.storage.stats.total_volume + amount
            &&& post.storage.stats.fee_collected == s.storage.stats.fee_collected + t.fee_paid
            &&& post.storage.stats.total_creators == s.storage.stats.total_creators
            &&& post.storage.stats.total_subscriptions == s.storage.stats.total_subscriptions
            &&& post.events.last() == Event::TipSent {
                tip_id: id,
                from,
                to,
                amount,
                fee_paid: t.fee_paid,
                timestamp: s.timestamp,
            }
        }),
{
    let c = s.storage.config->0;
    let p = amount * c.fee_basis_points;
    assert(p >= 0) by (nonlinear_arith)
        requires
            amount > 0,
            p == amount * c.fee_basis_points,
    ;
}

/// A successful tip credits its recipient, when registered: the profile's
/// total received grows by the amount less the fee and its tip count by
/// one, nothing else of it changes, and the same net amount counts toward
/// the recipient's open goal, which completes once its running total
/// reaches the target. An unregistered recipient gets no profile and no
/// goal progress. No other wallet's profile or goal changes. The tip is
/// published, after the goal's completion when it completes one.
pub proof fn lemma_tip_credits_recipient(
    s: EnvView,
    from: String,
    to: String,
    amount: i128,
    message_ipfs: String,
)
    requires
        keys_consistent(s.storage),
        tip_spec(s, from, to, amount, message_ipfs).1 is Ok,
    ensures
        ({
            let st = s.storage;
            let post = tip_spec(s, from, to, amount, message_ipfs).0.storage;
            let c = st.config->0;
            let fee = (amount * c.fee_basis_points) / 10000;
            let net = amount - fee;
            let id = tip_spec(s, from, to, amount, message_ipfs).1->Ok_0;
            &&& credited_as(st, post, to@, net, 1)
            &&& tip_spec(s, from, to, amount, message_ipfs).0.events == s.events + goal_events(
                st,
                to,
                net,
                s.timestamp,
            ) + seq![
                Event::TipSent {
                    tip_id: id,
                    from,
                    to,
                    amount,
                    fee_paid: fee as i128,
                    timestamp: s.timestamp,
                },
            ]
        }),
{
    let c = s.storage.config->0;
    let p = amount * c.fee_basis_points;
    assert(p >= 0) by (nonlinear_arith)
        requires
            amount > 0,
            p == amount * c.fee_basis_points,
    ;
    let (after, r) = tip_spec(s, from, to, amount, message_ipfs);
    let post = after.storage;
    assert(post.profiles.remove(to@) =~= s.storage.profiles.remove(to@));
    assert(post.goals.remove(to@) =~= s.storage.goals.remove(to@));
    assert(after.events =~= s.events + goal_events(s.storage, to, amount - p / 10000, s.timestamp)
        + seq![
        Event::TipSent {
            tip_id: r->Ok_0,
            from,
            to,
            amount,
            fee_paid: (p / 10000) as i128,
            timestamp: s.timestamp,
        },
    ]);
}

/// `post` is `st` after `net` was received by `creator` and its tip count
/// grew by `tips`: a registered creator's profile shows the new total and
/// tip count with its other fields unchanged, and its open goal, if any,
/// has `net` more toward it and is completed exactly when the target is
/// reached; an unregistered creator has neither profile nor goal changed.
/// The profiles and goals of every other wallet are as they were.
pub open spec fn credited_as(
    st: StorageView,
    post: StorageView,
    creator: Seq<char>,
    net: int,
    tips: int,
) -> bool {
    &&& post.profiles.remove(creator) == st.profiles.remove(creator)
    &&& post.goals.remove(creator) == st.goals.remove(creator)
    &&& post.profiles.contains_key(creator) == st.profiles.contains_key(creator)
    &&& post.goals.contains_key(creator) == st.goals.contains_key(creator)
    &&& st.profiles.contains_key(creator) ==> {
        let p = st.profiles[creator];
        let q = post.profiles[creator];
        &&& q.total_received == p.total_received + net
        &&& q.tip_count == p.tip_count + tips
        &&& q.id == p.id
        &&& q.wallet == p.wallet
        &&& q.name == p.name
        &&& q.bio == p.bio
        &&& q.avatar_ipfs == p.avatar_ipfs
        &&& q.subscriber_count == p.subscriber_count
        &&& q.registered_at == p.registered_at
    }
    &&& (st.profiles.contains_key(creator) && st.goals.contains_key(creator)
        && !st.goals[creator].completed) ==> {
        let g = st.goals[creator];
        let h = post.goals[creator];
        &&& h.current_amount == g.current_amount + net
        &&& h.completed == (g.current_amount + net >= g.goal_amount)
        &&& h.id == g.id
        &&& h.creator == g.creator
        &&& h.goal_amount == g.goal_amount
        &&& h.description == g.description
        &&& h.created_at == g.created_at
    }
    &&& !(st.profiles.contains_key(creator) && st.goals.contains_key(creator)
        && !st.goals[creator].completed) ==> post.goals == st.goals
}

/// The events a receipt of `net` by `creator` publishes before the
/// invocation's own: `GoalReached` when the creator is registered and the
/// amount brings its open goal to the target, nothing otherwise.
pub open spec fn goal_events(st: StorageView, creator: String, net: int, now: u64) -> Seq<Event> {
    let w = creator@;
    if st.profiles.contains_key(w) && st.goals.contains_key(w) && !st.goals[w].completed
        && st.goals[w].current_amount + net >= st.goals[w].goal_amount {
        seq![
            Event::GoalReached {
                goal_id: st.goals[w].id,
                creator,
                goal_amount: st.goals[w].goal_amount,
                timestamp: now,
            },
        ]
    } else {
        Seq::empty()
    }
}

/// A subscription charge that succeeds credits its creator, when
/// registered: the profile's total received grows by the monthly amount
/// less the fee (`amount_per_month * fee_basis_points / 10000`), its tip
/// count stays, nothing else of it changes, and the same net amount counts
/// toward the creator's open goal, which completes once its running total
/// reaches the target. An unregistered creator gets no profile and no goal
/// progress. No other wallet's profile or goal changes. The subscription's
/// next charge date moves a month on and the rest of its record stays; the
/// statistics count the monthly amount as volume and the fee as collected;
/// and the charge is published, after the goal's completion when it
/// completes one.
pub proof fn lemma_charge_credits_creator(
    s: EnvView,
    c: Config,
    sub: Subscription,
    charged: u32,
    allowance: i128,
)
    requires
        keys_consistent(s.storage),
        charge_spec(s, c, sub, charged, allowance).1 == Ok::<bool, Failure>(true),
    ensures
        ({
            let post = charge_spec(s, c, sub, charged, allowance).0.storage;
            let amount = sub.amount_per_month;
            let fee = fee_for(amount as int, c.fee_basis_points as int);
            let after = charge_spec(s, c, sub, charged, allowance).0;
            &&& credited_as(s.storage, post, sub.creator@, amount - fee, 0)
            &&& post.subscriptions.contains_key(sub.id)
            &&& post.subscriptions[sub.id] == Subscription {
                next_charge_date: (sub.next_charge_date + SECONDS_PER_MONTH) as u64,
                ..sub
            }
            &&& post.subscriptions.remove(sub.id) == s.storage.subscriptions.remove(sub.id)
            &&& post.stats.total_volume == s.storage.stats.total_volume + amount
            &&& post.stats.fee_collected == s.storage.stats.fee_collected + fee
            &&& post.stats.total_tips == s.storage.stats.total_tips
            &&& post.stats.total_creators == s.storage.stats.total_creators
            &&& post.stats.total_subscriptions == s.storage.stats.total_subscriptions
            &&& after.events == s.events + goal_events(
                s.storage,
                sub.creator,
                amount - fee,
                s.timestamp,
            ) + seq![
                Event::SubscriptionCharged {
                    subscription_id: sub.id,
                    supporter: sub.supporter,
                    creator: sub.creator,
                    amount,
                    timestamp: s.timestamp,
                },
            ]
        }),
{
    crate::contract::lemma_net_fits(sub.amount_per_month as int, c.fee_basis_points as int);
    let post = charge_spec(s, c, sub, charged, allowance).0.storage;
    assert(post.profiles.remove(sub.creator@) =~= s.storage.profiles.remove(sub.creator@));
    assert(post.goals.remove(sub.creator@) =~= s.storage.goals.remove(sub.creator@));
    assert(post.subscriptions.remove(sub.id) =~= s.storage.subscriptions.remove(sub.id));
    let amount = sub.amount_per_month;
    let fee = fee_for(amount as int, c.fee_basis_points as int);
    assert(charge_spec(s, c, sub, charged, allowance).0.events =~= s.events + goal_events(
        s.storage,
        sub.creator,
        amount - fee,
        s.timestamp,
    ) + seq![
        Event::SubscriptionCharged {
            subscription_id: sub.id,
            supporter: sub.supporter,
            creator: sub.creator,
            amount,
            timestamp: s.timestamp,
        },
    ]);
}


proof fn lemma_entries_from_profiles(list: Seq<String>, profiles: Map<Seq<char>, CreatorProfile>)
    requires
        forall|w: Seq<char>| #[trigger] profiles.contains_key(w) ==> profiles[w].wallet@ == w,
    ensures
        forall|k: int|
            0 <= k < leaderboard_entries(list, profiles).len() ==> {
                let e = #[trigger] leaderboard_entries(list, profiles)[k];
                &&& profiles.contains_key(e.wallet@)
                &&& e == entry_of(profiles[e.wallet@])
            },
    decreases list.len(),
{
    if list.len() > 0 {
        let init = list.drop_last();
        lemma_entries_from_profiles(init, profiles);
        let prev = leaderboard_entries(init, profiles);
        let r = leaderboard_entries(list, profiles);
        assert forall|k: int| 0 <= k < r.len() implies {
            let e = #[trigger] r[k];
            &&& profiles.contains_key(e.wallet@)
            &&& e == entry_of(profiles[e.wallet@])
        } by {
            if k < prev.len() {
                assert(r[k] == prev[k]);
            }
        }
    }
}

/// Every row of the leaderboard is the row of a registered creator: its
/// wallet has a stored profile, and the row's wallet, name, total received
/// and tip count are those of that profile.
pub proof fn lemma_top_creators_rows_are_profiles(st: StorageView, limit: nat)
    requires
        keys_consistent(st),
    ensures
        forall|k: int|
            0 <= k < top_creators(st, limit).len() ==> {
                let e = #[trigger] top_creators(st, limit)[k];
                let p = st.profiles[e.wallet@];
                &&& st.profiles.contains_key(e.wallet@)
                &&& e.wallet == p.wallet
                &&& e.name == p.name
                &&& e.total_received == p.total_received
                &&& e.tip_count == p.tip_count
            },
{
    let all = leaderboard_entries(st.creator_list, st.profiles);
    lemma_entries_from_profiles(st.creator_list, st.profiles);
    lemma_top_creators(st, limit);
    let top = top_creators(st, limit);
    assert forall|k: int| 0 <= k < top.len() implies {
        let e = #[trigger] top[k];
        let p = st.profiles[e.wallet@];
        &&& st.profiles.contains_key(e.wallet@)
        &&& e.wallet == p.wallet
        &&& e.name == p.name
        &&& e.total_received == p.total_received
        &&& e.tip_count == p.tip_count
    } by {
        assert(all.contains(top[k]));
        let j = choose|j: int| 0 <= j < all.len() && all[j] == top[k];
        assert(all[j] == top[k]);
    }
}


/// Opening a subscription stores it, active, under the id it returns, with
/// the supporter, creator and monthly amount passed and its first charge a
/// month from now; the creator, when registered, has one subscriber more,
/// with every other field of its profile unchanged; no other profile
/// changes. One more subscription is counted, its opening is published,
/// and no funds move.
pub proof fn lemma_subscribe_counts_subscriber(
    s: EnvView,
    from: String,
    to: String,
    amount_per_month: i128,
)
    requires
        keys_consistent(s.storage),
        subscribe_spec(s, from, to, amount_per_month).1 is Ok,
    ensures
        ({
            let st = s.storage;
            let (s1, r) = subscribe_spec(s, from, to, amount_per_month);
            let post = s1.storage;
            let id = r->Ok_0;
            let sub = post.subscriptions[id];
            &&& post.subscriptions.contains_key(id)
            &&& sub.id == id
            &&& sub.supporter == from
            &&& sub.creator == to
            &&& sub.amount_per_month == amount_per_month
            &&& sub.next_charge_date == s.timestamp + SECONDS_PER_MONTH
            &&& sub.active
            &&& sub.created_at == s.timestamp
            &&& post.profiles.remove(to@) == st.profiles.remove(to@)
            &&& post.profiles.contains_key(to@) == st.profiles.contains_key(to@)
            &&& st.profiles.contains_key(to@) ==> {
                let p = st.profiles[to@];
                let q = post.profiles[to@];
                &&& q.subscriber_count == p.subscriber_count + 1
                &&& q == CreatorProfile { subscriber_count: q.subscriber_count, ..p }
            }
            &&& post.stats.total_subscriptions == st.stats.total_subscriptions + 1
            &&& s1.events == s.events.push(
                Event::SubscriptionCreated {
                    subscription_id: id,
                    supporter: from,
                    creator: to,
                    amount_per_month,
                    next_charge_date: sub.next_charge_date,
                },
            )
            &&& s1.token_calls == s.token_calls
        }),
{
    let post = subscribe_spec(s, from, to, amount_per_month).0.storage;
    assert(post.profiles.remove(to@) =~= s.storage.profiles.remove(to@));
}

/// Cancelling a subscription succeeds only for its supporter while it is
/// active; it marks the record inactive and leaves the rest of it, and the
/// creator, when registered, has one subscriber fewer (a count already at
/// zero stays there), with every other field of its profile unchanged; no
/// other profile changes. The cancellation is published.
pub proof fn lemma_cancel_subscription_uncounts_subscriber(
    s: EnvView,
    from: String,
    subscription_id: u64,
)
    requires
        keys_consistent(s.storage),
        cancel_subscription_spec(s, from, subscription_id).1 is Ok,
    ensures
        ({
            let st = s.storage;
            let post = cancel_subscription_spec(s, from, subscription_id).0.storage;
            let sub = st.subscriptions[subscription_id];
            let cr = sub.creator@;
            &&& st.subscriptions.contains_key(subscription_id)
            &&& sub.supporter@ == from@
            &&& sub.active
            &&& post.subscriptions.contains_key(subscription_id)
            &&& post.subscriptions[subscription_id] == Subscription { active: false, ..sub }
            &&& post.profiles.remove(cr) == st.profiles.remove(cr)
            &&& post.profiles.contains_key(cr) == st.profiles.contains_key(cr)
            &&& st.profiles.contains_key(cr) ==> {
                let p = st.profiles[cr];
                let q = post.profiles[cr];
                &&& p.subscriber_count > 0 ==> q.subscriber_count == p.subscriber_count - 1
                &&& p.subscriber_count == 0 ==> q.subscriber_count == 0
                &&& q == CreatorProfile { subscriber_count: q.subscriber_count, ..p }
            }
            &&& cancel_subscription_spec(s, from, subscription_id).0.events == s.events.push(
                Event::SubscriptionCancelled {
                    subscription_id,
                    supporter: from,
                    creator: sub.creator,
                    timestamp: s.timestamp,
                },
            )
        }),
{
    let st = s.storage;
    let post = cancel_subscription_spec(s, from, subscription_id).0.storage;
    let cr = st.subscriptions[subscription_id].creator@;
    assert(post.profiles.remove(cr) =~= st.profiles.remove(cr));
}

/// A supporter who opens a subscription can cancel it again at once, and
/// that leaves every creator profile as it was before the subscription
/// was opened: the subscriber count goes up by one and back down by one.
pub proof fn lemma_subscribe_then_cancel_restores_profiles(
    s: EnvView,
    from: String,
    to: String,
    amount_per_month: i128,
)
    requires
        keys_consistent(s.storage),
        subscribe_spec(s, from, to, amount_per_month).1 is Ok,
    ensures
        ({
            let (s1, r) = subscribe_spec(s, from, to, amount_per_month);
            let (s2, r2) = cancel_subscription_spec(s1, from, r->Ok_0);
            &&& r2 == Ok::<(), Failure>(())
            &&& s2.storage.profiles == s.storage.profiles
        }),
{
    let st = s.storage;
    let (s1, r) = subscribe_spec(s, from, to, amount_per_month);
    let id = r->Ok_0;
    assert(s1.storage.subscriptions.contains_key(id));
    let s2 = cancel_subscription_spec(s1, from, id).0;
    if st.profiles.contains_key(to@) {
        let p = st.profiles[to@];
        let q = s2.storage.profiles[to@];
        assert(q == p);
        assert(s2.storage.profiles =~= st.profiles);
    } else {
        assert(s2.storage.profiles =~= st.profiles);
    }
}


/// The contract can be initialized only while it has no configuration, with
/// a fee of at most 500 basis points; it then holds exactly the admin, fee,
/// treasury and token passed.
pub proof fn lemma_initialize_stores_config(
    s: EnvView,
    admin: String,
    fee_basis_points: u32,
    treasury: String,
    token: String,
)
    ensures
        ({
            let (post, r) = initialize_spec(s, admin, fee_basis_points, treasury, token);
            &&& (r is Ok) == (s.storage.config is None && fee_basis_points <= MAX_FEE_BASIS_POINTS)
            &&& r is Ok ==> {
                let c = post.storage.config->0;
                &&& post.storage.config is Some
                &&& c.admin == admin
                &&& c.fee_basis_points == fee_basis_points
                &&& c.treasury == treasury
                &&& c.token == token
            }
        }),
{
}

/// Updating a profile succeeds exactly for a registered wallet; the profile
/// then holds exactly the name, bio and avatar passed, and keeps its id,
/// wallet, totals, counts and registration date; no other profile changes.
pub proof fn lemma_update_profile_replaces_fields(
    s: EnvView,
    wallet: String,
    name: String,
    bio: String,
    avatar_ipfs: String,
)
    requires
        keys_consistent(s.storage),
    ensures
        ({
            let st = s.storage;
            let (post, r) = update_profile_spec(s, wallet, name, bio, avatar_ipfs);
            &&& (r is Ok) == st.profiles.contains_key(wallet@)
            &&& r is Ok ==> {
                let p = st.profiles[wallet@];
                let q = post.storage.profiles[wallet@];
                &&& post.storage.profiles.contains_key(wallet@)
                &&& q.name == name
                &&& q.bio == bio
                &&& q.avatar_ipfs == avatar_ipfs
                &&& q.id == p.id
                &&& q.wallet == p.wallet
                &&& q.total_received == p.total_received
                &&& q.tip_count == p.tip_count
                &&& q.subscriber_count == p.subscriber_count
                &&& q.registered_at == p.registered_at
                &&& post.storage.profiles.remove(wallet@) == st.profiles.remove(wallet@)
            }
        }),
{
    let post = update_profile_spec(s, wallet, name, bio, avatar_ipfs).0;
    assert(post.storage.profiles.remove(wallet@) =~= s.storage.profiles.remove(wallet@));
}

/// Setting a goal succeeds for a registered creator and a positive target;
/// it replaces the creator's goal by a new open one with the target and
/// description passed, nothing received toward it, the current time as
/// its creation date, and the id it returns; no other goal changes.
pub proof fn lemma_set_tip_goal_stores_goal(
    s: EnvView,
    creator: String,
    goal_amount: i128,
    description: String,
)
    ensures
        ({
            let st = s.storage;
            let (post, r) = set_tip_goal_spec(s, creator, goal_amount, description);
            &&& (r == Err::<u64, Failure>(Failure::Contract(Error::CreatorNotFound)))
                == !st.profiles.contains_key(creator@)
            &&& (r == Err::<u64, Failure>(Failure::Contract(Error::InvalidAmount)))
                == (st.profiles.contains_key(creator@) && goal_amount <= 0)
            &&& (r is Ok) == (st.profiles.contains_key(creator@) && goal_amount > 0
                && st.goal_id_counter < u64::MAX)
            &&& r is Ok ==> {
                let g = post.storage.goals[creator@];
                &&& post.storage.goals.contains_key(creator@)
                &&& r == Ok::<u64, Failure>(g.id)
                &&& g.id == st.goal_id_counter + 1
                &&& g.creator == creator
                &&& g.goal_amount == goal_amount
                &&& g.current_amount == 0
                &&& g.description == description
                &&& !g.completed
                &&& g.created_at == s.timestamp
                &&& post.storage.goals.remove(creator@) == st.goals.remove(creator@)
                &&& post.events == s.events.push(
                    Event::GoalSet { goal_id: g.id, creator, goal_amount, description },
                )
            }
        }),
{
    let post = set_tip_goal_spec(s, creator, goal_amount, description).0;
    assert(post.storage.goals.remove(creator@) =~= s.storage.goals.remove(creator@));
}

/// Completing a goal succeeds exactly when the creator's current goal has
/// the id passed and is still open; it is then marked completed with the
/// rest of it unchanged, and its completion is published.
pub proof fn lemma_complete_tip_goal_closes_goal(s: EnvView, creator: String, goal_id: u64)
    requires
        keys_consistent(s.storage),
    ensures
        ({
            let st = s.storage;
            let (post, r) = complete_tip_goal_spec(s, creator, goal_id);
            let g = st.goals[creator@];
            &&& (r is Ok) == (st.goals.contains_key(creator@) && g.id == goal_id && !g.completed)
            &&& r is Ok ==> {
                &&& post.storage.goals.contains_key(creator@)
                &&& post.storage.goals[creator@] == TipGoal { completed: true, ..g }
                &&& post.storage.goals.remove(creator@) == st.goals.remove(creator@)
                &&& post.events == s.events.push(
                    Event::GoalReached {
                        goal_id,
                        creator,
                        goal_amount: g.goal_amount,
                        timestamp: s.timestamp,
                    },
                )
            }
        }),
{
    let post = complete_tip_goal_spec(s, creator, goal_id).0;
    assert(post.storage.goals.remove(creator@) =~= s.storage.goals.remove(creator@));
}

/// The admin's fee update sets the fee to the value passed and keeps the
/// admin, treasury and token; it publishes the old fee and the new one.
pub proof fn lemma_update_fee_sets_fee(s: EnvView, admin: String, fee_basis_points: u32)
    requires
        update_fee_spec(s, admin, fee_basis_points).1 is Ok,
    ensures
        ({
            let c = s.storage.config->0;
            let post = update_fee_spec(s, admin, fee_basis_points).0;
            let d = post.storage.config->0;
            &&& s.storage.config is Some
            &&& admin@ == c.admin@
            &&& fee_basis_points <= MAX_FEE_BASIS_POINTS
            &&& post.storage.config is Some
            &&& d.fee_basis_points == fee_basis_points
            &&& d.admin == c.admin
            &&& d.treasury == c.treasury
            &&& d.token == c.token
            &&& post.events == s.events.push(
                Event::FeeUpdated { old_fee: c.fee_basis_points, new_fee: fee_basis_points, admin },
            )
        }),
{
}


proof fn lemma_due_among_complete(ids: Seq<u64>, subs: Map<u64, Subscription>, now: u64, k: int)
    requires
        0 <= k < ids.len(),
        subs.contains_key(ids[k]),
        subs[ids[k]].active,
        subs[ids[k]].next_charge_date <= now,
    ensures
        due_among(ids, subs, now).contains(subs[ids[k]]),
    decreases ids.len(),
{
    let prev = due_among(ids.drop_last(), subs, now);
    let due = due_among(ids, subs, now);
    if k == ids.len() - 1 {
        assert(due[due.len() - 1] == subs[ids[k]]);
    } else {
        assert(ids.drop_last()[k] == ids[k]);
        lemma_due_among_complete(ids.drop_last(), subs, now, k);
        let j = choose|j: int| 0 <= j < prev.len() && prev[j] == subs[ids[k]];
        assert(due[j] == prev[j]);
    }
}

/// A pass of `process_due_subscriptions` leaves out no subscription that is
/// due: every stored subscription that is active and whose charge date has
/// come is in the due list.
pub proof fn lemma_due_list_complete(st: StorageView, id: u64, now: u64)
    requires
        contract_invariant(st),
        st.subscriptions.contains_key(id),
        st.subscriptions[id].active,
        st.subscriptions[id].next_charge_date <= now,
    ensures
        due_among(st.subscription_ids, st.subscriptions, now).contains(st.subscriptions[id]),
{
    assert(st.subscription_ids.contains(id));
    let k = choose|k: int| 0 <= k < st.subscription_ids.len() && st.subscription_ids[k] == id;
    lemma_due_among_complete(st.subscription_ids, st.subscriptions, now, k);
}


// ---------------------------------------------------------------------
// When an entry point succeeds
// ---------------------------------------------------------------------

/// A tip is refused when the contract is not initialized and when its
/// amount is zero or negative, for exactly those reasons; it aborts only
/// when a counter or a running total it touches is at its limit; in every
/// other case it succeeds.
pub proof fn lemma_tip_outcomes(
    s: EnvView,
    from: String,
    to: String,
    amount: i128,
    message_ipfs: String,
)
    ensures
        ({
            let st = s.storage;
            let r = tip_spec(s, from, to, amount, message_ipfs).1;
            let c = st.config->0;
            let fee = fee_for(amount as int, c.fee_basis_points as int);
            let net = amount - fee;
            let w = to@;
            let at_limit = {
                ||| !fits_i128(amount * c.fee_basis_points)
                ||| st.tip_id_counter == u64::MAX
                ||| st.stats.total_tips == u32::MAX
                ||| !fits_i128(st.stats.total_volume + amount)
                ||| !fits_i128(st.stats.fee_collected + fee)
                ||| (st.profiles.contains_key(w) && !fits_i128(st.profiles[w].total_received + net))
                ||| (st.profiles.contains_key(w) && st.profiles[w].tip_count == u32::MAX)
                ||| (st.profiles.contains_key(w) && st.goals.contains_key(w)
                    && !st.goals[w].completed && !fits_i128(st.goals[w].current_amount + net))
            };
            &&& (r == Err::<u64, Failure>(Failure::Contract(Error::NotInitialized)))
                == (st.config is None)
            &&& (r == Err::<u64, Failure>(Failure::Contract(Error::ZeroAmount)))
                == (st.config is Some && amount == 0)
            &&& (r == Err::<u64, Failure>(Failure::Contract(Error::InvalidAmount)))
                == (st.config is Some && amount < 0)
            &&& (r == Err::<u64, Failure>(Failure::Overflow))
                == (st.config is Some && amount > 0 && at_limit)
            &&& (r is Ok) == (st.config is Some && amount > 0 && !at_limit)
        }),
{
}

/// A subscription is refused when the contract is not initialized and when
/// its monthly amount is zero or negative, for exactly those reasons; it
/// aborts only when a counter or the charge date would pass its limit; in
/// every other case it succeeds.
pub proof fn lemma_subscribe_outcomes(s: EnvView, from: String, to: String, amount_per_month: i128)
    ensures
        ({
            let st = s.storage;
            let r = subscribe_spec(s, from, to, amount_per_month).1;
            let at_limit = {
                ||| st.subscription_id_counter == u64::MAX
                ||| s.timestamp + SECONDS_PER_MONTH > u64::MAX
                ||| st.stats.total_subscriptions == u32::MAX
                ||| (st.profiles.contains_key(to@) && st.profiles[to@].subscriber_count
                    == u32::MAX)
            };
            &&& (r == Err::<u64, Failure>(Failure::Contract(Error::NotInitialized)))
                == (st.config is None)
            &&& (r == Err::<u64, Failure>(Failure::Contract(Error::ZeroAmount)))
                == (st.config is Some && amount_per_month == 0)
            &&& (r == Err::<u64, Failure>(Failure::Contract(Error::InvalidAmount)))
                == (st.config is Some && amount_per_month < 0)
            &&& (r == Err::<u64, Failure>(Failure::Overflow))
                == (st.config is Some && amount_per_month > 0 && at_limit)
            &&& (r is Ok) == (st.config is Some && amount_per_month > 0 && !at_limit)
        }),
{
}

/// Cancelling is refused for an unknown subscription, by anyone but its
/// supporter, and once it is cancelled, for exactly those reasons; in every
/// other case it succeeds.
pub proof fn lemma_cancel_subscription_outcomes(s: EnvView, from: String, subscription_id: u64)
    ensures
        ({
            let subs = s.storage.subscriptions;
            let r = cancel_subscription_spec(s, from, subscription_id).1;
            let sub = subs[subscription_id];
            &&& (r == Err::<(), Failure>(Failure::Contract(Error::SubscriptionNotFound)))
                == !subs.contains_key(subscription_id)
            &&& (r == Err::<(), Failure>(Failure::Contract(Error::NotSubscriber)))
                == (subs.contains_key(subscription_id) && sub.supporter@ != from@)
            &&& (r == Err::<(), Failure>(Failure::Contract(Error::SubscriptionAlreadyCancelled)))
                == (subs.contains_key(subscription_id) && sub.supporter@ == from@ && !sub.active)
            &&& (r is Ok) == (subs.contains_key(subscription_id) && sub.supporter@ == from@
                && sub.active)
        }),
{
}

/// Registration is refused only when the contract is not initialized; a
/// registered wallet gets its existing id back; a new wallet is registered
/// unless the profile counter or the creator count is at its limit.
pub proof fn lemma_register_creator_outcomes(
    s: EnvView,
    wallet: String,
    name: String,
    bio: String,
    avatar_ipfs: String,
)
    ensures
        ({
            let st = s.storage;
            let r = register_creator_spec(s, wallet, name, bio, avatar_ipfs).1;
            &&& (r == Err::<u64, Failure>(Failure::Contract(Error::NotInitialized)))
                == (st.config is None)
            &&& (st.config is Some && st.profiles.contains_key(wallet@)) ==> r == Ok::<
                u64,
                Failure,
            >(st.profiles[wallet@].id)
            &&& (r == Err::<u64, Failure>(Failure::Overflow)) == (st.config is Some
                && !st.profiles.contains_key(wallet@) && (st.profile_id_counter == u64::MAX
                || st.stats.total_creators == u32::MAX))
        }),
{
}

/// A step of a pass skips the subscription, changing nothing, exactly when
/// the supporter's allowance is below the monthly amount; otherwise it
/// aborts only when a running total, the charge date or the pass's count
/// is at its limit, and in every other case it charges.
pub proof fn lemma_charge_outcomes(
    s: EnvView,
    c: Config,
    sub: Subscription,
    charged: u32,
    allowance: i128,
)
    ensures
        ({
            let st = s.storage;
            let (post, r) = charge_spec(s, c, sub, charged, allowance);
            let amount = sub.amount_per_month;
            let fee = fee_for(amount as int, c.fee_basis_points as int);
            let net = amount - fee;
            let w = sub.creator@;
            let at_limit = {
                ||| !fits_i128(amount * c.fee_basis_points)
                ||| sub.next_charge_date + SECONDS_PER_MONTH > u64::MAX
                ||| !fits_i128(st.stats.total_volume + amount)
                ||| !fits_i128(st.stats.fee_collected + fee)
                ||| charged == u32::MAX
                ||| (st.profiles.contains_key(w) && !fits_i128(st.profiles[w].total_received + net))
                ||| (st.profiles.contains_key(w) && st.goals.contains_key(w)
                    && !st.goals[w].completed && !fits_i128(st.goals[w].current_amount + net))
            };
            &&& (r == Ok::<bool, Failure>(false)) == (allowance < amount)
            &&& r == Ok::<bool, Failure>(false) ==> post == s
            &&& (r == Err::<bool, Failure>(Failure::Overflow)) == (allowance >= amount && at_limit)
            &&& (r == Ok::<bool, Failure>(true)) == (allowance >= amount && !at_limit)
        }),
{
}


/// A fee update is refused before initialization, for anyone but the
/// admin, and for a fee above 500 basis points, for exactly those reasons;
/// in every other case it succeeds.
pub proof fn lemma_update_fee_outcomes(s: EnvView, admin: String, fee_basis_points: u32)
    ensures
        ({
            let r = update_fee_spec(s, admin, fee_basis_points).1;
            let c = s.storage.config->0;
            &&& (r == Err::<(), Failure>(Failure::Contract(Error::NotInitialized)))
                == (s.storage.config is None)
            &&& (r == Err::<(), Failure>(Failure::Contract(Error::Unauthorized)))
                == (s.storage.config is Some && admin@ != c.admin@)
            &&& (r == Err::<(), Failure>(Failure::Contract(Error::InvalidFee)))
                == (s.storage.config is Some && admin@ == c.admin@
                && fee_basis_points > MAX_FEE_BASIS_POINTS)
            &&& (r is Ok) == (s.storage.config is Some && admin@ == c.admin@
                && fee_basis_points <= MAX_FEE_BASIS_POINTS)
        }),
{
}

} // verus!
