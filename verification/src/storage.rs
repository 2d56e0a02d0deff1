//! The contract's persistent state, entry by entry: the configuration, the
//! statistics, the id counters, the records (profiles, tips, subscriptions,
//! goals) and the per-wallet id indexes. Each keyed collection is a vector
//! of records that carry their own key; its view is the map from key to
//! record that the contract reads and writes.
use vstd::prelude::*;

use crate::keyed::{
    has_key, lemma_keyed_first, is_first_index, keyed_map, lemma_keyed_absent, lemma_keyed_lookup, lemma_keyed_push,
    lemma_keyed_update, lookup,
};
use crate::types::{Config, CreatorProfile, ProtocolStats, Subscription, Tip, TipGoal};

verus! {

/// The ids filed under one wallet, oldest first.
#[derive(Debug)]
pub struct WalletIndex {
    pub wallet: String,
    pub ids: Vec<u64>,
}

/// Every entry the contract keeps in storage.
#[derive(Debug)]
pub struct Storage {
    pub config: Option<Config>,
    pub stats: ProtocolStats,
    pub profile_id_counter: u64,
    pub tip_id_counter: u64,
    pub subscription_id_counter: u64,
    pub goal_id_counter: u64,
    /// Creator profiles, keyed by wallet.
    pub profiles: Vec<CreatorProfile>,
    /// Every wallet that has ever registered, in registration order.
    pub creator_list: Vec<String>,
    /// Tip records, keyed by id.
    pub tips: Vec<Tip>,
    /// Tip ids by the wallets that sent or received them.
    pub tips_by_wallet: Vec<WalletIndex>,
    /// Subscription records, keyed by id.
    pub subscriptions: Vec<Subscription>,
    /// Every subscription id, in creation order.
    pub subscription_ids: Vec<u64>,
    /// Subscription ids by supporter.
    pub subs_by_supporter: Vec<WalletIndex>,
    /// Subscription ids by creator.
    pub subs_by_creator: Vec<WalletIndex>,
    /// The current tip goal of each creator, keyed by creator.
    pub goals: Vec<TipGoal>,
}

/// The state as the contract sees it: keyed collections as maps.
pub struct StorageView {
    pub config: Option<Config>,
    pub stats: ProtocolStats,
    pub profile_id_counter: u64,
    pub tip_id_counter: u64,
    pub subscription_id_counter: u64,
    pub goal_id_counter: u64,
    pub profiles: Map<Seq<char>, CreatorProfile>,
    pub creator_list: Seq<String>,
    pub tips: Map<u64, Tip>,
    pub tips_by_wallet: Map<Seq<char>, Seq<u64>>,
    pub subscriptions: Map<u64, Subscription>,
    pub subscription_ids: Seq<u64>,
    pub subs_by_supporter: Map<Seq<char>, Seq<u64>>,
    pub subs_by_creator: Map<Seq<char>, Seq<u64>>,
    pub goals: Map<Seq<char>, TipGoal>,
}

pub open spec fn profile_key() -> spec_fn(CreatorProfile) -> Seq<char> {
    |p: CreatorProfile| p.wallet@
}

pub open spec fn tip_key() -> spec_fn(Tip) -> u64 {
    |t: Tip| t.id
}

pub open spec fn subscription_key() -> spec_fn(Subscription) -> u64 {
    |s: Subscription| s.id
}

pub open spec fn goal_key() -> spec_fn(TipGoal) -> Seq<char> {
    |g: TipGoal| g.creator@
}

pub open spec fn index_key() -> spec_fn(WalletIndex) -> Seq<char> {
    |e: WalletIndex| e.wallet@
}

pub open spec fn index_ids() -> spec_fn(WalletIndex) -> Seq<u64> {
    |e: WalletIndex| e.ids@
}

pub open spec fn whole<T>() -> spec_fn(T) -> T {
    |x: T| x
}

impl View for Storage {
    type V = StorageView;

    open spec fn view(&self) -> StorageView {
        StorageView {
            config: self.config,
            stats: self.stats,
            profile_id_counter: self.profile_id_counter,
            tip_id_counter: self.tip_id_counter,
            subscription_id_counter: self.subscription_id_counter,
            goal_id_counter: self.goal_id_counter,
            profiles: keyed_map(self.profiles@, profile_key(), whole()),
            creator_list: self.creator_list@,
            tips: keyed_map(self.tips@, tip_key(), whole()),
            tips_by_wallet: keyed_map(self.tips_by_wallet@, index_key(), index_ids()),
            subscriptions: keyed_map(self.subscriptions@, subscription_key(), whole()),
            subscription_ids: self.subscription_ids@,
            subs_by_supporter: keyed_map(self.subs_by_supporter@, index_key(), index_ids()),
            subs_by_creator: keyed_map(self.subs_by_creator@, index_key(), index_ids()),
            goals: keyed_map(self.goals@, goal_key(), whole()),
        }
    }
}

/// The ids filed under `w` (none when the wallet has no entry).
pub open spec fn ids_in(m: Map<Seq<char>, Seq<u64>>, w: Seq<char>) -> Seq<u64> {
    if m.contains_key(w) {
        m[w]
    } else {
        Seq::empty()
    }
}

/// The index after appending `id` to the ids filed under `w`.
pub open spec fn index_push(m: Map<Seq<char>, Seq<u64>>, w: Seq<char>, id: u64) -> Map<
    Seq<char>,
    Seq<u64>,
> {
    m.insert(w, ids_in(m, w).push(id))
}

/// The active subscriptions among `ids` whose charge date is at or before
/// `now`, in the order of `ids` (ids without a record are passed over).
pub open spec fn due_among(ids: Seq<u64>, subs: Map<u64, Subscription>, now: u64) -> Seq<
    Subscription,
>
    decreases ids.len(),
{
    if ids.len() == 0 {
        Seq::empty()
    } else {
        let prev = due_among(ids.drop_last(), subs, now);
        let id = ids.last();
        if subs.contains_key(id) && subs[id].active && subs[id].next_charge_date <= now {
            prev.push(subs[id])
        } else {
            prev
        }
    }
}

/// The empty state of a freshly deployed contract.
pub open spec fn empty_view() -> StorageView {
    StorageView {
        config: None,
        stats: ProtocolStats::spec_zero(),
        profile_id_counter: 0,
        tip_id_counter: 0,
        subscription_id_counter: 0,
        goal_id_counter: 0,
        profiles: Map::empty(),
        creator_list: Seq::empty(),
        tips: Map::empty(),
        tips_by_wallet: Map::empty(),
        subscriptions: Map::empty(),
        subscription_ids: Seq::empty(),
        subs_by_supporter: Map::empty(),
        subs_by_creator: Map::empty(),
        goals: Map::empty(),
    }
}

/// The state after `save_config`.
pub open spec fn config_saved(st: StorageView, config: Config) -> StorageView {
    StorageView { config: Some(config), ..st }
}

/// The state after `save_profile`: the profile is stored under its wallet,
/// and a wallet seen for the first time is appended to the creator list.
pub open spec fn profile_saved(st: StorageView, profile: CreatorProfile) -> StorageView {
    StorageView {
        profiles: st.profiles.insert(profile.wallet@, profile),
        creator_list: if st.profiles.contains_key(profile.wallet@) {
            st.creator_list
        } else {
            st.creator_list.push(profile.wallet)
        },
        ..st
    }
}

/// The state after `save_tip`: the record is stored under its id and the id
/// is filed under the sender and, when different, the recipient.
pub open spec fn tip_saved(st: StorageView, tip: Tip) -> StorageView {
    StorageView {
        tips: st.tips.insert(tip.id, tip),
        tips_by_wallet: if tip.to@ != tip.from@ {
            index_push(index_push(st.tips_by_wallet, tip.from@, tip.id), tip.to@, tip.id)
        } else {
            index_push(st.tips_by_wallet, tip.from@, tip.id)
        },
        ..st
    }
}

/// The state after `save_subscription`.
pub open spec fn subscription_saved(st: StorageView, subscription: Subscription) -> StorageView {
    StorageView { subscriptions: st.subscriptions.insert(subscription.id, subscription), ..st }
}

/// The state after `index_new_subscription`.
pub open spec fn subscription_indexed(st: StorageView, subscription: Subscription) -> StorageView {
    StorageView {
        subs_by_supporter: index_push(st.subs_by_supporter, subscription.supporter@, subscription.id),
        subs_by_creator: index_push(st.subs_by_creator, subscription.creator@, subscription.id),
        subscription_ids: st.subscription_ids.push(subscription.id),
        ..st
    }
}

/// The state after `save_goal`.
pub open spec fn goal_saved(st: StorageView, goal: TipGoal) -> StorageView {
    StorageView { goals: st.goals.insert(goal.creator@, goal), ..st }
}

/// The state with new statistics.
pub open spec fn stats_saved(st: StorageView, stats: ProtocolStats) -> StorageView {
    StorageView { stats, ..st }
}

proof fn lemma_keyed_empty<T, K, V>(key: spec_fn(T) -> K, val: spec_fn(T) -> V)
    ensures
        keyed_map(Seq::<T>::empty(), key, val) == Map::<K, V>::empty(),
{
    assert(keyed_map(Seq::<T>::empty(), key, val) =~= Map::<K, V>::empty());
}

impl Storage {
    /// The storage of a freshly deployed contract.
    pub fn new() -> (s: Storage)
        ensures
            s@ == empty_view(),
    {
        proof {
            lemma_keyed_empty(profile_key(), whole::<CreatorProfile>());
            lemma_keyed_empty(tip_key(), whole::<Tip>());
            lemma_keyed_empty(index_key(), index_ids());
            lemma_keyed_empty(subscription_key(), whole::<Subscription>());
            lemma_keyed_empty(goal_key(), whole::<TipGoal>());
        }
        Storage {
            config: None,
            stats: ProtocolStats::zero(),
            profile_id_counter: 0,
            tip_id_counter: 0,
            subscription_id_counter: 0,
            goal_id_counter: 0,
            profiles: Vec::new(),
            creator_list: Vec::new(),
            tips: Vec::new(),
            tips_by_wallet: Vec::new(),
            subscriptions: Vec::new(),
            subscription_ids: Vec::new(),
            subs_by_supporter: Vec::new(),
            subs_by_creator: Vec::new(),
            goals: Vec::new(),
        }
    }
}

// ---------------------------------------------------------------------
// Searching and copying
// ---------------------------------------------------------------------

fn find_profile(v: &Vec<CreatorProfile>, wallet: &String) -> (r: Option<usize>)
    ensures
        match r {
            Some(i) => is_first_index(v@, profile_key(), wallet@, i as int),
            None => !has_key(v@, profile_key(), wallet@),
        },
{
    let mut i: usize = 0;
    while i < v.len()
        invariant
            i <= v.len(),
            forall|j: int| 0 <= j < i ==> #[trigger] profile_key()(v@[j]) != wallet@,
        decreases v.len() - i,
    {
        if v[i].wallet == *wallet {
            return Some(i);
        }
        i = i + 1;
    }
    None
}

fn find_goal(v: &Vec<TipGoal>, creator: &String) -> (r: Option<usize>)
    ensures
        match r {
            Some(i) => is_first_index(v@, goal_key(), creator@, i as int),
            None => !has_key(v@, goal_key(), creator@),
        },
{
    let mut i: usize = 0;
    while i < v.len()
        invariant
            i <= v.len(),
            forall|j: int| 0 <= j < i ==> #[trigger] goal_key()(v@[j]) != creator@,
        decreases v.len() - i,
    {
        if v[i].creator == *creator {
            return Some(i);
        }
        i = i + 1;
    }
    None
}

fn find_tip(v: &Vec<Tip>, id: u64) -> (r: Option<usize>)
    ensures
        match r {
            Some(i) => is_first_index(v@, tip_key(), id, i as int),
            None => !has_key(v@, tip_key(), id),
        },
{
    let mut i: usize = 0;
    while i < v.len()
        invariant
            i <= v.len(),
            forall|j: int| 0 <= j < i ==> #[trigger] tip_key()(v@[j]) != id,
        decreases v.len() - i,
    {
        if v[i].id == id {
            return Some(i);
        }
        i = i + 1;
    }
    None
}

fn find_subscription(v: &Vec<Subscription>, id: u64) -> (r: Option<usize>)
    ensures
        match r {
            Some(i) => is_first_index(v@, subscription_key(), id, i as int),
            None => !has_key(v@, subscription_key(), id),
        },
{
    let mut i: usize = 0;
    while i < v.len()
        invariant
            i <= v.len(),
            forall|j: int| 0 <= j < i ==> #[trigger] subscription_key()(v@[j]) != id,
        decreases v.len() - i,
    {
        if v[i].id == id {
            return Some(i);
        }
        i = i + 1;
    }
    None
}

fn find_index_entry(v: &Vec<WalletIndex>, wallet: &String) -> (r: Option<usize>)
    ensures
        match r {
            Some(i) => is_first_index(v@, index_key(), wallet@, i as int),
            None => !has_key(v@, index_key(), wallet@),
        },
{
    let mut i: usize = 0;
    while i < v.len()
        invariant
            i <= v.len(),
            forall|j: int| 0 <= j < i ==> #[trigger] index_key()(v@[j]) != wallet@,
        decreases v.len() - i,
    {
        if v[i].wallet == *wallet {
            return Some(i);
        }
        i = i + 1;
    }
    None
}

/// A copy of a list of ids.
pub fn copy_ids(v: &Vec<u64>) -> (r: Vec<u64>)
    ensures
        r@ == v@,
{
    let mut r: Vec<u64> = Vec::new();
    let mut i: usize = 0;
    while i < v.len()
        invariant
            i <= v.len(),
            r@ == v@.take(i as int),
        decreases v.len() - i,
    {
        r.push(v[i]);
        i = i + 1;
        assert(r@ =~= v@.take(i as int));
    }
    assert(v@.take(v.len() as int) =~= v@);
    r
}

/// A copy of a list of wallets.
pub fn copy_wallets(v: &Vec<String>) -> (r: Vec<String>)
    ensures
        r@ == v@,
{
    let mut r: Vec<String> = Vec::new();
    let mut i: usize = 0;
    while i < v.len()
        invariant
            i <= v.len(),
            r@ == v@.take(i as int),
        decreases v.len() - i,
    {
        r.push(v[i].clone());
        i = i + 1;
        assert(r@ =~= v@.take(i as int));
    }
    assert(v@.take(v.len() as int) =~= v@);
    r
}

/// The ids filed under `wallet` in an index.
fn index_lookup(index: &Vec<WalletIndex>, wallet: &String) -> (r: Vec<u64>)
    ensures
        r@ == ids_in(keyed_map(index@, index_key(), index_ids()), wallet@),
{
    match find_index_entry(index, wallet) {
        Some(i) => {
            proof {
                lemma_keyed_lookup(index@, index_key(), index_ids(), i as int);
            }
            copy_ids(&index[i].ids)
        },
        None => {
            proof {
                lemma_keyed_absent(index@, index_key(), index_ids(), wallet@);
            }
            Vec::new()
        },
    }
}

/// Appends `id` to the ids filed under `wallet`.
fn add_to_wallet_index(index: &mut Vec<WalletIndex>, wallet: &String, id: u64)
    ensures
        keyed_map(final(index)@, index_key(), index_ids()) == index_push(
            keyed_map(old(index)@, index_key(), index_ids()),
            wallet@,
            id,
        ),
{
    match find_index_entry(index, wallet) {
        Some(i) => {
            let mut ids = copy_ids(&index[i].ids);
            ids.push(id);
            let entry = WalletIndex { wallet: wallet.clone(), ids };
            proof {
                lemma_keyed_lookup(index@, index_key(), index_ids(), i as int);
                lemma_keyed_update(index@, index_key(), index_ids(), i as int, entry);
            }
            index.set(i, entry);
        },
        None => {
            let mut ids: Vec<u64> = Vec::new();
            ids.push(id);
            let entry = WalletIndex { wallet: wallet.clone(), ids };
            proof {
                lemma_keyed_absent(index@, index_key(), index_ids(), wallet@);
                lemma_keyed_push(index@, index_key(), index_ids(), entry);
            }
            index.push(entry);
        },
    }
}

// ---------------------------------------------------------------------
// Config
// ---------------------------------------------------------------------

/// Persists the global contract configuration.
pub fn save_config(storage: &mut Storage, config: &Config)
    ensures
        final(storage)@ == config_saved(old(storage)@, *config),
{
    storage.config = Some(config.clone());
}

/// Loads the global contract configuration, if the contract has been initialized.
pub fn load_config(storage: &Storage) -> (r: Option<Config>)
    ensures
        r == storage@.config,
{
    match &storage.config {
        Some(c) => Some(c.clone()),
        None => None,
    }
}

// ---------------------------------------------------------------------
// Id counters
// ---------------------------------------------------------------------

/// Advances a counter and returns its new value: successive calls on one
/// counter give 1, 2, 3, ... and touch nothing else.
pub fn next_id(counter: &mut u64) -> (next: u64)
    requires
        *old(counter) < u64::MAX,
    ensures
        next == *old(counter) + 1,
        *final(counter) == next,
{
    *counter = *counter + 1;
    *counter
}

/// Allocates and returns the next creator profile id.
pub fn next_profile_id(storage: &mut Storage) -> (id: u64)
    requires
        old(storage)@.profile_id_counter < u64::MAX,
    ensures
        id == old(storage)@.profile_id_counter + 1,
        final(storage)@ == (StorageView { profile_id_counter: id, ..old(storage)@ }),
{
    next_id(&mut storage.profile_id_counter)
}

/// Allocates and returns the next tip id.
pub fn next_tip_id(storage: &mut Storage) -> (id: u64)
    requires
        old(storage)@.tip_id_counter < u64::MAX,
    ensures
        id == old(storage)@.tip_id_counter + 1,
        final(storage)@ == (StorageView { tip_id_counter: id, ..old(storage)@ }),
{
    next_id(&mut storage.tip_id_counter)
}

/// Allocates and returns the next subscription id.
pub fn next_subscription_id(storage: &mut Storage) -> (id: u64)
    requires
        old(storage)@.subscription_id_counter < u64::MAX,
    ensures
        id == old(storage)@.subscription_id_counter + 1,
        final(storage)@ == (StorageView { subscription_id_counter: id, ..old(storage)@ }),
{
    next_id(&mut storage.subscription_id_counter)
}

/// Allocates and returns the next tip goal id.
pub fn next_goal_id(storage: &mut Storage) -> (id: u64)
    requires
        old(storage)@.goal_id_counter < u64::MAX,
    ensures
        id == old(storage)@.goal_id_counter + 1,
        final(storage)@ == (StorageView { goal_id_counter: id, ..old(storage)@ }),
{
    next_id(&mut storage.goal_id_counter)
}

// ---------------------------------------------------------------------
// Creator profiles
// ---------------------------------------------------------------------

/// Persists a creator profile, keyed by wallet address, and lists a new
/// wallet for the leaderboard.
pub fn save_profile(storage: &mut Storage, profile: &CreatorProfile)
    ensures
        final(storage)@ == profile_saved(old(storage)@, *profile),
{
    match find_profile(&storage.profiles, &profile.wallet) {
        Some(i) => {
            proof {
                lemma_keyed_lookup(storage.profiles@, profile_key(), whole(), i as int);
                lemma_keyed_update(storage.profiles@, profile_key(), whole(), i as int, *profile);
            }
            storage.profiles.set(i, profile.clone());
        },
        None => {
            proof {
                lemma_keyed_absent(storage.profiles@, profile_key(), whole(), profile.wallet@);
                lemma_keyed_push(storage.profiles@, profile_key(), whole(), *profile);
            }
            storage.profiles.push(profile.clone());
            storage.creator_list.push(profile.wallet.clone());
        },
    }
}

/// Loads a creator profile by wallet address.
pub fn load_profile(storage: &Storage, wallet: &String) -> (r: Option<CreatorProfile>)
    ensures
        r == lookup(storage@.profiles, wallet@),
        r matches Some(p) ==> p.wallet@ == wallet@,
{
    match find_profile(&storage.profiles, wallet) {
        Some(i) => {
            proof {
                lemma_keyed_lookup(storage.profiles@, profile_key(), whole(), i as int);
            }
            Some(storage.profiles[i].clone())
        },
        None => {
            proof {
                lemma_keyed_absent(storage.profiles@, profile_key(), whole(), wallet@);
            }
            None
        },
    }
}

/// Returns whether a creator profile already exists for the given wallet.
pub fn profile_exists(storage: &Storage, wallet: &String) -> (r: bool)
    ensures
        r == storage@.profiles.contains_key(wallet@),
{
    match find_profile(&storage.profiles, wallet) {
        Some(i) => {
            proof {
                lemma_keyed_lookup(storage.profiles@, profile_key(), whole(), i as int);
            }
            true
        },
        None => {
            proof {
                lemma_keyed_absent(storage.profiles@, profile_key(), whole(), wallet@);
            }
            false
        },
    }
}

/// Returns every wallet address that has ever registered a creator profile.
pub fn all_creator_wallets(storage: &Storage) -> (r: Vec<String>)
    ensures
        r@ == storage@.creator_list,
{
    copy_wallets(&storage.creator_list)
}

// ---------------------------------------------------------------------
// Tips
// ---------------------------------------------------------------------

/// Persists a tip record and indexes it under both the sender's and recipient's wallets.
pub fn save_tip(storage: &mut Storage, tip: &Tip)
    ensures
        final(storage)@ == tip_saved(old(storage)@, *tip),
{
    match find_tip(&storage.tips, tip.id) {
        Some(i) => {
            proof {
                lemma_keyed_lookup(storage.tips@, tip_key(), whole(), i as int);
                lemma_keyed_update(storage.tips@, tip_key(), whole(), i as int, *tip);
            }
            storage.tips.set(i, tip.clone());
        },
        None => {
            proof {
                lemma_keyed_absent(storage.tips@, tip_key(), whole(), tip.id);
                lemma_keyed_push(storage.tips@, tip_key(), whole(), *tip);
            }
            storage.tips.push(tip.clone());
        },
    }
    add_to_wallet_index(&mut storage.tips_by_wallet, &tip.from, tip.id);
    if tip.to != tip.from {
        add_to_wallet_index(&mut storage.tips_by_wallet, &tip.to, tip.id);
    }
}

/// Loads a tip record by id.
pub fn load_tip(storage: &Storage, id: u64) -> (r: Option<Tip>)
    ensures
        r == lookup(storage@.tips, id),
        r matches Some(t) ==> t.id == id,
{
    match find_tip(&storage.tips, id) {
        Some(i) => {
            proof {
                lemma_keyed_lookup(storage.tips@, tip_key(), whole(), i as int);
            }
            Some(storage.tips[i].clone())
        },
        None => {
            proof {
                lemma_keyed_absent(storage.tips@, tip_key(), whole(), id);
            }
            None
        },
    }
}

/// Returns the ids of every tip involving the given wallet, oldest first.
pub fn tip_ids_for_wallet(storage: &Storage, wallet: &String) -> (r: Vec<u64>)
    ensures
        r@ == ids_in(storage@.tips_by_wallet, wallet@),
{
    index_lookup(&storage.tips_by_wallet, wallet)
}

// ---------------------------------------------------------------------
// Subscriptions
// ---------------------------------------------------------------------

/// Persists a subscription record.
pub fn save_subscription(storage: &mut Storage, subscription: &Subscription)
    ensures
        final(storage)@ == subscription_saved(old(storage)@, *subscription),
{
    match find_subscription(&storage.subscriptions, subscription.id) {
        Some(i) => {
            proof {
                lemma_keyed_lookup(storage.subscriptions@, subscription_key(), whole(), i as int);
                lemma_keyed_update(
                    storage.subscriptions@,
                    subscription_key(),
                    whole(),
                    i as int,
                    *subscription,
                );
            }
            storage.subscriptions.set(i, subscription.clone());
        },
        None => {
            proof {
                lemma_keyed_absent(
                    storage.subscriptions@,
                    subscription_key(),
                    whole(),
                    subscription.id,
                );
                lemma_keyed_push(storage.subscriptions@, subscription_key(), whole(), *subscription);
            }
            storage.subscriptions.push(subscription.clone());
        },
    }
}

/// Loads a subscription record by id.
pub fn load_subscription(storage: &Storage, id: u64) -> (r: Option<Subscription>)
    ensures
        r == lookup(storage@.subscriptions, id),
        r matches Some(s) ==> s.id == id,
{
    match find_subscription(&storage.subscriptions, id) {
        Some(i) => {
            proof {
                lemma_keyed_lookup(storage.subscriptions@, subscription_key(), whole(), i as int);
            }
            Some(storage.subscriptions[i].clone())
        },
        None => {
            proof {
                lemma_keyed_absent(storage.subscriptions@, subscription_key(), whole(), id);
            }
            None
        },
    }
}

/// Registers a brand-new subscription id in the supporter, creator, and global indexes.
pub fn index_new_subscription(storage: &mut Storage, subscription: &Subscription)
    ensures
        final(storage)@ == subscription_indexed(old(storage)@, *subscription),
{
    add_to_wallet_index(&mut storage.subs_by_supporter, &subscription.supporter, subscription.id);
    add_to_wallet_index(&mut storage.subs_by_creator, &subscription.creator, subscription.id);
    storage.subscription_ids.push(subscription.id);
}

/// Marks a subscription inactive (cancelled) and persists the change.
pub fn cancel_subscription_storage(storage: &mut Storage, id: u64) -> (r: Option<Subscription>)
    ensures
        match lookup(old(storage)@.subscriptions, id) {
            Some(s) => {
                &&& r == Some(Subscription { active: false, ..s })
                &&& final(storage)@ == subscription_saved(
                    old(storage)@,
                    Subscription { active: false, ..s },
                )
            },
            None => r is None && final(storage)@ == old(storage)@,
        },
{
    match load_subscription(storage, id) {
        Some(s) => {
            let mut subscription = s;
            subscription.active = false;
            assert(subscription == Subscription { active: false, ..s });
            save_subscription(storage, &subscription);
            Some(subscription)
        },
        None => None,
    }
}

/// Returns the subscription ids belonging to a supporter.
pub fn subscription_ids_by_supporter(storage: &Storage, supporter: &String) -> (r: Vec<u64>)
    ensures
        r@ == ids_in(storage@.subs_by_supporter, supporter@),
{
    index_lookup(&storage.subs_by_supporter, supporter)
}

/// Returns the subscription ids belonging to a creator.
pub fn subscription_ids_by_creator(storage: &Storage, creator: &String) -> (r: Vec<u64>)
    ensures
        r@ == ids_in(storage@.subs_by_creator, creator@),
{
    index_lookup(&storage.subs_by_creator, creator)
}

/// Returns every active subscription whose `next_charge_date` has passed.
pub fn get_due_subscriptions(storage: &Storage, now: u64) -> (r: Vec<Subscription>)
    ensures
        r@ == due_among(storage@.subscription_ids, storage@.subscriptions, now),
{
    let ids = &storage.subscription_ids;
    let mut due: Vec<Subscription> = Vec::new();
    let mut i: usize = 0;
    while i < ids.len()
        invariant
            i <= ids.len(),
            ids@ == storage@.subscription_ids,
            due@ == due_among(ids@.take(i as int), storage@.subscriptions, now),
        decreases ids.len() - i,
    {
        let id = ids[i];
        assert(ids@.take(i + 1).drop_last() =~= ids@.take(i as int));
        if let Some(subscription) = load_subscription(storage, id) {
            if subscription.active && subscription.next_charge_date <= now {
                due.push(subscription);
            }
        }
        i = i + 1;
    }
    assert(ids@.take(ids.len() as int) =~= ids@);
    due
}

// ---------------------------------------------------------------------
// Tip goals
// ---------------------------------------------------------------------

/// Persists a creator's current tip goal.
pub fn save_goal(storage: &mut Storage, goal: &TipGoal)
    ensures
        final(storage)@ == goal_saved(old(storage)@, *goal),
{
    match find_goal(&storage.goals, &goal.creator) {
        Some(i) => {
            proof {
                lemma_keyed_lookup(storage.goals@, goal_key(), whole(), i as int);
                lemma_keyed_update(storage.goals@, goal_key(), whole(), i as int, *goal);
            }
            storage.goals.set(i, goal.clone());
        },
        None => {
            proof {
                lemma_keyed_absent(storage.goals@, goal_key(), whole(), goal.creator@);
                lemma_keyed_push(storage.goals@, goal_key(), whole(), *goal);
            }
            storage.goals.push(goal.clone());
        },
    }
}

/// Loads a creator's current tip goal, if one has been set.
pub fn load_goal(storage: &Storage, creator: &String) -> (r: Option<TipGoal>)
    ensures
        r == lookup(storage@.goals, creator@),
        r matches Some(g) ==> g.creator@ == creator@,
{
    match find_goal(&storage.goals, creator) {
        Some(i) => {
            proof {
                lemma_keyed_lookup(storage.goals@, goal_key(), whole(), i as int);
            }
            Some(storage.goals[i].clone())
        },
        None => {
            proof {
                lemma_keyed_absent(storage.goals@, goal_key(), whole(), creator@);
            }
            None
        },
    }
}

// ---------------------------------------------------------------------
// Protocol stats
// ---------------------------------------------------------------------

/// Loads the current protocol-wide statistics (all zeros before anything was recorded).
pub fn load_stats(storage: &Storage) -> (r: ProtocolStats)
    ensures
        r == storage@.stats,
{
    storage.stats
}

/// Loads the current protocol stats, applies `mutate`, and persists the result.
pub fn update_protocol_stats<F: FnOnce(ProtocolStats) -> ProtocolStats>(
    storage: &mut Storage,
    mutate: F,
)
    requires
        call_requires(mutate, (old(storage)@.stats,)),
    ensures
        call_ensures(mutate, (old(storage)@.stats,), final(storage)@.stats),
        final(storage)@ == stats_saved(old(storage)@, final(storage)@.stats),
{
    let stats = load_stats(storage);
    storage.stats = mutate(stats);
}

/// Every record is bound to the key it carries: a profile to its wallet, a
/// goal to its creator, a tip or a subscription to its id.
pub proof fn lemma_records_under_own_keys(st: &Storage)
    ensures
        forall|w: Seq<char>| #[trigger]
            st@.profiles.contains_key(w) ==> st@.profiles[w].wallet@ == w,
        forall|w: Seq<char>| #[trigger] st@.goals.contains_key(w) ==> st@.goals[w].creator@ == w,
        forall|id: u64| #[trigger] st@.tips.contains_key(id) ==> st@.tips[id].id == id,
        forall|id: u64| #[trigger]
            st@.subscriptions.contains_key(id) ==> st@.subscriptions[id].id == id,
{
    assert forall|w: Seq<char>| #[trigger] st@.profiles.contains_key(w) implies st@.profiles[w].wallet@
        == w by {
        lemma_keyed_first(st.profiles@, profile_key(), whole(), w);
    }
    assert forall|w: Seq<char>| #[trigger] st@.goals.contains_key(w) implies st@.goals[w].creator@
        == w by {
        lemma_keyed_first(st.goals@, goal_key(), whole(), w);
    }
    assert forall|id: u64| #[trigger] st@.tips.contains_key(id) implies st@.tips[id].id == id by {
        lemma_keyed_first(st.tips@, tip_key(), whole(), id);
    }
    assert forall|id: u64| #[trigger] st@.subscriptions.contains_key(id) implies st@.subscriptions[
        id
    ].id == id by {
        lemma_keyed_first(st.subscriptions@, subscription_key(), whole(), id);
    }
}

} // verus!
