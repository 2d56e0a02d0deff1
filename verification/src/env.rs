//! What one contract invocation works with: the stored state, the ledger's
//! clock, the contract's own address, and what the invocation hands back
//! to the host (events to publish and token movements to carry out).
use vstd::prelude::*;

use crate::events::Event;
use crate::storage::{Storage, StorageView};

verus! {

/// A movement of the configured token that the contract asks for.
#[derive(Debug, PartialEq, Eq)]
pub enum TokenCall {
    /// `token.transfer(from, to, amount)`, authorized by `from`.
    Transfer { from: String, to: String, amount: i128 },
    /// `token.transfer_from(spender, from, to, amount)`, drawing on the
    /// allowance `from` granted to `spender`.
    TransferFrom { spender: String, from: String, to: String, amount: i128 },
}

/// The environment of a contract invocation.
#[derive(Debug)]
pub struct Env {
    /// The contract's stored state.
    pub storage: Storage,
    /// The ledger's timestamp, in seconds.
    pub timestamp: u64,
    /// The contract's own address.
    pub contract_address: String,
    /// Events published so far, in order.
    pub events: Vec<Event>,
    /// Token movements requested so far, in order.
    pub token_calls: Vec<TokenCall>,
}

/// The environment as the contract's specification sees it.
pub struct EnvView {
    pub storage: StorageView,
    pub timestamp: u64,
    pub contract_address: String,
    pub events: Seq<Event>,
    pub token_calls: Seq<TokenCall>,
}

impl View for Env {
    type V = EnvView;

    open spec fn view(&self) -> EnvView {
        EnvView {
            storage: self.storage@,
            timestamp: self.timestamp,
            contract_address: self.contract_address,
            events: self.events@,
            token_calls: self.token_calls@,
        }
    }
}

/// The environment with `storage` as its stored state.
pub open spec fn with_storage(s: EnvView, storage: StorageView) -> EnvView {
    EnvView { storage, ..s }
}

/// The environment after publishing `e`.
pub open spec fn emitted(s: EnvView, e: Event) -> EnvView {
    EnvView { events: s.events.push(e), ..s }
}

/// The environment after requesting the token movement `c`.
pub open spec fn requested(s: EnvView, c: TokenCall) -> EnvView {
    EnvView { token_calls: s.token_calls.push(c), ..s }
}

impl Env {
    /// The environment of a freshly deployed contract at the given ledger time.
    pub fn new(timestamp: u64, contract_address: String) -> (env: Env)
        ensures
            env@.storage == crate::storage::empty_view(),
            env@.timestamp == timestamp,
            env@.contract_address == contract_address,
            env@.events == Seq::<Event>::empty(),
            env@.token_calls == Seq::<TokenCall>::empty(),
    {
        Env {
            storage: Storage::new(),
            timestamp,
            contract_address,
            events: Vec::new(),
            token_calls: Vec::new(),
        }
    }

    /// Requests a token movement.
    pub fn request(&mut self, call: TokenCall)
        ensures
            final(self)@ == requested(old(self)@, call),
    {
        self.token_calls.push(call);
    }
}

} // verus!
