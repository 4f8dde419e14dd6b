//! The gateway: it gives each user action its transaction hash, keeps a
//! table of the actions in flight and done, and forwards to the coordinator
//! only what has not finished yet.

use vstd::prelude::*;

use crate::ids::{get_hash, spec_get_hash, ActorId, Hash256};
use crate::wire::{FTLogicEvent, FTokenEvent, Fault, TransactionStatus};

verus! {

/// The name of what a gateway table holds: transaction hash to status.
pub uninterp spec fn table_entries(t: TxTable) -> Map<(u128, u128), TransactionStatus>;

/// A table with no entries.
pub open spec fn no_entries() -> Map<(u128, u128), TransactionStatus> {
    Map::empty()
}

/// The gateway's transaction table, a `hashbrown` map. It is held opaque:
/// the map's allocator parameter is bounded by a trait of a crate this
/// library does not depend on, so the map type itself cannot be declared.
#[verifier::external_body]
pub struct TxTable {
    map: hashbrown::HashMap<(u128, u128), TransactionStatus>,
}

/// Relies on hashbrown::HashMap::new: a map with no entries.
#[verifier::external_body]
fn table_new() -> (r: TxTable)
    ensures
        table_entries(r) == no_entries(),
{
    TxTable { map: hashbrown::HashMap::new() }
}

/// Relies on hashbrown::HashMap::get: the value under the key, if any.
#[verifier::external_body]
fn table_get(t: &TxTable, k: &(u128, u128)) -> (r: Option<TransactionStatus>)
    ensures
        r == (if table_entries(*t).contains_key(*k) {
            Some(table_entries(*t)[*k])
        } else {
            None
        }),
{
    t.map.get(k).copied()
}

/// Relies on hashbrown::HashMap::insert: the key then maps to the value,
/// and nothing else changes.
#[verifier::external_body]
fn table_insert(t: &mut TxTable, k: (u128, u128), v: TransactionStatus)
    ensures
        table_entries(*final(t)) == table_entries(*old(t)).insert(k, v),
{
    t.map.insert(k, v);
}

/// Relies on hashbrown::HashMap::remove: the key no longer maps to
/// anything, and nothing else changes.
#[verifier::external_body]
fn table_remove(t: &mut TxTable, k: &(u128, u128))
    ensures
        table_entries(*final(t)) == table_entries(*old(t)).remove(*k),
{
    t.map.remove(k);
}

/// What the gateway asks of its runtime next.
#[derive(Clone, Copy, Debug, PartialEq, Eq, Structural)]
pub enum GatewayCommand {
    /// Reply to the user; the handler is done.
    Reply(FTokenEvent),
    /// Forward the action to the coordinator under `transaction_hash` and
    /// hand its reply to `on_logic_reply`; first schedule the delayed clear of
    /// the hash when `schedule_clear`.
    Forward { transaction_hash: Hash256, schedule_clear: bool },
}

/// The abstract state of the gateway.
pub struct GatewayModel {
    pub admin: ActorId,
    pub ft_logic_id: ActorId,
    pub transactions: Map<(u128, u128), TransactionStatus>,
}

impl GatewayModel {
    pub open spec fn status_of(self, h: Hash256) -> Option<TransactionStatus> {
        if self.transactions.contains_key(h.key()) {
            Some(self.transactions[h.key()])
        } else {
            None
        }
    }
}

/// What a user's message does: a new hash is recorded as in progress and
/// forwarded with a clear scheduled; one in progress is forwarded again; a
/// finished one gets its outcome without reaching the coordinator.
pub open spec fn spec_gateway_message(m: GatewayModel, caller: ActorId, transaction_id: u64) -> (GatewayModel, GatewayCommand) {
    let h = spec_get_hash(caller, transaction_id);
    match m.status_of(h) {
        None => (
            GatewayModel { transactions: m.transactions.insert(h.key(), TransactionStatus::InProgress), ..m },
            GatewayCommand::Forward { transaction_hash: h, schedule_clear: true },
        ),
        Some(TransactionStatus::InProgress) => (m, GatewayCommand::Forward { transaction_hash: h, schedule_clear: false }),
        Some(TransactionStatus::Success) => (m, GatewayCommand::Reply(FTokenEvent::Accepted)),
        Some(TransactionStatus::Failure) => (m, GatewayCommand::Reply(FTokenEvent::Rejected)),
    }
}

/// What the coordinator's answer does: `Accepted` records a success and
/// any other reply a failure, before the user hears of it; no reply leaves
/// the transaction in progress and the user without an answer, so that a
/// retry resumes it.
pub open spec fn spec_gateway_on_reply(m: GatewayModel, h: Hash256, reply: Option<FTLogicEvent>) -> (GatewayModel, Option<FTokenEvent>) {
    match reply {
        Some(FTLogicEvent::Accepted) => (
            GatewayModel { transactions: m.transactions.insert(h.key(), TransactionStatus::Success), ..m },
            Some(FTokenEvent::Accepted),
        ),
        Some(_) => (
            GatewayModel { transactions: m.transactions.insert(h.key(), TransactionStatus::Failure), ..m },
            Some(FTokenEvent::Rejected),
        ),
        None => (m, None),
    }
}

/// The state of the gateway.
pub struct FToken {
    admin: ActorId,
    ft_logic_id: ActorId,
    transactions: TxTable,
}

impl View for FToken {
    type V = GatewayModel;

    closed spec fn view(&self) -> GatewayModel {
        GatewayModel {
            admin: self.admin,
            ft_logic_id: self.ft_logic_id,
            transactions: table_entries(self.transactions),
        }
    }
}

impl FToken {
    pub fn new(admin: ActorId, ft_logic_id: ActorId) -> (r: FToken)
        ensures
            r@.admin == admin,
            r@.ft_logic_id == ft_logic_id,
            r@.transactions == Map::<(u128, u128), TransactionStatus>::empty(),
    {
        FToken { admin, ft_logic_id, transactions: table_new() }
    }

    pub fn admin(&self) -> (r: ActorId)
        ensures
            r == self@.admin,
    {
        self.admin
    }

    pub fn ft_logic_id(&self) -> (r: ActorId)
        ensures
            r == self@.ft_logic_id,
    {
        self.ft_logic_id
    }

    pub fn transaction_status(&self, h: &Hash256) -> (r: Option<TransactionStatus>)
        ensures
            r == self@.status_of(*h),
    {
        table_get(&self.transactions, &h.key_of())
    }

    /// A message from `caller` with the id it gave the action.
    pub fn message(&mut self, caller: &ActorId, transaction_id: u64) -> (r: GatewayCommand)
        ensures
            (final(self)@, r) == spec_gateway_message(old(self)@, *caller, transaction_id),
    {
        let h = get_hash(caller, transaction_id);
        match table_get(&self.transactions, &h.key_of()) {
            None => {
                table_insert(&mut self.transactions, h.key_of(), TransactionStatus::InProgress);
                GatewayCommand::Forward { transaction_hash: h, schedule_clear: true }
            },
            Some(TransactionStatus::InProgress) => GatewayCommand::Forward { transaction_hash: h, schedule_clear: false },
            Some(TransactionStatus::Success) => GatewayCommand::Reply(FTokenEvent::Accepted),
            Some(TransactionStatus::Failure) => GatewayCommand::Reply(FTokenEvent::Rejected),
        }
    }

    /// Records the coordinator's reply for `h` (`None` when it gave none)
    /// and gives the reply for the user, if there is one.
    pub fn on_logic_reply(&mut self, h: &Hash256, reply: Option<FTLogicEvent>) -> (r: Option<FTokenEvent>)
        ensures
            (final(self)@, r) == spec_gateway_on_reply(old(self)@, *h, reply),
    {
        match reply {
            Some(FTLogicEvent::Accepted) => {
                table_insert(&mut self.transactions, h.key_of(), TransactionStatus::Success);
                Some(FTokenEvent::Accepted)
            },
            Some(_) => {
                table_insert(&mut self.transactions, h.key_of(), TransactionStatus::Failure);
                Some(FTokenEvent::Rejected)
            },
            None => None,
        }
    }

    /// The delayed clear of `h`: it removes the record when the gateway sent
    /// it to itself, and is ignored otherwise.
    pub fn clear(&mut self, caller: &ActorId, program_id: &ActorId, h: &Hash256)
        ensures
            *caller == *program_id ==> final(self)@ == (GatewayModel {
                transactions: old(self)@.transactions.remove(h.key()),
                ..old(self)@
            }),
            *caller != *program_id ==> final(self)@ == old(self)@,
    {
        if *caller == *program_id {
            table_remove(&mut self.transactions, &h.key_of());
        }
    }

    /// Whether `caller` may administer the gateway.
    pub fn assert_admin(&self, caller: &ActorId) -> (r: Result<(), Fault>)
        ensures
            *caller == self@.admin ==> r is Ok,
            *caller != self@.admin ==> r == Err::<(), Fault>(Fault::Unauthorized),
    {
        if *caller == self.admin {
            Ok(())
        } else {
            Err(Fault::Unauthorized)
        }
    }

    /// Points the gateway at a new coordinator; for the administrator alone.
    pub fn update_logic_contract(&mut self, caller: &ActorId, ft_logic_id: &ActorId) -> (r: Result<(), Fault>)
        ensures
            *caller == old(self)@.admin ==> r is Ok && final(self)@ == (GatewayModel { ft_logic_id: *ft_logic_id, ..old(self)@ }),
            *caller != old(self)@.admin ==> r == Err::<(), Fault>(Fault::Unauthorized) && final(self)@ == old(self)@,
    {
        self.assert_admin(caller)?;
        self.ft_logic_id = *ft_logic_id;
        Ok(())
    }
}

/// Once the user has seen a terminal reply for `(caller, transaction_id)`,
/// sending the same pair again gets the same reply, forwards nothing and
/// changes nothing.
pub proof fn lemma_resend_after_terminal_reply(
    m: GatewayModel,
    caller: ActorId,
    transaction_id: u64,
    reply: Option<FTLogicEvent>,
)
    ensures
        ({
            let h = spec_get_hash(caller, transaction_id);
            let (m1, _) = spec_gateway_message(m, caller, transaction_id);
            let (m2, e) = spec_gateway_on_reply(m1, h, reply);
            e is Some ==> spec_gateway_message(m2, caller, transaction_id) == (m2, GatewayCommand::Reply(e->0))
        }),
{
}

/// A finished transaction never reaches the coordinator again while its
/// record stands.
pub proof fn lemma_finished_not_forwarded(m: GatewayModel, caller: ActorId, transaction_id: u64)
    requires
        m.status_of(spec_get_hash(caller, transaction_id)) is Some,
        !(m.status_of(spec_get_hash(caller, transaction_id))->0 is InProgress),
    ensures
        spec_gateway_message(m, caller, transaction_id).0 == m,
        spec_gateway_message(m, caller, transaction_id).1 is Reply,
{
}

} // verus!
