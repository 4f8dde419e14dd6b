//! The shapes of the messages that the three tiers exchange.

use vstd::prelude::*;

use crate::ids::{ActorId, Hash256};

verus! {

/// Where a transaction stands in a tier's transaction table.
#[derive(Clone, Copy, Debug, PartialEq, Eq, Structural)]
pub enum TransactionStatus {
    InProgress,
    Success,
    Failure,
}

/// A request to a storage shard.
#[derive(Clone, Copy, Debug, PartialEq, Eq, Structural)]
pub enum FTStorageAction {
    GetBalance(ActorId),
    GetPermitId(ActorId),
    IncreaseBalance { transaction_hash: Hash256, account: ActorId, amount: u128 },
    DecreaseBalance {
        transaction_hash: Hash256,
        msg_source: ActorId,
        account: ActorId,
        amount: u128,
    },
    Approve { transaction_hash: Hash256, msg_source: ActorId, account: ActorId, amount: u128 },
    Transfer {
        transaction_hash: Hash256,
        msg_source: ActorId,
        sender: ActorId,
        recipient: ActorId,
        amount: u128,
    },
    IncrementPermitId { transaction_hash: Hash256, account: ActorId, expected_permit_id: u128 },
}

/// A storage shard's reply.
#[derive(Clone, Copy, Debug, PartialEq, Eq, Structural)]
pub enum FTStorageEvent {
    /// The operation was applied, now or by an earlier delivery.
    Accepted,
    /// The operation was refused, now or by an earlier delivery.
    Rejected,
    Balance(u128),
    PermitId(u128),
}

/// A coordinator's reply to the gateway.
#[derive(Clone, Copy, Debug, PartialEq, Eq, Structural)]
pub enum FTLogicEvent {
    Accepted,
    Rejected,
    Balance(u128),
    PermitId(u128),
}

/// A user action, as the gateway forwards it to the coordinator.
#[derive(Clone, Copy, Debug)]
pub enum LogicAction {
    Mint { recipient: ActorId, amount: u128 },
    Burn { sender: ActorId, amount: u128 },
    Transfer { sender: ActorId, recipient: ActorId, amount: u128 },
    Approve { approved_account: ActorId, amount: u128 },
    Permit {
        owner_account: ActorId,
        approved_account: ActorId,
        amount: u128,
        permit_id: u128,
        sign: [u8; 64],
    },
}

/// The gateway's reply to a user.
#[derive(Clone, Copy, Debug, PartialEq, Eq, Structural)]
pub enum FTokenEvent {
    Accepted,
    Rejected,
    Balance(u128),
    PermitId(u128),
}

/// A request to the gateway.
#[derive(Clone, Copy, Debug)]
pub enum FTokenAction {
    Message { transaction_id: u64, payload: LogicAction },
    UpdateLogicContract { ft_logic_code_hash: Hash256, storage_code_hash: Hash256 },
    GetBalance(ActorId),
    GetPermitId(ActorId),
    Clear(Hash256),
    MigrateStorageAddresses,
}

/// A request to the coordinator.
#[derive(Clone, Copy, Debug)]
pub enum FTLogicAction {
    Message { transaction_hash: Hash256, account: ActorId, payload: LogicAction },
    GetBalance(ActorId),
    GetPermitId(ActorId),
    Clear(Hash256),
    UpdateStorageCodeHash(Hash256),
    MigrateStorages,
}

/// What a permit signs.
#[derive(Clone, Copy, Debug, PartialEq, Eq, Structural)]
pub struct PermitUnsigned {
    pub owner_account: ActorId,
    pub approved_account: ActorId,
    pub amount: u128,
    pub permit_id: u128,
}

/// The initial configuration of a coordinator.
#[derive(Clone, Copy, Debug, PartialEq, Eq, Structural)]
pub struct InitFTLogic {
    pub admin: ActorId,
    pub storage_code_hash: Hash256,
}

/// The initial configuration of a gateway.
#[derive(Clone, Copy, Debug, PartialEq, Eq, Structural)]
pub struct InitFToken {
    pub storage_code_hash: Hash256,
    pub ft_logic_code_hash: Hash256,
}

/// A protocol-level fault: the handler stops without a reply and without
/// touching any transaction table.
#[derive(Clone, Copy, Debug, PartialEq, Eq, Structural)]
pub enum Fault {
    /// The sender of the message may not ask for this action.
    Unauthorized,
}

} // verus!
