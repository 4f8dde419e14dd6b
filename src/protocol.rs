//! Laws of the tiers together: the coordinator's transitions run against
//! shards that follow their own specification.

use vstd::prelude::*;

use crate::ids::{spec_abort_hash, ActorId, Hash256};
use crate::logic::{spec_message, spec_on_reply, Command, LogicModel};
use crate::storage::{lemma_supply_moves_by_net_credit, spec_handle, sum_balances, ShardModel};
use crate::wire::{FTLogicEvent, FTStorageAction, FTStorageEvent, Fault, LogicAction, TransactionStatus};

verus! {

/// One transfer across two shards, run without interruption: the
/// coordinator's first command goes to the sender's shard, and each reply
/// goes back to the coordinator. The recipient's shard may refuse the
/// increase (`recipient_accepts` false), in which case its state stays as it
/// was.
///
/// If the coordinator replies `Accepted`, the sender has exactly `amount`
/// less and the recipient exactly `amount` more; if it replies `Rejected`,
/// every balance of both shards is what it was before.
pub proof fn lemma_split_transfer_run(
    m0: LogicModel,
    s0: ShardModel,
    r0: ShardModel,
    h: Hash256,
    account: ActorId,
    sender: ActorId,
    recipient: ActorId,
    amount: u128,
    recipient_accepts: bool,
)
    requires
        m0.status_of(h) is None,
        !m0.continuations.contains_key(h.key()),
        m0.shard_for(sender) is Some,
        m0.shard_for(recipient) is Some,
        m0.shard_for(sender) != m0.shard_for(recipient),
        !s0.seen(h),
        !r0.seen(h),
        !s0.seen(spec_abort_hash(h)),
        spec_abort_hash(h) != h,
        r0.balance(recipient) + amount <= u128::MAX,
    ensures
        ({
            let action = LogicAction::Transfer { sender, recipient, amount };
            let sa = m0.shard_for(sender)->0;
            let ra = m0.shard_for(recipient)->0;
            let dec = FTStorageAction::DecreaseBalance { transaction_hash: h, msg_source: account, account: sender, amount };
            let inc = FTStorageAction::IncreaseBalance { transaction_hash: h, account: recipient, amount };
            let abort = FTStorageAction::IncreaseBalance { transaction_hash: spec_abort_hash(h), account: sender, amount };
            let (m1, c1) = spec_message(m0, m0.ftoken_id, h, account, action, true);
            let (s1, e1) = spec_handle(s0, s0.logic, dec);
            let ok1 = e1 == Ok::<FTStorageEvent, Fault>(FTStorageEvent::Accepted);
            let (m2, c2) = spec_on_reply(m1, h, account, action, true, dec, ok1);
            let r1 = if recipient_accepts { spec_handle(r0, r0.logic, inc).0 } else { r0 };
            let (m3, c3) = spec_on_reply(m2, h, account, action, true, inc, recipient_accepts);
            let (s2, e3) = spec_handle(s1, s1.logic, abort);
            let ok3 = e3 == Ok::<FTStorageEvent, Fault>(FTStorageEvent::Accepted);
            let (m4, c4) = spec_on_reply(m3, h, account, action, true, abort, ok3);
            &&& c1 == Ok::<Command, Fault>(Command::Send { shard: sa, action: dec })
            &&& !ok1 ==> {
                &&& c2 == Command::Reply(FTLogicEvent::Rejected)
                &&& m2.status_of(h) == Some(TransactionStatus::Failure)
                &&& forall|x: ActorId| #[trigger] s1.balance(x) == s0.balance(x)
            }
            &&& ok1 ==> c2 == (Command::Send { shard: ra, action: inc })
            &&& ok1 && recipient_accepts ==> {
                &&& c3 == Command::Reply(FTLogicEvent::Accepted)
                &&& m3.status_of(h) == Some(TransactionStatus::Success)
                &&& s1.balance(sender) == s0.balance(sender) - amount
                &&& r1.balance(recipient) == r0.balance(recipient) + amount
                &&& forall|x: ActorId| x != sender ==> #[trigger] s1.balance(x) == s0.balance(x)
                &&& forall|x: ActorId| x != recipient ==> #[trigger] r1.balance(x) == r0.balance(x)
            }
            &&& ok1 && !recipient_accepts ==> {
                &&& c3 == (Command::Send { shard: sa, action: abort })
                &&& ok3
                &&& c4 == Command::Reply(FTLogicEvent::Rejected)
                &&& m4.status_of(h) == Some(TransactionStatus::Failure)
                &&& forall|x: ActorId| #[trigger] s2.balance(x) == s0.balance(x)
                &&& forall|x: ActorId| #[trigger] r1.balance(x) == r0.balance(x)
            }
        }),
{
}

/// One transfer whose ends share a shard, run without interruption: the
/// coordinator sends a single shard-local transfer. If it replies
/// `Accepted`, the sender has exactly `amount` less and the recipient
/// exactly `amount` more (nothing moves when they are one account); if it
/// replies `Rejected`, no balance moved. Either way the shard's holdings are
/// unchanged.
pub proof fn lemma_local_transfer_run(
    m0: LogicModel,
    s0: ShardModel,
    h: Hash256,
    account: ActorId,
    sender: ActorId,
    recipient: ActorId,
    amount: u128,
)
    requires
        m0.status_of(h) is None,
        !m0.continuations.contains_key(h.key()),
        m0.shard_for(sender) is Some,
        m0.shard_for(sender) == m0.shard_for(recipient),
        !s0.seen(h),
        sender == recipient || s0.balance(recipient) + amount <= u128::MAX,
        s0.wf(),
    ensures
        ({
            let action = LogicAction::Transfer { sender, recipient, amount };
            let req = FTStorageAction::Transfer { transaction_hash: h, msg_source: account, sender, recipient, amount };
            let (m1, c1) = spec_message(m0, m0.ftoken_id, h, account, action, true);
            let (s1, e1) = spec_handle(s0, s0.logic, req);
            let ok1 = e1 == Ok::<FTStorageEvent, Fault>(FTStorageEvent::Accepted);
            let (m2, c2) = spec_on_reply(m1, h, account, action, true, req, ok1);
            &&& c1 == Ok::<Command, Fault>(Command::Send { shard: m0.shard_for(sender)->0, action: req })
            &&& c2 == Command::Reply(if ok1 { FTLogicEvent::Accepted } else { FTLogicEvent::Rejected })
            &&& ok1 && sender != recipient ==> s1.balance(sender) == s0.balance(sender) - amount
            &&& ok1 && sender != recipient ==> s1.balance(recipient) == s0.balance(recipient) + amount
            &&& forall|x: ActorId| (!ok1 || (x != sender && x != recipient) || sender == recipient)
                ==> #[trigger] s1.balance(x) == s0.balance(x)
            &&& sum_balances(s1.balances) == sum_balances(s0.balances)
        }),
{
    let req = FTStorageAction::Transfer { transaction_hash: h, msg_source: account, sender, recipient, amount };
    lemma_supply_moves_by_net_credit(s0, s0.logic, req);
}

/// Supply across a transfer between two shards, run as above: whether the
/// coordinator replies `Accepted` or `Rejected`, the two shards together
/// hold exactly what they held before.
pub proof fn lemma_split_transfer_keeps_supply(
    m0: LogicModel,
    s0: ShardModel,
    r0: ShardModel,
    h: Hash256,
    account: ActorId,
    sender: ActorId,
    recipient: ActorId,
    amount: u128,
    recipient_accepts: bool,
)
    requires
        m0.status_of(h) is None,
        !m0.continuations.contains_key(h.key()),
        m0.shard_for(sender) is Some,
        m0.shard_for(recipient) is Some,
        m0.shard_for(sender) != m0.shard_for(recipient),
        !s0.seen(h),
        !r0.seen(h),
        !s0.seen(spec_abort_hash(h)),
        spec_abort_hash(h) != h,
        r0.balance(recipient) + amount <= u128::MAX,
        s0.wf(),
        r0.wf(),
    ensures
        ({
            let action = LogicAction::Transfer { sender, recipient, amount };
            let dec = FTStorageAction::DecreaseBalance { transaction_hash: h, msg_source: account, account: sender, amount };
            let inc = FTStorageAction::IncreaseBalance { transaction_hash: h, account: recipient, amount };
            let abort = FTStorageAction::IncreaseBalance { transaction_hash: spec_abort_hash(h), account: sender, amount };
            let (m1, c1) = spec_message(m0, m0.ftoken_id, h, account, action, true);
            let (s1, e1) = spec_handle(s0, s0.logic, dec);
            let ok1 = e1 == Ok::<FTStorageEvent, Fault>(FTStorageEvent::Accepted);
            let (m2, c2) = spec_on_reply(m1, h, account, action, true, dec, ok1);
            let r1 = if recipient_accepts { spec_handle(r0, r0.logic, inc).0 } else { r0 };
            let (m3, c3) = spec_on_reply(m2, h, account, action, true, inc, recipient_accepts);
            let s2 = spec_handle(s1, s1.logic, abort).0;
            let before = sum_balances(s0.balances) + sum_balances(r0.balances);
            &&& !ok1 ==> sum_balances(s1.balances) + sum_balances(r0.balances) == before
            &&& ok1 && recipient_accepts ==> sum_balances(s1.balances) + sum_balances(r1.balances) == before
            &&& ok1 && !recipient_accepts ==> sum_balances(s2.balances) + sum_balances(r1.balances) == before
        }),
{
    let dec = FTStorageAction::DecreaseBalance { transaction_hash: h, msg_source: account, account: sender, amount };
    let inc = FTStorageAction::IncreaseBalance { transaction_hash: h, account: recipient, amount };
    let abort = FTStorageAction::IncreaseBalance { transaction_hash: spec_abort_hash(h), account: sender, amount };
    lemma_supply_moves_by_net_credit(s0, s0.logic, dec);
    lemma_supply_moves_by_net_credit(r0, r0.logic, inc);
    let s1 = spec_handle(s0, s0.logic, dec).0;
    if spec_handle(s0, s0.logic, dec).1 == Ok::<FTStorageEvent, Fault>(FTStorageEvent::Accepted) {
        assert(s1.balance(sender) + amount <= u128::MAX);
        lemma_supply_moves_by_net_credit(s1, s1.logic, abort);
    }
}

/// A mint or a burn, run without interruption against the shard of its
/// account: a mint is accepted and adds exactly `amount` to that shard's
/// holdings; a burn adds minus `amount` when accepted and nothing when
/// refused, and the coordinator's reply says which.
pub proof fn lemma_mint_burn_run(
    m0: LogicModel,
    s0: ShardModel,
    h: Hash256,
    account: ActorId,
    action: LogicAction,
)
    requires
        action is Mint || action is Burn,
        m0.status_of(h) is None,
        m0.shard_for(if action is Mint { action->Mint_recipient } else { action->Burn_sender }) is Some,
        !s0.seen(h),
        s0.wf(),
        action is Mint ==> s0.balance(action->Mint_recipient) + action->Mint_amount <= u128::MAX,
    ensures
        ({
            let req = if action is Mint {
                FTStorageAction::IncreaseBalance { transaction_hash: h, account: action->Mint_recipient, amount: action->Mint_amount }
            } else {
                FTStorageAction::DecreaseBalance {
                    transaction_hash: h,
                    msg_source: account,
                    account: action->Burn_sender,
                    amount: action->Burn_amount,
                }
            };
            let shard = m0.shard_for(if action is Mint { action->Mint_recipient } else { action->Burn_sender })->0;
            let (m1, c1) = spec_message(m0, m0.ftoken_id, h, account, action, true);
            let (s1, e1) = spec_handle(s0, s0.logic, req);
            let ok1 = e1 == Ok::<FTStorageEvent, Fault>(FTStorageEvent::Accepted);
            let (m2, c2) = spec_on_reply(m1, h, account, action, true, req, ok1);
            &&& c1 == Ok::<Command, Fault>(Command::Send { shard, action: req })
            &&& c2 == Command::Reply(if ok1 { FTLogicEvent::Accepted } else { FTLogicEvent::Rejected })
            &&& action is Mint ==> ok1 && sum_balances(s1.balances) == sum_balances(s0.balances) + action->Mint_amount
            &&& action is Burn && ok1 ==> sum_balances(s1.balances) == sum_balances(s0.balances) - action->Burn_amount
            &&& action is Burn && !ok1 ==> sum_balances(s1.balances) == sum_balances(s0.balances)
        }),
{
    let req = if action is Mint {
        FTStorageAction::IncreaseBalance { transaction_hash: h, account: action->Mint_recipient, amount: action->Mint_amount }
    } else {
        FTStorageAction::DecreaseBalance {
            transaction_hash: h,
            msg_source: account,
            account: action->Burn_sender,
            amount: action->Burn_amount,
        }
    };
    lemma_supply_moves_by_net_credit(s0, s0.logic, req);
}

} // verus!
