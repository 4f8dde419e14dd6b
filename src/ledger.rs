//! The ledger as a whole: the coordinator with its shards by address, and
//! the law that ties the supply to what was minted and burned.

use vstd::prelude::*;
use vstd::set::fold::{is_fun_commutative, lemma_fold_empty, lemma_fold_insert};

use crate::ids::{spec_abort_hash, ActorId, Hash256};
use crate::logic::{spec_message, spec_on_reply, spec_register, LogicModel};
use crate::protocol::{
    lemma_local_transfer_run, lemma_mint_burn_run, lemma_split_transfer_keeps_supply,
};
use crate::storage::{lemma_supply_moves_by_net_credit, spec_handle, sum_balances, ShardModel};
use crate::wire::{FTStorageAction, FTStorageEvent, Fault, LogicAction};

verus! {

/// The coordinator and every shard, by address.
pub struct LedgerModel {
    pub logic: LogicModel,
    pub shards: Map<ActorId, ShardModel>,
}

/// The tokens that all shards hold together.
pub open spec fn total_supply(shards: Map<ActorId, ShardModel>) -> int {
    shards.dom().fold(0int, |acc: int, a: ActorId| acc + sum_balances(shards[a].balances))
}

impl LedgerModel {
    /// Finitely many shards, each with finitely many balances.
    pub open spec fn wf(self) -> bool {
        &&& self.shards.dom().finite()
        &&& forall|a: ActorId| #[trigger] self.shards.contains_key(a) ==> self.shards[a].wf()
    }
}

proof fn lemma_total_agrees(s: Set<ActorId>, m1: Map<ActorId, ShardModel>, m2: Map<ActorId, ShardModel>)
    requires
        s.finite(),
        forall|a: ActorId| s.contains(a) ==> m1[a] == m2[a],
    ensures
        s.fold(0int, |acc: int, a: ActorId| acc + sum_balances(m1[a].balances))
            == s.fold(0int, |acc: int, a: ActorId| acc + sum_balances(m2[a].balances)),
    decreases s.len(),
{
    let f1 = |acc: int, a: ActorId| acc + sum_balances(m1[a].balances);
    let f2 = |acc: int, a: ActorId| acc + sum_balances(m2[a].balances);
    assert(is_fun_commutative(f1));
    assert(is_fun_commutative(f2));
    if s.len() == 0 {
        assert(s =~= Set::empty());
        lemma_fold_empty(0int, f1);
        lemma_fold_empty(0int, f2);
    } else {
        let a = s.choose();
        let r = s.remove(a);
        assert(r.insert(a) =~= s);
        lemma_total_agrees(r, m1, m2);
        lemma_fold_insert(r, 0int, f1, a);
        lemma_fold_insert(r, 0int, f2, a);
    }
}

/// Replacing one shard changes the total by the difference of its holdings.
proof fn lemma_total_insert(m: Map<ActorId, ShardModel>, a: ActorId, s: ShardModel)
    requires
        m.dom().finite(),
        m.contains_key(a),
    ensures
        total_supply(m.insert(a, s)) == total_supply(m) - sum_balances(m[a].balances) + sum_balances(s.balances),
        m.insert(a, s).dom().finite(),
{
    let m2 = m.insert(a, s);
    let r = m.dom().remove(a);
    let f1 = |acc: int, x: ActorId| acc + sum_balances(m[x].balances);
    let f2 = |acc: int, x: ActorId| acc + sum_balances(m2[x].balances);
    assert(is_fun_commutative(f1));
    assert(is_fun_commutative(f2));
    lemma_total_agrees(r, m, m2);
    assert(m2.dom() =~= r.insert(a));
    assert(m.dom() =~= r.insert(a));
    lemma_fold_insert(r, 0int, f2, a);
    lemma_fold_insert(r, 0int, f1, a);
}

/// Adding a shard that holds nothing leaves the total as it was.
proof fn lemma_total_insert_new(m: Map<ActorId, ShardModel>, a: ActorId, s: ShardModel)
    requires
        m.dom().finite(),
        !m.contains_key(a),
    ensures
        total_supply(m.insert(a, s)) == total_supply(m) + sum_balances(s.balances),
        m.insert(a, s).dom().finite(),
{
    let m2 = m.insert(a, s);
    let f1 = |acc: int, x: ActorId| acc + sum_balances(m[x].balances);
    let f2 = |acc: int, x: ActorId| acc + sum_balances(m2[x].balances);
    assert(is_fun_commutative(f2));
    lemma_total_agrees(m.dom(), m, m2);
    assert(m2.dom() =~= m.dom().insert(a));
    lemma_fold_insert(m.dom(), 0int, f2, a);
}

/// A shard with no entries, created by the coordinator `logic`.
pub open spec fn empty_shard(logic: ActorId) -> ShardModel {
    ShardModel {
        logic,
        processed: Map::empty(),
        balances: Map::empty(),
        allowances: Map::empty(),
        nonces: Map::empty(),
    }
}

/// One step of the ledger: the creation of a shard, or a user action run
/// without interruption, every request delivered to the shard it names and
/// every reply handed back to the coordinator.
pub enum Run {
    /// A new shard at `address` enters the directory for `bucket`.
    NewShard { bucket: u32, address: ActorId, logic: ActorId },
    /// A mint or a burn, one request to one shard.
    MintBurn { h: Hash256, account: ActorId, action: LogicAction },
    /// A transfer whose ends share a shard.
    Local { h: Hash256, account: ActorId, sender: ActorId, recipient: ActorId, amount: u128 },
    /// A transfer across two shards; the recipient's shard may refuse the
    /// increase.
    Split {
        h: Hash256,
        account: ActorId,
        sender: ActorId,
        recipient: ActorId,
        amount: u128,
        recipient_accepts: bool,
    },
}

/// The shard that a run starts at.
pub open spec fn first_shard(l: LedgerModel, r: Run) -> ActorId {
    match r {
        Run::NewShard { address, .. } => address,
        Run::MintBurn { action, .. } => l.logic.shard_for(
            if action is Mint { action->Mint_recipient } else { action->Burn_sender },
        )->0,
        Run::Local { sender, .. } => l.logic.shard_for(sender)->0,
        Run::Split { sender, .. } => l.logic.shard_for(sender)->0,
    }
}

/// The request of a mint or a burn.
pub open spec fn mint_burn_request(h: Hash256, account: ActorId, action: LogicAction) -> FTStorageAction {
    if action is Mint {
        FTStorageAction::IncreaseBalance { transaction_hash: h, account: action->Mint_recipient, amount: action->Mint_amount }
    } else {
        FTStorageAction::DecreaseBalance {
            transaction_hash: h,
            msg_source: account,
            account: action->Burn_sender,
            amount: action->Burn_amount,
        }
    }
}

/// When a run is possible as described: a fresh transaction on known
/// shards, hashes that do not collide, and no credit that saturates.
pub open spec fn run_ready(l: LedgerModel, r: Run) -> bool {
    let m0 = l.logic;
    match r {
        Run::NewShard { bucket, address, .. } => !m0.directory.contains_key(bucket) && !l.shards.contains_key(address),
        Run::MintBurn { h, account, action } => {
            let s0 = l.shards[first_shard(l, r)];
            &&& action is Mint || action is Burn
            &&& m0.status_of(h) is None
            &&& m0.shard_for(if action is Mint { action->Mint_recipient } else { action->Burn_sender }) is Some
            &&& l.shards.contains_key(first_shard(l, r))
            &&& !s0.seen(h)
            &&& action is Mint ==> s0.balance(action->Mint_recipient) + action->Mint_amount <= u128::MAX
        },
        Run::Local { h, account, sender, recipient, amount } => {
            let s0 = l.shards[first_shard(l, r)];
            &&& m0.status_of(h) is None
            &&& !m0.continuations.contains_key(h.key())
            &&& m0.shard_for(sender) is Some
            &&& m0.shard_for(sender) == m0.shard_for(recipient)
            &&& l.shards.contains_key(first_shard(l, r))
            &&& !s0.seen(h)
            &&& sender == recipient || s0.balance(recipient) + amount <= u128::MAX
        },
        Run::Split { h, account, sender, recipient, amount, recipient_accepts } => {
            let s0 = l.shards[first_shard(l, r)];
            let r0 = l.shards[m0.shard_for(recipient)->0];
            &&& m0.status_of(h) is None
            &&& !m0.continuations.contains_key(h.key())
            &&& m0.shard_for(sender) is Some
            &&& m0.shard_for(recipient) is Some
            &&& m0.shard_for(sender) != m0.shard_for(recipient)
            &&& l.shards.contains_key(first_shard(l, r))
            &&& l.shards.contains_key(m0.shard_for(recipient)->0)
            &&& !s0.seen(h)
            &&& !r0.seen(h)
            &&& !s0.seen(spec_abort_hash(h))
            &&& spec_abort_hash(h) != h
            &&& r0.balance(recipient) + amount <= u128::MAX
        },
    }
}

/// The ledger after a run.
pub open spec fn run_result(l: LedgerModel, r: Run) -> LedgerModel {
    let m0 = l.logic;
    match r {
        Run::NewShard { bucket, address, logic } => LedgerModel {
            logic: spec_register(m0, bucket, address),
            shards: l.shards.insert(address, empty_shard(logic)),
        },
        Run::MintBurn { h, account, action } => {
            let sa = first_shard(l, r);
            let req = mint_burn_request(h, account, action);
            let (m1, _) = spec_message(m0, m0.ftoken_id, h, account, action, true);
            let (s1, e1) = spec_handle(l.shards[sa], l.shards[sa].logic, req);
            let ok1 = e1 == Ok::<FTStorageEvent, Fault>(FTStorageEvent::Accepted);
            let (m2, _) = spec_on_reply(m1, h, account, action, true, req, ok1);
            LedgerModel { logic: m2, shards: l.shards.insert(sa, s1) }
        },
        Run::Local { h, account, sender, recipient, amount } => {
            let sa = first_shard(l, r);
            let action = LogicAction::Transfer { sender, recipient, amount };
            let req = FTStorageAction::Transfer { transaction_hash: h, msg_source: account, sender, recipient, amount };
            let (m1, _) = spec_message(m0, m0.ftoken_id, h, account, action, true);
            let (s1, e1) = spec_handle(l.shards[sa], l.shards[sa].logic, req);
            let ok1 = e1 == Ok::<FTStorageEvent, Fault>(FTStorageEvent::Accepted);
            let (m2, _) = spec_on_reply(m1, h, account, action, true, req, ok1);
            LedgerModel { logic: m2, shards: l.shards.insert(sa, s1) }
        },
        Run::Split { h, account, sender, recipient, amount, recipient_accepts } => {
            let sa = first_shard(l, r);
            let ra = m0.shard_for(recipient)->0;
            let s0 = l.shards[sa];
            let r0 = l.shards[ra];
            let action = LogicAction::Transfer { sender, recipient, amount };
            let dec = FTStorageAction::DecreaseBalance { transaction_hash: h, msg_source: account, account: sender, amount };
            let inc = FTStorageAction::IncreaseBalance { transaction_hash: h, account: recipient, amount };
            let abort = FTStorageAction::IncreaseBalance { transaction_hash: spec_abort_hash(h), account: sender, amount };
            let (m1, _) = spec_message(m0, m0.ftoken_id, h, account, action, true);
            let (s1, e1) = spec_handle(s0, s0.logic, dec);
            let ok1 = e1 == Ok::<FTStorageEvent, Fault>(FTStorageEvent::Accepted);
            let (m2, _) = spec_on_reply(m1, h, account, action, true, dec, ok1);
            let r1 = if recipient_accepts { spec_handle(r0, r0.logic, inc).0 } else { r0 };
            let (m3, _) = spec_on_reply(m2, h, account, action, true, inc, recipient_accepts);
            let (s2, e3) = spec_handle(s1, s1.logic, abort);
            let ok3 = e3 == Ok::<FTStorageEvent, Fault>(FTStorageEvent::Accepted);
            let (m4, _) = spec_on_reply(m3, h, account, action, true, abort, ok3);
            if !ok1 {
                LedgerModel { logic: m2, shards: l.shards.insert(sa, s1) }
            } else if recipient_accepts {
                LedgerModel { logic: m3, shards: l.shards.insert(sa, s1).insert(ra, r1) }
            } else {
                LedgerModel { logic: m4, shards: l.shards.insert(sa, s2).insert(ra, r1) }
            }
        },
    }
}

/// What a run mints minus what it burns.
pub open spec fn run_delta(l: LedgerModel, r: Run) -> int {
    match r {
        Run::MintBurn { h, account, action } => {
            let s0 = l.shards[first_shard(l, r)];
            if action is Mint {
                action->Mint_amount as int
            } else if s0.may_debit(account, action->Burn_sender, action->Burn_amount) {
                -action->Burn_amount
            } else {
                0
            }
        },
        _ => 0,
    }
}

/// One run changes the total supply by exactly what it mints minus what it
/// burns.
pub proof fn lemma_run_moves_supply_by_delta(l: LedgerModel, r: Run)
    requires
        l.wf(),
        run_ready(l, r),
    ensures
        total_supply(run_result(l, r).shards) == total_supply(l.shards) + run_delta(l, r),
        run_result(l, r).wf(),
{
    let m0 = l.logic;
    match r {
        Run::NewShard { address, logic, .. } => {
            let f = |acc: int, k: (u128, u128)| acc + empty_shard(logic).balances[k];
            assert(empty_shard(logic).balances.dom() =~= Set::empty());
            lemma_fold_empty(0int, f);
            lemma_total_insert_new(l.shards, address, empty_shard(logic));
        },
        Run::MintBurn { h, account, action } => {
            let sa = first_shard(l, r);
            let s0 = l.shards[sa];
            lemma_mint_burn_run(m0, s0, h, account, action);
            let req = mint_burn_request(h, account, action);
            lemma_supply_moves_by_net_credit(s0, s0.logic, req);
            let s1 = spec_handle(s0, s0.logic, req).0;
            lemma_total_insert(l.shards, sa, s1);
        },
        Run::Local { h, account, sender, recipient, amount } => {
            let sa = first_shard(l, r);
            let s0 = l.shards[sa];
            lemma_local_transfer_run(m0, s0, h, account, sender, recipient, amount);
            let req = FTStorageAction::Transfer { transaction_hash: h, msg_source: account, sender, recipient, amount };
            lemma_supply_moves_by_net_credit(s0, s0.logic, req);
            let s1 = spec_handle(s0, s0.logic, req).0;
            lemma_total_insert(l.shards, sa, s1);
        },
        Run::Split { h, account, sender, recipient, amount, recipient_accepts } => {
            let sa = first_shard(l, r);
            let ra = m0.shard_for(recipient)->0;
            let s0 = l.shards[sa];
            let r0 = l.shards[ra];
            lemma_split_transfer_keeps_supply(m0, s0, r0, h, account, sender, recipient, amount, recipient_accepts);
            let dec = FTStorageAction::DecreaseBalance { transaction_hash: h, msg_source: account, account: sender, amount };
            let inc = FTStorageAction::IncreaseBalance { transaction_hash: h, account: recipient, amount };
            let abort = FTStorageAction::IncreaseBalance { transaction_hash: spec_abort_hash(h), account: sender, amount };
            lemma_supply_moves_by_net_credit(s0, s0.logic, dec);
            lemma_supply_moves_by_net_credit(r0, r0.logic, inc);
            let s1 = spec_handle(s0, s0.logic, dec).0;
            let ok1 = spec_handle(s0, s0.logic, dec).1 == Ok::<FTStorageEvent, Fault>(FTStorageEvent::Accepted);
            let r1 = if recipient_accepts { spec_handle(r0, r0.logic, inc).0 } else { r0 };
            lemma_total_insert(l.shards, sa, s1);
            if ok1 {
                assert(s1.balance(sender) + amount <= u128::MAX);
                lemma_supply_moves_by_net_credit(s1, s1.logic, abort);
                let s2 = spec_handle(s1, s1.logic, abort).0;
                lemma_total_insert(l.shards, sa, s2);
                lemma_total_insert(l.shards.insert(sa, s1), ra, r1);
                lemma_total_insert(l.shards.insert(sa, s2), ra, r1);
            }
        },
    }
}

/// The ledger after a sequence of runs.
pub open spec fn ledger_after(l: LedgerModel, runs: Seq<Run>) -> LedgerModel
    decreases runs.len(),
{
    if runs.len() == 0 {
        l
    } else {
        run_result(ledger_after(l, runs.drop_last()), runs.last())
    }
}

/// What a sequence of runs mints minus what it burns.
pub open spec fn minted_minus_burned(l: LedgerModel, runs: Seq<Run>) -> int
    decreases runs.len(),
{
    if runs.len() == 0 {
        0
    } else {
        minted_minus_burned(l, runs.drop_last()) + run_delta(ledger_after(l, runs.drop_last()), runs.last())
    }
}

/// Whether every run of the sequence is possible as described where it
/// starts.
pub open spec fn runs_ready(l: LedgerModel, runs: Seq<Run>) -> bool {
    forall|i: int| 0 <= i < runs.len() ==> #[trigger] run_ready(ledger_after(l, runs.take(i)), runs[i])
}

/// Over any sequence of user actions, each run without interruption on a
/// fresh transaction and without a saturating credit, the shards together
/// hold what they held before plus everything minted minus everything
/// burned.
pub proof fn lemma_supply_is_minted_minus_burned(l: LedgerModel, runs: Seq<Run>)
    requires
        l.wf(),
        runs_ready(l, runs),
    ensures
        total_supply(ledger_after(l, runs).shards) == total_supply(l.shards) + minted_minus_burned(l, runs),
        ledger_after(l, runs).wf(),
    decreases runs.len(),
{
    if runs.len() > 0 {
        let prefix = runs.drop_last();
        assert forall|i: int| 0 <= i < prefix.len() implies #[trigger] run_ready(
            ledger_after(l, prefix.take(i)),
            prefix[i],
        ) by {
            assert(prefix.take(i) =~= runs.take(i));
            assert(run_ready(ledger_after(l, runs.take(i)), runs[i]));
        }
        lemma_supply_is_minted_minus_burned(l, prefix);
        assert(runs.take(runs.len() - 1) =~= prefix);
        assert(run_ready(ledger_after(l, runs.take(runs.len() - 1)), runs[runs.len() - 1]));
        lemma_run_moves_supply_by_delta(ledger_after(l, prefix), runs.last());
    }
}

/// From a ledger with no shards, the supply is exactly what was minted
/// minus what was burned.
pub proof fn lemma_supply_from_empty(l: LedgerModel, runs: Seq<Run>)
    requires
        l.shards == Map::<ActorId, ShardModel>::empty(),
        runs_ready(l, runs),
    ensures
        total_supply(ledger_after(l, runs).shards) == minted_minus_burned(l, runs),
{
    let f = |acc: int, a: ActorId| acc + sum_balances(l.shards[a].balances);
    assert(l.shards.dom() =~= Set::empty());
    lemma_fold_empty(0int, f);
    lemma_supply_is_minted_minus_burned(l, runs);
}

} // verus!
