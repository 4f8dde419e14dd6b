//! A storage shard: balances, allowances and permit nonces of the accounts of
//! one bucket, each mutation applied at most once per transaction hash.

use std::collections::BTreeMap;
use vstd::prelude::*;
use vstd::set::fold::{is_fun_commutative, lemma_fold_empty, lemma_fold_insert};

use crate::ids::{ActorId, Hash256};
use crate::wire::{FTStorageAction, FTStorageEvent, Fault};

verus! {

broadcast use vstd::std_specs::btree::group_btree_axioms, vstd::laws_cmp::group_laws_cmp;

/// The abstract state of a shard.
pub struct ShardModel {
    /// The coordinator that created the shard, the only sender of mutations.
    pub logic: ActorId,
    /// Outcome recorded per transaction hash: `true` applied, `false` refused.
    pub processed: Map<(u128, u128), bool>,
    pub balances: Map<(u128, u128), u128>,
    /// Allowance per `(owner, spender)`.
    pub allowances: Map<((u128, u128), (u128, u128)), u128>,
    pub nonces: Map<(u128, u128), u128>,
}

impl ShardModel {
    /// A shard holds finitely many balances.
    pub open spec fn wf(self) -> bool {
        self.balances.dom().finite()
    }

    pub open spec fn balance(self, a: ActorId) -> u128 {
        if self.balances.contains_key(a.key()) {
            self.balances[a.key()]
        } else {
            0
        }
    }

    pub open spec fn allowance(self, owner: ActorId, spender: ActorId) -> u128 {
        if self.allowances.contains_key((owner.key(), spender.key())) {
            self.allowances[(owner.key(), spender.key())]
        } else {
            0
        }
    }

    pub open spec fn nonce(self, a: ActorId) -> u128 {
        if self.nonces.contains_key(a.key()) {
            self.nonces[a.key()]
        } else {
            0
        }
    }

    pub open spec fn seen(self, h: Hash256) -> bool {
        self.processed.contains_key(h.key())
    }

    /// The reply that a transaction already seen gets again.
    pub open spec fn replay(self, h: Hash256) -> FTStorageEvent {
        if self.processed[h.key()] {
            FTStorageEvent::Accepted
        } else {
            FTStorageEvent::Rejected
        }
    }

    pub open spec fn record(self, h: Hash256, applied: bool) -> ShardModel {
        ShardModel { processed: self.processed.insert(h.key(), applied), ..self }
    }

    pub open spec fn with_balance(self, a: ActorId, v: u128) -> ShardModel {
        ShardModel { balances: self.balances.insert(a.key(), v), ..self }
    }

    /// Whether `msg_source` may take `amount` from `account`.
    pub open spec fn may_debit(self, msg_source: ActorId, account: ActorId, amount: u128) -> bool {
        &&& self.balance(account) >= amount
        &&& (msg_source == account || self.allowance(account, msg_source) >= amount)
    }

    /// Takes `amount` from `account`, and from the allowance of `msg_source`
    /// when it is not the owner.
    pub open spec fn debit(self, msg_source: ActorId, account: ActorId, amount: u128) -> ShardModel {
        let s = self.with_balance(account, (self.balance(account) - amount) as u128);
        if msg_source == account {
            s
        } else {
            ShardModel {
                allowances: s.allowances.insert(
                    (account.key(), msg_source.key()),
                    (self.allowance(account, msg_source) - amount) as u128,
                ),
                ..s
            }
        }
    }

    /// Adds `amount` to `account`, saturating at the largest balance.
    pub open spec fn credit(self, account: ActorId, amount: u128) -> ShardModel {
        self.with_balance(account, sat_add(self.balance(account), amount))
    }
}

pub open spec fn sat_add(a: u128, b: u128) -> u128 {
    if a + b > u128::MAX {
        u128::MAX
    } else {
        (a + b) as u128
    }
}

/// Whether an action changes the shard, and so needs the coordinator's
/// authority.
pub open spec fn is_mutation(action: FTStorageAction) -> bool {
    !(action is GetBalance || action is GetPermitId)
}

/// What one action does to a shard, and the reply it gets.
pub open spec fn spec_handle(s: ShardModel, caller: ActorId, action: FTStorageAction) -> (
    ShardModel,
    Result<FTStorageEvent, Fault>,
) {
    if is_mutation(action) && caller != s.logic {
        (s, Err(Fault::Unauthorized))
    } else {
        match action {
            FTStorageAction::GetBalance(a) => (s, Ok(FTStorageEvent::Balance(s.balance(a)))),
            FTStorageAction::GetPermitId(a) => (s, Ok(FTStorageEvent::PermitId(s.nonce(a)))),
            FTStorageAction::IncreaseBalance { transaction_hash: h, account, amount } => {
                if s.seen(h) {
                    (s, Ok(s.replay(h)))
                } else {
                    (s.credit(account, amount).record(h, true), Ok(FTStorageEvent::Accepted))
                }
            },
            FTStorageAction::DecreaseBalance { transaction_hash: h, msg_source, account, amount } => {
                if s.seen(h) {
                    (s, Ok(s.replay(h)))
                } else if s.may_debit(msg_source, account, amount) {
                    (s.debit(msg_source, account, amount).record(h, true), Ok(FTStorageEvent::Accepted))
                } else {
                    (s.record(h, false), Ok(FTStorageEvent::Rejected))
                }
            },
            FTStorageAction::Approve { transaction_hash: h, msg_source, account, amount } => {
                if s.seen(h) {
                    (s, Ok(s.replay(h)))
                } else {
                    (
                        ShardModel {
                            allowances: s.allowances.insert((msg_source.key(), account.key()), amount),
                            ..s
                        }.record(h, true),
                        Ok(FTStorageEvent::Accepted),
                    )
                }
            },
            FTStorageAction::Transfer { transaction_hash: h, msg_source, sender, recipient, amount } => {
                if s.seen(h) {
                    (s, Ok(s.replay(h)))
                } else if s.may_debit(msg_source, sender, amount) {
                    (
                        s.debit(msg_source, sender, amount).credit(recipient, amount).record(h, true),
                        Ok(FTStorageEvent::Accepted),
                    )
                } else {
                    (s.record(h, false), Ok(FTStorageEvent::Rejected))
                }
            },
            FTStorageAction::IncrementPermitId { transaction_hash: h, account, expected_permit_id } => {
                if s.seen(h) {
                    (s, Ok(s.replay(h)))
                } else if s.nonce(account) == expected_permit_id && expected_permit_id < u128::MAX {
                    (
                        ShardModel {
                            nonces: s.nonces.insert(account.key(), (expected_permit_id + 1) as u128),
                            ..s
                        }.record(h, true),
                        Ok(FTStorageEvent::Accepted),
                    )
                } else {
                    (s.record(h, false), Ok(FTStorageEvent::Rejected))
                }
            },
        }
    }
}

/// The transaction hash that a mutation carries.
pub open spec fn action_hash(action: FTStorageAction) -> Option<Hash256> {
    match action {
        FTStorageAction::GetBalance(_) => None,
        FTStorageAction::GetPermitId(_) => None,
        FTStorageAction::IncreaseBalance { transaction_hash, .. } => Some(transaction_hash),
        FTStorageAction::DecreaseBalance { transaction_hash, .. } => Some(transaction_hash),
        FTStorageAction::Approve { transaction_hash, .. } => Some(transaction_hash),
        FTStorageAction::Transfer { transaction_hash, .. } => Some(transaction_hash),
        FTStorageAction::IncrementPermitId { transaction_hash, .. } => Some(transaction_hash),
    }
}

/// Delivering the same request twice has the effect of delivering it once:
/// the second delivery gets the same reply and changes nothing.
pub proof fn lemma_redelivery_is_idempotent(s: ShardModel, caller: ActorId, action: FTStorageAction)
    ensures
        spec_handle(spec_handle(s, caller, action).0, caller, action) == (
            spec_handle(s, caller, action).0,
            spec_handle(s, caller, action).1,
        ),
{
}

/// A mutation whose hash the shard has already seen changes nothing and gets
/// the recorded outcome.
pub proof fn lemma_seen_hash_changes_nothing(s: ShardModel, caller: ActorId, action: FTStorageAction)
    requires
        action_hash(action) is Some,
        s.seen(action_hash(action)->0),
    ensures
        spec_handle(s, caller, action).0 == s,
        caller == s.logic ==> spec_handle(s, caller, action).1 == Ok::<FTStorageEvent, Fault>(
            s.replay(action_hash(action)->0),
        ),
{
}

/// Raising a balance never lowers it: the addition saturates.
pub proof fn lemma_increase_never_lowers(
    s: ShardModel,
    caller: ActorId,
    h: Hash256,
    account: ActorId,
    amount: u128,
)
    ensures
        spec_handle(
            s,
            caller,
            FTStorageAction::IncreaseBalance { transaction_hash: h, account, amount },
        ).0.balance(account) >= s.balance(account),
{
}

/// Whether `action` consumes a permit nonce of `a`.
pub open spec fn consumes_permit(s: ShardModel, caller: ActorId, action: FTStorageAction, a: ActorId) -> bool {
    &&& action matches FTStorageAction::IncrementPermitId { transaction_hash, account, .. }
    &&& account == a
    &&& caller == s.logic
    &&& !s.seen(transaction_hash)
    &&& spec_handle(s, caller, action).1 == Ok::<FTStorageEvent, Fault>(FTStorageEvent::Accepted)
}

/// A permit nonce never goes down, and goes up by exactly one on each
/// successful consumption and on nothing else.
pub proof fn lemma_nonce_advances_by_one(s: ShardModel, caller: ActorId, action: FTStorageAction, a: ActorId)
    ensures
        spec_handle(s, caller, action).0.nonce(a) == s.nonce(a) + (if consumes_permit(
            s,
            caller,
            action,
            a,
        ) {
            1int
        } else {
            0int
        }),
        spec_handle(s, caller, action).0.nonce(a) >= s.nonce(a),
{
}

/// The two halves of a transfer between different shards, both applied:
/// the sender has exactly `amount` less, the recipient exactly `amount` more,
/// and no other balance of either shard moved.
pub proof fn lemma_split_transfer_moves_amount(
    sender_shard: ShardModel,
    recipient_shard: ShardModel,
    h: Hash256,
    msg_source: ActorId,
    sender: ActorId,
    recipient: ActorId,
    amount: u128,
)
    requires
        recipient_shard.balance(recipient) + amount <= u128::MAX,
        spec_handle(
            sender_shard,
            sender_shard.logic,
            FTStorageAction::DecreaseBalance { transaction_hash: h, msg_source, account: sender, amount },
        ).1 == Ok::<FTStorageEvent, Fault>(FTStorageEvent::Accepted),
        !sender_shard.seen(h),
        spec_handle(
            recipient_shard,
            recipient_shard.logic,
            FTStorageAction::IncreaseBalance { transaction_hash: h, account: recipient, amount },
        ).1 == Ok::<FTStorageEvent, Fault>(FTStorageEvent::Accepted),
        !recipient_shard.seen(h),
    ensures
        ({
            let s1 = spec_handle(
                sender_shard,
                sender_shard.logic,
                FTStorageAction::DecreaseBalance { transaction_hash: h, msg_source, account: sender, amount },
            ).0;
            let r1 = spec_handle(
                recipient_shard,
                recipient_shard.logic,
                FTStorageAction::IncreaseBalance { transaction_hash: h, account: recipient, amount },
            ).0;
            &&& s1.balance(sender) == sender_shard.balance(sender) - amount
            &&& r1.balance(recipient) == recipient_shard.balance(recipient) + amount
            &&& forall|x: ActorId| x != sender ==> #[trigger] s1.balance(x) == sender_shard.balance(x)
            &&& forall|x: ActorId| x != recipient ==> #[trigger] r1.balance(x) == recipient_shard.balance(x)
        }),
{
}

/// A transfer inside one shard that is applied: the sender has exactly
/// `amount` less, the recipient exactly `amount` more (nothing moves when
/// they are the same account), and no other balance moved.
pub proof fn lemma_local_transfer_moves_amount(
    s: ShardModel,
    h: Hash256,
    msg_source: ActorId,
    sender: ActorId,
    recipient: ActorId,
    amount: u128,
)
    requires
        sender == recipient || s.balance(recipient) + amount <= u128::MAX,
        spec_handle(
            s,
            s.logic,
            FTStorageAction::Transfer { transaction_hash: h, msg_source, sender, recipient, amount },
        ).1 == Ok::<FTStorageEvent, Fault>(FTStorageEvent::Accepted),
        !s.seen(h),
    ensures
        ({
            let t = spec_handle(
                s,
                s.logic,
                FTStorageAction::Transfer { transaction_hash: h, msg_source, sender, recipient, amount },
            ).0;
            &&& sender != recipient ==> t.balance(sender) == s.balance(sender) - amount
            &&& sender != recipient ==> t.balance(recipient) == s.balance(recipient) + amount
            &&& forall|x: ActorId| x != sender && x != recipient ==> #[trigger] t.balance(x) == s.balance(x)
            &&& t.balance(sender) + t.balance(recipient) == s.balance(sender) + s.balance(recipient)
                || sender == recipient && t.balance(sender) == s.balance(sender)
        }),
{
}

/// A request that the shard refuses moves no balance.
pub proof fn lemma_refusal_moves_nothing(s: ShardModel, caller: ActorId, action: FTStorageAction, x: ActorId)
    requires
        spec_handle(s, caller, action).1 != Ok::<FTStorageEvent, Fault>(FTStorageEvent::Accepted),
    ensures
        spec_handle(s, caller, action).0.balance(x) == s.balance(x),
{
}

/// Compensation: a debit applied under `h`, then credited back under the
/// fresh abort hash `ah`, leaves every balance as it was before the debit.
pub proof fn lemma_abort_restores_balances(
    s: ShardModel,
    h: Hash256,
    ah: Hash256,
    msg_source: ActorId,
    account: ActorId,
    amount: u128,
    x: ActorId,
)
    requires
        spec_handle(
            s,
            s.logic,
            FTStorageAction::DecreaseBalance { transaction_hash: h, msg_source, account, amount },
        ).1 == Ok::<FTStorageEvent, Fault>(FTStorageEvent::Accepted),
        !s.seen(h),
        !spec_handle(
            s,
            s.logic,
            FTStorageAction::DecreaseBalance { transaction_hash: h, msg_source, account, amount },
        ).0.seen(ah),
    ensures
        ({
            let s1 = spec_handle(
                s,
                s.logic,
                FTStorageAction::DecreaseBalance { transaction_hash: h, msg_source, account, amount },
            ).0;
            let s2 = spec_handle(
                s1,
                s1.logic,
                FTStorageAction::IncreaseBalance { transaction_hash: ah, account, amount },
            );
            &&& s2.1 == Ok::<FTStorageEvent, Fault>(FTStorageEvent::Accepted)
            &&& s2.0.balance(x) == s.balance(x)
        }),
{
}

/// The sum of all balances of a shard.
pub open spec fn sum_balances(m: Map<(u128, u128), u128>) -> int {
    m.dom().fold(0int, |acc: int, k: (u128, u128)| acc + m[k])
}

proof fn lemma_fold_agrees(s: Set<(u128, u128)>, m1: Map<(u128, u128), u128>, m2: Map<(u128, u128), u128>)
    requires
        s.finite(),
        forall|k: (u128, u128)| s.contains(k) ==> m1[k] == m2[k],
    ensures
        s.fold(0int, |acc: int, k: (u128, u128)| acc + m1[k]) == s.fold(0int, |acc: int, k: (u128, u128)| acc + m2[k]),
    decreases s.len(),
{
    let f1 = |acc: int, k: (u128, u128)| acc + m1[k];
    let f2 = |acc: int, k: (u128, u128)| acc + m2[k];
    assert(is_fun_commutative(f1));
    assert(is_fun_commutative(f2));
    if s.len() == 0 {
        assert(s =~= Set::empty());
        lemma_fold_empty(0int, f1);
        lemma_fold_empty(0int, f2);
    } else {
        let a = s.choose();
        let r = s.remove(a);
        assert(r.insert(a) =~= s);
        lemma_fold_agrees(r, m1, m2);
        lemma_fold_insert(r, 0int, f1, a);
        lemma_fold_insert(r, 0int, f2, a);
    }
}

/// Setting one balance changes the sum by the difference.
proof fn lemma_sum_insert(m: Map<(u128, u128), u128>, k: (u128, u128), v: u128)
    requires
        m.dom().finite(),
    ensures
        sum_balances(m.insert(k, v)) == sum_balances(m) - (if m.contains_key(k) {
            m[k] as int
        } else {
            0int
        }) + v,
{
    let m2 = m.insert(k, v);
    let r = m.dom().remove(k);
    let f1 = |acc: int, x: (u128, u128)| acc + m[x];
    let f2 = |acc: int, x: (u128, u128)| acc + m2[x];
    assert(is_fun_commutative(f1));
    assert(is_fun_commutative(f2));
    lemma_fold_agrees(r, m, m2);
    assert(m2.dom() =~= r.insert(k));
    lemma_fold_insert(r, 0int, f2, k);
    if m.contains_key(k) {
        assert(m.dom() =~= r.insert(k));
        lemma_fold_insert(r, 0int, f1, k);
    } else {
        assert(m.dom() =~= r);
    }
}

proof fn lemma_sum_with_balance(s: ShardModel, a: ActorId, v: u128)
    requires
        s.balances.dom().finite(),
    ensures
        sum_balances(s.with_balance(a, v).balances) == sum_balances(s.balances) - s.balance(a) + v,
        s.with_balance(a, v).balances.dom().finite(),
{
    lemma_sum_insert(s.balances, a.key(), v);
}

/// How much a request adds to a shard's holdings: the amount of a fresh
/// increase, minus the amount of a fresh decrease that was accepted.
pub open spec fn net_credit(s: ShardModel, caller: ActorId, action: FTStorageAction) -> int {
    if caller != s.logic {
        0
    } else {
        match action {
            FTStorageAction::IncreaseBalance { transaction_hash, amount, .. } => if s.seen(transaction_hash) {
                0
            } else {
                amount as int
            },
            FTStorageAction::DecreaseBalance { transaction_hash, msg_source, account, amount } => {
                if !s.seen(transaction_hash) && s.may_debit(msg_source, account, amount) {
                    -amount
                } else {
                    0
                }
            },
            _ => 0,
        }
    }
}

/// Whether a fresh credit that `action` would make overflows the largest
/// balance (and so saturates).
pub open spec fn credit_saturates(s: ShardModel, caller: ActorId, action: FTStorageAction) -> bool {
    caller == s.logic && match action {
        FTStorageAction::IncreaseBalance { transaction_hash, account, amount } => !s.seen(transaction_hash)
            && s.balance(account) + amount > u128::MAX,
        FTStorageAction::Transfer { transaction_hash, msg_source, sender, recipient, amount } => !s.seen(transaction_hash)
            && s.may_debit(msg_source, sender, amount) && sender != recipient && s.balance(recipient) + amount > u128::MAX,
        _ => false,
    }
}

/// Conservation: unless a credit saturates, a request changes the sum of a
/// shard's balances by exactly what it mints minus what it burns; a
/// shard-local transfer, an approval, a nonce and a refusal change nothing.
pub proof fn lemma_supply_moves_by_net_credit(s: ShardModel, caller: ActorId, action: FTStorageAction)
    requires
        s.wf(),
        !credit_saturates(s, caller, action),
    ensures
        sum_balances(spec_handle(s, caller, action).0.balances) == sum_balances(s.balances) + net_credit(s, caller, action),
        spec_handle(s, caller, action).0.wf(),
{
    if caller == s.logic {
        match action {
            FTStorageAction::IncreaseBalance { transaction_hash, account, amount } => {
                if !s.seen(transaction_hash) {
                    lemma_sum_with_balance(s, account, sat_add(s.balance(account), amount));
                }
            },
            FTStorageAction::DecreaseBalance { transaction_hash, msg_source, account, amount } => {
                if !s.seen(transaction_hash) && s.may_debit(msg_source, account, amount) {
                    lemma_sum_with_balance(s, account, (s.balance(account) - amount) as u128);
                }
            },
            FTStorageAction::Transfer { transaction_hash, msg_source, sender, recipient, amount } => {
                if !s.seen(transaction_hash) && s.may_debit(msg_source, sender, amount) {
                    let s1 = s.debit(msg_source, sender, amount);
                    lemma_sum_with_balance(s, sender, (s.balance(sender) - amount) as u128);
                    lemma_sum_with_balance(s1, recipient, sat_add(s1.balance(recipient), amount));
                }
            },
            _ => {},
        }
    }
}

/// The state of one storage shard.
pub struct FTStorage {
    ft_logic_id: ActorId,
    transaction_status: BTreeMap<(u128, u128), bool>,
    balances: BTreeMap<(u128, u128), u128>,
    approvals: BTreeMap<((u128, u128), (u128, u128)), u128>,
    permits: BTreeMap<(u128, u128), u128>,
}

impl View for FTStorage {
    type V = ShardModel;

    closed spec fn view(&self) -> ShardModel {
        ShardModel {
            logic: self.ft_logic_id,
            processed: self.transaction_status@,
            balances: self.balances@,
            allowances: self.approvals@,
            nonces: self.permits@,
        }
    }
}

impl FTStorage {
    /// A fresh shard created by the coordinator `ft_logic_id`.
    pub fn new(ft_logic_id: ActorId) -> (r: FTStorage)
        ensures
            r@.logic == ft_logic_id,
            r@.processed == Map::<(u128, u128), bool>::empty(),
            r@.balances == Map::<(u128, u128), u128>::empty(),
            r@.allowances == Map::<((u128, u128), (u128, u128)), u128>::empty(),
            r@.nonces == Map::<(u128, u128), u128>::empty(),
            r@.wf(),
    {
        FTStorage {
            ft_logic_id,
            transaction_status: BTreeMap::new(),
            balances: BTreeMap::new(),
            approvals: BTreeMap::new(),
            permits: BTreeMap::new(),
        }
    }

    pub fn ft_logic_id(&self) -> (r: ActorId)
        ensures
            r == self@.logic,
    {
        self.ft_logic_id
    }

    /// The balance of `account`, zero when it holds none.
    pub fn get_balance(&self, account: &ActorId) -> (r: u128)
        ensures
            r == self@.balance(*account),
    {
        match self.balances.get(&account.key_of()) {
            Some(b) => *b,
            None => 0,
        }
    }

    /// The permit nonce of `account`, zero when it has none.
    pub fn get_permit_id(&self, account: &ActorId) -> (r: u128)
        ensures
            r == self@.nonce(*account),
    {
        match self.permits.get(&account.key_of()) {
            Some(n) => *n,
            None => 0,
        }
    }

    pub fn get_allowance(&self, owner: &ActorId, spender: &ActorId) -> (r: u128)
        ensures
            r == self@.allowance(*owner, *spender),
    {
        match self.approvals.get(&(owner.key_of(), spender.key_of())) {
            Some(n) => *n,
            None => 0,
        }
    }

    /// The outcome recorded for `h`, if the shard has seen it.
    pub fn transaction_status(&self, h: &Hash256) -> (r: Option<bool>)
        ensures
            r == (if self@.seen(*h) {
                Some(self@.processed[h.key()])
            } else {
                None
            }),
    {
        match self.transaction_status.get(&h.key_of()) {
            Some(b) => Some(*b),
            None => None,
        }
    }

    /// The reply for `h` when the shard has already seen it.
    fn recorded(&self, h: &Hash256) -> (r: Option<FTStorageEvent>)
        ensures
            r == (if self@.seen(*h) {
                Some(self@.replay(*h))
            } else {
                None
            }),
    {
        match self.transaction_status.get(&h.key_of()) {
            Some(b) => if *b {
                Some(FTStorageEvent::Accepted)
            } else {
                Some(FTStorageEvent::Rejected)
            },
            None => None,
        }
    }

    fn record(&mut self, h: &Hash256, applied: bool)
        ensures
            final(self)@ == old(self)@.record(*h, applied),
    {
        self.transaction_status.insert(h.key_of(), applied);
    }

    fn set_balance(&mut self, a: &ActorId, v: u128)
        ensures
            final(self)@ == old(self)@.with_balance(*a, v),
    {
        self.balances.insert(a.key_of(), v);
    }

    fn credit(&mut self, account: &ActorId, amount: u128)
        ensures
            final(self)@ == old(self)@.credit(*account, amount),
            final(self)@.balance(*account) >= old(self)@.balance(*account),
    {
        let b = self.get_balance(account);
        self.set_balance(account, b.saturating_add(amount));
    }

    fn may_debit(&self, msg_source: &ActorId, account: &ActorId, amount: u128) -> (r: bool)
        ensures
            r == self@.may_debit(*msg_source, *account, amount),
    {
        self.get_balance(account) >= amount && (*msg_source == *account || self.get_allowance(
            account,
            msg_source,
        ) >= amount)
    }

    fn debit(&mut self, msg_source: &ActorId, account: &ActorId, amount: u128)
        requires
            old(self)@.may_debit(*msg_source, *account, amount),
        ensures
            final(self)@ == old(self)@.debit(*msg_source, *account, amount),
    {
        let b = self.get_balance(account);
        let allowed = self.get_allowance(account, msg_source);
        self.set_balance(account, b - amount);
        if *msg_source != *account {
            self.approvals.insert((account.key_of(), msg_source.key_of()), allowed - amount);
        }
    }

    /// Adds `amount` to `account` under `h`, once.
    pub fn increase_balance(&mut self, h: &Hash256, account: &ActorId, amount: u128) -> (r:
        FTStorageEvent)
        ensures
            (final(self)@, Ok::<FTStorageEvent, Fault>(r)) == spec_handle(
                old(self)@,
                old(self)@.logic,
                FTStorageAction::IncreaseBalance { transaction_hash: *h, account: *account, amount },
            ),
    {
        if let Some(e) = self.recorded(h) {
            return e;
        }
        self.credit(account, amount);
        self.record(h, true);
        FTStorageEvent::Accepted
    }

    /// Takes `amount` from `account` on behalf of `msg_source` under `h`, once.
    pub fn decrease_balance(
        &mut self,
        h: &Hash256,
        msg_source: &ActorId,
        account: &ActorId,
        amount: u128,
    ) -> (r: FTStorageEvent)
        ensures
            (final(self)@, Ok::<FTStorageEvent, Fault>(r)) == spec_handle(
                old(self)@,
                old(self)@.logic,
                FTStorageAction::DecreaseBalance {
                    transaction_hash: *h,
                    msg_source: *msg_source,
                    account: *account,
                    amount,
                },
            ),
    {
        if let Some(e) = self.recorded(h) {
            return e;
        }
        if self.may_debit(msg_source, account, amount) {
            self.debit(msg_source, account, amount);
            self.record(h, true);
            FTStorageEvent::Accepted
        } else {
            self.record(h, false);
            FTStorageEvent::Rejected
        }
    }

    /// Sets the allowance of `spender` over the funds of `owner` under `h`,
    /// once.
    pub fn approve(&mut self, h: &Hash256, owner: &ActorId, spender: &ActorId, amount: u128) -> (r:
        FTStorageEvent)
        ensures
            (final(self)@, Ok::<FTStorageEvent, Fault>(r)) == spec_handle(
                old(self)@,
                old(self)@.logic,
                FTStorageAction::Approve {
                    transaction_hash: *h,
                    msg_source: *owner,
                    account: *spender,
                    amount,
                },
            ),
    {
        if let Some(e) = self.recorded(h) {
            return e;
        }
        self.approvals.insert((owner.key_of(), spender.key_of()), amount);
        self.record(h, true);
        FTStorageEvent::Accepted
    }

    /// Moves `amount` between two accounts of this shard under `h`, once.
    pub fn transfer(
        &mut self,
        h: &Hash256,
        msg_source: &ActorId,
        sender: &ActorId,
        recipient: &ActorId,
        amount: u128,
    ) -> (r: FTStorageEvent)
        ensures
            (final(self)@, Ok::<FTStorageEvent, Fault>(r)) == spec_handle(
                old(self)@,
                old(self)@.logic,
                FTStorageAction::Transfer {
                    transaction_hash: *h,
                    msg_source: *msg_source,
                    sender: *sender,
                    recipient: *recipient,
                    amount,
                },
            ),
    {
        if let Some(e) = self.recorded(h) {
            return e;
        }
        if self.may_debit(msg_source, sender, amount) {
            self.debit(msg_source, sender, amount);
            self.credit(recipient, amount);
            self.record(h, true);
            FTStorageEvent::Accepted
        } else {
            self.record(h, false);
            FTStorageEvent::Rejected
        }
    }

    /// Consumes permit nonce `expected` of `account` under `h`, once: it
    /// succeeds only when the nonce is `expected`, and then advances it by one.
    pub fn increment_permit_id(&mut self, h: &Hash256, account: &ActorId, expected: u128) -> (r:
        FTStorageEvent)
        ensures
            (final(self)@, Ok::<FTStorageEvent, Fault>(r)) == spec_handle(
                old(self)@,
                old(self)@.logic,
                FTStorageAction::IncrementPermitId {
                    transaction_hash: *h,
                    account: *account,
                    expected_permit_id: expected,
                },
            ),
    {
        if let Some(e) = self.recorded(h) {
            return e;
        }
        let n = self.get_permit_id(account);
        if n == expected && expected < u128::MAX {
            self.permits.insert(account.key_of(), expected + 1);
            self.record(h, true);
            FTStorageEvent::Accepted
        } else {
            self.record(h, false);
            FTStorageEvent::Rejected
        }
    }

    /// Applies one request from `caller`. Mutations are accepted from the
    /// coordinator that created the shard alone.
    pub fn handle(&mut self, caller: &ActorId, action: &FTStorageAction) -> (r: Result<
        FTStorageEvent,
        Fault,
    >)
        ensures
            (final(self)@, r) == spec_handle(old(self)@, *caller, *action),
            final(self)@.wf(),
    {
        let is_read = match action {
            FTStorageAction::GetBalance(_) => true,
            FTStorageAction::GetPermitId(_) => true,
            _ => false,
        };
        if !is_read && *caller != self.ft_logic_id {
            return Err(Fault::Unauthorized);
        }
        match action {
            FTStorageAction::GetBalance(a) => Ok(FTStorageEvent::Balance(self.get_balance(a))),
            FTStorageAction::GetPermitId(a) => Ok(FTStorageEvent::PermitId(self.get_permit_id(a))),
            FTStorageAction::IncreaseBalance { transaction_hash, account, amount } => Ok(
                self.increase_balance(transaction_hash, account, *amount),
            ),
            FTStorageAction::DecreaseBalance { transaction_hash, msg_source, account, amount } => Ok(
                self.decrease_balance(transaction_hash, msg_source, account, *amount),
            ),
            FTStorageAction::Approve { transaction_hash, msg_source, account, amount } => Ok(
                self.approve(transaction_hash, msg_source, account, *amount),
            ),
            FTStorageAction::Transfer { transaction_hash, msg_source, sender, recipient, amount } => Ok(
                self.transfer(transaction_hash, msg_source, sender, recipient, *amount),
            ),
            FTStorageAction::IncrementPermitId { transaction_hash, account, expected_permit_id } => Ok(
                self.increment_permit_id(transaction_hash, account, *expected_permit_id),
            ),
        }
    }
}

} // verus!
