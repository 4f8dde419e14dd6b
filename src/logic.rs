//! The coordinator: it owns the shard directory and turns each user action
//! into primitive shard operations. It is a state machine whose every
//! transition is written to its own state before the next suspension, so a
//! transaction cut off at any point resumes safely when it is retried.

use std::collections::BTreeMap;
use vstd::prelude::*;

use crate::ids::{
    abort_hash, bucket, permit_hash, spec_abort_hash, spec_bucket, spec_permit_hash, ActorId, Hash256,
};
use crate::wire::{FTLogicEvent, FTStorageAction, Fault, LogicAction, TransactionStatus};

verus! {

broadcast use vstd::std_specs::btree::group_btree_axioms, vstd::laws_cmp::group_laws_cmp;

/// How far one primitive step of a transaction has come.
#[derive(Clone, Copy, Debug, PartialEq, Eq, Structural)]
pub enum StepState {
    Ready,
    Running,
    Succeeded,
    Failed,
    Aborted,
}

/// The durable progress of a transfer.
#[derive(Clone, Copy, Debug, PartialEq, Eq, Structural)]
pub enum Continuation {
    /// Both ends live on one shard: a single shard-local transfer.
    Local {
        shard: ActorId,
        msg_source: ActorId,
        sender: ActorId,
        recipient: ActorId,
        amount: u128,
        step: StepState,
    },
    /// The ends live on two shards: a decrease on the sender's shard, then an
    /// increase on the recipient's, compensated if the increase fails.
    Split {
        sender_shard: ActorId,
        recipient_shard: ActorId,
        msg_source: ActorId,
        sender: ActorId,
        recipient: ActorId,
        amount: u128,
        decrease: StepState,
        increase: StepState,
    },
}

/// What the coordinator asks of its runtime next.
#[derive(Clone, Copy, Debug, PartialEq, Eq, Structural)]
pub enum Command {
    /// Send `action` to `shard`, await the reply, and hand it to `on_reply`.
    Send { shard: ActorId, action: FTStorageAction },
    /// Create a storage shard for `bucket`, and hand its address to
    /// `on_shard_created`.
    CreateShard { bucket: u32 },
    /// Reply to the gateway; the handler is done.
    Reply(FTLogicEvent),
    /// Stop without a reply; a retry of the transaction resumes it.
    Halt,
}

/// The abstract state of the coordinator.
pub struct LogicModel {
    pub admin: ActorId,
    pub ftoken_id: ActorId,
    pub storage_code_hash: Hash256,
    pub status: Map<(u128, u128), TransactionStatus>,
    pub continuations: Map<(u128, u128), Continuation>,
    pub permit_checks: Map<(u128, u128), StepState>,
    /// Bucket key (a hex digit, as a code point) to shard address.
    pub directory: Map<u32, ActorId>,
}

pub open spec fn is_pending(s: StepState) -> bool {
    s is Ready || s is Running
}

pub open spec fn outcome(accepted: bool) -> StepState {
    if accepted {
        StepState::Succeeded
    } else {
        StepState::Failed
    }
}

impl LogicModel {
    pub open spec fn shard_for(self, a: ActorId) -> Option<ActorId> {
        if self.directory.contains_key(spec_bucket(a)) {
            Some(self.directory[spec_bucket(a)])
        } else {
            None
        }
    }

    pub open spec fn status_of(self, h: Hash256) -> Option<TransactionStatus> {
        if self.status.contains_key(h.key()) {
            Some(self.status[h.key()])
        } else {
            None
        }
    }

    pub open spec fn finish(self, h: Hash256, st: TransactionStatus) -> LogicModel {
        LogicModel { status: self.status.insert(h.key(), st), ..self }
    }

    pub open spec fn set_cont(self, h: Hash256, c: Continuation) -> LogicModel {
        LogicModel { continuations: self.continuations.insert(h.key(), c), ..self }
    }

    pub open spec fn set_check(self, h: Hash256, s: StepState) -> LogicModel {
        LogicModel { permit_checks: self.permit_checks.insert(h.key(), s), ..self }
    }

    pub open spec fn check_of(self, h: Hash256) -> StepState {
        if self.permit_checks.contains_key(h.key()) {
            self.permit_checks[h.key()]
        } else {
            StepState::Ready
        }
    }
}

/// The request of a shard-local transfer.
pub open spec fn local_request(h: Hash256, msg_source: ActorId, sender: ActorId, recipient: ActorId, amount: u128) -> FTStorageAction {
    FTStorageAction::Transfer { transaction_hash: h, msg_source, sender, recipient, amount }
}

/// The compensation of a decrease: the amount goes back under the abort hash.
pub open spec fn abort_request(h: Hash256, sender: ActorId, amount: u128) -> FTStorageAction {
    FTStorageAction::IncreaseBalance { transaction_hash: spec_abort_hash(h), account: sender, amount }
}

/// Runs a continuation one step further.
pub open spec fn spec_drive(m: LogicModel, h: Hash256, c: Continuation) -> (LogicModel, Command) {
    match c {
        Continuation::Local { shard, msg_source, sender, recipient, amount, step } => {
            if is_pending(step) {
                (
                    m.set_cont(h, Continuation::Local { shard, msg_source, sender, recipient, amount, step: StepState::Running }),
                    Command::Send { shard, action: local_request(h, msg_source, sender, recipient, amount) },
                )
            } else if step is Succeeded {
                (m.finish(h, TransactionStatus::Success), Command::Reply(FTLogicEvent::Accepted))
            } else {
                (m.finish(h, TransactionStatus::Failure), Command::Reply(FTLogicEvent::Rejected))
            }
        },
        Continuation::Split { sender_shard, recipient_shard, msg_source, sender, recipient, amount, decrease, increase } => {
            if is_pending(decrease) {
                (
                    m.set_cont(h, Continuation::Split {
                        sender_shard, recipient_shard, msg_source, sender, recipient, amount,
                        decrease: StepState::Running, increase,
                    }),
                    Command::Send {
                        shard: sender_shard,
                        action: FTStorageAction::DecreaseBalance { transaction_hash: h, msg_source, account: sender, amount },
                    },
                )
            } else if decrease is Succeeded {
                if is_pending(increase) {
                    (
                        m.set_cont(h, Continuation::Split {
                            sender_shard, recipient_shard, msg_source, sender, recipient, amount,
                            decrease, increase: StepState::Running,
                        }),
                        Command::Send {
                            shard: recipient_shard,
                            action: FTStorageAction::IncreaseBalance { transaction_hash: h, account: recipient, amount },
                        },
                    )
                } else if increase is Succeeded {
                    (m.finish(h, TransactionStatus::Success), Command::Reply(FTLogicEvent::Accepted))
                } else {
                    (m, Command::Send { shard: sender_shard, action: abort_request(h, sender, amount) })
                }
            } else {
                (m.finish(h, TransactionStatus::Failure), Command::Reply(FTLogicEvent::Rejected))
            }
        },
    }
}

/// Resolves both shards of a transfer, makes its continuation on first sight,
/// and runs it one step further.
pub open spec fn spec_transfer(m: LogicModel, h: Hash256, msg_source: ActorId, sender: ActorId, recipient: ActorId, amount: u128) -> (LogicModel, Command) {
    match m.shard_for(sender) {
        None => (m, Command::CreateShard { bucket: spec_bucket(sender) }),
        Some(ss) => match m.shard_for(recipient) {
            None => (m, Command::CreateShard { bucket: spec_bucket(recipient) }),
            Some(rs) => {
                let c = if m.continuations.contains_key(h.key()) {
                    m.continuations[h.key()]
                } else if ss == rs {
                    Continuation::Local { shard: ss, msg_source, sender, recipient, amount, step: StepState::Ready }
                } else {
                    Continuation::Split {
                        sender_shard: ss, recipient_shard: rs, msg_source, sender, recipient, amount,
                        decrease: StepState::Ready, increase: StepState::Ready,
                    }
                };
                spec_drive(m, h, c)
            },
        },
    }
}

/// The one request of a single-shard action, and the account whose shard
/// takes it.
pub open spec fn single_request(h: Hash256, account: ActorId, action: LogicAction) -> (ActorId, FTStorageAction) {
    match action {
        LogicAction::Mint { recipient, amount } => (
            recipient,
            FTStorageAction::IncreaseBalance { transaction_hash: h, account: recipient, amount },
        ),
        LogicAction::Burn { sender, amount } => (
            sender,
            FTStorageAction::DecreaseBalance { transaction_hash: h, msg_source: account, account: sender, amount },
        ),
        LogicAction::Approve { approved_account, amount } => (
            account,
            FTStorageAction::Approve { transaction_hash: h, msg_source: account, account: approved_account, amount },
        ),
        _ => (account, FTStorageAction::GetBalance(account)),
    }
}

pub open spec fn is_single(action: LogicAction) -> bool {
    action is Mint || action is Burn || action is Approve
}

/// The request that checks and consumes the nonce of a permit.
pub open spec fn permit_request(h: Hash256, owner: ActorId, permit_id: u128) -> FTStorageAction {
    FTStorageAction::IncrementPermitId { transaction_hash: spec_permit_hash(h), account: owner, expected_permit_id: permit_id }
}

/// The next command for transaction `h`, from what the coordinator has
/// recorded of it. A mint, burn or approval is one request to one shard; a
/// transfer runs the two-shard protocol; a permit whose signature verifies
/// first consumes the owner's nonce under the permit hash, then transfers
/// from the owner, on the owner's authority, to the approved account.
pub open spec fn spec_advance(m: LogicModel, h: Hash256, account: ActorId, action: LogicAction, signature_ok: bool) -> (LogicModel, Command) {
    if m.status_of(h) == Some(TransactionStatus::Success) {
        (m, Command::Reply(FTLogicEvent::Accepted))
    } else if m.status_of(h) == Some(TransactionStatus::Failure) {
        (m, Command::Reply(FTLogicEvent::Rejected))
    } else {
        match action {
            LogicAction::Transfer { sender, recipient, amount } => spec_transfer(m, h, account, sender, recipient, amount),
            LogicAction::Permit { owner_account, approved_account, amount, permit_id, .. } => {
                if !signature_ok {
                    (m.finish(h, TransactionStatus::Failure), Command::Reply(FTLogicEvent::Rejected))
                } else {
                    match m.shard_for(owner_account) {
                        None => (m, Command::CreateShard { bucket: spec_bucket(owner_account) }),
                        Some(os) => {
                            let check = m.check_of(h);
                            if is_pending(check) {
                                (
                                    m.set_check(h, StepState::Running),
                                    Command::Send { shard: os, action: permit_request(h, owner_account, permit_id) },
                                )
                            } else if check is Succeeded {
                                spec_transfer(m, h, owner_account, owner_account, approved_account, amount)
                            } else {
                                (m.finish(h, TransactionStatus::Failure), Command::Reply(FTLogicEvent::Rejected))
                            }
                        },
                    }
                }
            },
            _ => {
                let (who, req) = single_request(h, account, action);
                match m.shard_for(who) {
                    None => (m, Command::CreateShard { bucket: spec_bucket(who) }),
                    Some(s) => (m, Command::Send { shard: s, action: req }),
                }
            },
        }
    }
}

/// Records a shard's reply to `sent` in the continuation of `h`; `None`
/// when the reply refuses a compensation, which leaves the transaction in
/// progress.
pub open spec fn spec_record_cont(m: LogicModel, h: Hash256, sent: FTStorageAction, accepted: bool) -> Option<LogicModel> {
    if !m.continuations.contains_key(h.key()) {
        Some(m)
    } else {
        match m.continuations[h.key()] {
            Continuation::Local { shard, msg_source, sender, recipient, amount, step } => {
                if step is Running && sent == local_request(h, msg_source, sender, recipient, amount) {
                    Some(m.set_cont(h, Continuation::Local { shard, msg_source, sender, recipient, amount, step: outcome(accepted) }))
                } else {
                    Some(m)
                }
            },
            Continuation::Split { sender_shard, recipient_shard, msg_source, sender, recipient, amount, decrease, increase } => {
                if decrease is Running && sent == (FTStorageAction::DecreaseBalance { transaction_hash: h, msg_source, account: sender, amount }) {
                    Some(m.set_cont(h, Continuation::Split {
                        sender_shard, recipient_shard, msg_source, sender, recipient, amount,
                        decrease: outcome(accepted), increase,
                    }))
                } else if decrease is Succeeded && increase is Running && sent == (FTStorageAction::IncreaseBalance { transaction_hash: h, account: recipient, amount }) {
                    Some(m.set_cont(h, Continuation::Split {
                        sender_shard, recipient_shard, msg_source, sender, recipient, amount,
                        decrease, increase: outcome(accepted),
                    }))
                } else if decrease is Succeeded && increase is Failed && sent == abort_request(h, sender, amount) {
                    if accepted {
                        Some(m.set_cont(h, Continuation::Split {
                            sender_shard, recipient_shard, msg_source, sender, recipient, amount,
                            decrease: StepState::Aborted, increase,
                        }))
                    } else {
                        None
                    }
                } else {
                    Some(m)
                }
            },
        }
    }
}

/// Takes in a shard's reply to `sent`, then runs the transaction further.
pub open spec fn spec_on_reply(m: LogicModel, h: Hash256, account: ActorId, action: LogicAction, signature_ok: bool, sent: FTStorageAction, accepted: bool) -> (LogicModel, Command) {
    if m.status_of(h) is Some && m.status_of(h) != Some(TransactionStatus::InProgress) {
        spec_advance(m, h, account, action, signature_ok)
    } else if is_single(action) {
        if sent == single_request(h, account, action).1 {
            spec_advance(
                m.finish(h, if accepted { TransactionStatus::Success } else { TransactionStatus::Failure }),
                h, account, action, signature_ok,
            )
        } else {
            spec_advance(m, h, account, action, signature_ok)
        }
    } else {
        let m1 = match action {
            LogicAction::Permit { owner_account, permit_id, .. } => {
                if m.check_of(h) is Running && sent == permit_request(h, owner_account, permit_id) {
                    Some(m.set_check(h, outcome(accepted)))
                } else {
                    spec_record_cont(m, h, sent, accepted)
                }
            },
            _ => spec_record_cont(m, h, sent, accepted),
        };
        match m1 {
            Some(m2) => spec_advance(m2, h, account, action, signature_ok),
            None => (m, Command::Halt),
        }
    }
}

/// A step never goes back: once succeeded it stays so or is compensated,
/// once failed or compensated it stays so.
pub open spec fn step_kept(a: StepState, b: StepState) -> bool {
    &&& a is Succeeded ==> (b is Succeeded || b is Aborted)
    &&& a is Failed ==> b is Failed
    &&& a is Aborted ==> b is Aborted
}

/// The same transfer, with every step kept.
pub open spec fn continuation_kept(a: Continuation, b: Continuation) -> bool {
    match (a, b) {
        (
            Continuation::Local { shard, msg_source, sender, recipient, amount, step },
            Continuation::Local { shard: s2, msg_source: m2, sender: se2, recipient: r2, amount: a2, step: st2 },
        ) => shard == s2 && msg_source == m2 && sender == se2 && recipient == r2 && amount == a2
            && step_kept(step, st2),
        (
            Continuation::Split { sender_shard, recipient_shard, msg_source, sender, recipient, amount, decrease, increase },
            Continuation::Split {
                sender_shard: ss2, recipient_shard: rs2, msg_source: m2, sender: se2, recipient: r2, amount: a2,
                decrease: d2, increase: i2,
            },
        ) => sender_shard == ss2 && recipient_shard == rs2 && msg_source == m2 && sender == se2
            && recipient == r2 && amount == a2 && step_kept(decrease, d2) && step_kept(increase, i2),
        _ => false,
    }
}

/// Nothing recorded is lost or undone: terminal statuses stay, every
/// continuation keeps its steps, and the directory keeps every entry.
pub open spec fn progress_kept(m1: LogicModel, m2: LogicModel) -> bool {
    &&& forall|k: (u128, u128)| #[trigger] m1.status.contains_key(k) ==> m2.status.contains_key(k)
    &&& forall|k: (u128, u128)| m1.status.contains_key(k) && !(#[trigger] m1.status[k] is InProgress)
        ==> m2.status[k] == m1.status[k]
    &&& forall|k: (u128, u128)| #[trigger] m1.continuations.contains_key(k) ==> m2.continuations.contains_key(k)
        && continuation_kept(m1.continuations[k], m2.continuations[k])
    &&& forall|k: (u128, u128)| #[trigger] m1.permit_checks.contains_key(k) ==> m2.permit_checks.contains_key(k)
        && step_kept(m1.permit_checks[k], m2.permit_checks[k])
    &&& forall|b: u32| #[trigger] m1.directory.contains_key(b) ==> m2.directory.contains_key(b)
        && m2.directory[b] == m1.directory[b]
}

proof fn lemma_drive_keeps(m: LogicModel, h: Hash256, c: Continuation)
    requires
        m.continuations.contains_key(h.key()) ==> continuation_kept(m.continuations[h.key()], c),
        m.status_of(h) is None || m.status_of(h) == Some(TransactionStatus::InProgress),
    ensures
        progress_kept(m, spec_drive(m, h, c).0),
{
}

proof fn lemma_advance_keeps(m: LogicModel, h: Hash256, account: ActorId, action: LogicAction, signature_ok: bool)
    ensures
        progress_kept(m, spec_advance(m, h, account, action, signature_ok).0),
{
    if m.status_of(h) is None || m.status_of(h) == Some(TransactionStatus::InProgress) {
        match action {
            LogicAction::Transfer { sender, recipient, amount } => {
                lemma_transfer_keeps(m, h, account, sender, recipient, amount);
            },
            LogicAction::Permit { owner_account, approved_account, amount, .. } => {
                lemma_transfer_keeps(m, h, owner_account, owner_account, approved_account, amount);
                lemma_transfer_keeps(m.set_check(h, StepState::Running), h, owner_account, owner_account, approved_account, amount);
            },
            _ => {},
        }
    }
}

/// The two-shard protocol keeps all recorded progress.
proof fn lemma_transfer_keeps(m: LogicModel, h: Hash256, msg_source: ActorId, sender: ActorId, recipient: ActorId, amount: u128)
    requires
        m.status_of(h) is None || m.status_of(h) == Some(TransactionStatus::InProgress),
    ensures
        progress_kept(m, spec_transfer(m, h, msg_source, sender, recipient, amount).0),
{
    if m.shard_for(sender) is Some && m.shard_for(recipient) is Some {
        let ss = m.shard_for(sender)->0;
        let rs = m.shard_for(recipient)->0;
        let c = if m.continuations.contains_key(h.key()) {
            m.continuations[h.key()]
        } else if ss == rs {
            Continuation::Local { shard: ss, msg_source, sender, recipient, amount, step: StepState::Ready }
        } else {
            Continuation::Split {
                sender_shard: ss, recipient_shard: rs, msg_source, sender, recipient, amount,
                decrease: StepState::Ready, increase: StepState::Ready,
            }
        };
        lemma_drive_keeps(m, h, c);
    }
}

proof fn lemma_record_keeps(m: LogicModel, h: Hash256, sent: FTStorageAction, accepted: bool)
    ensures
        spec_record_cont(m, h, sent, accepted) matches Some(m2) ==> progress_kept(m, m2),
{
}

/// Recorded progress is kept along any run of transitions.
pub proof fn lemma_progress_kept_transitive(m1: LogicModel, m2: LogicModel, m3: LogicModel)
    requires
        progress_kept(m1, m2),
        progress_kept(m2, m3),
    ensures
        progress_kept(m1, m3),
{
    assert forall|k: (u128, u128)| #[trigger] m1.continuations.contains_key(k) implies m3.continuations.contains_key(k)
        && continuation_kept(m1.continuations[k], m3.continuations[k]) by {
        assert(m2.continuations.contains_key(k));
    }
    assert forall|k: (u128, u128)| #[trigger] m1.permit_checks.contains_key(k) implies m3.permit_checks.contains_key(k)
        && step_kept(m1.permit_checks[k], m3.permit_checks[k]) by {
        assert(m2.permit_checks.contains_key(k));
    }
    assert forall|k: (u128, u128)| m1.status.contains_key(k) && !(#[trigger] m1.status[k] is InProgress)
        implies m3.status[k] == m1.status[k] by {
        assert(m2.status.contains_key(k));
    }
}

/// A message from the gateway loses or undoes nothing that the coordinator
/// recorded: a step that succeeded is never applied again, one that failed
/// never turns into a success, and no directory entry changes.
pub proof fn lemma_message_keeps_progress(m: LogicModel, caller: ActorId, h: Hash256, account: ActorId, action: LogicAction, signature_ok: bool)
    ensures
        progress_kept(m, spec_message(m, caller, h, account, action, signature_ok).0),
{
    if caller == m.ftoken_id {
        let m1 = if m.status_of(h) is None {
            m.finish(h, TransactionStatus::InProgress)
        } else {
            m
        };
        lemma_advance_keeps(m1, h, account, action, signature_ok);
        lemma_progress_kept_transitive(m, m1, spec_advance(m1, h, account, action, signature_ok).0);
    }
}

/// A shard's reply loses or undoes nothing that the coordinator recorded.
pub proof fn lemma_reply_keeps_progress(
    m: LogicModel,
    h: Hash256,
    account: ActorId,
    action: LogicAction,
    signature_ok: bool,
    sent: FTStorageAction,
    accepted: bool,
)
    ensures
        progress_kept(m, spec_on_reply(m, h, account, action, signature_ok, sent, accepted).0),
{
    if m.status_of(h) is Some && m.status_of(h) != Some(TransactionStatus::InProgress) {
        lemma_advance_keeps(m, h, account, action, signature_ok);
    } else if is_single(action) {
        let m1 = m.finish(h, if accepted { TransactionStatus::Success } else { TransactionStatus::Failure });
        lemma_advance_keeps(m1, h, account, action, signature_ok);
        lemma_progress_kept_transitive(m, m1, spec_advance(m1, h, account, action, signature_ok).0);
        lemma_advance_keeps(m, h, account, action, signature_ok);
    } else {
        let m1 = match action {
            LogicAction::Permit { owner_account, permit_id, .. } => {
                if m.check_of(h) is Running && sent == permit_request(h, owner_account, permit_id) {
                    Some(m.set_check(h, outcome(accepted)))
                } else {
                    spec_record_cont(m, h, sent, accepted)
                }
            },
            _ => spec_record_cont(m, h, sent, accepted),
        };
        lemma_record_keeps(m, h, sent, accepted);
        if let Some(m2) = m1 {
            lemma_advance_keeps(m2, h, account, action, signature_ok);
            lemma_progress_kept_transitive(m, m2, spec_advance(m2, h, account, action, signature_ok).0);
        }
    }
}

/// A new shard joins the directory without moving any bucket that has one.
pub proof fn lemma_shard_creation_keeps_progress(
    m: LogicModel,
    h: Hash256,
    account: ActorId,
    action: LogicAction,
    signature_ok: bool,
    bucket: u32,
    shard: ActorId,
)
    ensures
        progress_kept(m, spec_advance(spec_register(m, bucket, shard), h, account, action, signature_ok).0),
{
    let m1 = spec_register(m, bucket, shard);
    lemma_advance_keeps(m1, h, account, action, signature_ok);
    lemma_progress_kept_transitive(m, m1, spec_advance(m1, h, account, action, signature_ok).0);
}

/// The shard of an account is a function of the account alone once its
/// bucket has a shard: every later state of the coordinator gives the same.
pub proof fn lemma_shard_assignment_is_stable(m1: LogicModel, m2: LogicModel, a: ActorId)
    requires
        progress_kept(m1, m2),
        m1.shard_for(a) is Some,
    ensures
        m2.shard_for(a) == m1.shard_for(a),
{
}

/// A transaction that has finished gets its recorded outcome again, and
/// the coordinator sends nothing and changes nothing.
pub proof fn lemma_finished_transaction_replies_again(
    m: LogicModel,
    h: Hash256,
    account: ActorId,
    action: LogicAction,
    signature_ok: bool,
)
    requires
        m.status_of(h) == Some(TransactionStatus::Success) || m.status_of(h) == Some(TransactionStatus::Failure),
    ensures
        spec_message(m, m.ftoken_id, h, account, action, signature_ok) == (
            m,
            Ok::<Command, Fault>(Command::Reply(
                if m.status_of(h) == Some(TransactionStatus::Success) {
                    FTLogicEvent::Accepted
                } else {
                    FTLogicEvent::Rejected
                },
            )),
        ),
{
}

/// Across shards, a transfer is reported done only when both its decrease
/// and its increase were accepted, and reported refused only when its
/// decrease was refused or compensated.
pub proof fn lemma_split_reply_reflects_steps(m: LogicModel, h: Hash256, c: Continuation)
    requires
        c is Split,
    ensures
        ({
            let cmd = spec_drive(m, h, c).1;
            &&& cmd == Command::Reply(FTLogicEvent::Accepted) ==> c->Split_decrease is Succeeded
                && c->Split_increase is Succeeded
            &&& cmd == Command::Reply(FTLogicEvent::Rejected) ==> c->Split_decrease is Failed
                || c->Split_decrease is Aborted
        }),
{
}

/// A split transfer's steps in an order the protocol can reach: the
/// increase runs only after the decrease succeeded, and a compensation
/// follows only a failed increase.
pub open spec fn split_wf(c: Continuation) -> bool {
    c matches Continuation::Split { decrease, increase, .. } ==> {
        &&& is_pending(decrease) ==> increase is Ready
        &&& decrease is Failed ==> increase is Ready
        &&& decrease is Aborted ==> increase is Failed
        &&& !(increase is Aborted)
    }
}

/// What the applied steps of a split transfer add to the supply: minus the
/// amount for an applied decrease, plus it for an applied increase and for a
/// compensation.
pub open spec fn applied_net(c: Continuation) -> int {
    match c {
        Continuation::Split { amount, decrease, increase, .. } => {
            (if decrease is Succeeded || decrease is Aborted { -amount } else { 0int })
                + (if decrease is Aborted { amount as int } else { 0int })
                + (if increase is Succeeded { amount as int } else { 0int })
        },
        _ => 0,
    }
}

/// Running a split transfer one step keeps its steps in reachable order.
pub proof fn lemma_drive_keeps_order(m: LogicModel, h: Hash256, c: Continuation)
    requires
        split_wf(c),
        m.continuations.contains_key(h.key()) ==> split_wf(m.continuations[h.key()]),
    ensures
        spec_drive(m, h, c).0.continuations.contains_key(h.key()) ==> split_wf(
            spec_drive(m, h, c).0.continuations[h.key()],
        ),
{
}

/// Recording a shard's reply keeps a split transfer's steps in reachable
/// order.
pub proof fn lemma_record_keeps_order(m: LogicModel, h: Hash256, sent: FTStorageAction, accepted: bool)
    requires
        m.continuations.contains_key(h.key()) ==> split_wf(m.continuations[h.key()]),
    ensures
        spec_record_cont(m, h, sent, accepted) matches Some(m2) ==> (
            m2.continuations.contains_key(h.key()) ==> split_wf(m2.continuations[h.key()])),
{
}

/// A split transfer that the coordinator reports finished, done or refused,
/// left the supply where it was: a refused decrease applied nothing, and a
/// compensated one was given back.
pub proof fn lemma_finished_split_nets_zero(m: LogicModel, h: Hash256, c: Continuation)
    requires
        c is Split,
        split_wf(c),
        spec_drive(m, h, c).1 is Reply,
    ensures
        applied_net(c) == 0,
{
}

impl LogicModel {
    /// Every recorded transfer has its steps in an order the protocol can
    /// reach.
    pub open spec fn wf(self) -> bool {
        forall|k: (u128, u128)| #[trigger] self.continuations.contains_key(k) ==> split_wf(self.continuations[k])
    }
}

proof fn lemma_transfer_keeps_wf(m: LogicModel, h: Hash256, msg_source: ActorId, sender: ActorId, recipient: ActorId, amount: u128)
    requires
        m.wf(),
    ensures
        spec_transfer(m, h, msg_source, sender, recipient, amount).0.wf(),
{
    if m.shard_for(sender) is Some && m.shard_for(recipient) is Some {
        let ss = m.shard_for(sender)->0;
        let rs = m.shard_for(recipient)->0;
        let c = if m.continuations.contains_key(h.key()) {
            m.continuations[h.key()]
        } else if ss == rs {
            Continuation::Local { shard: ss, msg_source, sender, recipient, amount, step: StepState::Ready }
        } else {
            Continuation::Split {
                sender_shard: ss, recipient_shard: rs, msg_source, sender, recipient, amount,
                decrease: StepState::Ready, increase: StepState::Ready,
            }
        };
        lemma_drive_keeps_order(m, h, c);
    }
}

proof fn lemma_advance_keeps_wf(m: LogicModel, h: Hash256, account: ActorId, action: LogicAction, signature_ok: bool)
    requires
        m.wf(),
    ensures
        spec_advance(m, h, account, action, signature_ok).0.wf(),
{
    match action {
        LogicAction::Transfer { sender, recipient, amount } => {
            lemma_transfer_keeps_wf(m, h, account, sender, recipient, amount);
        },
        LogicAction::Permit { owner_account, approved_account, amount, .. } => {
            lemma_transfer_keeps_wf(m, h, owner_account, owner_account, approved_account, amount);
        },
        _ => {},
    }
}

/// Every transition of the coordinator keeps its recorded transfers in
/// reachable order.
pub proof fn lemma_transitions_keep_wf(
    m: LogicModel,
    caller: ActorId,
    h: Hash256,
    account: ActorId,
    action: LogicAction,
    signature_ok: bool,
    sent: FTStorageAction,
    accepted: bool,
    bucket: u32,
    shard: ActorId,
)
    requires
        m.wf(),
    ensures
        spec_message(m, caller, h, account, action, signature_ok).0.wf(),
        spec_advance(m, h, account, action, signature_ok).0.wf(),
        spec_on_reply(m, h, account, action, signature_ok, sent, accepted).0.wf(),
        spec_advance(spec_register(m, bucket, shard), h, account, action, signature_ok).0.wf(),
{
    lemma_advance_keeps_wf(m, h, account, action, signature_ok);
    lemma_advance_keeps_wf(m.finish(h, TransactionStatus::InProgress), h, account, action, signature_ok);
    lemma_advance_keeps_wf(spec_register(m, bucket, shard), h, account, action, signature_ok);
    lemma_advance_keeps_wf(m.finish(h, TransactionStatus::Success), h, account, action, signature_ok);
    lemma_advance_keeps_wf(m.finish(h, TransactionStatus::Failure), h, account, action, signature_ok);
    lemma_record_keeps_order(m, h, sent, accepted);
    if let Some(m2) = spec_record_cont(m, h, sent, accepted) {
        assert(m2.wf());
        lemma_advance_keeps_wf(m2, h, account, action, signature_ok);
    }
    match action {
        LogicAction::Permit { owner_account, permit_id, .. } => {
            lemma_advance_keeps_wf(m.set_check(h, outcome(accepted)), h, account, action, signature_ok);
        },
        _ => {},
    }
}

/// What a message from `caller` about transaction `h` does: only the
/// gateway may send one; a first sight records the transaction as in
/// progress.
pub open spec fn spec_message(m: LogicModel, caller: ActorId, h: Hash256, account: ActorId, action: LogicAction, signature_ok: bool) -> (LogicModel, Result<Command, Fault>) {
    if caller != m.ftoken_id {
        (m, Err(Fault::Unauthorized))
    } else {
        let m1 = if m.status_of(h) is None {
            m.finish(h, TransactionStatus::InProgress)
        } else {
            m
        };
        (spec_advance(m1, h, account, action, signature_ok).0, Ok(spec_advance(m1, h, account, action, signature_ok).1))
    }
}

/// Enters a newly created shard in the directory, unless its bucket already
/// has one.
pub open spec fn spec_register(m: LogicModel, bucket: u32, shard: ActorId) -> LogicModel {
    if m.directory.contains_key(bucket) {
        m
    } else {
        LogicModel { directory: m.directory.insert(bucket, shard), ..m }
    }
}

fn pending(s: StepState) -> (r: bool)
    ensures
        r == is_pending(s),
{
    match s {
        StepState::Ready => true,
        StepState::Running => true,
        _ => false,
    }
}

fn outcome_of(accepted: bool) -> (r: StepState)
    ensures
        r == outcome(accepted),
{
    if accepted {
        StepState::Succeeded
    } else {
        StepState::Failed
    }
}

/// The state of the coordinator.
pub struct FTLogic {
    admin: ActorId,
    ftoken_id: ActorId,
    transaction_status: BTreeMap<(u128, u128), TransactionStatus>,
    instructions: BTreeMap<(u128, u128), Continuation>,
    permit_checks: BTreeMap<(u128, u128), StepState>,
    storage_code_hash: Hash256,
    id_to_storage: BTreeMap<u32, ActorId>,
}

impl View for FTLogic {
    type V = LogicModel;

    closed spec fn view(&self) -> LogicModel {
        LogicModel {
            admin: self.admin,
            ftoken_id: self.ftoken_id,
            storage_code_hash: self.storage_code_hash,
            status: self.transaction_status@,
            continuations: self.instructions@,
            permit_checks: self.permit_checks@,
            directory: self.id_to_storage@,
        }
    }
}

impl FTLogic {
    /// A coordinator created by the gateway `ftoken_id`, administered by
    /// `admin`, that creates shards from `storage_code_hash`.
    pub fn new(admin: ActorId, ftoken_id: ActorId, storage_code_hash: Hash256) -> (r: FTLogic)
        ensures
            r@.admin == admin,
            r@.ftoken_id == ftoken_id,
            r@.storage_code_hash == storage_code_hash,
            r@.status == Map::<(u128, u128), TransactionStatus>::empty(),
            r@.continuations == Map::<(u128, u128), Continuation>::empty(),
            r@.permit_checks == Map::<(u128, u128), StepState>::empty(),
            r@.directory == Map::<u32, ActorId>::empty(),
            r@.wf(),
    {
        FTLogic {
            admin,
            ftoken_id,
            transaction_status: BTreeMap::new(),
            instructions: BTreeMap::new(),
            permit_checks: BTreeMap::new(),
            storage_code_hash,
            id_to_storage: BTreeMap::new(),
        }
    }

    pub fn storage_code_hash(&self) -> (r: Hash256)
        ensures
            r == self@.storage_code_hash,
    {
        self.storage_code_hash
    }

    pub fn ftoken_id(&self) -> (r: ActorId)
        ensures
            r == self@.ftoken_id,
    {
        self.ftoken_id
    }

    pub fn admin(&self) -> (r: ActorId)
        ensures
            r == self@.admin,
    {
        self.admin
    }

    /// The shard that holds `account`, if its bucket has one yet.
    pub fn get_storage_address(&self, account: &ActorId) -> (r: Option<ActorId>)
        ensures
            r == self@.shard_for(*account),
    {
        match self.id_to_storage.get(&bucket(account)) {
            Some(s) => Some(*s),
            None => None,
        }
    }

    pub fn transaction_status(&self, h: &Hash256) -> (r: Option<TransactionStatus>)
        ensures
            r == self@.status_of(*h),
    {
        match self.transaction_status.get(&h.key_of()) {
            Some(s) => Some(*s),
            None => None,
        }
    }

    pub fn continuation(&self, h: &Hash256) -> (r: Option<Continuation>)
        ensures
            r == (if self@.continuations.contains_key(h.key()) {
                Some(self@.continuations[h.key()])
            } else {
                None
            }),
    {
        match self.instructions.get(&h.key_of()) {
            Some(c) => Some(*c),
            None => None,
        }
    }

    fn check_of(&self, h: &Hash256) -> (r: StepState)
        ensures
            r == self@.check_of(*h),
    {
        match self.permit_checks.get(&h.key_of()) {
            Some(c) => *c,
            None => StepState::Ready,
        }
    }

    fn finish(&mut self, h: &Hash256, st: TransactionStatus)
        ensures
            final(self)@ == old(self)@.finish(*h, st),
    {
        self.transaction_status.insert(h.key_of(), st);
    }

    fn set_cont(&mut self, h: &Hash256, c: Continuation)
        ensures
            final(self)@ == old(self)@.set_cont(*h, c),
    {
        self.instructions.insert(h.key_of(), c);
    }

    fn set_check(&mut self, h: &Hash256, st: StepState)
        ensures
            final(self)@ == old(self)@.set_check(*h, st),
    {
        self.permit_checks.insert(h.key_of(), st);
    }

    /// Replaces the code that new shards are created from; for the
    /// administrator alone.
    pub fn update_storage_hash(&mut self, caller: &ActorId, storage_code_hash: Hash256) -> (r: Result<(), Fault>)
        ensures
            *caller == old(self)@.admin ==> r is Ok && final(self)@ == (LogicModel { storage_code_hash, ..old(self)@ }),
            *caller != old(self)@.admin ==> r == Err::<(), Fault>(Fault::Unauthorized) && final(self)@ == old(self)@,
    {
        if *caller != self.admin {
            return Err(Fault::Unauthorized);
        }
        self.storage_code_hash = storage_code_hash;
        Ok(())
    }

    fn drive(&mut self, h: &Hash256, c: Continuation) -> (r: Command)
        ensures
            (final(self)@, r) == spec_drive(old(self)@, *h, c),
    {
        match c {
            Continuation::Local { shard, msg_source, sender, recipient, amount, step } => {
                if pending(step) {
                    self.set_cont(h, Continuation::Local { shard, msg_source, sender, recipient, amount, step: StepState::Running });
                    Command::Send {
                        shard,
                        action: FTStorageAction::Transfer { transaction_hash: *h, msg_source, sender, recipient, amount },
                    }
                } else if step == StepState::Succeeded {
                    self.finish(h, TransactionStatus::Success);
                    Command::Reply(FTLogicEvent::Accepted)
                } else {
                    self.finish(h, TransactionStatus::Failure);
                    Command::Reply(FTLogicEvent::Rejected)
                }
            },
            Continuation::Split { sender_shard, recipient_shard, msg_source, sender, recipient, amount, decrease, increase } => {
                if pending(decrease) {
                    self.set_cont(h, Continuation::Split {
                        sender_shard, recipient_shard, msg_source, sender, recipient, amount,
                        decrease: StepState::Running, increase,
                    });
                    Command::Send {
                        shard: sender_shard,
                        action: FTStorageAction::DecreaseBalance { transaction_hash: *h, msg_source, account: sender, amount },
                    }
                } else if decrease == StepState::Succeeded {
                    if pending(increase) {
                        self.set_cont(h, Continuation::Split {
                            sender_shard, recipient_shard, msg_source, sender, recipient, amount,
                            decrease, increase: StepState::Running,
                        });
                        Command::Send {
                            shard: recipient_shard,
                            action: FTStorageAction::IncreaseBalance { transaction_hash: *h, account: recipient, amount },
                        }
                    } else if increase == StepState::Succeeded {
                        self.finish(h, TransactionStatus::Success);
                        Command::Reply(FTLogicEvent::Accepted)
                    } else {
                        Command::Send {
                            shard: sender_shard,
                            action: FTStorageAction::IncreaseBalance { transaction_hash: abort_hash(h), account: sender, amount },
                        }
                    }
                } else {
                    self.finish(h, TransactionStatus::Failure);
                    Command::Reply(FTLogicEvent::Rejected)
                }
            },
        }
    }

    /// The two-shard protocol: resolves both shards, makes the continuation
    /// on first sight and reuses it on a retry, then runs it one step.
    fn transfer(&mut self, h: &Hash256, msg_source: &ActorId, sender: &ActorId, recipient: &ActorId, amount: u128) -> (r: Command)
        ensures
            (final(self)@, r) == spec_transfer(old(self)@, *h, *msg_source, *sender, *recipient, amount),
    {
        let ss = match self.get_storage_address(sender) {
            None => return Command::CreateShard { bucket: bucket(sender) },
            Some(s) => s,
        };
        let rs = match self.get_storage_address(recipient) {
            None => return Command::CreateShard { bucket: bucket(recipient) },
            Some(s) => s,
        };
        let c = match self.continuation(h) {
            Some(c) => c,
            None => if ss == rs {
                Continuation::Local {
                    shard: ss,
                    msg_source: *msg_source,
                    sender: *sender,
                    recipient: *recipient,
                    amount,
                    step: StepState::Ready,
                }
            } else {
                Continuation::Split {
                    sender_shard: ss,
                    recipient_shard: rs,
                    msg_source: *msg_source,
                    sender: *sender,
                    recipient: *recipient,
                    amount,
                    decrease: StepState::Ready,
                    increase: StepState::Ready,
                }
            },
        };
        self.drive(h, c)
    }

    fn single_request(h: &Hash256, account: &ActorId, action: &LogicAction) -> (r: (ActorId, FTStorageAction))
        ensures
            r == single_request(*h, *account, *action),
    {
        match action {
            LogicAction::Mint { recipient, amount } => (
                *recipient,
                FTStorageAction::IncreaseBalance { transaction_hash: *h, account: *recipient, amount: *amount },
            ),
            LogicAction::Burn { sender, amount } => (
                *sender,
                FTStorageAction::DecreaseBalance { transaction_hash: *h, msg_source: *account, account: *sender, amount: *amount },
            ),
            LogicAction::Approve { approved_account, amount } => (
                *account,
                FTStorageAction::Approve { transaction_hash: *h, msg_source: *account, account: *approved_account, amount: *amount },
            ),
            _ => (*account, FTStorageAction::GetBalance(*account)),
        }
    }

    /// The next command for transaction `h`, from what is recorded of it:
    /// the entry point of a first attempt and of every resumption.
    pub fn advance(&mut self, h: &Hash256, account: &ActorId, action: &LogicAction, signature_ok: bool) -> (r: Command)
        ensures
            (final(self)@, r) == spec_advance(old(self)@, *h, *account, *action, signature_ok),
            old(self)@.wf() ==> final(self)@.wf(),
    {
        proof {
            if self@.wf() {
                lemma_advance_keeps_wf(self@, *h, *account, *action, signature_ok);
            }
        }
        let st = self.transaction_status(h);
        if st == Some(TransactionStatus::Success) {
            return Command::Reply(FTLogicEvent::Accepted);
        }
        if st == Some(TransactionStatus::Failure) {
            return Command::Reply(FTLogicEvent::Rejected);
        }
        match action {
            LogicAction::Transfer { sender, recipient, amount } => self.transfer(h, account, sender, recipient, *amount),
            LogicAction::Permit { owner_account, approved_account, amount, permit_id, .. } => {
                if !signature_ok {
                    self.finish(h, TransactionStatus::Failure);
                    return Command::Reply(FTLogicEvent::Rejected);
                }
                let os = match self.get_storage_address(owner_account) {
                    None => return Command::CreateShard { bucket: bucket(owner_account) },
                    Some(s) => s,
                };
                let check = self.check_of(h);
                if pending(check) {
                    self.set_check(h, StepState::Running);
                    Command::Send {
                        shard: os,
                        action: FTStorageAction::IncrementPermitId {
                            transaction_hash: permit_hash(h),
                            account: *owner_account,
                            expected_permit_id: *permit_id,
                        },
                    }
                } else if check == StepState::Succeeded {
                    self.transfer(h, owner_account, owner_account, approved_account, *amount)
                } else {
                    self.finish(h, TransactionStatus::Failure);
                    Command::Reply(FTLogicEvent::Rejected)
                }
            },
            _ => {
                let (who, req) = Self::single_request(h, account, action);
                match self.get_storage_address(&who) {
                    None => Command::CreateShard { bucket: bucket(&who) },
                    Some(s) => Command::Send { shard: s, action: req },
                }
            },
        }
    }

    /// Records a reply in the continuation of `h`; `false` when it refuses a
    /// compensation.
    fn record_cont(&mut self, h: &Hash256, sent: &FTStorageAction, accepted: bool) -> (r: bool)
        ensures
            match spec_record_cont(old(self)@, *h, *sent, accepted) {
                Some(m) => r && final(self)@ == m,
                None => !r && final(self)@ == old(self)@,
            },
    {
        let c = match self.continuation(h) {
            None => return true,
            Some(c) => c,
        };
        match c {
            Continuation::Local { shard, msg_source, sender, recipient, amount, step } => {
                if step == StepState::Running && *sent == (FTStorageAction::Transfer {
                    transaction_hash: *h,
                    msg_source,
                    sender,
                    recipient,
                    amount,
                }) {
                    self.set_cont(h, Continuation::Local { shard, msg_source, sender, recipient, amount, step: outcome_of(accepted) });
                }
                true
            },
            Continuation::Split { sender_shard, recipient_shard, msg_source, sender, recipient, amount, decrease, increase } => {
                if decrease == StepState::Running && *sent == (FTStorageAction::DecreaseBalance {
                    transaction_hash: *h,
                    msg_source,
                    account: sender,
                    amount,
                }) {
                    self.set_cont(h, Continuation::Split {
                        sender_shard, recipient_shard, msg_source, sender, recipient, amount,
                        decrease: outcome_of(accepted), increase,
                    });
                    true
                } else if decrease == StepState::Succeeded && increase == StepState::Running && *sent == (FTStorageAction::IncreaseBalance {
                    transaction_hash: *h,
                    account: recipient,
                    amount,
                }) {
                    self.set_cont(h, Continuation::Split {
                        sender_shard, recipient_shard, msg_source, sender, recipient, amount,
                        decrease, increase: outcome_of(accepted),
                    });
                    true
                } else if decrease == StepState::Succeeded && increase == StepState::Failed && *sent == (FTStorageAction::IncreaseBalance {
                    transaction_hash: abort_hash(h),
                    account: sender,
                    amount,
                }) {
                    if accepted {
                        self.set_cont(h, Continuation::Split {
                            sender_shard, recipient_shard, msg_source, sender, recipient, amount,
                            decrease: StepState::Aborted, increase,
                        });
                        true
                    } else {
                        false
                    }
                } else {
                    true
                }
            },
        }
    }

    /// Takes in a shard's reply to `sent` (`accepted` when it was
    /// `Accepted`), then runs transaction `h` further.
    pub fn on_reply(
        &mut self,
        h: &Hash256,
        account: &ActorId,
        action: &LogicAction,
        signature_ok: bool,
        sent: &FTStorageAction,
        accepted: bool,
    ) -> (r: Command)
        ensures
            (final(self)@, r) == spec_on_reply(old(self)@, *h, *account, *action, signature_ok, *sent, accepted),
            old(self)@.wf() ==> final(self)@.wf(),
    {
        proof {
            if self@.wf() {
                lemma_transitions_keep_wf(self@, *account, *h, *account, *action, signature_ok, *sent, accepted, 0, *account);
            }
        }
        let st = self.transaction_status(h);
        if st.is_some() && st != Some(TransactionStatus::InProgress) {
            return self.advance(h, account, action, signature_ok);
        }
        let single = match action {
            LogicAction::Mint { .. } => true,
            LogicAction::Burn { .. } => true,
            LogicAction::Approve { .. } => true,
            _ => false,
        };
        if single {
            let (_, req) = Self::single_request(h, account, action);
            if *sent == req {
                self.finish(h, if accepted { TransactionStatus::Success } else { TransactionStatus::Failure });
            }
            return self.advance(h, account, action, signature_ok);
        }
        let go_on = match action {
            LogicAction::Permit { owner_account, permit_id, .. } => {
                if self.check_of(h) == StepState::Running && *sent == (FTStorageAction::IncrementPermitId {
                    transaction_hash: permit_hash(h),
                    account: *owner_account,
                    expected_permit_id: *permit_id,
                }) {
                    self.set_check(h, outcome_of(accepted));
                    true
                } else {
                    self.record_cont(h, sent, accepted)
                }
            },
            _ => self.record_cont(h, sent, accepted),
        };
        if go_on {
            self.advance(h, account, action, signature_ok)
        } else {
            Command::Halt
        }
    }

    /// A message from `caller` about transaction `h`, on behalf of `account`.
    /// `signature_ok` says whether a permit's signature verifies; other
    /// actions ignore it.
    pub fn message(
        &mut self,
        caller: &ActorId,
        h: &Hash256,
        account: &ActorId,
        action: &LogicAction,
        signature_ok: bool,
    ) -> (r: Result<Command, Fault>)
        ensures
            (final(self)@, r) == spec_message(old(self)@, *caller, *h, *account, *action, signature_ok),
            old(self)@.wf() ==> final(self)@.wf(),
    {
        proof {
            if self@.wf() {
                lemma_transitions_keep_wf(self@, *caller, *h, *account, *action, signature_ok, FTStorageAction::GetBalance(*account), true, 0, *account);
            }
        }
        if *caller != self.ftoken_id {
            return Err(Fault::Unauthorized);
        }
        if self.transaction_status(h).is_none() {
            self.finish(h, TransactionStatus::InProgress);
        }
        Ok(self.advance(h, account, action, signature_ok))
    }

    /// Enters the shard created for `bucket` in the directory, unless the
    /// bucket has one already, then runs transaction `h` further.
    pub fn on_shard_created(
        &mut self,
        h: &Hash256,
        account: &ActorId,
        action: &LogicAction,
        signature_ok: bool,
        bucket: u32,
        shard: &ActorId,
    ) -> (r: Command)
        ensures
            (final(self)@, r) == spec_advance(spec_register(old(self)@, bucket, *shard), *h, *account, *action, signature_ok),
            old(self)@.wf() ==> final(self)@.wf(),
    {
        proof {
            if self@.wf() {
                lemma_transitions_keep_wf(self@, *account, *h, *account, *action, signature_ok, FTStorageAction::GetBalance(*account), true, bucket, *shard);
            }
        }
        if self.id_to_storage.get(&bucket).is_none() {
            self.id_to_storage.insert(bucket, *shard);
        }
        self.advance(h, account, action, signature_ok)
    }
}

} // verus!
