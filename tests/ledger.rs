use sharded_ft::gateway::{FToken, GatewayCommand};
use sharded_ft::ids::{abort_hash, bucket_key, get_hash, ActorId, Hash256};
use sharded_ft::logic::{Command, Continuation, FTLogic, StepState};
use sharded_ft::storage::FTStorage;
use sharded_ft::wire::{
    FTLogicEvent, FTStorageAction, FTStorageEvent, FTokenEvent, Fault, LogicAction,
    TransactionStatus,
};

fn account(first: u8) -> ActorId {
    let mut b = [0u8; 32];
    b[0] = first;
    ActorId::from_bytes(&b)
}

/// A synchronous runtime for the three tiers: every message is delivered at
/// once, shards are created on demand with fresh addresses.
struct Net {
    gateway: FToken,
    gateway_id: ActorId,
    logic: FTLogic,
    logic_id: ActorId,
    shards: Vec<(ActorId, FTStorage)>,
    /// Increases that a shard refuses: (shard, transaction hash).
    refuse_increase: Vec<(ActorId, Hash256)>,
}

impl Net {
    fn new() -> Net {
        let admin = ActorId::new(0xad, 0);
        let gateway_id = ActorId::new(0x9a, 1);
        let logic_id = ActorId::new(0x10, 2);
        Net {
            gateway: FToken::new(admin, logic_id),
            gateway_id,
            logic: FTLogic::new(admin, gateway_id, Hash256::new(5, 5)),
            logic_id,
            shards: Vec::new(),
            refuse_increase: Vec::new(),
        }
    }

    fn shard(&self, id: &ActorId) -> &FTStorage {
        &self.shards.iter().find(|(a, _)| a == id).unwrap().1
    }

    fn shard_of(&self, a: &ActorId) -> &FTStorage {
        let id = self.logic.get_storage_address(a).unwrap();
        self.shard(&id)
    }

    fn balance(&self, a: &ActorId) -> u128 {
        self.shard_of(a).get_balance(a)
    }

    fn deliver(&mut self, shard: ActorId, action: FTStorageAction) -> FTStorageEvent {
        if let FTStorageAction::IncreaseBalance { transaction_hash, .. } = action {
            if self.refuse_increase.contains(&(shard, transaction_hash)) {
                return FTStorageEvent::Rejected;
            }
        }
        let logic_id = self.logic_id;
        let st = &mut self.shards.iter_mut().find(|(a, _)| *a == shard).unwrap().1;
        st.handle(&logic_id, &action).unwrap()
    }

    fn run_logic(
        &mut self,
        h: &Hash256,
        caller: &ActorId,
        action: &LogicAction,
        signature_ok: bool,
    ) -> Option<FTLogicEvent> {
        let mut cmd = self
            .logic
            .message(&self.gateway_id, h, caller, action, signature_ok)
            .unwrap();
        loop {
            match cmd {
                Command::Reply(e) => return Some(e),
                Command::Halt => return None,
                Command::CreateShard { bucket } => {
                    let id = ActorId::new(0x5000 + self.shards.len() as u128, bucket as u128);
                    self.shards.push((id, FTStorage::new(self.logic_id)));
                    cmd = self
                        .logic
                        .on_shard_created(h, caller, action, signature_ok, bucket, &id);
                }
                Command::Send { shard, action: sent } => {
                    let ev = self.deliver(shard, sent);
                    cmd = self.logic.on_reply(
                        h,
                        caller,
                        action,
                        signature_ok,
                        &sent,
                        ev == FTStorageEvent::Accepted,
                    );
                }
            }
        }
    }

    fn try_submit(
        &mut self,
        caller: &ActorId,
        transaction_id: u64,
        action: LogicAction,
        signature_ok: bool,
    ) -> Option<FTokenEvent> {
        match self.gateway.message(caller, transaction_id) {
            GatewayCommand::Reply(e) => Some(e),
            GatewayCommand::Forward { transaction_hash, .. } => {
                let reply = self.run_logic(&transaction_hash, caller, &action, signature_ok);
                self.gateway.on_logic_reply(&transaction_hash, reply)
            }
        }
    }

    fn submit_signed(
        &mut self,
        caller: &ActorId,
        transaction_id: u64,
        action: LogicAction,
        signature_ok: bool,
    ) -> FTokenEvent {
        self.try_submit(caller, transaction_id, action, signature_ok).expect("no reply")
    }

    fn submit(&mut self, caller: &ActorId, transaction_id: u64, action: LogicAction) -> FTokenEvent {
        self.submit_signed(caller, transaction_id, action, true)
    }
}

#[test]
fn simple_mint() {
    let mut net = Net::new();
    let user = account(0x01);
    let ev = net.submit(&user, 0, LogicAction::Mint { recipient: user, amount: 10_000 });
    assert_eq!(ev, FTokenEvent::Accepted);
    assert_eq!(net.balance(&user), 10_000);
    let h = get_hash(&user, 0);
    assert_eq!(net.shard_of(&user).transaction_status(&h), Some(true));
    assert_eq!(net.gateway.transaction_status(&h), Some(TransactionStatus::Success));
}

#[test]
fn replay_mint() {
    let mut net = Net::new();
    let user = account(0x01);
    net.submit(&user, 0, LogicAction::Mint { recipient: user, amount: 10_000 });
    // The gateway answers a finished transaction itself.
    assert_eq!(net.gateway.message(&user, 0), GatewayCommand::Reply(FTokenEvent::Accepted));
    let ev = net.submit(&user, 0, LogicAction::Mint { recipient: user, amount: 10_000 });
    assert_eq!(ev, FTokenEvent::Accepted);
    assert_eq!(net.balance(&user), 10_000);
}

fn funded(sender: &ActorId, recipient: &ActorId, amount: u128) -> Net {
    let mut net = Net::new();
    let minter = account(0x77);
    assert_eq!(
        net.submit(&minter, 1, LogicAction::Mint { recipient: *sender, amount }),
        FTokenEvent::Accepted
    );
    assert_eq!(
        net.submit(&minter, 2, LogicAction::Mint { recipient: *recipient, amount: 0 }),
        FTokenEvent::Accepted
    );
    net
}

#[test]
fn cross_shard_transfer() {
    let a = account(0x0a);
    let b = account(0xb0);
    let mut net = funded(&a, &b, 1_000);
    assert_ne!(net.logic.get_storage_address(&a), net.logic.get_storage_address(&b));
    let ev = net.submit(&a, 7, LogicAction::Transfer { sender: a, recipient: b, amount: 400 });
    assert_eq!(ev, FTokenEvent::Accepted);
    assert_eq!(net.balance(&a), 600);
    assert_eq!(net.balance(&b), 400);
    let h = get_hash(&a, 7);
    assert_eq!(net.shard_of(&a).transaction_status(&h), Some(true));
    assert_eq!(net.shard_of(&b).transaction_status(&h), Some(true));
    match net.logic.continuation(&h) {
        Some(Continuation::Split { decrease, increase, .. }) => {
            assert_eq!(decrease, StepState::Succeeded);
            assert_eq!(increase, StepState::Succeeded);
        }
        other => panic!("unexpected continuation {:?}", other),
    }
}

#[test]
fn insufficient_funds() {
    let a = account(0x0a);
    let b = account(0xb0);
    let mut net = funded(&a, &b, 100);
    let ev = net.submit(&a, 8, LogicAction::Transfer { sender: a, recipient: b, amount: 500 });
    assert_eq!(ev, FTokenEvent::Rejected);
    assert_eq!(net.balance(&a), 100);
    assert_eq!(net.balance(&b), 0);
    let h = get_hash(&a, 8);
    assert_eq!(net.logic.transaction_status(&h), Some(TransactionStatus::Failure));
    assert_eq!(net.shard_of(&a).transaction_status(&h), Some(false));
}

#[test]
fn compensation_restores_sender() {
    let a = account(0x0a);
    let b = account(0xb0);
    let mut net = funded(&a, &b, 1_000);
    let h = get_hash(&a, 7);
    let b_shard = net.logic.get_storage_address(&b).unwrap();
    net.refuse_increase.push((b_shard, h));
    let ev = net.submit(&a, 7, LogicAction::Transfer { sender: a, recipient: b, amount: 400 });
    assert_eq!(ev, FTokenEvent::Rejected);
    assert_eq!(net.balance(&a), 1_000);
    assert_eq!(net.balance(&b), 0);
    let ah = abort_hash(&h);
    assert_ne!(ah, h);
    assert_eq!(net.shard_of(&a).transaction_status(&h), Some(true));
    assert_eq!(net.shard_of(&a).transaction_status(&ah), Some(true));
    match net.logic.continuation(&h) {
        Some(Continuation::Split { decrease, increase, .. }) => {
            assert_eq!(decrease, StepState::Aborted);
            assert_eq!(increase, StepState::Failed);
        }
        other => panic!("unexpected continuation {:?}", other),
    }
}

fn with_nonce(net: &mut Net, owner: &ActorId, n: u128) {
    // Consume nonces 0..n with valid permits of amount zero.
    let spender = account(0x0c);
    for i in 0..n {
        let ev = net.submit(
            owner,
            1000 + i as u64,
            LogicAction::Permit {
                owner_account: *owner,
                approved_account: spender,
                amount: 0,
                permit_id: i,
                sign: [0u8; 64],
            },
        );
        assert_eq!(ev, FTokenEvent::Accepted);
    }
}

#[test]
fn permit_consumes_nonce_and_moves_funds() {
    let owner = account(0x0a);
    let spender = account(0xb0);
    let mut net = funded(&owner, &spender, 1_000);
    with_nonce(&mut net, &owner, 5);
    assert_eq!(net.shard_of(&owner).get_permit_id(&owner), 5);
    let permit = LogicAction::Permit {
        owner_account: owner,
        approved_account: spender,
        amount: 50,
        permit_id: 5,
        sign: [7u8; 64],
    };
    assert_eq!(net.submit(&spender, 40, permit), FTokenEvent::Accepted);
    assert_eq!(net.shard_of(&owner).get_permit_id(&owner), 6);
    assert_eq!(net.balance(&owner), 950);
    assert_eq!(net.balance(&spender), 50);
    // The same permit again is refused and changes nothing.
    assert_eq!(net.submit(&spender, 41, permit), FTokenEvent::Rejected);
    assert_eq!(net.shard_of(&owner).get_permit_id(&owner), 6);
    assert_eq!(net.balance(&owner), 950);
    assert_eq!(net.balance(&spender), 50);
}

#[test]
fn permit_with_bad_signature_is_refused() {
    let owner = account(0x0a);
    let spender = account(0xb0);
    let mut net = funded(&owner, &spender, 1_000);
    let permit = LogicAction::Permit {
        owner_account: owner,
        approved_account: spender,
        amount: 50,
        permit_id: 0,
        sign: [0u8; 64],
    };
    assert_eq!(net.submit_signed(&spender, 3, permit, false), FTokenEvent::Rejected);
    assert_eq!(net.shard_of(&owner).get_permit_id(&owner), 0);
    assert_eq!(net.balance(&owner), 1_000);
}

#[test]
fn same_shard_transfer_and_self_transfer() {
    let a = account(0x0a);
    let c = account(0x0c);
    let mut net = funded(&a, &c, 300);
    assert_eq!(net.logic.get_storage_address(&a), net.logic.get_storage_address(&c));
    assert_eq!(
        net.submit(&a, 9, LogicAction::Transfer { sender: a, recipient: c, amount: 100 }),
        FTokenEvent::Accepted
    );
    assert_eq!(net.balance(&a), 200);
    assert_eq!(net.balance(&c), 100);
    // To oneself: nothing moves, but the funds check still applies.
    assert_eq!(
        net.submit(&a, 10, LogicAction::Transfer { sender: a, recipient: a, amount: 200 }),
        FTokenEvent::Accepted
    );
    assert_eq!(net.balance(&a), 200);
    assert_eq!(
        net.submit(&a, 11, LogicAction::Transfer { sender: a, recipient: a, amount: 201 }),
        FTokenEvent::Rejected
    );
    assert_eq!(net.balance(&a), 200);
}

#[test]
fn approve_then_spend_and_burn() {
    let owner = account(0x0a);
    let spender = account(0xb0);
    let mut net = funded(&owner, &spender, 1_000);
    assert_eq!(
        net.submit(&owner, 20, LogicAction::Approve { approved_account: spender, amount: 300 }),
        FTokenEvent::Accepted
    );
    assert_eq!(net.shard_of(&owner).get_allowance(&owner, &spender), 300);
    // The spender moves the owner's funds within the allowance.
    assert_eq!(
        net.submit(&spender, 21, LogicAction::Transfer { sender: owner, recipient: spender, amount: 200 }),
        FTokenEvent::Accepted
    );
    assert_eq!(net.balance(&owner), 800);
    assert_eq!(net.balance(&spender), 200);
    assert_eq!(net.shard_of(&owner).get_allowance(&owner, &spender), 100);
    // Beyond it, nothing moves.
    assert_eq!(
        net.submit(&spender, 22, LogicAction::Transfer { sender: owner, recipient: spender, amount: 101 }),
        FTokenEvent::Rejected
    );
    assert_eq!(net.balance(&owner), 800);
    // Burning takes from the owner's balance alone.
    assert_eq!(net.submit(&owner, 23, LogicAction::Burn { sender: owner, amount: 300 }), FTokenEvent::Accepted);
    assert_eq!(net.balance(&owner), 500);
    assert_eq!(net.submit(&owner, 24, LogicAction::Burn { sender: owner, amount: 501 }), FTokenEvent::Rejected);
    assert_eq!(net.balance(&owner), 500);
}

#[test]
fn interrupted_transfer_resumes() {
    let a = account(0x0a);
    let b = account(0xb0);
    let mut net = funded(&a, &b, 1_000);
    let action = LogicAction::Transfer { sender: a, recipient: b, amount: 250 };
    let h = match net.gateway.message(&a, 30) {
        GatewayCommand::Forward { transaction_hash, schedule_clear } => {
            assert!(schedule_clear);
            transaction_hash
        }
        other => panic!("unexpected command {:?}", other),
    };
    // The decrease is applied, but its reply never comes back.
    let gateway_id = net.gateway_id;
    let first = net.logic.message(&gateway_id, &h, &a, &action, true).unwrap();
    let (shard, sent) = match first {
        Command::Send { shard, action } => (shard, action),
        other => panic!("unexpected command {:?}", other),
    };
    assert_eq!(net.deliver(shard, sent), FTStorageEvent::Accepted);
    assert_eq!(net.balance(&a), 750);
    // The retry is forwarded again without a second clear, resends the same
    // decrease (which the shard replays), and completes.
    assert_eq!(
        net.gateway.message(&a, 30),
        GatewayCommand::Forward { transaction_hash: h, schedule_clear: false }
    );
    let again = net.logic.message(&gateway_id, &h, &a, &action, true).unwrap();
    assert_eq!(again, first);
    let reply = net.run_logic(&h, &a, &action, true);
    assert_eq!(reply, Some(FTLogicEvent::Accepted));
    assert_eq!(net.gateway.on_logic_reply(&h, reply), Some(FTokenEvent::Accepted));
    assert_eq!(net.balance(&a), 750);
    assert_eq!(net.balance(&b), 250);
}

#[test]
fn shard_assignment_is_stable() {
    let a = account(0x0a);
    let d = account(0x0d);
    let mut net = Net::new();
    net.submit(&a, 1, LogicAction::Mint { recipient: a, amount: 1 });
    let first = net.logic.get_storage_address(&a).unwrap();
    net.submit(&d, 2, LogicAction::Mint { recipient: d, amount: 1 });
    net.submit(&a, 3, LogicAction::Mint { recipient: account(0xf1), amount: 1 });
    assert_eq!(net.logic.get_storage_address(&a), Some(first));
    assert_eq!(net.logic.get_storage_address(&d), Some(first));
    assert_eq!(net.shards.len(), 2);
}

#[test]
fn increase_saturates() {
    let logic = ActorId::new(1, 1);
    let mut s = FTStorage::new(logic);
    let a = account(0x42);
    assert_eq!(s.increase_balance(&Hash256::new(0, 1), &a, u128::MAX - 5), FTStorageEvent::Accepted);
    assert_eq!(s.increase_balance(&Hash256::new(0, 2), &a, 10), FTStorageEvent::Accepted);
    assert_eq!(s.get_balance(&a), u128::MAX);
}

#[test]
fn shard_replays_recorded_outcomes() {
    let logic = ActorId::new(1, 1);
    let mut s = FTStorage::new(logic);
    let a = account(0x42);
    let h = Hash256::new(9, 9);
    assert_eq!(s.increase_balance(&h, &a, 10), FTStorageEvent::Accepted);
    assert_eq!(s.increase_balance(&h, &a, 10), FTStorageEvent::Accepted);
    assert_eq!(s.get_balance(&a), 10);
    let h2 = Hash256::new(9, 10);
    assert_eq!(s.decrease_balance(&h2, &a, &a, 11), FTStorageEvent::Rejected);
    // Enough funds now, but the hash already failed.
    s.increase_balance(&Hash256::new(9, 11), &a, 5);
    assert_eq!(s.decrease_balance(&h2, &a, &a, 11), FTStorageEvent::Rejected);
    assert_eq!(s.get_balance(&a), 15);
}

#[test]
fn nonce_advances_by_one() {
    let logic = ActorId::new(1, 1);
    let mut s = FTStorage::new(logic);
    let a = account(0x42);
    assert_eq!(s.increment_permit_id(&Hash256::new(1, 0), &a, 1), FTStorageEvent::Rejected);
    assert_eq!(s.get_permit_id(&a), 0);
    assert_eq!(s.increment_permit_id(&Hash256::new(1, 1), &a, 0), FTStorageEvent::Accepted);
    assert_eq!(s.get_permit_id(&a), 1);
    assert_eq!(s.increment_permit_id(&Hash256::new(1, 1), &a, 0), FTStorageEvent::Accepted);
    assert_eq!(s.get_permit_id(&a), 1);
    assert_eq!(s.increment_permit_id(&Hash256::new(1, 2), &a, 1), FTStorageEvent::Accepted);
    assert_eq!(s.get_permit_id(&a), 2);
}

#[test]
fn shard_rejects_strangers() {
    let logic = ActorId::new(1, 1);
    let mut s = FTStorage::new(logic);
    let a = account(0x42);
    let stranger = ActorId::new(2, 2);
    let inc = FTStorageAction::IncreaseBalance { transaction_hash: Hash256::new(3, 3), account: a, amount: 5 };
    assert_eq!(s.handle(&stranger, &inc), Err(Fault::Unauthorized));
    assert_eq!(s.get_balance(&a), 0);
    assert_eq!(s.transaction_status(&Hash256::new(3, 3)), None);
    assert_eq!(s.handle(&stranger, &FTStorageAction::GetBalance(a)), Ok(FTStorageEvent::Balance(0)));
    assert_eq!(s.handle(&logic, &inc), Ok(FTStorageEvent::Accepted));
    assert_eq!(s.handle(&stranger, &FTStorageAction::GetBalance(a)), Ok(FTStorageEvent::Balance(5)));
}

#[test]
fn coordinator_rejects_strangers() {
    let admin = ActorId::new(7, 7);
    let gateway = ActorId::new(8, 8);
    let mut logic = FTLogic::new(admin, gateway, Hash256::new(1, 2));
    let a = account(0x0a);
    let r = logic.message(&a, &Hash256::new(4, 4), &a, &LogicAction::Mint { recipient: a, amount: 1 }, true);
    assert_eq!(r, Err(Fault::Unauthorized));
    assert_eq!(logic.transaction_status(&Hash256::new(4, 4)), None);
    assert_eq!(logic.update_storage_hash(&gateway, Hash256::new(9, 9)), Err(Fault::Unauthorized));
    assert_eq!(logic.storage_code_hash(), Hash256::new(1, 2));
    assert_eq!(logic.update_storage_hash(&admin, Hash256::new(9, 9)), Ok(()));
    assert_eq!(logic.storage_code_hash(), Hash256::new(9, 9));
}

#[test]
fn gateway_clear_only_from_itself() {
    let admin = ActorId::new(7, 7);
    let me = ActorId::new(3, 3);
    let mut g = FToken::new(admin, ActorId::new(4, 4));
    let user = account(0x01);
    let h = get_hash(&user, 5);
    g.message(&user, 5);
    assert_eq!(g.transaction_status(&h), Some(TransactionStatus::InProgress));
    g.clear(&user, &me, &h);
    assert_eq!(g.transaction_status(&h), Some(TransactionStatus::InProgress));
    g.clear(&me, &me, &h);
    assert_eq!(g.transaction_status(&h), None);
    assert_eq!(g.update_logic_contract(&user, &ActorId::new(5, 5)), Err(Fault::Unauthorized));
    assert_eq!(g.ft_logic_id(), ActorId::new(4, 4));
    assert_eq!(g.update_logic_contract(&admin, &ActorId::new(5, 5)), Ok(()));
    assert_eq!(g.ft_logic_id(), ActorId::new(5, 5));
}

#[test]
fn transaction_hash_is_blake2_of_caller_and_id() {
    let h = get_hash(&account(0x01), 0);
    assert_eq!(
        h,
        Hash256::new(0x02ab4d74c86ec3b3997a4fadf33e55e8, 0x279650c8539ea67e053c02dc2cfdf334)
    );
    assert_eq!(
        abort_hash(&h),
        Hash256::new(0x16ea8d1f79e2580bbb80ba2bbc0b2daf, 0x46dd1af1920b5833732f438cf4090e26)
    );
    assert_ne!(get_hash(&account(0x01), 1), h);
    assert_ne!(get_hash(&account(0x02), 0), h);
}

#[test]
fn bucket_is_first_hex_digit() {
    assert_eq!(bucket_key(&account(0x01)), '0');
    assert_eq!(bucket_key(&account(0x0a)), '0');
    assert_eq!(bucket_key(&account(0xb0)), 'b');
    assert_eq!(bucket_key(&account(0xff)), 'f');
    assert_eq!(bucket_key(&account(0x9c)), '9');
}

#[test]
fn address_bytes_round_trip() {
    let mut b = [0u8; 32];
    for (i, x) in b.iter_mut().enumerate() {
        *x = (i as u8).wrapping_mul(37).wrapping_add(11);
    }
    let a = ActorId::from_bytes(&b);
    assert_eq!(a.to_bytes(), b.to_vec());
    assert_eq!(a.hi >> 120, 11);
    assert_eq!(Hash256::from_bytes(&b).to_bytes(), b.to_vec());
}

#[test]
fn refused_compensation_resumes_on_retry() {
    let a = account(0x0a);
    let b = account(0xb0);
    let mut net = funded(&a, &b, 1_000);
    let h = get_hash(&a, 7);
    let a_shard = net.logic.get_storage_address(&a).unwrap();
    let b_shard = net.logic.get_storage_address(&b).unwrap();
    net.refuse_increase.push((b_shard, h));
    net.refuse_increase.push((a_shard, abort_hash(&h)));
    let action = LogicAction::Transfer { sender: a, recipient: b, amount: 400 };
    // The compensation is refused: no answer, and the transaction stays open.
    assert_eq!(net.try_submit(&a, 7, action, true), None);
    assert_eq!(net.gateway.transaction_status(&h), Some(TransactionStatus::InProgress));
    assert_eq!(net.logic.transaction_status(&h), Some(TransactionStatus::InProgress));
    assert_eq!(net.balance(&a), 600);
    // Once the sender's shard takes the compensation, the retry ends it.
    net.refuse_increase.retain(|(s, _)| *s != a_shard);
    assert_eq!(net.submit(&a, 7, action), FTokenEvent::Rejected);
    assert_eq!(net.balance(&a), 1_000);
    assert_eq!(net.balance(&b), 0);
    assert_eq!(net.gateway.transaction_status(&h), Some(TransactionStatus::Failure));
}

#[test]
fn permit_within_one_shard() {
    let owner = account(0x0a);
    let spender = account(0x0c);
    let mut net = funded(&owner, &spender, 500);
    assert_eq!(net.logic.get_storage_address(&owner), net.logic.get_storage_address(&spender));
    let permit = LogicAction::Permit {
        owner_account: owner,
        approved_account: spender,
        amount: 120,
        permit_id: 0,
        sign: [1u8; 64],
    };
    assert_eq!(net.submit(&spender, 50, permit), FTokenEvent::Accepted);
    assert_eq!(net.shard_of(&owner).get_permit_id(&owner), 1);
    assert_eq!(net.balance(&owner), 380);
    assert_eq!(net.balance(&spender), 120);
    assert_eq!(net.submit(&spender, 51, permit), FTokenEvent::Rejected);
    assert_eq!(net.balance(&owner), 380);
}

#[test]
fn supply_is_minted_minus_burned() {
    let a = account(0x0a);
    let b = account(0xb0);
    let c = account(0x3c);
    let everyone = [a, b, c];
    let mut net = Net::new();
    let minter = account(0x77);
    net.submit(&minter, 1, LogicAction::Mint { recipient: a, amount: 700 });
    net.submit(&minter, 2, LogicAction::Mint { recipient: b, amount: 300 });
    net.submit(&minter, 3, LogicAction::Mint { recipient: c, amount: 0 });
    net.submit(&a, 4, LogicAction::Transfer { sender: a, recipient: b, amount: 250 });
    net.submit(&b, 5, LogicAction::Transfer { sender: b, recipient: c, amount: 10_000 });
    let h = get_hash(&b, 6);
    let c_shard = net.logic.get_storage_address(&c).unwrap();
    net.refuse_increase.push((c_shard, h));
    assert_eq!(
        net.submit(&b, 6, LogicAction::Transfer { sender: b, recipient: c, amount: 100 }),
        FTokenEvent::Rejected
    );
    net.submit(&b, 7, LogicAction::Transfer { sender: b, recipient: c, amount: 50 });
    net.submit(&a, 8, LogicAction::Burn { sender: a, amount: 200 });
    let total: u128 = everyone.iter().map(|x| net.balance(x)).sum();
    assert_eq!(total, 700 + 300 - 200);
    assert_eq!(net.balance(&a), 250);
    assert_eq!(net.balance(&b), 500);
    assert_eq!(net.balance(&c), 50);
}

/// The address that the runtime derives from a small number: its
/// little-endian bytes first, zeros after.
fn actor_from_u64(v: u64) -> ActorId {
    let mut b = [0u8; 32];
    b[..8].copy_from_slice(&v.to_le_bytes());
    ActorId::from_bytes(&b)
}

const ACCOUNTS_AMOUNT: u64 = 1_000;

#[test]
fn high_load_mint() {
    let mut net = Net::new();
    let mut transaction_id: u64 = 100;
    let amount: u128 = 100_000;
    while transaction_id < ACCOUNTS_AMOUNT {
        // Mint tokens to account and check it
        let from = actor_from_u64(transaction_id);
        let account = actor_from_u64(transaction_id);
        let ev = net.submit(&from, transaction_id, LogicAction::Mint { recipient: account, amount });
        assert_eq!(ev, FTokenEvent::Accepted);
        assert_eq!(net.balance(&account), amount);
        transaction_id += 1;
    }
    assert_eq!(net.shards.len(), 16);
}
