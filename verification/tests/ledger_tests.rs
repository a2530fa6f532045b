use icrc7::account::{account_transformer, burn_subaccount, principal_to_subaccount, Account};
use icrc7::archive::InitArchiveArg;
use icrc7::archive::IndexType;
use icrc7::errors::LedgerError;
use icrc7::hashing::hash_icrc_value;
use icrc7::ledger::{
    ApprovalInfo, ApproveCollectionArg, ApproveTokenArg, BurnArg, InitArg, LedgerState, MintArg,
    RevokeTokenApprovalArg, TransferArg, TransferFromArg,
};
use icrc7::value::Value;

fn principal(tag: u8) -> Vec<u8> {
    vec![tag, 1, 2, 3]
}

fn account_of(tag: u8) -> Account {
    Account { owner: principal(tag), subaccount: None }
}

fn base_init() -> InitArg {
    InitArg {
        minting_account: Some(account_of(1)),
        icrc7_symbol: "NFT".to_owned(),
        icrc7_name: "test ledger".to_owned(),
        icrc7_description: None,
        icrc7_logo: None,
        icrc7_supply_cap: None,
        icrc7_max_query_batch_size: None,
        icrc7_max_update_batch_size: None,
        icrc7_max_take_value: None,
        icrc7_default_take_value: None,
        icrc7_max_memo_size: None,
        icrc7_atomic_batch_transfers: None,
        tx_window: Some(1_000),
        permitted_drift: Some(10),
        approval_init: None,
        archive_init: None,
    }
}

fn new_ledger() -> LedgerState {
    LedgerState::init(base_init(), &principal(1))
}

fn mint_one(l: &mut LedgerState, to: Account, token_id: u128, now: u64) -> u128 {
    let args = vec![MintArg {
        from_subaccount: None,
        to,
        token_id,
        memo: None,
        token_metadata: Vec::new(),
    }];
    let r = l.mint(&principal(1), &args, now);
    assert_eq!(r.len(), 1);
    match &r[0] {
        Some(Ok(tid)) => *tid,
        other => panic!("mint failed: {:?}", other.is_some()),
    }
}

#[test]
fn mint_assigns_owner_and_balance() {
    let mut l = new_ledger();
    let tid = mint_one(&mut l, account_of(2), 1, 100);
    assert_eq!(tid, 0);
    assert_eq!(l.icrc7_total_supply(), 1);
    let owners = l.icrc7_owner_of(&vec![1u128]);
    let owner = owners[0].as_ref().expect("token must exist");
    assert!(owner.same(&account_transformer(account_of(2))));
    let balances = l.icrc7_balance_of(&vec![account_of(2)]);
    assert_eq!(balances[0], 1);
}

#[test]
fn mint_requires_minting_authority() {
    let mut l = new_ledger();
    let args = vec![MintArg {
        from_subaccount: None,
        to: account_of(2),
        token_id: 1,
        memo: None,
        token_metadata: Vec::new(),
    }];
    let r = l.mint(&principal(9), &args, 100);
    assert_eq!(r[0], Some(Err(LedgerError::NotAuthorized)));
}

#[test]
fn mint_rejects_live_duplicate_id() {
    let mut l = new_ledger();
    mint_one(&mut l, account_of(2), 1, 100);
    let args = vec![MintArg {
        from_subaccount: None,
        to: account_of(3),
        token_id: 1,
        memo: None,
        token_metadata: Vec::new(),
    }];
    let r = l.mint(&principal(1), &args, 101);
    assert_eq!(r[0], Some(Err(LedgerError::DuplicateId)));
}

#[test]
fn burned_id_is_never_minted_again() {
    let mut l = new_ledger();
    mint_one(&mut l, account_of(2), 5, 100);
    let burn_args = vec![BurnArg { from_subaccount: None, token_id: 5, memo: None }];
    let r = l.burn(&principal(2), &burn_args, 101);
    assert!(matches!(r[0], Some(Ok(_))));
    assert_eq!(l.icrc7_total_supply(), 0);
    let args = vec![MintArg {
        from_subaccount: None,
        to: account_of(2),
        token_id: 5,
        memo: None,
        token_metadata: Vec::new(),
    }];
    let again = l.mint(&principal(1), &args, 102);
    assert_eq!(again[0], Some(Err(LedgerError::DuplicateId)));
}

#[test]
fn mint_respects_supply_cap() {
    let mut init = base_init();
    init.icrc7_supply_cap = Some(1);
    let mut l = LedgerState::init(init, &principal(1));
    mint_one(&mut l, account_of(2), 1, 100);
    let args = vec![MintArg {
        from_subaccount: None,
        to: account_of(2),
        token_id: 2,
        memo: None,
        token_metadata: Vec::new(),
    }];
    let r = l.mint(&principal(1), &args, 101);
    assert_eq!(r[0], Some(Err(LedgerError::SupplyCapExceeded)));
}

#[test]
fn duplicate_mint_ids_in_one_batch_get_no_slot_result() {
    let mut l = new_ledger();
    let args = vec![
        MintArg {
            from_subaccount: None,
            to: account_of(2),
            token_id: 7,
            memo: None,
            token_metadata: Vec::new(),
        },
        MintArg {
            from_subaccount: None,
            to: account_of(3),
            token_id: 7,
            memo: None,
            token_metadata: Vec::new(),
        },
    ];
    let r = l.mint(&principal(1), &args, 100);
    assert!(matches!(r[0], Some(Ok(_))));
    assert!(r[1].is_none());
}

#[test]
fn transfer_moves_ownership_and_clears_approvals() {
    let mut l = new_ledger();
    mint_one(&mut l, account_of(2), 1, 100);
    let approve = vec![ApproveTokenArg {
        token_id: 1,
        approval_info: ApprovalInfo::new(None, account_of(4), None, None, Some(100)),
    }];
    let ra = l.approve(&principal(2), &approve, 100);
    assert!(matches!(ra[0], Some(Ok(_))));
    let args = vec![TransferArg {
        from_subaccount: None,
        to: account_of(3),
        token_id: 1,
        memo: None,
        created_at_time: Some(101),
    }];
    let r = l.icrc7_transfer(&principal(2), &args, 101);
    assert!(matches!(r[0], Some(Ok(_))));
    let owners = l.icrc7_owner_of(&vec![1u128]);
    assert!(owners[0].as_ref().unwrap().same(&account_transformer(account_of(3))));
    // the prior delegation was invalidated by the ownership change
    let tf = vec![TransferFromArg {
        spender_subaccount: None,
        from: account_of(3),
        to: account_of(5),
        token_id: 1,
        memo: None,
        created_at_time: Some(102),
    }];
    let r2 = l.transfer_from(&principal(4), &tf, 102);
    assert_eq!(r2[0], Some(Err(LedgerError::NotAuthorized)));
}

#[test]
fn transfer_rejects_self_recipient() {
    let mut l = new_ledger();
    mint_one(&mut l, account_of(2), 1, 100);
    let args = vec![TransferArg {
        from_subaccount: None,
        to: account_of(2),
        token_id: 1,
        memo: None,
        created_at_time: Some(100),
    }];
    let r = l.icrc7_transfer(&principal(2), &args, 100);
    assert_eq!(r[0], Some(Err(LedgerError::InvalidRecipient)));
}

#[test]
fn transfer_rejects_missing_token_and_wrong_owner() {
    let mut l = new_ledger();
    mint_one(&mut l, account_of(2), 1, 100);
    let missing = vec![TransferArg {
        from_subaccount: None,
        to: account_of(3),
        token_id: 9,
        memo: None,
        created_at_time: Some(100),
    }];
    let r = l.icrc7_transfer(&principal(2), &missing, 100);
    assert_eq!(r[0], Some(Err(LedgerError::NotFound)));
    let wrong = vec![TransferArg {
        from_subaccount: None,
        to: account_of(3),
        token_id: 1,
        memo: None,
        created_at_time: Some(100),
    }];
    let r2 = l.icrc7_transfer(&principal(9), &wrong, 100);
    assert_eq!(r2[0], Some(Err(LedgerError::NotOwner)));
}

#[test]
fn transfer_rejects_stale_and_future_requests() {
    let mut l = new_ledger();
    mint_one(&mut l, account_of(2), 1, 100_000);
    let stale = vec![TransferArg {
        from_subaccount: None,
        to: account_of(3),
        token_id: 1,
        memo: None,
        created_at_time: Some(1),
    }];
    let r = l.icrc7_transfer(&principal(2), &stale, 100_000);
    assert_eq!(r[0], Some(Err(LedgerError::TooOld)));
    let future = vec![TransferArg {
        from_subaccount: None,
        to: account_of(3),
        token_id: 1,
        memo: None,
        created_at_time: Some(100_100),
    }];
    let r2 = l.icrc7_transfer(&principal(2), &future, 100_000);
    assert_eq!(r2[0], Some(Err(LedgerError::CreatedInFuture)));
}

#[test]
fn identical_transfer_request_is_deduplicated_to_same_tid() {
    let mut l = new_ledger();
    mint_one(&mut l, account_of(2), 1, 100);
    let args = vec![TransferArg {
        from_subaccount: None,
        to: account_of(3),
        token_id: 1,
        memo: Some(vec![9, 9]),
        created_at_time: Some(101),
    }];
    let r1 = l.icrc7_transfer(&principal(2), &args, 101);
    let tid = match r1[0] {
        Some(Ok(t)) => t,
        _ => panic!("first transfer must commit"),
    };
    let args2 = vec![TransferArg {
        from_subaccount: None,
        to: account_of(3),
        token_id: 1,
        memo: Some(vec![9, 9]),
        created_at_time: Some(101),
    }];
    let r2 = l.icrc7_transfer(&principal(2), &args2, 102);
    assert_eq!(r2[0], Some(Err(LedgerError::Duplicate { duplicate_of: tid })));
    // only one committed ownership change: still exactly one block for it
    assert!(l.icrc7_owner_of(&vec![1u128])[0].as_ref().unwrap().same(&account_transformer(
        account_of(3),
    )));
}

#[test]
fn batch_at_update_limit_runs_but_one_more_is_rejected() {
    let mut init = base_init();
    init.icrc7_max_update_batch_size = Some(2);
    let mut l = LedgerState::init(init, &principal(1));
    mint_one(&mut l, account_of(2), 1, 100);
    mint_one(&mut l, account_of(2), 2, 100);
    mint_one(&mut l, account_of(2), 3, 100);
    let arg = |id: u128, c: u64| TransferArg {
        from_subaccount: None,
        to: account_of(3),
        token_id: id,
        memo: None,
        created_at_time: Some(c),
    };
    let exact = vec![arg(1, 101), arg(2, 101)];
    let r = l.icrc7_transfer(&principal(2), &exact, 101);
    assert_eq!(r.len(), 2);
    assert!(matches!(r[0], Some(Ok(_))));
    assert!(matches!(r[1], Some(Ok(_))));
    let over = vec![arg(3, 102), arg(3, 103), arg(3, 104)];
    let r2 = l.icrc7_transfer(&principal(2), &over, 102);
    assert_eq!(r2.len(), 3);
    for slot in &r2 {
        match slot {
            Some(Err(LedgerError::GenericBatchError { .. })) => {},
            _ => panic!("an over-limit batch must be rejected before any item runs"),
        }
    }
    // nothing was processed: token 3 kept its owner
    assert!(l.icrc7_owner_of(&vec![3u128])[0].as_ref().unwrap().same(&account_transformer(
        account_of(2),
    )));
}

#[test]
fn approved_spender_transfers_once_then_loses_the_grant() {
    let mut l = new_ledger();
    mint_one(&mut l, account_of(2), 1, 100);
    assert_eq!(l.icrc7_balance_of(&vec![account_of(2)])[0], 1);
    let approve = vec![ApproveTokenArg {
        token_id: 1,
        approval_info: ApprovalInfo::new(None, account_of(4), None, None, Some(100)),
    }];
    let ra = l.approve(&principal(2), &approve, 100);
    assert!(matches!(ra[0], Some(Ok(_))));
    let tf = vec![TransferFromArg {
        spender_subaccount: None,
        from: account_of(2),
        to: account_of(3),
        token_id: 1,
        memo: None,
        created_at_time: Some(101),
    }];
    let r = l.transfer_from(&principal(4), &tf, 101);
    assert!(matches!(r[0], Some(Ok(_))));
    assert!(l.icrc7_owner_of(&vec![1u128])[0].as_ref().unwrap().same(&account_transformer(
        account_of(3),
    )));
    let tf2 = vec![TransferFromArg {
        spender_subaccount: None,
        from: account_of(2),
        to: account_of(5),
        token_id: 1,
        memo: None,
        created_at_time: Some(102),
    }];
    let r2 = l.transfer_from(&principal(4), &tf2, 102);
    assert_eq!(r2[0], Some(Err(LedgerError::NotAuthorized)));
}

#[test]
fn expired_approval_authorizes_nothing() {
    let mut l = new_ledger();
    mint_one(&mut l, account_of(2), 1, 100);
    // granting an approval whose expiry already passed is itself rejected
    let approve = vec![ApproveTokenArg {
        token_id: 1,
        approval_info: ApprovalInfo::new(None, account_of(4), None, Some(99), Some(100)),
    }];
    let ra = l.approve(&principal(2), &approve, 100);
    assert_eq!(ra[0], Some(Err(LedgerError::ExpiredApproval)));
    // an approval that expires later stops authorizing once its time passes
    let approve2 = vec![ApproveTokenArg {
        token_id: 1,
        approval_info: ApprovalInfo::new(None, account_of(4), None, Some(150), Some(100)),
    }];
    let ra2 = l.approve(&principal(2), &approve2, 100);
    assert!(matches!(ra2[0], Some(Ok(_))));
    let tf = vec![TransferFromArg {
        spender_subaccount: None,
        from: account_of(2),
        to: account_of(3),
        token_id: 1,
        memo: None,
        created_at_time: Some(200),
    }];
    let r = l.transfer_from(&principal(4), &tf, 200);
    assert_eq!(r[0], Some(Err(LedgerError::NotAuthorized)));
}

#[test]
fn collection_approval_covers_owned_tokens() {
    let mut l = new_ledger();
    mint_one(&mut l, account_of(2), 1, 100);
    let approve = vec![ApproveCollectionArg {
        approval_info: ApprovalInfo::new(None, account_of(4), None, None, Some(100)),
    }];
    let ra = l.approve_collection(&principal(2), &approve, 100);
    assert!(matches!(ra[0], Some(Ok(_))));
    let tf = vec![TransferFromArg {
        spender_subaccount: None,
        from: account_of(2),
        to: account_of(3),
        token_id: 1,
        memo: None,
        created_at_time: Some(101),
    }];
    let r = l.transfer_from(&principal(4), &tf, 101);
    assert!(matches!(r[0], Some(Ok(_))));
}

#[test]
fn approval_count_limit_binds_when_eviction_cannot_help() {
    let mut init = base_init();
    init.approval_init = Some(icrc7::ledger::InitApprovalsArg {
        max_approvals_per_token_or_collection: Some(1),
        max_revoke_approvals: None,
        max_approvals: None,
        settle_to_approvals: Some(1),
        collection_approval_requires_token: None,
    });
    let mut l = LedgerState::init(init, &principal(1));
    mint_one(&mut l, account_of(2), 1, 100);
    let approve = |spender: Account| vec![ApproveTokenArg {
        token_id: 1,
        approval_info: ApprovalInfo::new(None, spender, None, None, Some(100)),
    }];
    let r1 = l.approve(&principal(2), &approve(account_of(4)), 100);
    assert!(matches!(r1[0], Some(Ok(_))));
    let r2 = l.approve(&principal(2), &approve(account_of(5)), 101);
    assert_eq!(r2[0], Some(Err(LedgerError::TooManyApprovals)));
}

#[test]
fn memo_size_limit_is_enforced_on_approvals() {
    let mut init = base_init();
    init.icrc7_max_memo_size = Some(2);
    let mut l = LedgerState::init(init, &principal(1));
    mint_one(&mut l, account_of(2), 1, 100);
    let approve = vec![ApproveTokenArg {
        token_id: 1,
        approval_info: ApprovalInfo::new(
            None,
            account_of(4),
            Some(vec![1, 2, 3]),
            None,
            Some(100),
        ),
    }];
    let r = l.approve(&principal(2), &approve, 100);
    assert_eq!(r[0], Some(Err(LedgerError::MemoTooLarge)));
}

#[test]
fn revoking_an_absent_approval_is_a_successful_no_op() {
    let mut l = new_ledger();
    mint_one(&mut l, account_of(2), 1, 100);
    let revoke = vec![RevokeTokenApprovalArg {
        from_subaccount: None,
        token_id: 1,
        spender: Some(account_of(4)),
        memo: None,
    }];
    let r = l.revoke_token_approvals(&principal(2), &revoke, 100);
    assert_eq!(r[0], Some(Ok(None)));
    // revoking on a missing token is an error
    let revoke2 = vec![RevokeTokenApprovalArg {
        from_subaccount: None,
        token_id: 9,
        spender: None,
        memo: None,
    }];
    let r2 = l.revoke_token_approvals(&principal(2), &revoke2, 100);
    assert_eq!(r2[0], Some(Err(LedgerError::NotFound)));
}

#[test]
fn revoke_appends_a_block_only_when_something_was_removed() {
    let mut l = new_ledger();
    mint_one(&mut l, account_of(2), 1, 100);
    let approve = vec![ApproveTokenArg {
        token_id: 1,
        approval_info: ApprovalInfo::new(None, account_of(4), None, None, Some(100)),
    }];
    let ra = l.approve(&principal(2), &approve, 100);
    assert!(matches!(ra[0], Some(Ok(_))));
    let revoke = vec![RevokeTokenApprovalArg {
        from_subaccount: None,
        token_id: 1,
        spender: Some(account_of(4)),
        memo: None,
    }];
    let r = l.revoke_token_approvals(&principal(2), &revoke, 101);
    match r[0] {
        Some(Ok(Some(tid))) => assert_eq!(tid, 2),
        _ => panic!("removing a live approval must append a revoke block"),
    }
}

#[test]
fn archival_trigger_fires_after_configured_record_count() {
    let mut init = base_init();
    init.archive_init = Some(InitArchiveArg {
        archive_controllers: None,
        archive_cycles: 0,
        archive_index_type: IndexType::Stable,
        max_active_records: 1,
        max_archive_pages: 1,
        max_records_in_archive_instance: 1_000_000,
        max_records_to_archive: 10,
        settle_to_records: 2,
    });
    let mut l = LedgerState::init(init, &principal(1));
    for id in 1..=9u128 {
        mint_one(&mut l, account_of(2), id, 100 + id as u64);
        assert!(!l.should_archive(), "nine records must not fire the trigger");
    }
    mint_one(&mut l, account_of(2), 10, 200);
    assert!(l.should_archive(), "the tenth record fires the trigger");
    let tid11 = mint_one(&mut l, account_of(2), 11, 201);
    assert_eq!(tid11, 10);
    let (start, blocks) = l.start_archive_export().expect("an export batch is due");
    assert_eq!(start, 0);
    assert_eq!(blocks.len(), 9);  // eleven live less the two that settle-to retains
    let hash_before = l.txn_log_latest_hash();
    l.archive_export_done(principal(8));
    let hash_after = l.txn_log_latest_hash();
    assert_eq!(hash_before, hash_after, "settling never changes the chain");
    // the logical sequence stays contiguous across the boundary
    let live = l.icrc7_txn_logs(0, 100);
    assert_eq!(live.len(), 2);
    assert_eq!(live[0].tid, 9);
    assert_eq!(live[1].tid, 10);
    assert!(l.get_archive_log_canister().is_some());
}

#[test]
fn atomic_batch_discards_everything_on_one_failure() {
    let mut init = base_init();
    init.icrc7_atomic_batch_transfers = Some(true);
    let mut l = LedgerState::init(init, &principal(1));
    mint_one(&mut l, account_of(2), 1, 100);
    mint_one(&mut l, account_of(2), 2, 100);
    let args = vec![
        TransferArg {
            from_subaccount: None,
            to: account_of(3),
            token_id: 1,
            memo: None,
            created_at_time: Some(101),
        },
        TransferArg {
            from_subaccount: None,
            to: account_of(3),
            token_id: 9,
            memo: None,
            created_at_time: Some(101),
        },
    ];
    let r = l.icrc7_transfer(&principal(2), &args, 101);
    assert!(matches!(r[0], Some(Ok(_))));
    assert_eq!(r[1], Some(Err(LedgerError::NotFound)));
    // the whole batch's effects were discarded
    assert!(l.icrc7_owner_of(&vec![1u128])[0].as_ref().unwrap().same(&account_transformer(
        account_of(2),
    )));
}

#[test]
fn pagination_follows_id_order() {
    let mut l = new_ledger();
    for id in [5u128, 1, 9, 3] {
        mint_one(&mut l, account_of(2), id, 100);
    }
    let all = l.icrc7_tokens(None, Some(10));
    assert_eq!(all, vec![1, 3, 5, 9]);
    let after_three = l.icrc7_tokens(Some(3), Some(2));
    assert_eq!(after_three, vec![5, 9]);
    let of_owner = l.icrc7_tokens_of(account_of(2), Some(1), Some(2));
    assert_eq!(of_owner, vec![3, 5]);
}

#[test]
fn accounts_normalize_to_the_default_subaccount() {
    let a = account_transformer(Account { owner: vec![1], subaccount: None });
    assert_eq!(a.subaccount, Some(vec![0u8; 32]));
    let mut l = new_ledger();
    mint_one(&mut l, Account { owner: principal(2), subaccount: Some(vec![0u8; 32]) }, 1, 100);
    // "no subaccount" and "default subaccount" are the same account
    let b = l.icrc7_balance_of(&vec![account_of(2)]);
    assert_eq!(b[0], 1);
}

#[test]
fn burn_subaccount_is_padded_tag() {
    let s = burn_subaccount();
    assert_eq!(s.len(), 32);
    assert_eq!(&s[0..15], b"BURN SUBACCOUNT");
    assert!(s[15..].iter().all(|b| *b == 0));
    let p = principal_to_subaccount(&vec![7, 8]);
    assert_eq!(p.len(), 32);
    assert_eq!(&p[0..2], &[7, 8]);
}

#[test]
fn value_hash_is_deterministic_and_32_bytes() {
    let v1 = Value::Nat(1);
    let v2 = Value::Nat(2);
    let h1 = hash_icrc_value(&v1);
    let h1b = hash_icrc_value(&v1.clone());
    let h2 = hash_icrc_value(&v2);
    assert_eq!(h1.len(), 32);
    assert_eq!(h1, h1b);
    assert_ne!(h1, h2);
}

#[test]
fn getters_reflect_configuration() {
    let l = new_ledger();
    assert_eq!(l.icrc7_symbol(), "NFT".to_owned());
    assert_eq!(l.icrc7_name(), "test ledger".to_owned());
    assert_eq!(l.icrc7_description(), None);
    assert_eq!(l.icrc7_supply_cap(), None);
    assert_eq!(l.icrc7_total_supply(), 0);
    let auth = l.icrc7_minting_authority().expect("the authority is configured");
    assert!(auth.same(&account_transformer(account_of(1))));
}

#[test]
fn combined_mint_grants_the_authority_an_approval() {
    let mut l = new_ledger();
    let arg = MintArg {
        from_subaccount: None,
        to: account_of(2),
        token_id: 1,
        memo: None,
        token_metadata: Vec::new(),
    };
    let (tid, token_id) =
        l.mint_and_grant_transfer_approval(&principal(1), arg, 100).expect("mint must commit");
    assert_eq!(tid, 0);
    assert_eq!(token_id, 1);
    // the authority (principal 1) now holds a transfer approval from the owner
    let tf = vec![TransferFromArg {
        spender_subaccount: None,
        from: account_of(2),
        to: account_of(3),
        token_id: 1,
        memo: None,
        created_at_time: Some(101),
    }];
    let r = l.transfer_from(&principal(1), &tf, 101);
    assert!(matches!(r[0], Some(Ok(_))));
}

#[test]
fn combined_transfer_from_moves_ownership() {
    let mut l = new_ledger();
    mint_one(&mut l, account_of(2), 1, 100);
    let approve = vec![ApproveTokenArg {
        token_id: 1,
        approval_info: ApprovalInfo::new(None, account_of(4), None, None, Some(100)),
    }];
    let ra = l.approve(&principal(2), &approve, 100);
    assert!(matches!(ra[0], Some(Ok(_))));
    let arg = TransferFromArg {
        spender_subaccount: None,
        from: account_of(2),
        to: account_of(3),
        token_id: 1,
        memo: None,
        created_at_time: Some(101),
    };
    let tid = l
        .transfer_from_and_grant_transfer_approval(&principal(4), arg, 101)
        .expect("the approved spender may transfer");
    assert_eq!(tid, 2);
    assert!(l.icrc7_owner_of(&vec![1u128])[0].as_ref().unwrap().same(&account_transformer(
        account_of(3),
    )));
    // the follow-up grant was attempted for the previous owner and refused:
    // the authority gained no approval over the moved token
    let tf = vec![TransferFromArg {
        spender_subaccount: None,
        from: account_of(3),
        to: account_of(5),
        token_id: 1,
        memo: None,
        created_at_time: Some(102),
    }];
    let r = l.transfer_from(&principal(1), &tf, 102);
    assert_eq!(r[0], Some(Err(LedgerError::NotAuthorized)));
}

#[test]
fn init_without_archive_config_leaves_block_types_unset() {
    let l = new_ledger();
    assert_eq!(l.archive_ledger_info.supported_blocks.len(), 0);
    let mut init = base_init();
    init.archive_init = Some(InitArchiveArg {
        archive_controllers: None,
        archive_cycles: 0,
        archive_index_type: IndexType::Stable,
        max_active_records: 100,
        max_archive_pages: 1,
        max_records_in_archive_instance: 1_000,
        max_records_to_archive: 10,
        settle_to_records: 2,
    });
    let configured = LedgerState::init(init, &principal(1));
    assert_eq!(configured.archive_ledger_info.supported_blocks.len(), 9);
    assert_eq!(configured.archive_ledger_info.supported_blocks[0].block_type, "7mint".to_owned());
    assert_eq!(configured.archive_ledger_info.supported_blocks[8].block_type, "37xfer".to_owned());
}

#[test]
fn block_constructors_accept_only_map_values() {
    let b = icrc7::log::Block::from_value(Value::Dict(Vec::new())).expect("a map is a block");
    assert!(matches!(b.into_inner(), Value::Dict(_)));
    let e = icrc7::log::Block::from_value(Value::Nat(1));
    assert!(e.is_err());
    let wrapped = icrc7::log::Block::from_map(Vec::new());
    assert!(matches!(wrapped.into_inner(), Value::Dict(_)));
}
