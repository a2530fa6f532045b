//! The ledger engine: one instance owning the token store, the approval
//! store, the transaction log and the archival trigger, implementing
//! mint/burn/transfer/approve/transfer-from/revoke with batch, atomicity,
//! deduplication and authorization semantics. The caller's identity and the
//! clock are always supplied from outside; the engine never reads either
//! itself.

use vstd::prelude::*;
use crate::account::{default_subaccount, Account, AccountV};
use crate::approvals::{
    view_approvals, Approval, ApprovalStore, ApprovalV,
};
use crate::archive::{ArchiveLedgerInfo, ArchiveSetting, ArchiveState, InitArchiveArg};
use crate::errors::{LedgerError, LedgerErrorV};
use crate::log::{Block, Transaction, TransactionLog, TransactionV};
use crate::token::{Icrc7Token, TokenStore, TokenV};
use crate::value::{view_entries, Entry};

verus! {

/// One standard this ledger implements.
pub struct Standard {
    pub name: String,
    pub url: String,
}

/// The approval limits applied uniformly to token-level and
/// collection-level approvals.
pub struct LedgerInfo {
    pub max_approvals_per_token_or_collection: u128,
    pub max_revoke_approvals: u128,
    pub max_approvals: u128,
    pub settle_to_approvals: u128,
    pub collection_approval_requires_token: bool,
}

impl Default for LedgerInfo {
    /// The default approval limits.
    fn default() -> (r: Self)
        ensures
            r.max_approvals_per_token_or_collection == 10_000u128,
            r.max_revoke_approvals == 10_000u128,
            r.max_approvals == 10_000u128,
            r.settle_to_approvals == 9_975u128,
            r.collection_approval_requires_token,
    {
        LedgerInfo {
            max_approvals_per_token_or_collection: 10_000,
            max_revoke_approvals: 10_000,
            max_approvals: 10_000,
            settle_to_approvals: 9_975,
            collection_approval_requires_token: true,
        }
    }
}

/// Overrides for the approval limits at initialization.
pub struct InitApprovalsArg {
    pub max_approvals_per_token_or_collection: Option<u128>,
    pub max_revoke_approvals: Option<u128>,
    pub max_approvals: Option<u128>,
    pub settle_to_approvals: Option<u128>,
    pub collection_approval_requires_token: Option<bool>,
}

/// The configuration applied once at initialization.
pub struct InitArg {
    pub minting_account: Option<Account>,
    pub icrc7_symbol: String,
    pub icrc7_name: String,
    pub icrc7_description: Option<String>,
    pub icrc7_logo: Option<String>,
    pub icrc7_supply_cap: Option<u128>,
    pub icrc7_max_query_batch_size: Option<u16>,
    pub icrc7_max_update_batch_size: Option<u16>,
    pub icrc7_max_take_value: Option<u128>,
    pub icrc7_default_take_value: Option<u128>,
    pub icrc7_max_memo_size: Option<u32>,
    pub icrc7_atomic_batch_transfers: Option<bool>,
    pub tx_window: Option<u64>,
    pub permitted_drift: Option<u64>,
    pub approval_init: Option<InitApprovalsArg>,
    pub archive_init: Option<InitArchiveArg>,
}

/// The ledger engine's whole state.
pub struct LedgerState {
    pub minting_authority: Option<Account>,
    pub icrc7_symbol: String,
    pub icrc7_name: String,
    pub icrc7_description: Option<String>,
    pub icrc7_logo: Option<String>,
    pub icrc7_supply_cap: Option<u128>,
    pub icrc7_max_query_batch_size: Option<u16>,
    pub icrc7_max_update_batch_size: Option<u16>,
    pub icrc7_max_take_value: Option<u128>,
    pub icrc7_default_take_value: Option<u128>,
    pub icrc7_max_memo_size: Option<u32>,
    pub icrc7_atomic_batch_transfers: Option<bool>,
    pub tx_window: Option<u64>,
    pub permitted_drift: Option<u64>,
    pub approval_ledger_info: LedgerInfo,
    pub archive_ledger_info: ArchiveLedgerInfo,
    pub tokens: TokenStore,
    pub approvals: ApprovalStore,
    pub log: TransactionLog,
    /// Ids retired by burn: permanently, never re-minted.
    pub burned_ids: Vec<u128>,
}

/// The account a caller principal acts as, given an optional subaccount:
/// always normalized.
pub open spec fn caller_account_v(caller: Seq<u8>, sub: Option<Seq<u8>>) -> AccountV {
    AccountV {
        owner: caller,
        subaccount: Some(
            match sub {
                Some(s) => s,
                None => default_subaccount(),
            },
        ),
    }
}

/// The model of an optional subaccount.
pub open spec fn view_opt_sub(s: Option<Vec<u8>>) -> Option<Seq<u8>> {
    match s {
        Some(x) => Some(x@),
        None => None,
    }
}

/// The model of an optional memo.
pub open spec fn view_opt_memo(s: Option<Vec<u8>>) -> Option<Seq<u8>> {
    match s {
        Some(x) => Some(x@),
        None => None,
    }
}

/// Builds the account a caller principal acts as.
pub fn caller_account(caller: &Vec<u8>, sub: &Option<Vec<u8>>) -> (r: Account)
    ensures
        r@ == caller_account_v(caller@, view_opt_sub(*sub)),
{
    let s = match sub {
        Some(s) => crate::value::copy_bytes(s),
        None => crate::account::make_default_subaccount(),
    };
    Account { owner: crate::value::copy_bytes(caller), subaccount: Some(s) }
}

impl LedgerState {
    /// Whether this id was ever minted: live now, or retired by burn.
    pub open spec fn minted_ever(self, id: u128) -> bool {
        self.tokens.has_id(id) || self.burned_ids@.contains(id)
    }

    /// Well-formedness of the whole engine: the stores are well-formed, no
    /// live token id is retired, and every stored owner account is a
    /// normalized account with a non-empty owner.
    pub open spec fn wf(self) -> bool {
        &&& self.tokens.wf()
        &&& self.approvals.wf()
        &&& self.log.wf()
        &&& forall|i: int|
            0 <= i < self.tokens@.len() ==> !self.burned_ids@.contains(
                #[trigger] self.tokens@[i].token_id,
            )
        &&& forall|i: int| 0 <= i < self.tokens@.len() ==> (#[trigger] self.tokens@[i]).owner.wf()
    }

    /// The stores two engine states share when a batch's effects were
    /// discarded: every mutable projection is equal.
    pub open spec fn same_stores(self, other: LedgerState) -> bool {
        &&& self.tokens@ == other.tokens@
        &&& tok_entries_view(self.approvals) == tok_entries_view(other.approvals)
        &&& coll_entries_view(self.approvals) == coll_entries_view(other.approvals)
        &&& view_txns(self.log.txns@) == view_txns(other.log.txns@)
        &&& self.log.first_index == other.log.first_index
        &&& self.log.latest_hash@ == other.log.latest_hash@
        &&& self.log.prefix_hash@ == other.log.prefix_hash@
        &&& self.log.history@ == other.log.history@
        &&& self.burned_ids@ == other.burned_ids@
        &&& self.archive_ledger_info.records_since_trigger
            == other.archive_ledger_info.records_since_trigger
    }

    /// The configuration and archival bookkeeping two engine states share
    /// when an operation only touched the stores.
    pub open spec fn same_config(self, other: LedgerState) -> bool {
        &&& self.minting_authority == other.minting_authority
        &&& self.icrc7_symbol == other.icrc7_symbol
        &&& self.icrc7_name == other.icrc7_name
        &&& self.icrc7_description == other.icrc7_description
        &&& self.icrc7_logo == other.icrc7_logo
        &&& self.icrc7_supply_cap == other.icrc7_supply_cap
        &&& self.icrc7_max_query_batch_size == other.icrc7_max_query_batch_size
        &&& self.icrc7_max_update_batch_size == other.icrc7_max_update_batch_size
        &&& self.icrc7_max_take_value == other.icrc7_max_take_value
        &&& self.icrc7_default_take_value == other.icrc7_default_take_value
        &&& self.icrc7_max_memo_size == other.icrc7_max_memo_size
        &&& self.icrc7_atomic_batch_transfers == other.icrc7_atomic_batch_transfers
        &&& self.tx_window == other.tx_window
        &&& self.permitted_drift == other.permitted_drift
        &&& self.approval_ledger_info == other.approval_ledger_info
        &&& self.archive_ledger_info.setting == other.archive_ledger_info.setting
        &&& self.archive_ledger_info.archives == other.archive_ledger_info.archives
        &&& self.archive_ledger_info.state == other.archive_ledger_info.state
        &&& self.archive_ledger_info.pending_export == other.archive_ledger_info.pending_export
        &&& self.archive_ledger_info.supported_blocks
            == other.archive_ledger_info.supported_blocks
    }

    /// The minting authority's account model.
    pub open spec fn minting_authority_v(self) -> Option<AccountV> {
        match self.minting_authority {
            Some(a) => Some(a@),
            None => None,
        }
    }

    /// The configured update batch limit, as the batch validator applies it:
    /// no limit configured means no bound.
    pub open spec fn over_update_limit(self, n: int) -> bool {
        self.icrc7_max_update_batch_size matches Some(m) && n > m
    }

    /// The dedup window's lower bound check: the request was created too
    /// long before `now`.
    pub open spec fn too_old(self, created: u64, now: u64) -> bool {
        let w = window_of(self.tx_window);
        let d = drift_of(self.permitted_drift);
        created < now && now - created > w + d
    }

    /// The clock-skew check: the request claims a creation time too far
    /// beyond `now`.
    pub open spec fn created_in_future(self, created: u64, now: u64) -> bool {
        let d = drift_of(self.permitted_drift);
        created > now && created - now > d
    }
}

/// The dedup window applied when none is configured.
pub open spec fn window_of(w: Option<u64>) -> int {
    match w {
        Some(x) => x as int,
        None => (24 * 60 * 60 * 1_000_000_000) as int,
    }
}

/// The permitted clock drift applied when none is configured.
pub open spec fn drift_of(d: Option<u64>) -> int {
    match d {
        Some(x) => x as int,
        None => (2 * 60 * 1_000_000_000) as int,
    }
}

/// The token-approval entries of a store, each as its key and the model of
/// its list.
pub open spec fn tok_entries_view(st: ApprovalStore) -> Seq<(u128, Seq<ApprovalV>)> {
    Seq::new(
        st.token_approvals@.len(),
        |i: int|
            (
                st.token_approvals@[i].token_id,
                view_approvals(st.token_approvals@[i].approvals@),
            ),
    )
}

/// The collection-approval entries of a store, each as its key and the
/// model of its list.
pub open spec fn coll_entries_view(st: ApprovalStore) -> Seq<(AccountV, Seq<ApprovalV>)> {
    Seq::new(
        st.collection_approvals@.len(),
        |i: int|
            (
                st.collection_approvals@[i].owner@,
                view_approvals(st.collection_approvals@[i].approvals@),
            ),
    )
}

/// The models of a transaction list, pointwise.
pub open spec fn view_txns(s: Seq<Transaction>) -> Seq<TransactionV> {
    Seq::new(s.len(), |i: int| s[i]@)
}

/// A snapshot of the engine's mutable stores, taken before an atomic batch
/// so that a failure can discard the whole batch's effects.
pub struct StoresSnapshot {
    pub tokens: TokenStore,
    pub approvals: ApprovalStore,
    pub log: TransactionLog,
    pub burned_ids: Vec<u128>,
    pub records_since_trigger: u128,
}

impl LedgerState {
    /// Copies the mutable stores; the copy holds the same models.
    pub fn take_snapshot(&self) -> (r: StoresSnapshot)
        ensures
            r.tokens@ == self.tokens@,
            tok_entries_view(r.approvals) == tok_entries_view(self.approvals),
            coll_entries_view(r.approvals) == coll_entries_view(self.approvals),
            view_txns(r.log.txns@) == view_txns(self.log.txns@),
            r.log.first_index == self.log.first_index,
            r.log.latest_hash@ == self.log.latest_hash@,
            r.log.prefix_hash@ == self.log.prefix_hash@,
            r.log.history@ == self.log.history@,
            r.burned_ids@ == self.burned_ids@,
            r.records_since_trigger == self.archive_ledger_info.records_since_trigger,
    {
        let mut tokens: Vec<Icrc7Token> = Vec::new();
        let mut i: usize = 0;
        while i < self.tokens.tokens.len()
            invariant
                i <= self.tokens.tokens@.len(),
                tokens@.len() == i,
                forall|j: int| 0 <= j < i ==> tokens@[j]@ == self.tokens.tokens@[j]@,
            decreases self.tokens.tokens.len() - i,
        {
            tokens.push(self.tokens.tokens[i].copy());
            i = i + 1;
        }
        let tokens = TokenStore { tokens };
        proof {
            assert(tokens@ =~= self.tokens@);
        }

        let mut tok_entries: Vec<crate::approvals::TokenApprovalEntry> = Vec::new();
        let mut i: usize = 0;
        while i < self.approvals.token_approvals.len()
            invariant
                i <= self.approvals.token_approvals@.len(),
                tok_entries@.len() == i,
                forall|j: int|
                    0 <= j < i ==> #[trigger] tok_entries@[j].token_id
                        == self.approvals.token_approvals@[j].token_id,
                forall|j: int|
                    0 <= j < i ==> view_approvals(#[trigger] tok_entries@[j].approvals@)
                        == view_approvals(self.approvals.token_approvals@[j].approvals@),
            decreases self.approvals.token_approvals.len() - i,
        {
            let src = &self.approvals.token_approvals[i];
            let approvals = copy_approvals(&src.approvals);
            tok_entries.push(
                crate::approvals::TokenApprovalEntry { token_id: src.token_id, approvals },
            );
            i = i + 1;
        }

        let mut coll_entries: Vec<crate::approvals::CollectionApprovalEntry> = Vec::new();
        let mut i: usize = 0;
        while i < self.approvals.collection_approvals.len()
            invariant
                i <= self.approvals.collection_approvals@.len(),
                coll_entries@.len() == i,
                forall|j: int|
                    0 <= j < i ==> #[trigger] coll_entries@[j].owner@
                        == self.approvals.collection_approvals@[j].owner@,
                forall|j: int|
                    0 <= j < i ==> view_approvals(#[trigger] coll_entries@[j].approvals@)
                        == view_approvals(self.approvals.collection_approvals@[j].approvals@),
            decreases self.approvals.collection_approvals.len() - i,
        {
            let src = &self.approvals.collection_approvals[i];
            let approvals = copy_approvals(&src.approvals);
            coll_entries.push(
                crate::approvals::CollectionApprovalEntry { owner: src.owner.copy(), approvals },
            );
            i = i + 1;
        }
        let approvals = ApprovalStore {
            token_approvals: tok_entries,
            collection_approvals: coll_entries,
        };
        proof {
            assert(tok_entries_view(approvals) =~= tok_entries_view(self.approvals));
            assert(coll_entries_view(approvals) =~= coll_entries_view(self.approvals));
        }

        let mut txns: Vec<Transaction> = Vec::new();
        let mut i: usize = 0;
        while i < self.log.txns.len()
            invariant
                i <= self.log.txns@.len(),
                txns@.len() == i,
                forall|j: int| 0 <= j < i ==> txns@[j]@ == self.log.txns@[j]@,
            decreases self.log.txns.len() - i,
        {
            txns.push(self.log.txns[i].copy());
            i = i + 1;
        }
        let log = TransactionLog {
            txns,
            first_index: self.log.first_index,
            prefix_hash: crate::value::copy_bytes(&self.log.prefix_hash),
            latest_hash: crate::value::copy_bytes(&self.log.latest_hash),
            history: Ghost(self.log.history@),
        };
        proof {
            assert(view_txns(log.txns@) =~= view_txns(self.log.txns@));
        }

        let mut burned: Vec<u128> = Vec::new();
        let mut i: usize = 0;
        while i < self.burned_ids.len()
            invariant
                i <= self.burned_ids@.len(),
                burned@ == self.burned_ids@.subrange(0, i as int),
            decreases self.burned_ids.len() - i,
        {
            burned.push(self.burned_ids[i]);
            i = i + 1;
        }
        proof {
            assert(burned@ =~= self.burned_ids@);
        }

        StoresSnapshot {
            tokens,
            approvals,
            log,
            burned_ids: burned,
            records_since_trigger: self.archive_ledger_info.records_since_trigger,
        }
    }

    /// Puts a snapshot's stores back: discards everything a batch changed.
    pub fn restore_snapshot(&mut self, snap: StoresSnapshot)
        ensures
            final(self).tokens@ == snap.tokens@,
            tok_entries_view(final(self).approvals) == tok_entries_view(snap.approvals),
            coll_entries_view(final(self).approvals) == coll_entries_view(snap.approvals),
            view_txns(final(self).log.txns@) == view_txns(snap.log.txns@),
            final(self).log.first_index == snap.log.first_index,
            final(self).log.latest_hash@ == snap.log.latest_hash@,
            final(self).log.prefix_hash@ == snap.log.prefix_hash@,
            final(self).log.history@ == snap.log.history@,
            final(self).burned_ids@ == snap.burned_ids@,
            final(self).archive_ledger_info.records_since_trigger
                == snap.records_since_trigger,
            final(self).same_config(*old(self)),
    {
        self.tokens = snap.tokens;
        self.approvals = snap.approvals;
        self.log = snap.log;
        self.burned_ids = snap.burned_ids;
        self.archive_ledger_info.records_since_trigger = snap.records_since_trigger;
    }
}

/// Equal store models carry well-formedness across.
pub proof fn lemma_same_stores_wf(a: LedgerState, b: LedgerState)
    requires
        a.wf(),
        b.same_stores(a),
    ensures
        b.wf(),
{
    assert(b.tokens@ =~= a.tokens@);
    assert(b.tokens.wf());
    assert(tok_entries_view(b.approvals).len() == tok_entries_view(a.approvals).len());
    assert(b.approvals.token_approvals@.len() == a.approvals.token_approvals@.len());
    assert(coll_entries_view(b.approvals).len() == coll_entries_view(a.approvals).len());
    assert(b.approvals.collection_approvals@.len() == a.approvals.collection_approvals@.len());
    assert(view_txns(b.log.txns@).len() == view_txns(a.log.txns@).len());
    assert(b.log.txns@.len() == a.log.txns@.len());
    assert(b.approvals.wf()) by {
        assert forall|i: int, j: int|
            0 <= i < j < b.approvals.token_approvals@.len() implies b.approvals.token_approvals@[
            i
        ].token_id != b.approvals.token_approvals@[j].token_id by {
            assert(tok_entries_view(b.approvals)[i] == tok_entries_view(a.approvals)[i]);
            assert(tok_entries_view(b.approvals)[j] == tok_entries_view(a.approvals)[j]);
            assert(tok_entries_view(b.approvals)[i].0 == b.approvals.token_approvals@[i].token_id);
            assert(tok_entries_view(a.approvals)[i].0 == a.approvals.token_approvals@[i].token_id);
            assert(tok_entries_view(b.approvals)[j].0 == b.approvals.token_approvals@[j].token_id);
            assert(tok_entries_view(a.approvals)[j].0 == a.approvals.token_approvals@[j].token_id);
        }
        assert forall|i: int, j: int|
            0 <= i < j < b.approvals.collection_approvals@.len() implies b.approvals
                .collection_approvals@[i].owner@ != b.approvals.collection_approvals@[j].owner@ by {
            assert(coll_entries_view(b.approvals)[i] == coll_entries_view(a.approvals)[i]);
            assert(coll_entries_view(b.approvals)[j] == coll_entries_view(a.approvals)[j]);
            assert(coll_entries_view(b.approvals)[i].0 == b.approvals.collection_approvals@[i].owner@);
            assert(coll_entries_view(a.approvals)[i].0 == a.approvals.collection_approvals@[i].owner@);
            assert(coll_entries_view(b.approvals)[j].0 == b.approvals.collection_approvals@[j].owner@);
            assert(coll_entries_view(a.approvals)[j].0 == a.approvals.collection_approvals@[j].owner@);
        }
    }
    assert(b.log.wf()) by {
        assert forall|i: int|
            0 <= i < b.log.txns@.len() implies #[trigger] b.log.txns@[i]@ == b.log.history@[
            b.log.first_index as int + i
        ] by {
            assert(view_txns(b.log.txns@)[i] == view_txns(a.log.txns@)[i]);
            assert(a.log.txns@[i]@ == a.log.history@[a.log.first_index as int + i]);
        }
        assert(view_txns(b.log.txns@).len() == view_txns(a.log.txns@).len());
    }
    assert(forall|i: int|
        0 <= i < b.tokens@.len() ==> !b.burned_ids@.contains(
            #[trigger] b.tokens@[i].token_id,
        ));
    assert(forall|i: int| 0 <= i < b.tokens@.len() ==> (#[trigger] b.tokens@[i]).owner.wf());
}

/// Copies an approval list; the copy has the same model.
pub fn copy_approvals(v: &Vec<Approval>) -> (r: Vec<Approval>)
    ensures
        view_approvals(r@) == view_approvals(v@),
{
    let mut r: Vec<Approval> = Vec::new();
    let mut i: usize = 0;
    while i < v.len()
        invariant
            i <= v@.len(),
            r@.len() == i,
            forall|j: int| 0 <= j < i ==> r@[j]@ == v@[j]@,
        decreases v.len() - i,
    {
        r.push(v[i].copy());
        i = i + 1;
    }
    proof {
        assert(view_approvals(r@) =~= view_approvals(v@));
    }
    r
}

impl LedgerState {
    /// Initializes the engine: the minting authority defaults to the
    /// caller's account, the approval limits and archival setting take their
    /// overrides, and every store starts empty.
    pub fn init(arg: InitArg, caller: &Vec<u8>) -> (r: LedgerState)
        ensures
            r.wf(),
            r.tokens@.len() == 0,
            r.log.history@.len() == 0,
            r.log.first_index == 0,
            r.burned_ids@.len() == 0,
            r.archive_ledger_info.state is Idle,
            r.archive_ledger_info.records_since_trigger == 0,
            r.minting_authority_v() == Some(
                match arg.minting_account {
                    Some(acc) => acc@.normalized(),
                    None => caller_account_v(caller@, None),
                },
            ),
            r.icrc7_symbol == arg.icrc7_symbol,
            r.icrc7_name == arg.icrc7_name,
            r.icrc7_description == arg.icrc7_description,
            r.icrc7_logo == arg.icrc7_logo,
            r.icrc7_supply_cap == arg.icrc7_supply_cap,
            r.icrc7_max_query_batch_size == arg.icrc7_max_query_batch_size,
            r.icrc7_max_update_batch_size == arg.icrc7_max_update_batch_size,
            r.icrc7_max_take_value == arg.icrc7_max_take_value,
            r.icrc7_default_take_value == arg.icrc7_default_take_value,
            r.icrc7_max_memo_size == arg.icrc7_max_memo_size,
            r.icrc7_atomic_batch_transfers == arg.icrc7_atomic_batch_transfers,
            r.tx_window == arg.tx_window,
            r.permitted_drift == arg.permitted_drift,
            match arg.archive_init {
                Some(ai) => r.archive_ledger_info.setting.archive_controllers
                    == ai.archive_controllers && r.archive_ledger_info.setting.archive_cycles
                    == ai.archive_cycles && r.archive_ledger_info.setting.archive_index_type
                    == ai.archive_index_type && r.archive_ledger_info.setting.max_active_records
                    == ai.max_active_records && r.archive_ledger_info.setting.max_archive_pages
                    == ai.max_archive_pages
                    && r.archive_ledger_info.setting.max_records_in_archive_instance
                    == ai.max_records_in_archive_instance
                    && r.archive_ledger_info.setting.max_records_to_archive
                    == ai.max_records_to_archive
                    && r.archive_ledger_info.setting.settle_to_records == ai.settle_to_records
                    && r.archive_ledger_info.supported_blocks@.len() == 9,
                None => r.archive_ledger_info.setting.archive_controllers is None
                    && r.archive_ledger_info.setting.archive_cycles == 2_000_000_000_000u128
                    && r.archive_ledger_info.setting.archive_index_type is Stable
                    && r.archive_ledger_info.setting.max_active_records == 2000u128
                    && r.archive_ledger_info.setting.max_archive_pages == 62500u128
                    && r.archive_ledger_info.setting.max_records_in_archive_instance
                    == 10_000_000u128 && r.archive_ledger_info.setting.max_records_to_archive
                    == 10_000u128 && r.archive_ledger_info.setting.settle_to_records == 1000u128
                    && r.archive_ledger_info.supported_blocks@.len() == 0,
            },
            match arg.approval_init {
                Some(ai) => r.approval_ledger_info.max_approvals_per_token_or_collection == (
                match ai.max_approvals_per_token_or_collection {
                    Some(v) => v,
                    None => 10_000u128,
                }) && r.approval_ledger_info.max_revoke_approvals == (
                match ai.max_revoke_approvals {
                    Some(v) => v,
                    None => 10_000u128,
                }) && r.approval_ledger_info.max_approvals == (match ai.max_approvals {
                    Some(v) => v,
                    None => 10_000u128,
                }) && r.approval_ledger_info.settle_to_approvals == (
                match ai.settle_to_approvals {
                    Some(v) => v,
                    None => 9_975u128,
                }) && r.approval_ledger_info.collection_approval_requires_token == (
                match ai.collection_approval_requires_token {
                    Some(v) => v,
                    None => true,
                }),
                None => r.approval_ledger_info.max_approvals_per_token_or_collection
                    == 10_000u128 && r.approval_ledger_info.max_revoke_approvals == 10_000u128
                    && r.approval_ledger_info.max_approvals == 10_000u128
                    && r.approval_ledger_info.settle_to_approvals == 9_975u128
                    && r.approval_ledger_info.collection_approval_requires_token,
            },
            r.archive_ledger_info.pending_export == 0,
    {
        let minting_authority = match arg.minting_account {
            Some(acc) => crate::account::account_transformer(acc),
            None => caller_account(caller, &None),
        };

        let mut ledger_info = LedgerInfo::default();
        match arg.approval_init {
            Some(approval_init) => {
                match approval_init.max_approvals_per_token_or_collection {
                    Some(v) => {
                        ledger_info.max_approvals_per_token_or_collection = v;
                    },
                    None => {},
                }
                match approval_init.max_revoke_approvals {
                    Some(v) => {
                        ledger_info.max_revoke_approvals = v;
                    },
                    None => {},
                }
                match approval_init.max_approvals {
                    Some(v) => {
                        ledger_info.max_approvals = v;
                    },
                    None => {},
                }
                match approval_init.settle_to_approvals {
                    Some(v) => {
                        ledger_info.settle_to_approvals = v;
                    },
                    None => {},
                }
                match approval_init.collection_approval_requires_token {
                    Some(v) => {
                        ledger_info.collection_approval_requires_token = v;
                    },
                    None => {},
                }
            },
            None => {},
        }

        let archive_ledger_info = match arg.archive_init {
            Some(archive_init) => ArchiveLedgerInfo::new(
                Some(archive_init.to_archive_setting()),
            ),
            None => ArchiveLedgerInfo::default(),
        };

        let r = LedgerState {
            minting_authority: Some(minting_authority),
            icrc7_symbol: arg.icrc7_symbol,
            icrc7_name: arg.icrc7_name,
            icrc7_description: arg.icrc7_description,
            icrc7_logo: arg.icrc7_logo,
            icrc7_supply_cap: arg.icrc7_supply_cap,
            icrc7_max_query_batch_size: arg.icrc7_max_query_batch_size,
            icrc7_max_update_batch_size: arg.icrc7_max_update_batch_size,
            icrc7_max_take_value: arg.icrc7_max_take_value,
            icrc7_default_take_value: arg.icrc7_default_take_value,
            icrc7_max_memo_size: arg.icrc7_max_memo_size,
            icrc7_atomic_batch_transfers: arg.icrc7_atomic_batch_transfers,
            tx_window: arg.tx_window,
            permitted_drift: arg.permitted_drift,
            approval_ledger_info: ledger_info,
            archive_ledger_info,
            tokens: TokenStore::new(),
            approvals: ApprovalStore::new(),
            log: TransactionLog::new(),
            burned_ids: Vec::new(),
        };
        r
    }

    /// The ledger's symbol.
    pub fn icrc7_symbol(&self) -> (r: String)
        ensures
            r@ == self.icrc7_symbol@,
    {
        self.icrc7_symbol.clone()
    }

    /// The ledger's name.
    pub fn icrc7_name(&self) -> (r: String)
        ensures
            r@ == self.icrc7_name@,
    {
        self.icrc7_name.clone()
    }

    /// The ledger's description.
    pub fn icrc7_description(&self) -> (r: Option<String>)
        ensures
            r == self.icrc7_description,
    {
        match &self.icrc7_description {
            Some(s) => Some(s.clone()),
            None => None,
        }
    }

    /// The ledger's logo.
    pub fn icrc7_logo(&self) -> (r: Option<String>)
        ensures
            r == self.icrc7_logo,
    {
        match &self.icrc7_logo {
            Some(s) => Some(s.clone()),
            None => None,
        }
    }

    /// The number of live tokens.
    pub fn icrc7_total_supply(&self) -> (r: u128)
        ensures
            r as int == self.tokens@.len(),
    {
        self.tokens.len() as u128
    }

    /// The supply cap, if one is configured.
    pub fn icrc7_supply_cap(&self) -> (r: Option<u128>)
        ensures
            r == self.icrc7_supply_cap,
    {
        self.icrc7_supply_cap
    }

    /// The query batch limit, if one is configured.
    pub fn icrc7_max_query_batch_size(&self) -> (r: Option<u16>)
        ensures
            r == self.icrc7_max_query_batch_size,
    {
        self.icrc7_max_query_batch_size
    }

    /// The update batch limit, if one is configured.
    pub fn icrc7_max_update_batch_size(&self) -> (r: Option<u16>)
        ensures
            r == self.icrc7_max_update_batch_size,
    {
        self.icrc7_max_update_batch_size
    }

    /// The default page size of enumeration queries.
    pub fn icrc7_default_take_value(&self) -> (r: Option<u128>)
        ensures
            r == self.icrc7_default_take_value,
    {
        self.icrc7_default_take_value
    }

    /// The largest page size of enumeration queries.
    pub fn icrc7_max_take_value(&self) -> (r: Option<u128>)
        ensures
            r == self.icrc7_max_take_value,
    {
        self.icrc7_max_take_value
    }

    /// The memo size limit, if one is configured.
    pub fn icrc7_max_memo_size(&self) -> (r: Option<u32>)
        ensures
            r == self.icrc7_max_memo_size,
    {
        self.icrc7_max_memo_size
    }

    /// Whether batches are all-or-nothing.
    pub fn icrc7_atomic_batch_transfers(&self) -> (r: Option<bool>)
        ensures
            r == self.icrc7_atomic_batch_transfers,
    {
        self.icrc7_atomic_batch_transfers
    }

    /// The minting authority's account.
    pub fn icrc7_minting_authority(&self) -> (r: Option<Account>)
        ensures
            match r {
                Some(a) => self.minting_authority_v() == Some(a@),
                None => self.minting_authority_v() is None,
            },
    {
        match &self.minting_authority {
            Some(a) => Some(a.copy()),
            None => None,
        }
    }

    /// The owners of the named tokens, slot by slot.
    pub fn icrc7_owner_of(&self, ids: &Vec<u128>) -> (r: Vec<Option<Account>>)
        requires
            self.wf(),
        ensures
            r@.len() == ids@.len(),
            forall|i: int|
                0 <= i < ids@.len() ==> match #[trigger] r@[i] {
                    Some(a) => self.tokens.has_id(ids@[i]) && a@ == self.tokens.token_at(
                        ids@[i],
                    ).owner,
                    None => !self.tokens.has_id(ids@[i]),
                },
    {
        let mut r: Vec<Option<Account>> = Vec::new();
        let mut i: usize = 0;
        while i < ids.len()
            invariant
                self.wf(),
                i <= ids@.len(),
                r@.len() == i,
                forall|j: int|
                    0 <= j < i ==> match #[trigger] r@[j] {
                        Some(a) => self.tokens.has_id(ids@[j]) && a@ == self.tokens.token_at(
                            ids@[j],
                        ).owner,
                        None => !self.tokens.has_id(ids@[j]),
                    },
            decreases ids.len() - i,
        {
            r.push(self.tokens.owner_of(ids[i]));
            i = i + 1;
        }
        r
    }

    /// The number of tokens each named account owns; accounts are
    /// normalized first.
    pub fn icrc7_balance_of(&self, accounts: &Vec<Account>) -> (r: Vec<u128>)
        ensures
            r@.len() == accounts@.len(),
            forall|i: int|
                0 <= i < accounts@.len() ==> #[trigger] r@[i] as int == crate::token::owned_ids(
                    self.tokens@,
                    accounts@[i]@.normalized(),
                ).len(),
    {
        let mut r: Vec<u128> = Vec::new();
        let mut i: usize = 0;
        while i < accounts.len()
            invariant
                i <= accounts@.len(),
                r@.len() == i,
                forall|j: int|
                    0 <= j < i ==> #[trigger] r@[j] as int == crate::token::owned_ids(
                        self.tokens@,
                        accounts@[j]@.normalized(),
                    ).len(),
            decreases accounts.len() - i,
        {
            let a = crate::account::account_transformer(accounts[i].copy());
            r.push(self.tokens.balance_of(&a));
            i = i + 1;
        }
        r
    }

    /// The page size an enumeration query actually serves.
    pub open spec fn effective_take(self, take: Option<u128>) -> int {
        let asked = match take {
            Some(t) => t as int,
            None => match self.icrc7_default_take_value {
                Some(d) => d as int,
                None => 100,
            },
        };
        let cap = match self.icrc7_max_take_value {
            Some(m) => m as int,
            None => 1000,
        };
        if asked > cap {
            cap
        } else {
            asked
        }
    }

    /// The page size an enumeration query serves, clamped to what fits an
    /// in-memory page.
    pub open spec fn clamped_take(self, take: Option<u128>) -> int {
        if self.effective_take(take) > usize::MAX as int {
            usize::MAX as int
        } else if self.effective_take(take) < 0 {
            0
        } else {
            self.effective_take(take)
        }
    }

    /// Computes the page size an enumeration query serves.
    fn take_of(&self, take: Option<u128>) -> (r: usize)
        ensures
            r as int == if self.effective_take(take) > usize::MAX as int {
                usize::MAX as int
            } else if self.effective_take(take) < 0 {
                0
            } else {
                self.effective_take(take)
            },
    {
        let asked: u128 = match take {
            Some(t) => t,
            None => match self.icrc7_default_take_value {
                Some(d) => d,
                None => 100,
            },
        };
        let cap: u128 = match self.icrc7_max_take_value {
            Some(m) => m,
            None => 1000,
        };
        let eff: u128 = if asked > cap {
            cap
        } else {
            asked
        };
        if eff > usize::MAX as u128 {
            usize::MAX
        } else {
            eff as usize
        }
    }

    /// The live token ids above `prev`, in ascending id order, one page at a
    /// time.
    pub fn icrc7_tokens(&self, prev: Option<u128>, take: Option<u128>) -> (r: Vec<u128>)
        requires
            self.wf(),
        ensures
            r@ == crate::token::page_of(self.tokens@, None, prev, self.clamped_take(take)),
    {
        let t = self.take_of(take);
        let r = self.tokens.page(None, prev, t);
        proof {
            assert(r@ == crate::token::page_of(self.tokens@, None, prev, t as int));
        }
        r
    }

    /// One account's token ids above `prev`, in ascending id order, one page
    /// at a time; the account is normalized first.
    pub fn icrc7_tokens_of(&self, account: Account, prev: Option<u128>, take: Option<u128>) -> (r:
        Vec<u128>)
        requires
            self.wf(),
        ensures
            r@ == crate::token::page_of(
                self.tokens@,
                Some(account@.normalized()),
                prev,
                self.clamped_take(take),
            ),
    {
        let t = self.take_of(take);
        let a = crate::account::account_transformer(account);
        let r = self.tokens.page(Some(&a), prev, t);
        proof {
            assert(r@ == crate::token::page_of(
                self.tokens@,
                Some(account@.normalized()),
                prev,
                t as int,
            ));
        }
        r
    }

    /// The metadata of the named tokens, slot by slot.
    pub fn icrc7_token_metadata(&self, token_ids: &Vec<u128>) -> (r: Vec<Option<Vec<Entry>>>)
        requires
            self.wf(),
        ensures
            r@.len() == token_ids@.len(),
            forall|i: int|
                0 <= i < token_ids@.len() ==> match #[trigger] r@[i] {
                    Some(m) => self.tokens.has_id(token_ids@[i]) && view_entries(m@)
                        == self.tokens.token_at(token_ids@[i]).metadata,
                    None => !self.tokens.has_id(token_ids@[i]),
                },
    {
        let mut r: Vec<Option<Vec<Entry>>> = Vec::new();
        let mut i: usize = 0;
        while i < token_ids.len()
            invariant
                self.wf(),
                i <= token_ids@.len(),
                r@.len() == i,
                forall|j: int|
                    0 <= j < i ==> match #[trigger] r@[j] {
                        Some(m) => self.tokens.has_id(token_ids@[j]) && view_entries(m@)
                            == self.tokens.token_at(token_ids@[j]).metadata,
                        None => !self.tokens.has_id(token_ids@[j]),
                    },
            decreases token_ids.len() - i,
        {
            match self.tokens.get(token_ids[i]) {
                Some(t) => {
                    r.push(Some(t.token_metadata));
                },
                None => {
                    r.push(None);
                },
            }
            i = i + 1;
        }
        r
    }

    /// One page of the live transaction log.
    pub fn icrc7_txn_logs(&self, page_number: u32, page_size: u32) -> (r: Vec<Transaction>)
        requires
            self.wf(),
        ensures
            r@.len() == crate::log::range_size(
                self.log,
                (page_number as u128 * page_size as u128) as u128,
                page_size as u128,
            ),
            forall|i: int|
                0 <= i < r@.len() ==> #[trigger] r@[i]@ == self.log.history@[
                    crate::log::range_lo(self.log, (page_number as u128 * page_size as u128) as u128) + i
                ],
    {
        proof {
            vstd::arithmetic::mul::lemma_mul_upper_bound(
                page_number as int,
                u32::MAX as int,
                page_size as int,
                u32::MAX as int,
            );
        }
        let start: u128 = page_number as u128 * page_size as u128;
        self.log.range(start, page_size as u128)
    }

    /// The standards this ledger implements, named with their documents.
    pub fn icrc7_supported_standards(&self) -> (r: Vec<Standard>)
        ensures
            r@.len() == 4,
            r@[0].name@ == "ICRC-7"@,
            r@[1].name@ == "ICRC-10"@,
            r@[2].name@ == "ICRC-37"@,
            r@[3].name@ == "ICRC-3"@,
            r@[0].url@ == "https://github.com/dfinity/ICRC/tree/main/ICRCs/ICRC-7"@,
            r@[1].url@ == "https://github.com/dfinity/ICRC/tree/main/ICRCs/ICRC-10"@,
            r@[2].url@ == "https://github.com/dfinity/ICRC/tree/main/ICRCs/ICRC-37"@,
            r@[3].url@ == "https://github.com/dfinity/ICRC/tree/main/ICRCs/ICRC-3"@,
    {
        let mut r: Vec<Standard> = Vec::new();
        r.push(
            Standard {
                name: "ICRC-7".to_owned(),
                url: "https://github.com/dfinity/ICRC/tree/main/ICRCs/ICRC-7".to_owned(),
            },
        );
        r.push(
            Standard {
                name: "ICRC-10".to_owned(),
                url: "https://github.com/dfinity/ICRC/tree/main/ICRCs/ICRC-10".to_owned(),
            },
        );
        r.push(
            Standard {
                name: "ICRC-37".to_owned(),
                url: "https://github.com/dfinity/ICRC/tree/main/ICRCs/ICRC-37".to_owned(),
            },
        );
        r.push(
            Standard {
                name: "ICRC-3".to_owned(),
                url: "https://github.com/dfinity/ICRC/tree/main/ICRCs/ICRC-3".to_owned(),
            },
        );
        r
    }

    /// The most recent block's content hash, for external verification.
    pub fn txn_log_latest_hash(&self) -> (r: Vec<u8>)
        ensures
            self.wf() ==> r@ == crate::log::chain_hash(self.log.history@),
    {
        self.log.latest_hash()
    }

    /// The principal of the most recent archive instance, if any.
    pub fn get_archive_log_canister(&self) -> (r: Option<Vec<u8>>)
        ensures
            match r {
                Some(c) => self.archive_ledger_info.archives@.len() > 0 && c@
                    == self.archive_ledger_info.archives@.last().canister_id@,
                None => self.archive_ledger_info.archives@.len() == 0,
            },
    {
        let n = self.archive_ledger_info.archives.len();
        if n == 0 {
            None
        } else {
            Some(crate::value::copy_bytes(&self.archive_ledger_info.archives[n - 1].canister_id))
        }
    }
}

} // verus!

verus! {

/// One per-item argument of a transfer batch.
pub struct TransferArg {
    pub from_subaccount: Option<Vec<u8>>,
    pub to: Account,
    pub token_id: u128,
    pub memo: Option<Vec<u8>>,
    pub created_at_time: Option<u64>,
}

/// One per-item argument of a mint batch.
pub struct MintArg {
    pub from_subaccount: Option<Vec<u8>>,
    pub to: Account,
    pub token_id: u128,
    pub memo: Option<Vec<u8>>,
    pub token_metadata: Vec<Entry>,
}

/// One per-item argument of a burn batch.
pub struct BurnArg {
    pub from_subaccount: Option<Vec<u8>>,
    pub token_id: u128,
    pub memo: Option<Vec<u8>>,
}

/// The grant named by an approval operation.
pub struct ApprovalInfo {
    pub from_subaccount: Option<Vec<u8>>,
    pub spender: Account,
    pub memo: Option<Vec<u8>>,
    pub expires_at: Option<u64>,
    pub created_at_time: Option<u64>,
}

impl ApprovalInfo {
    /// Builds a grant.
    pub fn new(
        from_subaccount: Option<Vec<u8>>,
        spender: Account,
        memo: Option<Vec<u8>>,
        expires_at: Option<u64>,
        created_at_time: Option<u64>,
    ) -> (r: ApprovalInfo)
        ensures
            r.from_subaccount == from_subaccount,
            r.spender == spender,
            r.memo == memo,
            r.expires_at == expires_at,
            r.created_at_time == created_at_time,
    {
        ApprovalInfo { from_subaccount, spender, memo, expires_at, created_at_time }
    }
}

/// One per-item argument of a token-approval batch.
pub struct ApproveTokenArg {
    pub token_id: u128,
    pub approval_info: ApprovalInfo,
}

/// One per-item argument of a collection-approval batch.
pub struct ApproveCollectionArg {
    pub approval_info: ApprovalInfo,
}

/// One per-item argument of a token-approval revocation batch.
pub struct RevokeTokenApprovalArg {
    pub from_subaccount: Option<Vec<u8>>,
    pub token_id: u128,
    pub spender: Option<Account>,
    pub memo: Option<Vec<u8>>,
}

/// One per-item argument of a collection-approval revocation batch.
pub struct RevokeCollectionApprovalArg {
    pub from_subaccount: Option<Vec<u8>>,
    pub spender: Option<Account>,
    pub memo: Option<Vec<u8>>,
}

/// One per-item argument of a transfer-from batch.
pub struct TransferFromArg {
    pub spender_subaccount: Option<Vec<u8>>,
    pub from: Account,
    pub to: Account,
    pub token_id: u128,
    pub memo: Option<Vec<u8>>,
    pub created_at_time: Option<u64>,
}

/// Whether a logged transaction is a replay target of a request with these
/// fields: operation, endpoints, token, memo and creation time all equal.
pub open spec fn dup_match(
    tx: TransactionV,
    op: Seq<char>,
    from: AccountV,
    to: AccountV,
    token_id: u128,
    memo: Option<Seq<u8>>,
    created: u64,
) -> bool {
    &&& tx.op == op
    &&& tx.from == Some(from)
    &&& tx.to == Some(to)
    &&& tx.token_id == Some(token_id)
    &&& tx.memo == memo
    &&& tx.created_at == Some(created)
}

/// The transaction index of the first replay target at or after `lo`.
pub open spec fn find_dup(
    hist: Seq<TransactionV>,
    lo: int,
    op: Seq<char>,
    from: AccountV,
    to: AccountV,
    token_id: u128,
    memo: Option<Seq<u8>>,
    created: u64,
) -> Option<u128>
    decreases hist.len() - lo,
{
    if lo < 0 || lo >= hist.len() {
        None
    } else if dup_match(hist[lo], op, from, to, token_id, memo, created) {
        Some(hist[lo].tid)
    } else {
        find_dup(hist, lo + 1, op, from, to, token_id, memo, created)
    }
}

/// A request that found no replay target still finds none after an
/// unrelated block, and finds a matching new block.
pub proof fn lemma_find_dup_push(
    hist: Seq<TransactionV>,
    lo: int,
    op: Seq<char>,
    from: AccountV,
    to: AccountV,
    token_id: u128,
    memo: Option<Seq<u8>>,
    created: u64,
    tx: TransactionV,
)
    requires
        0 <= lo <= hist.len(),
        find_dup(hist, lo, op, from, to, token_id, memo, created) is None,
    ensures
        find_dup(hist.push(tx), lo, op, from, to, token_id, memo, created) == if dup_match(
            tx,
            op,
            from,
            to,
            token_id,
            memo,
            created,
        ) {
            Some(tx.tid)
        } else {
            Option::<u128>::None
        },
    decreases hist.len() - lo,
{
    let h2 = hist.push(tx);
    if lo == hist.len() {
        assert(h2[lo] == tx);
        if !dup_match(tx, op, from, to, token_id, memo, created) {
            assert(find_dup(h2, lo + 1, op, from, to, token_id, memo, created) is None);
        }
    } else {
        assert(h2[lo] == hist[lo]);
        assert(!dup_match(hist[lo], op, from, to, token_id, memo, created));
        lemma_find_dup_push(hist, lo + 1, op, from, to, token_id, memo, created, tx);
    }
}

impl LedgerState {
    /// Scans the live log for a replay target of a request.
    fn find_dup_live(
        &self,
        op: &String,
        from: &Account,
        to: &Account,
        token_id: u128,
        memo: &Option<Vec<u8>>,
        created: u64,
    ) -> (r: Option<u128>)
        requires
            self.log.wf(),
        ensures
            r == find_dup(
                self.log.history@,
                self.log.first_index as int,
                op@,
                from@,
                to@,
                token_id,
                memo_view(memo),
                created,
            ),
    {
        let ghost hist = self.log.history@;
        let ghost fi = self.log.first_index as int;
        let mut i: usize = 0;
        while i < self.log.txns.len()
            invariant
                self.log.wf(),
                hist == self.log.history@,
                fi == self.log.first_index as int,
                i <= self.log.txns@.len(),
                find_dup(hist, fi, op@, from@, to@, token_id, memo_view(memo), created)
                    == find_dup(
                    hist,
                    fi + i,
                    op@,
                    from@,
                    to@,
                    token_id,
                    memo_view(memo),
                    created,
                ),
            decreases self.log.txns.len() - i,
        {
            let tx = &self.log.txns[i];
            proof {
                assert(tx@ == hist[fi + i]);
            }
            let op_eq = tx.op.eq(op);
            let from_eq = match &tx.from {
                Some(f) => f.same(from),
                None => false,
            };
            let to_eq = match &tx.to {
                Some(t) => t.same(to),
                None => false,
            };
            let tok_eq = match tx.token_id {
                Some(t) => t == token_id,
                None => false,
            };
            let memo_eq = match (&tx.memo, memo) {
                (Some(a), Some(b)) => crate::account::bytes_eq(a, b),
                (None, None) => true,
                _ => false,
            };
            let created_eq = match tx.created_at {
                Some(c) => c == created,
                None => false,
            };
            if op_eq && from_eq && to_eq && tok_eq && memo_eq && created_eq {
                assert(dup_match(hist[fi + i], op@, from@, to@, token_id, memo_view(memo), created));
                return Some(tx.tid);
            }
            proof {
                assert(!dup_match(
                    hist[fi + i],
                    op@,
                    from@,
                    to@,
                    token_id,
                    memo_view(memo),
                    created,
                ));
            }
            i = i + 1;
        }
        proof {
            assert(find_dup(hist, fi + i, op@, from@, to@, token_id, memo_view(memo), created)
                is None);
        }
        None
    }
}

/// The model of an optional memo, by reference.
pub open spec fn memo_view(m: &Option<Vec<u8>>) -> Option<Seq<u8>> {
    match m {
        Some(x) => Some(x@),
        None => None,
    }
}

/// A recipient account the ledger will store: a non-empty owner and, when a
/// subaccount is given, exactly 32 bytes of it.
pub open spec fn account_ok(a: AccountV) -> bool {
    &&& a.owner.len() > 0
    &&& (a.subaccount matches Some(s) ==> s.len() == 32)
}

/// Tests whether the ledger will store this account as an owner.
pub fn check_account_ok(a: &Account) -> (r: bool)
    ensures
        r == account_ok(a@),
{
    let sub_ok = match &a.subaccount {
        Some(s) => s.len() == 32,
        None => true,
    };
    a.owner.len() > 0 && sub_ok
}

/// One more appended record, saturating at the counter's bound.
pub open spec fn bumped_val(x: u128) -> u128 {
    if x == u128::MAX {
        u128::MAX
    } else {
        (x + 1) as u128
    }
}

/// The archival trigger's record counter after one committed item.
pub open spec fn counter_bumped(a: LedgerState, b: LedgerState) -> bool {
    b.archive_ledger_info.records_since_trigger == bumped_val(
        a.archive_ledger_info.records_since_trigger,
    )
}

/// The block a successful transfer appends, before its index is assigned.
pub open spec fn xfer_tx_v(
    op: Seq<char>,
    from: AccountV,
    to: AccountV,
    spender: Option<AccountV>,
    token_id: u128,
    memo: Option<Seq<u8>>,
    created: Option<u64>,
    now: u64,
) -> TransactionV {
    TransactionV {
        op,
        tid: 0,
        ts: now,
        from: Some(from),
        to: Some(to),
        spender,
        token_id: Some(token_id),
        exp: None,
        created_at: created,
        memo,
        meta: None,
    }
}

impl LedgerState {
    /// The error a transfer item gets, or nothing when it succeeds; the
    /// checks run in this order: the token must exist, the request must fall
    /// inside the dedup window and not replay a logged request, the caller
    /// must own the token, and the recipient must be another, well-formed
    /// account.
    pub open spec fn transfer_item_error(
        self,
        caller: Seq<u8>,
        a: TransferArg,
        now: u64,
    ) -> Option<LedgerErrorV> {
        let from = caller_account_v(caller, view_opt_sub(a.from_subaccount));
        let to = a.to@.normalized();
        if !self.tokens.has_id(a.token_id) {
            Some(LedgerErrorV::NotFound)
        } else if a.created_at_time matches Some(c) && self.too_old(c, now) {
            Some(LedgerErrorV::TooOld)
        } else if a.created_at_time matches Some(c) && self.created_in_future(c, now) {
            Some(LedgerErrorV::CreatedInFuture)
        } else if a.created_at_time matches Some(c) && find_dup(
            self.log.history@,
            self.log.first_index as int,
            "7xfer"@,
            from,
            to,
            a.token_id,
            view_opt_memo(a.memo),
            c,
        ) is Some {
            Some(
                LedgerErrorV::Duplicate {
                    duplicate_of: find_dup(
                        self.log.history@,
                        self.log.first_index as int,
                        "7xfer"@,
                        from,
                        to,
                        a.token_id,
                        view_opt_memo(a.memo),
                        a.created_at_time->Some_0,
                    )->Some_0,
                },
            )
        } else if self.tokens.token_at(a.token_id).owner != from {
            Some(LedgerErrorV::NotOwner)
        } else if to == from || !account_ok(a.to@) {
            Some(LedgerErrorV::InvalidRecipient)
        } else {
            None
        }
    }

    /// What a successful transfer leaves behind: the owner reassigned, the
    /// token's approvals cleared, one transfer block appended.
    pub open spec fn transfer_item_ok(
        self,
        post: LedgerState,
        caller: Seq<u8>,
        a: TransferArg,
        now: u64,
        tid: u128,
    ) -> bool {
        let from = caller_account_v(caller, view_opt_sub(a.from_subaccount));
        let to = a.to@.normalized();
        &&& tid as int == self.log.logical_len()
        &&& post.log.history@ == self.log.history@.push(
            crate::log::with_tid(
                xfer_tx_v(
                    "7xfer"@,
                    from,
                    to,
                    None,
                    a.token_id,
                    view_opt_memo(a.memo),
                    a.created_at_time,
                    now,
                ),
                tid,
            ),
        )
        &&& post.log.first_index == self.log.first_index
        &&& post.tokens@ == self.tokens@.update(
            self.tokens.index_of(a.token_id),
            TokenV { owner: to, ..self.tokens.token_at(a.token_id) },
        )
        &&& post.approvals.token_approvals_of(a.token_id).len() == 0
        &&& forall|x: u128|
            x != a.token_id ==> post.approvals.token_approvals_of(x)
                == self.approvals.token_approvals_of(x)
        &&& post.approvals.collection_approvals == self.approvals.collection_approvals
        &&& post.burned_ids@ == self.burned_ids@
        &&& counter_bumped(self, post)
    }

    /// Executes one transfer item.
    fn transfer_item(&mut self, caller: &Vec<u8>, a: &TransferArg, now: u64) -> (r: Result<
        u128,
        LedgerError,
    >)
        requires
            old(self).wf(),
            old(self).log.logical_len() < u128::MAX as int,
        ensures
            final(self).wf(),
            final(self).same_config(*old(self)),
            match r {
                Ok(tid) => old(self).transfer_item_error(caller@, *a, now) is None && old(self).transfer_item_ok(*final(self), caller@, *a, now, tid),
                Err(e) => Some(e@) == old(self).transfer_item_error(caller@, *a, now) && final(self).same_stores(*old(self)),
            },
    {
        let from = caller_account(caller, &a.from_subaccount);
        let to = crate::account::account_transformer(a.to.copy());
        let owner = match self.tokens.owner_of(a.token_id) {
            Some(o) => o,
            None => {
                return Err(LedgerError::NotFound);
            },
        };
        match a.created_at_time {
            Some(c) => {
                let w = match self.tx_window {
                    Some(x) => x,
                    None => 24 * 60 * 60 * 1_000_000_000,
                };
                let d = match self.permitted_drift {
                    Some(x) => x,
                    None => 2 * 60 * 1_000_000_000,
                };
                if c < now && now - c > w as u64 && now - c - w > d {
                    proof {
                        assert(self.too_old(c, now));
                    }
                    return Err(LedgerError::TooOld);
                }
                proof {
                    assert(!self.too_old(c, now));
                }
                if c > now && c - now > d {
                    return Err(LedgerError::CreatedInFuture);
                }
                let op = "7xfer".to_owned();
                match self.find_dup_live(&op, &from, &to, a.token_id, &a.memo, c) {
                    Some(t) => {
                        return Err(LedgerError::Duplicate { duplicate_of: t });
                    },
                    None => {},
                }
            },
            None => {},
        }
        if !owner.same(&from) {
            return Err(LedgerError::NotOwner);
        }
        if to.same(&from) || !check_account_ok(&a.to) {
            return Err(LedgerError::InvalidRecipient);
        }
        proof {
            assert(to@.wf());
        }
        self.tokens.set_owner(a.token_id, &to);
        self.approvals.clear_token_approvals(a.token_id);
        let tx = Transaction {
            op: "7xfer".to_owned(),
            tid: 0,
            ts: now,
            from: Some(from),
            to: Some(to),
            spender: None,
            token_id: Some(a.token_id),
            exp: None,
            created_at: a.created_at_time,
            memo: match &a.memo {
                Some(m) => Some(crate::value::copy_bytes(m)),
                None => None,
            },
            meta: None,
        };
        let tid = self.log.append(tx);
        self.archive_ledger_info.note_append();
        proof {
            assert(self.wf()) by {
                assert(forall|i: int|
                    0 <= i < self.tokens@.len() ==> !self.burned_ids@.contains(
                        #[trigger] self.tokens@[i].token_id,
                    ));
                assert(forall|i: int|
                    0 <= i < self.tokens@.len() ==> (#[trigger] self.tokens@[i]).owner.wf());
            }
        }
        Ok(tid)
    }
}

} // verus!

verus! {

impl LedgerState {
    /// The per-token approval limit as the store applies it.
    pub open spec fn max_per_list(self) -> int {
        if self.approval_ledger_info.max_approvals_per_token_or_collection > usize::MAX as u128 {
            usize::MAX as int
        } else {
            self.approval_ledger_info.max_approvals_per_token_or_collection as int
        }
    }

    /// The settle-to approval count as the store applies it.
    pub open spec fn settle_per_list(self) -> int {
        if self.approval_ledger_info.settle_to_approvals > usize::MAX as u128 {
            usize::MAX as int
        } else {
            self.approval_ledger_info.settle_to_approvals as int
        }
    }

    /// Computes the per-list approval limits.
    fn limits(&self) -> (r: (usize, usize))
        ensures
            r.0 as int == self.max_per_list(),
            r.1 as int == self.settle_per_list(),
    {
        let max: usize = if self.approval_ledger_info.max_approvals_per_token_or_collection
            > usize::MAX as u128 {
            usize::MAX
        } else {
            self.approval_ledger_info.max_approvals_per_token_or_collection as usize
        };
        let settle: usize = if self.approval_ledger_info.settle_to_approvals
            > usize::MAX as u128 {
            usize::MAX
        } else {
            self.approval_ledger_info.settle_to_approvals as usize
        };
        (max, settle)
    }

    /// Whether a memo oversteps the configured size limit.
    pub open spec fn memo_too_large(self, memo: Option<Seq<u8>>) -> bool {
        self.icrc7_max_memo_size matches Some(mx) && memo matches Some(m) && m.len() > mx
    }

    /// Tests a memo against the configured size limit.
    fn check_memo(&self, memo: &Option<Vec<u8>>) -> (r: bool)
        ensures
            r == self.memo_too_large(memo_view(memo)),
    {
        match (self.icrc7_max_memo_size, memo) {
            (Some(mx), Some(m)) => m.len() > mx as usize && m.len() as u32 > mx || m.len()
                > u32::MAX as usize,
            _ => false,
        }
    }

    /// The error a mint item gets, or nothing when it succeeds: only the
    /// minting authority mints, the supply cap binds, an id ever minted
    /// (live or retired) is never minted again, and the recipient must be
    /// well-formed. The caller is modelled as its principal under the
    /// default subaccount, so an authority configured with another
    /// subaccount authorizes no mint.
    pub open spec fn mint_item_error(
        self,
        caller: Seq<u8>,
        a: MintArg,
        now: u64,
    ) -> Option<LedgerErrorV> {
        if self.minting_authority_v() != Some(caller_account_v(caller, None)) {
            Some(LedgerErrorV::NotAuthorized)
        } else if self.icrc7_supply_cap matches Some(cap) && self.tokens@.len() >= cap {
            Some(LedgerErrorV::SupplyCapExceeded)
        } else if self.minted_ever(a.token_id) {
            Some(LedgerErrorV::DuplicateId)
        } else if !account_ok(a.to@) {
            Some(LedgerErrorV::InvalidRecipient)
        } else {
            None
        }
    }

    /// What a successful mint leaves behind: the record created under its
    /// owner, one mint block appended.
    pub open spec fn mint_item_ok(
        self,
        post: LedgerState,
        caller: Seq<u8>,
        a: MintArg,
        now: u64,
        tid: u128,
    ) -> bool {
        let to = a.to@.normalized();
        &&& tid as int == self.log.logical_len()
        &&& post.log.history@ == self.log.history@.push(
            crate::log::with_tid(
                TransactionV {
                    op: "7mint"@,
                    tid: 0,
                    ts: now,
                    from: None,
                    to: Some(to),
                    spender: None,
                    token_id: Some(a.token_id),
                    exp: None,
                    created_at: None,
                    memo: view_opt_memo(a.memo),
                    meta: Some(view_entries(a.token_metadata@)),
                },
                tid,
            ),
        )
        &&& post.log.first_index == self.log.first_index
        &&& post.tokens@.len() == self.tokens@.len() + 1
        &&& post.tokens.has_id(a.token_id)
        &&& post.tokens.token_at(a.token_id) == (TokenV {
            token_id: a.token_id,
            owner: to,
            metadata: view_entries(a.token_metadata@),
        })
        &&& forall|x: u128|
            post.tokens.has_id(x) <==> (self.tokens.has_id(x) || x == a.token_id)
        &&& forall|x: u128|
            self.tokens.has_id(x) ==> post.tokens.token_at(x) == self.tokens.token_at(x)
        &&& tok_entries_view(post.approvals) == tok_entries_view(self.approvals)
        &&& post.approvals.collection_approvals == self.approvals.collection_approvals
        &&& post.burned_ids@ == self.burned_ids@
        &&& counter_bumped(self, post)
    }

    /// Executes one mint item.
    fn mint_item(&mut self, caller: &Vec<u8>, a: &MintArg, now: u64) -> (r: Result<
        u128,
        LedgerError,
    >)
        requires
            old(self).wf(),
            old(self).log.logical_len() < u128::MAX as int,
            old(self).tokens@.len() < usize::MAX,
        ensures
            final(self).wf(),
            final(self).same_config(*old(self)),
            match r {
                Ok(tid) => old(self).mint_item_error(caller@, *a, now) is None && old(self).mint_item_ok(*final(self), caller@, *a, now, tid),
                Err(e) => Some(e@) == old(self).mint_item_error(caller@, *a, now) && final(self).same_stores(*old(self)),
            },
    {
        let caller_acct = caller_account(caller, &None);
        let authorized = match &self.minting_authority {
            Some(m) => m.same(&caller_acct),
            None => false,
        };
        if !authorized {
            return Err(LedgerError::NotAuthorized);
        }
        match self.icrc7_supply_cap {
            Some(cap) => {
                if self.tokens.len() as u128 >= cap {
                    return Err(LedgerError::SupplyCapExceeded);
                }
            },
            None => {},
        }
        let retired = contains_id(&self.burned_ids, a.token_id);
        let to = crate::account::account_transformer(a.to.copy());
        if !check_account_ok(&a.to) {
            if self.tokens.find(a.token_id).is_some() || retired {
                return Err(LedgerError::DuplicateId);
            }
            return Err(LedgerError::InvalidRecipient);
        }
        if retired {
            return Err(LedgerError::DuplicateId);
        }
        let t = Icrc7Token {
            token_id: a.token_id,
            token_owner: to,
            token_metadata: crate::value::copy_entries(&a.token_metadata),
        };
        proof {
            assert(t@.owner.wf());
        }
        match self.tokens.insert(t) {
            Ok(()) => {},
            Err(e) => {
                return Err(e);
            },
        }
        let tx = Transaction {
            op: "7mint".to_owned(),
            tid: 0,
            ts: now,
            from: None,
            to: Some(crate::account::account_transformer(a.to.copy())),
            spender: None,
            token_id: Some(a.token_id),
            exp: None,
            created_at: None,
            memo: match &a.memo {
                Some(m) => Some(crate::value::copy_bytes(m)),
                None => None,
            },
            meta: Some(crate::value::copy_entries(&a.token_metadata)),
        };
        let tid = self.log.append(tx);
        self.archive_ledger_info.note_append();
        proof {
            assert forall|i: int|
                0 <= i < self.tokens@.len() implies !self.burned_ids@.contains(
                #[trigger] self.tokens@[i].token_id,
            ) by {
                assert(self.tokens.has_id(self.tokens@[i].token_id));
            }
        }
        Ok(tid)
    }

    /// The error a burn item gets, or nothing when it succeeds: the caller
    /// must own the token.
    pub open spec fn burn_item_error(
        self,
        caller: Seq<u8>,
        a: BurnArg,
        now: u64,
    ) -> Option<LedgerErrorV> {
        let from = caller_account_v(caller, view_opt_sub(a.from_subaccount));
        if !self.tokens.has_id(a.token_id) {
            Some(LedgerErrorV::NotFound)
        } else if self.tokens.token_at(a.token_id).owner != from {
            Some(LedgerErrorV::NotOwner)
        } else {
            None
        }
    }

    /// What a successful burn leaves behind: the record gone, its id
    /// retired forever, its approvals removed, one burn block appended.
    pub open spec fn burn_item_ok(
        self,
        post: LedgerState,
        caller: Seq<u8>,
        a: BurnArg,
        now: u64,
        tid: u128,
    ) -> bool {
        let from = caller_account_v(caller, view_opt_sub(a.from_subaccount));
        &&& tid as int == self.log.logical_len()
        &&& post.log.history@ == self.log.history@.push(
            crate::log::with_tid(
                TransactionV {
                    op: "7burn"@,
                    tid: 0,
                    ts: now,
                    from: Some(from),
                    to: None,
                    spender: None,
                    token_id: Some(a.token_id),
                    exp: None,
                    created_at: None,
                    memo: view_opt_memo(a.memo),
                    meta: None,
                },
                tid,
            ),
        )
        &&& post.log.first_index == self.log.first_index
        &&& post.tokens@.len() + 1 == self.tokens@.len()
        &&& forall|x: u128| post.tokens.has_id(x) <==> (self.tokens.has_id(x) && x != a.token_id)
        &&& forall|x: u128|
            post.tokens.has_id(x) ==> post.tokens.token_at(x) == self.tokens.token_at(x)
        &&& post.approvals.token_approvals_of(a.token_id).len() == 0
        &&& forall|x: u128|
            x != a.token_id ==> post.approvals.token_approvals_of(x)
                == self.approvals.token_approvals_of(x)
        &&& post.approvals.collection_approvals == self.approvals.collection_approvals
        &&& post.burned_ids@ == self.burned_ids@.push(a.token_id)
        &&& counter_bumped(self, post)
    }

    /// Executes one burn item.
    fn burn_item(&mut self, caller: &Vec<u8>, a: &BurnArg, now: u64) -> (r: Result<
        u128,
        LedgerError,
    >)
        requires
            old(self).wf(),
            old(self).log.logical_len() < u128::MAX as int,
            old(self).burned_ids@.len() < usize::MAX,
        ensures
            final(self).wf(),
            final(self).same_config(*old(self)),
            match r {
                Ok(tid) => old(self).burn_item_error(caller@, *a, now) is None && old(self).burn_item_ok(*final(self), caller@, *a, now, tid),
                Err(e) => Some(e@) == old(self).burn_item_error(caller@, *a, now) && final(self).same_stores(*old(self)),
            },
    {
        let from = caller_account(caller, &a.from_subaccount);
        let owner = match self.tokens.owner_of(a.token_id) {
            Some(o) => o,
            None => {
                return Err(LedgerError::NotFound);
            },
        };
        if !owner.same(&from) {
            return Err(LedgerError::NotOwner);
        }
        let removed = match self.tokens.remove(a.token_id) {
            Ok(t) => t,
            Err(e) => {
                proof {
                    assert(false);
                }
                return Err(e);
            },
        };
        self.approvals.clear_token_approvals(a.token_id);
        self.burned_ids.push(a.token_id);
        let tx = Transaction {
            op: "7burn".to_owned(),
            tid: 0,
            ts: now,
            from: Some(from),
            to: None,
            spender: None,
            token_id: Some(a.token_id),
            exp: None,
            created_at: None,
            memo: match &a.memo {
                Some(m) => Some(crate::value::copy_bytes(m)),
                None => None,
            },
            meta: None,
        };
        let tid = self.log.append(tx);
        self.archive_ledger_info.note_append();
        proof {
            assert forall|i: int|
                0 <= i < self.tokens@.len() implies !self.burned_ids@.contains(
                #[trigger] self.tokens@[i].token_id,
            ) by {
                assert(self.tokens.has_id(self.tokens@[i].token_id));
                assert(old(self).tokens.has_id(self.tokens@[i].token_id));
                assert(self.tokens@[i].token_id != a.token_id);
                assert(!old(self).burned_ids@.contains(self.tokens@[i].token_id));
                assert(self.burned_ids@ == old(self).burned_ids@.push(a.token_id));
            }
            assert forall|i: int|
                0 <= i < self.tokens@.len() implies (#[trigger] self.tokens@[i]).owner.wf() by {
                assert(self.tokens.has_id(self.tokens@[i].token_id));
                assert(self.tokens.token_at(self.tokens@[i].token_id) == old(self).tokens.token_at(
                    self.tokens@[i].token_id,
                ));
                let w = old(self).tokens.index_of(self.tokens@[i].token_id);
                assert(old(self).tokens@[w].owner.wf());
                assert(self.tokens.index_of(self.tokens@[i].token_id) == i) by {
                    let u = self.tokens.index_of(self.tokens@[i].token_id);
                    if u != i {
                        assert(self.tokens@[u].token_id != self.tokens@[i].token_id);
                    }
                }
            }
        }
        Ok(tid)
    }
}

/// Whether a vector of ids holds this id.
pub fn contains_id(v: &Vec<u128>, id: u128) -> (r: bool)
    ensures
        r == v@.contains(id),
{
    let mut i: usize = 0;
    while i < v.len()
        invariant
            i <= v@.len(),
            forall|j: int| 0 <= j < i ==> v@[j] != id,
        decreases v.len() - i,
    {
        if v[i] == id {
            return true;
        }
        i = i + 1;
    }
    proof {
        if v@.contains(id) {
            let w = choose|j: int| 0 <= j < v@.len() && v@[j] == id;
        }
    }
    false
}

} // verus!

verus! {

impl LedgerState {
    /// The error a transfer-from item gets, or nothing when it succeeds:
    /// after the transfer checks, the caller (as spender) must be the
    /// owner, or hold a live token-level approval, or a live
    /// collection-level approval from the owner; a consumed or expired
    /// approval authorizes nothing.
    pub open spec fn transfer_from_item_error(
        self,
        caller: Seq<u8>,
        a: TransferFromArg,
        now: u64,
    ) -> Option<LedgerErrorV> {
        let spender = caller_account_v(caller, view_opt_sub(a.spender_subaccount));
        let from = a.from@.normalized();
        let to = a.to@.normalized();
        if !self.tokens.has_id(a.token_id) {
            Some(LedgerErrorV::NotFound)
        } else if a.created_at_time matches Some(c) && self.too_old(c, now) {
            Some(LedgerErrorV::TooOld)
        } else if a.created_at_time matches Some(c) && self.created_in_future(c, now) {
            Some(LedgerErrorV::CreatedInFuture)
        } else if a.created_at_time matches Some(c) && find_dup(
            self.log.history@,
            self.log.first_index as int,
            "37xfer"@,
            from,
            to,
            a.token_id,
            view_opt_memo(a.memo),
            c,
        ) is Some {
            Some(
                LedgerErrorV::Duplicate {
                    duplicate_of: find_dup(
                        self.log.history@,
                        self.log.first_index as int,
                        "37xfer"@,
                        from,
                        to,
                        a.token_id,
                        view_opt_memo(a.memo),
                        a.created_at_time->Some_0,
                    )->Some_0,
                },
            )
        } else if !self.approvals.authorized(a.token_id, from, spender, now) {
            Some(LedgerErrorV::NotAuthorized)
        } else if self.tokens.token_at(a.token_id).owner != from {
            Some(LedgerErrorV::NotOwner)
        } else if to == from || !account_ok(a.to@) {
            Some(LedgerErrorV::InvalidRecipient)
        } else {
            None
        }
    }

    /// What a successful transfer-from leaves behind: like a transfer, and
    /// the ownership change consumes every token-level approval; the
    /// owner's collection approvals stay.
    pub open spec fn transfer_from_item_ok(
        self,
        post: LedgerState,
        caller: Seq<u8>,
        a: TransferFromArg,
        now: u64,
        tid: u128,
    ) -> bool {
        let spender = caller_account_v(caller, view_opt_sub(a.spender_subaccount));
        let from = a.from@.normalized();
        let to = a.to@.normalized();
        &&& tid as int == self.log.logical_len()
        &&& post.log.history@ == self.log.history@.push(
            crate::log::with_tid(
                xfer_tx_v(
                    "37xfer"@,
                    from,
                    to,
                    Some(spender),
                    a.token_id,
                    view_opt_memo(a.memo),
                    a.created_at_time,
                    now,
                ),
                tid,
            ),
        )
        &&& post.log.first_index == self.log.first_index
        &&& post.tokens@ == self.tokens@.update(
            self.tokens.index_of(a.token_id),
            TokenV { owner: to, ..self.tokens.token_at(a.token_id) },
        )
        &&& post.approvals.token_approvals_of(a.token_id).len() == 0
        &&& forall|x: u128|
            x != a.token_id ==> post.approvals.token_approvals_of(x)
                == self.approvals.token_approvals_of(x)
        &&& coll_entries_view(post.approvals) == coll_entries_view(self.approvals)
        &&& post.burned_ids@ == self.burned_ids@
        &&& counter_bumped(self, post)
    }

    /// Executes one transfer-from item.
    fn transfer_from_item(&mut self, caller: &Vec<u8>, a: &TransferFromArg, now: u64) -> (r:
        Result<u128, LedgerError>)
        requires
            old(self).wf(),
            old(self).log.logical_len() < u128::MAX as int,
        ensures
            final(self).wf(),
            final(self).same_config(*old(self)),
            match r {
                Ok(tid) => old(self).transfer_from_item_error(caller@, *a, now) is None && old(self).transfer_from_item_ok(*final(self), caller@, *a, now, tid),
                Err(e) => Some(e@) == old(self).transfer_from_item_error(caller@, *a, now)
                    && final(self).same_stores(*old(self)),
            },
    {
        let spender = caller_account(caller, &a.spender_subaccount);
        let from = crate::account::account_transformer(a.from.copy());
        let to = crate::account::account_transformer(a.to.copy());
        if self.tokens.find(a.token_id).is_none() {
            return Err(LedgerError::NotFound);
        }
        match a.created_at_time {
            Some(c) => {
                let w = match self.tx_window {
                    Some(x) => x,
                    None => 24 * 60 * 60 * 1_000_000_000,
                };
                let d = match self.permitted_drift {
                    Some(x) => x,
                    None => 2 * 60 * 1_000_000_000,
                };
                if c < now && now - c > w as u64 && now - c - w > d {
                    proof {
                        assert(self.too_old(c, now));
                    }
                    return Err(LedgerError::TooOld);
                }
                proof {
                    assert(!self.too_old(c, now));
                }
                if c > now && c - now > d {
                    return Err(LedgerError::CreatedInFuture);
                }
                let op = "37xfer".to_owned();
                match self.find_dup_live(&op, &from, &to, a.token_id, &a.memo, c) {
                    Some(t) => {
                        return Err(LedgerError::Duplicate { duplicate_of: t });
                    },
                    None => {},
                }
            },
            None => {},
        }
        if !self.approvals.is_authorized(a.token_id, &from, &spender, now) {
            return Err(LedgerError::NotAuthorized);
        }
        let owner = match self.tokens.owner_of(a.token_id) {
            Some(o) => o,
            None => {
                proof {
                    assert(false);
                }
                return Err(LedgerError::NotFound);
            },
        };
        if !owner.same(&from) {
            return Err(LedgerError::NotOwner);
        }
        if to.same(&from) || !check_account_ok(&a.to) {
            return Err(LedgerError::InvalidRecipient);
        }
        proof {
            assert(to@.wf());
        }
        self.tokens.set_owner(a.token_id, &to);
        self.approvals.clear_token_approvals(a.token_id);
        let tx = Transaction {
            op: "37xfer".to_owned(),
            tid: 0,
            ts: now,
            from: Some(from),
            to: Some(to),
            spender: Some(spender),
            token_id: Some(a.token_id),
            exp: None,
            created_at: a.created_at_time,
            memo: match &a.memo {
                Some(m) => Some(crate::value::copy_bytes(m)),
                None => None,
            },
            meta: None,
        };
        let tid = self.log.append(tx);
        self.archive_ledger_info.note_append();
        proof {
            assert(self.wf()) by {
                assert(forall|i: int|
                    0 <= i < self.tokens@.len() ==> !self.burned_ids@.contains(
                        #[trigger] self.tokens@[i].token_id,
                    ));
                assert(forall|i: int|
                    0 <= i < self.tokens@.len() ==> (#[trigger] self.tokens@[i]).owner.wf());
            }
        }
        Ok(tid)
    }

    /// The error a token-approval item gets, or nothing when it succeeds:
    /// the caller must own the token, the expiry must lie ahead, the memo
    /// must fit, and the approval count limit must be satisfiable after
    /// eviction.
    pub open spec fn approve_token_item_error(
        self,
        caller: Seq<u8>,
        a: ApproveTokenArg,
        now: u64,
    ) -> Option<LedgerErrorV> {
        let owner_acct = caller_account_v(caller, view_opt_sub(a.approval_info.from_subaccount));
        if !self.tokens.has_id(a.token_id) {
            Some(LedgerErrorV::NotFound)
        } else if self.tokens.token_at(a.token_id).owner != owner_acct {
            Some(LedgerErrorV::NotOwner)
        } else if a.approval_info.expires_at matches Some(e) && e <= now {
            Some(LedgerErrorV::ExpiredApproval)
        } else if self.memo_too_large(view_opt_memo(a.approval_info.memo)) {
            Some(LedgerErrorV::MemoTooLarge)
        } else if crate::approvals::approve_outcome(
            self.approvals.token_approvals_of(a.token_id),
            self.approval_of(a.approval_info, now),
            now,
            self.max_per_list(),
            self.settle_per_list(),
        ) is Err {
            Some(LedgerErrorV::TooManyApprovals)
        } else {
            None
        }
    }

    /// The approval record a grant stores: the spender normalized, the
    /// creation time defaulting to `now`.
    pub open spec fn approval_of(self, info: ApprovalInfo, now: u64) -> ApprovalV {
        ApprovalV {
            spender: info.spender@.normalized(),
            expires_at: info.expires_at,
            created_at: match info.created_at_time {
                Some(c) => c,
                None => now,
            },
            memo: view_opt_memo(info.memo),
        }
    }

    /// Builds the approval record a grant stores.
    fn make_approval(&self, info: &ApprovalInfo, now: u64) -> (r: Approval)
        ensures
            r@ == self.approval_of(*info, now),
    {
        let r = Approval {
            spender: crate::account::account_transformer(info.spender.copy()),
            expires_at: info.expires_at,
            created_at: match info.created_at_time {
                Some(c) => c,
                None => now,
            },
            memo: match &info.memo {
                Some(m) => Some(crate::value::copy_bytes(m)),
                None => None,
            },
        };
        assert(r@ =~= self.approval_of(*info, now));
        r
    }

    /// What a successful token approval leaves behind: the pair's approval
    /// upserted under the eviction rules, one approval block appended.
    pub open spec fn approve_token_item_ok(
        self,
        post: LedgerState,
        caller: Seq<u8>,
        a: ApproveTokenArg,
        now: u64,
        tid: u128,
    ) -> bool {
        let owner_acct = caller_account_v(caller, view_opt_sub(a.approval_info.from_subaccount));
        &&& tid as int == self.log.logical_len()
        &&& post.log.history@ == self.log.history@.push(
            crate::log::with_tid(
                TransactionV {
                    op: "37appr"@,
                    tid: 0,
                    ts: now,
                    from: Some(owner_acct),
                    to: None,
                    spender: Some(a.approval_info.spender@.normalized()),
                    token_id: Some(a.token_id),
                    exp: a.approval_info.expires_at,
                    created_at: a.approval_info.created_at_time,
                    memo: view_opt_memo(a.approval_info.memo),
                    meta: None,
                },
                tid,
            ),
        )
        &&& post.log.first_index == self.log.first_index
        &&& post.tokens@ == self.tokens@
        &&& crate::approvals::approve_outcome(
            self.approvals.token_approvals_of(a.token_id),
            self.approval_of(a.approval_info, now),
            now,
            self.max_per_list(),
            self.settle_per_list(),
        ) == Ok::<_, ()>(post.approvals.token_approvals_of(a.token_id))
        &&& forall|x: u128|
            x != a.token_id ==> post.approvals.token_approvals_of(x)
                == self.approvals.token_approvals_of(x)
        &&& post.approvals.collection_approvals == self.approvals.collection_approvals
        &&& post.burned_ids@ == self.burned_ids@
        &&& counter_bumped(self, post)
    }

    /// Executes one token-approval item.
    fn approve_token_item(&mut self, caller: &Vec<u8>, a: &ApproveTokenArg, now: u64) -> (r:
        Result<u128, LedgerError>)
        requires
            old(self).wf(),
            old(self).log.logical_len() < u128::MAX as int,
            old(self).approvals.token_approvals@.len() < usize::MAX,
        ensures
            final(self).wf(),
            final(self).same_config(*old(self)),
            final(self).approvals.token_approvals@.len() <= old(self).approvals.token_approvals@.len() + 1,
            match r {
                Ok(tid) => old(self).approve_token_item_error(caller@, *a, now) is None && old(self).approve_token_item_ok(*final(self), caller@, *a, now, tid),
                Err(e) => Some(e@) == old(self).approve_token_item_error(caller@, *a, now) && (
                if e@ is TooManyApprovals {
                    &&& final(self).tokens@ == old(self).tokens@
                    &&& final(self).approvals.token_approvals_of(a.token_id)
                        == crate::approvals::approve_room(
                        old(self).approvals.token_approvals_of(a.token_id),
                        now,
                        old(self).max_per_list(),
                        old(self).settle_per_list(),
                    )
                    &&& forall|x: u128|
                        x != a.token_id ==> final(self).approvals.token_approvals_of(x) == old(self).approvals.token_approvals_of(x)
                    &&& final(self).approvals.collection_approvals == old(self).approvals.collection_approvals
                    &&& final(self).burned_ids@ == old(self).burned_ids@
                    &&& final(self).log.history@ == old(self).log.history@
                    &&& final(self).log.first_index == old(self).log.first_index
                    &&& final(self).log.latest_hash@ == old(self).log.latest_hash@
                    &&& final(self).archive_ledger_info.records_since_trigger == old(self).archive_ledger_info.records_since_trigger
                } else {
                    final(self).same_stores(*old(self))
                }),
            },
    {
        let owner_acct = caller_account(caller, &a.approval_info.from_subaccount);
        let owner = match self.tokens.owner_of(a.token_id) {
            Some(o) => o,
            None => {
                return Err(LedgerError::NotFound);
            },
        };
        if !owner.same(&owner_acct) {
            return Err(LedgerError::NotOwner);
        }
        match a.approval_info.expires_at {
            Some(e) => {
                if e <= now {
                    return Err(LedgerError::ExpiredApproval);
                }
            },
            None => {},
        }
        if self.check_memo(&a.approval_info.memo) {
            return Err(LedgerError::MemoTooLarge);
        }
        let approval = self.make_approval(&a.approval_info, now);
        let (max, settle) = self.limits();
        match self.approvals.approve_token(a.token_id, approval, now, max, settle) {
            Ok(()) => {},
            Err(e) => {
                return Err(e);
            },
        }
        let tx = Transaction {
            op: "37appr".to_owned(),
            tid: 0,
            ts: now,
            from: Some(owner_acct),
            to: None,
            spender: Some(crate::account::account_transformer(a.approval_info.spender.copy())),
            token_id: Some(a.token_id),
            exp: a.approval_info.expires_at,
            created_at: a.approval_info.created_at_time,
            memo: match &a.approval_info.memo {
                Some(m) => Some(crate::value::copy_bytes(m)),
                None => None,
            },
            meta: None,
        };
        let tid = self.log.append(tx);
        self.archive_ledger_info.note_append();
        proof {
            assert(self.wf()) by {
                assert(forall|i: int|
                    0 <= i < self.tokens@.len() ==> !self.burned_ids@.contains(
                        #[trigger] self.tokens@[i].token_id,
                    ));
                assert(forall|i: int|
                    0 <= i < self.tokens@.len() ==> (#[trigger] self.tokens@[i]).owner.wf());
            }
        }
        Ok(tid)
    }
}

} // verus!

verus! {

impl LedgerState {
    /// The error a collection-approval item gets, or nothing when it
    /// succeeds: where configured, the granting owner must own at least one
    /// token; the expiry must lie ahead, the memo must fit, and the limit
    /// must be satisfiable after eviction.
    pub open spec fn approve_collection_item_error(
        self,
        caller: Seq<u8>,
        a: ApproveCollectionArg,
        now: u64,
    ) -> Option<LedgerErrorV> {
        let owner_acct = caller_account_v(caller, view_opt_sub(a.approval_info.from_subaccount));
        if self.approval_ledger_info.collection_approval_requires_token
            && crate::token::owned_ids(self.tokens@, owner_acct).len() == 0 {
            Some(LedgerErrorV::NotOwner)
        } else if a.approval_info.expires_at matches Some(e) && e <= now {
            Some(LedgerErrorV::ExpiredApproval)
        } else if self.memo_too_large(view_opt_memo(a.approval_info.memo)) {
            Some(LedgerErrorV::MemoTooLarge)
        } else if crate::approvals::approve_outcome(
            self.approvals.collection_approvals_of(owner_acct),
            self.approval_of(a.approval_info, now),
            now,
            self.max_per_list(),
            self.settle_per_list(),
        ) is Err {
            Some(LedgerErrorV::TooManyApprovals)
        } else {
            None
        }
    }

    /// Executes one collection-approval item.
    fn approve_collection_item(
        &mut self,
        caller: &Vec<u8>,
        a: &ApproveCollectionArg,
        now: u64,
    ) -> (r: Result<u128, LedgerError>)
        requires
            old(self).wf(),
            old(self).log.logical_len() < u128::MAX as int,
            old(self).approvals.collection_approvals@.len() < usize::MAX,
        ensures
            final(self).wf(),
            final(self).same_config(*old(self)),
            final(self).approvals.collection_approvals@.len() <= old(self).approvals.collection_approvals@.len() + 1,
            match r {
                Ok(tid) => {
                    let owner_acct = caller_account_v(
                        caller@,
                        view_opt_sub(a.approval_info.from_subaccount),
                    );
                    &&& old(self).approve_collection_item_error(caller@, *a, now) is None
                    &&& tid as int == old(self).log.logical_len()
                    &&& final(self).log.history@ == old(self).log.history@.push(
                        crate::log::with_tid(
                            TransactionV {
                                op: "37appr_coll"@,
                                tid: 0,
                                ts: now,
                                from: Some(owner_acct),
                                to: None,
                                spender: Some(a.approval_info.spender@.normalized()),
                                token_id: None,
                                exp: a.approval_info.expires_at,
                                created_at: a.approval_info.created_at_time,
                                memo: view_opt_memo(a.approval_info.memo),
                                meta: None,
                            },
                            tid,
                        ),
                    )
                    &&& final(self).log.first_index == old(self).log.first_index
                    &&& final(self).tokens@ == old(self).tokens@
                    &&& crate::approvals::approve_outcome(
                        old(self).approvals.collection_approvals_of(owner_acct),
                        old(self).approval_of(a.approval_info, now),
                        now,
                        old(self).max_per_list(),
                        old(self).settle_per_list(),
                    ) == Ok::<_, ()>(final(self).approvals.collection_approvals_of(owner_acct))
                    &&& forall|x: AccountV|
                        x != owner_acct ==> final(self).approvals.collection_approvals_of(x)
                            == old(self).approvals.collection_approvals_of(x)
                    &&& final(self).approvals.token_approvals == old(self).approvals.token_approvals
                    &&& final(self).burned_ids@ == old(self).burned_ids@
                    &&& counter_bumped(*old(self), *final(self))
                },
                Err(e) => Some(e@) == old(self).approve_collection_item_error(caller@, *a, now)
                    && (if e@ is TooManyApprovals {
                    let owner_acct = caller_account_v(
                        caller@,
                        view_opt_sub(a.approval_info.from_subaccount),
                    );
                    &&& final(self).tokens@ == old(self).tokens@
                    &&& final(self).approvals.collection_approvals_of(owner_acct)
                        == crate::approvals::approve_room(
                        old(self).approvals.collection_approvals_of(owner_acct),
                        now,
                        old(self).max_per_list(),
                        old(self).settle_per_list(),
                    )
                    &&& forall|x: AccountV|
                        x != owner_acct ==> final(self).approvals.collection_approvals_of(x)
                            == old(self).approvals.collection_approvals_of(x)
                    &&& final(self).approvals.token_approvals == old(self).approvals.token_approvals
                    &&& final(self).burned_ids@ == old(self).burned_ids@
                    &&& final(self).log.history@ == old(self).log.history@
                    &&& final(self).log.first_index == old(self).log.first_index
                    &&& final(self).log.latest_hash@ == old(self).log.latest_hash@
                    &&& final(self).archive_ledger_info.records_since_trigger == old(self).archive_ledger_info.records_since_trigger
                } else {
                    final(self).same_stores(*old(self))
                }),
            },
    {
        let owner_acct = caller_account(caller, &a.approval_info.from_subaccount);
        if self.approval_ledger_info.collection_approval_requires_token {
            let bal = self.tokens.balance_of(&owner_acct);
            if bal == 0 {
                return Err(LedgerError::NotOwner);
            }
        }
        match a.approval_info.expires_at {
            Some(e) => {
                if e <= now {
                    return Err(LedgerError::ExpiredApproval);
                }
            },
            None => {},
        }
        if self.check_memo(&a.approval_info.memo) {
            return Err(LedgerError::MemoTooLarge);
        }
        let approval = self.make_approval(&a.approval_info, now);
        let (max, settle) = self.limits();
        match self.approvals.approve_collection(&owner_acct, approval, now, max, settle) {
            Ok(()) => {},
            Err(e) => {
                return Err(e);
            },
        }
        let tx = Transaction {
            op: "37appr_coll".to_owned(),
            tid: 0,
            ts: now,
            from: Some(owner_acct),
            to: None,
            spender: Some(crate::account::account_transformer(a.approval_info.spender.copy())),
            token_id: None,
            exp: a.approval_info.expires_at,
            created_at: a.approval_info.created_at_time,
            memo: match &a.approval_info.memo {
                Some(m) => Some(crate::value::copy_bytes(m)),
                None => None,
            },
            meta: None,
        };
        let tid = self.log.append(tx);
        self.archive_ledger_info.note_append();
        proof {
            assert(self.wf()) by {
                assert(forall|i: int|
                    0 <= i < self.tokens@.len() ==> !self.burned_ids@.contains(
                        #[trigger] self.tokens@[i].token_id,
                    ));
                assert(forall|i: int|
                    0 <= i < self.tokens@.len() ==> (#[trigger] self.tokens@[i]).owner.wf());
            }
        }
        Ok(tid)
    }

    /// The error a token-approval revocation gets, or nothing when it
    /// succeeds: the token must exist and the caller must own it; revoking
    /// an absent approval is a successful no-op.
    pub open spec fn revoke_token_item_error(
        self,
        caller: Seq<u8>,
        a: RevokeTokenApprovalArg,
        now: u64,
    ) -> Option<LedgerErrorV> {
        let owner_acct = caller_account_v(caller, view_opt_sub(a.from_subaccount));
        if !self.tokens.has_id(a.token_id) {
            Some(LedgerErrorV::NotFound)
        } else if self.tokens.token_at(a.token_id).owner != owner_acct {
            Some(LedgerErrorV::NotOwner)
        } else {
            None
        }
    }

    /// The spender filter a revocation names, normalized.
    pub open spec fn revoke_spender_v(sp: Option<Account>) -> Option<AccountV> {
        match sp {
            Some(s) => Some(s@.normalized()),
            None => None,
        }
    }

    /// Executes one token-approval revocation item. `Ok(Some(tid))` names
    /// the appended revoke block; `Ok(None)` is the successful no-op, with
    /// no block appended.
    fn revoke_token_item(
        &mut self,
        caller: &Vec<u8>,
        a: &RevokeTokenApprovalArg,
        now: u64,
    ) -> (r: Result<Option<u128>, LedgerError>)
        requires
            old(self).wf(),
            old(self).log.logical_len() < u128::MAX as int,
        ensures
            final(self).wf(),
            final(self).same_config(*old(self)),
            match r {
                Ok(opt) => {
                    let owner_acct = caller_account_v(caller@, view_opt_sub(a.from_subaccount));
                    let left = crate::approvals::revoke_outcome(
                        old(self).approvals.token_approvals_of(a.token_id),
                        Self::revoke_spender_v(a.spender),
                    );
                    &&& old(self).revoke_token_item_error(caller@, *a, now) is None
                    &&& final(self).approvals.token_approvals_of(a.token_id) == left
                    &&& forall|x: u128|
                        x != a.token_id ==> final(self).approvals.token_approvals_of(x) == old(self).approvals.token_approvals_of(x)
                    &&& final(self).approvals.collection_approvals == old(self).approvals.collection_approvals
                    &&& final(self).tokens@ == old(self).tokens@
                    &&& final(self).burned_ids@ == old(self).burned_ids@
                    &&& final(self).log.first_index == old(self).log.first_index
                    &&& (match opt {
                        Some(tid) => old(self).approvals.token_approvals_of(a.token_id).len()
                            > left.len() && counter_bumped(*old(self), *final(self)) && tid as int
                            == old(self).log.logical_len() && final(self).log.history@ == old(self).log.history@.push(
                            crate::log::with_tid(
                                TransactionV {
                                    op: "37revoke"@,
                                    tid: 0,
                                    ts: now,
                                    from: Some(owner_acct),
                                    to: None,
                                    spender: Self::revoke_spender_v(a.spender),
                                    token_id: Some(a.token_id),
                                    exp: None,
                                    created_at: None,
                                    memo: view_opt_memo(a.memo),
                                    meta: None,
                                },
                                tid,
                            ),
                        ),
                        None => old(self).approvals.token_approvals_of(a.token_id).len()
                            == left.len() && final(self).log.history@ == old(self).log.history@
                            && final(self).archive_ledger_info.records_since_trigger == old(self).archive_ledger_info.records_since_trigger,
                    })
                },
                Err(e) => Some(e@) == old(self).revoke_token_item_error(caller@, *a, now)
                    && final(self).same_stores(*old(self)),
            },
    {
        let owner_acct = caller_account(caller, &a.from_subaccount);
        let owner = match self.tokens.owner_of(a.token_id) {
            Some(o) => o,
            None => {
                return Err(LedgerError::NotFound);
            },
        };
        if !owner.same(&owner_acct) {
            return Err(LedgerError::NotOwner);
        }
        let spender = match &a.spender {
            Some(s) => Some(crate::account::account_transformer(s.copy())),
            None => None,
        };
        let spender_ref = match &spender {
            Some(s) => Some(s),
            None => None,
        };
        proof {
            assert(crate::approvals::view_opt_spender(spender_ref) == Self::revoke_spender_v(
                a.spender,
            ));
        }
        let removed = self.approvals.revoke_token_approvals(a.token_id, spender_ref);
        if removed == 0 {
            return Ok(None);
        }
        let tx = Transaction {
            op: "37revoke".to_owned(),
            tid: 0,
            ts: now,
            from: Some(owner_acct),
            to: None,
            spender,
            token_id: Some(a.token_id),
            exp: None,
            created_at: None,
            memo: match &a.memo {
                Some(m) => Some(crate::value::copy_bytes(m)),
                None => None,
            },
            meta: None,
        };
        let tid = self.log.append(tx);
        self.archive_ledger_info.note_append();
        proof {
            assert(self.wf()) by {
                assert(forall|i: int|
                    0 <= i < self.tokens@.len() ==> !self.burned_ids@.contains(
                        #[trigger] self.tokens@[i].token_id,
                    ));
                assert(forall|i: int|
                    0 <= i < self.tokens@.len() ==> (#[trigger] self.tokens@[i]).owner.wf());
            }
        }
        Ok(Some(tid))
    }

    /// Executes one collection-approval revocation item: removes one
    /// spender's, or every, collection approval the caller granted.
    /// `Ok(None)` is the successful no-op.
    fn revoke_collection_item(
        &mut self,
        caller: &Vec<u8>,
        a: &RevokeCollectionApprovalArg,
        now: u64,
    ) -> (r: Result<Option<u128>, LedgerError>)
        requires
            old(self).wf(),
            old(self).log.logical_len() < u128::MAX as int,
        ensures
            final(self).wf(),
            final(self).same_config(*old(self)),
            match r {
                Ok(opt) => {
                    let owner_acct = caller_account_v(caller@, view_opt_sub(a.from_subaccount));
                    let left = crate::approvals::revoke_outcome(
                        old(self).approvals.collection_approvals_of(owner_acct),
                        Self::revoke_spender_v(a.spender),
                    );
                    &&& final(self).approvals.collection_approvals_of(owner_acct) == left
                    &&& forall|x: AccountV|
                        x != owner_acct ==> final(self).approvals.collection_approvals_of(x)
                            == old(self).approvals.collection_approvals_of(x)
                    &&& final(self).approvals.token_approvals == old(self).approvals.token_approvals
                    &&& final(self).tokens@ == old(self).tokens@
                    &&& final(self).burned_ids@ == old(self).burned_ids@
                    &&& final(self).log.first_index == old(self).log.first_index
                    &&& (match opt {
                        Some(tid) => old(self).approvals.collection_approvals_of(
                            owner_acct,
                        ).len() > left.len() && counter_bumped(*old(self), *final(self))
                            && tid as int == old(self).log.logical_len()
                            && final(self).log.history@ == old(self).log.history@.push(
                            crate::log::with_tid(
                                TransactionV {
                                    op: "37revoke_coll"@,
                                    tid: 0,
                                    ts: now,
                                    from: Some(owner_acct),
                                    to: None,
                                    spender: Self::revoke_spender_v(a.spender),
                                    token_id: None,
                                    exp: None,
                                    created_at: None,
                                    memo: view_opt_memo(a.memo),
                                    meta: None,
                                },
                                tid,
                            ),
                        ),
                        None => old(self).approvals.collection_approvals_of(owner_acct).len()
                            == left.len() && final(self).log.history@ == old(self).log.history@
                            && final(self).archive_ledger_info.records_since_trigger == old(self).archive_ledger_info.records_since_trigger,
                    })
                },
                Err(_) => false,
            },
    {
        let owner_acct = caller_account(caller, &a.from_subaccount);
        let spender = match &a.spender {
            Some(s) => Some(crate::account::account_transformer(s.copy())),
            None => None,
        };
        let spender_ref = match &spender {
            Some(s) => Some(s),
            None => None,
        };
        proof {
            assert(crate::approvals::view_opt_spender(spender_ref) == Self::revoke_spender_v(
                a.spender,
            ));
        }
        let removed = self.approvals.revoke_collection_approvals(&owner_acct, spender_ref);
        if removed == 0 {
            return Ok(None);
        }
        let tx = Transaction {
            op: "37revoke_coll".to_owned(),
            tid: 0,
            ts: now,
            from: Some(owner_acct),
            to: None,
            spender,
            token_id: None,
            exp: None,
            created_at: None,
            memo: match &a.memo {
                Some(m) => Some(crate::value::copy_bytes(m)),
                None => None,
            },
            meta: None,
        };
        let tid = self.log.append(tx);
        self.archive_ledger_info.note_append();
        proof {
            assert(self.wf()) by {
                assert(forall|i: int|
                    0 <= i < self.tokens@.len() ==> !self.burned_ids@.contains(
                        #[trigger] self.tokens@[i].token_id,
                    ));
                assert(forall|i: int|
                    0 <= i < self.tokens@.len() ==> (#[trigger] self.tokens@[i]).owner.wf());
            }
        }
        Ok(Some(tid))
    }
}

} // verus!

verus! {

/// Two well-formed approval stores with equal token-entry models agree on
/// every token's approvals.
pub proof fn lemma_tok_view_eq_approvals(a: ApprovalStore, b: ApprovalStore)
    requires
        a.wf(),
        b.wf(),
        tok_entries_view(a) == tok_entries_view(b),
    ensures
        forall|x: u128| a.token_approvals_of(x) == b.token_approvals_of(x),
{
    assert(tok_entries_view(a).len() == a.token_approvals@.len());
    assert(tok_entries_view(b).len() == b.token_approvals@.len());
    assert(a.token_approvals@.len() == b.token_approvals@.len());
    assert forall|x: u128| a.token_approvals_of(x) == b.token_approvals_of(x) by {
        if a.has_tok(x) {
            let w = a.tok_index(x);
            assert(a.token_approvals@[w].token_id == x);
            assert(tok_entries_view(a)[w] == tok_entries_view(b)[w]);
            assert(tok_entries_view(a)[w].0 == a.token_approvals@[w].token_id);
            assert(tok_entries_view(b)[w].0 == b.token_approvals@[w].token_id);
            assert(b.token_approvals@[w].token_id == x);
            assert(b.has_tok(x));
            let u = b.tok_index(x);
            assert(b.token_approvals@[u].token_id == x);
            if u != w {
                assert(b.token_approvals@[u].token_id != b.token_approvals@[w].token_id);
            }
            assert(tok_entries_view(a)[w].1 == tok_entries_view(b)[w].1);
        } else {
            if b.has_tok(x) {
                let u = b.tok_index(x);
                assert(b.token_approvals@[u].token_id == x);
                assert(tok_entries_view(b)[u].0 == x);
                assert(tok_entries_view(a)[u].0 == a.token_approvals@[u].token_id);
                assert(a.token_approvals@[u].token_id == x);
            }
        }
    }
}

/// One step of a batch: how the state after item `i` relates to the state
/// before it, given the item's result slot. Item `i + 1` is validated
/// against exactly this committed state; an item's failure commits nothing
/// and never aborts its siblings.
pub open spec fn transfer_step(
    a: LedgerState,
    b: LedgerState,
    caller: Seq<u8>,
    arg: TransferArg,
    now: u64,
    slot: Option<Result<u128, LedgerError>>,
) -> bool {
    match slot {
        Some(res) => match res {
            Ok(tid) => a.transfer_item_error(caller, arg, now) is None && a.transfer_item_ok(
                b,
                caller,
                arg,
                now,
                tid,
            ) && b.same_config(a) && b.wf(),
            Err(e) => Some(e@) == a.transfer_item_error(caller, arg, now) && b.same_stores(a)
                && b.same_config(a) && b.wf(),
        },
        None => false,
    }
}

/// A whole transfer batch as the chain of its per-item steps, from `s0`
/// through one intermediate state per item.
pub open spec fn transfer_batch_run(
    states: Seq<LedgerState>,
    s0: LedgerState,
    caller: Seq<u8>,
    args: Seq<TransferArg>,
    now: u64,
    results: Seq<Option<Result<u128, LedgerError>>>,
) -> bool {
    &&& states.len() == args.len() + 1
    &&& results.len() == args.len()
    &&& states.first() == s0
    &&& forall|i: int|
        0 <= i < args.len() ==> transfer_step(
            states[i],
            states[i + 1],
            caller,
            args[i],
            now,
            #[trigger] results[i],
        )
}

/// One step of a transfer-from batch; the shape of `transfer_step`.
pub open spec fn transfer_from_step(
    a: LedgerState,
    b: LedgerState,
    caller: Seq<u8>,
    arg: TransferFromArg,
    now: u64,
    slot: Option<Result<u128, LedgerError>>,
) -> bool {
    match slot {
        Some(res) => match res {
            Ok(tid) => a.transfer_from_item_error(caller, arg, now) is None
                && a.transfer_from_item_ok(b, caller, arg, now, tid) && b.same_config(a)
                && b.wf(),
            Err(e) => Some(e@) == a.transfer_from_item_error(caller, arg, now) && b.same_stores(
                a,
            ) && b.same_config(a) && b.wf(),
        },
        None => false,
    }
}

/// A whole transfer-from batch as the chain of its per-item steps.
pub open spec fn transfer_from_batch_run(
    states: Seq<LedgerState>,
    s0: LedgerState,
    caller: Seq<u8>,
    args: Seq<TransferFromArg>,
    now: u64,
    results: Seq<Option<Result<u128, LedgerError>>>,
) -> bool {
    &&& states.len() == args.len() + 1
    &&& results.len() == args.len()
    &&& states.first() == s0
    &&& forall|i: int|
        0 <= i < args.len() ==> transfer_from_step(
            states[i],
            states[i + 1],
            caller,
            args[i],
            now,
            #[trigger] results[i],
        )
}

/// One step of a mint batch. A `None` slot (a token id an earlier item of
/// the same batch already named) commits nothing at all.
pub open spec fn mint_step(
    a: LedgerState,
    b: LedgerState,
    caller: Seq<u8>,
    arg: MintArg,
    now: u64,
    slot: Option<Result<u128, LedgerError>>,
) -> bool {
    match slot {
        Some(res) => match res {
            Ok(tid) => a.mint_item_error(caller, arg, now) is None && a.mint_item_ok(
                b,
                caller,
                arg,
                now,
                tid,
            ) && b.same_config(a) && b.wf(),
            Err(e) => Some(e@) == a.mint_item_error(caller, arg, now) && b.same_stores(a)
                && b.same_config(a) && b.wf(),
        },
        None => b == a,
    }
}

/// A whole mint batch as the chain of its per-item steps.
pub open spec fn mint_batch_run(
    states: Seq<LedgerState>,
    s0: LedgerState,
    caller: Seq<u8>,
    args: Seq<MintArg>,
    now: u64,
    results: Seq<Option<Result<u128, LedgerError>>>,
) -> bool {
    &&& states.len() == args.len() + 1
    &&& results.len() == args.len()
    &&& states.first() == s0
    &&& forall|i: int|
        0 <= i < args.len() ==> mint_step(
            states[i],
            states[i + 1],
            caller,
            args[i],
            now,
            #[trigger] results[i],
        )
}

/// One step of a burn batch; the shape of `transfer_step`.
pub open spec fn burn_step(
    a: LedgerState,
    b: LedgerState,
    caller: Seq<u8>,
    arg: BurnArg,
    now: u64,
    slot: Option<Result<u128, LedgerError>>,
) -> bool {
    match slot {
        Some(res) => match res {
            Ok(tid) => a.burn_item_error(caller, arg, now) is None && a.burn_item_ok(
                b,
                caller,
                arg,
                now,
                tid,
            ) && b.same_config(a) && b.wf(),
            Err(e) => Some(e@) == a.burn_item_error(caller, arg, now) && b.same_stores(a)
                && b.same_config(a) && b.wf(),
        },
        None => false,
    }
}

/// A whole burn batch as the chain of its per-item steps.
pub open spec fn burn_batch_run(
    states: Seq<LedgerState>,
    s0: LedgerState,
    caller: Seq<u8>,
    args: Seq<BurnArg>,
    now: u64,
    results: Seq<Option<Result<u128, LedgerError>>>,
) -> bool {
    &&& states.len() == args.len() + 1
    &&& results.len() == args.len()
    &&& states.first() == s0
    &&& forall|i: int|
        0 <= i < args.len() ==> burn_step(
            states[i],
            states[i + 1],
            caller,
            args[i],
            now,
            #[trigger] results[i],
        )
}

/// One step of a token-approval batch; a refused approval still evicts
/// expired entries and, at the limit, the oldest ones, exactly as the item
/// contract states.
pub open spec fn approve_token_step(
    a: LedgerState,
    b: LedgerState,
    caller: Seq<u8>,
    arg: ApproveTokenArg,
    now: u64,
    slot: Option<Result<u128, LedgerError>>,
) -> bool {
    match slot {
        Some(res) => match res {
            Ok(tid) => a.approve_token_item_error(caller, arg, now) is None
                && a.approve_token_item_ok(b, caller, arg, now, tid) && b.same_config(a)
                && b.wf(),
            Err(e) => Some(e@) == a.approve_token_item_error(caller, arg, now) && b.same_config(
                a,
            ) && b.wf() && (if e@ is TooManyApprovals {
                &&& b.tokens@ == a.tokens@
                &&& b.approvals.token_approvals_of(arg.token_id)
                    == crate::approvals::approve_room(
                    a.approvals.token_approvals_of(arg.token_id),
                    now,
                    a.max_per_list(),
                    a.settle_per_list(),
                )
                &&& forall|x: u128|
                    x != arg.token_id ==> b.approvals.token_approvals_of(x)
                        == a.approvals.token_approvals_of(x)
                &&& b.approvals.collection_approvals == a.approvals.collection_approvals
                &&& b.burned_ids@ == a.burned_ids@
                &&& b.log.history@ == a.log.history@
                &&& b.log.first_index == a.log.first_index
                &&& b.log.latest_hash@ == a.log.latest_hash@
                &&& b.archive_ledger_info.records_since_trigger
                    == a.archive_ledger_info.records_since_trigger
            } else {
                b.same_stores(a)
            }),
        },
        None => false,
    }
}

/// A whole token-approval batch as the chain of its per-item steps.
pub open spec fn approve_token_batch_run(
    states: Seq<LedgerState>,
    s0: LedgerState,
    caller: Seq<u8>,
    args: Seq<ApproveTokenArg>,
    now: u64,
    results: Seq<Option<Result<u128, LedgerError>>>,
) -> bool {
    &&& states.len() == args.len() + 1
    &&& results.len() == args.len()
    &&& states.first() == s0
    &&& forall|i: int|
        0 <= i < args.len() ==> approve_token_step(
            states[i],
            states[i + 1],
            caller,
            args[i],
            now,
            #[trigger] results[i],
        )
}

/// One step of a collection-approval batch.
pub open spec fn approve_collection_step(
    a: LedgerState,
    b: LedgerState,
    caller: Seq<u8>,
    arg: ApproveCollectionArg,
    now: u64,
    slot: Option<Result<u128, LedgerError>>,
) -> bool {
    let owner_acct = caller_account_v(caller, view_opt_sub(arg.approval_info.from_subaccount));
    match slot {
        Some(res) => match res {
            Ok(tid) => {
                &&& a.approve_collection_item_error(caller, arg, now) is None
                &&& tid as int == a.log.logical_len()
                &&& b.log.history@ == a.log.history@.push(
                    crate::log::with_tid(
                        TransactionV {
                            op: "37appr_coll"@,
                            tid: 0,
                            ts: now,
                            from: Some(owner_acct),
                            to: None,
                            spender: Some(arg.approval_info.spender@.normalized()),
                            token_id: None,
                            exp: arg.approval_info.expires_at,
                            created_at: arg.approval_info.created_at_time,
                            memo: view_opt_memo(arg.approval_info.memo),
                            meta: None,
                        },
                        tid,
                    ),
                )
                &&& b.log.first_index == a.log.first_index
                &&& b.tokens@ == a.tokens@
                &&& crate::approvals::approve_outcome(
                    a.approvals.collection_approvals_of(owner_acct),
                    a.approval_of(arg.approval_info, now),
                    now,
                    a.max_per_list(),
                    a.settle_per_list(),
                ) == Ok::<_, ()>(b.approvals.collection_approvals_of(owner_acct))
                &&& forall|x: AccountV|
                    x != owner_acct ==> b.approvals.collection_approvals_of(x)
                        == a.approvals.collection_approvals_of(x)
                &&& b.approvals.token_approvals == a.approvals.token_approvals
                &&& b.burned_ids@ == a.burned_ids@
                &&& counter_bumped(a, b)
                &&& b.same_config(a)
                &&& b.wf()
            },
            Err(e) => Some(e@) == a.approve_collection_item_error(caller, arg, now)
                && b.same_config(a) && b.wf() && (if e@ is TooManyApprovals {
                &&& b.tokens@ == a.tokens@
                &&& b.approvals.collection_approvals_of(owner_acct)
                    == crate::approvals::approve_room(
                    a.approvals.collection_approvals_of(owner_acct),
                    now,
                    a.max_per_list(),
                    a.settle_per_list(),
                )
                &&& forall|x: AccountV|
                    x != owner_acct ==> b.approvals.collection_approvals_of(x)
                        == a.approvals.collection_approvals_of(x)
                &&& b.approvals.token_approvals == a.approvals.token_approvals
                &&& b.burned_ids@ == a.burned_ids@
                &&& b.log.history@ == a.log.history@
                &&& b.log.first_index == a.log.first_index
                &&& b.log.latest_hash@ == a.log.latest_hash@
                &&& b.archive_ledger_info.records_since_trigger
                    == a.archive_ledger_info.records_since_trigger
            } else {
                b.same_stores(a)
            }),
        },
        None => false,
    }
}

/// A whole collection-approval batch as the chain of its per-item steps.
pub open spec fn approve_collection_batch_run(
    states: Seq<LedgerState>,
    s0: LedgerState,
    caller: Seq<u8>,
    args: Seq<ApproveCollectionArg>,
    now: u64,
    results: Seq<Option<Result<u128, LedgerError>>>,
) -> bool {
    &&& states.len() == args.len() + 1
    &&& results.len() == args.len()
    &&& states.first() == s0
    &&& forall|i: int|
        0 <= i < args.len() ==> approve_collection_step(
            states[i],
            states[i + 1],
            caller,
            args[i],
            now,
            #[trigger] results[i],
        )
}

/// One step of a token-approval revocation batch; `Ok(None)` commits the
/// (empty) removal and appends no block.
pub open spec fn revoke_token_step(
    a: LedgerState,
    b: LedgerState,
    caller: Seq<u8>,
    arg: RevokeTokenApprovalArg,
    now: u64,
    slot: Option<Result<Option<u128>, LedgerError>>,
) -> bool {
    let owner_acct = caller_account_v(caller, view_opt_sub(arg.from_subaccount));
    let left = crate::approvals::revoke_outcome(
        a.approvals.token_approvals_of(arg.token_id),
        LedgerState::revoke_spender_v(arg.spender),
    );
    match slot {
        Some(res) => match res {
            Ok(opt) => {
                &&& a.revoke_token_item_error(caller, arg, now) is None
                &&& b.approvals.token_approvals_of(arg.token_id) == left
                &&& forall|x: u128|
                    x != arg.token_id ==> b.approvals.token_approvals_of(x)
                        == a.approvals.token_approvals_of(x)
                &&& b.approvals.collection_approvals == a.approvals.collection_approvals
                &&& b.tokens@ == a.tokens@
                &&& b.burned_ids@ == a.burned_ids@
                &&& b.log.first_index == a.log.first_index
                &&& (match opt {
                    Some(tid) => a.approvals.token_approvals_of(arg.token_id).len()
                        > left.len() && counter_bumped(a, b) && tid as int
                        == a.log.logical_len() && b.log.history@ == a.log.history@.push(
                        crate::log::with_tid(
                            TransactionV {
                                op: "37revoke"@,
                                tid: 0,
                                ts: now,
                                from: Some(owner_acct),
                                to: None,
                                spender: LedgerState::revoke_spender_v(arg.spender),
                                token_id: Some(arg.token_id),
                                exp: None,
                                created_at: None,
                                memo: view_opt_memo(arg.memo),
                                meta: None,
                            },
                            tid,
                        ),
                    ),
                    None => a.approvals.token_approvals_of(arg.token_id).len() == left.len()
                        && b.log.history@ == a.log.history@
                        && b.archive_ledger_info.records_since_trigger
                        == a.archive_ledger_info.records_since_trigger,
                })
                &&& b.same_config(a)
                &&& b.wf()
            },
            Err(e) => Some(e@) == a.revoke_token_item_error(caller, arg, now) && b.same_stores(
                a,
            ) && b.same_config(a) && b.wf(),
        },
        None => false,
    }
}

/// A whole token-approval revocation batch as the chain of its per-item
/// steps.
pub open spec fn revoke_token_batch_run(
    states: Seq<LedgerState>,
    s0: LedgerState,
    caller: Seq<u8>,
    args: Seq<RevokeTokenApprovalArg>,
    now: u64,
    results: Seq<Option<Result<Option<u128>, LedgerError>>>,
) -> bool {
    &&& states.len() == args.len() + 1
    &&& results.len() == args.len()
    &&& states.first() == s0
    &&& forall|i: int|
        0 <= i < args.len() ==> revoke_token_step(
            states[i],
            states[i + 1],
            caller,
            args[i],
            now,
            #[trigger] results[i],
        )
}

/// One step of a collection-approval revocation batch; it never fails.
pub open spec fn revoke_collection_step(
    a: LedgerState,
    b: LedgerState,
    caller: Seq<u8>,
    arg: RevokeCollectionApprovalArg,
    now: u64,
    slot: Option<Result<Option<u128>, LedgerError>>,
) -> bool {
    let owner_acct = caller_account_v(caller, view_opt_sub(arg.from_subaccount));
    let left = crate::approvals::revoke_outcome(
        a.approvals.collection_approvals_of(owner_acct),
        LedgerState::revoke_spender_v(arg.spender),
    );
    match slot {
        Some(res) => match res {
            Ok(opt) => {
                &&& b.approvals.collection_approvals_of(owner_acct) == left
                &&& forall|x: AccountV|
                    x != owner_acct ==> b.approvals.collection_approvals_of(x)
                        == a.approvals.collection_approvals_of(x)
                &&& b.approvals.token_approvals == a.approvals.token_approvals
                &&& b.tokens@ == a.tokens@
                &&& b.burned_ids@ == a.burned_ids@
                &&& b.log.first_index == a.log.first_index
                &&& (match opt {
                    Some(tid) => a.approvals.collection_approvals_of(owner_acct).len()
                        > left.len() && counter_bumped(a, b) && tid as int
                        == a.log.logical_len() && b.log.history@ == a.log.history@.push(
                        crate::log::with_tid(
                            TransactionV {
                                op: "37revoke_coll"@,
                                tid: 0,
                                ts: now,
                                from: Some(owner_acct),
                                to: None,
                                spender: LedgerState::revoke_spender_v(arg.spender),
                                token_id: None,
                                exp: None,
                                created_at: None,
                                memo: view_opt_memo(arg.memo),
                                meta: None,
                            },
                            tid,
                        ),
                    ),
                    None => a.approvals.collection_approvals_of(owner_acct).len() == left.len()
                        && b.log.history@ == a.log.history@
                        && b.archive_ledger_info.records_since_trigger
                        == a.archive_ledger_info.records_since_trigger,
                })
                &&& b.same_config(a)
                &&& b.wf()
            },
            Err(_) => false,
        },
        None => false,
    }
}

/// A whole collection-approval revocation batch as the chain of its
/// per-item steps.
pub open spec fn revoke_collection_batch_run(
    states: Seq<LedgerState>,
    s0: LedgerState,
    caller: Seq<u8>,
    args: Seq<RevokeCollectionApprovalArg>,
    now: u64,
    results: Seq<Option<Result<Option<u128>, LedgerError>>>,
) -> bool {
    &&& states.len() == args.len() + 1
    &&& results.len() == args.len()
    &&& states.first() == s0
    &&& forall|i: int|
        0 <= i < args.len() ==> revoke_collection_step(
            states[i],
            states[i + 1],
            caller,
            args[i],
            now,
            #[trigger] results[i],
        )
}

/// Two well-formed token stores with the same record models agree on every
/// lookup.
pub proof fn lemma_token_view_eq(a: TokenStore, b: TokenStore)
    requires
        a.wf(),
        b@ == a@,
    ensures
        b.wf(),
        forall|x: u128| b.has_id(x) <==> a.has_id(x),
        forall|x: u128| a.has_id(x) ==> b.token_at(x) == a.token_at(x),
{
    assert forall|x: u128| b.has_id(x) <==> a.has_id(x) by {
        if a.has_id(x) {
            let w = a.index_of(x);
            assert(b@[w].token_id == x);
        }
        if b.has_id(x) {
            let w = choose|i: int| 0 <= i < b@.len() && b@[i].token_id == x;
            assert(a@[w].token_id == x);
        }
    }
    assert forall|x: u128| a.has_id(x) implies b.token_at(x) == a.token_at(x) by {
        let w = a.index_of(x);
        assert(a@[w].token_id == x);
        assert(b@[w].token_id == x);
        let u = b.index_of(x);
        assert(b@[u].token_id == x);
        if u != w {
            assert(a@[u].token_id == x);
            assert(a@[u].token_id != a@[w].token_id);
        }
    }
}

impl LedgerState {
    /// Whether batches are all-or-nothing.
    pub open spec fn atomic_set(self) -> bool {
        self.icrc7_atomic_batch_transfers == Some(true)
    }

    /// The result every slot gets when the batch oversteps the update limit.
    fn batch_limit_error(&self) -> (r: LedgerError)
        ensures
            r@ matches LedgerErrorV::GenericBatchError { error_code, message } && error_code
                == 1u128,
    {
        LedgerError::GenericBatchError {
            error_code: 1,
            message: "batch size exceeds the update limit".to_owned(),
        }
    }

    /// Transfers a batch of tokens from the caller's account. One slot per
    /// item, in order; item `i + 1` is validated against item `i`'s
    /// committed effects; a batch over the update limit is rejected before
    /// any item is processed; with the atomic-batch flag set, any item's
    /// failure discards the whole batch's effects.
    pub fn icrc7_transfer(&mut self, caller: &Vec<u8>, args: &Vec<TransferArg>, now: u64) -> (r:
        Vec<Option<Result<u128, LedgerError>>>)
        requires
            old(self).wf(),
            old(self).log.logical_len() + args@.len() <= u128::MAX as int,
        ensures
            final(self).wf(),
            final(self).same_config(*old(self)),
            r@.len() == args@.len(),
            old(self).over_update_limit(args@.len() as int) ==> final(self).same_stores(
                *old(self),
            ) && (forall|i: int|
                0 <= i < r@.len() ==> ((#[trigger] r@[i]) matches Some(res) && (res
                    matches Err(e) && e@ matches LedgerErrorV::GenericBatchError { .. }))),
            !old(self).over_update_limit(args@.len() as int) ==> forall|i: int|
                0 <= i < r@.len() ==> (#[trigger] r@[i]) is Some,
            (!old(self).over_update_limit(args@.len() as int) && args@.len() == 1) ==> (match r@[
                0
            ]->Some_0 {
                Ok(tid) => old(self).transfer_item_error(caller@, args@[0], now) is None && old(self).transfer_item_ok(*final(self), caller@, args@[0], now, tid),
                Err(e) => Some(e@) == old(self).transfer_item_error(caller@, args@[0], now)
                    && final(self).same_stores(*old(self)),
            }),
            (old(self).atomic_set() && (exists|i: int|
                0 <= i < r@.len() && (#[trigger] r@[i]) matches Some(Err(_)))) ==> final(self).same_stores(*old(self)),
            (!old(self).over_update_limit(args@.len() as int) && (!old(self).atomic_set()
                || (forall|i: int|
                0 <= i < r@.len() ==> !((#[trigger] r@[i]) matches Some(Err(_)))))) ==> (forall|
                i: int,
            |
                (0 <= i < r@.len() && (#[trigger] r@[i]) matches Some(Ok(_))) ==> final(self).approvals.token_approvals_of(args@[i].token_id).len() == 0),
            !old(self).over_update_limit(args@.len() as int) ==> (exists|
                states: Seq<LedgerState>,
            |
                #[trigger] transfer_batch_run(states, *old(self), caller@, args@, now, r@) && (!(
                old(self).atomic_set() && (exists|i: int|
                    0 <= i < r@.len() && (#[trigger] r@[i]) matches Some(Err(_))))
                    ==> states.last() == *final(self))),
    {
        let mut r: Vec<Option<Result<u128, LedgerError>>> = Vec::new();
        let over = match self.icrc7_max_update_batch_size {
            Some(m) => args.len() as u128 > m as u128,
            None => false,
        };
        if over {
            let mut i: usize = 0;
            while i < args.len()
                invariant
                    i <= args@.len(),
                    r@.len() == i,
                    forall|j: int|
                        0 <= j < i ==> ((#[trigger] r@[j]) matches Some(res) && (res
                            matches Err(e) && e@ matches LedgerErrorV::GenericBatchError {
                            ..
                        })),
                decreases args.len() - i,
            {
                r.push(Some(Err(self.batch_limit_error())));
                i = i + 1;
            }
            return r;
        }
        let atomic = match self.icrc7_atomic_batch_transfers {
            Some(b) => b,
            None => false,
        };
        let snap = if atomic {
            Some(self.take_snapshot())
        } else {
            None
        };
        let ghost mut states: Seq<LedgerState> = seq![*old(self)];
        let mut any_err = false;
        let mut i: usize = 0;
        while i < args.len()
            invariant
                self.wf(),
                self.same_config(*old(self)),
                old(self).log.logical_len() + args@.len() <= u128::MAX as int,
                self.log.logical_len() <= old(self).log.logical_len() + i,
                i <= args@.len(),
                r@.len() == i,
                states.len() == i + 1,
                states.first() == *old(self),
                states.last() == *self,
                forall|j: int|
                    0 <= j < i ==> transfer_step(
                        states[j],
                        states[j + 1],
                        caller@,
                        args@[j],
                        now,
                        #[trigger] r@[j],
                    ),
                atomic == old(self).atomic_set(),
                !old(self).over_update_limit(args@.len() as int),
                match snap {
                    Some(sn) => sn.tokens@ == old(self).tokens@ && tok_entries_view(sn.approvals)
                        == tok_entries_view(old(self).approvals) && coll_entries_view(
                        sn.approvals,
                    ) == coll_entries_view(old(self).approvals) && view_txns(sn.log.txns@)
                        == view_txns(old(self).log.txns@) && sn.log.first_index == old(self).log.first_index && sn.log.latest_hash@ == old(self).log.latest_hash@
                        && sn.log.prefix_hash@ == old(self).log.prefix_hash@ && sn.log.history@
                        == old(self).log.history@ && sn.burned_ids@ == old(self).burned_ids@
                        && sn.records_since_trigger == old(self).archive_ledger_info.records_since_trigger,
                    None => !atomic,
                },
                any_err == (exists|j: int|
                    0 <= j < i && (#[trigger] r@[j]) matches Some(Err(_))),
                forall|j: int| 0 <= j < i ==> (#[trigger] r@[j]) is Some,
                i == 0 ==> *self == *old(self),
                (args@.len() == 1 && i == 1) ==> (match r@[0]->Some_0 {
                    Ok(tid) => old(self).transfer_item_error(caller@, args@[0], now) is None
                        && old(self).transfer_item_ok(*self, caller@, args@[0], now, tid),
                    Err(e) => Some(e@) == old(self).transfer_item_error(caller@, args@[0], now)
                        && self.same_stores(*old(self)),
                }),
                forall|j: int|
                    (0 <= j < i && (#[trigger] r@[j]) matches Some(Ok(_))) ==> self
                        .approvals.token_approvals_of(args@[j].token_id).len() == 0,
            decreases args.len() - i,
        {
            let ghost pre = *self;
            let ghost r_old = r@;
            let ghost prev_err = any_err;
            let res = self.transfer_item(caller, &args[i], now);
            proof {
                states = states.push(*self);
            }
            let ghost res_v = res;
            if res.is_err() {
                any_err = true;
            }
            r.push(Some(res));
            proof {
                assert(r@ == r_old.push(Some(res_v)));
                assert(r@[i as int] == Some(res_v));
                if any_err {
                    if res_v is Err {
                        assert((r@[i as int]) matches Some(Err(_)));
                    } else {
                        assert(prev_err);
                        let w = choose|j: int|
                            0 <= j < i && (#[trigger] r_old[j]) matches Some(Err(_));
                        assert(r@[w] == r_old[w]);
                        assert((r@[w]) matches Some(Err(_)));
                    }
                }
                if res_v is Err {
                    assert(self.same_stores(pre));
                    lemma_tok_view_eq_approvals(pre.approvals, self.approvals);
                }
                assert forall|j: int|
                    (0 <= j < i + 1 && (#[trigger] r@[j]) matches Some(Ok(_))) implies self
                    .approvals.token_approvals_of(args@[j].token_id).len() == 0 by {
                    if j < i {
                        assert(r@[j] == r_old[j]);
                        assert(pre.approvals.token_approvals_of(args@[j].token_id).len() == 0);
                        if res_v is Ok {
                            if args@[j].token_id != args@[i as int].token_id {
                                assert(self.approvals.token_approvals_of(args@[j].token_id)
                                    == pre.approvals.token_approvals_of(args@[j].token_id));
                            }
                        }
                    }
                }
            }
            i = i + 1;
        }
        proof {
            assert(transfer_batch_run(states, *old(self), caller@, args@, now, r@));
        }
        if atomic && any_err {
            let sn = match snap {
                Some(s) => s,
                None => vstd::pervasive::unreached(),
            };
            self.restore_snapshot(sn);
            proof {
                assert(self.same_stores(*old(self)));
                lemma_same_stores_wf(*old(self), *self);
            }
        }
        r
    }
}

} // verus!

verus! {

impl LedgerState {
    /// Mints a batch of tokens. A slot is `None` only where the item names
    /// a token id that an earlier item of the same batch already named; the
    /// other batch rules are those of `icrc7_transfer`.
    pub fn mint(&mut self, caller: &Vec<u8>, args: &Vec<MintArg>, now: u64) -> (r: Vec<Option<
        Result<u128, LedgerError>,
    >>)
        requires
            old(self).wf(),
            old(self).log.logical_len() + args@.len() <= u128::MAX as int,
            old(self).tokens@.len() + args@.len() <= usize::MAX as int,
        ensures
            final(self).wf(),
            final(self).same_config(*old(self)),
            r@.len() == args@.len(),
            old(self).over_update_limit(args@.len() as int) ==> final(self).same_stores(
                *old(self),
            ) && (forall|i: int|
                0 <= i < r@.len() ==> ((#[trigger] r@[i]) matches Some(res) && (res
                    matches Err(e) && e@ matches LedgerErrorV::GenericBatchError { .. }))),
            !old(self).over_update_limit(args@.len() as int) ==> (forall|i: int|
                0 <= i < r@.len() ==> (((#[trigger] r@[i]) is None) <==> (exists|j: int|
                    0 <= j < i && args@[j].token_id == args@[i].token_id))),
            !old(self).over_update_limit(args@.len() as int) ==> (forall|i: int|
                (0 <= i < r@.len() && (#[trigger] r@[i]) matches Some(Ok(_))) ==> !old(self).minted_ever(args@[i].token_id)),
            (!old(self).over_update_limit(args@.len() as int) && args@.len() == 1) ==> (r@[0]
                is Some && match r@[0]->Some_0 {
                Ok(tid) => old(self).mint_item_error(caller@, args@[0], now) is None && old(self).mint_item_ok(*final(self), caller@, args@[0], now, tid),
                Err(e) => Some(e@) == old(self).mint_item_error(caller@, args@[0], now) && final(self).same_stores(*old(self)),
            }),
            (old(self).atomic_set() && (exists|i: int|
                0 <= i < r@.len() && (#[trigger] r@[i]) matches Some(Err(_)))) ==> final(self).same_stores(*old(self)),
            (!old(self).over_update_limit(args@.len() as int) && (!old(self).atomic_set()
                || (forall|i: int|
                0 <= i < r@.len() ==> !((#[trigger] r@[i]) matches Some(Err(_)))))) ==> (forall|
                i: int,
            |
                (0 <= i < r@.len() && (#[trigger] r@[i]) matches Some(Ok(_))) ==> final(self).tokens.has_id(args@[i].token_id)),
            !old(self).over_update_limit(args@.len() as int) ==> (exists|
                states: Seq<LedgerState>,
            |
                #[trigger] mint_batch_run(states, *old(self), caller@, args@, now, r@) && (!(old(
                self,
            ).atomic_set() && (exists|i: int|
                    0 <= i < r@.len() && (#[trigger] r@[i]) matches Some(Err(_))))
                    ==> states.last() == *final(self))),
    {
        let mut r: Vec<Option<Result<u128, LedgerError>>> = Vec::new();
        let over = match self.icrc7_max_update_batch_size {
            Some(m) => args.len() as u128 > m as u128,
            None => false,
        };
        if over {
            let mut i: usize = 0;
            while i < args.len()
                invariant
                    i <= args@.len(),
                    r@.len() == i,
                    forall|j: int|
                        0 <= j < i ==> ((#[trigger] r@[j]) matches Some(res) && (res
                            matches Err(e) && e@ matches LedgerErrorV::GenericBatchError {
                            ..
                        })),
                decreases args.len() - i,
            {
                r.push(Some(Err(self.batch_limit_error())));
                i = i + 1;
            }
            return r;
        }
        let atomic = match self.icrc7_atomic_batch_transfers {
            Some(b) => b,
            None => false,
        };
        let snap = if atomic {
            Some(self.take_snapshot())
        } else {
            None
        };
        let ghost mut states: Seq<LedgerState> = seq![*old(self)];
        let mut any_err = false;
        let mut i: usize = 0;
        while i < args.len()
            invariant
                self.wf(),
                self.same_config(*old(self)),
                old(self).log.logical_len() + args@.len() <= u128::MAX as int,
                old(self).tokens@.len() + args@.len() <= usize::MAX as int,
                self.log.logical_len() <= old(self).log.logical_len() + i,
                self.tokens@.len() <= old(self).tokens@.len() + i,
                i <= args@.len(),
                r@.len() == i,
                states.len() == i + 1,
                states.first() == *old(self),
                states.last() == *self,
                forall|j: int|
                    0 <= j < i ==> mint_step(
                        states[j],
                        states[j + 1],
                        caller@,
                        args@[j],
                        now,
                        #[trigger] r@[j],
                    ),
                atomic == old(self).atomic_set(),
                !old(self).over_update_limit(args@.len() as int),
                match snap {
                    Some(sn) => sn.tokens@ == old(self).tokens@ && tok_entries_view(sn.approvals)
                        == tok_entries_view(old(self).approvals) && coll_entries_view(
                        sn.approvals,
                    ) == coll_entries_view(old(self).approvals) && view_txns(sn.log.txns@)
                        == view_txns(old(self).log.txns@) && sn.log.first_index == old(self).log.first_index && sn.log.latest_hash@ == old(self).log.latest_hash@
                        && sn.log.prefix_hash@ == old(self).log.prefix_hash@ && sn.log.history@
                        == old(self).log.history@ && sn.burned_ids@ == old(self).burned_ids@
                        && sn.records_since_trigger == old(self).archive_ledger_info.records_since_trigger,
                    None => !atomic,
                },
                any_err == (exists|j: int|
                    0 <= j < i && (#[trigger] r@[j]) matches Some(Err(_))),
                forall|j: int|
                    0 <= j < i ==> (((#[trigger] r@[j]) is None) <==> (exists|k: int|
                        0 <= k < j && args@[k].token_id == args@[j].token_id)),
                forall|id: u128| old(self).minted_ever(id) ==> self.minted_ever(id),
                forall|j: int|
                    (0 <= j < i && (#[trigger] r@[j]) matches Some(Ok(_))) ==> !old(self).minted_ever(args@[j].token_id),
                forall|j: int|
                    (0 <= j < i && (#[trigger] r@[j]) matches Some(Ok(_)))
                        ==> self.tokens.has_id(args@[j].token_id),
                (args@.len() == 1 && i == 1) ==> (r@[0] is Some && match r@[0]->Some_0 {
                    Ok(tid) => old(self).mint_item_error(caller@, args@[0], now) is None && old(self).mint_item_ok(*self, caller@, args@[0], now, tid),
                    Err(e) => Some(e@) == old(self).mint_item_error(caller@, args@[0], now)
                        && self.same_stores(*old(self)),
                }),
                i == 0 ==> *self == *old(self),
            decreases args.len() - i,
        {
            let mut dup_in_batch = false;
            let mut k: usize = 0;
            while k < i
                invariant
                    i < args@.len(),
                    k <= i,
                    dup_in_batch == (exists|j: int|
                        0 <= j < k && args@[j].token_id == args@[i as int].token_id),
                decreases i - k,
            {
                if args[k].token_id == args[i].token_id {
                    dup_in_batch = true;
                }
                k = k + 1;
            }
            let ghost pre = *self;
            let ghost r_old = r@;
            let ghost prev_err = any_err;
            if dup_in_batch {
                r.push(None);
                proof {
                    states = states.push(*self);
                    assert(r@ == r_old.push(None));
                    assert(r@[i as int] is None);
                    if any_err {
                        let w = choose|j: int|
                            0 <= j < i && (#[trigger] r_old[j]) matches Some(Err(_));
                        assert(r@[w] == r_old[w]);
                        assert((r@[w]) matches Some(Err(_)));
                    }
                }
            } else {
                let res = self.mint_item(caller, &args[i], now);
                proof {
                    states = states.push(*self);
                }
                let ghost res_v = res;
                if res.is_err() {
                    any_err = true;
                }
                r.push(Some(res));
                proof {
                    assert(r@ == r_old.push(Some(res_v)));
                    assert(r@[i as int] == Some(res_v));
                    if any_err {
                        if res_v is Err {
                            assert((r@[i as int]) matches Some(Err(_)));
                        } else {
                            assert(prev_err);
                            let w = choose|j: int|
                                0 <= j < i && (#[trigger] r_old[j]) matches Some(Err(_));
                            assert(r@[w] == r_old[w]);
                            assert((r@[w]) matches Some(Err(_)));
                        }
                    }
                    if res_v is Err {
                        assert(self.same_stores(pre));
                        assert(self.tokens@ == pre.tokens@);
                        assert(forall|id: u128| pre.minted_ever(id) ==> self.minted_ever(id));
                    } else {
                        assert(forall|id: u128| pre.minted_ever(id) ==> self.minted_ever(id));
                    }
                    assert forall|j: int|
                        (0 <= j < i + 1 && (#[trigger] r@[j]) matches Some(Ok(_))) implies self
                        .tokens.has_id(args@[j].token_id) by {
                        if j < i {
                            assert(r@[j] == r_old[j]);
                            assert(pre.tokens.has_id(args@[j].token_id));
                            if res_v is Err {
                            } else {
                                assert(pre.minted_ever(args@[j].token_id));
                                assert(self.minted_ever(args@[j].token_id));
                                assert(self.tokens.has_id(args@[j].token_id) || self
                                    .burned_ids@.contains(args@[j].token_id));
                                if self.burned_ids@.contains(args@[j].token_id) {
                                    assert(pre.burned_ids@.contains(args@[j].token_id));
                                    assert(!pre.tokens.has_id(args@[j].token_id));
                                }
                            }
                        }
                    }
                }
            }
            i = i + 1;
        }
        proof {
            assert(mint_batch_run(states, *old(self), caller@, args@, now, r@));
        }
        if atomic && any_err {
            let sn = match snap {
                Some(s) => s,
                None => vstd::pervasive::unreached(),
            };
            self.restore_snapshot(sn);
            proof {
                assert(self.same_stores(*old(self)));
                lemma_same_stores_wf(*old(self), *self);
            }
        }
        r
    }

    /// Burns a batch of the caller's tokens: records removed, ids retired,
    /// approvals removed; the batch rules are those of `icrc7_transfer`.
    pub fn burn(&mut self, caller: &Vec<u8>, args: &Vec<BurnArg>, now: u64) -> (r: Vec<Option<
        Result<u128, LedgerError>,
    >>)
        requires
            old(self).wf(),
            old(self).log.logical_len() + args@.len() <= u128::MAX as int,
            old(self).burned_ids@.len() + args@.len() <= usize::MAX as int,
        ensures
            final(self).wf(),
            final(self).same_config(*old(self)),
            r@.len() == args@.len(),
            old(self).over_update_limit(args@.len() as int) ==> final(self).same_stores(
                *old(self),
            ) && (forall|i: int|
                0 <= i < r@.len() ==> ((#[trigger] r@[i]) matches Some(res) && (res
                    matches Err(e) && e@ matches LedgerErrorV::GenericBatchError { .. }))),
            !old(self).over_update_limit(args@.len() as int) ==> forall|i: int|
                0 <= i < r@.len() ==> (#[trigger] r@[i]) is Some,
            (!old(self).over_update_limit(args@.len() as int) && args@.len() == 1) ==> (match r@[
                0
            ]->Some_0 {
                Ok(tid) => old(self).burn_item_error(caller@, args@[0], now) is None && old(self).burn_item_ok(*final(self), caller@, args@[0], now, tid),
                Err(e) => Some(e@) == old(self).burn_item_error(caller@, args@[0], now) && final(self).same_stores(*old(self)),
            }),
            (old(self).atomic_set() && (exists|i: int|
                0 <= i < r@.len() && (#[trigger] r@[i]) matches Some(Err(_)))) ==> final(self).same_stores(*old(self)),
            (!old(self).over_update_limit(args@.len() as int) && (!old(self).atomic_set()
                || (forall|i: int|
                0 <= i < r@.len() ==> !((#[trigger] r@[i]) matches Some(Err(_)))))) ==> (forall|
                i: int,
            |
                (0 <= i < r@.len() && (#[trigger] r@[i]) matches Some(Ok(_))) ==> !final(self).tokens.has_id(args@[i].token_id) && final(self).burned_ids@.contains(
                    args@[i].token_id,
                )),
            !old(self).over_update_limit(args@.len() as int) ==> (exists|
                states: Seq<LedgerState>,
            |
                #[trigger] burn_batch_run(states, *old(self), caller@, args@, now, r@) && (!(old(
                self,
            ).atomic_set() && (exists|i: int|
                    0 <= i < r@.len() && (#[trigger] r@[i]) matches Some(Err(_))))
                    ==> states.last() == *final(self))),
    {
        let mut r: Vec<Option<Result<u128, LedgerError>>> = Vec::new();
        let over = match self.icrc7_max_update_batch_size {
            Some(m) => args.len() as u128 > m as u128,
            None => false,
        };
        if over {
            let mut i: usize = 0;
            while i < args.len()
                invariant
                    i <= args@.len(),
                    r@.len() == i,
                    forall|j: int|
                        0 <= j < i ==> ((#[trigger] r@[j]) matches Some(res) && (res
                            matches Err(e) && e@ matches LedgerErrorV::GenericBatchError {
                            ..
                        })),
                decreases args.len() - i,
            {
                r.push(Some(Err(self.batch_limit_error())));
                i = i + 1;
            }
            return r;
        }
        let atomic = match self.icrc7_atomic_batch_transfers {
            Some(b) => b,
            None => false,
        };
        let snap = if atomic {
            Some(self.take_snapshot())
        } else {
            None
        };
        let ghost mut states: Seq<LedgerState> = seq![*old(self)];
        let mut any_err = false;
        let mut i: usize = 0;
        while i < args.len()
            invariant
                self.wf(),
                self.same_config(*old(self)),
                old(self).log.logical_len() + args@.len() <= u128::MAX as int,
                old(self).burned_ids@.len() + args@.len() <= usize::MAX as int,
                self.log.logical_len() <= old(self).log.logical_len() + i,
                self.burned_ids@.len() <= old(self).burned_ids@.len() + i,
                i <= args@.len(),
                r@.len() == i,
                states.len() == i + 1,
                states.first() == *old(self),
                states.last() == *self,
                forall|j: int|
                    0 <= j < i ==> burn_step(
                        states[j],
                        states[j + 1],
                        caller@,
                        args@[j],
                        now,
                        #[trigger] r@[j],
                    ),
                atomic == old(self).atomic_set(),
                !old(self).over_update_limit(args@.len() as int),
                match snap {
                    Some(sn) => sn.tokens@ == old(self).tokens@ && tok_entries_view(sn.approvals)
                        == tok_entries_view(old(self).approvals) && coll_entries_view(
                        sn.approvals,
                    ) == coll_entries_view(old(self).approvals) && view_txns(sn.log.txns@)
                        == view_txns(old(self).log.txns@) && sn.log.first_index == old(self).log.first_index && sn.log.latest_hash@ == old(self).log.latest_hash@
                        && sn.log.prefix_hash@ == old(self).log.prefix_hash@ && sn.log.history@
                        == old(self).log.history@ && sn.burned_ids@ == old(self).burned_ids@
                        && sn.records_since_trigger == old(self).archive_ledger_info.records_since_trigger,
                    None => !atomic,
                },
                any_err == (exists|j: int|
                    0 <= j < i && (#[trigger] r@[j]) matches Some(Err(_))),
                forall|j: int| 0 <= j < i ==> (#[trigger] r@[j]) is Some,
                forall|j: int|
                    (0 <= j < i && (#[trigger] r@[j]) matches Some(Ok(_)))
                        ==> !self.tokens.has_id(args@[j].token_id) && self.burned_ids@.contains(
                        args@[j].token_id,
                    ),
                (args@.len() == 1 && i == 1) ==> (match r@[0]->Some_0 {
                    Ok(tid) => old(self).burn_item_error(caller@, args@[0], now) is None && old(self).burn_item_ok(*self, caller@, args@[0], now, tid),
                    Err(e) => Some(e@) == old(self).burn_item_error(caller@, args@[0], now)
                        && self.same_stores(*old(self)),
                }),
                i == 0 ==> *self == *old(self),
            decreases args.len() - i,
        {
            let ghost pre = *self;
            let ghost r_old = r@;
            let ghost prev_err = any_err;
            let res = self.burn_item(caller, &args[i], now);
            proof {
                states = states.push(*self);
            }
            let ghost res_v = res;
            if res.is_err() {
                any_err = true;
            }
            r.push(Some(res));
            proof {
                assert(r@ == r_old.push(Some(res_v)));
                assert(r@[i as int] == Some(res_v));
                if any_err {
                    if res_v is Err {
                        assert((r@[i as int]) matches Some(Err(_)));
                    } else {
                        assert(prev_err);
                        let w = choose|j: int|
                            0 <= j < i && (#[trigger] r_old[j]) matches Some(Err(_));
                        assert(r@[w] == r_old[w]);
                        assert((r@[w]) matches Some(Err(_)));
                    }
                }
                assert forall|j: int|
                    (0 <= j < i + 1 && (#[trigger] r@[j]) matches Some(Ok(_))) implies !self
                    .tokens.has_id(args@[j].token_id) && self.burned_ids@.contains(
                    args@[j].token_id,
                ) by {
                    if j == i {
                        assert(res_v is Ok);
                        assert(self.burned_ids@ == pre.burned_ids@.push(args@[j].token_id));
                        assert(self.burned_ids@[self.burned_ids@.len() - 1] == args@[
                            j
                        ].token_id);
                    } else {
                        assert(r@[j] == r_old[j]);
                        assert(!pre.tokens.has_id(args@[j].token_id));
                        assert(pre.burned_ids@.contains(args@[j].token_id));
                        if res_v is Err {
                            assert(self.same_stores(pre));
                        } else {
                            assert(self.burned_ids@ == pre.burned_ids@.push(
                                args@[i as int].token_id,
                            ));
                            let w = choose|n: int|
                                0 <= n < pre.burned_ids@.len() && pre.burned_ids@[n] == args@[
                                    j
                                ].token_id;
                            assert(self.burned_ids@[w] == args@[j].token_id);
                        }
                    }
                }
            }
            i = i + 1;
        }
        proof {
            assert(burn_batch_run(states, *old(self), caller@, args@, now, r@));
        }
        if atomic && any_err {
            let sn = match snap {
                Some(s) => s,
                None => vstd::pervasive::unreached(),
            };
            self.restore_snapshot(sn);
            proof {
                assert(self.same_stores(*old(self)));
                lemma_same_stores_wf(*old(self), *self);
            }
        }
        r
    }
}

} // verus!

verus! {

impl LedgerState {
    /// Transfers a batch of tokens on behalf of their owners, under
    /// token-level or collection-level approvals; the batch rules are those
    /// of `icrc7_transfer`.
    pub fn transfer_from(&mut self, caller: &Vec<u8>, args: &Vec<TransferFromArg>, now: u64) -> (r:
        Vec<Option<Result<u128, LedgerError>>>)
        requires
            old(self).wf(),
            old(self).log.logical_len() + args@.len() <= u128::MAX as int,
        ensures
            final(self).wf(),
            final(self).same_config(*old(self)),
            r@.len() == args@.len(),
            old(self).over_update_limit(args@.len() as int) ==> final(self).same_stores(
                *old(self),
            ) && (forall|i: int|
                0 <= i < r@.len() ==> ((#[trigger] r@[i]) matches Some(res) && (res
                    matches Err(e) && e@ matches LedgerErrorV::GenericBatchError { .. }))),
            !old(self).over_update_limit(args@.len() as int) ==> forall|i: int|
                0 <= i < r@.len() ==> (#[trigger] r@[i]) is Some,
            (!old(self).over_update_limit(args@.len() as int) && args@.len() == 1) ==> (match r@[
                0
            ]->Some_0 {
                Ok(tid) => old(self).transfer_from_item_error(caller@, args@[0], now) is None
                    && old(self).transfer_from_item_ok(*final(self), caller@, args@[0], now, tid),
                Err(e) => Some(e@) == old(self).transfer_from_item_error(caller@, args@[0], now)
                    && final(self).same_stores(*old(self)),
            }),
            (old(self).atomic_set() && (exists|i: int|
                0 <= i < r@.len() && (#[trigger] r@[i]) matches Some(Err(_)))) ==> final(self).same_stores(*old(self)),
            (!old(self).over_update_limit(args@.len() as int) && (!old(self).atomic_set()
                || (forall|i: int|
                0 <= i < r@.len() ==> !((#[trigger] r@[i]) matches Some(Err(_)))))) ==> (forall|
                i: int,
            |
                (0 <= i < r@.len() && (#[trigger] r@[i]) matches Some(Ok(_))) ==> final(self).approvals.token_approvals_of(args@[i].token_id).len() == 0),
            !old(self).over_update_limit(args@.len() as int) ==> (exists|
                states: Seq<LedgerState>,
            |
                #[trigger] transfer_from_batch_run(states, *old(self), caller@, args@, now, r@) && (!(
                old(self).atomic_set() && (exists|i: int|
                    0 <= i < r@.len() && (#[trigger] r@[i]) matches Some(Err(_))))
                    ==> states.last() == *final(self))),
    {
        let mut r: Vec<Option<Result<u128, LedgerError>>> = Vec::new();
        let over = match self.icrc7_max_update_batch_size {
            Some(m) => args.len() as u128 > m as u128,
            None => false,
        };
        if over {
            let mut i: usize = 0;
            while i < args.len()
                invariant
                    i <= args@.len(),
                    r@.len() == i,
                    forall|j: int|
                        0 <= j < i ==> ((#[trigger] r@[j]) matches Some(res) && (res
                            matches Err(e) && e@ matches LedgerErrorV::GenericBatchError {
                            ..
                        })),
                decreases args.len() - i,
            {
                r.push(Some(Err(self.batch_limit_error())));
                i = i + 1;
            }
            return r;
        }
        let atomic = match self.icrc7_atomic_batch_transfers {
            Some(b) => b,
            None => false,
        };
        let snap = if atomic {
            Some(self.take_snapshot())
        } else {
            None
        };
        let ghost mut states: Seq<LedgerState> = seq![*old(self)];
        let mut any_err = false;
        let mut i: usize = 0;
        while i < args.len()
            invariant
                self.wf(),
                self.same_config(*old(self)),
                old(self).log.logical_len() + args@.len() <= u128::MAX as int,
                self.log.logical_len() <= old(self).log.logical_len() + i,
                i <= args@.len(),
                r@.len() == i,
                states.len() == i + 1,
                states.first() == *old(self),
                states.last() == *self,
                forall|j: int|
                    0 <= j < i ==> transfer_from_step(
                        states[j],
                        states[j + 1],
                        caller@,
                        args@[j],
                        now,
                        #[trigger] r@[j],
                    ),
                atomic == old(self).atomic_set(),
                !old(self).over_update_limit(args@.len() as int),
                match snap {
                    Some(sn) => sn.tokens@ == old(self).tokens@ && tok_entries_view(sn.approvals)
                        == tok_entries_view(old(self).approvals) && coll_entries_view(
                        sn.approvals,
                    ) == coll_entries_view(old(self).approvals) && view_txns(sn.log.txns@)
                        == view_txns(old(self).log.txns@) && sn.log.first_index == old(self).log.first_index && sn.log.latest_hash@ == old(self).log.latest_hash@
                        && sn.log.prefix_hash@ == old(self).log.prefix_hash@ && sn.log.history@
                        == old(self).log.history@ && sn.burned_ids@ == old(self).burned_ids@
                        && sn.records_since_trigger == old(self).archive_ledger_info.records_since_trigger,
                    None => !atomic,
                },
                any_err == (exists|j: int|
                    0 <= j < i && (#[trigger] r@[j]) matches Some(Err(_))),
                forall|j: int| 0 <= j < i ==> (#[trigger] r@[j]) is Some,
                (args@.len() == 1 && i == 1) ==> (match r@[0]->Some_0 {
                    Ok(tid) => old(self).transfer_from_item_error(caller@, args@[0], now) is None
                        && old(self).transfer_from_item_ok(*self, caller@, args@[0], now, tid),
                    Err(e) => Some(e@) == old(self).transfer_from_item_error(
                        caller@,
                        args@[0],
                        now,
                    ) && self.same_stores(*old(self)),
                }),
                forall|j: int|
                    (0 <= j < i && (#[trigger] r@[j]) matches Some(Ok(_))) ==> self
                        .approvals.token_approvals_of(args@[j].token_id).len() == 0,
                i == 0 ==> *self == *old(self),
            decreases args.len() - i,
        {
            let ghost pre = *self;
            let ghost r_old = r@;
            let ghost prev_err = any_err;
            let res = self.transfer_from_item(caller, &args[i], now);
            proof {
                states = states.push(*self);
            }
            let ghost res_v = res;
            if res.is_err() {
                any_err = true;
            }
            r.push(Some(res));
            proof {
                assert(r@ == r_old.push(Some(res_v)));
                assert(r@[i as int] == Some(res_v));
                if any_err {
                    if res_v is Err {
                        assert((r@[i as int]) matches Some(Err(_)));
                    } else {
                        assert(prev_err);
                        let w = choose|j: int|
                            0 <= j < i && (#[trigger] r_old[j]) matches Some(Err(_));
                        assert(r@[w] == r_old[w]);
                        assert((r@[w]) matches Some(Err(_)));
                    }
                }
                if res_v is Err {
                    assert(self.same_stores(pre));
                    lemma_tok_view_eq_approvals(pre.approvals, self.approvals);
                }
                assert forall|j: int|
                    (0 <= j < i + 1 && (#[trigger] r@[j]) matches Some(Ok(_))) implies self
                    .approvals.token_approvals_of(args@[j].token_id).len() == 0 by {
                    if j < i {
                        assert(r@[j] == r_old[j]);
                        assert(pre.approvals.token_approvals_of(args@[j].token_id).len() == 0);
                        if res_v is Ok {
                            if args@[j].token_id != args@[i as int].token_id {
                                assert(self.approvals.token_approvals_of(args@[j].token_id)
                                    == pre.approvals.token_approvals_of(args@[j].token_id));
                            }
                        }
                    }
                }
            }
            i = i + 1;
        }
        proof {
            assert(transfer_from_batch_run(states, *old(self), caller@, args@, now, r@));
        }
        if atomic && any_err {
            let sn = match snap {
                Some(s) => s,
                None => vstd::pervasive::unreached(),
            };
            self.restore_snapshot(sn);
            proof {
                assert(self.same_stores(*old(self)));
                lemma_same_stores_wf(*old(self), *self);
            }
        }
        r
    }

    /// Grants a batch of token-level approvals from the caller; the batch
    /// rules are those of `icrc7_transfer`.
    pub fn approve(&mut self, caller: &Vec<u8>, args: &Vec<ApproveTokenArg>, now: u64) -> (r: Vec<
        Option<Result<u128, LedgerError>>,
    >)
        requires
            old(self).wf(),
            old(self).log.logical_len() + args@.len() <= u128::MAX as int,
            old(self).approvals.token_approvals@.len() + args@.len() <= usize::MAX as int,
        ensures
            final(self).wf(),
            final(self).same_config(*old(self)),
            r@.len() == args@.len(),
            old(self).over_update_limit(args@.len() as int) ==> final(self).same_stores(
                *old(self),
            ) && (forall|i: int|
                0 <= i < r@.len() ==> ((#[trigger] r@[i]) matches Some(res) && (res
                    matches Err(e) && e@ matches LedgerErrorV::GenericBatchError { .. }))),
            !old(self).over_update_limit(args@.len() as int) ==> forall|i: int|
                0 <= i < r@.len() ==> (#[trigger] r@[i]) is Some,
            (!old(self).over_update_limit(args@.len() as int) && args@.len() == 1) ==> (match r@[
                0
            ]->Some_0 {
                Ok(tid) => old(self).approve_token_item_error(caller@, args@[0], now) is None
                    && old(self).approve_token_item_ok(*final(self), caller@, args@[0], now, tid),
                Err(e) => Some(e@) == old(self).approve_token_item_error(caller@, args@[0], now),
            }),
            (old(self).atomic_set() && (exists|i: int|
                0 <= i < r@.len() && (#[trigger] r@[i]) matches Some(Err(_)))) ==> final(self).same_stores(*old(self)),
            !old(self).over_update_limit(args@.len() as int) ==> (exists|
                states: Seq<LedgerState>,
            |
                #[trigger] approve_token_batch_run(states, *old(self), caller@, args@, now, r@)
                    && (!(old(self).atomic_set() && (exists|i: int|
                    0 <= i < r@.len() && (#[trigger] r@[i]) matches Some(Err(_))))
                    ==> states.last() == *final(self))),
    {
        let mut r: Vec<Option<Result<u128, LedgerError>>> = Vec::new();
        let over = match self.icrc7_max_update_batch_size {
            Some(m) => args.len() as u128 > m as u128,
            None => false,
        };
        if over {
            let mut i: usize = 0;
            while i < args.len()
                invariant
                    i <= args@.len(),
                    r@.len() == i,
                    forall|j: int|
                        0 <= j < i ==> ((#[trigger] r@[j]) matches Some(res) && (res
                            matches Err(e) && e@ matches LedgerErrorV::GenericBatchError {
                            ..
                        })),
                decreases args.len() - i,
            {
                r.push(Some(Err(self.batch_limit_error())));
                i = i + 1;
            }
            return r;
        }
        let atomic = match self.icrc7_atomic_batch_transfers {
            Some(b) => b,
            None => false,
        };
        let snap = if atomic {
            Some(self.take_snapshot())
        } else {
            None
        };
        let ghost mut states: Seq<LedgerState> = seq![*old(self)];
        let mut any_err = false;
        let mut i: usize = 0;
        while i < args.len()
            invariant
                self.wf(),
                self.same_config(*old(self)),
                old(self).log.logical_len() + args@.len() <= u128::MAX as int,
                old(self).approvals.token_approvals@.len() + args@.len() <= usize::MAX as int,
                self.log.logical_len() <= old(self).log.logical_len() + i,
                self.approvals.token_approvals@.len() <= old(self).approvals.token_approvals@.len()
                    + i,
                i <= args@.len(),
                r@.len() == i,
                states.len() == i + 1,
                states.first() == *old(self),
                states.last() == *self,
                forall|j: int|
                    0 <= j < i ==> approve_token_step(
                        states[j],
                        states[j + 1],
                        caller@,
                        args@[j],
                        now,
                        #[trigger] r@[j],
                    ),
                atomic == old(self).atomic_set(),
                !old(self).over_update_limit(args@.len() as int),
                match snap {
                    Some(sn) => sn.tokens@ == old(self).tokens@ && tok_entries_view(sn.approvals)
                        == tok_entries_view(old(self).approvals) && coll_entries_view(
                        sn.approvals,
                    ) == coll_entries_view(old(self).approvals) && view_txns(sn.log.txns@)
                        == view_txns(old(self).log.txns@) && sn.log.first_index == old(self).log.first_index && sn.log.latest_hash@ == old(self).log.latest_hash@
                        && sn.log.prefix_hash@ == old(self).log.prefix_hash@ && sn.log.history@
                        == old(self).log.history@ && sn.burned_ids@ == old(self).burned_ids@
                        && sn.records_since_trigger == old(self).archive_ledger_info.records_since_trigger,
                    None => !atomic,
                },
                any_err == (exists|j: int|
                    0 <= j < i && (#[trigger] r@[j]) matches Some(Err(_))),
                forall|j: int| 0 <= j < i ==> (#[trigger] r@[j]) is Some,
                (args@.len() == 1 && i == 1) ==> (match r@[0]->Some_0 {
                    Ok(tid) => old(self).approve_token_item_error(caller@, args@[0], now) is None
                        && old(self).approve_token_item_ok(*self, caller@, args@[0], now, tid),
                    Err(e) => Some(e@) == old(self).approve_token_item_error(
                        caller@,
                        args@[0],
                        now,
                    ),
                }),
                i == 0 ==> *self == *old(self),
            decreases args.len() - i,
        {
            let ghost r_old = r@;
            let ghost prev_err = any_err;
            let res = self.approve_token_item(caller, &args[i], now);
            proof {
                states = states.push(*self);
            }
            let ghost res_v = res;
            if res.is_err() {
                any_err = true;
            }
            r.push(Some(res));
            proof {
                assert(r@ == r_old.push(Some(res_v)));
                assert(r@[i as int] == Some(res_v));
                if any_err {
                    if res_v is Err {
                        assert((r@[i as int]) matches Some(Err(_)));
                    } else {
                        assert(prev_err);
                        let w = choose|j: int|
                            0 <= j < i && (#[trigger] r_old[j]) matches Some(Err(_));
                        assert(r@[w] == r_old[w]);
                        assert((r@[w]) matches Some(Err(_)));
                    }
                }
            }
            i = i + 1;
        }
        proof {
            assert(approve_token_batch_run(states, *old(self), caller@, args@, now, r@));
        }
        if atomic && any_err {
            let sn = match snap {
                Some(s) => s,
                None => vstd::pervasive::unreached(),
            };
            self.restore_snapshot(sn);
            proof {
                assert(self.same_stores(*old(self)));
                lemma_same_stores_wf(*old(self), *self);
            }
        }
        r
    }
}

} // verus!

verus! {

impl LedgerState {
    /// Grants a batch of collection-level approvals from the caller; the
    /// batch rules are those of `icrc7_transfer`.
    pub fn approve_collection(
        &mut self,
        caller: &Vec<u8>,
        args: &Vec<ApproveCollectionArg>,
        now: u64,
    ) -> (r: Vec<Option<Result<u128, LedgerError>>>)
        requires
            old(self).wf(),
            old(self).log.logical_len() + args@.len() <= u128::MAX as int,
            old(self).approvals.collection_approvals@.len() + args@.len() <= usize::MAX as int,
        ensures
            final(self).wf(),
            final(self).same_config(*old(self)),
            r@.len() == args@.len(),
            old(self).over_update_limit(args@.len() as int) ==> final(self).same_stores(
                *old(self),
            ) && (forall|i: int|
                0 <= i < r@.len() ==> ((#[trigger] r@[i]) matches Some(res) && (res
                    matches Err(e) && e@ matches LedgerErrorV::GenericBatchError { .. }))),
            !old(self).over_update_limit(args@.len() as int) ==> forall|i: int|
                0 <= i < r@.len() ==> (#[trigger] r@[i]) is Some,
            (!old(self).over_update_limit(args@.len() as int) && args@.len() == 1) ==> (match r@[
                0
            ]->Some_0 {
                Ok(_) => old(self).approve_collection_item_error(caller@, args@[0], now) is None,
                Err(e) => Some(e@) == old(self).approve_collection_item_error(
                    caller@,
                    args@[0],
                    now,
                ),
            }),
            (!old(self).over_update_limit(args@.len() as int) && args@.len() == 1 && !old(self).atomic_set()) ==> (match r@[0]->Some_0 {
                Ok(_) => crate::approvals::approve_outcome(
                    old(self).approvals.collection_approvals_of(
                        caller_account_v(
                            caller@,
                            view_opt_sub(args@[0].approval_info.from_subaccount),
                        ),
                    ),
                    old(self).approval_of(args@[0].approval_info, now),
                    now,
                    old(self).max_per_list(),
                    old(self).settle_per_list(),
                ) == Ok::<_, ()>(
                    final(self).approvals.collection_approvals_of(
                        caller_account_v(
                            caller@,
                            view_opt_sub(args@[0].approval_info.from_subaccount),
                        ),
                    ),
                ),
                Err(_) => true,
            }),
            (old(self).atomic_set() && (exists|i: int|
                0 <= i < r@.len() && (#[trigger] r@[i]) matches Some(Err(_)))) ==> final(self).same_stores(*old(self)),
            !old(self).over_update_limit(args@.len() as int) ==> (exists|
                states: Seq<LedgerState>,
            |
                #[trigger] approve_collection_batch_run(
                    states,
                    *old(self),
                    caller@,
                    args@,
                    now,
                    r@,
                ) && (!(old(self).atomic_set() && (exists|i: int|
                    0 <= i < r@.len() && (#[trigger] r@[i]) matches Some(Err(_))))
                    ==> states.last() == *final(self))),
    {
        let mut r: Vec<Option<Result<u128, LedgerError>>> = Vec::new();
        let over = match self.icrc7_max_update_batch_size {
            Some(m) => args.len() as u128 > m as u128,
            None => false,
        };
        if over {
            let mut i: usize = 0;
            while i < args.len()
                invariant
                    i <= args@.len(),
                    r@.len() == i,
                    forall|j: int|
                        0 <= j < i ==> ((#[trigger] r@[j]) matches Some(res) && (res
                            matches Err(e) && e@ matches LedgerErrorV::GenericBatchError {
                            ..
                        })),
                decreases args.len() - i,
            {
                r.push(Some(Err(self.batch_limit_error())));
                i = i + 1;
            }
            return r;
        }
        let atomic = match self.icrc7_atomic_batch_transfers {
            Some(b) => b,
            None => false,
        };
        let snap = if atomic {
            Some(self.take_snapshot())
        } else {
            None
        };
        let ghost mut states: Seq<LedgerState> = seq![*old(self)];
        let mut any_err = false;
        let mut i: usize = 0;
        while i < args.len()
            invariant
                self.wf(),
                self.same_config(*old(self)),
                old(self).log.logical_len() + args@.len() <= u128::MAX as int,
                old(self).approvals.collection_approvals@.len() + args@.len()
                    <= usize::MAX as int,
                self.log.logical_len() <= old(self).log.logical_len() + i,
                self.approvals.collection_approvals@.len() <= old(self).approvals.collection_approvals@.len() + i,
                i <= args@.len(),
                r@.len() == i,
                states.len() == i + 1,
                states.first() == *old(self),
                states.last() == *self,
                forall|j: int|
                    0 <= j < i ==> approve_collection_step(
                        states[j],
                        states[j + 1],
                        caller@,
                        args@[j],
                        now,
                        #[trigger] r@[j],
                    ),
                atomic == old(self).atomic_set(),
                !old(self).over_update_limit(args@.len() as int),
                match snap {
                    Some(sn) => sn.tokens@ == old(self).tokens@ && tok_entries_view(sn.approvals)
                        == tok_entries_view(old(self).approvals) && coll_entries_view(
                        sn.approvals,
                    ) == coll_entries_view(old(self).approvals) && view_txns(sn.log.txns@)
                        == view_txns(old(self).log.txns@) && sn.log.first_index == old(self).log.first_index && sn.log.latest_hash@ == old(self).log.latest_hash@
                        && sn.log.prefix_hash@ == old(self).log.prefix_hash@ && sn.log.history@
                        == old(self).log.history@ && sn.burned_ids@ == old(self).burned_ids@
                        && sn.records_since_trigger == old(self).archive_ledger_info.records_since_trigger,
                    None => !atomic,
                },
                any_err == (exists|j: int|
                    0 <= j < i && (#[trigger] r@[j]) matches Some(Err(_))),
                forall|j: int| 0 <= j < i ==> (#[trigger] r@[j]) is Some,
                (args@.len() == 1 && i == 1) ==> (match r@[0]->Some_0 {
                    Ok(_) => old(self).approve_collection_item_error(caller@, args@[0], now)
                        is None && crate::approvals::approve_outcome(
                        old(self).approvals.collection_approvals_of(
                            caller_account_v(
                                caller@,
                                view_opt_sub(args@[0].approval_info.from_subaccount),
                            ),
                        ),
                        old(self).approval_of(args@[0].approval_info, now),
                        now,
                        old(self).max_per_list(),
                        old(self).settle_per_list(),
                    ) == Ok::<_, ()>(
                        self.approvals.collection_approvals_of(
                            caller_account_v(
                                caller@,
                                view_opt_sub(args@[0].approval_info.from_subaccount),
                            ),
                        ),
                    ),
                    Err(e) => Some(e@) == old(self).approve_collection_item_error(
                        caller@,
                        args@[0],
                        now,
                    ),
                }),
                i == 0 ==> *self == *old(self),
            decreases args.len() - i,
        {
            let ghost r_old = r@;
            let ghost prev_err = any_err;
            let res = self.approve_collection_item(caller, &args[i], now);
            proof {
                states = states.push(*self);
            }
            let ghost res_v = res;
            if res.is_err() {
                any_err = true;
            }
            r.push(Some(res));
            proof {
                assert(r@ == r_old.push(Some(res_v)));
                assert(r@[i as int] == Some(res_v));
                if any_err {
                    if res_v is Err {
                        assert((r@[i as int]) matches Some(Err(_)));
                    } else {
                        assert(prev_err);
                        let w = choose|j: int|
                            0 <= j < i && (#[trigger] r_old[j]) matches Some(Err(_));
                        assert(r@[w] == r_old[w]);
                        assert((r@[w]) matches Some(Err(_)));
                    }
                }
            }
            i = i + 1;
        }
        proof {
            assert(approve_collection_batch_run(states, *old(self), caller@, args@, now, r@));
        }
        if atomic && any_err {
            let sn = match snap {
                Some(s) => s,
                None => vstd::pervasive::unreached(),
            };
            self.restore_snapshot(sn);
            proof {
                assert(self.same_stores(*old(self)));
                lemma_same_stores_wf(*old(self), *self);
            }
        }
        r
    }

    /// Revokes a batch of the caller's token-level approvals; a slot's
    /// `Ok(None)` is a successful no-op that appended no block. The batch
    /// rules are those of `icrc7_transfer`.
    pub fn revoke_token_approvals(
        &mut self,
        caller: &Vec<u8>,
        args: &Vec<RevokeTokenApprovalArg>,
        now: u64,
    ) -> (r: Vec<Option<Result<Option<u128>, LedgerError>>>)
        requires
            old(self).wf(),
            old(self).log.logical_len() + args@.len() <= u128::MAX as int,
        ensures
            final(self).wf(),
            final(self).same_config(*old(self)),
            r@.len() == args@.len(),
            old(self).over_update_limit(args@.len() as int) ==> final(self).same_stores(
                *old(self),
            ) && (forall|i: int|
                0 <= i < r@.len() ==> ((#[trigger] r@[i]) matches Some(res) && (res
                    matches Err(e) && e@ matches LedgerErrorV::GenericBatchError { .. }))),
            !old(self).over_update_limit(args@.len() as int) ==> forall|i: int|
                0 <= i < r@.len() ==> (#[trigger] r@[i]) is Some,
            (!old(self).over_update_limit(args@.len() as int) && args@.len() == 1) ==> (match r@[
                0
            ]->Some_0 {
                Ok(opt) => old(self).revoke_token_item_error(caller@, args@[0], now) is None
                    && final(self).approvals.token_approvals_of(args@[0].token_id)
                    == crate::approvals::revoke_outcome(
                    old(self).approvals.token_approvals_of(args@[0].token_id),
                    Self::revoke_spender_v(args@[0].spender),
                ) && (opt is None ==> final(self).log.history@ == old(self).log.history@),
                Err(e) => Some(e@) == old(self).revoke_token_item_error(caller@, args@[0], now)
                    && final(self).same_stores(*old(self)),
            }),
            (old(self).atomic_set() && (exists|i: int|
                0 <= i < r@.len() && (#[trigger] r@[i]) matches Some(Err(_)))) ==> final(self).same_stores(*old(self)),
            !old(self).over_update_limit(args@.len() as int) ==> (exists|
                states: Seq<LedgerState>,
            |
                #[trigger] revoke_token_batch_run(states, *old(self), caller@, args@, now, r@)
                    && (!(old(self).atomic_set() && (exists|i: int|
                    0 <= i < r@.len() && (#[trigger] r@[i]) matches Some(Err(_))))
                    ==> states.last() == *final(self))),
    {
        let mut r: Vec<Option<Result<Option<u128>, LedgerError>>> = Vec::new();
        let over = match self.icrc7_max_update_batch_size {
            Some(m) => args.len() as u128 > m as u128,
            None => false,
        };
        if over {
            let mut i: usize = 0;
            while i < args.len()
                invariant
                    i <= args@.len(),
                    r@.len() == i,
                    forall|j: int|
                        0 <= j < i ==> ((#[trigger] r@[j]) matches Some(res) && (res
                            matches Err(e) && e@ matches LedgerErrorV::GenericBatchError {
                            ..
                        })),
                decreases args.len() - i,
            {
                r.push(Some(Err(self.batch_limit_error())));
                i = i + 1;
            }
            return r;
        }
        let atomic = match self.icrc7_atomic_batch_transfers {
            Some(b) => b,
            None => false,
        };
        let snap = if atomic {
            Some(self.take_snapshot())
        } else {
            None
        };
        let ghost mut states: Seq<LedgerState> = seq![*old(self)];
        let mut any_err = false;
        let mut i: usize = 0;
        while i < args.len()
            invariant
                self.wf(),
                self.same_config(*old(self)),
                old(self).log.logical_len() + args@.len() <= u128::MAX as int,
                self.log.logical_len() <= old(self).log.logical_len() + i,
                i <= args@.len(),
                r@.len() == i,
                states.len() == i + 1,
                states.first() == *old(self),
                states.last() == *self,
                forall|j: int|
                    0 <= j < i ==> revoke_token_step(
                        states[j],
                        states[j + 1],
                        caller@,
                        args@[j],
                        now,
                        #[trigger] r@[j],
                    ),
                atomic == old(self).atomic_set(),
                !old(self).over_update_limit(args@.len() as int),
                match snap {
                    Some(sn) => sn.tokens@ == old(self).tokens@ && tok_entries_view(sn.approvals)
                        == tok_entries_view(old(self).approvals) && coll_entries_view(
                        sn.approvals,
                    ) == coll_entries_view(old(self).approvals) && view_txns(sn.log.txns@)
                        == view_txns(old(self).log.txns@) && sn.log.first_index == old(self).log.first_index && sn.log.latest_hash@ == old(self).log.latest_hash@
                        && sn.log.prefix_hash@ == old(self).log.prefix_hash@ && sn.log.history@
                        == old(self).log.history@ && sn.burned_ids@ == old(self).burned_ids@
                        && sn.records_since_trigger == old(self).archive_ledger_info.records_since_trigger,
                    None => !atomic,
                },
                any_err == (exists|j: int|
                    0 <= j < i && (#[trigger] r@[j]) matches Some(Err(_))),
                forall|j: int| 0 <= j < i ==> (#[trigger] r@[j]) is Some,
                (args@.len() == 1 && i == 1) ==> (match r@[0]->Some_0 {
                    Ok(opt) => old(self).revoke_token_item_error(caller@, args@[0], now) is None
                        && self.approvals.token_approvals_of(args@[0].token_id)
                        == crate::approvals::revoke_outcome(
                        old(self).approvals.token_approvals_of(args@[0].token_id),
                        Self::revoke_spender_v(args@[0].spender),
                    ) && (opt is None ==> self.log.history@ == old(self).log.history@),
                    Err(e) => Some(e@) == old(self).revoke_token_item_error(
                        caller@,
                        args@[0],
                        now,
                    ) && self.same_stores(*old(self)),
                }),
                i == 0 ==> *self == *old(self),
            decreases args.len() - i,
        {
            let ghost r_old = r@;
            let ghost prev_err = any_err;
            let res = self.revoke_token_item(caller, &args[i], now);
            proof {
                states = states.push(*self);
            }
            let ghost res_v = res;
            if res.is_err() {
                any_err = true;
            }
            r.push(Some(res));
            proof {
                assert(r@ == r_old.push(Some(res_v)));
                assert(r@[i as int] == Some(res_v));
                if any_err {
                    if res_v is Err {
                        assert((r@[i as int]) matches Some(Err(_)));
                    } else {
                        assert(prev_err);
                        let w = choose|j: int|
                            0 <= j < i && (#[trigger] r_old[j]) matches Some(Err(_));
                        assert(r@[w] == r_old[w]);
                        assert((r@[w]) matches Some(Err(_)));
                    }
                }
            }
            i = i + 1;
        }
        proof {
            assert(revoke_token_batch_run(states, *old(self), caller@, args@, now, r@));
        }
        if atomic && any_err {
            let sn = match snap {
                Some(s) => s,
                None => vstd::pervasive::unreached(),
            };
            self.restore_snapshot(sn);
            proof {
                assert(self.same_stores(*old(self)));
                lemma_same_stores_wf(*old(self), *self);
            }
        }
        r
    }

    /// Revokes a batch of the caller's collection-level approvals; a slot's
    /// `Ok(None)` is a successful no-op that appended no block.
    pub fn revoke_collection_approvals(
        &mut self,
        caller: &Vec<u8>,
        args: &Vec<RevokeCollectionApprovalArg>,
        now: u64,
    ) -> (r: Vec<Option<Result<Option<u128>, LedgerError>>>)
        requires
            old(self).wf(),
            old(self).log.logical_len() + args@.len() <= u128::MAX as int,
        ensures
            final(self).wf(),
            final(self).same_config(*old(self)),
            r@.len() == args@.len(),
            old(self).over_update_limit(args@.len() as int) ==> final(self).same_stores(
                *old(self),
            ) && (forall|i: int|
                0 <= i < r@.len() ==> ((#[trigger] r@[i]) matches Some(res) && (res
                    matches Err(e) && e@ matches LedgerErrorV::GenericBatchError { .. }))),
            !old(self).over_update_limit(args@.len() as int) ==> forall|i: int|
                0 <= i < r@.len() ==> (#[trigger] r@[i]) is Some,
            (!old(self).over_update_limit(args@.len() as int) && args@.len() == 1) ==> (match r@[
                0
            ]->Some_0 {
                Ok(opt) => final(self).approvals.collection_approvals_of(
                    caller_account_v(caller@, view_opt_sub(args@[0].from_subaccount)),
                ) == crate::approvals::revoke_outcome(
                    old(self).approvals.collection_approvals_of(
                        caller_account_v(caller@, view_opt_sub(args@[0].from_subaccount)),
                    ),
                    Self::revoke_spender_v(args@[0].spender),
                ) && (opt is None ==> final(self).log.history@ == old(self).log.history@),
                Err(_) => false,
            }),
            !old(self).over_update_limit(args@.len() as int) ==> (exists|
                states: Seq<LedgerState>,
            |
                #[trigger] revoke_collection_batch_run(
                    states,
                    *old(self),
                    caller@,
                    args@,
                    now,
                    r@,
                ) && states.last() == *final(self)),
    {
        let mut r: Vec<Option<Result<Option<u128>, LedgerError>>> = Vec::new();
        let over = match self.icrc7_max_update_batch_size {
            Some(m) => args.len() as u128 > m as u128,
            None => false,
        };
        if over {
            let mut i: usize = 0;
            while i < args.len()
                invariant
                    i <= args@.len(),
                    r@.len() == i,
                    forall|j: int|
                        0 <= j < i ==> ((#[trigger] r@[j]) matches Some(res) && (res
                            matches Err(e) && e@ matches LedgerErrorV::GenericBatchError {
                            ..
                        })),
                decreases args.len() - i,
            {
                r.push(Some(Err(self.batch_limit_error())));
                i = i + 1;
            }
            return r;
        }
        let ghost mut states: Seq<LedgerState> = seq![*old(self)];
        let mut i: usize = 0;
        while i < args.len()
            invariant
                states.len() == i + 1,
                states.first() == *old(self),
                states.last() == *self,
                forall|j: int|
                    0 <= j < i ==> revoke_collection_step(
                        states[j],
                        states[j + 1],
                        caller@,
                        args@[j],
                        now,
                        #[trigger] r@[j],
                    ),
                self.wf(),
                self.same_config(*old(self)),
                old(self).log.logical_len() + args@.len() <= u128::MAX as int,
                self.log.logical_len() <= old(self).log.logical_len() + i,
                i <= args@.len(),
                r@.len() == i,
                !old(self).over_update_limit(args@.len() as int),
                forall|j: int| 0 <= j < i ==> (#[trigger] r@[j]) is Some,
                (args@.len() == 1 && i == 1) ==> (match r@[0]->Some_0 {
                    Ok(opt) => self.approvals.collection_approvals_of(
                        caller_account_v(caller@, view_opt_sub(args@[0].from_subaccount)),
                    ) == crate::approvals::revoke_outcome(
                        old(self).approvals.collection_approvals_of(
                            caller_account_v(caller@, view_opt_sub(args@[0].from_subaccount)),
                        ),
                        Self::revoke_spender_v(args@[0].spender),
                    ) && (opt is None ==> self.log.history@ == old(self).log.history@),
                    Err(_) => false,
                }),
                i == 0 ==> *self == *old(self),
            decreases args.len() - i,
        {
            let ghost r_old = r@;
            let res = self.revoke_collection_item(caller, &args[i], now);
            proof {
                states = states.push(*self);
            }
            let ghost res_v = res;
            r.push(Some(res));
            proof {
                assert(r@ == r_old.push(Some(res_v)));
                assert(r@[i as int] == Some(res_v));
            }
            i = i + 1;
        }
        proof {
            assert(revoke_collection_batch_run(states, *old(self), caller@, args@, now, r@));
        }
        r
    }

    /// Whether the archival trigger should fire now.
    pub fn should_archive(&self) -> (r: bool)
        ensures
            r == self.archive_ledger_info.should_trigger(self.log.live_len()),
    {
        let idle = match self.archive_ledger_info.state {
            ArchiveState::Idle => true,
            _ => false,
        };
        if !idle {
            return false;
        }
        let s = &self.archive_ledger_info.setting;
        let cap_hit = if s.max_active_records > s.max_records_in_archive_instance {
            true
        } else {
            self.log.txns.len() as u128 > s.max_records_in_archive_instance
                - s.max_active_records
        };
        let count_hit = self.archive_ledger_info.records_since_trigger
            >= s.max_records_to_archive;
        cap_hit || count_hit
    }

    /// Fires the archival trigger: re-encodes the prefix to export as
    /// hash-linked blocks and hands it out with its starting index; the
    /// trigger stands in `Archiving` until the export is acknowledged. With
    /// nothing to export the trigger stays idle and nothing is handed out.
    pub fn start_archive_export(&mut self) -> (r: Option<(u128, Vec<Block>)>)
        requires
            old(self).wf(),
            old(self).archive_ledger_info.should_trigger(old(self).log.live_len()),
        ensures
            final(self).wf(),
            final(self).log.history@ == old(self).log.history@,
            final(self).same_stores_but_archive(*old(self)),
            final(self).log.first_index == old(self).log.first_index,
            view_txns(final(self).log.txns@) == view_txns(old(self).log.txns@),
            final(self).log.prefix_hash@ == old(self).log.prefix_hash@,
            final(self).archive_ledger_info.archives == old(self).archive_ledger_info.archives,
            final(self).archive_ledger_info.supported_blocks == old(
                self,
            ).archive_ledger_info.supported_blocks,
            final(self).archive_ledger_info.records_since_trigger == 0,
            r is Some <==> old(self).archive_ledger_info.export_count(old(self).log.live_len())
                > 0,
            match r {
                Some((start, blocks)) => final(self).archive_ledger_info.state is Archiving
                    && final(self).archive_ledger_info.pending_export == blocks@.len() as u128
                    && blocks@.len() as int == old(self).archive_ledger_info.export_count(
                    old(self).log.live_len(),
                ) && start == old(self).log.first_index && blocks@.len() <= old(self).log.live_len() && (forall|i: int|
                    0 <= i < blocks@.len() ==> (#[trigger] blocks@[i]@) == crate::log::block_value_v(
                        crate::log::chain_hash(
                            old(self).log.history@.take(old(self).log.first_index as int + i),
                        ),
                        old(self).log.history@[old(self).log.first_index as int + i],
                    )),
                None => final(self).archive_ledger_info.state is Idle && final(self).archive_ledger_info.pending_export == 0,
            },
    {
        let live = self.log.txns.len();
        let mut info = ArchiveLedgerInfo {
            archives: Vec::new(),
            supported_blocks: Vec::new(),
            state: ArchiveState::Idle,
            records_since_trigger: 0,
            pending_export: 0,
            setting: ArchiveSetting::default(),
        };
        core::mem::swap(&mut info, &mut self.archive_ledger_info);
        let count = info.start_archiving(live);
        core::mem::swap(&mut info, &mut self.archive_ledger_info);
        if count == 0 {
            return None;
        }
        let blocks = self.log.export_blocks(count);
        Some((self.log.first_index, blocks))
    }

    /// The store projections an archival step leaves alone: everything but
    /// the trigger's own bookkeeping and the live/archived split.
    pub open spec fn same_stores_but_archive(self, other: LedgerState) -> bool {
        &&& self.tokens@ == other.tokens@
        &&& tok_entries_view(self.approvals) == tok_entries_view(other.approvals)
        &&& coll_entries_view(self.approvals) == coll_entries_view(other.approvals)
        &&& self.log.history@ == other.log.history@
        &&& self.log.latest_hash@ == other.log.latest_hash@
        &&& self.burned_ids@ == other.burned_ids@
        &&& self.minting_authority == other.minting_authority
        &&& self.icrc7_supply_cap == other.icrc7_supply_cap
        &&& self.approval_ledger_info == other.approval_ledger_info
        &&& self.archive_ledger_info.setting == other.archive_ledger_info.setting
        &&& self.tx_window == other.tx_window
        &&& self.permitted_drift == other.permitted_drift
    }

    /// Records a successful export and settles: the archive now owns the
    /// exported range, the exported prefix leaves live storage, and the
    /// trigger is idle again. The logical log and the hash chain are
    /// unchanged: transaction indices stay contiguous across the boundary.
    pub fn archive_export_done(&mut self, canister_id: Vec<u8>)
        requires
            old(self).wf(),
            old(self).archive_ledger_info.state is Archiving,
            old(self).archive_ledger_info.pending_export <= old(self).log.live_len(),
        ensures
            final(self).wf(),
            final(self).log.history@ == old(self).log.history@,
            final(self).same_stores_but_archive(*old(self)),
            final(self).archive_ledger_info.state is Idle,
            final(self).archive_ledger_info.pending_export == 0,
            final(self).log.first_index as int == old(self).log.first_index as int + old(self).archive_ledger_info.pending_export as int,
            final(self).log.live_len() == old(self).log.live_len() - old(self).archive_ledger_info.pending_export as int,
            final(self).archive_ledger_info.archives@.len() == old(self).archive_ledger_info.archives@.len() + 1,
    {
        let count_u128 = self.archive_ledger_info.pending_export;
        let live_now: usize = self.log.txns.len();
        proof {
            assert(count_u128 as int <= self.log.live_len());
            assert(live_now as int == self.log.txns@.len());
        }
        let count: usize = count_u128 as usize;
        let start = self.log.first_index;
        let mut info = ArchiveLedgerInfo {
            archives: Vec::new(),
            supported_blocks: Vec::new(),
            state: ArchiveState::Idle,
            records_since_trigger: 0,
            pending_export: 0,
            setting: ArchiveSetting::default(),
        };
        core::mem::swap(&mut info, &mut self.archive_ledger_info);
        info.record_export(canister_id, start, count_u128);
        self.log.drop_prefix(count);
        info.settle_done();
        core::mem::swap(&mut info, &mut self.archive_ledger_info);
    }

    /// Mints one token and grants the minting authority a transfer approval
    /// over it, so the authority can move it later on the owner's behalf.
    /// The grant is made by the new owner's account; it fails only when the
    /// approval limit cannot be satisfied even after eviction, and the mint
    /// stands either way.
    pub fn mint_and_grant_transfer_approval(
        &mut self,
        caller: &Vec<u8>,
        arg: MintArg,
        now: u64,
    ) -> (r: Result<(u128, u128), LedgerError>)
        requires
            old(self).wf(),
            old(self).log.logical_len() + 2 <= u128::MAX as int,
            old(self).tokens@.len() + 1 <= usize::MAX as int,
            old(self).approvals.token_approvals@.len() + 1 <= usize::MAX as int,
        ensures
            final(self).wf(),
            final(self).same_config(*old(self)),
            match r {
                Ok((tid, token_id)) => {
                    let to = arg.to@.normalized();
                    let authority = old(self).minting_authority_v()->Some_0;
                    let ap = ApprovalV {
                        spender: authority.normalized(),
                        expires_at: None,
                        created_at: now,
                        memo: None,
                    };
                    let outcome = crate::approvals::approve_outcome(
                        old(self).approvals.token_approvals_of(arg.token_id),
                        ap,
                        now,
                        old(self).max_per_list(),
                        old(self).settle_per_list(),
                    );
                    let mint_tx = crate::log::with_tid(
                        TransactionV {
                            op: "7mint"@,
                            tid: 0,
                            ts: now,
                            from: None,
                            to: Some(to),
                            spender: None,
                            token_id: Some(arg.token_id),
                            exp: None,
                            created_at: None,
                            memo: view_opt_memo(arg.memo),
                            meta: Some(view_entries(arg.token_metadata@)),
                        },
                        tid,
                    );
                    let grant_tx = crate::log::with_tid(
                        TransactionV {
                            op: "37appr"@,
                            tid: 0,
                            ts: now,
                            from: Some(to),
                            to: None,
                            spender: Some(authority.normalized()),
                            token_id: Some(arg.token_id),
                            exp: None,
                            created_at: Some(now),
                            memo: None,
                            meta: None,
                        },
                        (tid + 1) as u128,
                    );
                    &&& token_id == arg.token_id
                    &&& old(self).mint_item_error(caller@, arg, now) is None
                    &&& tid as int == old(self).log.logical_len()
                    &&& final(self).tokens@.len() == old(self).tokens@.len() + 1
                    &&& final(self).tokens.has_id(arg.token_id)
                    &&& final(self).tokens.token_at(arg.token_id) == (TokenV {
                        token_id: arg.token_id,
                        owner: to,
                        metadata: view_entries(arg.token_metadata@),
                    })
                    &&& forall|x: u128|
                        final(self).tokens.has_id(x) <==> (old(self).tokens.has_id(x) || x
                            == arg.token_id)
                    &&& forall|x: u128|
                        old(self).tokens.has_id(x) ==> final(self).tokens.token_at(x) == old(self).tokens.token_at(x)
                    &&& final(self).burned_ids@ == old(self).burned_ids@
                    &&& final(self).approvals.collection_approvals == old(self).approvals.collection_approvals
                    &&& forall|x: u128|
                        x != arg.token_id ==> final(self).approvals.token_approvals_of(x) == old(self).approvals.token_approvals_of(x)
                    &&& final(self).log.first_index == old(self).log.first_index
                    &&& (match outcome {
                        Ok(nl) => final(self).approvals.token_approvals_of(arg.token_id) == nl
                            && final(self).log.history@ == old(self).log.history@.push(
                            mint_tx,
                        ).push(grant_tx) && final(self).archive_ledger_info.records_since_trigger
                            == bumped_val(
                            bumped_val(old(self).archive_ledger_info.records_since_trigger),
                        ),
                        Err(_) => final(self).approvals.token_approvals_of(arg.token_id)
                            == crate::approvals::approve_room(
                            old(self).approvals.token_approvals_of(arg.token_id),
                            now,
                            old(self).max_per_list(),
                            old(self).settle_per_list(),
                        ) && final(self).log.history@ == old(self).log.history@.push(mint_tx)
                            && final(self).archive_ledger_info.records_since_trigger
                            == bumped_val(old(self).archive_ledger_info.records_since_trigger),
                    })
                },
                Err(e) => Some(e@) == old(self).mint_item_error(caller@, arg, now) && final(self).same_stores(*old(self)),
            },
    {
        let token_id = arg.token_id;
        let ghost to_v = arg.to@.normalized();
        let tid = match self.mint_item(caller, &arg, now) {
            Ok(tid) => tid,
            Err(e) => {
                return Err(e);
            },
        };
        let ghost mid = *self;
        let authority = match self.icrc7_minting_authority() {
            Some(a) => a,
            None => {
                proof {
                    assert(false);
                }
                return Ok((tid, token_id));
            },
        };
        proof {
            assert(authority@ == old(self).minting_authority_v()->Some_0);
            assert(tok_entries_view(mid.approvals).len()
                == mid.approvals.token_approvals@.len());
            assert(tok_entries_view(old(self).approvals).len() == old(self).approvals.token_approvals@.len());
            lemma_tok_view_eq_approvals(old(self).approvals, mid.approvals);
        }
        let approve_arg = ApproveTokenArg {
            token_id,
            approval_info: ApprovalInfo::new(
                match &arg.to.subaccount {
                    Some(s) => Some(crate::value::copy_bytes(s)),
                    None => None,
                },
                authority,
                None,
                None,
                Some(now),
            ),
        };
        let owner_principal = crate::value::copy_bytes(&arg.to.owner);
        proof {
            assert(caller_account_v(
                owner_principal@,
                view_opt_sub(approve_arg.approval_info.from_subaccount),
            ) =~= to_v);
            assert(mid.tokens.token_at(token_id).owner == to_v);
            assert(mid.approval_of(approve_arg.approval_info, now) =~= (ApprovalV {
                spender: authority@.normalized(),
                expires_at: None,
                created_at: now,
                memo: None,
            }));
            assert(!mid.memo_too_large(view_opt_memo(approve_arg.approval_info.memo)));
        }
        let res2 = self.approve_token_item(&owner_principal, &approve_arg, now);
        proof {
            lemma_token_view_eq(mid.tokens, self.tokens);
            if res2 is Err {
                assert(mid.approve_token_item_error(owner_principal@, approve_arg, now)
                    == Some(LedgerErrorV::TooManyApprovals));
            }
        }
        Ok((tid, token_id))
    }

    /// Transfers one token under an approval and then attempts to grant the
    /// minting authority a transfer approval from the previous owner, as the
    /// original dispatch did; since the ownership already moved, that grant
    /// is always refused, so a successful call has exactly the transfer's
    /// effects.
    pub fn transfer_from_and_grant_transfer_approval(
        &mut self,
        caller: &Vec<u8>,
        arg: TransferFromArg,
        now: u64,
    ) -> (r: Result<u128, LedgerError>)
        requires
            old(self).wf(),
            old(self).log.logical_len() + 2 <= u128::MAX as int,
            old(self).approvals.token_approvals@.len() + 1 <= usize::MAX as int,
        ensures
            final(self).wf(),
            final(self).same_config(*old(self)),
            match r {
                Ok(tid) => old(self).transfer_from_item_error(caller@, arg, now) is None && old(self).transfer_from_item_ok(*final(self), caller@, arg, now, tid),
                Err(e) => Some(e@) == old(self).transfer_from_item_error(caller@, arg, now)
                    && final(self).same_stores(*old(self)),
            },
    {
        let ghost from_v = arg.from@.normalized();
        let ghost to_v = arg.to@.normalized();
        let tid = match self.transfer_from_item(caller, &arg, now) {
            Ok(tid) => tid,
            Err(e) => {
                return Err(e);
            },
        };
        let ghost mid = *self;
        let authority = match self.icrc7_minting_authority() {
            Some(a) => a,
            None => {
                return Ok(tid);
            },
        };
        let approve_arg = ApproveTokenArg {
            token_id: arg.token_id,
            approval_info: ApprovalInfo::new(
                match &arg.from.subaccount {
                    Some(s) => Some(crate::value::copy_bytes(s)),
                    None => None,
                },
                authority,
                None,
                None,
                Some(now),
            ),
        };
        let owner_principal = crate::value::copy_bytes(&arg.from.owner);
        proof {
            let idx = old(self).tokens.index_of(arg.token_id);
            assert(old(self).tokens.has_id(arg.token_id));
            assert(0 <= idx < old(self).tokens@.len() && old(self).tokens@[idx].token_id
                == arg.token_id);
            assert(mid.tokens@[idx].token_id == arg.token_id);
            assert(mid.tokens.has_id(arg.token_id));
            assert(mid.tokens.index_of(arg.token_id) == idx) by {
                let u = mid.tokens.index_of(arg.token_id);
                assert(mid.tokens@[u].token_id == arg.token_id);
                if u != idx {
                    assert(mid.tokens@[u].token_id != mid.tokens@[idx].token_id);
                }
            }
            assert(mid.tokens.token_at(arg.token_id).owner == to_v);
            assert(caller_account_v(
                owner_principal@,
                view_opt_sub(approve_arg.approval_info.from_subaccount),
            ) =~= from_v);
            assert(to_v != from_v);
            assert(mid.approve_token_item_error(owner_principal@, approve_arg, now) == Some(
                LedgerErrorV::NotOwner,
            ));
        }
        if self.approvals.token_approvals.len() < usize::MAX {
            let _ = self.approve_token_item(&owner_principal, &approve_arg, now);
        }
        proof {
            assert(self.same_stores(mid));
            lemma_token_view_eq(mid.tokens, self.tokens);
            lemma_tok_view_eq_approvals(mid.approvals, self.approvals);
            assert(self.tokens@ == mid.tokens@);
        }
        Ok(tid)
    }
}

} // verus!
