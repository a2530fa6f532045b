//! Laws of the ledger engine that relate several operations or hold of every
//! state, stated and proved once over the same models the operations'
//! contracts use.

use vstd::prelude::*;
use crate::account::AccountV;
use crate::hashing::hash_of;
use crate::ledger::{caller_account_v, view_opt_memo, view_opt_sub, LedgerState, TransferArg};
use crate::log::{block_value_v, chain_hash, lemma_chain_hash_step, TransactionLog};
use crate::value::{EntryV, ValueV};

verus! {

/// Under any sequence of operations, the live token id set stays inside the
/// ids ever minted less the ids ever burned: a retired id is never live, and
/// the ids ever minted are exactly the live ids and the retired ids
/// together.
pub proof fn lemma_live_ids_subset_of_minted(s: LedgerState)
    requires
        s.wf(),
    ensures
        forall|id: u128|
            s.tokens.has_id(id) ==> s.minted_ever(id) && !s.burned_ids@.contains(id),
        forall|id: u128| s.minted_ever(id) <==> (s.tokens.has_id(id) || s.burned_ids@.contains(id)),
{
    assert forall|id: u128|
        s.tokens.has_id(id) implies s.minted_ever(id) && !s.burned_ids@.contains(id) by {
        let w = choose|i: int| 0 <= i < s.tokens@.len() && s.tokens@[i].token_id == id;
        assert(!s.burned_ids@.contains(s.tokens@[w].token_id));
    }
}

/// Archival round-trip: every block of the logical log, archived or live, is
/// the one deterministic encoding of its transaction chained onto everything
/// before it. Re-encoding the same range reproduces the same block values,
/// the `phash` entry of block `k` is the chain hash of blocks `0 .. k`, and
/// the chain hash moves across any storage boundary — the archive/live split
/// at `first_index` included, where the stored prefix hash equals the chain
/// hash of the archived prefix.
pub proof fn lemma_archival_round_trip(log: TransactionLog, k: int)
    requires
        log.wf(),
        0 <= k < log.history@.len(),
    ensures
        block_value_v(chain_hash(log.history@.take(k)), log.history@[k]) matches ValueV::Dict(
            entries,
        ) && entries[0] == (EntryV {
            key: "phash"@,
            val: ValueV::Blob(chain_hash(log.history@.take(k))),
        }),
        chain_hash(log.history@.take(k + 1)) == hash_of(
            block_value_v(chain_hash(log.history@.take(k)), log.history@[k]),
        ),
        k == log.first_index as int ==> log.prefix_hash@ == chain_hash(log.history@.take(k)),
        k + 1 == log.history@.len() ==> log.latest_hash@ == hash_of(
            block_value_v(chain_hash(log.history@.take(k)), log.history@[k]),
        ),
{
    lemma_chain_hash_step(log.history@, k);
    if k + 1 == log.history@.len() {
        assert(log.history@.take(k + 1) =~= log.history@);
    }
}

/// Idempotence of transfers inside the dedup window: after a transfer
/// committed under transaction index `tid`, submitting the identical request
/// (same memo, endpoints, token id and creation time) is answered with
/// `Duplicate` carrying that same `tid` — and, being an error, commits no
/// second ownership change.
pub proof fn lemma_transfer_idempotent(
    pre: LedgerState,
    post: LedgerState,
    caller: Seq<u8>,
    a: TransferArg,
    tid: u128,
    now1: u64,
    now2: u64,
)
    requires
        pre.wf(),
        pre.transfer_item_error(caller, a, now1) is None,
        pre.transfer_item_ok(post, caller, a, now1, tid),
        post.tx_window == pre.tx_window,
        post.permitted_drift == pre.permitted_drift,
        a.created_at_time is Some,
        !post.too_old(a.created_at_time->Some_0, now2),
        !post.created_in_future(a.created_at_time->Some_0, now2),
    ensures
        post.transfer_item_error(caller, a, now2) == Some(
            crate::errors::LedgerErrorV::Duplicate { duplicate_of: tid },
        ),
{
    let from = caller_account_v(caller, view_opt_sub(a.from_subaccount));
    let to = a.to@.normalized();
    let c = a.created_at_time->Some_0;
    let idx = pre.tokens.index_of(a.token_id);
    assert(0 <= idx < pre.tokens@.len() && pre.tokens@[idx].token_id == a.token_id) by {
        assert(pre.tokens.has_id(a.token_id));
    }
    assert(post.tokens@[idx].token_id == a.token_id);
    assert(post.tokens.has_id(a.token_id));
    let tx = crate::log::with_tid(
        crate::ledger::xfer_tx_v(
            "7xfer"@,
            from,
            to,
            None,
            a.token_id,
            view_opt_memo(a.memo),
            a.created_at_time,
            now1,
        ),
        tid,
    );
    assert(crate::ledger::dup_match(tx, "7xfer"@, from, to, a.token_id, view_opt_memo(a.memo), c));
    assert(crate::ledger::find_dup(
        pre.log.history@,
        pre.log.first_index as int,
        "7xfer"@,
        from,
        to,
        a.token_id,
        view_opt_memo(a.memo),
        c,
    ) is None);
    crate::ledger::lemma_find_dup_push(
        pre.log.history@,
        pre.log.first_index as int,
        "7xfer"@,
        from,
        to,
        a.token_id,
        view_opt_memo(a.memo),
        c,
        tx,
    );
    assert(post.log.history@ == pre.log.history@.push(tx));
    assert(crate::ledger::find_dup(
        post.log.history@,
        post.log.first_index as int,
        "7xfer"@,
        from,
        to,
        a.token_id,
        view_opt_memo(a.memo),
        c,
    ) == Some(tid));
}

} // verus!
