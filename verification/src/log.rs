//! The transaction log: an append-only sequence of hash-linked blocks, one
//! per completed state-changing operation. Block `n` records the hash of
//! block `n - 1` (the genesis block records the fixed zero hash); transaction
//! indices (`tid`) are dense across the logical sequence, live and archived
//! alike, even though physical storage splits at the archive boundary.

use vstd::prelude::*;
use crate::account::{Account, AccountV};
use crate::hashing::{hash_of, hash_value, zero_hash};
use crate::value::{
    lemma_view_entries, lemma_view_entries_push, view_entries, Entry, EntryV, Value, ValueV,
};

verus! {

/// One immutable record of a completed ledger operation.
pub struct Transaction {
    /// The operation tag, such as "7mint" or "37xfer".
    pub op: String,
    /// The transaction index: dense and strictly increasing across the log.
    pub tid: u128,
    /// The ledger timestamp when the block was appended.
    pub ts: u64,
    pub from: Option<Account>,
    pub to: Option<Account>,
    pub spender: Option<Account>,
    pub token_id: Option<u128>,
    /// The expiry named by an approval operation.
    pub exp: Option<u64>,
    /// The request's creation time, kept for deduplication.
    pub created_at: Option<u64>,
    pub memo: Option<Vec<u8>>,
    pub meta: Option<Vec<Entry>>,
}

/// The mathematical model of a `Transaction`.
pub struct TransactionV {
    pub op: Seq<char>,
    pub tid: u128,
    pub ts: u64,
    pub from: Option<AccountV>,
    pub to: Option<AccountV>,
    pub spender: Option<AccountV>,
    pub token_id: Option<u128>,
    pub exp: Option<u64>,
    pub created_at: Option<u64>,
    pub memo: Option<Seq<u8>>,
    pub meta: Option<Seq<EntryV>>,
}

pub open spec fn view_opt_account(a: Option<Account>) -> Option<AccountV> {
    match a {
        Some(x) => Some(x@),
        None => None,
    }
}

impl View for Transaction {
    type V = TransactionV;

    open spec fn view(&self) -> TransactionV {
        TransactionV {
            op: self.op@,
            tid: self.tid,
            ts: self.ts,
            from: view_opt_account(self.from),
            to: view_opt_account(self.to),
            spender: view_opt_account(self.spender),
            token_id: self.token_id,
            exp: self.exp,
            created_at: self.created_at,
            memo: match self.memo {
                Some(m) => Some(m@),
                None => None,
            },
            meta: match self.meta {
                Some(m) => Some(view_entries(m@)),
                None => None,
            },
        }
    }
}

impl Transaction {
    /// Copies a transaction; the copy models the same record.
    pub fn copy(&self) -> (r: Transaction)
        ensures
            r@ == self@,
    {
        let r = Transaction {
            op: self.op.clone(),
            tid: self.tid,
            ts: self.ts,
            from: copy_opt_account(&self.from),
            to: copy_opt_account(&self.to),
            spender: copy_opt_account(&self.spender),
            token_id: self.token_id,
            exp: self.exp,
            created_at: self.created_at,
            memo: match &self.memo {
                Some(m) => Some(crate::value::copy_bytes(m)),
                None => None,
            },
            meta: match &self.meta {
                Some(m) => Some(crate::value::copy_entries(m)),
                None => None,
            },
        };
        assert(r@ =~= self@);
        r
    }
}

/// Copies an optional account by contents.
pub fn copy_opt_account(a: &Option<Account>) -> (r: Option<Account>)
    ensures
        view_opt_account(r) == view_opt_account(*a),
{
    match a {
        Some(x) => Some(x.copy()),
        None => None,
    }
}

/// The model of the generic-value encoding of an account: an array of the
/// owner blob and, when present, the subaccount blob.
pub open spec fn account_value_v(a: AccountV) -> ValueV {
    ValueV::Array(
        seq![ValueV::Blob(a.owner)] + match a.subaccount {
            Some(s) => seq![ValueV::Blob(s)],
            None => Seq::empty(),
        },
    )
}

/// Encodes an account as a generic value.
pub fn account_value(a: &Account) -> (r: Value)
    ensures
        r@ == account_value_v(a@),
{
    let mut parts: Vec<Value> = Vec::new();
    parts.push(Value::Blob(crate::value::copy_bytes(&a.owner)));
    match &a.subaccount {
        Some(s) => {
            parts.push(Value::Blob(crate::value::copy_bytes(s)));
        },
        None => {},
    }
    let r = Value::Array(parts);
    proof {
        crate::value::lemma_view_values(r->Array_0@);
        assert(r@ matches ValueV::Array(s) && s =~= account_value_v(a@)->Array_0);
    }
    r
}

/// The entry a present `u128` field contributes to the `tx` map.
pub open spec fn opt_u128_entries(key: Seq<char>, v: Option<u128>) -> Seq<EntryV> {
    match v {
        Some(x) => seq![EntryV { key, val: ValueV::Nat(x) }],
        None => Seq::empty(),
    }
}

/// The entry a present timestamp field contributes to the `tx` map; the
/// block format carries timestamps as unbounded naturals.
pub open spec fn opt_u64_entries(key: Seq<char>, v: Option<u64>) -> Seq<EntryV> {
    match v {
        Some(x) => seq![EntryV { key, val: ValueV::Nat(x as u128) }],
        None => Seq::empty(),
    }
}

/// The entry a present account field contributes to the `tx` map.
pub open spec fn opt_account_entries(key: Seq<char>, a: Option<AccountV>) -> Seq<EntryV> {
    match a {
        Some(x) => seq![EntryV { key, val: account_value_v(x) }],
        None => Seq::empty(),
    }
}

/// The entry a present blob field contributes to the `tx` map.
pub open spec fn opt_blob_entries(key: Seq<char>, b: Option<Seq<u8>>) -> Seq<EntryV> {
    match b {
        Some(x) => seq![EntryV { key, val: ValueV::Blob(x) }],
        None => Seq::empty(),
    }
}

/// The entry a present metadata map contributes to the `tx` map.
pub open spec fn opt_dict_entries(key: Seq<char>, m: Option<Seq<EntryV>>) -> Seq<EntryV> {
    match m {
        Some(x) => seq![EntryV { key, val: ValueV::Dict(x) }],
        None => Seq::empty(),
    }
}

/// The model of the entries of a block's inner `tx` map, in their fixed order.
pub open spec fn tx_entries_v(tx: TransactionV) -> Seq<EntryV> {
    seq![EntryV { key: "tid"@, val: ValueV::Nat(tx.tid) }]
        + opt_u128_entries("token_id"@, tx.token_id) + opt_account_entries("from"@, tx.from)
        + opt_account_entries("to"@, tx.to) + opt_account_entries("spender"@, tx.spender)
        + opt_u64_entries("exp"@, tx.exp) + opt_dict_entries("meta"@, tx.meta)
        + opt_blob_entries("memo"@, tx.memo)
        + seq![EntryV { key: "ts"@, val: ValueV::Nat(tx.ts as u128) }]
}

/// The model of a whole block: the previous block's hash, the operation tag,
/// the timestamp, and the inner `tx` map.
pub open spec fn block_value_v(phash: Seq<u8>, tx: TransactionV) -> ValueV {
    ValueV::Dict(
        seq![
            EntryV { key: "phash"@, val: ValueV::Blob(phash) },
            EntryV { key: "btype"@, val: ValueV::Text(tx.op) },
            EntryV { key: "ts"@, val: ValueV::Nat(tx.ts as u128) },
            EntryV { key: "tx"@, val: ValueV::Dict(tx_entries_v(tx)) },
        ],
    )
}

/// One hash-linked block: the generic-value encoding of a transaction
/// together with the previous block's hash.
pub struct Block(Value);

impl View for Block {
    type V = ValueV;

    closed spec fn view(&self) -> ValueV {
        self.0@
    }
}

impl Block {
    /// Encodes a transaction and the previous block's hash as a block.
    #[verifier::rlimit(60)]
    pub fn new(phash: &Vec<u8>, tx: &Transaction) -> (r: Block)
        ensures
            r@ == block_value_v(phash@, tx@),
    {
        let mut inner: Vec<Entry> = Vec::new();

        let e = Entry { key: "tid".to_owned(), val: Value::Nat(tx.tid) };
        proof {
            lemma_view_entries_push(inner@, e);
        }
        inner.push(e);
        let ghost mut acc: Seq<EntryV> = seq![EntryV { key: "tid"@, val: ValueV::Nat(tx.tid) }];
        assert(view_entries(inner@) =~= acc);

        match &tx.token_id {
            Some(id) => {
                let e = Entry { key: "token_id".to_owned(), val: Value::Nat(*id) };
                proof {
                    lemma_view_entries_push(inner@, e);
                }
                inner.push(e);
            },
            None => {},
        }
        proof {
            acc = acc + opt_u128_entries("token_id"@, tx@.token_id);
            assert(view_entries(inner@) =~= acc);
        }
        match &tx.from {
            Some(a) => {
                let e = Entry { key: "from".to_owned(), val: account_value(a) };
                proof {
                    lemma_view_entries_push(inner@, e);
                }
                inner.push(e);
            },
            None => {},
        }
        proof {
            acc = acc + opt_account_entries("from"@, tx@.from);
            assert(view_entries(inner@) =~= acc);
        }
        match &tx.to {
            Some(a) => {
                let e = Entry { key: "to".to_owned(), val: account_value(a) };
                proof {
                    lemma_view_entries_push(inner@, e);
                }
                inner.push(e);
            },
            None => {},
        }
        proof {
            acc = acc + opt_account_entries("to"@, tx@.to);
            assert(view_entries(inner@) =~= acc);
        }
        match &tx.spender {
            Some(a) => {
                let e = Entry { key: "spender".to_owned(), val: account_value(a) };
                proof {
                    lemma_view_entries_push(inner@, e);
                }
                inner.push(e);
            },
            None => {},
        }
        proof {
            acc = acc + opt_account_entries("spender"@, tx@.spender);
            assert(view_entries(inner@) =~= acc);
        }
        match &tx.exp {
            Some(x) => {
                let e = Entry { key: "exp".to_owned(), val: Value::Nat(*x as u128) };
                proof {
                    lemma_view_entries_push(inner@, e);
                }
                inner.push(e);
            },
            None => {},
        }
        proof {
            acc = acc + opt_u64_entries("exp"@, tx@.exp);
            assert(view_entries(inner@) =~= acc);
        }
        match &tx.meta {
            Some(m) => {
                let e = Entry {
                    key: "meta".to_owned(),
                    val: Value::Dict(crate::value::copy_entries(m)),
                };
                proof {
                    lemma_view_entries_push(inner@, e);
                }
                inner.push(e);
            },
            None => {},
        }
        proof {
            acc = acc + opt_dict_entries("meta"@, tx@.meta);
            assert(view_entries(inner@) =~= acc);
        }
        match &tx.memo {
            Some(b) => {
                let e = Entry {
                    key: "memo".to_owned(),
                    val: Value::Blob(crate::value::copy_bytes(b)),
                };
                proof {
                    lemma_view_entries_push(inner@, e);
                }
                inner.push(e);
            },
            None => {},
        }
        proof {
            acc = acc + opt_blob_entries("memo"@, tx@.memo);
            assert(view_entries(inner@) =~= acc);
        }
        let e = Entry { key: "ts".to_owned(), val: Value::Nat(tx.ts as u128) };
        proof {
            lemma_view_entries_push(inner@, e);
        }
        inner.push(e);
        proof {
            acc = acc + seq![EntryV { key: "ts"@, val: ValueV::Nat(tx.ts as u128) }];
            assert(view_entries(inner@) =~= acc);
            assert(acc =~= tx_entries_v(tx@));
        }

        let mut outer: Vec<Entry> = Vec::new();
        let e = Entry { key: "phash".to_owned(), val: Value::Blob(crate::value::copy_bytes(phash)) };
        proof {
            lemma_view_entries_push(outer@, e);
        }
        outer.push(e);
        let e = Entry { key: "btype".to_owned(), val: Value::Text(tx.op.clone()) };
        proof {
            lemma_view_entries_push(outer@, e);
        }
        outer.push(e);
        let e = Entry { key: "ts".to_owned(), val: Value::Nat(tx.ts as u128) };
        proof {
            lemma_view_entries_push(outer@, e);
        }
        outer.push(e);
        let e = Entry { key: "tx".to_owned(), val: Value::Dict(inner) };
        proof {
            lemma_view_entries_push(outer@, e);
        }
        outer.push(e);

        let r = Block(Value::Dict(outer));
        assert(r@ matches ValueV::Dict(s) && s =~= block_value_v(phash@, tx@)->Dict_0);
        r
    }

    /// Wraps a map's entries as a block, as the original's conversion from
    /// a generic-value map did.
    pub fn from_map(entries: Vec<Entry>) -> (r: Block)
        ensures
            r@ == ValueV::Dict(view_entries(entries@)),
    {
        Block(Value::Dict(entries))
    }

    /// Accepts a generic value as a block only when it is a map value,
    /// as the original's checked conversion did.
    pub fn from_value(v: Value) -> (r: Result<Block, String>)
        ensures
            match r {
                Ok(b) => (v@ matches ValueV::Dict(_)) && b@ == v@,
                Err(msg) => !(v@ matches ValueV::Dict(_)) && msg@
                    == "block must be a map value"@,
            },
    {
        match v {
            Value::Dict(m) => Ok(Block(Value::Dict(m))),
            _ => Err("block must be a map value".to_owned()),
        }
    }

    /// A reference to the block's generic value.
    pub fn value(&self) -> (r: &Value)
        ensures
            r@ == self@,
    {
        &self.0
    }

    /// The block's generic value.
    pub fn into_inner(self) -> (r: Value)
        ensures
            r@ == self@,
    {
        self.0
    }

    /// The block's entries; every block is a map value.
    pub fn into_map(self) -> (r: Vec<Entry>)
        requires
            self@ matches ValueV::Dict(_),
        ensures
            view_entries(r@) == self@->Dict_0,
    {
        match self.0 {
            Value::Dict(m) => m,
            _ => vstd::pervasive::unreached(),
        }
    }
}

/// The hash of the whole chain after appending every transaction of `hist`
/// in order: the zero hash when `hist` is empty, else the hash of the last
/// block, whose `phash` is the chain hash of everything before it.
pub open spec fn chain_hash(hist: Seq<TransactionV>) -> Seq<u8>
    decreases hist.len(),
{
    if hist.len() == 0 {
        zero_hash()
    } else {
        hash_of(block_value_v(chain_hash(hist.drop_last()), hist.last()))
    }
}

/// Appending one transaction moves the chain hash forward by one block.
pub proof fn lemma_chain_hash_step(hist: Seq<TransactionV>, k: int)
    requires
        0 <= k < hist.len(),
    ensures
        chain_hash(hist.take(k + 1)) == hash_of(
            block_value_v(chain_hash(hist.take(k)), hist[k]),
        ),
{
    assert(hist.take(k + 1).drop_last() =~= hist.take(k));
    assert(hist.take(k + 1).last() == hist[k]);
}

/// The live, not-yet-archived suffix of the logical transaction log,
/// together with the chain state at its two ends.
pub struct TransactionLog {
    /// The live transactions: logical indices `first_index ..`.
    pub txns: Vec<Transaction>,
    /// The logical index of the first live transaction: the count archived.
    pub first_index: u128,
    /// The chain hash of the archived prefix (the `phash` of the first live
    /// block).
    pub prefix_hash: Vec<u8>,
    /// The chain hash of the whole logical log.
    pub latest_hash: Vec<u8>,
    /// The whole logical log, live and archived.
    pub history: Ghost<Seq<TransactionV>>,
}

impl TransactionLog {
    /// Well-formedness: the live window matches the history, indices are
    /// dense, and both chain hashes are correct.
    pub open spec fn wf(self) -> bool {
        &&& self.history@.len() == self.first_index as int + self.txns@.len() as int
        &&& self.history@.len() <= u128::MAX as int
        &&& forall|i: int|
            0 <= i < self.txns@.len() ==> #[trigger] self.txns@[i]@ == self.history@[
                self.first_index as int + i
            ]
        &&& forall|i: int| 0 <= i < self.history@.len() ==> #[trigger] self.history@[i].tid == i
        &&& self.latest_hash@ == chain_hash(self.history@)
        &&& self.prefix_hash@ == chain_hash(self.history@.take(self.first_index as int))
    }

    /// The number of live (not archived) transactions.
    pub open spec fn live_len(self) -> int {
        self.txns@.len() as int
    }

    /// The logical length: archived and live together.
    pub open spec fn logical_len(self) -> int {
        self.history@.len() as int
    }

    /// An empty log.
    pub fn new() -> (r: Self)
        ensures
            r.wf(),
            r.history@ == Seq::<TransactionV>::empty(),
            r.first_index == 0,
    {
        let r = TransactionLog {
            txns: Vec::new(),
            first_index: 0,
            prefix_hash: crate::hashing::make_zero_hash(),
            latest_hash: crate::hashing::make_zero_hash(),
            history: Ghost(Seq::empty()),
        };
        assert(r.history@.take(0) =~= Seq::<TransactionV>::empty());
        r
    }

    /// Appends one transaction: assigns it the next transaction index,
    /// chains the block hash forward, and stores it. Infallible given valid
    /// prior state.
    pub fn append(&mut self, tx: Transaction) -> (tid: u128)
        requires
            old(self).wf(),
            old(self).logical_len() < u128::MAX as int,
        ensures
            final(self).wf(),
            tid as int == old(self).logical_len(),
            final(self).history@ == old(self).history@.push(with_tid(tx@, tid)),
            final(self).first_index == old(self).first_index,
            final(self).logical_len() == old(self).logical_len() + 1,
            final(self).live_len() == old(self).live_len() + 1,
    {
        let tid: u128 = self.first_index + self.txns.len() as u128;
        let tx2 = Transaction { tid, ..tx };
        let block = Block::new(&self.latest_hash, &tx2);
        self.latest_hash = hash_value(block.value());
        proof {
            let h = self.history@.push(tx2@);
            assert(h.drop_last() =~= self.history@);
            self.history@ = h;
        }
        self.txns.push(tx2);
        proof {
            assert(tx2@ == with_tid(tx@, tid));
            assert(self.history@.take(self.first_index as int) =~= old(self).history@.take(
                old(self).first_index as int,
            ));
            assert forall|i: int| 0 <= i < self.txns@.len() implies #[trigger] self.txns@[i]@
                == self.history@[self.first_index as int + i] by {
                if i < old(self).txns@.len() {
                    assert(old(self).txns@[i]@ == old(self).history@[
                        old(self).first_index as int + i
                    ]);
                }
            }
        }
        tid
    }

    /// The most recent block's content hash, for external verification and
    /// for the `phash` of the next exported block range's continuation.
    pub fn latest_hash(&self) -> (r: Vec<u8>)
        ensures
            self.wf() ==> r@ == chain_hash(self.history@),
            r@ == self.latest_hash@,
    {
        crate::value::copy_bytes(&self.latest_hash)
    }

    /// The live transactions with logical indices in
    /// `start .. start + length`: archived ranges are not served here;
    /// callers needing them consult the archive index.
    pub fn range(&self, start: u128, length: u128) -> (r: Vec<Transaction>)
        requires
            self.wf(),
        ensures
            r@.len() == range_size(*self, start, length),
            forall|i: int|
                0 <= i < r@.len() ==> #[trigger] r@[i]@ == self.history@[
                    range_lo(*self, start) + i
                ],
    {
        let lo: u128 = if start < self.first_index {
            self.first_index
        } else {
            start
        };
        let logical_end: u128 = self.first_index + self.txns.len() as u128;
        let mut r: Vec<Transaction> = Vec::new();
        if lo >= logical_end {
            assert(range_size(*self, start, length) == 0);
            return r;
        }
        let hi: u128 = if length > logical_end - start {
            logical_end
        } else {
            start + length
        };
        if hi <= lo {
            assert(range_size(*self, start, length) == 0);
            return r;
        }
        let off: usize = (lo - self.first_index) as usize;
        let cnt: usize = (hi - lo) as usize;
        let mut i: usize = 0;
        while i < cnt
            invariant
                self.wf(),
                off as int + cnt as int <= self.txns@.len(),
                self.txns@.len() <= usize::MAX as int,
                lo as int == self.first_index as int + off as int,
                i <= cnt,
                r@.len() == i,
                forall|j: int|
                    0 <= j < i ==> #[trigger] r@[j]@ == self.history@[lo as int + j],
            decreases cnt - i,
        {
            r.push(self.txns[off + i].copy());
            i = i + 1;
        }
        assert(r@.len() == range_size(*self, start, length));
        r
    }

    /// Copies the first `count` live transactions, the prefix that an
    /// archival export hands to the archive collaborator.
    pub fn export_prefix(&self, count: usize) -> (r: Vec<Transaction>)
        requires
            self.wf(),
            count <= self.live_len(),
        ensures
            r@.len() == count,
            forall|i: int|
                0 <= i < count ==> #[trigger] r@[i]@ == self.history@[
                    self.first_index as int + i
                ],
    {
        let mut r: Vec<Transaction> = Vec::new();
        let mut i: usize = 0;
        while i < count
            invariant
                self.wf(),
                count <= self.txns@.len(),
                i <= count,
                r@.len() == i,
                forall|j: int|
                    0 <= j < i ==> #[trigger] r@[j]@ == self.history@[
                        self.first_index as int + j
                    ],
            decreases count - i,
        {
            r.push(self.txns[i].copy());
            i = i + 1;
        }
        r
    }

    /// Re-encodes the first `count` live transactions as hash-linked blocks,
    /// each with the `phash` its position demands: what an archival export
    /// sends out.
    pub fn export_blocks(&self, count: usize) -> (r: Vec<Block>)
        requires
            self.wf(),
            count <= self.live_len(),
        ensures
            r@.len() == count,
            forall|i: int|
                0 <= i < count ==> #[trigger] r@[i]@ == block_value_v(
                    chain_hash(self.history@.take(self.first_index as int + i)),
                    self.history@[self.first_index as int + i],
                ),
    {
        let mut r: Vec<Block> = Vec::new();
        let mut phash: Vec<u8> = crate::value::copy_bytes(&self.prefix_hash);
        let mut i: usize = 0;
        while i < count
            invariant
                self.wf(),
                count <= self.txns@.len(),
                i <= count,
                r@.len() == i,
                phash@ == chain_hash(self.history@.take(self.first_index as int + i as int)),
                forall|j: int|
                    0 <= j < i ==> #[trigger] r@[j]@ == block_value_v(
                        chain_hash(self.history@.take(self.first_index as int + j)),
                        self.history@[self.first_index as int + j],
                    ),
            decreases count - i,
        {
            let block = Block::new(&phash, &self.txns[i]);
            phash = hash_value(block.value());
            proof {
                lemma_chain_hash_step(self.history@, self.first_index as int + i as int);
            }
            r.push(block);
            i = i + 1;
        }
        r
    }

    /// Drops the first `count` live transactions after a successful export:
    /// they leave live storage; the logical log and the chain are unchanged.
    pub fn drop_prefix(&mut self, count: usize)
        requires
            old(self).wf(),
            count <= old(self).live_len(),
        ensures
            final(self).wf(),
            final(self).history@ == old(self).history@,
            final(self).first_index as int == old(self).first_index as int + count as int,
            final(self).live_len() == old(self).live_len() - count as int,
    {
        let mut i: usize = 0;
        while i < count
            invariant
                old(self).wf(),
                count <= old(self).txns@.len(),
                i <= count,
                self.txns == old(self).txns,
                self.history == old(self).history,
                self.first_index == old(self).first_index,
                self.latest_hash == old(self).latest_hash,
                self.prefix_hash@ == chain_hash(
                    self.history@.take(self.first_index as int + i as int),
                ),
            decreases count - i,
        {
            let block = Block::new(&self.prefix_hash, &self.txns[i]);
            self.prefix_hash = hash_value(block.value());
            proof {
                lemma_chain_hash_step(self.history@, self.first_index as int + i as int);
            }
            i = i + 1;
        }
        let rest = self.txns.split_off(count);
        self.txns = rest;
        self.first_index = self.first_index + count as u128;
        assert(self.wf()) by {
            assert(forall|j: int|
                0 <= j < self.txns@.len() ==> #[trigger] self.txns@[j]@ == self.history@[
                    self.first_index as int + j
                ]);
        }
    }
}

/// The same transaction under a given transaction index.
pub open spec fn with_tid(tx: TransactionV, tid: u128) -> TransactionV {
    TransactionV { tid, ..tx }
}

/// The lower logical index a range query actually serves.
pub open spec fn range_lo(log: TransactionLog, start: u128) -> int {
    if start < log.first_index {
        log.first_index as int
    } else {
        start as int
    }
}

/// The number of live transactions a range query returns.
pub open spec fn range_size(log: TransactionLog, start: u128, length: u128) -> int {
    let lo = range_lo(log, start);
    let hi = if start as int + length as int > log.logical_len() {
        log.logical_len()
    } else {
        start as int + length as int
    };
    if hi > lo {
        hi - lo
    } else {
        0
    }
}

} // verus!
