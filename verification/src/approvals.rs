//! The approval store: token-level and collection-level approvals with
//! expiry and count-based eviction. At most one active approval exists per
//! (token, spender) or (owner, spender) pair; inserting a new approval for
//! the same pair replaces the old one. Approvals past their expiry are inert
//! and lazily removed or skipped on check; the clock is always supplied by
//! the caller.

use vstd::prelude::*;
use crate::account::{Account, AccountV};
use crate::errors::LedgerError;

verus! {

/// A time-bounded grant allowing a spender to transfer a token (or all of an
/// owner's tokens) on the owner's behalf.
pub struct Approval {
    pub spender: Account,
    pub expires_at: Option<u64>,
    pub created_at: u64,
    pub memo: Option<Vec<u8>>,
}

/// The mathematical model of an `Approval`.
pub struct ApprovalV {
    pub spender: AccountV,
    pub expires_at: Option<u64>,
    pub created_at: u64,
    pub memo: Option<Seq<u8>>,
}

impl View for Approval {
    type V = ApprovalV;

    open spec fn view(&self) -> ApprovalV {
        ApprovalV {
            spender: self.spender@,
            expires_at: self.expires_at,
            created_at: self.created_at,
            memo: match self.memo {
                Some(m) => Some(m@),
                None => None,
            },
        }
    }
}

impl Approval {
    /// Copies an approval; the copy models the same approval.
    pub fn copy(&self) -> (r: Approval)
        ensures
            r@ == self@,
    {
        let r = Approval {
            spender: self.spender.copy(),
            expires_at: self.expires_at,
            created_at: self.created_at,
            memo: match &self.memo {
                Some(m) => Some(crate::value::copy_bytes(m)),
                None => None,
            },
        };
        assert(r@ =~= self@);
        r
    }
}

/// The model of an approval list.
pub open spec fn view_approvals(s: Seq<Approval>) -> Seq<ApprovalV> {
    Seq::new(s.len(), |i: int| s[i]@)
}

/// Whether an approval is past its expiry at time `now`.
pub open spec fn is_expired(a: ApprovalV, now: u64) -> bool {
    a.expires_at matches Some(e) && e <= now
}

/// The unexpired approvals, in order.
pub open spec fn remove_expired(s: Seq<ApprovalV>, now: u64) -> Seq<ApprovalV>
    decreases s.len(),
{
    if s.len() == 0 {
        Seq::empty()
    } else if is_expired(s.first(), now) {
        remove_expired(s.drop_first(), now)
    } else {
        seq![s.first()] + remove_expired(s.drop_first(), now)
    }
}

/// One step of `remove_expired` along a suffix.
pub proof fn lemma_remove_expired_skip(s: Seq<ApprovalV>, now: u64, i: int)
    requires
        0 <= i < s.len(),
    ensures
        remove_expired(s.skip(i), now) == if is_expired(s[i], now) {
            remove_expired(s.skip(i + 1), now)
        } else {
            seq![s[i]] + remove_expired(s.skip(i + 1), now)
        },
{
    assert(s.skip(i).first() == s[i]);
    assert(s.skip(i).drop_first() =~= s.skip(i + 1));
}

/// Whether the list holds an approval for this spender.
pub open spec fn has_spender(s: Seq<ApprovalV>, sp: AccountV) -> bool {
    exists|i: int| 0 <= i < s.len() && s[i].spender == sp
}

/// The list with the first approval for `a.spender` replaced by `a`.
pub open spec fn replace_spender(s: Seq<ApprovalV>, a: ApprovalV) -> Seq<ApprovalV>
    decreases s.len(),
{
    if s.len() == 0 {
        Seq::empty()
    } else if s.first().spender == a.spender {
        seq![a] + s.drop_first()
    } else {
        seq![s.first()] + replace_spender(s.drop_first(), a)
    }
}

/// Replacing the first occurrence is a pointwise update there.
pub proof fn lemma_replace_spender_at(s: Seq<ApprovalV>, a: ApprovalV, k: int)
    requires
        0 <= k < s.len(),
        s[k].spender == a.spender,
        forall|j: int| 0 <= j < k ==> s[j].spender != a.spender,
    ensures
        replace_spender(s, a) == s.update(k, a),
    decreases k,
{
    if k == 0 {
        assert(replace_spender(s, a) == seq![a] + s.drop_first());
        assert(seq![a] + s.drop_first() =~= s.update(0, a));
    } else {
        assert(s.first().spender != a.spender);
        lemma_replace_spender_at(s.drop_first(), a, k - 1);
        assert(s.drop_first()[k - 1] == s[k]);
        assert(seq![s.first()] + s.drop_first().update(k - 1, a) =~= s.update(k, a));
    }
}

/// Whether the list holds an approval for this spender that is live at `now`.
pub open spec fn has_live_approval(s: Seq<ApprovalV>, sp: AccountV, now: u64) -> bool {
    exists|i: int| 0 <= i < s.len() && s[i].spender == sp && !is_expired(s[i], now)
}

/// The position of the first approval with the least creation time: the one
/// count-based eviction removes first.
pub open spec fn oldest_index(s: Seq<ApprovalV>) -> int
    decreases s.len(),
{
    if s.len() <= 1 {
        0
    } else {
        let r = oldest_index(s.drop_last());
        if s.last().created_at < s[r].created_at {
            s.len() - 1
        } else {
            r
        }
    }
}

/// The oldest index is in range.
pub proof fn lemma_oldest_index_in_range(s: Seq<ApprovalV>)
    requires
        s.len() > 0,
    ensures
        0 <= oldest_index(s) < s.len(),
    decreases s.len(),
{
    if s.len() > 1 {
        lemma_oldest_index_in_range(s.drop_last());
    }
}

/// Evicting the oldest approvals, one at a time, down to `settle` entries.
pub open spec fn evict_to(s: Seq<ApprovalV>, settle: int) -> Seq<ApprovalV>
    decreases s.len(),
    via evict_to_decreases
{
    if s.len() <= settle || s.len() == 0 {
        s
    } else {
        evict_to(s.remove(oldest_index(s)), settle)
    }
}

#[via_fn]
proof fn evict_to_decreases(s: Seq<ApprovalV>, settle: int) {
    if !(s.len() <= settle || s.len() == 0) {
        lemma_oldest_index_in_range(s);
    }
}

/// The whole outcome of granting one approval against an existing list:
/// expired entries leave first; an approval for the same spender is replaced
/// in place; a new spender is appended after count-based eviction makes
/// room, and refused only when even eviction leaves no room.
pub open spec fn approve_outcome(
    s: Seq<ApprovalV>,
    a: ApprovalV,
    now: u64,
    max: int,
    settle: int,
) -> Result<Seq<ApprovalV>, ()> {
    let live = remove_expired(s, now);
    if has_spender(live, a.spender) {
        Ok(replace_spender(live, a))
    } else {
        let room = approve_room(s, now, max, settle);
        if room.len() >= max {
            Err(())
        } else {
            Ok(room.push(a))
        }
    }
}

/// The approval list after lazy expiry removal and, when the list is at its
/// limit, count-based eviction: the room a new approval is granted into.
pub open spec fn approve_room(s: Seq<ApprovalV>, now: u64, max: int, settle: int) -> Seq<
    ApprovalV,
> {
    let live = remove_expired(s, now);
    if live.len() >= max {
        evict_to(live, settle)
    } else {
        live
    }
}

/// The approvals that revoking leaves behind: all of them removed, or one
/// spender's removed.
pub open spec fn revoke_outcome(s: Seq<ApprovalV>, sp: Option<AccountV>) -> Seq<ApprovalV>
    decreases s.len(),
{
    match sp {
        None => Seq::empty(),
        Some(spender) => {
            if s.len() == 0 {
                Seq::empty()
            } else if s.first().spender == spender {
                revoke_outcome(s.drop_first(), sp)
            } else {
                seq![s.first()] + revoke_outcome(s.drop_first(), sp)
            }
        },
    }
}

/// One step of `revoke_outcome` along a suffix.
pub proof fn lemma_revoke_outcome_skip(s: Seq<ApprovalV>, spender: AccountV, i: int)
    requires
        0 <= i < s.len(),
    ensures
        revoke_outcome(s.skip(i), Some(spender)) == if s[i].spender == spender {
            revoke_outcome(s.skip(i + 1), Some(spender))
        } else {
            seq![s[i]] + revoke_outcome(s.skip(i + 1), Some(spender))
        },
{
    assert(s.skip(i).first() == s[i]);
    assert(s.skip(i).drop_first() =~= s.skip(i + 1));
}

/// Removes the expired approvals from a list at time `now`.
fn filter_expired(list: &mut Vec<Approval>, now: u64)
    ensures
        view_approvals(final(list)@) == remove_expired(view_approvals(old(list)@), now),
{
    let ghost full = view_approvals(list@);
    let mut keep: Vec<Approval> = Vec::new();
    let mut i: usize = 0;
    proof {
        assert(full.skip(0) =~= full);
    }
    while i < list.len()
        invariant
            full == view_approvals(list@),
            i <= list@.len(),
            remove_expired(full, now) == view_approvals(keep@) + remove_expired(
                full.skip(i as int),
                now,
            ),
        decreases list.len() - i,
    {
        proof {
            lemma_remove_expired_skip(full, now, i as int);
        }
        let ghost keep_old = view_approvals(keep@);
        let expired = match list[i].expires_at {
            Some(e) => e <= now,
            None => false,
        };
        if !expired {
            assert(!is_expired(full[i as int], now));
            keep.push(list[i].copy());
            proof {
                assert(view_approvals(keep@) =~= keep_old.push(full[i as int]));
                assert(keep_old + (seq![full[i as int]] + remove_expired(
                    full.skip(i as int + 1),
                    now,
                )) =~= view_approvals(keep@) + remove_expired(full.skip(i as int + 1), now));
            }
        } else {
            assert(is_expired(full[i as int], now));
        }
        i = i + 1;
    }
    proof {
        assert(full.skip(full.len() as int) =~= Seq::<ApprovalV>::empty());
        assert(view_approvals(keep@) + remove_expired(full.skip(i as int), now) =~= view_approvals(
            keep@,
        ));
    }
    *list = keep;
}

/// The position of the first approval with the least creation time.
fn find_oldest(list: &Vec<Approval>) -> (r: usize)
    requires
        list@.len() > 0,
    ensures
        r as int == oldest_index(view_approvals(list@)),
        r < list@.len(),
{
    let ghost full = view_approvals(list@);
    let mut best: usize = 0;
    let mut i: usize = 1;
    proof {
        assert(full.take(1) =~= seq![full[0]]);
    }
    while i < list.len()
        invariant
            full == view_approvals(list@),
            1 <= i <= list@.len(),
            best < i,
            best as int == oldest_index(full.take(i as int)),
        decreases list.len() - i,
    {
        proof {
            assert(full.take(i as int + 1).drop_last() =~= full.take(i as int));
            assert(full.take(i as int + 1).last() == full[i as int]);
            lemma_oldest_index_in_range(full.take(i as int));
            assert(full.take(i as int)[best as int] == full[best as int]);
        }
        if list[i].created_at < list[best].created_at {
            best = i;
        }
        i = i + 1;
    }
    proof {
        assert(full.take(full.len() as int) =~= full);
    }
    best
}

/// Grants one approval against a list, evicting expired and oldest entries
/// as the limits demand.
fn upsert_approval(
    list: &mut Vec<Approval>,
    a: Approval,
    now: u64,
    max: usize,
    settle: usize,
) -> (r: Result<(), LedgerError>)
    ensures
        match r {
            Ok(()) => approve_outcome(
                view_approvals(old(list)@),
                a@,
                now,
                max as int,
                settle as int,
            ) == Ok::<_, ()>(view_approvals(final(list)@)),
            Err(e) => approve_outcome(
                view_approvals(old(list)@),
                a@,
                now,
                max as int,
                settle as int,
            ) == Err::<Seq<ApprovalV>, _>(()) && e@ == crate::errors::LedgerErrorV::TooManyApprovals
                && view_approvals(final(list)@) == approve_room(
                view_approvals(old(list)@),
                now,
                max as int,
                settle as int,
            ),
        },
{
    filter_expired(list, now);
    let ghost live = view_approvals(list@);

    match find_first_spender(list, &a.spender) {
        Some(k) => {
            assert(live[k as int].spender == a@.spender);
            assert(has_spender(live, a@.spender));
            proof {
                lemma_replace_spender_at(live, a@, k as int);
            }
            let old_entry = list.remove(k);
            list.insert(k, a);
            proof {
                assert(view_approvals(list@) =~= live.update(k as int, a@));
            }
            Ok(())
        },
        None => {
            assert(forall|j: int| 0 <= j < live.len() ==> live[j].spender != a@.spender);
            assert(!has_spender(live, a@.spender));
            if list.len() >= max {
                while list.len() > settle
                    invariant
                        evict_to(live, settle as int) == evict_to(
                            view_approvals(list@),
                            settle as int,
                        ),
                    decreases list.len(),
                {
                    let ghost cur = view_approvals(list@);
                    let idx = find_oldest(list);
                    let removed = list.remove(idx);
                    proof {
                        assert(view_approvals(list@) =~= cur.remove(oldest_index(cur)));
                    }
                }
                proof {
                    assert(view_approvals(list@).len() <= settle as int);
                    assert(evict_to(view_approvals(list@), settle as int) == view_approvals(
                        list@,
                    ));
                }
            }
            if list.len() >= max {
                Err(LedgerError::TooManyApprovals)
            } else {
                let ghost room = view_approvals(list@);
                list.push(a);
                proof {
                    assert(view_approvals(list@) =~= room.push(a@));
                }
                Ok(())
            }
        },
    }
}

/// The position of the first approval for this spender, if any.
fn find_first_spender(list: &Vec<Approval>, sp: &Account) -> (r: Option<usize>)
    ensures
        match r {
            Some(i) => i < list@.len() && view_approvals(list@)[i as int].spender == sp@
                && forall|j: int|
                0 <= j < i ==> view_approvals(list@)[j].spender != sp@,
            None => forall|j: int|
                0 <= j < list@.len() ==> view_approvals(list@)[j].spender != sp@,
        },
{
    let mut i: usize = 0;
    while i < list.len()
        invariant
            i <= list@.len(),
            forall|j: int| 0 <= j < i ==> view_approvals(list@)[j].spender != sp@,
        decreases list.len() - i,
    {
        if list[i].spender.same(sp) {
            return Some(i);
        }
        i = i + 1;
    }
    None
}

/// Removes every approval, or one spender's approval, from a list; returns
/// how many were removed.
fn revoke_from(list: &mut Vec<Approval>, spender: Option<&Account>) -> (removed: usize)
    ensures
        view_approvals(final(list)@) == revoke_outcome(
            view_approvals(old(list)@),
            view_opt_spender(spender),
        ),
        removed as int == old(list)@.len() - final(list)@.len(),
{
    match spender {
        None => {
            let n = list.len();
            *list = Vec::new();
            assert(view_approvals(list@) =~= Seq::<ApprovalV>::empty());
            n
        },
        Some(sp) => {
            let ghost full = view_approvals(list@);
            let mut keep: Vec<Approval> = Vec::new();
            let mut i: usize = 0;
            proof {
                assert(full.skip(0) =~= full);
            }
            while i < list.len()
                invariant
                    full == view_approvals(list@),
                    i <= list@.len(),
                    keep@.len() <= i,
                    revoke_outcome(full, Some(sp@)) == view_approvals(keep@) + revoke_outcome(
                        full.skip(i as int),
                        Some(sp@),
                    ),
                decreases list.len() - i,
            {
                proof {
                    lemma_revoke_outcome_skip(full, sp@, i as int);
                }
                let ghost keep_old = view_approvals(keep@);
                if !list[i].spender.same(sp) {
                    keep.push(list[i].copy());
                    proof {
                        assert(view_approvals(keep@) =~= keep_old.push(full[i as int]));
                        assert(keep_old + (seq![full[i as int]] + revoke_outcome(
                            full.skip(i as int + 1),
                            Some(sp@),
                        )) =~= view_approvals(keep@) + revoke_outcome(
                            full.skip(i as int + 1),
                            Some(sp@),
                        ));
                    }
                }
                i = i + 1;
            }
            proof {
                assert(full.skip(full.len() as int) =~= Seq::<ApprovalV>::empty());
                assert(view_approvals(keep@) + revoke_outcome(full.skip(i as int), Some(sp@))
                    =~= view_approvals(keep@));
            }
            let n = list.len() - keep.len();
            *list = keep;
            n
        },
    }
}

/// The model of an optional spender filter.
pub open spec fn view_opt_spender(a: Option<&Account>) -> Option<AccountV> {
    match a {
        Some(x) => Some(x@),
        None => None,
    }
}

/// Whether a list holds an approval for this spender that is live at `now`.
fn has_live(list: &Vec<Approval>, sp: &Account, now: u64) -> (r: bool)
    ensures
        r == has_live_approval(view_approvals(list@), sp@, now),
{
    let ghost full = view_approvals(list@);
    let mut i: usize = 0;
    while i < list.len()
        invariant
            full == view_approvals(list@),
            i <= list@.len(),
            forall|j: int| 0 <= j < i ==> !(full[j].spender == sp@ && !is_expired(full[j], now)),
        decreases list.len() - i,
    {
        let expired = match list[i].expires_at {
            Some(e) => e <= now,
            None => false,
        };
        if !expired && list[i].spender.same(sp) {
            assert(full[i as int].spender == sp@ && !is_expired(full[i as int], now));
            return true;
        }
        i = i + 1;
    }
    false
}

/// The token-level approvals of one token.
pub struct TokenApprovalEntry {
    pub token_id: u128,
    pub approvals: Vec<Approval>,
}

/// The collection-level approvals granted by one owner account.
pub struct CollectionApprovalEntry {
    pub owner: Account,
    pub approvals: Vec<Approval>,
}

/// The approval store: token-level approvals keyed by token id, and
/// collection-level approvals keyed by the granting owner account, with
/// independent limit and eviction counters applied uniformly to both.
pub struct ApprovalStore {
    pub token_approvals: Vec<TokenApprovalEntry>,
    pub collection_approvals: Vec<CollectionApprovalEntry>,
}

impl ApprovalStore {
    /// Well-formedness: entry keys are unique on both sides.
    pub open spec fn wf(self) -> bool {
        &&& forall|i: int, j: int|
            0 <= i < j < self.token_approvals@.len() ==> self.token_approvals@[i].token_id
                != self.token_approvals@[j].token_id
        &&& forall|i: int, j: int|
            0 <= i < j < self.collection_approvals@.len()
                ==> self.collection_approvals@[i].owner@ != self.collection_approvals@[j].owner@
    }

    /// Whether a token-level entry exists for this token id.
    pub open spec fn has_tok(self, id: u128) -> bool {
        exists|i: int|
            0 <= i < self.token_approvals@.len() && self.token_approvals@[i].token_id == id
    }

    /// The position of the token-level entry for this token id.
    pub open spec fn tok_index(self, id: u128) -> int {
        choose|i: int|
            0 <= i < self.token_approvals@.len() && self.token_approvals@[i].token_id == id
    }

    /// The token-level approvals of this token, empty when none were granted.
    pub open spec fn token_approvals_of(self, id: u128) -> Seq<ApprovalV> {
        if self.has_tok(id) {
            view_approvals(self.token_approvals@[self.tok_index(id)].approvals@)
        } else {
            Seq::empty()
        }
    }

    /// Whether a collection-level entry exists for this owner.
    pub open spec fn has_coll(self, owner: AccountV) -> bool {
        exists|i: int|
            0 <= i < self.collection_approvals@.len() && self.collection_approvals@[i].owner@
                == owner
    }

    /// The position of the collection-level entry for this owner.
    pub open spec fn coll_index(self, owner: AccountV) -> int {
        choose|i: int|
            0 <= i < self.collection_approvals@.len() && self.collection_approvals@[i].owner@
                == owner
    }

    /// The collection-level approvals granted by this owner, empty when none.
    pub open spec fn collection_approvals_of(self, owner: AccountV) -> Seq<ApprovalV> {
        if self.has_coll(owner) {
            view_approvals(self.collection_approvals@[self.coll_index(owner)].approvals@)
        } else {
            Seq::empty()
        }
    }

    /// Whether the caller may move this token at `now`: the owner may, a
    /// holder of a live token-level approval may, and a holder of a live
    /// collection-level approval from the owner may — checked in that
    /// precedence order.
    pub open spec fn authorized(
        self,
        token_id: u128,
        owner: AccountV,
        caller: AccountV,
        now: u64,
    ) -> bool {
        ||| caller == owner
        ||| has_live_approval(self.token_approvals_of(token_id), caller, now)
        ||| has_live_approval(self.collection_approvals_of(owner), caller, now)
    }

    /// An empty store.
    pub fn new() -> (r: Self)
        ensures
            r.wf(),
            forall|id: u128| r.token_approvals_of(id) == Seq::<ApprovalV>::empty(),
            forall|o: AccountV| r.collection_approvals_of(o) == Seq::<ApprovalV>::empty(),
    {
        let r = ApprovalStore { token_approvals: Vec::new(), collection_approvals: Vec::new() };
        proof {
            assert forall|id: u128| r.token_approvals_of(id) == Seq::<ApprovalV>::empty() by {
                assert(!r.has_tok(id));
            }
            assert forall|o: AccountV|
                r.collection_approvals_of(o) == Seq::<ApprovalV>::empty() by {
                assert(!r.has_coll(o));
            }
        }
        r
    }

    /// The position of the token-level entry for this id, if one exists.
    fn find_tok(&self, id: u128) -> (r: Option<usize>)
        requires
            self.wf(),
        ensures
            match r {
                Some(i) => i < self.token_approvals@.len() && self.token_approvals@[
                    i as int
                ].token_id == id && self.has_tok(id) && self.tok_index(id) == i as int,
                None => !self.has_tok(id),
            },
    {
        let mut i: usize = 0;
        while i < self.token_approvals.len()
            invariant
                self.wf(),
                i <= self.token_approvals@.len(),
                forall|j: int| 0 <= j < i ==> self.token_approvals@[j].token_id != id,
            decreases self.token_approvals.len() - i,
        {
            if self.token_approvals[i].token_id == id {
                proof {
                    assert(self.has_tok(id));
                    let w = self.tok_index(id);
                    if w != i as int {
                        assert(self.token_approvals@[w].token_id
                            != self.token_approvals@[i as int].token_id);
                    }
                }
                return Some(i);
            }
            i = i + 1;
        }
        None
    }

    /// The position of the collection-level entry for this owner, if one
    /// exists.
    fn find_coll(&self, owner: &Account) -> (r: Option<usize>)
        requires
            self.wf(),
        ensures
            match r {
                Some(i) => i < self.collection_approvals@.len() && self.collection_approvals@[
                    i as int
                ].owner@ == owner@ && self.has_coll(owner@) && self.coll_index(owner@)
                    == i as int,
                None => !self.has_coll(owner@),
            },
    {
        let mut i: usize = 0;
        while i < self.collection_approvals.len()
            invariant
                self.wf(),
                i <= self.collection_approvals@.len(),
                forall|j: int| 0 <= j < i ==> self.collection_approvals@[j].owner@ != owner@,
            decreases self.collection_approvals.len() - i,
        {
            if self.collection_approvals[i].owner.same(owner) {
                proof {
                    assert(self.has_coll(owner@));
                    let w = self.coll_index(owner@);
                    if w != i as int {
                        assert(self.collection_approvals@[w].owner@
                            != self.collection_approvals@[i as int].owner@);
                    }
                }
                return Some(i);
            }
            i = i + 1;
        }
        None
    }

    /// Grants a token-level approval, replacing the pair's old approval and
    /// evicting expired and oldest entries as the limits demand. Nothing
    /// else changes.
    pub fn approve_token(
        &mut self,
        token_id: u128,
        a: Approval,
        now: u64,
        max: usize,
        settle: usize,
    ) -> (r: Result<(), LedgerError>)
        requires
            old(self).wf(),
            old(self).token_approvals@.len() < usize::MAX,
        ensures
            final(self).wf(),
            final(self).collection_approvals == old(self).collection_approvals,
            final(self).token_approvals@.len() <= old(self).token_approvals@.len() + 1,
            forall|x: u128|
                x != token_id ==> final(self).token_approvals_of(x) == old(self).token_approvals_of(x),
            match r {
                Ok(()) => approve_outcome(
                    old(self).token_approvals_of(token_id),
                    a@,
                    now,
                    max as int,
                    settle as int,
                ) == Ok::<_, ()>(final(self).token_approvals_of(token_id)),
                Err(e) => approve_outcome(
                    old(self).token_approvals_of(token_id),
                    a@,
                    now,
                    max as int,
                    settle as int,
                ) == Err::<Seq<ApprovalV>, _>(()) && e@
                    == crate::errors::LedgerErrorV::TooManyApprovals && final(self).token_approvals_of(token_id) == approve_room(
                    old(self).token_approvals_of(token_id),
                    now,
                    max as int,
                    settle as int,
                ),
            },
    {
        let ghost old_self = *self;
        let k: usize = match self.find_tok(token_id) {
            Some(k) => k,
            None => {
                let k = self.token_approvals.len();
                self.token_approvals.push(
                    TokenApprovalEntry { token_id, approvals: Vec::new() },
                );
                proof {
                    assert(self.token_approvals@[k as int].token_id == token_id);
                    assert(self.wf()) by {
                        assert(forall|j: int|
                            0 <= j < k ==> self.token_approvals@[j].token_id != token_id);
                        assert(forall|j: int|
                            0 <= j < k ==> self.token_approvals@[j]
                                == old_self.token_approvals@[j]);
                    }
                    assert(self.tok_index(token_id) == k as int) by {
                        let w = self.tok_index(token_id);
                        assert(self.token_approvals@[w].token_id == token_id);
                        if w < k as int {
                            assert(old_self.token_approvals@[w].token_id != token_id);
                        }
                    }
                    assert(self.token_approvals_of(token_id) =~= Seq::<ApprovalV>::empty());
                    assert(old_self.token_approvals_of(token_id) =~= Seq::<ApprovalV>::empty());
                }
                k
            },
        };
        let ghost mid_self = *self;
        proof {
            assert(mid_self.token_approvals_of(token_id) == old_self.token_approvals_of(
                token_id,
            ));
            assert(mid_self.tok_index(token_id) == k as int);
            assert(forall|j: int|
                0 <= j < mid_self.token_approvals@.len() && j != k as int
                    ==> mid_self.token_approvals@[j].token_id != token_id);
            assert forall|x: u128|
                x != token_id implies mid_self.token_approvals_of(x)
                == old_self.token_approvals_of(x) by {
                if mid_self.has_tok(x) {
                    let w = mid_self.tok_index(x);
                    assert(mid_self.token_approvals@[w].token_id == x);
                    assert(w < old_self.token_approvals@.len());
                    assert(old_self.token_approvals@[w] == mid_self.token_approvals@[w]);
                    assert(old_self.has_tok(x));
                    let u = old_self.tok_index(x);
                    assert(old_self.token_approvals@[u].token_id == x);
                    assert(mid_self.token_approvals@[u].token_id == x);
                    if u != w {
                        assert(mid_self.token_approvals@[u].token_id
                            != mid_self.token_approvals@[w].token_id);
                    }
                } else {
                    if old_self.has_tok(x) {
                        let u = old_self.tok_index(x);
                        assert(old_self.token_approvals@[u].token_id == x);
                        assert(mid_self.token_approvals@[u].token_id == x);
                    }
                }
            }
        }
        let mut entry = self.token_approvals.remove(k);
        let r = upsert_approval(&mut entry.approvals, a, now, max, settle);
        self.token_approvals.insert(k, entry);
        proof {
            assert(self.token_approvals@.len() == mid_self.token_approvals@.len());
            assert(forall|j: int|
                0 <= j < self.token_approvals@.len() && j != k as int
                    ==> self.token_approvals@[j] == mid_self.token_approvals@[j]);
            assert(self.token_approvals@[k as int].token_id == token_id);
            assert(self.wf());
            assert(self.tok_index(token_id) == k as int) by {
                let w = self.tok_index(token_id);
                assert(self.token_approvals@[w].token_id == token_id);
                if w != k as int {
                    assert(mid_self.token_approvals@[w].token_id != token_id);
                }
            }
            assert forall|x: u128|
                x != token_id implies self.token_approvals_of(x) == mid_self.token_approvals_of(
                x,
            ) by {
                lemma_entry_update_preserves_tok(mid_self, *self, k as int, x);
            }
        }
        r
    }

    /// Removes every token-level approval of this token (on burn or
    /// transfer: an ownership change invalidates prior delegations).
    pub fn clear_token_approvals(&mut self, token_id: u128)
        requires
            old(self).wf(),
        ensures
            final(self).wf(),
            final(self).collection_approvals == old(self).collection_approvals,
            final(self).token_approvals_of(token_id) == Seq::<ApprovalV>::empty(),
            forall|x: u128|
                x != token_id ==> final(self).token_approvals_of(x) == old(self).token_approvals_of(x),
    {
        let ghost old_self = *self;
        let k: usize = match self.find_tok(token_id) {
            Some(k) => k,
            None => {
                proof {
                    assert(self.token_approvals_of(token_id) =~= Seq::<ApprovalV>::empty());
                }
                return ;
            },
        };
        let mut entry = self.token_approvals.remove(k);
        entry.approvals = Vec::new();
        self.token_approvals.insert(k, entry);
        proof {
            assert(self.token_approvals@.len() == old_self.token_approvals@.len());
            assert(forall|j: int|
                0 <= j < self.token_approvals@.len() && j != k as int
                    ==> self.token_approvals@[j] == old_self.token_approvals@[j]);
            assert(self.token_approvals@[k as int].token_id == token_id);
            assert(self.wf());
            assert(self.tok_index(token_id) == k as int) by {
                let w = self.tok_index(token_id);
                assert(self.token_approvals@[w].token_id == token_id);
                if w != k as int {
                    assert(old_self.token_approvals@[w].token_id != token_id);
                }
            }
            assert(self.token_approvals_of(token_id) =~= Seq::<ApprovalV>::empty());
            assert forall|x: u128|
                x != token_id implies self.token_approvals_of(x) == old_self.token_approvals_of(
                x,
            ) by {
                lemma_entry_update_preserves_tok(old_self, *self, k as int, x);
            }
        }
    }

    /// Removes one spender's, or every, token-level approval of this token;
    /// returns how many were removed. Revoking what is absent removes
    /// nothing and is no error.
    pub fn revoke_token_approvals(
        &mut self,
        token_id: u128,
        spender: Option<&Account>,
    ) -> (removed: usize)
        requires
            old(self).wf(),
        ensures
            final(self).wf(),
            final(self).collection_approvals == old(self).collection_approvals,
            final(self).token_approvals_of(token_id) == revoke_outcome(
                old(self).token_approvals_of(token_id),
                view_opt_spender(spender),
            ),
            removed as int == old(self).token_approvals_of(token_id).len() - final(self).token_approvals_of(token_id).len(),
            forall|x: u128|
                x != token_id ==> final(self).token_approvals_of(x) == old(self).token_approvals_of(x),
    {
        let ghost old_self = *self;
        let k: usize = match self.find_tok(token_id) {
            Some(k) => k,
            None => {
                proof {
                    assert(self.token_approvals_of(token_id) =~= Seq::<ApprovalV>::empty());
                    assert(revoke_outcome(Seq::<ApprovalV>::empty(), view_opt_spender(spender))
                        =~= Seq::<ApprovalV>::empty());
                }
                return 0;
            },
        };
        let mut entry = self.token_approvals.remove(k);
        let removed = revoke_from(&mut entry.approvals, spender);
        self.token_approvals.insert(k, entry);
        proof {
            assert(self.token_approvals@.len() == old_self.token_approvals@.len());
            assert(forall|j: int|
                0 <= j < self.token_approvals@.len() && j != k as int
                    ==> self.token_approvals@[j] == old_self.token_approvals@[j]);
            assert(self.token_approvals@[k as int].token_id == token_id);
            assert(self.wf());
            assert(self.tok_index(token_id) == k as int) by {
                let w = self.tok_index(token_id);
                assert(self.token_approvals@[w].token_id == token_id);
                if w != k as int {
                    assert(old_self.token_approvals@[w].token_id != token_id);
                }
            }
            assert forall|x: u128|
                x != token_id implies self.token_approvals_of(x) == old_self.token_approvals_of(
                x,
            ) by {
                lemma_entry_update_preserves_tok(old_self, *self, k as int, x);
            }
        }
        removed
    }

    /// Grants a collection-level approval from this owner, with the same
    /// replacement and eviction rules as token-level approvals.
    pub fn approve_collection(
        &mut self,
        owner: &Account,
        a: Approval,
        now: u64,
        max: usize,
        settle: usize,
    ) -> (r: Result<(), LedgerError>)
        requires
            old(self).wf(),
            old(self).collection_approvals@.len() < usize::MAX,
        ensures
            final(self).wf(),
            final(self).token_approvals == old(self).token_approvals,
            final(self).collection_approvals@.len() <= old(self).collection_approvals@.len() + 1,
            forall|x: AccountV|
                x != owner@ ==> final(self).collection_approvals_of(x) == old(self).collection_approvals_of(x),
            match r {
                Ok(()) => approve_outcome(
                    old(self).collection_approvals_of(owner@),
                    a@,
                    now,
                    max as int,
                    settle as int,
                ) == Ok::<_, ()>(final(self).collection_approvals_of(owner@)),
                Err(e) => approve_outcome(
                    old(self).collection_approvals_of(owner@),
                    a@,
                    now,
                    max as int,
                    settle as int,
                ) == Err::<Seq<ApprovalV>, _>(()) && e@
                    == crate::errors::LedgerErrorV::TooManyApprovals && final(self).collection_approvals_of(owner@) == approve_room(
                    old(self).collection_approvals_of(owner@),
                    now,
                    max as int,
                    settle as int,
                ),
            },
    {
        let ghost old_self = *self;
        let k: usize = match self.find_coll(owner) {
            Some(k) => k,
            None => {
                let k = self.collection_approvals.len();
                self.collection_approvals.push(
                    CollectionApprovalEntry { owner: owner.copy(), approvals: Vec::new() },
                );
                proof {
                    assert(self.collection_approvals@[k as int].owner@ == owner@);
                    assert(self.wf()) by {
                        assert(forall|j: int|
                            0 <= j < k ==> self.collection_approvals@[j].owner@ != owner@);
                        assert(forall|j: int|
                            0 <= j < k ==> self.collection_approvals@[j]
                                == old_self.collection_approvals@[j]);
                    }
                    assert(self.coll_index(owner@) == k as int) by {
                        let w = self.coll_index(owner@);
                        assert(self.collection_approvals@[w].owner@ == owner@);
                        if w < k as int {
                            assert(old_self.collection_approvals@[w].owner@ != owner@);
                        }
                    }
                    assert(self.collection_approvals_of(owner@) =~= Seq::<ApprovalV>::empty());
                    assert(old_self.collection_approvals_of(owner@) =~= Seq::<
                        ApprovalV,
                    >::empty());
                }
                k
            },
        };
        let ghost mid_self = *self;
        proof {
            assert(mid_self.collection_approvals_of(owner@) == old_self.collection_approvals_of(
                owner@,
            ));
            assert(mid_self.coll_index(owner@) == k as int);
            assert(forall|j: int|
                0 <= j < mid_self.collection_approvals@.len() && j != k as int
                    ==> mid_self.collection_approvals@[j].owner@ != owner@);
            assert forall|x: AccountV|
                x != owner@ implies mid_self.collection_approvals_of(x)
                == old_self.collection_approvals_of(x) by {
                if mid_self.has_coll(x) {
                    let w = mid_self.coll_index(x);
                    assert(mid_self.collection_approvals@[w].owner@ == x);
                    assert(w < old_self.collection_approvals@.len());
                    assert(old_self.collection_approvals@[w]
                        == mid_self.collection_approvals@[w]);
                    assert(old_self.has_coll(x));
                    let u = old_self.coll_index(x);
                    assert(old_self.collection_approvals@[u].owner@ == x);
                    assert(mid_self.collection_approvals@[u].owner@ == x);
                    if u != w {
                        assert(mid_self.collection_approvals@[u].owner@
                            != mid_self.collection_approvals@[w].owner@);
                    }
                } else {
                    if old_self.has_coll(x) {
                        let u = old_self.coll_index(x);
                        assert(old_self.collection_approvals@[u].owner@ == x);
                        assert(mid_self.collection_approvals@[u].owner@ == x);
                    }
                }
            }
        }
        let mut entry = self.collection_approvals.remove(k);
        let r = upsert_approval(&mut entry.approvals, a, now, max, settle);
        self.collection_approvals.insert(k, entry);
        proof {
            assert(self.collection_approvals@.len() == mid_self.collection_approvals@.len());
            assert(forall|j: int|
                0 <= j < self.collection_approvals@.len() && j != k as int
                    ==> self.collection_approvals@[j] == mid_self.collection_approvals@[j]);
            assert(self.collection_approvals@[k as int].owner@ == owner@);
            assert(self.wf());
            assert(self.coll_index(owner@) == k as int) by {
                let w = self.coll_index(owner@);
                assert(self.collection_approvals@[w].owner@ == owner@);
                if w != k as int {
                    assert(mid_self.collection_approvals@[w].owner@ != owner@);
                }
            }
            assert forall|x: AccountV|
                x != owner@ implies self.collection_approvals_of(x)
                == mid_self.collection_approvals_of(x) by {
                lemma_entry_update_preserves_coll(mid_self, *self, k as int, x);
            }
        }
        r
    }

    /// Removes one spender's, or every, collection-level approval of this
    /// owner; returns how many were removed.
    pub fn revoke_collection_approvals(
        &mut self,
        owner: &Account,
        spender: Option<&Account>,
    ) -> (removed: usize)
        requires
            old(self).wf(),
        ensures
            final(self).wf(),
            final(self).token_approvals == old(self).token_approvals,
            final(self).collection_approvals_of(owner@) == revoke_outcome(
                old(self).collection_approvals_of(owner@),
                view_opt_spender(spender),
            ),
            removed as int == old(self).collection_approvals_of(owner@).len() - final(self).collection_approvals_of(owner@).len(),
            forall|x: AccountV|
                x != owner@ ==> final(self).collection_approvals_of(x) == old(self).collection_approvals_of(x),
    {
        let ghost old_self = *self;
        let k: usize = match self.find_coll(owner) {
            Some(k) => k,
            None => {
                proof {
                    assert(self.collection_approvals_of(owner@) =~= Seq::<ApprovalV>::empty());
                    assert(revoke_outcome(Seq::<ApprovalV>::empty(), view_opt_spender(spender))
                        =~= Seq::<ApprovalV>::empty());
                }
                return 0;
            },
        };
        let mut entry = self.collection_approvals.remove(k);
        let removed = revoke_from(&mut entry.approvals, spender);
        self.collection_approvals.insert(k, entry);
        proof {
            assert(self.collection_approvals@.len() == old_self.collection_approvals@.len());
            assert(forall|j: int|
                0 <= j < self.collection_approvals@.len() && j != k as int
                    ==> self.collection_approvals@[j] == old_self.collection_approvals@[j]);
            assert(self.collection_approvals@[k as int].owner@ == owner@);
            assert(self.wf());
            assert(self.coll_index(owner@) == k as int) by {
                let w = self.coll_index(owner@);
                assert(self.collection_approvals@[w].owner@ == owner@);
                if w != k as int {
                    assert(old_self.collection_approvals@[w].owner@ != owner@);
                }
            }
            assert forall|x: AccountV|
                x != owner@ implies self.collection_approvals_of(x)
                == old_self.collection_approvals_of(x) by {
                lemma_entry_update_preserves_coll(old_self, *self, k as int, x);
            }
        }
        removed
    }

    /// Whether the caller may move this token at `now`: owner first, then a
    /// live token-level approval, then a live collection-level approval from
    /// the owner — stopping at the first applicable match.
    pub fn is_authorized(
        &self,
        token_id: u128,
        owner: &Account,
        caller: &Account,
        now: u64,
    ) -> (r: bool)
        requires
            self.wf(),
        ensures
            r == self.authorized(token_id, owner@, caller@, now),
    {
        if caller.same(owner) {
            return true;
        }
        match self.find_tok(token_id) {
            Some(k) => {
                if has_live(&self.token_approvals[k].approvals, caller, now) {
                    return true;
                }
            },
            None => {},
        }
        match self.find_coll(owner) {
            Some(k) => has_live(&self.collection_approvals[k].approvals, caller, now),
            None => false,
        }
    }
}

/// Two stores that differ only in the payload of the token entry at `k`
/// agree on the approvals of every other token id.
pub proof fn lemma_entry_update_preserves_tok(
    a: ApprovalStore,
    b: ApprovalStore,
    k: int,
    x: u128,
)
    requires
        a.wf(),
        b.wf(),
        a.token_approvals@.len() == b.token_approvals@.len(),
        0 <= k < a.token_approvals@.len(),
        forall|j: int|
            0 <= j < a.token_approvals@.len() && j != k ==> a.token_approvals@[j]
                == b.token_approvals@[j],
        x != a.token_approvals@[k].token_id,
        x != b.token_approvals@[k].token_id,
    ensures
        b.token_approvals_of(x) == a.token_approvals_of(x),
{
    if a.has_tok(x) {
        let w = a.tok_index(x);
        assert(a.token_approvals@[w].token_id == x);
        assert(w != k);
        assert(b.token_approvals@[w].token_id == x);
        assert(b.has_tok(x));
        let u = b.tok_index(x);
        assert(b.token_approvals@[u].token_id == x);
        if u != w {
            assert(u != k ==> a.token_approvals@[u].token_id == x);
            assert(a.token_approvals@[u].token_id != a.token_approvals@[w].token_id);
        }
    } else {
        if b.has_tok(x) {
            let u = b.tok_index(x);
            assert(b.token_approvals@[u].token_id == x);
            assert(u != k);
            assert(a.token_approvals@[u].token_id == x);
        }
    }
}

/// Two stores that differ only in the payload of the collection entry at
/// `k` agree on the approvals of every other owner.
pub proof fn lemma_entry_update_preserves_coll(
    a: ApprovalStore,
    b: ApprovalStore,
    k: int,
    x: AccountV,
)
    requires
        a.wf(),
        b.wf(),
        a.collection_approvals@.len() == b.collection_approvals@.len(),
        0 <= k < a.collection_approvals@.len(),
        forall|j: int|
            0 <= j < a.collection_approvals@.len() && j != k ==> a.collection_approvals@[j]
                == b.collection_approvals@[j],
        x != a.collection_approvals@[k].owner@,
        x != b.collection_approvals@[k].owner@,
    ensures
        b.collection_approvals_of(x) == a.collection_approvals_of(x),
{
    if a.has_coll(x) {
        let w = a.coll_index(x);
        assert(a.collection_approvals@[w].owner@ == x);
        assert(w != k);
        assert(b.collection_approvals@[w].owner@ == x);
        assert(b.has_coll(x));
        let u = b.coll_index(x);
        assert(b.collection_approvals@[u].owner@ == x);
        if u != w {
            assert(u != k ==> a.collection_approvals@[u].owner@ == x);
            assert(a.collection_approvals@[u].owner@ != a.collection_approvals@[w].owner@);
        }
    } else {
        if b.has_coll(x) {
            let u = b.coll_index(x);
            assert(b.collection_approvals@[u].owner@ == x);
            assert(u != k);
            assert(a.collection_approvals@[u].owner@ == x);
        }
    }
}

} // verus!
