//! The token store: token-id to token-record mapping, kept sorted by id so
//! that enumeration and pagination follow id order. Exactly one live owner
//! per existing token id.

use vstd::prelude::*;
use crate::account::{Account, AccountV};
use crate::errors::LedgerError;
use crate::value::{view_entries, Entry, EntryV};

verus! {

/// One token record: its id, its single live owner, and its metadata map.
pub struct Icrc7Token {
    pub token_id: u128,
    pub token_owner: Account,
    pub token_metadata: Vec<Entry>,
}

/// The mathematical model of a token record.
pub struct TokenV {
    pub token_id: u128,
    pub owner: AccountV,
    pub metadata: Seq<EntryV>,
}

impl View for Icrc7Token {
    type V = TokenV;

    open spec fn view(&self) -> TokenV {
        TokenV {
            token_id: self.token_id,
            owner: self.token_owner@,
            metadata: view_entries(self.token_metadata@),
        }
    }
}

impl Icrc7Token {
    /// Copies a token record; the copy models the same record.
    pub fn copy(&self) -> (r: Icrc7Token)
        ensures
            r@ == self@,
    {
        let r = Icrc7Token {
            token_id: self.token_id,
            token_owner: self.token_owner.copy(),
            token_metadata: crate::value::copy_entries(&self.token_metadata),
        };
        assert(r@ =~= self@);
        r
    }
}

/// The ids of the tokens owned by `owner`, in store (id) order.
pub open spec fn owned_ids(s: Seq<TokenV>, owner: AccountV) -> Seq<u128>
    decreases s.len(),
{
    if s.len() == 0 {
        Seq::empty()
    } else if s.first().owner == owner {
        seq![s.first().token_id] + owned_ids(s.drop_first(), owner)
    } else {
        owned_ids(s.drop_first(), owner)
    }
}

/// One step of `owned_ids` along a suffix.
pub proof fn lemma_owned_ids_skip(s: Seq<TokenV>, owner: AccountV, i: int)
    requires
        0 <= i < s.len(),
    ensures
        owned_ids(s.skip(i), owner) == if s[i].owner == owner {
            seq![s[i].token_id] + owned_ids(s.skip(i + 1), owner)
        } else {
            owned_ids(s.skip(i + 1), owner)
        },
{
    assert(s.skip(i).first() == s[i]);
    assert(s.skip(i).drop_first() =~= s.skip(i + 1));
}

/// The first `take` ids above `lower` among the tokens satisfying the
/// filter encoded by `owner` (`None`: every token; `Some(o)`: tokens owned
/// by `o`), in store (id) order.
pub open spec fn page_of(
    s: Seq<TokenV>,
    owner: Option<AccountV>,
    lower: Option<u128>,
    take: int,
) -> Seq<u128>
    decreases s.len(),
{
    if s.len() == 0 || take <= 0 {
        Seq::empty()
    } else if page_wants(s.first(), owner, lower) {
        seq![s.first().token_id] + page_of(s.drop_first(), owner, lower, take - 1)
    } else {
        page_of(s.drop_first(), owner, lower, take)
    }
}

/// Whether a pagination query selects this token.
pub open spec fn page_wants(t: TokenV, owner: Option<AccountV>, lower: Option<u128>) -> bool {
    &&& (owner matches Some(o) ==> t.owner == o)
    &&& (lower matches Some(l) ==> t.token_id > l)
}

/// One step of `page_of` along a suffix.
pub proof fn lemma_page_of_skip(
    s: Seq<TokenV>,
    owner: Option<AccountV>,
    lower: Option<u128>,
    take: int,
    i: int,
)
    requires
        0 <= i < s.len(),
        take > 0,
    ensures
        page_of(s.skip(i), owner, lower, take) == if page_wants(s[i], owner, lower) {
            seq![s[i].token_id] + page_of(s.skip(i + 1), owner, lower, take - 1)
        } else {
            page_of(s.skip(i + 1), owner, lower, take)
        },
{
    assert(s.skip(i).first() == s[i]);
    assert(s.skip(i).drop_first() =~= s.skip(i + 1));
}

/// The token store.
pub struct TokenStore {
    pub tokens: Vec<Icrc7Token>,
}

impl View for TokenStore {
    type V = Seq<TokenV>;

    open spec fn view(&self) -> Seq<TokenV> {
        Seq::new(self.tokens@.len(), |i: int| self.tokens@[i]@)
    }
}

impl TokenStore {
    /// Well-formedness: strictly sorted by token id (so ids are unique).
    pub open spec fn wf(self) -> bool {
        forall|i: int, j: int|
            0 <= i < j < self@.len() ==> self@[i].token_id < self@[j].token_id
    }

    /// Whether a token with this id exists.
    pub open spec fn has_id(self, id: u128) -> bool {
        exists|i: int| 0 <= i < self@.len() && self@[i].token_id == id
    }

    /// The position of the token with this id.
    pub open spec fn index_of(self, id: u128) -> int {
        choose|i: int| 0 <= i < self@.len() && self@[i].token_id == id
    }

    /// The token record under this id.
    pub open spec fn token_at(self, id: u128) -> TokenV {
        self@[self.index_of(id)]
    }

    /// The set of live token ids.
    pub open spec fn id_set(self) -> Set<u128> {
        Set::new(|id: u128| self.has_id(id))
    }

    /// The number of live tokens.
    pub open spec fn len_spec(self) -> int {
        self@.len() as int
    }

    /// An empty store.
    pub fn new() -> (r: Self)
        ensures
            r.wf(),
            r@ == Seq::<TokenV>::empty(),
    {
        let r = TokenStore { tokens: Vec::new() };
        assert(r@ =~= Seq::<TokenV>::empty());
        r
    }

    /// The number of live tokens: the total supply.
    pub fn len(&self) -> (r: usize)
        ensures
            r == self@.len(),
    {
        self.tokens.len()
    }

    /// Finds the position of the token with this id, scanning in id order.
    pub fn find(&self, id: u128) -> (r: Option<usize>)
        requires
            self.wf(),
        ensures
            match r {
                Some(i) => i < self@.len() && self@[i as int].token_id == id && self.has_id(id)
                    && self.index_of(id) == i as int,
                None => !self.has_id(id),
            },
    {
        let mut i: usize = 0;
        while i < self.tokens.len()
            invariant
                self.wf(),
                i <= self@.len(),
                forall|j: int| 0 <= j < i ==> self@[j].token_id != id,
            decreases self.tokens.len() - i,
        {
            if self.tokens[i].token_id == id {
                proof {
                    assert(self@[i as int].token_id == id);
                    let w = self.index_of(id);
                    assert(0 <= w < self@.len() && self@[w].token_id == id);
                    if w < i as int {
                        assert(self@[w].token_id < self@[i as int].token_id);
                    } else if w > i as int {
                        assert(self@[i as int].token_id < self@[w].token_id);
                    }
                }
                return Some(i);
            }
            i = i + 1;
        }
        None
    }

    /// The token record under this id, if the id is live.
    pub fn get(&self, id: u128) -> (r: Option<Icrc7Token>)
        requires
            self.wf(),
        ensures
            match r {
                Some(t) => self.has_id(id) && t@ == self.token_at(id),
                None => !self.has_id(id),
            },
    {
        match self.find(id) {
            Some(i) => Some(self.tokens[i].copy()),
            None => None,
        }
    }

    /// The owner of the token under this id, if the id is live.
    pub fn owner_of(&self, id: u128) -> (r: Option<Account>)
        requires
            self.wf(),
        ensures
            match r {
                Some(a) => self.has_id(id) && a@ == self.token_at(id).owner,
                None => !self.has_id(id),
            },
    {
        match self.find(id) {
            Some(i) => Some(self.tokens[i].token_owner.copy()),
            None => None,
        }
    }

    /// Inserts a fresh token record; rejects an id that is already live.
    pub fn insert(&mut self, t: Icrc7Token) -> (r: Result<(), LedgerError>)
        requires
            old(self).wf(),
            old(self)@.len() < usize::MAX,
        ensures
            final(self).wf(),
            match r {
                Ok(()) => !old(self).has_id(t@.token_id) && final(self)@
                    == old(self)@.insert(
                    final(self).index_of(t@.token_id),
                    t@,
                ) && final(self).has_id(t@.token_id) && final(self).token_at(t@.token_id) == t@
                    && final(self)@.len() == old(self)@.len() + 1 && (forall|id: u128|
                    final(self).has_id(id) <==> (old(self).has_id(id) || id == t@.token_id))
                    && (forall|id: u128|
                    old(self).has_id(id) ==> final(self).token_at(id) == old(self).token_at(id)),
                Err(e) => old(self).has_id(t@.token_id) && e@ == crate::errors::LedgerErrorV::DuplicateId
                    && *final(self) == *old(self),
            },
    {
        let ghost old_self = *self;
        let mut i: usize = 0;
        while i < self.tokens.len() && self.tokens[i].token_id < t.token_id
            invariant
                *self == old_self,
                old(self).wf(),
                i <= self@.len(),
                forall|j: int| 0 <= j < i ==> self@[j].token_id < t@.token_id,
            decreases self.tokens.len() - i,
        {
            i = i + 1;
        }
        if i < self.tokens.len() && self.tokens[i].token_id == t.token_id {
            proof {
                assert(self@[i as int].token_id == t@.token_id);
            }
            return Err(LedgerError::DuplicateId);
        }
        proof {
            assert forall|j: int| 0 <= j < self@.len() implies self@[j].token_id != t@.token_id by {
                if j >= i {
                    assert(self@[i as int].token_id >= t@.token_id);
                    if j > i {
                        assert(self@[i as int].token_id < self@[j].token_id);
                    }
                }
            }
            assert forall|j: int| i <= j < self@.len() implies self@[j].token_id > t@.token_id by {
                assert(self@[i as int].token_id >= t@.token_id);
                assert(self@[i as int].token_id != t@.token_id);
                if j > i {
                    assert(self@[i as int].token_id < self@[j].token_id);
                }
            }
        }
        let ghost pos = i as int;
        self.tokens.insert(i, t);
        proof {
            assert(self@ =~= old_self@.insert(pos, t@));
            assert(self@[pos] == t@);
            assert(forall|k: int| 0 <= k < pos ==> self@[k] == old_self@[k]);
            assert(forall|k: int| pos < k < self@.len() ==> self@[k] == old_self@[k - 1]);
            assert(self.has_id(t@.token_id));
            assert(self.wf()) by {
                assert forall|a: int, b: int|
                    0 <= a < b < self@.len() implies self@[a].token_id < self@[b].token_id by {
                    if b < pos {
                    } else if b == pos {
                        assert(self@[a] == old_self@[a]);
                        assert(old_self@[a].token_id < t@.token_id);
                    } else if a == pos {
                        assert(self@[b] == old_self@[b - 1]);
                        assert(old_self@[b - 1].token_id > t@.token_id);
                    } else if a < pos {
                        assert(self@[a] == old_self@[a]);
                        assert(self@[b] == old_self@[b - 1]);
                        assert(a < b - 1);
                        assert(old_self@[a].token_id < old_self@[b - 1].token_id);
                    } else {
                        assert(self@[a] == old_self@[a - 1]);
                        assert(self@[b] == old_self@[b - 1]);
                    }
                }
            }
            assert(self.index_of(t@.token_id) == pos) by {
                let w = self.index_of(t@.token_id);
                assert(0 <= w < self@.len() && self@[w].token_id == t@.token_id);
                if w != pos {
                    assert(self@[w].token_id != self@[pos].token_id);
                }
            }
            assert forall|id: u128|
                final(self).has_id(id) <==> (old(self).has_id(id) || id == t@.token_id) by {
                if self.has_id(id) && id != t@.token_id {
                    let w = self.index_of(id);
                    assert(0 <= w < self@.len() && self@[w].token_id == id);
                    if w < pos {
                        assert(old_self@[w].token_id == id);
                    } else {
                        assert(old_self@[w - 1].token_id == id);
                    }
                }
                if old_self.has_id(id) {
                    let w = choose|k: int|
                        0 <= k < old_self@.len() && old_self@[k].token_id == id;
                    if w < pos {
                        assert(self@[w].token_id == id);
                    } else {
                        assert(self@[w + 1].token_id == id);
                    }
                }
            }
            assert forall|id: u128|
                old(self).has_id(id) implies final(self).token_at(id) == old(self).token_at(
                id,
            ) by {
                let w = old_self.index_of(id);
                assert(0 <= w < old_self@.len() && old_self@[w].token_id == id);
                if w < pos {
                    assert(self@[w].token_id == id);
                    assert(self.index_of(id) == w) by {
                        let u = self.index_of(id);
                        assert(self@[u].token_id == id);
                        if u != w {
                            assert(self@[u].token_id != self@[w].token_id);
                        }
                    }
                } else {
                    assert(self@[w + 1].token_id == id);
                    assert(self.index_of(id) == w + 1) by {
                        let u = self.index_of(id);
                        assert(self@[u].token_id == id);
                        if u != w + 1 {
                            assert(self@[u].token_id != self@[w + 1].token_id);
                        }
                    }
                }
            }
        }
        Ok(())
    }

    /// Removes and returns the token record under this id; rejects an id
    /// that is not live.
    pub fn remove(&mut self, id: u128) -> (r: Result<Icrc7Token, LedgerError>)
        requires
            old(self).wf(),
        ensures
            final(self).wf(),
            match r {
                Ok(t) => old(self).has_id(id) && t@ == old(self).token_at(id) && final(self)@
                    == old(self)@.remove(old(self).index_of(id)) && final(self)@.len() + 1
                    == old(self)@.len() && (forall|x: u128|
                    final(self).has_id(x) <==> (old(self).has_id(x) && x != id)) && (forall|
                    x: u128,
                |
                    final(self).has_id(x) ==> final(self).token_at(x) == old(self).token_at(x)),
                Err(e) => !old(self).has_id(id) && e@ == crate::errors::LedgerErrorV::NotFound
                    && *final(self) == *old(self),
            },
    {
        let ghost old_self = *self;
        let pos: usize = match self.find(id) {
            Some(i) => i,
            None => {
                return Err(LedgerError::NotFound);
            },
        };
        let t = self.tokens.remove(pos);
        proof {
            let p = pos as int;
            assert(self@ =~= old_self@.remove(p));
            assert(self.wf()) by {
                assert forall|a: int, b: int|
                    0 <= a < b < self@.len() implies self@[a].token_id < self@[b].token_id by {}
            }
            assert forall|x: u128|
                final(self).has_id(x) <==> (old(self).has_id(x) && x != id) by {
                if self.has_id(x) {
                    let w = self.index_of(x);
                    assert(0 <= w < self@.len() && self@[w].token_id == x);
                    if w < p {
                        assert(old_self@[w].token_id == x);
                    } else {
                        assert(old_self@[w + 1].token_id == x);
                    }
                    if x == id {
                        assert(old_self.wf());
                        let u = old_self.index_of(id);
                        assert(old_self@[u].token_id == id);
                        assert(u == p) by {
                            if u != p {
                                assert(old_self@[u].token_id != old_self@[p].token_id);
                            }
                        }
                        if w < p {
                            assert(old_self@[w].token_id < old_self@[p].token_id);
                        } else {
                            assert(old_self@[p].token_id < old_self@[w + 1].token_id);
                        }
                    }
                }
                if old_self.has_id(x) && x != id {
                    let w = choose|k: int|
                        0 <= k < old_self@.len() && old_self@[k].token_id == x;
                    assert(old_self@[p].token_id == id) by {
                        let u = old_self.index_of(id);
                        if u != p {
                            assert(old_self@[u].token_id != old_self@[p].token_id);
                        }
                    }
                    if w < p {
                        assert(self@[w].token_id == x);
                    } else {
                        assert(w != p);
                        assert(self@[w - 1].token_id == x);
                    }
                }
            }
            assert forall|x: u128|
                final(self).has_id(x) implies final(self).token_at(x) == old(self).token_at(
                x,
            ) by {
                let w = self.index_of(x);
                assert(0 <= w < self@.len() && self@[w].token_id == x);
                let ghost orig: int = if w < p {
                    w
                } else {
                    w + 1
                };
                assert(old_self@[orig].token_id == x);
                assert(old_self.index_of(x) == orig) by {
                    let u = old_self.index_of(x);
                    assert(old_self@[u].token_id == x);
                    if u != orig {
                        assert(old_self@[u].token_id != old_self@[orig].token_id);
                    }
                }
            }
        }
        Ok(t)
    }

    /// Reassigns the owner of a live token; the metadata and every other
    /// record stay as they were.
    pub fn set_owner(&mut self, id: u128, new_owner: &Account)
        requires
            old(self).wf(),
            old(self).has_id(id),
        ensures
            final(self).wf(),
            final(self)@ == old(self)@.update(
                old(self).index_of(id),
                TokenV { owner: new_owner@, ..old(self).token_at(id) },
            ),
            forall|x: u128| final(self).has_id(x) <==> old(self).has_id(x),
            final(self).token_at(id) == (TokenV { owner: new_owner@, ..old(self).token_at(id) }),
            forall|x: u128|
                old(self).has_id(x) && x != id ==> final(self).token_at(x) == old(self).token_at(
                    x,
                ),
    {
        let ghost old_self = *self;
        let pos: usize = match self.find(id) {
            Some(i) => i,
            None => {
                proof {
                    assert(false);
                }
                0
            },
        };
        let meta = crate::value::copy_entries(&self.tokens[pos].token_metadata);
        let t = Icrc7Token { token_id: self.tokens[pos].token_id, token_owner: new_owner.copy(), token_metadata: meta };
        self.tokens.set(pos, t);
        proof {
            let p = pos as int;
            assert(self@ =~= old_self@.update(p, TokenV { owner: new_owner@, ..old_self.token_at(id) }));
            assert forall|x: u128| self.has_id(x) <==> old_self.has_id(x) by {
                assert(self@[p].token_id == old_self@[p].token_id);
                if self.has_id(x) {
                    let w = self.index_of(x);
                    assert(old_self@[w].token_id == x);
                }
                if old_self.has_id(x) {
                    let w = choose|k: int|
                        0 <= k < old_self@.len() && old_self@[k].token_id == x;
                    assert(self@[w].token_id == x);
                }
            }
            assert(self.index_of(id) == p) by {
                let u = self.index_of(id);
                assert(self@[u].token_id == id);
                if u != p {
                    assert(old_self@[u].token_id == id);
                    assert(old_self@[u].token_id != old_self@[p].token_id);
                }
            }
            assert forall|x: u128|
                old_self.has_id(x) && x != id implies self.token_at(x) == old_self.token_at(
                x,
            ) by {
                let w = old_self.index_of(x);
                assert(old_self@[w].token_id == x);
                assert(w != p);
                assert(self@[w].token_id == x);
                assert(self.index_of(x) == w) by {
                    let u = self.index_of(x);
                    assert(self@[u].token_id == x);
                    if u != w {
                        assert(self@[u].token_id != self@[w].token_id);
                    }
                }
            }
        }
    }

    /// The number of tokens owned by this account.
    pub fn balance_of(&self, owner: &Account) -> (r: u128)
        ensures
            r as int == owned_ids(self@, owner@).len(),
    {
        let mut count: u128 = 0;
        let mut i: usize = 0;
        proof {
            assert(self@.skip(0) =~= self@);
        }
        while i < self.tokens.len()
            invariant
                i <= self@.len(),
                count as int + owned_ids(self@.skip(i as int), owner@).len() == owned_ids(
                    self@,
                    owner@,
                ).len(),
                count <= i,
            decreases self.tokens.len() - i,
        {
            proof {
                lemma_owned_ids_skip(self@, owner@, i as int);
            }
            if self.tokens[i].token_owner.same(owner) {
                count = count + 1;
            }
            i = i + 1;
        }
        assert(self@.skip(self@.len() as int) =~= Seq::<TokenV>::empty());
        count
    }

    /// The first `take` live token ids above `lower`, in ascending id order;
    /// with an owner given, only that owner's tokens are listed.
    pub fn page(&self, owner: Option<&Account>, lower: Option<u128>, take: usize) -> (r: Vec<
        u128,
    >)
        ensures
            r@ == page_of(self@, view_opt_owner(owner), lower, take as int),
    {
        let ghost ov = view_opt_owner(owner);
        let mut r: Vec<u128> = Vec::new();
        let mut i: usize = 0;
        proof {
            assert(self@.skip(0) =~= self@);
        }
        while i < self.tokens.len() && r.len() < take
            invariant
                ov == view_opt_owner(owner),
                i <= self@.len(),
                r@.len() <= take,
                page_of(self@, ov, lower, take as int) == r@ + page_of(
                    self@.skip(i as int),
                    ov,
                    lower,
                    take as int - r@.len() as int,
                ),
            decreases self.tokens.len() - i,
        {
            proof {
                lemma_page_of_skip(self@, ov, lower, take as int - r@.len() as int, i as int);
            }
            let ghost r_old = r@;
            let ghost rest = page_of(self@.skip(i as int + 1), ov, lower, take as int
                - r@.len() as int - 1);
            proof {
                assert(self@[i as int] == self.tokens@[i as int]@);
            }
            if wants(&self.tokens[i], owner, lower) {
                assert(page_wants(self@[i as int], ov, lower));
                r.push(self.tokens[i].token_id);
                proof {
                    assert(r@ =~= r_old.push(self@[i as int].token_id));
                    assert(r_old + (seq![self@[i as int].token_id] + rest) =~= r@ + rest);
                }
            } else {
                assert(!page_wants(self@[i as int], ov, lower));
            }
            i = i + 1;
        }
        proof {
            if i == self@.len() {
                assert(self@.skip(i as int) =~= Seq::<TokenV>::empty());
            }
            assert(r@ + page_of(self@.skip(i as int), ov, lower, take as int - r@.len() as int)
                =~= r@);
            assert(r@ =~= page_of(self@, ov, lower, take as int));
        }
        r
    }
}

/// The model of an optional owner filter.
pub open spec fn view_opt_owner(a: Option<&Account>) -> Option<AccountV> {
    match a {
        Some(x) => Some(x@),
        None => None,
    }
}

/// Whether a pagination query selects this token record.
fn wants(t: &Icrc7Token, owner: Option<&Account>, lower: Option<u128>) -> (r: bool)
    ensures
        r == page_wants(t@, view_opt_owner(owner), lower),
{
    let ow = match owner {
        Some(o) => t.token_owner.same(o),
        None => true,
    };
    let lw = match lower {
        Some(l) => t.token_id > l,
        None => true,
    };
    ow && lw
}

} // verus!
