//! Accounts: an owner principal (its bytes) plus an optional 32-byte
//! subaccount discriminator. A missing subaccount is normalized to the
//! all-zero default subaccount at the ledger boundary, so that "no
//! subaccount" and "default subaccount" name the same account.

use vstd::prelude::*;

verus! {

/// An account: owner principal bytes and an optional 32-byte subaccount.
pub struct Account {
    pub owner: Vec<u8>,
    pub subaccount: Option<Vec<u8>>,
}

/// The mathematical model of an `Account`.
pub struct AccountV {
    pub owner: Seq<u8>,
    pub subaccount: Option<Seq<u8>>,
}

impl View for Account {
    type V = AccountV;

    open spec fn view(&self) -> AccountV {
        AccountV {
            owner: self.owner@,
            subaccount: match self.subaccount {
                Some(s) => Some(s@),
                None => None,
            },
        }
    }
}

impl AccountV {
    /// A well-formed stored account: normalized, with a non-empty owner.
    pub open spec fn wf(self) -> bool {
        &&& self.owner.len() > 0
        &&& self.subaccount matches Some(s) && s.len() == 32
    }

    /// The normal form: a missing subaccount becomes the default one.
    pub open spec fn normalized(self) -> AccountV {
        AccountV {
            owner: self.owner,
            subaccount: match self.subaccount {
                Some(s) => Some(s),
                None => Some(default_subaccount()),
            },
        }
    }
}

/// The default subaccount: 32 zero bytes.
pub open spec fn default_subaccount() -> Seq<u8> {
    Seq::new(32, |i: int| 0u8)
}

/// Compares two byte vectors by contents.
pub fn bytes_eq(a: &Vec<u8>, b: &Vec<u8>) -> (r: bool)
    ensures
        r == (a@ == b@),
{
    if a.len() != b.len() {
        assert(a@ != b@);
        return false;
    }
    let mut i: usize = 0;
    while i < a.len()
        invariant
            i <= a.len(),
            a@.len() == b@.len(),
            forall|j: int| 0 <= j < i ==> a@[j] == b@[j],
        decreases a.len() - i,
    {
        if a[i] != b[i] {
            return false;
        }
        i = i + 1;
    }
    assert(a@ =~= b@);
    true
}

impl Account {
    /// Compares two accounts by contents.
    pub fn same(&self, other: &Account) -> (r: bool)
        ensures
            r == (self@ == other@),
    {
        if !bytes_eq(&self.owner, &other.owner) {
            assert(self@ != other@);
            return false;
        }
        let r = match (&self.subaccount, &other.subaccount) {
            (Some(a), Some(b)) => bytes_eq(a, b),
            (None, None) => true,
            _ => false,
        };
        if r {
            assert(self@ =~= other@);
        }
        r
    }

    /// Copies an account; the copy models the same account.
    pub fn copy(&self) -> (r: Account)
        ensures
            r@ == self@,
    {
        let sub = match &self.subaccount {
            Some(s) => Some(crate::value::copy_bytes(s)),
            None => None,
        };
        let r = Account { owner: crate::value::copy_bytes(&self.owner), subaccount: sub };
        assert(r@ =~= self@);
        r
    }
}

/// Builds the default (all-zero) subaccount.
pub fn make_default_subaccount() -> (r: Vec<u8>)
    ensures
        r@ == default_subaccount(),
{
    let mut r: Vec<u8> = Vec::new();
    let mut i: usize = 0;
    while i < 32
        invariant
            i <= 32,
            r@ == Seq::new(i as nat, |j: int| 0u8),
        decreases 32 - i,
    {
        r.push(0u8);
        assert(r@ =~= Seq::new((i + 1) as nat, |j: int| 0u8));
        i = i + 1;
    }
    assert(r@ =~= default_subaccount());
    r
}

/// Normalizes an account: a missing subaccount becomes the default one.
pub fn account_transformer(account: Account) -> (r: Account)
    ensures
        r@ == account@.normalized(),
{
    match account.subaccount {
        Some(s) => {
            let r = Account { owner: account.owner, subaccount: Some(s) };
            assert(r@ =~= account@.normalized());
            r
        },
        None => {
            let r = Account { owner: account.owner, subaccount: Some(make_default_subaccount()) };
            assert(r@ =~= account@.normalized());
            r
        },
    }
}

/// The normalized account of a bare owner principal.
pub fn default_account(owner: &Vec<u8>) -> (r: Account)
    ensures
        r@.owner == owner@,
        r@.subaccount == Some(default_subaccount()),
{
    Account { owner: crate::value::copy_bytes(owner), subaccount: Some(make_default_subaccount()) }
}

/// The model of the burn subaccount: the bytes of "BURN SUBACCOUNT" padded
/// with zeroes to 32 bytes.
pub open spec fn burn_subaccount_bytes() -> Seq<u8> {
    seq![66u8, 85u8, 82u8, 78u8, 32u8, 83u8, 85u8, 66u8, 65u8, 67u8, 67u8, 79u8, 85u8, 78u8, 84u8]
        + Seq::new(17, |i: int| 0u8)
}

/// Builds the burn subaccount: "BURN SUBACCOUNT" padded with zeroes.
pub fn burn_subaccount() -> (r: Vec<u8>)
    ensures
        r@ == burn_subaccount_bytes(),
        r@.len() == 32,
{
    let mut r: Vec<u8> = Vec::new();
    r.push(66u8);
    r.push(85u8);
    r.push(82u8);
    r.push(78u8);
    r.push(32u8);
    r.push(83u8);
    r.push(85u8);
    r.push(66u8);
    r.push(65u8);
    r.push(67u8);
    r.push(67u8);
    r.push(79u8);
    r.push(85u8);
    r.push(78u8);
    r.push(84u8);
    let mut i: usize = 0;
    while i < 17
        invariant
            i <= 17,
            r@.len() == 15 + i,
            r@ == burn_subaccount_bytes().subrange(0, 15 + i as int),
        decreases 17 - i,
    {
        r.push(0u8);
        assert(r@ =~= burn_subaccount_bytes().subrange(0, 15 + (i + 1) as int));
        i = i + 1;
    }
    assert(r@ =~= burn_subaccount_bytes());
    r
}

/// The account that burned tokens are notionally moved to: the ledger's own
/// principal with the burn subaccount.
pub fn burn_account(ledger_principal: &Vec<u8>) -> (r: Account)
    ensures
        r@.owner == ledger_principal@,
        r@.subaccount == Some(burn_subaccount_bytes()),
{
    Account { owner: crate::value::copy_bytes(ledger_principal), subaccount: Some(burn_subaccount()) }
}

/// Widens a principal to a 32-byte subaccount by zero-padding it.
pub fn principal_to_subaccount(prin: &Vec<u8>) -> (r: Vec<u8>)
    requires
        prin@.len() <= 32,
    ensures
        r@ == prin@ + Seq::new((32 - prin@.len()) as nat, |i: int| 0u8),
        r@.len() == 32,
{
    let mut r = crate::value::copy_bytes(prin);
    let ghost pad_len: int = 32 - prin@.len();
    let mut i: usize = 0;
    while i < 32 - prin.len()
        invariant
            prin@.len() <= 32,
            i <= 32 - prin@.len(),
            r@ == prin@ + Seq::new(i as nat, |j: int| 0u8),
        decreases 32 - prin.len() - i,
    {
        r.push(0u8);
        assert(r@ =~= prin@ + Seq::new((i + 1) as nat, |j: int| 0u8));
        i = i + 1;
    }
    r
}

} // verus!
