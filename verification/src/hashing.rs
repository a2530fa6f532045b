//! The block hash: every log block is hashed with the ICRC-3
//! representation-independent hash, computed by the ledger-types crate. The
//! hash's result is named, not restated: it is a pure function of the value.

use vstd::prelude::*;
use crate::value::{Entry, Value, ValueV};
use icrc_ledger_types::icrc::generic_value::Value as IcrcValue;

verus! {

#[verifier::external_type_specification]
#[verifier::external_body]
pub struct ExIcrcValue(IcrcValue);

/// The ICRC-3 representation-independent hash of a value, as
/// `icrc_ledger_types::icrc::generic_value::Value::hash` computes it. It
/// depends on the value alone.
pub uninterp spec fn hash_of(v: ValueV) -> Seq<u8>;

/// Relies on the generic-value constructors of `icrc_ledger_types` and the
/// integer types of `candid`: rebuilds this library's value tree, variant for
/// variant, as the ledger-types value.
#[verifier::external_body]
fn to_icrc_value(v: &Value) -> IcrcValue {
    match v {
        Value::Blob(b) => IcrcValue::Blob(serde_bytes::ByteBuf::from(b.clone())),
        Value::Text(t) => IcrcValue::Text(t.clone()),
        Value::Nat(n) => IcrcValue::Nat(candid::Nat::from(*n)),
        Value::Nat64(n) => IcrcValue::Nat64(*n),
        Value::Int(i) => IcrcValue::Int(candid::Int::from(*i)),
        Value::Array(a) => IcrcValue::Array(a.iter().map(to_icrc_value).collect()),
        Value::Dict(m) => IcrcValue::Map(
            m.iter().map(|e: &Entry| (e.key.clone(), to_icrc_value(&e.val))).collect(),
        ),
    }
}

/// Relies on `Value::hash` of `icrc_ledger_types`: the ICRC-3
/// representation-independent hash, a 32-byte digest that depends on the
/// value alone.
#[verifier::external_body]
pub(crate) fn hash_value(v: &Value) -> (r: Vec<u8>)
    ensures
        r@ == hash_of(v@),
        r@.len() == 32,
{
    to_icrc_value(v).hash().to_vec()
}

/// The ICRC-3 representation-independent hash of a value.
pub fn hash_icrc_value(value: &Value) -> (r: Vec<u8>)
    ensures
        r@ == hash_of(value@),
        r@.len() == 32,
{
    hash_value(value)
}

/// The fixed zero hash: the previous-block hash of the genesis block.
pub open spec fn zero_hash() -> Seq<u8> {
    Seq::new(32, |i: int| 0u8)
}

/// Builds the zero hash.
pub fn make_zero_hash() -> (r: Vec<u8>)
    ensures
        r@ == zero_hash(),
{
    let r = crate::account::make_default_subaccount();
    assert(r@ =~= zero_hash());
    r
}

} // verus!
