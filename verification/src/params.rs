//! Query parameters and their binary encoding.

use crate::endian::i32_be_bytes;
use crate::endian::i32_be_vec;
use crate::endian::i64_be_bytes;
use crate::endian::i64_be_vec;
use crate::endian::u64_be_bytes;
use crate::endian::u64_be_vec;
use vstd::prelude::*;
use vstd::string::StrSliceExecFns;
use vstd::utf8::encode_utf8;

verus! {

/// One value handed to a parameterized statement.
#[derive(Debug, Clone)]
pub enum BinaryParam {
    /// A 32-bit signed integer.
    Int4(i32),
    /// A text.
    Text(String),
    /// A truth value.
    Bool(bool),
    /// A 64-bit signed integer.
    Int8(i64),
    /// A double-precision number, held as its IEEE-754 bit pattern.
    Float8(u64),
}

/// The type identifier announced for a parameter; an absent parameter
/// announces none.
pub open spec fn param_oid(p: Option<BinaryParam>) -> u32 {
    match p {
        Some(BinaryParam::Int4(_)) => 23,
        Some(BinaryParam::Text(_)) => 25,
        Some(BinaryParam::Bool(_)) => 16,
        Some(BinaryParam::Int8(_)) => 20,
        Some(BinaryParam::Float8(_)) => 701,
        None => 0,
    }
}

/// The bytes sent for a parameter; an absent parameter sends none.
pub open spec fn param_bytes(p: Option<BinaryParam>) -> Option<Seq<u8>> {
    match p {
        Some(BinaryParam::Int4(v)) => Some(i32_be_bytes(v as int)),
        Some(BinaryParam::Text(s)) => Some(encode_utf8(s@)),
        Some(BinaryParam::Bool(v)) => Some(
            seq![if v {
                1u8
            } else {
                0u8
            }],
        ),
        Some(BinaryParam::Int8(v)) => Some(i64_be_bytes(v as int)),
        Some(BinaryParam::Float8(bits)) => Some(u64_be_bytes(bits as int)),
        None => None,
    }
}

/// The byte strings that a vector of optional payloads holds.
pub open spec fn payloads_of(v: Seq<Option<Vec<u8>>>) -> Seq<Option<Seq<u8>>> {
    Seq::new(
        v.len(),
        |i: int|
            match v[i] {
                Some(b) => Some(b@),
                None => None,
            },
    )
}

/// The type identifiers of a parameter list, in order.
pub open spec fn param_oids(params: Seq<Option<BinaryParam>>) -> Seq<u32> {
    Seq::new(params.len(), |i: int| param_oid(params[i]))
}

/// The payloads of a parameter list, in order.
pub open spec fn param_payloads(params: Seq<Option<BinaryParam>>) -> Seq<Option<Seq<u8>>> {
    Seq::new(params.len(), |i: int| param_bytes(params[i]))
}

/// Encodes every parameter: its type identifier and its bytes.
pub fn format_params(params: Vec<Option<BinaryParam>>) -> (r: (Vec<u32>, Vec<Option<Vec<u8>>>))
    ensures
        r.0@ == param_oids(params@),
        payloads_of(r.1@) == param_payloads(params@),
{
    let mut param_types: Vec<u32> = Vec::new();
    let mut param_values: Vec<Option<Vec<u8>>> = Vec::new();
    let mut i: usize = 0;
    while i < params.len()
        invariant
            i <= params.len(),
            param_types@ == param_oids(params@.take(i as int)),
            payloads_of(param_values@) == param_payloads(params@.take(i as int)),
        decreases params.len() - i,
    {
        let ghost types_before = param_types@;
        let ghost values_before = payloads_of(param_values@);
        let ghost p = params@[i as int];
        match &params[i] {
            Some(BinaryParam::Int4(val)) => {
                param_types.push(23);
                param_values.push(Some(i32_be_vec(*val)));
            },
            Some(BinaryParam::Text(s)) => {
                param_types.push(25);
                param_values.push(Some(s.as_str().as_bytes_vec()));
            },
            Some(BinaryParam::Bool(val)) => {
                param_types.push(16);
                let byte: u8 = if *val {
                    1
                } else {
                    0
                };
                let mut one: Vec<u8> = Vec::new();
                one.push(byte);
                assert(one@ =~= seq![byte]);
                param_values.push(Some(one));
            },
            Some(BinaryParam::Int8(val)) => {
                param_types.push(20);
                param_values.push(Some(i64_be_vec(*val)));
            },
            Some(BinaryParam::Float8(bits)) => {
                param_types.push(701);
                param_values.push(Some(u64_be_vec(*bits)));
            },
            None => {
                param_types.push(0);
                param_values.push(None);
            },
        }
        proof {
            assert(params@.take(i + 1) =~= params@.take(i as int).push(p));
            assert(param_types@ =~= types_before.push(param_oid(p)));
            assert(payloads_of(param_values@) =~= values_before.push(param_bytes(p)));
            assert(param_oids(params@.take(i + 1)) =~= types_before.push(param_oid(p)));
            assert(param_payloads(params@.take(i + 1)) =~= values_before.push(param_bytes(p)));
        }
        i = i + 1;
    }
    proof {
        assert(params@.take(i as int) =~= params@);
    }
    (param_types, param_values)
}

} // verus!
