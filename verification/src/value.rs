//! The universal interchange value: every storable scalar is one of these.

use vstd::prelude::*;

verus! {

/// The kind of scalar a record field stores. Field descriptors carry one of
/// these so a backend can pick a column type.
#[derive(Clone, Copy, PartialEq, Eq, Structural, Debug)]
pub enum ValueType {
    Integer,
    Float,
    Text,
    Bytes,
}

/// A storable scalar: the interchange shape between record fields and backend
/// storage. Exactly one variant is active.
///
/// `Float` carries the bit pattern of an IEEE 754 64-bit float; backends turn
/// the bits into their native floating-point column value at the edge, so the
/// engine itself never computes on floats.
#[derive(Debug)]
pub enum Value {
    Integer(i64),
    Float(u64),
    Text(String),
    Bytes(Vec<u8>),
    Null,
}

/// A 64-bit float held as its IEEE 754 bit pattern, so records can carry
/// float fields while the engine computes only on the bits. The edges that
/// talk to a backend or a caller turn the bits into a native float and back.
#[derive(Clone, Copy, PartialEq, Eq, Structural, Debug)]
pub struct FloatBits {
    pub bits: u64,
}

/// The mathematical shape of a [`Value`]: text and byte strings are taken as
/// their character and byte sequences. Contracts speak of values through this
/// model, written `v@`.
pub enum ValueModel {
    Integer(i64),
    Float(u64),
    Text(Seq<char>),
    Bytes(Seq<u8>),
    Null,
}

impl View for Value {
    type V = ValueModel;

    open spec fn view(&self) -> ValueModel {
        match *self {
            Value::Integer(i) => ValueModel::Integer(i),
            Value::Float(b) => ValueModel::Float(b),
            Value::Text(ref s) => ValueModel::Text(s@),
            Value::Bytes(ref b) => ValueModel::Bytes(b@),
            Value::Null => ValueModel::Null,
        }
    }
}

impl Value {
    /// The integer payload, if this value is an integer.
    pub fn as_i64(&self) -> (r: Option<i64>)
        ensures
            r == (match self@ {
                ValueModel::Integer(i) => Some(i),
                _ => None::<i64>,
            }),
    {
        if let Value::Integer(i) = self {
            Some(*i)
        } else {
            None
        }
    }

    /// The float payload as its bit pattern, if this value is a float.
    pub fn as_float_bits(&self) -> (r: Option<u64>)
        ensures
            r == (match self@ {
                ValueModel::Float(b) => Some(b),
                _ => None::<u64>,
            }),
    {
        if let Value::Float(b) = self {
            Some(*b)
        } else {
            None
        }
    }

    /// The text payload, if this value is text.
    pub fn as_string(&self) -> (r: Option<&String>)
        ensures
            match self@ {
                ValueModel::Text(t) => r matches Some(s) && s@ == t,
                _ => r is None,
            },
    {
        if let Value::Text(s) = self {
            Some(s)
        } else {
            None
        }
    }

    /// The byte-string payload, if this value is a byte string.
    pub fn as_bytes(&self) -> (r: Option<&Vec<u8>>)
        ensures
            match self@ {
                ValueModel::Bytes(t) => r matches Some(b) && b@ == t,
                _ => r is None,
            },
    {
        if let Value::Bytes(b) = self {
            Some(b)
        } else {
            None
        }
    }
}

impl Clone for Value {
    fn clone(&self) -> (r: Self)
        ensures
            r@ == self@,
    {
        match self {
            Value::Integer(i) => Value::Integer(*i),
            Value::Float(b) => Value::Float(*b),
            Value::Text(s) => Value::Text(s.clone()),
            Value::Bytes(b) => Value::Bytes(clone_bytes(b)),
            Value::Null => Value::Null,
        }
    }
}

/// Copies a byte string element by element, so the copy is known to hold the
/// same bytes.
pub(crate) fn clone_bytes(b: &Vec<u8>) -> (r: Vec<u8>)
    ensures
        r@ == b@,
{
    let mut out: Vec<u8> = Vec::new();
    let mut i: usize = 0;
    while i < b.len()
        invariant
            i <= b.len(),
            out@ =~= b@.subrange(0, i as int),
        decreases b.len() - i,
    {
        out.push(b[i]);
        i += 1;
    }
    proof {
        assert(out@ =~= b@);
    }
    out
}

impl PartialEq for Value {
    fn eq(&self, other: &Self) -> (r: bool)
    {
        match (self, other) {
            (Value::Integer(a), Value::Integer(b)) => *a == *b,
            (Value::Float(a), Value::Float(b)) => *a == *b,
            (Value::Text(a), Value::Text(b)) => *a == *b,
            (Value::Bytes(a), Value::Bytes(b)) => bytes_equal(a, b),
            (Value::Null, Value::Null) => true,
            _ => false,
        }
    }
}

impl vstd::std_specs::cmp::PartialEqSpecImpl for Value {
    open spec fn obeys_eq_spec() -> bool {
        true
    }

    open spec fn eq_spec(&self, other: &Self) -> bool {
        self@ == other@
    }
}

/// Compares two byte strings by contents.
fn bytes_equal(a: &Vec<u8>, b: &Vec<u8>) -> (r: bool)
    ensures
        r == (a@ == b@),
{
    if a.len() != b.len() {
        proof {
            assert(a@.len() != b@.len());
        }
        return false;
    }
    let mut i: usize = 0;
    while i < a.len()
        invariant
            i <= a.len(),
            a@.len() == b@.len(),
            forall|j: int| 0 <= j < i ==> a@[j] == b@[j],
        decreases a.len() - i,
    {
        if a[i] != b[i] {
            return false;
        }
        i += 1;
    }
    proof {
        assert(a@ =~= b@);
    }
    true
}

} // verus!
