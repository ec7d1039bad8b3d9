//! The per-type field codec: how a field type declares its descriptor,
//! becomes a [`Value`], and is rebuilt from one.

use vstd::prelude::*;

use crate::error::{string_from, Error};
use crate::field::{CrudField, CrudFieldModel};
use crate::value::{clone_bytes, FloatBits, Value, ValueModel, ValueType};

verus! {

/// The policy one field type supplies: a descriptor, a total conversion into
/// a [`Value`], and a partial conversion back.
///
/// Each implementation fixes a mathematical `Model` for the type and four
/// spec functions; the executable methods are pinned to them, and
/// [`IsCrudField::lemma_value_roundtrip`] obliges every implementation to
/// take each in-domain model value back to itself.
///
/// `MaybeSelf` is the type's own shape for a failed or absent reconstruction:
/// an `Option` where absence needs no explanation, a `Result` where the
/// caller is owed a cause. `maybe_model` says which models a `MaybeSelf`
/// value stands for, so contracts can read either shape.
pub trait IsCrudField: Sized {
    type Model;

    type MaybeSelf;

    /// The mathematical value this field value stands for.
    spec fn model(&self) -> Self::Model;

    /// The descriptor this type declares, before a record names it.
    spec fn field_spec() -> CrudFieldModel;

    /// What converting a model value into a stored value yields.
    spec fn to_value_spec(m: Self::Model) -> ValueModel;

    /// Which model value a stored value is read back as, or nothing when the
    /// stored value has the wrong shape or is out of range.
    spec fn from_value_spec(v: ValueModel) -> Option<Self::Model>;

    /// The model a `MaybeSelf` stands for: the reconstructed value, or
    /// nothing for the type's failure shape.
    spec fn maybe_model(r: Self::MaybeSelf) -> Option<Self::Model>;

    /// The model values the type can store losslessly; `from_value` after
    /// `to_value` is the identity exactly on these.
    spec fn in_domain(m: Self::Model) -> bool;

    /// The descriptor for a field of this type.
    fn field() -> (r: CrudField)
        ensures
            r@ == Self::field_spec(),
    ;

    /// Converts this value into its stored shape; total and lossless.
    fn into_value(&self) -> (r: Value)
        ensures
            r@ == Self::to_value_spec(self.model()),
    ;

    /// Attempts to rebuild a value of this type from a stored value.
    fn maybe_from_value(value: &Value) -> (r: Self::MaybeSelf)
        ensures
            Self::maybe_model(r) == Self::from_value_spec(value@),
    ;

    /// Collapses the type's reconstruction shape to presence or absence,
    /// dropping any failure detail it carried.
    fn maybe_to_option(r: Self::MaybeSelf) -> (o: Option<Self>)
        ensures
            match o {
                Some(v) => Self::maybe_model(r) == Some(v.model()),
                None => Self::maybe_model(r) is None,
            },
    ;

    /// Storing and re-reading an in-domain value gives it back.
    proof fn lemma_value_roundtrip(m: Self::Model)
        requires
            Self::in_domain(m),
        ensures
            Self::from_value_spec(Self::to_value_spec(m)) == Some(m),
    ;
}

/// For every field type, reading back a stored in-domain value succeeds and
/// gives the value that was stored.
pub proof fn lemma_codec_roundtrip<T: IsCrudField>(m: T::Model)
    requires
        T::in_domain(m),
    ensures
        T::from_value_spec(T::to_value_spec(m)) == Some(m),
{
    T::lemma_value_roundtrip(m);
}

impl IsCrudField for i64 {
    type Model = i64;

    type MaybeSelf = Option<i64>;

    open spec fn model(&self) -> i64 {
        *self
    }

    open spec fn field_spec() -> CrudFieldModel {
        CrudFieldModel {
            name: Seq::<char>::empty(),
            ty: ValueType::Integer,
            nullable: false,
            primary_key: false,
            auto_increment: false,
        }
    }

    open spec fn to_value_spec(m: i64) -> ValueModel {
        ValueModel::Integer(m)
    }

    open spec fn from_value_spec(v: ValueModel) -> Option<i64> {
        match v {
            ValueModel::Integer(i) => Some(i),
            _ => None,
        }
    }

    open spec fn maybe_model(r: Option<i64>) -> Option<i64> {
        r
    }

    open spec fn in_domain(m: i64) -> bool {
        true
    }

    fn field() -> (r: CrudField) {
        let f = CrudField::unnamed(ValueType::Integer);
        proof {
            assert(f@ =~= Self::field_spec());
        }
        f
    }

    fn into_value(&self) -> (r: Value) {
        Value::Integer(*self)
    }

    fn maybe_from_value(value: &Value) -> (r: Option<i64>) {
        value.as_i64()
    }

    fn maybe_to_option(r: Self::MaybeSelf) -> (o: Option<Self>) {
        r
    }

    proof fn lemma_value_roundtrip(m: i64) {
    }
}

impl IsCrudField for i32 {
    type Model = i32;

    type MaybeSelf = Option<i32>;

    open spec fn model(&self) -> i32 {
        *self
    }

    open spec fn field_spec() -> CrudFieldModel {
        CrudFieldModel {
            name: Seq::<char>::empty(),
            ty: ValueType::Integer,
            nullable: false,
            primary_key: false,
            auto_increment: false,
        }
    }

    open spec fn to_value_spec(m: i32) -> ValueModel {
        ValueModel::Integer(m as i64)
    }

    open spec fn from_value_spec(v: ValueModel) -> Option<i32> {
        match v {
            ValueModel::Integer(i) => if i32::MIN <= i <= i32::MAX {
                Some(i as i32)
            } else {
                None
            },
            _ => None,
        }
    }

    open spec fn maybe_model(r: Option<i32>) -> Option<i32> {
        r
    }

    open spec fn in_domain(m: i32) -> bool {
        true
    }

    fn field() -> (r: CrudField) {
        let f = CrudField::unnamed(ValueType::Integer);
        proof {
            assert(f@ =~= Self::field_spec());
        }
        f
    }

    fn into_value(&self) -> (r: Value) {
        Value::Integer(*self as i64)
    }

    fn maybe_from_value(value: &Value) -> (r: Option<i32>) {
        match value.as_i64() {
            Some(i) => {
                if i >= i32::MIN as i64 && i <= i32::MAX as i64 {
                    Some(i as i32)
                } else {
                    None
                }
            },
            None => None,
        }
    }

    fn maybe_to_option(r: Self::MaybeSelf) -> (o: Option<Self>) {
        r
    }

    proof fn lemma_value_roundtrip(m: i32) {
    }
}

impl IsCrudField for u32 {
    type Model = u32;

    type MaybeSelf = Result<u32, Error>;

    open spec fn model(&self) -> u32 {
        *self
    }

    open spec fn field_spec() -> CrudFieldModel {
        CrudFieldModel {
            name: Seq::<char>::empty(),
            ty: ValueType::Integer,
            nullable: false,
            primary_key: false,
            auto_increment: false,
        }
    }

    open spec fn to_value_spec(m: u32) -> ValueModel {
        ValueModel::Integer(m as i64)
    }

    open spec fn from_value_spec(v: ValueModel) -> Option<u32> {
        match v {
            ValueModel::Integer(i) => if 0 <= i <= u32::MAX {
                Some(i as u32)
            } else {
                None
            },
            _ => None,
        }
    }

    open spec fn maybe_model(r: Result<u32, Error>) -> Option<u32> {
        match r {
            Ok(v) => Some(v),
            Err(_) => None,
        }
    }

    open spec fn in_domain(m: u32) -> bool {
        true
    }

    fn field() -> (r: CrudField) {
        let f = CrudField::unnamed(ValueType::Integer);
        proof {
            assert(f@ =~= Self::field_spec());
        }
        f
    }

    fn into_value(&self) -> (r: Value) {
        Value::Integer(*self as i64)
    }

    /// An out-of-range integer is surfaced as an error with its cause, since
    /// absence is not a valid unsigned reading of it.
    fn maybe_from_value(value: &Value) -> (r: Result<u32, Error>)
        ensures
            r matches Err(e) ==> e is FieldConversion,
    {
        match value.as_i64() {
            Some(i) => {
                if i >= 0 && i <= u32::MAX as i64 {
                    Ok(i as u32)
                } else {
                    Err(Error::FieldConversion(string_from("integer out of unsigned range")))
                }
            },
            None => Err(Error::FieldConversion(string_from("not an integer"))),
        }
    }

    fn maybe_to_option(r: Self::MaybeSelf) -> (o: Option<Self>) {
        match r {
            Ok(v) => Some(v),
            Err(_) => None,
        }
    }

    proof fn lemma_value_roundtrip(m: u32) {
    }
}

/// The unsigned codec rejects every integer outside its range: reading such a
/// stored value back reports failure rather than wrapping or panicking.
pub proof fn lemma_unsigned_narrowing_fails(i: i64)
    requires
        i < 0 || i > u32::MAX,
    ensures
        <u32 as IsCrudField>::from_value_spec(ValueModel::Integer(i)) is None,
{
}

impl IsCrudField for String {
    type Model = Seq<char>;

    type MaybeSelf = Option<String>;

    open spec fn model(&self) -> Seq<char> {
        self@
    }

    open spec fn field_spec() -> CrudFieldModel {
        CrudFieldModel {
            name: Seq::<char>::empty(),
            ty: ValueType::Text,
            nullable: false,
            primary_key: false,
            auto_increment: false,
        }
    }

    open spec fn to_value_spec(m: Seq<char>) -> ValueModel {
        ValueModel::Text(m)
    }

    open spec fn from_value_spec(v: ValueModel) -> Option<Seq<char>> {
        match v {
            ValueModel::Text(t) => Some(t),
            _ => None,
        }
    }

    open spec fn maybe_model(r: Option<String>) -> Option<Seq<char>> {
        match r {
            Some(s) => Some(s@),
            None => None,
        }
    }

    open spec fn in_domain(m: Seq<char>) -> bool {
        true
    }

    fn field() -> (r: CrudField) {
        let f = CrudField::unnamed(ValueType::Text);
        proof {
            assert(f@ =~= Self::field_spec());
        }
        f
    }

    fn into_value(&self) -> (r: Value) {
        Value::Text(self.clone())
    }

    fn maybe_from_value(value: &Value) -> (r: Option<String>) {
        match value.as_string() {
            Some(s) => Some(s.clone()),
            None => None,
        }
    }

    fn maybe_to_option(r: Self::MaybeSelf) -> (o: Option<Self>) {
        r
    }

    proof fn lemma_value_roundtrip(m: Seq<char>) {
    }
}

impl IsCrudField for FloatBits {
    type Model = u64;

    type MaybeSelf = Option<FloatBits>;

    open spec fn model(&self) -> u64 {
        self.bits
    }

    open spec fn field_spec() -> CrudFieldModel {
        CrudFieldModel {
            name: Seq::<char>::empty(),
            ty: ValueType::Float,
            nullable: false,
            primary_key: false,
            auto_increment: false,
        }
    }

    open spec fn to_value_spec(m: u64) -> ValueModel {
        ValueModel::Float(m)
    }

    open spec fn from_value_spec(v: ValueModel) -> Option<u64> {
        match v {
            ValueModel::Float(b) => Some(b),
            _ => None,
        }
    }

    open spec fn maybe_model(r: Option<FloatBits>) -> Option<u64> {
        match r {
            Some(f) => Some(f.bits),
            None => None,
        }
    }

    open spec fn in_domain(m: u64) -> bool {
        true
    }

    fn field() -> (r: CrudField) {
        let f = CrudField::unnamed(ValueType::Float);
        proof {
            assert(f@ =~= Self::field_spec());
        }
        f
    }

    fn into_value(&self) -> (r: Value) {
        Value::Float(self.bits)
    }

    fn maybe_from_value(value: &Value) -> (r: Option<FloatBits>) {
        match value.as_float_bits() {
            Some(b) => Some(FloatBits { bits: b }),
            None => None,
        }
    }

    fn maybe_to_option(r: Self::MaybeSelf) -> (o: Option<Self>) {
        r
    }

    proof fn lemma_value_roundtrip(m: u64) {
    }
}

impl IsCrudField for Vec<u8> {
    type Model = Seq<u8>;

    type MaybeSelf = Option<Vec<u8>>;

    open spec fn model(&self) -> Seq<u8> {
        self@
    }

    open spec fn field_spec() -> CrudFieldModel {
        CrudFieldModel {
            name: Seq::<char>::empty(),
            ty: ValueType::Bytes,
            nullable: false,
            primary_key: false,
            auto_increment: false,
        }
    }

    open spec fn to_value_spec(m: Seq<u8>) -> ValueModel {
        ValueModel::Bytes(m)
    }

    open spec fn from_value_spec(v: ValueModel) -> Option<Seq<u8>> {
        match v {
            ValueModel::Bytes(b) => Some(b),
            _ => None,
        }
    }

    open spec fn maybe_model(r: Option<Vec<u8>>) -> Option<Seq<u8>> {
        match r {
            Some(b) => Some(b@),
            None => None,
        }
    }

    open spec fn in_domain(m: Seq<u8>) -> bool {
        true
    }

    fn field() -> (r: CrudField) {
        let f = CrudField::unnamed(ValueType::Bytes);
        proof {
            assert(f@ =~= Self::field_spec());
        }
        f
    }

    fn into_value(&self) -> (r: Value) {
        Value::Bytes(clone_bytes(self))
    }

    fn maybe_from_value(value: &Value) -> (r: Option<Vec<u8>>) {
        match value.as_bytes() {
            Some(b) => Some(clone_bytes(b)),
            None => None,
        }
    }

    fn maybe_to_option(r: Self::MaybeSelf) -> (o: Option<Self>) {
        r
    }

    proof fn lemma_value_roundtrip(m: Seq<u8>) {
    }
}

impl<T: IsCrudField> IsCrudField for Option<T> {
    type Model = Option<T::Model>;

    type MaybeSelf = Option<Option<T>>;

    open spec fn model(&self) -> Option<T::Model> {
        match *self {
            Some(ref v) => Some(v.model()),
            None => None,
        }
    }

    /// The inner descriptor, with `nullable` forced true.
    open spec fn field_spec() -> CrudFieldModel {
        CrudFieldModel { nullable: true, ..T::field_spec() }
    }

    open spec fn to_value_spec(m: Option<T::Model>) -> ValueModel {
        match m {
            Some(tm) => T::to_value_spec(tm),
            None => ValueModel::Null,
        }
    }

    /// A stored null reads back as the absent value; any other stored value
    /// inherits the inner codec's reading.
    open spec fn from_value_spec(v: ValueModel) -> Option<Option<T::Model>> {
        match v {
            ValueModel::Null => Some(None),
            _ => match T::from_value_spec(v) {
                Some(tm) => Some(Some(tm)),
                None => None,
            },
        }
    }

    open spec fn maybe_model(r: Option<Option<T>>) -> Option<Option<T::Model>> {
        match r {
            Some(ov) => Some(
                match ov {
                    Some(v) => Some(v.model()),
                    None => None,
                },
            ),
            None => None,
        }
    }

    /// An absent value always round-trips through null; a present inner
    /// value round-trips when the inner type says so and its stored shape is
    /// not itself null (which would read back as absent).
    open spec fn in_domain(m: Option<T::Model>) -> bool {
        match m {
            Some(tm) => T::in_domain(tm) && !(T::to_value_spec(tm) is Null),
            None => true,
        }
    }

    fn field() -> (r: CrudField) {
        let mut cf = T::field();
        cf.nullable = true;
        cf
    }

    fn into_value(&self) -> (r: Value) {
        match self {
            Some(v) => v.into_value(),
            None => Value::Null,
        }
    }

    fn maybe_from_value(value: &Value) -> (r: Option<Option<T>>) {
        match value {
            Value::Null => Some(None),
            _ => match T::maybe_to_option(T::maybe_from_value(value)) {
                Some(t) => Some(Some(t)),
                None => None,
            },
        }
    }

    fn maybe_to_option(r: Option<Option<T>>) -> (o: Option<Option<T>>) {
        r
    }

    proof fn lemma_value_roundtrip(m: Option<T::Model>) {
        match m {
            Some(tm) => {
                T::lemma_value_roundtrip(tm);
            },
            None => {
            },
        }
    }
}

} // verus!
