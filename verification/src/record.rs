//! The record contract: what one record version exposes so it can be stored,
//! reloaded, and migrated.

use vstd::prelude::*;

use crate::error::Error;
use crate::field::{
    primary_key_index, spec_field_names, spec_has_primary_key, spec_primary_key_name, CrudField,
    CrudFieldModel,
};
use crate::fieldmap::FieldMap;
use crate::value::{Value, ValueModel};

verus! {

/// The glue one record version supplies (hand-written, or produced
/// mechanically from the struct definition): a table name, ordered field
/// descriptors, and conversions between the record and a named field map.
///
/// A verified implementation also fixes a mathematical `Model` for the
/// record and overrides the spec functions, so the executable methods'
/// contracts say exactly what is written and read; [`LawfulRecord`] then
/// states the laws such an implementation must prove. An ordinary, unverified
/// implementation provides the executable methods alone and leaves the spec
/// functions at their defaults, which promise nothing.
pub trait HasCrudFields: Sized {
    type Model;

    /// The mathematical value this record stands for.
    open spec fn model(&self) -> Self::Model {
        arbitrary()
    }

    /// The name of the table this version lives in.
    open spec fn table_name_spec() -> Seq<char> {
        arbitrary()
    }

    /// The declared fields, in declaration order; the order is stable and
    /// significant for relational table creation.
    open spec fn fields_spec() -> Seq<CrudFieldModel> {
        arbitrary()
    }

    /// The field map a record with the given model writes: one entry per
    /// declared field.
    open spec fn fields_of(m: Self::Model) -> Map<Seq<char>, ValueModel> {
        arbitrary()
    }

    /// Which record a field map reads back as, or nothing when a declared
    /// field is absent or fails its per-type conversion.
    open spec fn from_fields_spec(f: Map<Seq<char>, ValueModel>) -> Option<Self::Model> {
        arbitrary()
    }

    /// The table this version lives in.
    fn table_name() -> (r: String)
        ensures
            r@ == Self::table_name_spec(),
    ;

    /// The declared fields, in declaration order.
    fn crud_fields() -> (r: Vec<CrudField>)
        ensures
            r@.map_values(|f: CrudField| f@) == Self::fields_spec(),
    ;

    /// Writes this record out as a named field map.
    fn as_crud_fields(&self) -> (r: FieldMap)
        ensures
            r@ == Self::fields_of(self.model()),
    ;

    /// Reads a record back from a named field map; fails when a declared
    /// field is absent or fails its per-type conversion.
    fn try_from_crud_fields(fields: &FieldMap) -> (r: Result<Self, Error>)
        ensures
            match r {
                Ok(v) => Self::from_fields_spec(fields@) == Some(v.model()),
                Err(_) => Self::from_fields_spec(fields@) is None,
            },
    ;

    /// The name of the field this record is keyed by: the field marked as
    /// primary, or the first declared field if none is marked. Empty for a
    /// record that declares no fields.
    fn primary_key_name() -> (r: String)
        ensures
            Self::fields_spec().len() > 0 ==> r@ == spec_primary_key_name(Self::fields_spec()),
            Self::fields_spec().len() == 0 ==> r@ == Seq::<char>::empty(),
    {
        let fields = Self::crud_fields();
        proof {
            assert(fields@.map_values(|f: CrudField| f@).len() == fields@.len());
        }
        if fields.len() == 0 {
            return String::new();
        }
        let i = primary_key_index(&fields);
        proof {
            assert(fields@.map_values(|f: CrudField| f@)[i as int] == fields@[i as int]@);
        }
        fields[i].name.clone()
    }

    /// The stored value of the field this record is keyed by, or null when
    /// the record's field map has no entry for it.
    fn primary_key_val(&self) -> (r: Value)
        ensures
            ({
                let pk = spec_primary_key_name(Self::fields_spec());
                &&& Self::fields_spec().len() > 0 && Self::fields_of(self.model()).contains_key(
                    pk,
                ) ==> r@ == Self::fields_of(self.model())[pk]
                &&& Self::fields_spec().len() == 0 || !Self::fields_of(
                    self.model(),
                ).contains_key(pk) ==> r@ == ValueModel::Null
            }),
    {
        let fields = Self::crud_fields();
        proof {
            assert(fields@.map_values(|f: CrudField| f@).len() == fields@.len());
        }
        if fields.len() == 0 {
            return Value::Null;
        }
        let i = primary_key_index(&fields);
        proof {
            assert(fields@.map_values(|f: CrudField| f@)[i as int] == fields@[i as int]@);
        }
        let map = self.as_crud_fields();
        match map.get(fields[i].name.as_str()) {
            Some(v) => v.clone(),
            None => Value::Null,
        }
    }
}

/// The laws a verified record implementation proves: a record declares at
/// least one field, writes exactly its declared field names, and reads its
/// own field map back as itself.
pub trait LawfulRecord: HasCrudFields {
    /// A record declares at least one field.
    proof fn lemma_fields_nonempty()
        ensures
            Self::fields_spec().len() > 0,
    ;

    /// A record's field map holds exactly the declared field names.
    proof fn lemma_fields_dom(m: Self::Model)
        ensures
            forall|k: Seq<char>| Self::fields_of(m).contains_key(k) <==> spec_field_names(
                Self::fields_spec(),
            ).contains(k),
    ;

    /// Reading a record's own field map gives the record back.
    proof fn lemma_fields_roundtrip(m: Self::Model)
        ensures
            Self::from_fields_spec(Self::fields_of(m)) == Some(m),
    ;
}

/// For every lawful record version, reading the field map the record wrote
/// gives the record back.
pub proof fn lemma_record_roundtrip<T: LawfulRecord>(m: T::Model)
    ensures
        T::from_fields_spec(T::fields_of(m)) == Some(m),
{
    T::lemma_fields_roundtrip(m);
}

/// A record with no field marked as primary is keyed by its first declared
/// field.
pub proof fn lemma_primary_key_default(fields: Seq<CrudFieldModel>)
    requires
        fields.len() > 0,
        !spec_has_primary_key(fields),
    ensures
        spec_primary_key_name(fields) == fields[0].name,
{
}

} // verus!
