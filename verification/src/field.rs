//! Field descriptors: the static shape of one record field.

use vstd::prelude::*;

use crate::value::ValueType;

verus! {

/// Static metadata for one record field: its name, the kind of scalar it
/// stores, and the flags a backend needs to lay out a column for it.
///
/// A descriptor is constructed once per record type and is immutable; callers
/// may only rely on value equality, not identity.
#[derive(Debug)]
pub struct CrudField {
    /// The field identifier, stable for the record type's lifetime.
    pub name: String,
    /// The kind of scalar the field stores.
    pub ty: ValueType,
    /// Whether the column may hold null.
    pub nullable: bool,
    /// Whether this field is the record's primary key; at most one field per
    /// record should carry this.
    pub primary_key: bool,
    /// A backend hint for relational engines: the key column counts up on its
    /// own.
    pub auto_increment: bool,
}

/// The mathematical shape of a [`CrudField`], written `f@`: the name is taken
/// as its character sequence.
pub struct CrudFieldModel {
    pub name: Seq<char>,
    pub ty: ValueType,
    pub nullable: bool,
    pub primary_key: bool,
    pub auto_increment: bool,
}

impl View for CrudField {
    type V = CrudFieldModel;

    open spec fn view(&self) -> CrudFieldModel {
        CrudFieldModel {
            name: self.name@,
            ty: self.ty,
            nullable: self.nullable,
            primary_key: self.primary_key,
            auto_increment: self.auto_increment,
        }
    }
}

impl CrudField {
    /// A fresh descriptor for a non-nullable, non-key field of the given
    /// kind, still unnamed.
    pub fn unnamed(ty: ValueType) -> (r: CrudField)
        ensures
            r@ == (CrudFieldModel {
                name: Seq::<char>::empty(),
                ty,
                nullable: false,
                primary_key: false,
                auto_increment: false,
            }),
    {
        CrudField {
            name: String::new(),
            ty,
            nullable: false,
            primary_key: false,
            auto_increment: false,
        }
    }
}

impl Clone for CrudField {
    fn clone(&self) -> (r: Self)
        ensures
            r@ == self@,
    {
        CrudField {
            name: self.name.clone(),
            ty: self.ty,
            nullable: self.nullable,
            primary_key: self.primary_key,
            auto_increment: self.auto_increment,
        }
    }
}

impl Default for CrudField {
    /// An unnamed, non-nullable integer field with no flags set, for builders
    /// that fill in the details afterwards.
    fn default() -> (r: Self)
        ensures
            r@ == (CrudFieldModel {
                name: Seq::<char>::empty(),
                ty: ValueType::Integer,
                nullable: false,
                primary_key: false,
                auto_increment: false,
            }),
    {
        CrudField::unnamed(ValueType::Integer)
    }
}

/// The names of the given descriptors, in declaration order.
pub open spec fn spec_field_names(fields: Seq<CrudFieldModel>) -> Seq<Seq<char>> {
    fields.map_values(|f: CrudFieldModel| f.name)
}

/// The index of the field that acts as the record's key: the first field
/// marked as primary, or the first declared field if none is marked. Only
/// meaningful when `fields` is non-empty.
pub open spec fn spec_primary_key_index(fields: Seq<CrudFieldModel>) -> int {
    if exists|i: int| 0 <= i < fields.len() && fields[i].primary_key {
        choose|i: int|
            0 <= i < fields.len() && fields[i].primary_key && forall|j: int|
                0 <= j < i ==> !fields[j].primary_key
    } else {
        0
    }
}

/// The name of the record's key field, per [`spec_primary_key_index`].
pub open spec fn spec_primary_key_name(fields: Seq<CrudFieldModel>) -> Seq<char> {
    fields[spec_primary_key_index(fields)].name
}

/// Whether some field among `fields` carries the primary-key mark.
pub open spec fn spec_has_primary_key(fields: Seq<CrudFieldModel>) -> bool {
    exists|i: int| 0 <= i < fields.len() && fields[i].primary_key
}

/// Finds the index of the record's key field: the first field marked as
/// primary, or the first declared field if none is marked.
pub fn primary_key_index(fields: &Vec<CrudField>) -> (r: usize)
    requires
        fields@.len() > 0,
    ensures
        r < fields@.len(),
        r as int == spec_primary_key_index(fields@.map_values(|f: CrudField| f@)),
        fields@[r as int].primary_key == spec_has_primary_key(
            fields@.map_values(|f: CrudField| f@),
        ),
{
    let ghost models = fields@.map_values(|f: CrudField| f@);
    let mut i: usize = 0;
    while i < fields.len()
        invariant
            i <= fields@.len(),
            models == fields@.map_values(|f: CrudField| f@),
            forall|j: int| 0 <= j < i ==> !models[j].primary_key,
        decreases fields@.len() - i,
    {
        if fields[i].primary_key {
            proof {
                assert(models[i as int].primary_key);
                let w = spec_primary_key_index(models);
                assert(0 <= w < models.len() && models[w].primary_key && forall|j: int|
                    0 <= j < w ==> !models[j].primary_key) by {
                    assert(models[i as int].primary_key && forall|j: int|
                        0 <= j < i ==> !models[j].primary_key);
                }
                assert(w == i) by {
                    if w < i {
                        assert(!models[w].primary_key);
                    }
                    if i < w {
                        assert(!models[i as int].primary_key);
                    }
                }
            }
            return i;
        }
        i += 1;
    }
    proof {
        assert(!spec_has_primary_key(models));
        assert(models[0] == fields@[0]@);
    }
    0
}

} // verus!
