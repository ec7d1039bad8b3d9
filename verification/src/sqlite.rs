//! The SQLite dialect: verified construction of every statement the CRUD
//! operations and the migration engine send to a SQLite backend, together
//! with the bind plans that accompany them.
//!
//! Executing the statements is an edge concern and stays outside the
//! library; callers prepare the returned statement text, bind the returned
//! pairs, and step the query.

use vstd::prelude::*;

use crate::error::{string_from, Error};
use crate::field::{spec_primary_key_index, CrudField, CrudFieldModel};
use crate::fieldmap::FieldMap;
use crate::value::{Value, ValueModel, ValueType};

verus! {

/// The SQLite column type keyword for a value kind.
pub open spec fn spec_sql_type(ty: ValueType) -> Seq<char> {
    match ty {
        ValueType::Integer => "INTEGER"@,
        ValueType::Float => "FLOAT"@,
        ValueType::Text => "TEXT"@,
        ValueType::Bytes => "BLOB"@,
    }
}

/// The column clause a descriptor contributes to a CREATE TABLE statement:
/// name, type keyword, and the key, auto-increment and null marks, each
/// slot separated by one space and empty when the mark is off.
pub open spec fn spec_create_field(f: CrudFieldModel) -> Seq<char> {
    f.name + " "@ + spec_sql_type(f.ty) + " "@ + (if f.primary_key {
        "PRIMARY KEY"@
    } else {
        Seq::<char>::empty()
    }) + " "@ + (if f.auto_increment {
        "AUTOINCREMENT"@
    } else {
        Seq::<char>::empty()
    }) + " "@ + (if f.nullable {
        Seq::<char>::empty()
    } else {
        "NOT NULL"@
    })
}

/// The given parts joined with a comma and a space between neighbours.
pub open spec fn spec_join_comma(parts: Seq<Seq<char>>) -> Seq<char>
    decreases parts.len(),
{
    if parts.len() == 0 {
        Seq::empty()
    } else if parts.len() == 1 {
        parts[0]
    } else {
        spec_join_comma(parts.drop_last()) + ", "@ + parts.last()
    }
}

/// The statement that creates the table for the given descriptors if it is
/// absent; idempotent by construction.
pub open spec fn spec_create_table_statement(
    table: Seq<char>,
    fields: Seq<CrudFieldModel>,
) -> Seq<char> {
    "CREATE TABLE IF NOT EXISTS "@ + table + " ("@ + spec_join_comma(
        fields.map_values(|f: CrudFieldModel| spec_create_field(f)),
    ) + ");"@
}

/// The statement that reads every row of a table.
pub open spec fn spec_select_all_statement(table: Seq<char>) -> Seq<char> {
    "SELECT * FROM "@ + table + ";"@
}

/// The statement that reads the rows whose `key_name` column stands in the
/// given comparison to the `:key_value` parameter.
pub open spec fn spec_select_where_statement(
    table: Seq<char>,
    key_name: Seq<char>,
    comparison: Seq<char>,
) -> Seq<char> {
    "SELECT * FROM "@ + table + " WHERE "@ + key_name + " "@ + comparison + " :key_value"@
}

/// The statement that inserts one row with the given columns, each bound
/// through a parameter named after its column.
pub open spec fn spec_insert_statement(table: Seq<char>, columns: Seq<Seq<char>>) -> Seq<char> {
    "INSERT INTO "@ + table + " ("@ + spec_join_comma(columns) + ") VALUES ("@ + spec_join_comma(
        columns.map_values(|c: Seq<char>| ":"@ + c),
    ) + ");"@
}

/// The `name = :name` items of an UPDATE's SET clause: one per declared
/// field, in declaration order, skipping the field at the key position.
pub open spec fn spec_set_items(fields: Seq<CrudFieldModel>, key: int) -> Seq<Seq<char>>
    decreases fields.len(),
{
    if fields.len() == 0 {
        Seq::empty()
    } else {
        spec_set_items(fields.drop_last(), key) + (if fields.len() - 1 == key {
            Seq::<Seq<char>>::empty()
        } else {
            seq![fields.last().name + " = :"@ + fields.last().name]
        })
    }
}

/// The statement that rewrites every non-key column of the row whose key
/// field equals the `:key_value` parameter; the key field is the one marked
/// primary, or the first declared field if none is marked.
pub open spec fn spec_update_statement(
    table: Seq<char>,
    fields: Seq<CrudFieldModel>,
) -> Seq<char> {
    "UPDATE "@ + table + " SET "@ + spec_join_comma(
        spec_set_items(fields, spec_primary_key_index(fields)),
    ) + " WHERE "@ + fields[spec_primary_key_index(fields)].name + " = :key_value"@
}

/// The statement that removes the rows whose `key_name` column equals the
/// `:key_value` parameter.
pub open spec fn spec_delete_statement(table: Seq<char>, key_name: Seq<char>) -> Seq<char> {
    "DELETE FROM "@ + table + " WHERE "@ + key_name + " = :key_value RETURNING *"@
}

/// The statement that unconditionally empties a table.
pub open spec fn spec_delete_all_statement(table: Seq<char>) -> Seq<char> {
    "DELETE FROM "@ + table + ";"@
}

impl CrudField {
    /// The column clause this descriptor contributes to a CREATE TABLE
    /// statement.
    pub fn sqlite_create_field(&self) -> (r: String)
        ensures
            r@ == spec_create_field(self@),
    {
        let mut out = self.name.clone();
        out.append(" ");
        match self.ty {
            ValueType::Integer => out.append("INTEGER"),
            ValueType::Float => out.append("FLOAT"),
            ValueType::Text => out.append("TEXT"),
            ValueType::Bytes => out.append("BLOB"),
        }
        out.append(" ");
        if self.primary_key {
            out.append("PRIMARY KEY");
        }
        out.append(" ");
        if self.auto_increment {
            out.append("AUTOINCREMENT");
        }
        out.append(" ");
        if !self.nullable {
            out.append("NOT NULL");
        }
        proof {
            assert(out@ =~= spec_create_field(self@));
        }
        out
    }
}

/// Joins the given parts with a comma and a space between neighbours.
fn join_comma(parts: &Vec<String>) -> (r: String)
    ensures
        r@ == spec_join_comma(parts@.map_values(|s: String| s@)),
{
    let ghost ms = parts@.map_values(|s: String| s@);
    let mut out = String::new();
    let mut i: usize = 0;
    while i < parts.len()
        invariant
            i <= parts@.len(),
            ms == parts@.map_values(|s: String| s@),
            out@ == spec_join_comma(ms.take(i as int)),
        decreases parts@.len() - i,
    {
        if i > 0 {
            out.append(", ");
        }
        out.append(parts[i].as_str());
        i += 1;
        proof {
            let t = ms.take(i as int);
            assert(t.drop_last() =~= ms.take(i - 1));
            assert(t.last() == ms[i - 1]);
            if i == 1 {
                assert(out@ =~= t[0]);
            } else {
                assert(out@ =~= spec_join_comma(t.drop_last()) + ", "@ + t.last());
            }
        }
    }
    proof {
        assert(ms.take(parts@.len() as int) =~= ms);
    }
    out
}

/// Builds the `name = :name` items of an UPDATE's SET clause, one per
/// declared field other than the key field, in declaration order.
fn set_items(fields: &Vec<CrudField>, key: usize) -> (r: Vec<String>)
    ensures
        r@.map_values(|s: String| s@) == spec_set_items(
            fields@.map_values(|f: CrudField| f@),
            key as int,
        ),
{
    let ghost fmodels = fields@.map_values(|f: CrudField| f@);
    let mut items: Vec<String> = Vec::new();
    let mut i: usize = 0;
    while i < fields.len()
        invariant
            i <= fields@.len(),
            fmodels == fields@.map_values(|f: CrudField| f@),
            items@.map_values(|s: String| s@) == spec_set_items(
                fmodels.take(i as int),
                key as int,
            ),
        decreases fields@.len() - i,
    {
        if i != key {
            let mut item = fields[i].name.clone();
            item.append(" = :");
            item.append(fields[i].name.as_str());
            items.push(item);
        }
        i += 1;
        proof {
            let t = fmodels.take(i as int);
            assert(t.drop_last() =~= fmodels.take(i - 1));
            assert(t.last() == fmodels[i - 1]);
            assert(fmodels[i - 1] == fields@[i - 1]@);
            assert(items@.map_values(|s: String| s@) =~= spec_set_items(t, key as int));
        }
    }
    proof {
        assert(fmodels.take(fields@.len() as int) =~= fmodels);
    }
    items
}

/// Whether `cols` lists exactly the keys of `m` other than `pk`, each once.
pub open spec fn spec_lists_non_key_names(
    cols: Seq<Seq<char>>,
    m: Map<Seq<char>, ValueModel>,
    pk: Seq<char>,
) -> bool {
    &&& forall|i: int| 0 <= i < cols.len() ==> m.contains_key(#[trigger] cols[i]) && cols[i] != pk
    &&& forall|k: Seq<char>| m.contains_key(k) && k != pk ==> exists|i: int|
        0 <= i < cols.len() && cols[i] == k
    &&& forall|i: int, j: int| 0 <= i < j < cols.len() ==> cols[i] != cols[j]
}

/// Collects the entries of the field map other than the key field: their
/// names, and one `(":name", value)` pair per name, aligned.
fn non_key_entries(map: &FieldMap, pk_name: &String) -> (r: (Vec<String>, Vec<(String, Value)>))
    ensures
        spec_lists_non_key_names(r.0@.map_values(|s: String| s@), map@, pk_name@),
        r.1@.len() == r.0@.len(),
        forall|i: int| 0 <= i < r.0@.len() ==> (#[trigger] r.1@[i]).0@ == ":"@ + r.0@[i]@
            && r.1@[i].1@ == map@[r.0@[i]@],
{
    let mut cols: Vec<String> = Vec::new();
    let mut binds: Vec<(String, Value)> = Vec::new();
    let names = map.names();
    let mut j: usize = 0;
    while j < names.len()
        invariant
            j <= names@.len(),
            forall|a: int| 0 <= a < names@.len() ==> map@.contains_key(#[trigger] names@[a]@),
            forall|k: Seq<char>| map@.contains_key(k) ==> exists|a: int|
                0 <= a < names@.len() && names@[a]@ == k,
            forall|a: int, b: int| 0 <= a < b < names@.len() ==> names@[a]@ != names@[b]@,
            binds@.len() == cols@.len(),
            forall|i: int| 0 <= i < cols@.len() ==> map@.contains_key(#[trigger] cols@[i]@)
                && cols@[i]@ != pk_name@,
            forall|i: int, b: int| 0 <= i < b < cols@.len() ==> cols@[i]@ != cols@[b]@,
            forall|i: int| 0 <= i < cols@.len() ==> (#[trigger] binds@[i]).0@ == ":"@ + cols@[i]@
                && binds@[i].1@ == map@[cols@[i]@],
            forall|a: int| 0 <= a < j ==> (names@[a]@ == pk_name@ || exists|i: int|
                0 <= i < cols@.len() && cols@[i]@ == names@[a]@),
            forall|i: int| 0 <= i < cols@.len() ==> exists|a: int|
                0 <= a < j && names@[a]@ == #[trigger] cols@[i]@,
        decreases names@.len() - j,
    {
        let ghost prev_cols = cols@;
        if !(names[j] == *pk_name) {
            let mut param = string_from(":");
            param.append(names[j].as_str());
            match map.get(names[j].as_str()) {
                Some(v) => {
                    cols.push(names[j].clone());
                    binds.push((param, v.clone()));
                },
                None => {
                    proof {
                        assert(false);
                    }
                },
            }
        }
        proof {
            assert forall|a: int| 0 <= a <= j implies (names@[a]@ == pk_name@ || exists|i: int|
                0 <= i < cols@.len() && cols@[i]@ == names@[a]@) by {
                if a < j && names@[a]@ != pk_name@ {
                    let i = choose|i: int|
                        0 <= i < prev_cols.len() && (#[trigger] prev_cols[i])@ == names@[a]@;
                    assert(cols@[i]@ == names@[a]@);
                }
                if a == j && names@[a]@ != pk_name@ {
                    assert(cols@[cols@.len() - 1]@ == names@[a]@);
                }
            }
        }
        j += 1;
    }
    proof {
        let ghost ms = cols@.map_values(|s: String| s@);
        assert(forall|i: int| 0 <= i < cols@.len() ==> ms[i] == #[trigger] cols@[i]@);
        assert forall|k: Seq<char>| map@.contains_key(k) && k != pk_name@ implies exists|i: int|
            0 <= i < ms.len() && #[trigger] ms[i] == k by {
            let a = choose|a: int| 0 <= a < names@.len() && names@[a]@ == k;
            assert(names@[a]@ != pk_name@);
            let i = choose|i: int| 0 <= i < cols@.len() && cols@[i]@ == names@[a]@;
            assert(ms[i] == k);
        }
    }
    (cols, binds)
}

/// What [`Sqlite::insert_plan`] promises: the columns list exactly the field
/// map's names, the binds carry the map's value for each column under a
/// parameter named after it, and the statement is the INSERT for those
/// columns.
pub open spec fn spec_insert_plan_ok(
    plan: InsertPlan,
    table: Seq<char>,
    m: Map<Seq<char>, ValueModel>,
) -> bool {
    let cols = plan.columns@.map_values(|s: String| s@);
    &&& forall|i: int| 0 <= i < cols.len() ==> m.contains_key(#[trigger] cols[i])
    &&& forall|k: Seq<char>| m.contains_key(k) ==> exists|i: int| 0 <= i < cols.len() && cols[i]
        == k
    &&& forall|i: int, j: int| 0 <= i < j < cols.len() ==> cols[i] != cols[j]
    &&& plan.binds@.len() == cols.len()
    &&& forall|i: int| 0 <= i < cols.len() ==> (#[trigger] plan.binds@[i]).0@ == ":"@ + cols[i]
        && plan.binds@[i].1@ == m[cols[i]]
    &&& plan.statement@ == spec_insert_statement(table, cols)
}

/// A ready INSERT: the statement text, the column order it was built with,
/// and the parameter/value pairs to bind before stepping it.
#[derive(Debug)]
pub struct InsertPlan {
    /// The INSERT statement.
    pub statement: String,
    /// The columns in the order the statement names them.
    pub columns: Vec<String>,
    /// One `(":column", value)` pair per column, in the same order.
    pub binds: Vec<(String, Value)>,
}

/// What a successful [`Sqlite::update_plan`] promises: the statement is the
/// UPDATE for the declared fields, the key value is the field map's entry
/// for the primary key, and the binds carry exactly the map's non-key
/// entries, each under a parameter named after its column.
pub open spec fn spec_update_plan_ok(
    plan: UpdatePlan,
    table: Seq<char>,
    fields: Seq<CrudFieldModel>,
    m: Map<Seq<char>, ValueModel>,
) -> bool {
    let pk = fields[spec_primary_key_index(fields)].name;
    let cols = plan.columns@.map_values(|s: String| s@);
    &&& plan.statement@ == spec_update_statement(table, fields)
    &&& plan.key_value@ == m[pk]
    &&& spec_lists_non_key_names(cols, m, pk)
    &&& plan.binds@.len() == cols.len()
    &&& forall|i: int| 0 <= i < cols.len() ==> (#[trigger] plan.binds@[i]).0@ == ":"@ + cols[i]
        && plan.binds@[i].1@ == m[cols[i]]
}

/// A ready UPDATE: the statement text, the non-key columns of the row's
/// field map, the parameter/value pairs for them, and the key value for the
/// `:key_value` parameter.
#[derive(Debug)]
pub struct UpdatePlan {
    /// The UPDATE statement.
    pub statement: String,
    /// The field map's non-key columns, in the order the binds list them.
    pub columns: Vec<String>,
    /// One `(":column", value)` pair per non-key entry of the field map.
    pub binds: Vec<(String, Value)>,
    /// The value to bind to `:key_value`.
    pub key_value: Value,
}

/// A ready DELETE: the statement text and the key value for its
/// `:key_value` parameter.
#[derive(Debug)]
pub struct DeletePlan {
    /// The DELETE statement.
    pub statement: String,
    /// The value to bind to `:key_value`.
    pub key_value: Value,
}

/// A marker for the SQLite backend dialect; the statement builders hang off
/// it.
#[derive(Debug)]
pub struct Sqlite;

impl Sqlite {
    /// The statement that creates the table for the given descriptors if it
    /// is absent.
    pub fn create_table_statement(table: &String, fields: &Vec<CrudField>) -> (r: String)
        ensures
            r@ == spec_create_table_statement(table@, fields@.map_values(|f: CrudField| f@)),
    {
        let ghost fmodels = fields@.map_values(|f: CrudField| f@);
        let mut items: Vec<String> = Vec::new();
        let mut i: usize = 0;
        while i < fields.len()
            invariant
                i <= fields@.len(),
                fmodels == fields@.map_values(|f: CrudField| f@),
                items@.len() == i,
                forall|j: int| 0 <= j < i ==> items@[j]@ == spec_create_field(fmodels[j]),
            decreases fields@.len() - i,
        {
            items.push(fields[i].sqlite_create_field());
            i += 1;
        }
        let joined = join_comma(&items);
        proof {
            assert(items@.map_values(|s: String| s@) =~= fmodels.map_values(
                |f: CrudFieldModel| spec_create_field(f),
            ));
        }
        let mut out = string_from("CREATE TABLE IF NOT EXISTS ");
        out.append(table.as_str());
        out.append(" (");
        out.append(joined.as_str());
        out.append(");");
        proof {
            assert(out@ =~= spec_create_table_statement(table@, fmodels));
        }
        out
    }

    /// The statement that reads every row of a table.
    pub fn select_all_statement(table: &String) -> (r: String)
        ensures
            r@ == spec_select_all_statement(table@),
    {
        let mut out = string_from("SELECT * FROM ");
        out.append(table.as_str());
        out.append(";");
        proof {
            assert(out@ =~= spec_select_all_statement(table@));
        }
        out
    }

    /// The statement that reads the rows whose `key_name` column stands in
    /// the given comparison to the `:key_value` parameter.
    pub fn select_where_statement(table: &String, key_name: &String, comparison: &String) -> (r:
        String)
        ensures
            r@ == spec_select_where_statement(table@, key_name@, comparison@),
    {
        let mut out = string_from("SELECT * FROM ");
        out.append(table.as_str());
        out.append(" WHERE ");
        out.append(key_name.as_str());
        out.append(" ");
        out.append(comparison.as_str());
        out.append(" :key_value");
        proof {
            assert(out@ =~= spec_select_where_statement(table@, key_name@, comparison@));
        }
        out
    }

    /// The statement that unconditionally empties a table.
    pub fn delete_all_statement(table: &String) -> (r: String)
        ensures
            r@ == spec_delete_all_statement(table@),
    {
        let mut out = string_from("DELETE FROM ");
        out.append(table.as_str());
        out.append(";");
        proof {
            assert(out@ =~= spec_delete_all_statement(table@));
        }
        out
    }

    /// Builds the INSERT for one row: the columns are the field map's names,
    /// each value bound through a parameter named after its column.
    pub fn insert_plan(table: &String, fields: &FieldMap) -> (r: InsertPlan)
        ensures
            spec_insert_plan_ok(r, table@, fields@),
    {
        let columns = fields.names();
        let ghost cols = columns@.map_values(|s: String| s@);
        let mut prefixed: Vec<String> = Vec::new();
        let mut binds: Vec<(String, Value)> = Vec::new();
        let mut i: usize = 0;
        while i < columns.len()
            invariant
                i <= columns@.len(),
                cols == columns@.map_values(|s: String| s@),
                forall|j: int| 0 <= j < cols.len() ==> fields@.contains_key(#[trigger] cols[j]),
                prefixed@.len() == i,
                binds@.len() == i,
                forall|j: int| 0 <= j < i ==> prefixed@[j]@ == ":"@ + cols[j],
                forall|j: int| 0 <= j < i ==> (#[trigger] binds@[j]).0@ == ":"@ + cols[j]
                    && binds@[j].1@ == fields@[cols[j]],
            decreases columns@.len() - i,
        {
            proof {
                assert(cols[i as int] == columns@[i as int]@);
            }
            let mut param = string_from(":");
            param.append(columns[i].as_str());
            match fields.get(columns[i].as_str()) {
                Some(v) => {
                    binds.push((param.clone(), v.clone()));
                },
                None => {
                    proof {
                        assert(false);
                    }
                },
            }
            prefixed.push(param);
            i += 1;
        }
        let column_list = join_comma(&columns);
        let param_list = join_comma(&prefixed);
        let mut out = string_from("INSERT INTO ");
        out.append(table.as_str());
        out.append(" (");
        out.append(column_list.as_str());
        out.append(") VALUES (");
        out.append(param_list.as_str());
        out.append(");");
        proof {
            assert(prefixed@.map_values(|s: String| s@) =~= cols.map_values(
                |c: Seq<char>| ":"@ + c,
            ));
            assert(out@ =~= spec_insert_statement(table@, cols));
            assert(forall|j: int| 0 <= j < cols.len() ==> #[trigger] cols[j] == columns@[j]@);
            assert forall|k: Seq<char>| fields@.contains_key(k) implies exists|j: int|
                0 <= j < cols.len() && #[trigger] cols[j] == k by {
                let j = choose|j: int| 0 <= j < columns@.len() && columns@[j]@ == k;
                assert(cols[j] == k);
            }
        }
        let plan = InsertPlan { statement: out, columns, binds };
        proof {
            assert(plan.columns@.map_values(|s: String| s@) == cols);
            assert(spec_insert_plan_ok(plan, table@, fields@));
        }
        plan
    }

    /// Builds the UPDATE that rewrites every non-key column of the row the
    /// field map describes, matched by its key field: the field marked
    /// primary, or the first declared field if none is marked. Fails when
    /// the record declares no fields, and when the field map has no value
    /// for the key field.
    #[verifier::rlimit(50)]
    pub fn update_plan(table: &String, fields: &Vec<CrudField>, map: &FieldMap) -> (r: Result<
        UpdatePlan,
        Error,
    >)
        ensures
            ({
                let fmodels = fields@.map_values(|f: CrudField| f@);
                let pk = fmodels[spec_primary_key_index(fmodels)].name;
                &&& fmodels.len() == 0 ==> (r matches Err(e) && e is MissingPrimaryKey)
                &&& fmodels.len() > 0 && !map@.contains_key(pk) ==> (r matches Err(e)
                    && e is MissingField)
                &&& fmodels.len() > 0 && map@.contains_key(pk) ==> (r matches Ok(plan)
                    && spec_update_plan_ok(plan, table@, fmodels, map@))
            }),
    {
        let ghost fmodels = fields@.map_values(|f: CrudField| f@);
        if fields.len() == 0 {
            return Err(Error::MissingPrimaryKey);
        }
        let pki = crate::field::primary_key_index(fields);
        proof {
            assert(fmodels[pki as int] == fields@[pki as int]@);
        }
        let pk_name = fields[pki].name.clone();

        let key_value = match map.get(pk_name.as_str()) {
            Some(v) => v.clone(),
            None => {
                return Err(Error::MissingField(pk_name));
            },
        };

        let items = set_items(fields, pki);
        let set_clause = join_comma(&items);
        let (columns, binds) = non_key_entries(map, &pk_name);

        let mut out = string_from("UPDATE ");
        out.append(table.as_str());
        out.append(" SET ");
        out.append(set_clause.as_str());
        out.append(" WHERE ");
        out.append(pk_name.as_str());
        out.append(" = :key_value");
        proof {
            assert(out@ =~= spec_update_statement(table@, fmodels));
        }
        Ok(UpdatePlan { statement: out, columns, binds, key_value })
    }

    /// Builds the DELETE that removes the row the field map describes,
    /// matched by its key field: the field marked primary, or the first
    /// declared field if none is marked. Fails when the record declares no
    /// fields, and when the field map has no value for the key field.
    pub fn delete_plan(table: &String, fields: &Vec<CrudField>, map: &FieldMap) -> (r: Result<
        DeletePlan,
        Error,
    >)
        ensures
            ({
                let fmodels = fields@.map_values(|f: CrudField| f@);
                let pk = fmodels[spec_primary_key_index(fmodels)].name;
                &&& fmodels.len() == 0 ==> (r matches Err(e) && e is MissingPrimaryKey)
                &&& fmodels.len() > 0 && !map@.contains_key(pk) ==> (r matches Err(e)
                    && e is MissingField)
                &&& fmodels.len() > 0 && map@.contains_key(pk) ==> (r matches Ok(plan)
                    && plan.statement@ == spec_delete_statement(table@, pk) && plan.key_value@
                    == map@[pk])
            }),
    {
        let ghost fmodels = fields@.map_values(|f: CrudField| f@);
        if fields.len() == 0 {
            return Err(Error::MissingPrimaryKey);
        }
        let pki = crate::field::primary_key_index(fields);
        proof {
            assert(fmodels[pki as int] == fields@[pki as int]@);
        }
        let pk_name = fields[pki].name.clone();
        let key_value = match map.get(pk_name.as_str()) {
            Some(v) => v.clone(),
            None => {
                return Err(Error::MissingField(pk_name));
            },
        };
        let mut out = string_from("DELETE FROM ");
        out.append(table.as_str());
        out.append(" WHERE ");
        out.append(pk_name.as_str());
        out.append(" = :key_value RETURNING *");
        proof {
            assert(out@ =~= spec_delete_statement(table@, pk_name@));
        }
        Ok(DeletePlan { statement: out, key_value })
    }
}

} // verus!
