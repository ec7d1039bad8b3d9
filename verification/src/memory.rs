//! A verified in-memory storage backend: tables held as vectors of field
//! maps. It is the reference implementation of the bulk table contract and
//! what the tests run the migration chain against.

use vstd::prelude::*;

use crate::error::{string_from, Error};
use crate::fieldmap::FieldMap;
use crate::migrations::{spec_restrict_row, MigrateEntireTable, RowModel, StoreModel};
use crate::value::Value;

verus! {

/// A storage backend backed by memory alone: each table is a vector of
/// rows, each row a field map. Its model, written `b.store()`, is the map
/// from table names to row sequences.
#[derive(Debug)]
pub struct MemoryBackend {
    tables: Vec<(String, Vec<FieldMap>)>,
}

/// The store described by a sequence of name/rows pairs; a later pair with
/// the same name wins.
pub open spec fn store_of(s: Seq<(String, Vec<FieldMap>)>) -> StoreModel
    decreases s.len(),
{
    if s.len() == 0 {
        Map::empty()
    } else {
        store_of(s.drop_last()).insert(
            s.last().0@,
            s.last().1@.map_values(|m: FieldMap| m@),
        )
    }
}

/// Whether the table names in a sequence of pairs are pairwise distinct.
pub open spec fn unique_table_names(s: Seq<(String, Vec<FieldMap>)>) -> bool {
    forall|i: int, j: int| 0 <= i < j < s.len() ==> s[i].0@ != s[j].0@
}

proof fn lemma_store_of_contains(s: Seq<(String, Vec<FieldMap>)>, k: Seq<char>)
    ensures
        store_of(s).contains_key(k) <==> exists|i: int| 0 <= i < s.len() && s[i].0@ == k,
    decreases s.len(),
{
    if s.len() == 0 {
    } else {
        let t = s.drop_last();
        lemma_store_of_contains(t, k);
        if s.last().0@ == k {
            assert(s[s.len() - 1].0@ == k);
        } else {
            if store_of(s).contains_key(k) {
                let i = choose|i: int| 0 <= i < t.len() && t[i].0@ == k;
                assert(s[i].0@ == k);
            }
            if exists|i: int| 0 <= i < s.len() && s[i].0@ == k {
                let i = choose|i: int| 0 <= i < s.len() && s[i].0@ == k;
                assert(i < s.len() - 1);
                assert(t[i].0@ == k);
            }
        }
    }
}

proof fn lemma_store_of_get(s: Seq<(String, Vec<FieldMap>)>, i: int)
    requires
        unique_table_names(s),
        0 <= i < s.len(),
    ensures
        store_of(s).contains_key(s[i].0@),
        store_of(s)[s[i].0@] == s[i].1@.map_values(|m: FieldMap| m@),
    decreases s.len(),
{
    if i == s.len() - 1 {
    } else {
        let t = s.drop_last();
        assert(t[i] == s[i]);
        lemma_store_of_get(t, i);
        assert(s.last().0@ != s[i].0@);
    }
}

proof fn lemma_store_of_update(s: Seq<(String, Vec<FieldMap>)>, i: int, p: (String, Vec<FieldMap>))
    requires
        unique_table_names(s),
        0 <= i < s.len(),
        p.0@ == s[i].0@,
    ensures
        store_of(s.update(i, p)) == store_of(s).insert(
            p.0@,
            p.1@.map_values(|m: FieldMap| m@),
        ),
    decreases s.len(),
{
    let k = p.0@;
    let u = s.update(i, p);
    if i == s.len() - 1 {
        assert(u.drop_last() =~= s.drop_last());
        assert(u.last() == p);
        assert(store_of(u) =~= store_of(s).insert(k, p.1@.map_values(|m: FieldMap| m@)));
    } else {
        let t = s.drop_last();
        assert(t[i] == s[i]);
        lemma_store_of_update(t, i, p);
        assert(u.drop_last() =~= t.update(i, p));
        assert(u.last() == s.last());
        assert(s.last().0@ != k);
        assert(store_of(u) =~= store_of(s).insert(k, p.1@.map_values(|m: FieldMap| m@)));
    }
}

impl MemoryBackend {
    #[verifier::type_invariant]
    spec fn wf(&self) -> bool {
        unique_table_names(self.tables@)
    }

    pub closed spec fn spec_store(&self) -> StoreModel {
        store_of(self.tables@)
    }

    /// A backend holding no tables.
    pub fn new() -> (r: MemoryBackend)
        ensures
            r.store() == Map::<Seq<char>, Seq<RowModel>>::empty(),
    {
        MemoryBackend { tables: Vec::new() }
    }

    /// Looks up the position of a table among the pairs.
    fn position_of(&self, name: &String) -> (r: Option<usize>)
        ensures
            match r {
                Some(i) => i < self.tables@.len() && self.tables@[i as int].0@ == name@,
                None => forall|i: int| 0 <= i < self.tables@.len()
                    ==> self.tables@[i].0@ != name@,
            },
    {
        let mut i: usize = 0;
        while i < self.tables.len()
            invariant
                i <= self.tables@.len(),
                forall|j: int| 0 <= j < i ==> self.tables@[j].0@ != name@,
            decreases self.tables@.len() - i,
        {
            if self.tables[i].0 == *name {
                return Some(i);
            }
            i += 1;
        }
        None
    }

    /// Creates an empty table under the given name if none exists;
    /// idempotent.
    pub fn create_table(&mut self, name: &String)
        ensures
            final(self).store() == (if old(self).store().contains_key(name@) {
                old(self).store()
            } else {
                old(self).store().insert(name@, Seq::<RowModel>::empty())
            }),
    {
        proof {
            use_type_invariant(&*self);
            lemma_store_of_contains(self.tables@, name@);
        }
        let position = self.position_of(name);
        match position {
            Some(_) => {
            },
            None => {
                let ghost s = self.tables@;
                let mut tables: Vec<(String, Vec<FieldMap>)> = Vec::new();
                core::mem::swap(&mut tables, &mut self.tables);
                tables.push((name.clone(), Vec::new()));
                proof {
                    assert(tables@.drop_last() =~= s);
                    assert(tables@.last().1@.map_values(|m: FieldMap| m@)
                        =~= Seq::<RowModel>::empty());
                }
                self.tables = tables;
            },
        }
    }

    /// The rows of the named table, or nothing when there is no such table.
    pub fn table_rows(&self, name: &String) -> (r: Option<&Vec<FieldMap>>)
        ensures
            match r {
                Some(rows) => self.store().contains_key(name@) && rows@.map_values(
                    |m: FieldMap| m@,
                ) == self.store()[name@],
                None => !self.store().contains_key(name@),
            },
    {
        proof {
            use_type_invariant(self);
            lemma_store_of_contains(self.tables@, name@);
        }
        match self.position_of(name) {
            Some(i) => {
                proof {
                    lemma_store_of_get(self.tables@, i as int);
                }
                Some(&self.tables[i].1)
            },
            None => None,
        }
    }
}

/// Keeps the named columns of a row, reporting a missing column as a row
/// decode error naming it.
fn restrict_row(map: &FieldMap, cols: &Vec<String>) -> (r: Result<FieldMap, Error>)
    ensures
        match r {
            Ok(m) => spec_restrict_row(map@, cols@.map_values(|s: String| s@)) == Some(m@),
            Err(_) => spec_restrict_row(map@, cols@.map_values(|s: String| s@)) is None,
        },
{
    let ghost cs = cols@.map_values(|s: String| s@);
    let mut out = FieldMap::new();
    let mut i: usize = 0;
    while i < cols.len()
        invariant
            i <= cols@.len(),
            cs == cols@.map_values(|s: String| s@),
            forall|j: int| 0 <= j < i ==> map@.contains_key(#[trigger] cs[j]),
            out@ =~= Map::new(
                |k: Seq<char>| cs.take(i as int).contains(k) && map@.contains_key(k),
                |k: Seq<char>| map@[k],
            ),
        decreases cols@.len() - i,
    {
        match map.get(cols[i].as_str()) {
            Some(v) => {
                out.insert(cols[i].clone(), v.clone());
            },
            None => {
                proof {
                    assert(cs[i as int] == cols@[i as int]@);
                }
                let mut msg = string_from("missing column ");
                msg.append(cols[i].as_str());
                return Err(Error::RowDecode(msg));
            },
        }
        i += 1;
        proof {
            assert(cs[i - 1] == cols@[i - 1]@);
            assert(cs.take(i as int).drop_last() =~= cs.take(i - 1));
            assert(cs.take(i as int).last() == cs[i - 1]);
            assert(forall|k: Seq<char>| cs.take(i as int).contains(k) <==> (cs.take(
                i - 1,
            ).contains(k) || k == cs[i - 1]));
            assert(out@ =~= Map::new(
                |k: Seq<char>| cs.take(i as int).contains(k) && map@.contains_key(k),
                |k: Seq<char>| map@[k],
            ));
        }
    }
    proof {
        assert(cs.take(cols@.len() as int) =~= cs);
        assert(out@ =~= Map::new(
            |k: Seq<char>| cs.contains(k) && map@.contains_key(k),
            |k: Seq<char>| map@[k],
        ));
        assert forall|j: int| 0 <= j < cs.len() implies map@.contains_key(#[trigger] cs[j]) by {}
    }
    Ok(out)
}

impl MigrateEntireTable for MemoryBackend {
    open spec fn store(&self) -> StoreModel {
        self.spec_store()
    }

    /// Succeeds exactly when the table exists.
    fn read_all_values(&mut self, table_name: &String, column_names: &Vec<String>) -> (r: Result<
        Vec<Result<FieldMap, Error>>,
        Error,
    >)
        ensures
            (r matches Ok(_)) <==> old(self).store().contains_key(table_name@),
    {
        proof {
            use_type_invariant(&*self);
            lemma_store_of_contains(self.tables@, table_name@);
        }
        let position = self.position_of(table_name);
        let i = match position {
            Some(i) => i,
            None => {
                let mut msg = string_from("no such table ");
                msg.append(table_name.as_str());
                return Err(Error::Backend(msg));
            },
        };
        proof {
            lemma_store_of_get(self.tables@, i as int);
        }
        let rows = &self.tables[i].1;
        let mut out: Vec<Result<FieldMap, Error>> = Vec::new();
        let mut j: usize = 0;
        while j < rows.len()
            invariant
                j <= rows@.len(),
                out@.len() == j,
                self.store().contains_key(table_name@),
                self.store()[table_name@] == rows@.map_values(|m: FieldMap| m@),
                forall|a: int| 0 <= a < j ==> (match #[trigger] out@[a] {
                    Ok(m) => spec_restrict_row(
                        self.store()[table_name@][a],
                        column_names@.map_values(|s: String| s@),
                    ) == Some(m@),
                    Err(_) => spec_restrict_row(
                        self.store()[table_name@][a],
                        column_names@.map_values(|s: String| s@),
                    ) is None,
                }),
            decreases rows@.len() - j,
        {
            let restricted = restrict_row(&rows[j], column_names);
            out.push(restricted);
            j += 1;
            proof {
                assert(rows@.map_values(|m: FieldMap| m@)[j - 1] == rows@[j - 1]@);
            }
        }
        Ok(out)
    }

    /// Succeeds exactly when the table exists.
    fn insert_fields(&mut self, table_name: &String, fields: &FieldMap) -> (r: Result<(), Error>)
        ensures
            (r matches Ok(_)) <==> old(self).store().contains_key(table_name@),
    {
        proof {
            use_type_invariant(&*self);
            lemma_store_of_contains(self.tables@, table_name@);
        }
        let position = self.position_of(table_name);
        let i = match position {
            Some(i) => i,
            None => {
                let mut msg = string_from("no such table ");
                msg.append(table_name.as_str());
                return Err(Error::Backend(msg));
            },
        };
        proof {
            lemma_store_of_get(self.tables@, i as int);
        }
        let ghost s = self.tables@;
        let mut tables: Vec<(String, Vec<FieldMap>)> = Vec::new();
        core::mem::swap(&mut tables, &mut self.tables);
        let (name, mut rows) = tables.remove(i);
        rows.push(fields.clone());
        tables.insert(i, (name, rows));
        proof {
            assert(tables@ =~= s.update(
                i as int,
                (s[i as int].0, tables@[i as int].1),
            ));
            assert(tables@[i as int].1@ =~= s[i as int].1@.push(tables@[i as int].1@.last()));
            lemma_store_of_update(s, i as int, tables@[i as int]);
            assert(tables@[i as int].1@.map_values(|m: FieldMap| m@) =~= s[i as int].1@.map_values(
                |m: FieldMap| m@,
            ).push(fields@));
        }
        self.tables = tables;
        Ok(())
    }

    /// Succeeds exactly when the table exists; emptying an already empty
    /// table succeeds again, so the call is idempotent.
    fn delete_all(&mut self, table_name: &String) -> (r: Result<(), Error>)
        ensures
            (r matches Ok(_)) <==> old(self).store().contains_key(table_name@),
    {
        proof {
            use_type_invariant(&*self);
            lemma_store_of_contains(self.tables@, table_name@);
        }
        let position = self.position_of(table_name);
        let i = match position {
            Some(i) => i,
            None => {
                let mut msg = string_from("no such table ");
                msg.append(table_name.as_str());
                return Err(Error::Backend(msg));
            },
        };
        let ghost s = self.tables@;
        let mut tables: Vec<(String, Vec<FieldMap>)> = Vec::new();
        core::mem::swap(&mut tables, &mut self.tables);
        let (name, _rows) = tables.remove(i);
        tables.insert(i, (name, Vec::new()));
        proof {
            assert(tables@ =~= s.update(
                i as int,
                (s[i as int].0, tables@[i as int].1),
            ));
            lemma_store_of_update(s, i as int, tables@[i as int]);
            assert(tables@[i as int].1@.map_values(|m: FieldMap| m@)
                =~= Seq::<RowModel>::empty());
        }
        self.tables = tables;
        Ok(())
    }
}

} // verus!
