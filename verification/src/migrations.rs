//! The migration chain: an ordered sequence of record versions, built one
//! version at a time under a compile-time conversion constraint, and the
//! walk that folds every stored row forward through it.

use vstd::prelude::*;

use crate::error::Error;
use crate::field::{spec_field_names, CrudField, CrudFieldModel};
use crate::fieldmap::FieldMap;
use crate::record::HasCrudFields;
use crate::value::ValueModel;
use vstd::std_specs::convert::FromSpec;

verus! {

/// One row of a table, as stored: field names mapped to value models.
pub type RowModel = Map<Seq<char>, ValueModel>;

/// A whole store: table names mapped to their rows, oldest first.
pub type StoreModel = Map<Seq<char>, Seq<RowModel>>;

/// One type-erased step of a migration chain: the table name and field
/// descriptors of the record version it is bound to. The conversions between
/// neighbouring versions run through a [`MigrationDriver`] at walk time.
#[derive(Debug)]
pub struct Migration {
    /// The bound version's table name.
    pub table_name: String,
    /// The bound version's field descriptors, in declaration order.
    pub fields: Vec<CrudField>,
}

/// The mathematical shape of a [`Migration`], written `m@`.
pub struct MigrationModel {
    pub table_name: Seq<char>,
    pub fields: Seq<CrudFieldModel>,
}

impl View for Migration {
    type V = MigrationModel;

    open spec fn view(&self) -> MigrationModel {
        MigrationModel {
            table_name: self.table_name@,
            fields: self.fields@.map_values(|f: CrudField| f@),
        }
    }
}

/// The step a record version contributes to a chain. Requiring `Self:
/// From<T>` when the step is built asserts, at compile time, that the version
/// is constructible from its immediate predecessor in the chain.
pub trait Crud: HasCrudFields {
    /// The chain step bound to this version, declared constructible from its
    /// predecessor `T`.
    fn migration<T>() -> (m: Migration) where Self: From<T>
        ensures
            m@.table_name == Self::table_name_spec(),
            m@.fields == Self::fields_spec(),
    {
        Migration { table_name: Self::table_name(), fields: Self::crud_fields() }
    }
}

impl<T: HasCrudFields> Crud for T {
}

/// The runtime face of the chain's conversions: given the position of a
/// step and a field map of that step's version, produce the field map of the
/// next version. A caller implements this once per chain, typically by
/// reconstructing the record, applying the `From` conversion the chain was
/// built under, and writing the result back out (see [`advance_record`]).
pub trait MigrationDriver {
    /// What advancing a version-`i` row one step yields, or nothing when the
    /// row cannot be reconstructed. The default promises nothing beyond
    /// determinism; a verified driver overrides it with the exact
    /// conversion.
    open spec fn advance_spec(&self, i: int, m: RowModel) -> Option<RowModel> {
        arbitrary()
    }

    /// Advances a version-`i` field map to a version-`i + 1` field map.
    fn advance(&self, i: usize, m: &FieldMap) -> (r: Result<FieldMap, Error>)
        ensures
            match r {
                Ok(out) => self.advance_spec(i as int, m@) == Some(out@),
                Err(_) => self.advance_spec(i as int, m@) is None,
            },
    ;
}

/// One chain hop on a field map: reconstructs the previous version `P` from
/// the map, converts it to the next version `V` through `From`, and writes
/// the result back out as a field map.
///
/// This fails exactly when the map does not read back as a `P`; the
/// conversion itself and the write-out are total. Whatever `From` does, the
/// result is the field map of some `V` record; and where the conversion has
/// a spec of its own, the result is exactly the field map of the converted
/// record.
pub fn advance_record<P: HasCrudFields, V: HasCrudFields + From<P>>(m: &FieldMap) -> (r: Result<
    FieldMap,
    Error,
>)
    ensures
        (r matches Err(_)) <==> P::from_fields_spec(m@) is None,
        r matches Ok(out) ==> exists|vm: <V as HasCrudFields>::Model| out@ == V::fields_of(vm),
        V::obeys_from_spec() ==> (r matches Ok(out) ==> exists|p: P|
            P::from_fields_spec(m@) == Some(p.model()) && out@ == V::fields_of(
                #[trigger] V::from_spec(p).model(),
            )),
{
    let prev = match P::try_from_crud_fields(m) {
        Ok(p) => p,
        Err(e) => {
            return Err(e);
        },
    };
    let ghost p = prev;
    let next: V = V::from(prev);
    let out = next.as_crud_fields();
    proof {
        assert(out@ == V::fields_of(next.model()));
        if V::obeys_from_spec() {
            assert(next == V::from_spec(p));
            assert(P::from_fields_spec(m@) == Some(p.model()) && out@ == V::fields_of(
                V::from_spec(p).model(),
            ));
        }
    }
    Ok(out)
}

/// An ordered chain of migration steps, oldest version first, plus the
/// current frontier version `T` used only at build time: appending a step
/// requires the new version to be constructible from `T`.
#[derive(Debug)]
pub struct Migrations<T> {
    steps: Vec<Migration>,
    _current: core::marker::PhantomData<T>,
}

impl<T> View for Migrations<T> {
    type V = Seq<MigrationModel>;

    closed spec fn view(&self) -> Seq<MigrationModel> {
        self.steps@.map_values(|m: Migration| m@)
    }
}

impl<T> Migrations<T> {
    #[verifier::type_invariant]
    spec fn wf(&self) -> bool {
        self.steps@.len() > 0
    }
}

impl<T: HasCrudFields> Migrations<T> {
    /// A chain holding the single version `T`.
    pub fn default() -> (r: Self)
        ensures
            r@ =~= seq![
                MigrationModel {
                    table_name: T::table_name_spec(),
                    fields: T::fields_spec(),
                },
            ],
    {
        let mut steps: Vec<Migration> = Vec::new();
        steps.push(T::migration::<T>());
        Migrations { steps, _current: core::marker::PhantomData }
    }

    /// Appends the next version to the chain; `Next: From<T>` asserts at
    /// compile time that it is constructible from the current frontier.
    pub fn with_version<Next: HasCrudFields + From<T>>(self) -> (r: Migrations<Next>)
        ensures
            r@ =~= self@.push(
                MigrationModel {
                    table_name: Next::table_name_spec(),
                    fields: Next::fields_spec(),
                },
            ),
    {
        proof {
            use_type_invariant(&self);
        }
        let Migrations { mut steps, _current } = self;
        steps.push(Next::migration::<T>());
        Migrations { steps, _current: core::marker::PhantomData }
    }
}

/// The bulk table operations the chain walk needs from a storage backend,
/// independent of any single record type. A backend models its contents as a
/// [`StoreModel`]; each operation says how it reads or changes that model
/// when it succeeds, and a failed change leaves the model as it was.
pub trait MigrateEntireTable {
    /// The tables the backend holds, with their rows. The default promises
    /// nothing beyond determinism; a verified backend overrides it with its
    /// real contents.
    open spec fn store(&self) -> StoreModel {
        arbitrary()
    }

    /// Reads every row of a table, keeping the named columns of each; a row
    /// missing one of the columns surfaces as an error within the sequence
    /// rather than aborting the scan.
    fn read_all_values(&mut self, table_name: &String, column_names: &Vec<String>) -> (r: Result<
        Vec<Result<FieldMap, Error>>,
        Error,
    >)
        ensures
            final(self).store() == old(self).store(),
            r matches Ok(rows) ==> ({
                let cols = column_names@.map_values(|s: String| s@);
                &&& old(self).store().contains_key(table_name@)
                &&& rows@.len() == old(self).store()[table_name@].len()
                &&& forall|i: int| 0 <= i < rows@.len() ==> (match #[trigger] rows@[i] {
                    Ok(m) => spec_restrict_row(old(self).store()[table_name@][i], cols) == Some(
                        m@,
                    ),
                    Err(_) => spec_restrict_row(old(self).store()[table_name@][i], cols) is None,
                })
            }),
    ;

    /// Appends one row, given as a named field map, to a table; the table and
    /// columns are resolved by name at call time.
    fn insert_fields(&mut self, table_name: &String, fields: &FieldMap) -> (r: Result<(), Error>)
        ensures
            r matches Ok(_) ==> old(self).store().contains_key(table_name@) && final(self).store()
                == old(self).store().insert(
                table_name@,
                old(self).store()[table_name@].push(fields@),
            ),
            r matches Err(_) ==> final(self).store() == old(self).store(),
    ;

    /// Unconditionally empties a table.
    fn delete_all(&mut self, table_name: &String) -> (r: Result<(), Error>)
        ensures
            r matches Ok(_) ==> old(self).store().contains_key(table_name@) && final(self).store()
                == old(self).store().insert(table_name@, Seq::empty()),
            r matches Err(_) ==> final(self).store() == old(self).store(),
    ;
}

/// Keeps the named columns of a row: the row restricted to them, or nothing
/// when the row is missing one of them.
pub open spec fn spec_restrict_row(row: RowModel, cols: Seq<Seq<char>>) -> Option<RowModel> {
    if forall|i: int| 0 <= i < cols.len() ==> row.contains_key(#[trigger] cols[i]) {
        Some(Map::new(|k: Seq<char>| cols.contains(k) && row.contains_key(k), |k: Seq<char>| row[k]))
    } else {
        None
    }
}

/// What folding one restricted version-`j` row forward through steps
/// `j .. n - 1` yields: the version-`n - 1` row, or nothing when a hop
/// fails.
pub open spec fn spec_fold_row<D: MigrationDriver>(
    d: &D,
    j: int,
    n: int,
    m: RowModel,
) -> Option<RowModel>
    decreases n - j,
{
    if j < 0 || j >= n - 1 {
        Some(m)
    } else {
        match d.advance_spec(j, m) {
            Some(m2) => spec_fold_row(d, j + 1, n, m2),
            None => None,
        }
    }
}

/// What one stored version-`j` row yields at the end of the chain: column
/// restriction, then the fold; nothing when either fails.
pub open spec fn spec_row_out<D: MigrationDriver>(
    d: &D,
    j: int,
    n: int,
    cols: Seq<Seq<char>>,
    row: RowModel,
) -> Option<RowModel> {
    match spec_restrict_row(row, cols) {
        Some(m) => spec_fold_row(d, j, n, m),
        None => None,
    }
}

/// The folded outputs of a table's rows, meaningful where every row's
/// [`spec_row_out`] succeeds.
pub open spec fn spec_outs<D: MigrationDriver>(
    d: &D,
    j: int,
    n: int,
    cols: Seq<Seq<char>>,
    rows: Seq<RowModel>,
) -> Seq<RowModel> {
    Seq::new(
        rows.len(),
        |i: int|
            match spec_row_out(d, j, n, cols, rows[i]) {
                Some(m) => m,
                None => arbitrary(),
            },
    )
}

/// What one pass over source table `src` does to the store: every row is
/// read back through the declared columns `cols` of version `j` and folded
/// forward; the outputs land in the final step's table `dst` and the source
/// is cleared, unless the two names coincide (the rows are already in place)
/// or the source held no rows. Nothing when the source is absent, a row
/// fails, or a relocation is needed but `dst` is absent.
pub open spec fn spec_pass<D: MigrationDriver>(
    d: &D,
    j: int,
    n: int,
    src: Seq<char>,
    cols: Seq<Seq<char>>,
    dst: Seq<char>,
    store: StoreModel,
) -> Option<StoreModel> {
    if !store.contains_key(src) {
        None
    } else {
        let rows = store[src];
        if exists|i: int| 0 <= i < rows.len() && spec_row_out(d, j, n, cols, #[trigger] rows[i])
            is None {
            None
        } else {
            if src == dst || rows.len() == 0 {
                Some(store)
            } else if store.contains_key(dst) {
                Some(
                    store.insert(dst, store[dst] + spec_outs(d, j, n, cols, rows)).insert(
                        src,
                        Seq::empty(),
                    ),
                )
            } else {
                None
            }
        }
    }
}

/// What a whole chain walk from step `j` onward does to the store: one
/// [`spec_pass`] per step but the last, each reading the step's own table
/// and relocating forward to the final step's table.
pub open spec fn spec_run<D: MigrationDriver>(
    d: &D,
    steps: Seq<MigrationModel>,
    store: StoreModel,
    j: int,
) -> Option<StoreModel>
    decreases steps.len() - j,
{
    let n = steps.len() as int;
    if j < 0 || j >= n - 1 {
        Some(store)
    } else {
        match spec_pass(
            d,
            j,
            n,
            steps[j].table_name,
            spec_field_names(steps[j].fields),
            steps[n - 1].table_name,
            store,
        ) {
            Some(s2) => spec_run(d, steps, s2, j + 1),
            None => None,
        }
    }
}

/// The store after the walk has completed passes `0 .. j` in full.
pub open spec fn spec_run_upto<D: MigrationDriver>(
    d: &D,
    steps: Seq<MigrationModel>,
    store: StoreModel,
    j: int,
) -> Option<StoreModel>
    decreases j,
{
    let n = steps.len() as int;
    if j <= 0 {
        Some(store)
    } else {
        match spec_run_upto(d, steps, store, j - 1) {
            Some(s) => spec_pass(
                d,
                j - 1,
                n,
                steps[j - 1].table_name,
                spec_field_names(steps[j - 1].fields),
                steps[n - 1].table_name,
                s,
            ),
            None => None,
        }
    }
}

/// The store in the middle of pass `j`: the first `k` folded outputs of the
/// source's rows appended to the final table and nothing else changed — in
/// particular, the source still holds every row.
pub open spec fn spec_partial_pass<D: MigrationDriver>(
    d: &D,
    j: int,
    n: int,
    src: Seq<char>,
    cols: Seq<Seq<char>>,
    dst: Seq<char>,
    store: StoreModel,
    k: int,
) -> StoreModel {
    if src == dst || k == 0 || !store.contains_key(src) || !store.contains_key(dst) {
        store
    } else {
        store.insert(dst, store[dst] + spec_outs(d, j, n, cols, store[src]).take(k))
    }
}

/// Where an aborted walk can leave the store: the passes before `j`
/// completed in full, and within pass `j` the first `k` outputs written;
/// pass `j`'s source keeps its rows, so a rerun finds them again.
pub open spec fn spec_partial_run<D: MigrationDriver>(
    d: &D,
    steps: Seq<MigrationModel>,
    store: StoreModel,
    j: int,
    k: int,
) -> Option<StoreModel> {
    let n = steps.len() as int;
    match spec_run_upto(d, steps, store, j) {
        Some(s) => Some(
            spec_partial_pass(
                d,
                j,
                n,
                steps[j].table_name,
                spec_field_names(steps[j].fields),
                steps[n - 1].table_name,
                s,
                k,
            ),
        ),
        None => None,
    }
}

/// The names of the given descriptors, in declaration order.
fn field_names(fields: &Vec<CrudField>) -> (r: Vec<String>)
    ensures
        r@.map_values(|s: String| s@) == spec_field_names(
            fields@.map_values(|f: CrudField| f@),
        ),
{
    let mut out: Vec<String> = Vec::new();
    let mut i: usize = 0;
    while i < fields.len()
        invariant
            i <= fields@.len(),
            out@.len() == i,
            forall|a: int| 0 <= a < i ==> out@[a]@ == fields@[a]@.name,
        decreases fields@.len() - i,
    {
        out.push(fields[i].name.clone());
        i += 1;
    }
    proof {
        assert(out@.map_values(|s: String| s@) =~= spec_field_names(
            fields@.map_values(|f: CrudField| f@),
        ));
    }
    out
}

impl<T: HasCrudFields> Migrations<T> {
    /// Runs one full migration pass over the backend: for every step but the
    /// last, oldest first, reads the step's whole table, folds each row
    /// forward through the driver to the newest version, writes the results
    /// into the final step's table when that is a different table, and then
    /// clears the source. A chain of a single version does nothing. Any
    /// row-level or backend failure aborts the walk with its error, leaving
    /// the completed passes in effect and the failing pass's source intact:
    /// partial progress is a recoverable state.
    #[verifier::loop_isolation(false)]
    pub fn run<B: MigrateEntireTable, D: MigrationDriver>(
        self,
        backend: &mut B,
        driver: &D,
    ) -> (r: Result<(), Error>)
        ensures
            self@.len() == 1 ==> (r matches Ok(u) && final(backend).store() == old(
                backend,
            ).store()),
            r matches Ok(u) ==> spec_run(driver, self@, old(backend).store(), 0) == Some(
                final(backend).store(),
            ),
            r matches Err(u) ==> exists|j: int, k: int|
                0 <= j < self@.len() - 1 && 0 <= k && Some(final(backend).store())
                    == #[trigger] spec_partial_run(driver, self@, old(backend).store(), j, k),
    {
        proof {
            use_type_invariant(&self);
        }
        let ghost chain = self@;
        let Migrations { steps, _current } = self;
        let ghost models = steps@.map_values(|m: Migration| m@);
        let ghost store0 = backend.store();
        let n = steps.len();
        let mut j: usize = 0;
        while j + 1 < n
            invariant
                n == steps@.len(),
                n >= 1,
                j < n,
                models == steps@.map_values(|m: Migration| m@),
                chain == models,
                chain.len() == n as int,
                spec_run(driver, models, store0, 0) == spec_run(
                    driver,
                    models,
                    backend.store(),
                    j as int,
                ),
                spec_run_upto(driver, models, store0, j as int) == Some(backend.store()),
            decreases n - j,
        {
            let ghost nn = n as int;
            let ghost store_start = backend.store();
            let src_name = steps[j].table_name.clone();
            let columns = field_names(&steps[j].fields);
            let dst_name = steps[n - 1].table_name.clone();
            let ghost cols = columns@.map_values(|s: String| s@);
            proof {
                assert(models[j as int] == steps@[j as int]@);
                assert(models[nn - 1] == steps@[nn - 1]@);
                assert(spec_run_upto(driver, models, store0, j as int) == Some(store_start));
            }
            let rows = match backend.read_all_values(&src_name, &columns) {
                Ok(rows) => rows,
                Err(e) => {
                    proof {
                        assert(spec_partial_run(driver, chain, store0, j as int, 0) == Some(
                            backend.store(),
                        ));
                    }
                    return Err(e);
                },
            };
            let ghost rows_model = store_start[src_name@];
            let same = src_name == dst_name;
            let mut idx: usize = 0;
            while idx < rows.len()
                invariant
                    chain.len() >= 2,
                    idx <= rows@.len(),
                    0 <= j < n - 1,
                    n == steps@.len(),
                    nn == n as int,
                    same == (src_name@ == dst_name@),
                    store_start.contains_key(src_name@),
                    rows_model == store_start[src_name@],
                    rows@.len() == rows_model.len(),
                    forall|i: int| 0 <= i < rows@.len() ==> (match #[trigger] rows@[i] {
                        Ok(m) => spec_restrict_row(rows_model[i], cols) == Some(m@),
                        Err(_) => spec_restrict_row(rows_model[i], cols) is None,
                    }),
                    forall|i: int| 0 <= i < idx ==> spec_row_out(
                        driver,
                        j as int,
                        nn,
                        cols,
                        #[trigger] rows_model[i],
                    ) is Some,
                    !same && idx > 0 ==> store_start.contains_key(dst_name@)
                        && backend.store() == store_start.insert(
                        dst_name@,
                        store_start[dst_name@] + spec_outs(
                            driver,
                            j as int,
                            nn,
                            cols,
                            rows_model,
                        ).take(idx as int),
                    ),
                    same || idx == 0 ==> backend.store() == store_start,
                decreases rows@.len() - idx,
            {
                let row_map = match &rows[idx] {
                    Ok(m) => m,
                    Err(e) => {
                        proof {
                            assert(spec_partial_run(driver, chain, store0, j as int, idx as int)
                                == Some(backend.store()));
                        }
                        return Err(e.clone());
                    },
                };
                let ghost m0 = row_map@;
                let mut cur = row_map.clone();
                let mut i: usize = j;
                while i + 1 < n
                    invariant
                        chain.len() >= 2,
                        j <= i < n,
                        n == steps@.len(),
                        nn == n as int,
                        spec_fold_row(driver, j as int, nn, m0) == spec_fold_row(
                            driver,
                            i as int,
                            nn,
                            cur@,
                        ),
                    decreases n - i,
                {
                    match driver.advance(i, &cur) {
                        Ok(next) => {
                            cur = next;
                        },
                        Err(e) => {
                            proof {
                                assert(spec_partial_run(
                                    driver,
                                    chain,
                                    store0,
                                    j as int,
                                    idx as int,
                                ) == Some(backend.store()));
                            }
                            return Err(e);
                        },
                    }
                    i += 1;
                }
                proof {
                    assert(spec_fold_row(driver, j as int, nn, m0) == Some(cur@));
                    assert(spec_row_out(driver, j as int, nn, cols, rows_model[idx as int])
                        == Some(cur@));
                }
                if !same {
                    let ghost before = backend.store();
                    match backend.insert_fields(&dst_name, &cur) {
                        Ok(_) => {
                        },
                        Err(e) => {
                            proof {
                                assert(backend.store() == before);
                                assert(spec_partial_run(
                                    driver,
                                    chain,
                                    store0,
                                    j as int,
                                    idx as int,
                                ) == Some(backend.store()));
                            }
                            return Err(e);
                        },
                    }
                    proof {
                        let outs = spec_outs(driver, j as int, nn, cols, rows_model);
                        assert(outs[idx as int] == cur@);
                        let dst = dst_name@;
                        if idx == 0 {
                            assert(before == store_start);
                            assert(store_start[dst] + outs.take(1) =~= store_start[dst].push(
                                cur@,
                            ));
                            assert(backend.store() =~= store_start.insert(
                                dst,
                                store_start[dst] + outs.take(1),
                            ));
                        } else {
                            assert(before[dst] == store_start[dst] + outs.take(idx as int));
                            assert(store_start[dst] + outs.take(idx + 1) =~= (store_start[dst]
                                + outs.take(idx as int)).push(cur@));
                            assert(backend.store() =~= store_start.insert(
                                dst,
                                store_start[dst] + outs.take(idx + 1),
                            ));
                        }
                    }
                }
                idx += 1;
            }
            let ghost outs = spec_outs(driver, j as int, nn, cols, rows_model);
            proof {
                assert(forall|i: int| 0 <= i < rows_model.len() ==> spec_row_out(
                    driver,
                    j as int,
                    nn,
                    cols,
                    #[trigger] rows_model[i],
                ) is Some);
            }
            if rows.len() > 0 && !same {
                proof {
                    assert(outs.take(rows_model.len() as int) =~= outs);
                    assert(backend.store() == store_start.insert(
                        dst_name@,
                        store_start[dst_name@] + outs,
                    ));
                }
                match backend.delete_all(&src_name) {
                    Ok(_) => {
                    },
                    Err(e) => {
                        proof {
                            assert(spec_partial_run(
                                driver,
                                chain,
                                store0,
                                j as int,
                                rows_model.len() as int,
                            ) == Some(backend.store()));
                        }
                        return Err(e);
                    },
                }
                proof {
                    assert(backend.store() == store_start.insert(
                        dst_name@,
                        store_start[dst_name@] + outs,
                    ).insert(src_name@, Seq::empty()));
                    assert(spec_pass(
                        driver,
                        j as int,
                        nn,
                        models[j as int].table_name,
                        spec_field_names(models[j as int].fields),
                        models[nn - 1].table_name,
                        store_start,
                    ) == Some(backend.store()));
                }
            } else {
                proof {
                    assert(backend.store() == store_start);
                    assert(spec_pass(
                        driver,
                        j as int,
                        nn,
                        models[j as int].table_name,
                        spec_field_names(models[j as int].fields),
                        models[nn - 1].table_name,
                        store_start,
                    ) == Some(store_start));
                }
            }
            proof {
                assert(spec_run_upto(driver, models, store0, j as int + 1) == Some(
                    backend.store(),
                ));
            }
            j += 1;
        }
        proof {
            assert(spec_run(driver, models, backend.store(), j as int) == Some(
                backend.store(),
            ));
        }
        Ok(())
    }
}


/// A walk whose remaining source tables are all present and empty changes
/// nothing: every pass reads no rows, writes nothing, and clears nothing.
pub proof fn lemma_empty_sources_run<D: MigrationDriver>(
    d: &D,
    steps: Seq<MigrationModel>,
    store: StoreModel,
    j: int,
)
    requires
        0 <= j,
        forall|i: int| j <= i < steps.len() - 1 ==> store.contains_key(
            (#[trigger] steps[i]).table_name,
        ) && store[steps[i].table_name].len() == 0,
    ensures
        spec_run(d, steps, store, j) == Some(store),
    decreases steps.len() - j,
{
    let n = steps.len() as int;
    if j >= n - 1 {
    } else {
        assert(spec_pass(
            d,
            j,
            n,
            steps[j].table_name,
            spec_field_names(steps[j].fields),
            steps[n - 1].table_name,
            store,
        ) == Some(store));
        lemma_empty_sources_run(d, steps, store, j + 1);
    }
}

/// Forward migration correctness: over a chain of distinctly named tables
/// whose intermediate tables are empty, one walk takes every row of the
/// oldest table, folds it forward through every step in chain order, appends
/// the results to the newest table, and clears the oldest; nothing else
/// changes. With no rows to move, it changes nothing.
pub proof fn lemma_forward_migration<D: MigrationDriver>(
    d: &D,
    steps: Seq<MigrationModel>,
    store: StoreModel,
)
    requires
        steps.len() >= 2,
        forall|a: int, b: int| 0 <= a < b < steps.len() ==> (#[trigger] steps[a]).table_name != (
        #[trigger] steps[b]).table_name,
        store.contains_key(steps[0].table_name),
        store.contains_key(steps[steps.len() - 1].table_name),
        forall|i: int| 1 <= i < steps.len() - 1 ==> store.contains_key(
            (#[trigger] steps[i]).table_name,
        ) && store[steps[i].table_name].len() == 0,
        forall|i: int| 0 <= i < store[steps[0].table_name].len() ==> spec_row_out(
            d,
            0,
            steps.len() as int,
            spec_field_names(steps[0].fields),
            #[trigger] store[steps[0].table_name][i],
        ) is Some,
    ensures
        ({
            let n = steps.len() as int;
            let src = steps[0].table_name;
            let dst = steps[n - 1].table_name;
            let rows = store[src];
            let outs = spec_outs(d, 0, n, spec_field_names(steps[0].fields), rows);
            spec_run(d, steps, store, 0) == Some(
                if rows.len() == 0 {
                    store
                } else {
                    store.insert(dst, store[dst] + outs).insert(src, Seq::empty())
                },
            )
        }),
{
    let n = steps.len() as int;
    let src = steps[0].table_name;
    let dst = steps[n - 1].table_name;
    let cols0 = spec_field_names(steps[0].fields);
    let rows = store[src];
    assert(src != dst);
    if rows.len() == 0 {
        assert(spec_pass(d, 0, n, src, cols0, dst, store) == Some(store));
        lemma_empty_sources_run(d, steps, store, 1);
    } else {
        let outs = spec_outs(d, 0, n, cols0, rows);
        let s2 = store.insert(dst, store[dst] + outs).insert(src, Seq::empty());
        assert(spec_pass(d, 0, n, src, cols0, dst, store) == Some(s2));
        assert forall|i: int| 1 <= i < n - 1 implies s2.contains_key(
            (#[trigger] steps[i]).table_name,
        ) && s2[steps[i].table_name].len() == 0 by {
            assert(steps[i].table_name != src);
            assert(steps[i].table_name != dst);
        }
        lemma_empty_sources_run(d, steps, s2, 1);
    }
}

/// Backward migration correctness: running the reverse chain against a
/// forward result whose oldest table was cleared restores the original rows
/// exactly, provided the reverse conversions take each relocated row back to
/// the original row it came from.
pub proof fn lemma_backward_migration<D: MigrationDriver>(
    d: &D,
    rsteps: Seq<MigrationModel>,
    forward_result: StoreModel,
    original_rows: Seq<RowModel>,
)
    requires
        rsteps.len() >= 2,
        forall|a: int, b: int| 0 <= a < b < rsteps.len() ==> (#[trigger] rsteps[a]).table_name
            != (#[trigger] rsteps[b]).table_name,
        forward_result.contains_key(rsteps[0].table_name),
        forward_result.contains_key(rsteps[rsteps.len() - 1].table_name),
        forall|i: int| 1 <= i < rsteps.len() - 1 ==> forward_result.contains_key(
            (#[trigger] rsteps[i]).table_name,
        ) && forward_result[rsteps[i].table_name].len() == 0,
        forward_result[rsteps[rsteps.len() - 1].table_name].len() == 0,
        forward_result[rsteps[0].table_name].len() == original_rows.len(),
        original_rows.len() > 0,
        forall|i: int| 0 <= i < original_rows.len() ==> spec_row_out(
            d,
            0,
            rsteps.len() as int,
            spec_field_names(rsteps[0].fields),
            #[trigger] forward_result[rsteps[0].table_name][i],
        ) == Some(original_rows[i]),
    ensures
        spec_run(d, rsteps, forward_result, 0) == Some(
            forward_result.insert(
                rsteps[rsteps.len() - 1].table_name,
                original_rows,
            ).insert(rsteps[0].table_name, Seq::empty()),
        ),
{
    let n = rsteps.len() as int;
    let src = rsteps[0].table_name;
    let dst = rsteps[n - 1].table_name;
    let cols0 = spec_field_names(rsteps[0].fields);
    let rows = forward_result[src];
    lemma_forward_migration(d, rsteps, forward_result);
    let outs = spec_outs(d, 0, n, cols0, rows);
    assert(outs =~= original_rows);
    assert(forward_result[dst] + outs =~= original_rows);
}

} // verus!
