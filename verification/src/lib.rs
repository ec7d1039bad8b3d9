//! A schema-evolution engine for record-oriented storage.
//!
//! Records are typed, fixed-shape versions of a logical entity. A chain of
//! versions, each convertible to its neighbours, migrates persisted rows from
//! any older version forward to the newest one (or back again), relocating
//! them between tables as needed. The engine is backend-agnostic: it only
//! needs a backend that can read a whole table as generic field maps, insert
//! a field map, and clear a table.

use vstd::prelude::*;

pub mod codec;
pub mod error;
pub mod example;
pub mod field;
pub mod fieldmap;
pub mod memory;
pub mod migrations;
pub mod record;
pub mod sqlite;
pub mod value;

pub use codec::IsCrudField;
pub use error::Error;
pub use example::{Player, PlayerDriver, PlayerReverseDriver, RankedPlayer};
pub use field::CrudField;
pub use fieldmap::FieldMap;
pub use memory::MemoryBackend;
pub use migrations::{
    advance_record, Crud, MigrateEntireTable, Migration, MigrationDriver, Migrations,
};
pub use record::{HasCrudFields, LawfulRecord};
pub use sqlite::{DeletePlan, InsertPlan, Sqlite, UpdatePlan};
pub use value::{FloatBits, Value, ValueType};

verus! {

} // verus!
