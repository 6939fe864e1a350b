//! One request and response contract over four SQL backends: which backend an identifier
//! names and how it is connected to, which migrations a load applies and in what order, how
//! the parameters of a statement are bound, and what value each column of a result gives.
//!
//! The library decides; it does not connect, query or wait. Whoever holds the pools does
//! what is decided here and hands back what the driver said.

pub mod backend;
pub mod binder;
pub mod codec;
pub mod error;
pub mod migration;
pub mod plugin;
pub mod pool;
pub mod registry;
pub mod roundtrip;
pub mod row;
pub mod table;
pub mod text;
pub mod value;

pub use backend::{path_mapper, Backend, ConnectPlan};
pub use binder::{bind_value, bind_values, Binding, Numeric, Structured};
pub use codec::{fetch, not_finite, to_json, ColumnFamily, Fetch, RawData, RawValue, ReadAs};
pub use error::Error;
pub use migration::{engine_for, migrator, Migration, MigrationKind, MigrationList};
pub use plugin::{Builder, LastInsertId, PluginConfig};
pub use pool::DbPool;
pub use registry::{DbInstances, LoadPlan, Migrations};
pub use row::{decode_row, decode_rows, RawColumn};
pub use value::{Double, DynValue, JsonInput};
