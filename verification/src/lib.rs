//! An in-memory, transactional entity store.
//!
//! Committed tables are read through shared references. A transaction
//! gathers its writes in a private overlay, `commit` detaches them as a
//! [`Log`], and `apply_log` replays the log into the table. Derived values
//! are cached under the version tags of what they were computed from and
//! are computed anew when a tag has moved. Waiting is left to the caller:
//! the cell of a lazily loaded value and the lock around a context decide
//! who loads, who waits and who may write, and say so.
//!
//! Every function carries a contract over the mathematical value that a
//! table, a transaction, a log, a cell or a lock stands for.
//!
//! - Storage: [`Table`], [`HashTable`], [`VecTable`], [`OneToMany`].
//! - Transactions: [`Overlay`], [`TableTransaction`], [`TrxCell`],
//!   [`Insert`], [`InsertMut`], [`Remove`], [`Commit`], [`ApplyLog`],
//!   [`Begin`].
//! - Derived values: [`VersionTag`], [`Version`], [`Tagged`],
//!   [`Accessor`], [`Deps`].
//! - Coordination: [`LoadCell`], [`QueueLock`], [`Connected`].
//! - Wiring: [`implement`] for a context, [`indexing_fn`] for an index.

pub mod accessor;
pub mod apply_log;
pub mod ascending;
pub mod buckets;
pub mod cases;
pub mod commit;
pub mod connected;
pub mod decimal;
pub mod deps;
pub mod error;
pub mod fx;
pub mod hash_table;
pub mod index_plan;
pub mod insert;
pub mod key;
pub mod load_cell;
pub mod log;
pub mod one_to_many;
pub mod overlay;
pub mod provider;
pub mod queue_lock;
pub mod read_only;
pub mod remove;
pub mod state;
pub mod table;
pub mod tagged;
pub mod transaction;
pub mod trx_cell;
pub mod type_expr;
pub mod vec_table;
pub mod version;
pub mod vm;
pub mod wiring;

pub use accessor::Accessor;
pub use apply_log::ApplyLog;
pub use commit::Commit;
pub use connected::Connected;
pub use decimal::decimal;
pub use deps::{clear_dependents, Deps};
pub use error::Error;
pub use hash_table::HashTable;
pub use index_plan::{dependencies, indexing_fn, plan_index, ArgDecl, FnDecl, IndexArg, IndexPlan};
pub use insert::{Insert, InsertMut};
pub use key::{Key, MAX_KEY};
pub use load_cell::{CellState, LoadCell, Step};
pub use log::Log;
pub use one_to_many::OneToMany;
pub use overlay::Overlay;
pub use provider::{MyTrait, Provider};
pub use queue_lock::{LockState, QueueLock, Ticket};
pub use read_only::{Passthrough, ReadOnly};
pub use remove::Remove;
pub use state::State;
pub use table::{load_rows, replay, Table};
pub use tagged::{Tag, Tagged};
pub use transaction::{Begin, TableTransaction, Transaction};
pub use trx_cell::TrxCell;
pub use type_expr::{
    check_path_segment, get_async_once_cell_ty, is_storm_ctx, unref, Argument, Arguments, Segment,
    TypeExpr,
};
pub use vec_table::VecTable;
pub use version::{combine, Version, VersionTag};
pub use vm::MAX_BUCKET_KEY;
pub use wiring::{
    field_kind, implement, is_async_once_cell, member, tables, ContextDecl, FieldDecl, FieldKind,
    Member, Wiring,
};
