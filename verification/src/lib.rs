//! Verified core of a web-worker task library: task bookkeeping, task limits,
//! worker scheduling, worker script generation, and the demo computations.

pub mod demo;
pub mod error;
pub mod func;
pub mod keys;
pub mod limit;
pub mod pool;
pub mod script;
pub mod tasks;
pub mod text;

pub use demo::{describe_sort, requested_values, sort, sort_vec, VecType};
pub use error::Full;
pub use func::WebWorkerFn;
pub use keys::{
    setup_validators, CompressedKeys, InvalidKey, UncompressedKeys, UncompressedPublicKey,
};
pub use limit::TaskLimit;
pub use pool::{Scheduler, Strategy};
pub use script::{worker_script, WORKER_JS};
pub use tasks::{TaskRegistry, TaskTableModel};
