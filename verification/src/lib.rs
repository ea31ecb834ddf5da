//! A PostgreSQL client core that turns query results into typed columns.
//!
//! The crate holds the protocol logic of a session: the messages a client
//! writes, the decisions it takes on each message it reads, the binary
//! decoding of cells into typed column builders and the cache of prepared
//! statements. Sockets, scheduling and the dataframe engine live outside.

pub mod backend;
pub mod client;
pub mod client_options;
pub mod column_result;
pub mod digits;
pub mod endian;
pub mod error;
pub mod frontend;
pub mod laws;
pub mod params;
pub mod pool;
pub mod pool_options;
pub mod text;
pub mod text_array;
pub mod utils;

pub use client_options::ClientOptions;
pub use error::PgToPlError;
pub use error::PgToPlResult;
pub use params::BinaryParam;
pub use pool::ClientManager;
pub use pool_options::PoolOptions;
