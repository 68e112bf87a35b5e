//! A content-addressed entry store with a metadata history index.
//!
//! Records are canonically serialized, hashed to a fixed-length content
//! address, and kept in an append-only store. Each stored entry carries an
//! append-only history of metadata events (updates, deletions, validation
//! status). The store also holds an agent identity, established once and
//! immutable thereafter.

pub mod codec;
pub mod digest;
pub mod errors;
pub mod laws;
pub mod model;
pub mod store;

pub use errors::StoreError;
pub use store::Address;
pub use store::AgentId;
pub use store::EntryStore;
pub use store::Metadata;
pub use store::MetadataEvent;
pub use store::Record;
pub use store::content_address;
