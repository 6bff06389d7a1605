//! Verified core of a class-definition synchroniser for a Starknet node.
//!
//! Peers deliver contract classes in chunks.  The stages in this crate check
//! the structural layout of each blob, attach the class hash, match the class
//! against the declarations of the block it claims to belong to, pick the
//! compiled form and drive the storage transaction that persists it.  Every
//! stage is a function, or a small state machine, from plain values to plain
//! values: the caller performs the I/O and reports what it saw.
//!
//! The stages, in the order in which a class passes them:
//!
//! * [`gap`] and [`counts`] say where a sync resumes and how many classes
//!   to ask peers for;
//! * [`expected`] produces the declarations that the trusted headers hold;
//! * [`layout`] checks that a blob has the structure of its form;
//! * [`hash`] attaches the class hash;
//! * [`verify_declared`] lets a class pass only at the block that declares
//!   it, and [`verify_hashes`] does the same for the classes of one block at
//!   once;
//! * [`compile`] chooses the compiled form;
//! * [`store`] persists a batch in one transaction.
//!
//! [`routes`] and [`dto`] belong to the JSON-RPC side of the node.

pub mod class;
pub mod compile;
pub mod counts;
pub mod declared;
mod deque;
pub mod dto;
pub mod error;
pub mod expected;
pub mod felt;
pub mod gap;
pub mod hash;
pub mod json;
pub mod layout;
pub mod routes;
pub mod store;
pub mod verify_declared;
pub mod verify_hashes;

pub use class::{
    BlockNumber, CasmHash, Class, ClassDefinition, ClassHash, CompiledClass,
    CompiledClassDefinition, P2PClassDefinition, PeerData, PeerId, SierraHash,
};
pub use compile::{compile_sierra_to_casm_or_fetch, CompileSierraToCasm};
pub use counts::{count_stream, declared_class_counts_stream};
pub use declared::{CasmHashMap, ClassHashSet, DeclaredClasses, ExpectedDeclarations};
pub use dto::{PriceUnit, TxnExecutionStatus, TxnFinalityStatus, TxnStatus};
pub use error::{SyncError, SyncError2};
pub use expected::{expected_declarations_stream, ExpectedDeclarationsSource};
pub use felt::Felt;
pub use gap::next_missing;
pub use hash::{compute_hash, compute_hash0, verify_hash, ComputeHash};
pub use layout::{verify_layout, ClassWithLayout, VerifyLayout};
pub use routes::register_routes;
pub use store::{persist, Store};
pub use verify_declared::{verify_declared_at, ClassDechunker, VerifyDeclaredAt};
pub use verify_hashes::VerifyClassHashes;
