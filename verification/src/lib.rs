//! A binary codec for a simplified Bitcoin transaction format.
//!
//! Every value type has a mathematical view, every wire layout is a spec
//! function from views to byte sequences (`*_encoding`) with a matching
//! partial inverse (`*_decoding`), and every executable encoder and decoder
//! is proved to compute exactly those functions.

pub mod compact_size;
pub mod error;
pub mod hex_text;
pub mod input;
pub mod outpoint;
pub mod render;
pub mod script;
pub mod transaction;
pub mod txid;
pub mod wire;

pub use compact_size::CompactSize;
pub use error::BitcoinError;
pub use input::TransactionInput;
pub use outpoint::OutPoint;
pub use script::Script;
pub use transaction::BitcoinTransaction;
pub use txid::Txid;
