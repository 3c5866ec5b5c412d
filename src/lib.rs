//! A small record store: a named integer record kept as pretty-printed JSON
//! text, with an exact writer, a verified reader and the laws that tie them.

mod chars;
pub mod decode;
pub mod encode;
pub mod format;
pub mod greeting;
pub mod laws;
pub mod record;
pub mod store;

pub use decode::decode_record;
pub use encode::encode_record;
pub use greeting::greet;
pub use record::{DecodeError, DecodeKind, Record, StoreError};
pub use store::finish_load;
