//! A content-addressable object store in the style of a version-control
//! system's loose objects: typed content is framed with a header, identified
//! by the SHA-1 of the framed bytes, and kept zlib-compressed.

pub mod codec;
pub mod decimal;
pub mod digest;
pub mod error;
pub mod kind;
pub mod laws;
pub mod object;
pub mod sink;
pub mod split_write;
pub mod store;
pub mod zlib;

pub use digest::Hasher;
pub use error::{CodecError, Error, StoreError};
pub use kind::ObjectType;
pub use object::{LooseObject, Object};
pub use sink::{Limited, NullSink, Sink};
pub use split_write::SplitWrite;
pub use store::resolve_object_path;
pub use zlib::Compression;
