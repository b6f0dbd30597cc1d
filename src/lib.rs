//! Sharded object paths: a 128-bit object identifier and the
//! `xx/yy/zzzz…` directory layout that content-addressable stores use to
//! spread objects over many directories.

pub mod hex;
pub mod uuid_text;
pub mod path;
pub mod object_id;
pub mod laws;

pub use object_id::{InvalidObjectId, ObjectId};
pub use path::{normal_text, PathComponent};
