//! Notes of a shielded pool: how they are written, committed to and encrypted, and the keys under
//! which the pool keeps its state.
pub mod address;
pub mod asset;
pub mod bytes;
pub mod cipher;
pub mod field;
pub mod group;
pub mod hash;
pub mod ka;
pub mod keys;
pub mod note;
pub mod pb;
pub mod state_key;
pub mod value;
