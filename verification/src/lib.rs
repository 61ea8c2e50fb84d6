//! A compact, self-describing binary encoding for named, typed values
//! ("dictionary entries") exchanged over a servo/actuator control bus.
//!
//! Each entry carries its own key name, a one-byte type code, an element
//! count, and a packed value payload, so a receiver with no prior schema
//! knowledge can decode an arbitrary stream of entries. A parallel,
//! simpler length-prefixed codec handles bare strings.

pub mod convert;
pub mod data;
pub mod dictionary;
pub mod error;
pub mod packing;
pub mod rawstr;
pub mod text;
pub mod typedef;
