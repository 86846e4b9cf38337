//! A lightweight binary serialization library using a simple, untagged,
//! fixed-layout encoding format, aimed at embedded and wire-format use-cases.
//!
//! The crate provides three core traits: [`Pack`] for encoding, [`Unpack`] for
//! decoding and [`Size`] providing the encoded size in bytes. Every value of a
//! type encodes to exactly `Size` bytes; the layout of a composite value is the
//! plain concatenation of its fields' encodings, with no tags, padding or
//! length prefixes. Multi-byte scalars are laid out according to a
//! [`ByteOrder`] policy passed to every encode and decode call; the wrapper
//! types [`LE`] and [`BE`] pin a sub-value's byte order regardless of that
//! policy.
//!
//! Every operation carries a contract: encoding a value writes exactly the
//! bytes given by its specification-level encoding and touches nothing else,
//! and decoding returns exactly what the specification-level decoder yields,
//! including each error case. The round-trip law (decoding an encoding yields
//! the original value) is stated and proved for every codec type through the
//! [`Roundtrip`] trait.
//!
//! [`Pack`]: pack::Pack
//! [`Unpack`]: unpack::Unpack
//! [`Size`]: size::Size
//! [`ByteOrder`]: byteorder::ByteOrder
//! [`LE`]: extra::LE
//! [`BE`]: extra::BE
//! [`Roundtrip`]: unpack::Roundtrip

pub mod byteorder;
pub mod compose;
pub mod extra;
pub mod pack;
pub mod size;
pub mod unpack;

pub use byteorder::ByteOrder;
pub use pack::Pack;
pub use size::Size;
pub use unpack::Roundtrip;
pub use unpack::Unpack;
