//! Numeric-trait adapter operations for finite-field element types.
//!
//! A field element type describes its arithmetic through the
//! [`field::FieldElement`] capability trait.  On top of that capability set,
//! [`radix`] parses numeral strings in any base from 2 to 36 into field
//! elements by Horner's method, classifying malformed inputs exactly, and
//! [`ops`] supplies the remaining numeric surface: zero/one predicates,
//! division through inversion, the degenerate field remainder, and fused
//! multiply-add.  [`gf7`] provides a small, fully verified prime field as a
//! concrete instance.

pub mod field;
pub mod gf7;
pub mod ops;
pub mod radix;
