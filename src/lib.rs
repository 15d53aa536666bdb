//! Flattening of generic type instantiations into single identifiers.
//!
//! A name such as `Foo<Bar<T>, E>` becomes `Foo_Bar_T_____E`: one separator
//! opens a generic argument list, two separate its arguments and three close
//! it, except where nothing follows at any enclosing level.
pub mod encoding;
pub mod ir;
pub mod laws;
pub mod mangle;
