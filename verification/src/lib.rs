//! Modelo 720 declarations.
//!
//! The library writes and reads the fixed-width file of a declaration, and
//! works out the records of a declaration from two snapshots of a portfolio.
//!
//! - [`text`] and [`field`]: bytes, blanks, padding, and the plain kinds of
//!   field (text, characters, whole numbers).
//! - [`decimal`], [`number`], [`date`], [`titularidad`]: the values that the
//!   other kinds of field hold, each with the bytes it is written as.
//! - [`registro1`], [`registro2`], [`modelo`]: the header record, the detail
//!   record, and the whole file.
//! - [`assets`], [`order`], [`portfolio`], [`join`], [`reconcile`]: assets,
//!   portfolios in the order of their identifiers, and the declaration that
//!   two portfolios call for.
//! - [`parsers`]: portfolios from the rows of broker statements.

pub mod assets;
pub mod date;
pub mod decimal;
pub mod error;
pub mod field;
pub mod join;
pub mod modelo;
pub mod number;
pub mod order;
pub mod parsers;
pub mod portfolio;
pub mod reconcile;
pub mod registro1;
pub mod registro2;
pub mod text;
pub mod titularidad;
