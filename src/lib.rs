//! Fixed-width cells for console tables of asset prices: values with
//! magnitude suffixes, signed percentage changes, market-cap ranks and asset
//! names, the rows and blocks built from them, and the command line that
//! asks for them.
//!
//! Amounts are whole numbers of billionths (`value::UNIT` to one), so that
//! every rule of rounding and truncation is stated and proved exactly.
pub mod digits;
pub mod value;
pub mod change;
pub mod name;
pub mod table;
pub mod cli;
