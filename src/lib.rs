//! Consistent obfuscation of an embedded build's debug information and of the
//! calibration description that refers to it by symbol name.
//!
//! - `debuginfo` rebuilds the debug-info entry graph in two passes under new
//!   handles, replacing names by pseudonyms and masking fixed addresses, and
//!   returns the table from original names to pseudonyms.
//! - `calibration` models the calibration document; `rename` renames its objects
//!   category by category, `repair` and `xrefs` rewrite the references to each
//!   category through its rename table, and `bridge` gives symbol links the
//!   pseudonyms chosen for the debug information.
//! - `pseudonym` generates the replacement strings, `table` holds name tables,
//!   `sections` decides which sections of the binary survive and where the
//!   rebuilt debug sections go, and `location` how a location expression's
//!   evaluation is driven and read.

pub mod pseudonym;
pub mod table;
pub mod debuginfo;
pub mod calibration;
pub mod bridge;
pub mod repair;
pub mod xrefs;
pub mod rename;
pub mod sections;
pub mod location;
