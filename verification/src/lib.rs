//! Extraction of structured canteen menu data from a parsed markup tree:
//! locating visible location blocks and their meal blocks, assembling each
//! meal's three-tier price from its currency-marked price tokens,
//! classifying its dietary kind from icon references, and filtering the
//! result by an optional set of allowed location names.
pub mod dom;
pub mod extract;
pub mod filter;
pub mod laws;
pub mod model;
pub mod registry;
pub mod text;
