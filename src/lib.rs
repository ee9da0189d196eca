//! A shared, forward-only cache of input blocks with independent cursors over it,
//! and the query plan whose member labels are matched against the cached input.
pub mod input;
pub mod input_management;
pub mod query;
