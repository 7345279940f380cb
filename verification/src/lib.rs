//! Driving times from a set of named starting points to destination
//! addresses, as a directions service estimates them.
//!
//! The library holds the rules; asking the service and printing are left to
//! the program that uses it.
//!
//! - `starting_point`: the starting points and the configuration text
//!   `place_id:label,...` that lists them. Every malformed entry of a text
//!   is reported, not only the first.
//! - `addresses`: the destination addresses that a text lists, one on each
//!   line.
//! - `route`: what is asked of the service and what it answers.
//! - `duration`: a duration in seconds rounded to hours and minutes.
//! - `batch`: one task for every pair of a starting point and an address.
//! - `outcome`: the summary line or the failure that a task ends with.
//! - `report`: the sink that takes the outcomes in the order of their
//!   arrival, hands the summary lines back at once and keeps the failures
//!   for one error at the end.
//! - `text`: splitting of texts and decimal numerals.

pub mod addresses;
pub mod batch;
pub mod duration;
pub mod outcome;
pub mod report;
pub mod route;
pub mod starting_point;
pub mod text;
