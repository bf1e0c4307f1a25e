//! Beacons in rooms: questions with a bounded list of answers, the responses to them, and the
//! results compiled from the responses.
//!
//! - [`beacon`] holds the rules: which selections of a response are valid, how responses
//!   become a tally, how a tally is ranked and put into words. Its submodules hold the
//!   contents of the events, in their stable and unstable forms.
//! - [`beacon_info`], [`room`] and [`location`] hold the contents of the events of live
//!   location sharing.
//! - [`message`] and [`relation`] hold what event contents are made of.
//! - [`ordered`], [`text`] and [`chars`] are the sets, maps and string functions that the rest
//!   is built on.
//! - [`uint`] and [`time`] are the doors to `js_int` and `ruma_common`.
//! - [`cargo`] holds the rules of a release of the packages of the workspace.

pub mod beacon;
pub mod beacon_info;
pub mod cargo;
pub mod chars;
pub mod location;
pub mod message;
pub mod ordered;
pub mod relation;
pub mod room;
pub mod text;
pub mod time;
pub mod uint;
