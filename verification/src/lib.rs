//! Time debt against per-project goal schedules.
//!
//! Each project commits to a daily goal on the days its calendar enables.
//! Logged time pays the commitment off again. The engine walks the calendar
//! one day at a time and keeps two figures: what every project still owes,
//! and a total that is capped each day and carries time worked ahead of
//! schedule into the following days.
//!
//! - [`date`] and [`duration`] hold the plain values that everything is
//!   calculated with; the weekday of a date is asked of chrono.
//! - [`toggl`] holds projects, their calendars and the entries logged.
//! - [`books`] says in mathematics what a day and an entry do to the books,
//!   with what holds of every run; [`accrual`] adds what a project owes that
//!   nothing was logged against; [`order`] says what sorting gives.
//! - [`debt`] is the engine itself, [`goals`] turns its books into the list
//!   a user reads.
//! - [`human_duration`], [`status`], [`forms`] and [`session`] hold what the
//!   pages show and send in.

pub mod accrual;
pub mod books;
pub mod date;
pub mod debt;
pub mod duration;
pub mod forms;
pub mod goals;
pub mod human_duration;
pub mod order;
pub mod session;
pub mod status;
pub mod toggl;
