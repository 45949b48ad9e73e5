//! The substitution plan of a school, laid over the timetable of a user.
//!
//! The school publishes a page for each of the next days with the lessons
//! that deviate from the timetable, and once a year documents that say
//! which weeks belong to which of two alternating cycles. This library
//! reads both and answers, for the timetable of a user, what that user's
//! day looks like.
//!
//! - [`weeks`] builds the calendar of cycles and looks dates up in it;
//!   [`index`] finds the calendar documents.
//! - [`extract`] reads the page of one day into a [`extract::VDay`].
//! - [`check_loop`] decides, answer by answer, what the periodic check of
//!   the pages does next; [`cache`] holds what it publishes.
//! - [`reconcile`] lays a day over a [`plan::Plan`]; [`report`] writes the
//!   result out for the user.
//!
//! Pages are parsed by `scraper` and dates by `chrono`; what the library
//! takes from them is named in [`html`] and [`date`]. Documents are read
//! by `lopdf` in [`pdf`], of whose text nothing is promised. Everything
//! else is proved against the contracts that the functions carry.

pub mod cache;
pub mod check_loop;
pub mod date;
pub mod extract;
pub mod failure;
pub mod html;
pub mod index;
pub mod lesson;
pub mod pdf;
pub mod plan;
pub mod reconcile;
pub mod report;
pub mod text;
pub mod weeks;
