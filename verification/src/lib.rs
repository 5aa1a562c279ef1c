//! Holocene-calendar date formatting: a free-form date interpreter and a
//! template formatter that prints years of the Human Era.

pub mod calendar;
pub mod command;
pub mod decimal;
pub mod directive;
pub mod engine;
pub mod format;
pub mod grammar;
pub mod holocene;
pub mod interpret;
pub mod orders;
pub mod relative;
pub mod substitute;
pub mod text;
