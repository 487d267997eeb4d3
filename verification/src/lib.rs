//! Full-year lunar desktop calendar: themes, layout, calendar grid plans and
//! command-line decisions, with their contracts.

pub mod calendar;
pub mod cli;
pub mod date;
pub mod layout;
pub mod lunar;
pub mod text;
pub mod theme;
pub mod ui;
