//! The decisions of the terminal front end: its screens, focus, menus and
//! input checks. Drawing and reading keys belong to the application.
pub mod app;
pub mod ui;
pub mod flow;
pub mod outcomes;
