//! The rules of a desktop file organizer, apart from its windows.
//!
//! The heart of the crate is the division of an available width among the
//! columns of a table. [`layout`] does it thoroughly: elastic slots share
//! the width by weight, none leaves its bounds, and the shares are evened
//! out until they fit. [`table_utils`] does it quickly, in one pass, for a
//! table that is resized while it is on screen.
//!
//! The other modules hold what the windows decide by: what a click on a
//! label means, what a context menu offers, which rows are selected, when a
//! dialog may save what was typed into it.

pub mod base_table;
pub mod choice_dialog;
pub mod counter;
pub mod entry_context_menu;
pub mod file_table;
pub mod label;
pub mod label_filter;
pub mod layout;
pub mod location_dialog;
pub mod model;
pub mod table_utils;
pub mod text;
