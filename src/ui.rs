//! Display helpers for the terminal front end: text formatting and small view models.

pub mod app;
pub mod details_panel;
pub mod downloads_list;
pub mod global_stats;
pub mod input_field;
pub mod popup;
pub mod shortcuts;
pub mod speed_limit_popup;
pub mod status_bar;
pub mod tabs;
pub mod utils;
