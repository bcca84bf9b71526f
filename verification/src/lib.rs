//! Presentation models and interaction logic of the native agent client's
//! conversation components: approval cards, file changes and diff review,
//! the activity timeline, the composer's menus, and the file panel.

pub mod text;
pub mod keys;
pub mod approval;
pub mod paths;
pub mod review;
pub mod file_change;
pub mod auto_approval;
pub mod composer;
pub mod theme;
pub mod activity;
pub mod disclosure;
pub mod requests;
pub mod user_input;
pub mod permissions;
pub mod review_history;
pub mod file_panel;
