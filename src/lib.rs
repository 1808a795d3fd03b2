//! Keeps file names in one Unicode normalization form: the rules that decide
//! which directories are watched, the event pipeline that picks what to
//! rename, and the decisions of the rename itself.

pub mod paths;
pub mod order;
pub mod rules;
pub mod resolve;
pub mod config;
pub mod editor;
pub mod flat;
pub mod home;
pub mod validate;
pub mod normalize;
pub mod dispatch;
pub mod version;
pub mod ui;
pub mod timing;
pub mod text;
pub mod numbers;
pub mod toast;
