//! Program representation: functions, call sites, calling contexts, memory paths
//! and well known names.

pub mod call_site;
pub mod context;
pub mod function;
pub mod known_names;
pub mod path;
