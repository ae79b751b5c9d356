//! Rule-based routing of URLs to web browsers.

pub mod text;
pub mod check;
pub mod bindings;
pub mod platform;
pub mod config;
pub mod dispatch;
pub mod util;
pub mod wizard;
pub mod doctor;
pub mod install;
pub mod cli;
