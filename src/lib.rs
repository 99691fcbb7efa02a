//! Resolution and download planning for a versioned game distribution:
//! platform rules, content-addressed asset paths, download-if-absent
//! decisions, native archive unpacking and the install stage sequence.

pub mod platform;
pub mod model;
pub mod rules;
pub mod fetch;
pub mod assets;
pub mod libraries;
pub mod natives;
pub mod install;
pub mod json;
