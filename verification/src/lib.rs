//! Library for turning user-supplied field values into a formatted issue
//! on a code-hosting platform: schema resolution, template conversion,
//! validation, rendering, an automation-policy check, and the submission
//! retry decision.

pub mod base64;
pub mod body_formatter;
pub mod config;
pub mod defaults;
pub mod gh;
pub mod git;
pub mod github_templates;
pub mod submit;
pub mod text;
pub mod types;
pub mod values;
