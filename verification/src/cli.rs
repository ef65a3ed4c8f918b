//! The command line: what each command asks of the admin API and how the answer
//! is shown, and the baking of warm templates.

pub mod admin;
pub mod bake;
pub mod template;
pub mod vm;
