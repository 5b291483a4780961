//! A small templater: named variables, named apps that pair a template with a
//! target, and a renderer that fills `$[name]` placeholders from the variables.

pub mod handlers;
pub mod json;
pub mod registry;
pub mod render;
pub mod store;
pub mod text;
pub mod utility;
