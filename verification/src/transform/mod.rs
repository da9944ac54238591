//! Source transforms for VSCode compatibility.
pub mod private_field;
