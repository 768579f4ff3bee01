pub mod error;
pub mod bigint;
pub mod classify;
pub mod concrete;
pub mod defaults;
pub mod driver;
pub mod laws;
pub mod layout;
pub mod lowering;
pub mod metadata;
pub mod ranges;
pub mod type_layout;
