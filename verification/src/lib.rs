//! Copies configuration documents from one configuration-center namespace to
//! another, leaving out the parts of each document that a mask names.

pub mod config;
pub mod document;
pub mod equality;
pub mod error;
pub mod json;
pub mod mask;
pub mod nacos;
pub mod sync;
pub mod yaml;
