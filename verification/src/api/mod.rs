//! What the local API answers.

pub mod command;
pub mod health;
pub mod status;
