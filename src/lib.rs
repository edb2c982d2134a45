//! A personal-assistant kernel: model routing, memory recall and the action
//! mini-language, each with its contract.
pub mod text;
pub mod sanitize;
pub mod router;
pub mod tokenize;
pub mod memory;
pub mod recall;
pub mod actions;
pub mod transcript;
pub mod session;
pub mod profiles;
pub mod capabilities;
pub mod observer;
