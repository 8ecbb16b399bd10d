//! Verified core of the zuttomo conversation helper.

pub mod backend;
pub mod chat;
pub mod command;
pub mod config;
pub mod console;
pub mod encoding;
pub mod form;
pub mod history;
pub mod html;
pub mod json;
pub mod message;
pub mod mode;
pub mod number;
pub mod pair;
pub mod session;
pub mod text;
