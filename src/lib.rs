//! Client identity resolution for a small HTTP diagnostic service: the
//! precedence rules over proxy headers, the text rendering of the result, the
//! decision of the artificial delay, and the decisions of the echo relay.

pub mod address;
pub mod identity;
pub mod method;
pub mod present;
pub mod delay;
pub mod health;
pub mod relay;
