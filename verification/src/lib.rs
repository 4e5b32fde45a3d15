//! Provider-neutral content, capability, request and delivery rules for Prism,
//! with the deterministic decisions of its executor and Threads adapter.

pub mod text;
pub mod ids;
pub mod validation;
pub mod json;
pub mod content;
pub mod capabilities;
pub mod request;
pub mod result;
pub mod provider;
pub mod runtime;
pub mod protocol;
pub mod threads;
pub mod testkit;
