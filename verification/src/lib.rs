//! Core logic of the Matrix crypto bridge: the decisions, registries and
//! formats that sit between a product and the Matrix crypto machine.

pub mod error;
pub mod identity;
pub mod machine;
pub mod observer;
pub mod probe;
pub mod recovery;
pub mod session;
pub mod signing;
pub mod text;
pub mod verification;
