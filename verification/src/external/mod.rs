//! What the collaborating services say, and how the library reads it.

pub mod blueband;
pub mod sns_integration;
pub mod token;
