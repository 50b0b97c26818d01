//! The backend emitters.

pub mod typescript;
pub mod zod;
