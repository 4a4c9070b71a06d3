//! Platform-agnostic core of the VZGLYD display engine: slide scheduling,
//! transition resolution, manifest and playlist validation, shader contract
//! checks and the shared-memory wire format.

pub mod glb;
pub mod hydration;
pub mod info;
pub mod json;
pub mod kernel;
pub mod lifecycle;
pub mod manifest;
pub mod overlay;
pub mod schedule;
pub mod shader;
pub mod shared_mem;
pub mod slide;
pub mod text;
pub mod transition;
