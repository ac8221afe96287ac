//! Durable checkpoint of a replica's sync progress: the last frame number that
//! was applied locally, mirrored in a small JSON sidecar file.

pub mod record;
pub mod sync;
