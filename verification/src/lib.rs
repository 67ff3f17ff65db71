//! Synchronisation of Apple shared albums with an Immich server: the request
//! planning, response interpretation and album bookkeeping, with contracts.

pub mod text;
pub mod http_status;
pub mod clock;
pub mod immich;
pub mod immich_sync;
pub mod app_config;
