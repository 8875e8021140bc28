//! Geolocation synchronisation between raw camera images and their
//! develop-settings sidecar documents.
//!
//! The library holds the verified logic: the binary/text encodings of the GPS
//! fields, the sidecar text patching, the synchronisation decisions and the
//! noise-reduction flag toggling. Reading files and image metadata is left to
//! the caller, which hands plain values in and takes plain values back.

pub mod base64;
pub mod codec;
pub mod record;
pub mod fragment;
pub mod sidecar;
pub mod store;
pub mod flags;
pub mod layout;
pub mod metadata;
pub mod text;

