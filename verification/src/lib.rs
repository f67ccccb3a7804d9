//! A verified core for provisioning runnable artifacts onto a local machine.
//!
//! The library turns a loosely specified version token into a concrete
//! downloadable build (version resolution and build selection), tracks and
//! renders streaming download progress, materializes a provisioning target
//! with all-or-nothing rollback, and converges a version-controlled checkout
//! to its remote head. All decision logic lives here with contracts; the
//! thin glue that performs network, filesystem and subprocess work lives
//! outside the library and hands plain values in and out.

pub mod config;
pub mod context;
pub mod error;
pub mod fetch;
pub mod provision;
pub mod select;
pub mod sync;
pub mod text;
pub mod version;
