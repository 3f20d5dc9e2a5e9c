//! A minimal container build engine: a line-oriented build-script parser, an
//! image-reference parser, a registry pull-protocol driver, a layered
//! filesystem model, and a build-instruction executor.
//!
//! The executable shell around this library performs the network transfers,
//! the archive unpacking and the process handling; every decision about what
//! those effects must be is made, and verified, here.

pub mod executor;
pub mod image_ref;
pub mod instruction;
pub mod layerfs;
pub mod parser;
pub mod registry;
pub mod request;
pub mod text;
