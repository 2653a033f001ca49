//! Project-scoped image similarity engine.
//!
//! The crate keeps, per named collection of images ("project"), a list of
//! perceptual-hash entries, and ranks the images of one project by their
//! Hamming distance to a query image's hash.  The pieces are:
//!
//! - [`metric`]: distance, bounded range and normalization over bit-vector
//!   hashes;
//! - [`image_hash`]: hash entries, the external hashing capability, and
//!   the per-entry distance list;
//! - [`cache`]: the binary codec and naming scheme of the on-disk hash
//!   cache;
//! - [`indexer`]: the verified decisions of an index build;
//! - [`registry`]: the mapping from project name to its hash-entry list;
//! - [`pipeline`]: the stable ranking of a whole project against a query;
//! - [`descriptor`]: value-equality project scoping;
//! - [`transcode`]: base64 and image payload conversions.

pub mod cache;
pub mod descriptor;
pub mod image_hash;
pub mod indexer;
pub mod metric;
pub mod pipeline;
pub mod registry;
pub mod transcode;

pub use indexer::is_image_file;
pub use transcode::base64_to_image;
pub use transcode::image_to_base64;
pub use transcode::HasSingleImage;
