//! Builds manifests of container image references, grouped by namespace.
pub mod error;
pub mod image;
pub mod manifest;
pub mod reference;
pub mod stream;

pub use error::ManifestError;
pub use image::{sanitize_filename, tarball_path, Image};
pub use manifest::{build_manifest, merge_namespace, parse_images, Manifest, NamespaceEntry};
pub use reference::ReferenceParts;
pub use stream::{read, resolve_stream, Stream};
