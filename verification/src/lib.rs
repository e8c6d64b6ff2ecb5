//! Builds scene-graph 3D asset documents (buffers, buffer views, typed
//! accessors, meshes, nodes, scenes) from raw numeric data and serializes
//! them either as a single binary package or as a JSON document plus
//! external binary data.
//!
//! Numeric data enters as 32-bit words: an unsigned integer as itself, a
//! float by the bit pattern of its 4-byte little-endian encoding, which
//! is all the byte layout ever reads of it. Accessor bounds enter as the
//! decimal text the JSON document carries verbatim. Every byte of both
//! output forms is pinned down by the specification functions the
//! contracts state.

pub mod convert;
pub mod doc;
pub mod enc;
pub mod glb;
pub mod json;
pub mod merge;

use vstd::prelude::*;

verus! {

/// The file formats the converter distinguishes.
#[derive(Debug, Clone, Copy, PartialEq, Eq, PartialOrd, Ord, Structural)]
pub enum FileFormat {
    Stl,
    Gltf,
    Glb,
}

/// The conventional file-name extension for each format.
pub fn get_extension(format: FileFormat) -> (r: &'static str)
    ensures
        format == FileFormat::Stl ==> r@ == "stl"@,
        format == FileFormat::Gltf ==> r@ == "gltf"@,
        format == FileFormat::Glb ==> r@ == "glb"@,
{
    match format {
        FileFormat::Stl => "stl",
        FileFormat::Gltf => "gltf",
        FileFormat::Glb => "glb",
    }
}

} // verus!
