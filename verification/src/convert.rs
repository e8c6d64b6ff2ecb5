//! The conversion pipeline: from prepared geometry (position words,
//! normal words, triangle indices, optional bounds texts) to a finished
//! one-mesh, one-node, one-scene document.

use vstd::prelude::*;
use vstd::string::StringExecFns;
use crate::enc::words_bytes;
use crate::doc::{
    BufferView, ComponentType, ElementKind, GltfBuilder, GltfError, Primitive, Target, Vec3Text,
    bounds_ok,
};

verus! {

/// Builds the document for one triangulated mesh: a buffer and view
/// each for positions, normals and triangle indices, a position
/// accessor carrying the given bounds, a normal accessor without
/// bounds, an index accessor, one mesh holding one triangle primitive,
/// one node named after the mesh, one scene holding that node, marked
/// as the default scene.
///
/// `positions` and `normals` hold three 32-bit words per vertex, in the
/// bit pattern of the little-endian float encoding the buffers use;
/// `indices` holds three vertex indices per face. Fails when the word
/// counts are misshapen (not a whole number of vertices, or normal and
/// position counts differ) or beyond what byte counts can address.
#[verifier::rlimit(100)]
pub fn convert_mesh_to_gltf(
    mesh_name: String,
    positions: Vec<u32>,
    normals: Vec<u32>,
    indices: Vec<u32>,
    min: Option<Vec3Text>,
    max: Option<Vec3Text>,
) -> (r: Result<GltfBuilder, GltfError>)
    ensures
        r is Ok <==> {
            &&& positions@.len() % 3 == 0
            &&& normals@.len() == positions@.len()
            &&& positions@.len() * 4 <= usize::MAX
            &&& indices@.len() * 4 <= usize::MAX
        },
        r matches Ok(g) ==> {
            &&& g.buffers@.len() == 3
            &&& g.buffers@[0].data@ == words_bytes(positions@)
            &&& g.buffers@[1].data@ == words_bytes(normals@)
            &&& g.buffers@[2].data@ == words_bytes(indices@)
            &&& g.buffers@[0].name matches Some(n) && n@ == "positions"@
            &&& g.buffers@[1].name matches Some(n) && n@ == "normals"@
            &&& g.buffers@[2].name matches Some(n) && n@ == "indices"@
            &&& forall|i: int| 0 <= i < 3 ==> (#[trigger] g.buffers@[i]).uri is None
            &&& g.views@.len() == 3
            &&& g.views@[0] == (BufferView {
                buffer: 0usize,
                byte_offset: 0usize,
                byte_length: (4 * positions@.len()) as usize,
                byte_stride: None,
                target: None,
            })
            &&& g.views@[1] == (BufferView {
                buffer: 1usize,
                byte_offset: 0usize,
                byte_length: (4 * normals@.len()) as usize,
                byte_stride: None,
                target: None,
            })
            &&& g.views@[2] == (BufferView {
                buffer: 2usize,
                byte_offset: 0usize,
                byte_length: (4 * indices@.len()) as usize,
                byte_stride: None,
                target: Some(Target::ElementArrayBuffer),
            })
            &&& g.accessors@.len() == 3
            &&& g.accessors@[0].view == 0
            &&& g.accessors@[0].byte_offset == 0
            &&& g.accessors@[0].count == positions@.len() / 3
            &&& g.accessors@[0].component == ComponentType::Float
            &&& g.accessors@[0].kind == ElementKind::Vec3
            &&& g.accessors@[0].min == min
            &&& g.accessors@[0].max == max
            &&& g.accessors@[0].name matches Some(n) && n@ == "positions"@
            &&& g.accessors@[1].view == 1
            &&& g.accessors@[1].byte_offset == 0
            &&& g.accessors@[1].count == positions@.len() / 3
            &&& g.accessors@[1].component == ComponentType::Float
            &&& g.accessors@[1].kind == ElementKind::Vec3
            &&& g.accessors@[1].min is None
            &&& g.accessors@[1].max is None
            &&& g.accessors@[1].name matches Some(n) && n@ == "normals"@
            &&& g.accessors@[2].view == 2
            &&& g.accessors@[2].byte_offset == 0
            &&& g.accessors@[2].count == indices@.len()
            &&& g.accessors@[2].component == ComponentType::UnsignedInt
            &&& g.accessors@[2].kind == ElementKind::Scalar
            &&& g.accessors@[2].min is None
            &&& g.accessors@[2].max is None
            &&& g.accessors@[2].name matches Some(n) && n@ == "indices"@
            &&& g.meshes@.len() == 1
            &&& g.meshes@[0].weights is None
            &&& g.meshes@[0].primitives@.len() == 1
            &&& g.meshes@[0].primitives@[0] == (Primitive {
                position: Some(0usize),
                normal: Some(1usize),
                indices: Some(2usize),
            })
            &&& g.meshes@[0].name matches Some(n) && n@ == mesh_name@
            &&& g.nodes@.len() == 1
            &&& g.nodes@[0].mesh == Some(0usize)
            &&& g.nodes@[0].name matches Some(n) && n@ == mesh_name@
            &&& g.nodes@[0].transform is None
            &&& g.nodes@[0].children is None
            &&& g.scenes@.len() == 1
            &&& g.scenes@[0].nodes@ == seq![0usize]
            &&& g.default_scene == Some(0usize)
            &&& g.wf()
            &&& bounds_ok(min) && bounds_ok(max) ==> g.valid()
        },
{
    let p = positions.len();
    let n = normals.len();
    if p > usize::MAX / 4 || n > usize::MAX / 4 || indices.len() > usize::MAX / 4 {
        return Err(GltfError::TooLarge);
    }
    if p % 3 != 0 || n != p {
        return Err(GltfError::Inconsistent);
    }
    let vcount = p / 3;
    let nb_indices = indices.len();
    let mut g = GltfBuilder::new();
    let positions_view = g.push_buffer_with_view(
        Some(String::from_str("positions")),
        positions,
        None,
        None,
    );
    let normals_view = g.push_buffer_with_view(
        Some(String::from_str("normals")),
        normals,
        None,
        None,
    );
    let position_accessor = g.push_accessor_vec3(
        Some(String::from_str("positions")),
        positions_view,
        0,
        vcount,
        min,
        max,
    );
    let normal_accessor = g.push_accessor_vec3(
        Some(String::from_str("normals")),
        normals_view,
        0,
        vcount,
        None,
        None,
    );
    let indices_view = g.push_buffer_with_view(
        Some(String::from_str("indices")),
        indices,
        Some(Target::ElementArrayBuffer),
        None,
    );
    let index_accessor = g.push_accessor_u32(
        Some(String::from_str("indices")),
        indices_view,
        0,
        nb_indices,
    );
    let primitive = Primitive {
        position: Some(position_accessor),
        normal: Some(normal_accessor),
        indices: Some(index_accessor),
    };
    let mut primitives: Vec<Primitive> = Vec::new();
    primitives.push(primitive);
    let node_name = String::from_str(mesh_name.as_str());
    let mesh = g.push_mesh(Some(mesh_name), primitives, None);
    let node = g.push_node(Some(node_name), Some(mesh), None, None);
    let mut scene_nodes: Vec<usize> = Vec::new();
    scene_nodes.push(node);
    let scene = g.push_scene(scene_nodes);
    g.set_default_scene(Some(scene));
    proof {
        assert(g.scenes@[0].nodes@ =~= seq![0usize]);
        crate::enc::lemma_words_bytes_len(positions@);
        crate::enc::lemma_words_bytes_len(normals@);
        crate::enc::lemma_words_bytes_len(indices@);
        assert(g.buffers@[0].data@.len() == 4 * positions@.len());
        assert(g.buffers@[1].data@.len() == 4 * normals@.len());
        assert(g.buffers@[2].data@.len() == 4 * indices@.len());
        assert(g.views@[0].byte_length == 4 * positions@.len());
        assert(g.views@[1].byte_length == 4 * normals@.len());
        assert(g.views@[2].byte_length == 4 * indices@.len());
        assert(vcount * 12 <= 4 * positions@.len()) by (nonlinear_arith)
            requires
                vcount == positions@.len() / 3,
                positions@.len() % 3 == 0,
        ;
        assert(crate::doc::view_ok(g.views@[0], g.buffers@));
        assert(crate::doc::view_ok(g.views@[1], g.buffers@));
        assert(crate::doc::view_ok(g.views@[2], g.buffers@));
        if bounds_ok(min) && bounds_ok(max) {
            assert(crate::doc::accessor_ok(g.accessors@[0], g.views@));
            assert(crate::doc::accessor_ok(g.accessors@[1], g.views@));
            assert(crate::doc::accessor_ok(g.accessors@[2], g.views@));
            assert(crate::doc::mesh_ok(g.meshes@[0], 3));
            assert(crate::doc::node_valid(g.nodes@[0], 1, 1));
            assert(crate::doc::scene_ok(g.scenes@[0], 1));
            assert(g.valid());
        }
    }
    Ok(g)
}

} // verus!
