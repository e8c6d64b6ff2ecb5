use stl2gltf::convert::convert_mesh_to_gltf;
use stl2gltf::doc::{GltfBuilder, GltfError, Vec3Text};

fn text(s: &str) -> String {
    s.to_string()
}

fn bounds(x: &str, y: &str, z: &str) -> Vec3Text {
    Vec3Text { x: text(x), y: text(y), z: text(z) }
}

fn vec3_bits(vs: &[[f32; 3]]) -> Vec<u32> {
    let mut out = Vec::new();
    for v in vs {
        out.push(v[0].to_bits());
        out.push(v[1].to_bits());
        out.push(v[2].to_bits());
    }
    out
}

/// The single-triangle mesh: vertices [[0,0,0],[1,0,0],[0,1,0]], one
/// face {vertices: [0,1,2], normal: [0,0,1]}, so every vertex normal is
/// [0,0,1] and the bounding box is min [0,0,0], max [1,1,0].
fn triangle() -> GltfBuilder {
    let positions = vec3_bits(&[[0.0, 0.0, 0.0], [1.0, 0.0, 0.0], [0.0, 1.0, 0.0]]);
    let normals = vec3_bits(&[[0.0, 0.0, 1.0], [0.0, 0.0, 1.0], [0.0, 0.0, 1.0]]);
    let indices = vec![0u32, 1, 2];
    convert_mesh_to_gltf(
        text("triangle"),
        positions,
        normals,
        indices,
        Some(bounds("0", "0", "0")),
        Some(bounds("1", "1", "0")),
    )
    .unwrap()
}

fn le32_at(bytes: &[u8], at: usize) -> u32 {
    u32::from_le_bytes([bytes[at], bytes[at + 1], bytes[at + 2], bytes[at + 3]])
}

#[test]
fn triangle_document_shape() {
    let g = triangle();
    assert_eq!(g.meshes.len(), 1);
    assert_eq!(g.meshes[0].primitives.len(), 1);
    assert_eq!(g.meshes[0].primitives[0].position, Some(0));
    assert_eq!(g.meshes[0].primitives[0].normal, Some(1));
    assert_eq!(g.meshes[0].primitives[0].indices, Some(2));
    assert_eq!(g.accessors[2].count, 3);
    assert_eq!(g.scenes.len(), 1);
    assert_eq!(g.default_scene, Some(0));
    assert_eq!(g.nodes[0].name.as_deref(), Some("triangle"));
    assert_eq!(g.accessors[0].min.as_ref().unwrap().x, "0");
    assert_eq!(g.accessors[0].max.as_ref().unwrap().x, "1");
    assert!(g.check_valid());
}

#[test]
fn misshapen_geometry_is_rejected() {
    assert!(matches!(
        convert_mesh_to_gltf(text("t"), vec![1, 2], vec![1, 2], vec![0], None, None),
        Err(GltfError::Inconsistent)
    ));
    assert!(matches!(
        convert_mesh_to_gltf(text("t"), vec![1, 2, 3], vec![1, 2], vec![0], None, None),
        Err(GltfError::Inconsistent)
    ));
}

#[test]
fn package_header_declares_the_file_length() {
    let g = triangle();
    let bytes = g.to_glb().unwrap();
    assert_eq!(&bytes[0..4], b"glTF");
    assert_eq!(le32_at(&bytes, 4), 2);
    assert_eq!(le32_at(&bytes, 8) as usize, bytes.len());
    let jlen = le32_at(&bytes, 12) as usize;
    assert_eq!(&bytes[16..20], b"JSON");
    assert_eq!(jlen % 4, 0);
    let blen = le32_at(&bytes, 20 + jlen) as usize;
    assert_eq!(blen % 4, 0);
    assert_eq!(&bytes[24 + jlen..28 + jlen], b"BIN\0");
    assert_eq!(28 + jlen + blen, bytes.len());
}

#[test]
fn package_is_a_readable_package() {
    let g = triangle();
    let bytes = g.to_glb().unwrap();
    let glb = gltf::Glb::from_slice(&bytes).unwrap();
    assert_eq!(glb.header.length as usize, bytes.len());
    let bin = glb.bin.unwrap();
    let total: usize = g.buffers.iter().map(|b| b.data.len()).sum();
    assert_eq!(&bin[..total], &g.buffers.iter().flat_map(|b| b.data.clone()).collect::<Vec<u8>>()[..]);
}

#[test]
fn package_round_trips_through_parse() {
    let g = triangle();
    let bytes = g.to_glb().unwrap();
    let (json_chunk, bin_chunk) = stl2gltf::glb::parse_glb(&bytes).unwrap();
    let fresh_json = g.to_gltf_json().unwrap();
    assert_eq!(&json_chunk[..fresh_json.len()], &fresh_json[..]);
    assert!(json_chunk[fresh_json.len()..].iter().all(|b| *b == b' '));
    let flat: Vec<u8> = g.buffers.iter().flat_map(|b| b.data.clone()).collect();
    assert_eq!(&bin_chunk[..flat.len()], &flat[..]);
    assert!(bin_chunk[flat.len()..].iter().all(|b| *b == 0));
    assert!(stl2gltf::glb::parse_glb(&bytes[..bytes.len() - 1]).is_none());
}

#[test]
fn embedded_json_reproduces_the_graph() {
    let g = triangle();
    let bytes = g.to_glb().unwrap();
    let jlen = le32_at(&bytes, 12) as usize;
    let doc: serde_json::Value = serde_json::from_slice(&bytes[20..20 + jlen]).unwrap();
    assert_eq!(doc["asset"]["version"].as_str(), Some("2.0"));
    assert_eq!(doc["buffers"].as_array().unwrap().len(), g.buffers.len());
    assert_eq!(doc["bufferViews"].as_array().unwrap().len(), g.views.len());
    assert_eq!(doc["accessors"].as_array().unwrap().len(), g.accessors.len());
    for (i, b) in g.buffers.iter().enumerate() {
        assert_eq!(doc["buffers"][i]["byteLength"].as_u64(), Some(b.data.len() as u64));
    }
    for (i, v) in g.views.iter().enumerate() {
        assert_eq!(doc["bufferViews"][i]["buffer"].as_u64(), Some(v.buffer as u64));
        assert_eq!(doc["bufferViews"][i]["byteOffset"].as_u64(), Some(v.byte_offset as u64));
        assert_eq!(doc["bufferViews"][i]["byteLength"].as_u64(), Some(v.byte_length as u64));
    }
    assert_eq!(doc["accessors"][0]["componentType"].as_u64(), Some(5126));
    assert_eq!(doc["accessors"][0]["type"].as_str(), Some("VEC3"));
    assert_eq!(doc["accessors"][0]["min"][0].as_u64(), Some(0));
    assert_eq!(doc["accessors"][0]["max"][0].as_u64(), Some(1));
    assert_eq!(doc["accessors"][2]["componentType"].as_u64(), Some(5125));
    assert_eq!(doc["accessors"][2]["type"].as_str(), Some("SCALAR"));
    assert_eq!(doc["accessors"][2]["count"].as_u64(), Some(3));
    assert_eq!(doc["bufferViews"][2]["target"].as_u64(), Some(34963));
    assert_eq!(doc["meshes"][0]["primitives"][0]["attributes"]["POSITION"].as_u64(), Some(0));
    assert_eq!(doc["meshes"][0]["primitives"][0]["attributes"]["NORMAL"].as_u64(), Some(1));
    assert_eq!(doc["meshes"][0]["primitives"][0]["indices"].as_u64(), Some(2));
    assert_eq!(doc["meshes"][0]["primitives"][0]["mode"].as_u64(), Some(4));
    assert_eq!(doc["nodes"][0]["mesh"].as_u64(), Some(0));
    assert_eq!(doc["scenes"][0]["nodes"][0].as_u64(), Some(0));
    assert_eq!(doc["scene"].as_u64(), Some(0));
}

#[test]
fn merge_rewrites_offsets_and_keeps_content() {
    let g = triangle();
    let before: Vec<Vec<u8>> = g
        .views
        .iter()
        .map(|v| {
            g.buffers[v.buffer].data[v.byte_offset..v.byte_offset + v.byte_length].to_vec()
        })
        .collect();
    let m = g.merge_gltf_buffers().unwrap();
    assert_eq!(m.buffers.len(), 1);
    assert_eq!(m.buffers[0].data.len(), 36 + 36 + 12);
    for (i, v) in m.views.iter().enumerate() {
        assert_eq!(v.buffer, 0);
        assert_eq!(v.byte_offset % 4, 0);
        let after = &m.buffers[0].data[v.byte_offset..v.byte_offset + v.byte_length];
        assert_eq!(after, &before[i][..]);
    }
    assert!(m.check_valid());
}

#[test]
fn split_export_of_the_triangle() {
    let g = triangle();
    let mut m = g.merge_gltf_buffers().unwrap();
    m.set_buffer_uri(0, Some(text("t.bin"))).unwrap();
    let files = m.buffer_files().unwrap();
    assert_eq!(files.len(), 1);
    assert_eq!(files[0].0, "t.bin");
    let json = String::from_utf8(m.to_gltf_json().unwrap()).unwrap();
    let doc: serde_json::Value = serde_json::from_str(&json).unwrap();
    assert_eq!(doc["buffers"].as_array().unwrap().len(), 1);
    assert_eq!(doc["buffers"][0]["uri"].as_str(), Some("t.bin"));
    assert_eq!(doc["buffers"][0]["byteLength"].as_u64(), Some(files[0].1.len() as u64));
}
