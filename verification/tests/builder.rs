use stl2gltf::doc::{GltfBuilder, GltfError, Target, Vec3Text};
use stl2gltf::enc::is_json_number;
use stl2gltf::{get_extension, FileFormat};

fn text(s: &str) -> String {
    s.to_string()
}

fn bounds(x: &str, y: &str, z: &str) -> Vec3Text {
    Vec3Text { x: text(x), y: text(y), z: text(z) }
}

#[test]
fn extensions() {
    assert_eq!(get_extension(FileFormat::Stl), "stl");
    assert_eq!(get_extension(FileFormat::Gltf), "gltf");
    assert_eq!(get_extension(FileFormat::Glb), "glb");
}

#[test]
fn push_indices_are_monotonic() {
    let mut g = GltfBuilder::new();
    let v0 = g.push_buffer_with_view(Some(text("a")), vec![1, 2, 3], None, None);
    let v1 = g.push_buffer_with_view(None, vec![4], Some(Target::ElementArrayBuffer), None);
    assert_eq!(v0, 0);
    assert_eq!(v1, 1);
    let a0 = g.push_accessor_vec3(None, v0, 0, 1, None, None);
    let a1 = g.push_accessor_u32(None, v1, 0, 1);
    assert_eq!(a0, 0);
    assert_eq!(a1, 1);
    assert_eq!(g.buffers.len(), 2);
    assert_eq!(g.views.len(), 2);
    assert_eq!(g.accessors.len(), 2);
}

#[test]
fn buffer_bytes_are_little_endian() {
    let mut g = GltfBuilder::new();
    let one = 1.0f32.to_bits();
    g.push_buffer_with_view(None, vec![one, 0x01020304], None, None);
    assert_eq!(g.buffers[0].data, vec![0x00, 0x00, 0x80, 0x3f, 0x04, 0x03, 0x02, 0x01]);
    assert_eq!(g.views[0].byte_offset, 0);
    assert_eq!(g.views[0].byte_length, 8);
    assert_eq!(g.views[0].buffer, 0);
}

#[test]
fn set_buffer_uri_checks_the_index() {
    let mut g = GltfBuilder::new();
    assert_eq!(g.set_buffer_uri(0, Some(text("x.bin"))), Err(GltfError::BadIndex));
    g.push_buffer_with_view(None, vec![7], None, None);
    assert_eq!(g.set_buffer_uri(0, Some(text("x.bin"))), Ok(()));
    assert_eq!(g.buffers[0].uri.as_deref(), Some("x.bin"));
}

#[test]
fn serializing_a_dangling_view_fails() {
    let mut g = GltfBuilder::new();
    g.push_accessor_u32(None, 5, 0, 1);
    assert_eq!(g.to_gltf_json(), Err(GltfError::Inconsistent));
    assert!(matches!(g.to_glb(), Err(GltfError::Inconsistent)));
}

#[test]
fn serializing_an_oversized_accessor_fails() {
    let mut g = GltfBuilder::new();
    let v = g.push_buffer_with_view(None, vec![1, 2, 3], None, None);
    g.push_accessor_vec3(None, v, 0, 2, None, None);
    assert_eq!(g.to_gltf_json(), Err(GltfError::Inconsistent));
}

#[test]
fn serializing_a_bad_bounds_text_fails() {
    let mut g = GltfBuilder::new();
    let v = g.push_buffer_with_view(None, vec![1, 2, 3], None, None);
    g.push_accessor_vec3(None, v, 0, 1, Some(bounds("0", "not a number", "1")), None);
    assert_eq!(g.to_gltf_json(), Err(GltfError::Inconsistent));
}

#[test]
fn missing_uri_stops_the_split_export() {
    let mut g = GltfBuilder::new();
    g.push_buffer_with_view(None, vec![1], None, None);
    assert_eq!(g.buffer_files(), Err(GltfError::MissingUri));
}

#[test]
fn json_number_grammar() {
    assert!(is_json_number("0"));
    assert!(is_json_number("-0.5"));
    assert!(is_json_number("12.25"));
    assert!(is_json_number("1e9"));
    assert!(is_json_number("-3.5E-2"));
    assert!(!is_json_number(""));
    assert!(!is_json_number("01"));
    assert!(!is_json_number("1."));
    assert!(!is_json_number("+1"));
    assert!(!is_json_number("1e"));
    assert!(!is_json_number("NaN"));
    assert!(!is_json_number("\"0\""));
}

#[test]
fn names_are_escaped_in_json() {
    let mut g = GltfBuilder::new();
    g.push_buffer_with_view(Some(text("a\"b\\c")), vec![1], None, None);
    let json = String::from_utf8(g.to_gltf_json().unwrap()).unwrap();
    assert!(json.contains("\"name\":\"a\\\"b\\\\c\""));
    let parsed: serde_json::Value = serde_json::from_str(&json).unwrap();
    assert_eq!(parsed["buffers"][0]["name"].as_str(), Some("a\"b\\c"));
}

#[test]
fn empty_document_json() {
    let g = GltfBuilder::new();
    let json = String::from_utf8(g.to_gltf_json().unwrap()).unwrap();
    assert_eq!(json, "{\"asset\":{\"version\":\"2.0\"}}");
}

#[test]
fn default_scene_must_exist() {
    let mut g = GltfBuilder::new();
    g.set_default_scene(Some(0));
    assert_eq!(g.to_gltf_json(), Err(GltfError::Inconsistent));
}
