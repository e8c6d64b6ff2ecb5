use stl2gltf::doc::{GltfBuilder, Primitive, Target};

fn text(s: &str) -> String {
    s.to_string()
}

fn to_value(g: &GltfBuilder) -> serde_json::Value {
    let bytes = g.to_gltf_json().unwrap();
    serde_json::from_slice(&bytes).unwrap()
}

#[test]
fn node_member_combinations() {
    let mut g = GltfBuilder::new();
    g.push_node(None, None, None, None);
    g.push_node(Some(text("leaf")), None, None, None);
    g.push_node(None, None, None, Some(vec![0, 1]));
    g.push_node(Some(text("parent")), None, None, Some(vec![2]));
    let doc = to_value(&g);
    let nodes = doc["nodes"].as_array().unwrap();
    assert_eq!(nodes.len(), 4);
    assert!(nodes[0].as_object().unwrap().is_empty());
    assert_eq!(nodes[1]["name"].as_str(), Some("leaf"));
    assert_eq!(nodes[2]["children"][0].as_u64(), Some(0));
    assert_eq!(nodes[2]["children"][1].as_u64(), Some(1));
    assert_eq!(nodes[3]["name"].as_str(), Some("parent"));
    assert_eq!(nodes[3]["children"][0].as_u64(), Some(2));
}

#[test]
fn stride_and_targets_appear_in_views() {
    let mut g = GltfBuilder::new();
    g.push_buffer_with_view(None, vec![1, 2, 3, 4, 5, 6], Some(Target::ArrayBuffer), Some(12));
    g.push_buffer_with_view(None, vec![7], None, None);
    let doc = to_value(&g);
    assert_eq!(doc["bufferViews"][0]["byteStride"].as_u64(), Some(12));
    assert_eq!(doc["bufferViews"][0]["target"].as_u64(), Some(34962));
    assert!(doc["bufferViews"][1].get("byteStride").is_none());
    assert!(doc["bufferViews"][1].get("target").is_none());
    assert!(doc["buffers"][0].get("name").is_none());
    assert!(doc["buffers"][0].get("uri").is_none());
}

#[test]
fn a_mesh_can_hold_several_primitives() {
    let mut g = GltfBuilder::new();
    let v = g.push_buffer_with_view(None, vec![0; 9], None, None);
    let a = g.push_accessor_vec3(None, v, 0, 3, None, None);
    let first = Primitive { position: Some(a), normal: None, indices: None };
    let second = Primitive { position: None, normal: Some(a), indices: Some(a) };
    g.push_mesh(None, vec![first, second], None);
    let doc = to_value(&g);
    let prims = doc["meshes"][0]["primitives"].as_array().unwrap();
    assert_eq!(prims.len(), 2);
    assert_eq!(prims[0]["attributes"]["POSITION"].as_u64(), Some(0));
    assert!(prims[0]["attributes"].get("NORMAL").is_none());
    assert!(prims[0].get("indices").is_none());
    assert_eq!(prims[0]["mode"].as_u64(), Some(4));
    assert_eq!(prims[1]["attributes"]["NORMAL"].as_u64(), Some(0));
    assert_eq!(prims[1]["indices"].as_u64(), Some(0));
}

#[test]
fn mesh_weights_are_spliced_verbatim() {
    let mut g = GltfBuilder::new();
    g.push_mesh(None, Vec::new(), Some(vec![text("0.5"), text("1")]));
    let doc = to_value(&g);
    let w = doc["meshes"][0]["weights"].as_array().unwrap();
    assert_eq!(w.len(), 2);
    assert_eq!(w[0].as_f64(), Some(0.5));
    assert_eq!(w[1].as_u64(), Some(1));
}

#[test]
fn a_bad_weight_text_fails_serialization() {
    let mut g = GltfBuilder::new();
    g.push_mesh(None, Vec::new(), Some(vec![text("0.5"), text("oops")]));
    assert!(g.to_gltf_json().is_err());
}

#[test]
fn node_transform_is_a_sixteen_entry_matrix() {
    let mut g = GltfBuilder::new();
    let mut matrix = Vec::new();
    for i in 0..16 {
        matrix.push(text(if i % 5 == 0 { "1" } else { "0" }));
    }
    g.push_node(None, None, Some(matrix), None);
    let doc = to_value(&g);
    let m = doc["nodes"][0]["matrix"].as_array().unwrap();
    assert_eq!(m.len(), 16);
    assert_eq!(m[0].as_u64(), Some(1));
    assert_eq!(m[1].as_u64(), Some(0));
    assert_eq!(m[5].as_u64(), Some(1));

    let mut h = GltfBuilder::new();
    h.push_node(None, None, Some(vec![text("1"), text("0")]), None);
    assert!(h.to_gltf_json().is_err());
}

#[test]
fn a_scene_lists_its_nodes_in_order() {
    let mut g = GltfBuilder::new();
    g.push_node(None, None, None, None);
    g.push_node(None, None, None, None);
    g.push_node(None, None, None, None);
    g.push_scene(vec![2, 0, 1]);
    let doc = to_value(&g);
    let nodes = doc["scenes"][0]["nodes"].as_array().unwrap();
    let listed: Vec<u64> = nodes.iter().map(|n| n.as_u64().unwrap()).collect();
    assert_eq!(listed, vec![2, 0, 1]);
}

#[test]
fn control_characters_in_names_are_escaped() {
    let mut g = GltfBuilder::new();
    g.push_buffer_with_view(Some(text("tab\tand\nnewline")), vec![1], None, None);
    let bytes = g.to_gltf_json().unwrap();
    let json = String::from_utf8(bytes).unwrap();
    assert!(json.contains("\\u0009"));
    assert!(json.contains("\\u000a"));
    let doc: serde_json::Value = serde_json::from_str(&json).unwrap();
    assert_eq!(doc["buffers"][0]["name"].as_str(), Some("tab\tand\nnewline"));
}
