//! The JSON text form of a document, as an exact byte-level
//! specification and an executable serializer proved to produce it.

use vstd::prelude::*;
use vstd::utf8::encode_utf8;
use crate::enc::{dec_bytes, escape_bytes, emit_dec, emit_escaped};
use crate::doc::{
    Accessor, Buffer, BufferView, ComponentType, ElementKind, GltfBuilder, GltfError, Mesh, Node,
    Primitive, Scene, Target, Vec3Text,
};

verus! {

/// The UTF-8 bytes of a text fragment.
pub open spec fn lit(s: &str) -> Seq<u8> {
    encode_utf8(s@)
}

/// Appends the UTF-8 bytes of `s` to `out`.
pub fn emit_lit(out: &mut Vec<u8>, s: &str)
    ensures
        final(out)@ == old(out)@ + lit(s),
{
    out.extend_from_slice(s.as_bytes());
}

/// An optional string member: `<prefix><escaped text>"`, or nothing.
pub open spec fn opt_str_member(prefix: &str, o: Option<String>) -> Seq<u8> {
    match o {
        Some(s) => lit(prefix) + escape_bytes(encode_utf8(s@)) + lit("\""),
        None => Seq::empty(),
    }
}

/// Appends an optional string member to `out`.
pub fn emit_opt_str_member(out: &mut Vec<u8>, prefix: &str, o: &Option<String>)
    ensures
        final(out)@ == old(out)@ + opt_str_member(prefix, *o),
{
    match o {
        Some(s) => {
            emit_lit(out, prefix);
            emit_escaped(out, s.as_str().as_bytes());
            emit_lit(out, "\"");
            proof {
                assert(out@ =~= old(out)@ + opt_str_member(prefix, *o));
            }
        },
        None => {},
    }
}

/// An optional numeric member: `<prefix><decimal>`, or nothing.
pub open spec fn opt_num_member(prefix: &str, o: Option<usize>) -> Seq<u8> {
    match o {
        Some(n) => lit(prefix) + dec_bytes(n as nat),
        None => Seq::empty(),
    }
}

/// Appends an optional numeric member to `out`.
pub fn emit_opt_num_member(out: &mut Vec<u8>, prefix: &str, o: &Option<usize>)
    ensures
        final(out)@ == old(out)@ + opt_num_member(prefix, *o),
{
    match o {
        Some(n) => {
            emit_lit(out, prefix);
            emit_dec(out, *n as u64);
            proof {
                assert(out@ =~= old(out)@ + opt_num_member(prefix, *o));
            }
        },
        None => {},
    }
}

/// An optional bounds member: `<prefix><x>,<y>,<z>]`, the three texts
/// spliced verbatim, or nothing.
pub open spec fn opt_bounds_member(prefix: &str, o: Option<Vec3Text>) -> Seq<u8> {
    match o {
        Some(t) => lit(prefix) + encode_utf8(t.x@) + lit(",") + encode_utf8(t.y@) + lit(",")
            + encode_utf8(t.z@) + lit("]"),
        None => Seq::empty(),
    }
}

/// Appends an optional bounds member to `out`.
#[verifier::rlimit(50)]
pub fn emit_opt_bounds_member(out: &mut Vec<u8>, prefix: &str, o: &Option<Vec3Text>)
    ensures
        final(out)@ == old(out)@ + opt_bounds_member(prefix, *o),
{
    match o {
        Some(t) => {
            emit_lit(out, prefix);
            out.extend_from_slice(t.x.as_str().as_bytes());
            emit_lit(out, ",");
            out.extend_from_slice(t.y.as_str().as_bytes());
            emit_lit(out, ",");
            out.extend_from_slice(t.z.as_str().as_bytes());
            emit_lit(out, "]");
            proof {
                assert(out@ =~= old(out)@ + opt_bounds_member(prefix, *o));
            }
        },
        None => {},
    }
}

/// A comma-separated list of number texts, spliced verbatim.
pub open spec fn texts_list(s: Seq<String>) -> Seq<u8>
    decreases s.len(),
{
    if s.len() == 0 {
        Seq::empty()
    } else if s.len() == 1 {
        encode_utf8(s[0]@)
    } else {
        texts_list(s.drop_last()) + lit(",") + encode_utf8(s.last()@)
    }
}

/// An optional number-list member: `<prefix><t0>,<t1>,...]`, the texts
/// spliced verbatim, or nothing.
pub open spec fn opt_texts_member(prefix: &str, o: Option<Vec<String>>) -> Seq<u8> {
    match o {
        Some(v) => lit(prefix) + texts_list(v@) + lit("]"),
        None => Seq::empty(),
    }
}

/// Appends an optional number-list member to `out`.
pub fn emit_opt_texts_member(out: &mut Vec<u8>, prefix: &str, o: &Option<Vec<String>>)
    ensures
        final(out)@ == old(out)@ + opt_texts_member(prefix, *o),
{
    match o {
        Some(v) => {
            let ghost before = out@;
            emit_lit(out, prefix);
            let ghost mid = out@;
            let mut j: usize = 0;
            while j < v.len()
                invariant
                    j <= v@.len(),
                    out@ == mid + texts_list(v@.take(j as int)),
                decreases v@.len() - j,
            {
                if j > 0 {
                    emit_lit(out, ",");
                }
                out.extend_from_slice(v[j].as_str().as_bytes());
                proof {
                    assert(v@.take(j + 1 as int).drop_last() =~= v@.take(j as int));
                    assert(v@.take(j + 1 as int).last() == v@[j as int]);
                    assert(out@ =~= mid + texts_list(v@.take(j + 1 as int)));
                }
                j = j + 1;
            }
            proof {
                assert(v@.take(v@.len() as int) =~= v@);
            }
            emit_lit(out, "]");
            proof {
                assert(out@ =~= before + opt_texts_member(prefix, *o));
            }
        },
        None => {},
    }
}

/// The JSON object of one buffer.
pub open spec fn json_buffer(b: Buffer) -> Seq<u8> {
    lit("{\"byteLength\":") + dec_bytes(b.data@.len()) + opt_str_member(",\"name\":\"", b.name)
        + opt_str_member(",\"uri\":\"", b.uri) + lit("}")
}

/// The JSON object of one buffer, as fresh bytes.
pub fn buffer_json(b: &Buffer) -> (r: Vec<u8>)
    ensures
        r@ == json_buffer(*b),
{
    let mut out: Vec<u8> = Vec::new();
    emit_lit(&mut out, "{\"byteLength\":");
    proof {
        assert(out@ =~= lit("{\"byteLength\":"));
    }
    emit_dec(&mut out, b.data.len() as u64);
    emit_opt_str_member(&mut out, ",\"name\":\"", &b.name);
    emit_opt_str_member(&mut out, ",\"uri\":\"", &b.uri);
    emit_lit(&mut out, "}");
    out
}

/// The numeric tag of a view target.
pub open spec fn target_code(t: Target) -> nat {
    match t {
        Target::ArrayBuffer => 34962,
        Target::ElementArrayBuffer => 34963,
    }
}

/// The target member of a buffer view, or nothing.
pub open spec fn opt_target_member(o: Option<Target>) -> Seq<u8> {
    match o {
        Some(t) => lit(",\"target\":") + dec_bytes(target_code(t)),
        None => Seq::empty(),
    }
}

/// The JSON object of one buffer view.
pub open spec fn json_view(v: BufferView) -> Seq<u8> {
    lit("{\"buffer\":") + dec_bytes(v.buffer as nat) + lit(",\"byteLength\":") + dec_bytes(
        v.byte_length as nat,
    ) + lit(",\"byteOffset\":") + dec_bytes(v.byte_offset as nat) + opt_num_member(
        ",\"byteStride\":",
        v.byte_stride,
    ) + opt_target_member(v.target) + lit("}")
}

/// The JSON object of one buffer view, as fresh bytes.
pub fn view_json(v: &BufferView) -> (r: Vec<u8>)
    ensures
        r@ == json_view(*v),
{
    let mut out: Vec<u8> = Vec::new();
    emit_lit(&mut out, "{\"buffer\":");
    proof {
        assert(out@ =~= lit("{\"buffer\":"));
    }
    emit_dec(&mut out, v.buffer as u64);
    emit_lit(&mut out, ",\"byteLength\":");
    emit_dec(&mut out, v.byte_length as u64);
    emit_lit(&mut out, ",\"byteOffset\":");
    emit_dec(&mut out, v.byte_offset as u64);
    emit_opt_num_member(&mut out, ",\"byteStride\":", &v.byte_stride);
    match v.target {
        Some(t) => {
            let ghost before = out@;
            emit_lit(&mut out, ",\"target\":");
            emit_dec(
                &mut out,
                match t {
                    Target::ArrayBuffer => 34962,
                    Target::ElementArrayBuffer => 34963,
                },
            );
            proof {
                assert(out@ =~= before + opt_target_member(v.target));
            }
        },
        None => {},
    }
    emit_lit(&mut out, "}");
    out
}

/// The numeric tag of a component type.
pub open spec fn component_code(c: ComponentType) -> nat {
    match c {
        ComponentType::Float => 5126,
        ComponentType::UnsignedInt => 5125,
    }
}

/// The schema name of an element shape.
pub open spec fn kind_text(k: ElementKind) -> Seq<u8> {
    match k {
        ElementKind::Scalar => lit("SCALAR"),
        ElementKind::Vec3 => lit("VEC3"),
    }
}

/// The JSON object of one accessor.
pub open spec fn json_accessor(a: Accessor) -> Seq<u8> {
    lit("{\"bufferView\":") + dec_bytes(a.view as nat) + lit(",\"byteOffset\":") + dec_bytes(
        a.byte_offset as nat,
    ) + lit(",\"componentType\":") + dec_bytes(component_code(a.component)) + lit(",\"count\":")
        + dec_bytes(a.count as nat) + lit(",\"type\":\"") + kind_text(a.kind) + lit("\"")
        + opt_bounds_member(",\"min\":[", a.min) + opt_bounds_member(",\"max\":[", a.max)
        + opt_str_member(",\"name\":\"", a.name) + lit("}")
}

/// The JSON object of one accessor, as fresh bytes.
pub fn accessor_json(a: &Accessor) -> (r: Vec<u8>)
    ensures
        r@ == json_accessor(*a),
{
    let mut out: Vec<u8> = Vec::new();
    emit_lit(&mut out, "{\"bufferView\":");
    proof {
        assert(out@ =~= lit("{\"bufferView\":"));
    }
    emit_dec(&mut out, a.view as u64);
    emit_lit(&mut out, ",\"byteOffset\":");
    emit_dec(&mut out, a.byte_offset as u64);
    emit_lit(&mut out, ",\"componentType\":");
    emit_dec(
        &mut out,
        match a.component {
            ComponentType::Float => 5126,
            ComponentType::UnsignedInt => 5125,
        },
    );
    emit_lit(&mut out, ",\"count\":");
    emit_dec(&mut out, a.count as u64);
    emit_lit(&mut out, ",\"type\":\"");
    match a.kind {
        ElementKind::Scalar => emit_lit(&mut out, "SCALAR"),
        ElementKind::Vec3 => emit_lit(&mut out, "VEC3"),
    }
    emit_lit(&mut out, "\"");
    emit_opt_bounds_member(&mut out, ",\"min\":[", &a.min);
    emit_opt_bounds_member(&mut out, ",\"max\":[", &a.max);
    emit_opt_str_member(&mut out, ",\"name\":\"", &a.name);
    emit_lit(&mut out, "}");
    out
}

/// The attribute members of one primitive.
pub open spec fn json_attributes(p: Primitive) -> Seq<u8> {
    match (p.position, p.normal) {
        (Some(a), Some(b)) => lit("\"POSITION\":") + dec_bytes(a as nat) + lit(",\"NORMAL\":")
            + dec_bytes(b as nat),
        (Some(a), None) => lit("\"POSITION\":") + dec_bytes(a as nat),
        (None, Some(b)) => lit("\"NORMAL\":") + dec_bytes(b as nat),
        (None, None) => Seq::empty(),
    }
}

/// The JSON object of one primitive; the draw mode is fixed to
/// triangles.
pub open spec fn json_primitive(p: Primitive) -> Seq<u8> {
    lit("{\"attributes\":{") + json_attributes(p) + lit("}") + opt_num_member(
        ",\"indices\":",
        p.indices,
    ) + lit(",\"mode\":4}")
}

/// The JSON object of one primitive, as fresh bytes.
pub fn primitive_json(p: &Primitive) -> (r: Vec<u8>)
    ensures
        r@ == json_primitive(*p),
{
    let mut out: Vec<u8> = Vec::new();
    emit_lit(&mut out, "{\"attributes\":{");
    proof {
        assert(out@ =~= lit("{\"attributes\":{"));
    }
    let ghost before = out@;
    match (p.position, p.normal) {
        (Some(a), Some(b)) => {
            emit_lit(&mut out, "\"POSITION\":");
            emit_dec(&mut out, a as u64);
            emit_lit(&mut out, ",\"NORMAL\":");
            emit_dec(&mut out, b as u64);
        },
        (Some(a), None) => {
            emit_lit(&mut out, "\"POSITION\":");
            emit_dec(&mut out, a as u64);
        },
        (None, Some(b)) => {
            emit_lit(&mut out, "\"NORMAL\":");
            emit_dec(&mut out, b as u64);
        },
        (None, None) => {},
    }
    proof {
        assert(out@ =~= before + json_attributes(*p));
    }
    emit_lit(&mut out, "}");
    emit_opt_num_member(&mut out, ",\"indices\":", &p.indices);
    emit_lit(&mut out, ",\"mode\":4}");
    out
}

/// A comma-separated list of primitive objects.
pub open spec fn json_primitives(s: Seq<Primitive>) -> Seq<u8>
    decreases s.len(),
{
    if s.len() == 0 {
        Seq::empty()
    } else if s.len() == 1 {
        json_primitive(s[0])
    } else {
        json_primitives(s.drop_last()) + lit(",") + json_primitive(s.last())
    }
}

/// Appends a comma-separated list of primitive objects.
pub fn emit_primitives(out: &mut Vec<u8>, s: &Vec<Primitive>)
    ensures
        final(out)@ == old(out)@ + json_primitives(s@),
{
    let ghost pre = out@;
    let mut i: usize = 0;
    while i < s.len()
        invariant
            i <= s@.len(),
            out@ == pre + json_primitives(s@.take(i as int)),
        decreases s@.len() - i,
    {
        if i > 0 {
            emit_lit(out, ",");
        }
        let mut piece = primitive_json(&s[i]);
        out.append(&mut piece);
        proof {
            assert(s@.take(i + 1 as int).drop_last() =~= s@.take(i as int));
            assert(s@.take(i + 1 as int).last() == s@[i as int]);
            assert(out@ =~= pre + json_primitives(s@.take(i + 1 as int)));
        }
        i = i + 1;
    }
    proof {
        assert(s@.take(s@.len() as int) =~= s@);
    }
}

/// The JSON object of one mesh.
pub open spec fn json_mesh(m: Mesh) -> Seq<u8> {
    lit("{\"primitives\":[") + json_primitives(m.primitives@) + lit("]") + opt_texts_member(
        ",\"weights\":[",
        m.weights,
    ) + opt_str_member(",\"name\":\"", m.name) + lit("}")
}

/// The JSON object of one mesh, as fresh bytes.
pub fn mesh_json(m: &Mesh) -> (r: Vec<u8>)
    ensures
        r@ == json_mesh(*m),
{
    let mut out: Vec<u8> = Vec::new();
    emit_lit(&mut out, "{\"primitives\":[");
    proof {
        assert(out@ =~= lit("{\"primitives\":["));
    }
    emit_primitives(&mut out, &m.primitives);
    emit_lit(&mut out, "]");
    emit_opt_texts_member(&mut out, ",\"weights\":[", &m.weights);
    emit_opt_str_member(&mut out, ",\"name\":\"", &m.name);
    emit_lit(&mut out, "}");
    out
}

/// A comma-separated list of decimal indices.
pub open spec fn json_indices(s: Seq<usize>) -> Seq<u8>
    decreases s.len(),
{
    if s.len() == 0 {
        Seq::empty()
    } else if s.len() == 1 {
        dec_bytes(s[0] as nat)
    } else {
        json_indices(s.drop_last()) + lit(",") + dec_bytes(s.last() as nat)
    }
}

/// Appends a comma-separated list of decimal indices.
pub fn emit_indices(out: &mut Vec<u8>, s: &Vec<usize>)
    ensures
        final(out)@ == old(out)@ + json_indices(s@),
{
    let ghost pre = out@;
    let mut i: usize = 0;
    while i < s.len()
        invariant
            i <= s@.len(),
            out@ == pre + json_indices(s@.take(i as int)),
        decreases s@.len() - i,
    {
        if i > 0 {
            emit_lit(out, ",");
        }
        emit_dec(out, s[i] as u64);
        proof {
            assert(s@.take(i + 1 as int).drop_last() =~= s@.take(i as int));
            assert(s@.take(i + 1 as int).last() == s@[i as int]);
            assert(out@ =~= pre + json_indices(s@.take(i + 1 as int)));
        }
        i = i + 1;
    }
    proof {
        assert(s@.take(s@.len() as int) =~= s@);
    }
}

/// Fragments joined by commas.
pub open spec fn comma_join(parts: Seq<Seq<u8>>) -> Seq<u8>
    decreases parts.len(),
{
    if parts.len() == 0 {
        Seq::empty()
    } else if parts.len() == 1 {
        parts[0]
    } else {
        comma_join(parts.drop_last()) + lit(",") + parts.last()
    }
}

/// The members a node's JSON object holds, in order, one fragment per
/// member that is present.
pub open spec fn node_members(n: Node) -> Seq<Seq<u8>> {
    let s0 = Seq::<Seq<u8>>::empty();
    let s1 = match n.mesh {
        Some(m) => s0.push(lit("\"mesh\":") + dec_bytes(m as nat)),
        None => s0,
    };
    let s2 = match n.transform {
        Some(t) => s1.push(lit("\"matrix\":[") + texts_list(t@) + lit("]")),
        None => s1,
    };
    let s3 = match n.children {
        Some(cs) => s2.push(lit("\"children\":[") + json_indices(cs@) + lit("]")),
        None => s2,
    };
    match n.name {
        Some(nm) => s3.push(lit("\"name\":\"") + escape_bytes(encode_utf8(nm@)) + lit("\"")),
        None => s3,
    }
}

/// The JSON object of one node: its members, any of which may be
/// absent, joined by commas.
pub open spec fn json_node(n: Node) -> Seq<u8> {
    lit("{") + comma_join(node_members(n)) + lit("}")
}

/// The comma-joined members of one node, as fresh bytes.
#[verifier::rlimit(100)]
fn node_members_json(n: &Node) -> (r: Vec<u8>)
    ensures
        r@ == comma_join(node_members(*n)),
{
    let mut body: Vec<u8> = Vec::new();
    let mut any = false;
    let ghost mut parts = Seq::<Seq<u8>>::empty();
    match n.mesh {
        Some(m) => {
            emit_lit(&mut body, "\"mesh\":");
            proof {
                assert(body@ =~= lit("\"mesh\":"));
            }
            emit_dec(&mut body, m as u64);
            proof {
                parts = parts.push(lit("\"mesh\":") + dec_bytes(m as nat));
                assert(body@ =~= comma_join(parts));
            }
            any = true;
        },
        None => {},
    }
    match &n.transform {
        Some(t) => {
            if any {
                emit_lit(&mut body, ",");
            }
            let ghost mid = body@;
            emit_lit(&mut body, "\"matrix\":[");
            let mut j: usize = 0;
            while j < t.len()
                invariant
                    j <= t@.len(),
                    body@ == mid + lit("\"matrix\":[") + texts_list(t@.take(j as int)),
                decreases t@.len() - j,
            {
                if j > 0 {
                    emit_lit(&mut body, ",");
                }
                body.extend_from_slice(t[j].as_str().as_bytes());
                proof {
                    assert(t@.take(j + 1 as int).drop_last() =~= t@.take(j as int));
                    assert(t@.take(j + 1 as int).last() == t@[j as int]);
                    assert(body@ =~= mid + lit("\"matrix\":[") + texts_list(t@.take(j + 1 as int)));
                }
                j = j + 1;
            }
            proof {
                assert(t@.take(t@.len() as int) =~= t@);
            }
            emit_lit(&mut body, "]");
            proof {
                let ghost prev = parts;
                parts = prev.push(lit("\"matrix\":[") + texts_list(t@) + lit("]"));
                assert(parts.drop_last() =~= prev);
                assert(body@ =~= comma_join(parts));
            }
            any = true;
        },
        None => {},
    }
    match &n.children {
        Some(cs) => {
            if any {
                emit_lit(&mut body, ",");
            }
            let ghost mid = body@;
            emit_lit(&mut body, "\"children\":[");
            emit_indices(&mut body, cs);
            emit_lit(&mut body, "]");
            proof {
                let ghost prev = parts;
                parts = prev.push(lit("\"children\":[") + json_indices(cs@) + lit("]"));
                assert(parts.drop_last() =~= prev);
                assert(body@ =~= comma_join(parts));
            }
            any = true;
        },
        None => {},
    }
    match &n.name {
        Some(nm) => {
            if any {
                emit_lit(&mut body, ",");
            }
            let ghost mid = body@;
            emit_lit(&mut body, "\"name\":\"");
            emit_escaped(&mut body, nm.as_str().as_bytes());
            emit_lit(&mut body, "\"");
            proof {
                let ghost prev = parts;
                parts = prev.push(
                    lit("\"name\":\"") + escape_bytes(encode_utf8(nm@)) + lit("\""),
                );
                assert(parts.drop_last() =~= prev);
                assert(body@ =~= comma_join(parts));
            }
        },
        None => {},
    }
    proof {
        assert(parts =~= node_members(*n));
    }
    body
}

/// The JSON object of one node, as fresh bytes.
pub fn node_json(n: &Node) -> (r: Vec<u8>)
    ensures
        r@ == json_node(*n),
{
    let mut out: Vec<u8> = Vec::new();
    emit_lit(&mut out, "{");
    proof {
        assert(out@ =~= lit("{"));
    }
    let mut body = node_members_json(n);
    out.append(&mut body);
    emit_lit(&mut out, "}");
    out
}

/// The JSON object of one scene.
pub open spec fn json_scene(s: Scene) -> Seq<u8> {
    lit("{\"nodes\":[") + json_indices(s.nodes@) + lit("]}")
}

/// The JSON object of one scene, as fresh bytes.
pub fn scene_json(s: &Scene) -> (r: Vec<u8>)
    ensures
        r@ == json_scene(*s),
{
    let mut out: Vec<u8> = Vec::new();
    emit_lit(&mut out, "{\"nodes\":[");
    proof {
        assert(out@ =~= lit("{\"nodes\":["));
    }
    emit_indices(&mut out, &s.nodes);
    emit_lit(&mut out, "]}");
    out
}

/// A comma-separated list of buffer objects.
pub open spec fn json_buffers(s: Seq<Buffer>) -> Seq<u8>
    decreases s.len(),
{
    if s.len() == 0 {
        Seq::empty()
    } else if s.len() == 1 {
        json_buffer(s[0])
    } else {
        json_buffers(s.drop_last()) + lit(",") + json_buffer(s.last())
    }
}

/// A comma-separated list of buffer-view objects.
pub open spec fn json_views(s: Seq<BufferView>) -> Seq<u8>
    decreases s.len(),
{
    if s.len() == 0 {
        Seq::empty()
    } else if s.len() == 1 {
        json_view(s[0])
    } else {
        json_views(s.drop_last()) + lit(",") + json_view(s.last())
    }
}

/// A comma-separated list of accessor objects.
pub open spec fn json_accessors(s: Seq<Accessor>) -> Seq<u8>
    decreases s.len(),
{
    if s.len() == 0 {
        Seq::empty()
    } else if s.len() == 1 {
        json_accessor(s[0])
    } else {
        json_accessors(s.drop_last()) + lit(",") + json_accessor(s.last())
    }
}

/// A comma-separated list of mesh objects.
pub open spec fn json_meshes(s: Seq<Mesh>) -> Seq<u8>
    decreases s.len(),
{
    if s.len() == 0 {
        Seq::empty()
    } else if s.len() == 1 {
        json_mesh(s[0])
    } else {
        json_meshes(s.drop_last()) + lit(",") + json_mesh(s.last())
    }
}

/// A comma-separated list of node objects.
pub open spec fn json_nodes(s: Seq<Node>) -> Seq<u8>
    decreases s.len(),
{
    if s.len() == 0 {
        Seq::empty()
    } else if s.len() == 1 {
        json_node(s[0])
    } else {
        json_nodes(s.drop_last()) + lit(",") + json_node(s.last())
    }
}

/// A comma-separated list of scene objects.
pub open spec fn json_scenes(s: Seq<Scene>) -> Seq<u8>
    decreases s.len(),
{
    if s.len() == 0 {
        Seq::empty()
    } else if s.len() == 1 {
        json_scene(s[0])
    } else {
        json_scenes(s.drop_last()) + lit(",") + json_scene(s.last())
    }
}

/// Appends a comma-separated list of buffer objects.
pub fn emit_buffers(out: &mut Vec<u8>, s: &Vec<Buffer>)
    ensures
        final(out)@ == old(out)@ + json_buffers(s@),
{
    let ghost pre = out@;
    let mut i: usize = 0;
    while i < s.len()
        invariant
            i <= s@.len(),
            out@ == pre + json_buffers(s@.take(i as int)),
        decreases s@.len() - i,
    {
        if i > 0 {
            emit_lit(out, ",");
        }
        let mut piece = buffer_json(&s[i]);
        out.append(&mut piece);
        proof {
            assert(s@.take(i + 1 as int).drop_last() =~= s@.take(i as int));
            assert(s@.take(i + 1 as int).last() == s@[i as int]);
            assert(out@ =~= pre + json_buffers(s@.take(i + 1 as int)));
        }
        i = i + 1;
    }
    proof {
        assert(s@.take(s@.len() as int) =~= s@);
    }
}

/// Appends a comma-separated list of buffer-view objects.
pub fn emit_views(out: &mut Vec<u8>, s: &Vec<BufferView>)
    ensures
        final(out)@ == old(out)@ + json_views(s@),
{
    let ghost pre = out@;
    let mut i: usize = 0;
    while i < s.len()
        invariant
            i <= s@.len(),
            out@ == pre + json_views(s@.take(i as int)),
        decreases s@.len() - i,
    {
        if i > 0 {
            emit_lit(out, ",");
        }
        let mut piece = view_json(&s[i]);
        out.append(&mut piece);
        proof {
            assert(s@.take(i + 1 as int).drop_last() =~= s@.take(i as int));
            assert(s@.take(i + 1 as int).last() == s@[i as int]);
            assert(out@ =~= pre + json_views(s@.take(i + 1 as int)));
        }
        i = i + 1;
    }
    proof {
        assert(s@.take(s@.len() as int) =~= s@);
    }
}

/// Appends a comma-separated list of accessor objects.
pub fn emit_accessors(out: &mut Vec<u8>, s: &Vec<Accessor>)
    ensures
        final(out)@ == old(out)@ + json_accessors(s@),
{
    let ghost pre = out@;
    let mut i: usize = 0;
    while i < s.len()
        invariant
            i <= s@.len(),
            out@ == pre + json_accessors(s@.take(i as int)),
        decreases s@.len() - i,
    {
        if i > 0 {
            emit_lit(out, ",");
        }
        let mut piece = accessor_json(&s[i]);
        out.append(&mut piece);
        proof {
            assert(s@.take(i + 1 as int).drop_last() =~= s@.take(i as int));
            assert(s@.take(i + 1 as int).last() == s@[i as int]);
            assert(out@ =~= pre + json_accessors(s@.take(i + 1 as int)));
        }
        i = i + 1;
    }
    proof {
        assert(s@.take(s@.len() as int) =~= s@);
    }
}

/// Appends a comma-separated list of mesh objects.
pub fn emit_meshes(out: &mut Vec<u8>, s: &Vec<Mesh>)
    ensures
        final(out)@ == old(out)@ + json_meshes(s@),
{
    let ghost pre = out@;
    let mut i: usize = 0;
    while i < s.len()
        invariant
            i <= s@.len(),
            out@ == pre + json_meshes(s@.take(i as int)),
        decreases s@.len() - i,
    {
        if i > 0 {
            emit_lit(out, ",");
        }
        let mut piece = mesh_json(&s[i]);
        out.append(&mut piece);
        proof {
            assert(s@.take(i + 1 as int).drop_last() =~= s@.take(i as int));
            assert(s@.take(i + 1 as int).last() == s@[i as int]);
            assert(out@ =~= pre + json_meshes(s@.take(i + 1 as int)));
        }
        i = i + 1;
    }
    proof {
        assert(s@.take(s@.len() as int) =~= s@);
    }
}

/// Appends a comma-separated list of node objects.
pub fn emit_nodes(out: &mut Vec<u8>, s: &Vec<Node>)
    ensures
        final(out)@ == old(out)@ + json_nodes(s@),
{
    let ghost pre = out@;
    let mut i: usize = 0;
    while i < s.len()
        invariant
            i <= s@.len(),
            out@ == pre + json_nodes(s@.take(i as int)),
        decreases s@.len() - i,
    {
        if i > 0 {
            emit_lit(out, ",");
        }
        let mut piece = node_json(&s[i]);
        out.append(&mut piece);
        proof {
            assert(s@.take(i + 1 as int).drop_last() =~= s@.take(i as int));
            assert(s@.take(i + 1 as int).last() == s@[i as int]);
            assert(out@ =~= pre + json_nodes(s@.take(i + 1 as int)));
        }
        i = i + 1;
    }
    proof {
        assert(s@.take(s@.len() as int) =~= s@);
    }
}

/// Appends a comma-separated list of scene objects.
pub fn emit_scenes(out: &mut Vec<u8>, s: &Vec<Scene>)
    ensures
        final(out)@ == old(out)@ + json_scenes(s@),
{
    let ghost pre = out@;
    let mut i: usize = 0;
    while i < s.len()
        invariant
            i <= s@.len(),
            out@ == pre + json_scenes(s@.take(i as int)),
        decreases s@.len() - i,
    {
        if i > 0 {
            emit_lit(out, ",");
        }
        let mut piece = scene_json(&s[i]);
        out.append(&mut piece);
        proof {
            assert(s@.take(i + 1 as int).drop_last() =~= s@.take(i as int));
            assert(s@.take(i + 1 as int).last() == s@[i as int]);
            assert(out@ =~= pre + json_scenes(s@.take(i + 1 as int)));
        }
        i = i + 1;
    }
    proof {
        assert(s@.take(s@.len() as int) =~= s@);
    }
}

/// The array member of one entity kind, or nothing when the document
/// holds none of that kind.
pub open spec fn opt_array_member(prefix: &str, inner: Seq<u8>, n: nat) -> Seq<u8> {
    if n == 0 {
        Seq::<u8>::empty()
    } else {
        lit(prefix) + inner + lit("]")
    }
}

/// The full JSON document: the fixed asset header, then each non-empty
/// entity array, then the default scene when one is set.
pub open spec fn json_doc(d: GltfBuilder) -> Seq<u8> {
    lit("{\"asset\":{\"version\":\"2.0\"}") + opt_array_member(
        ",\"buffers\":[",
        json_buffers(d.buffers@),
        d.buffers@.len(),
    ) + opt_array_member(",\"bufferViews\":[", json_views(d.views@), d.views@.len())
        + opt_array_member(",\"accessors\":[", json_accessors(d.accessors@), d.accessors@.len())
        + opt_array_member(",\"meshes\":[", json_meshes(d.meshes@), d.meshes@.len())
        + opt_array_member(",\"nodes\":[", json_nodes(d.nodes@), d.nodes@.len())
        + opt_array_member(",\"scenes\":[", json_scenes(d.scenes@), d.scenes@.len())
        + opt_num_member(",\"scene\":", d.default_scene) + lit("}")
}

/// The whole document's JSON text, as fresh bytes.
#[verifier::rlimit(100)]
pub fn doc_json(d: &GltfBuilder) -> (r: Vec<u8>)
    ensures
        r@ == json_doc(*d),
{
    let mut out: Vec<u8> = Vec::new();
    emit_lit(&mut out, "{\"asset\":{\"version\":\"2.0\"}");
    proof {
        assert(out@ =~= lit("{\"asset\":{\"version\":\"2.0\"}"));
    }
    if d.buffers.len() > 0 {
        let mut part: Vec<u8> = Vec::new();
        emit_lit(&mut part, ",\"buffers\":[");
        proof {
            assert(part@ =~= lit(",\"buffers\":["));
        }
        emit_buffers(&mut part, &d.buffers);
        emit_lit(&mut part, "]");
        out.append(&mut part);
    } else {
        proof {
            assert(out@ =~= out@ + opt_array_member(
                ",\"buffers\":[",
                json_buffers(d.buffers@),
                d.buffers@.len(),
            ));
        }
    }
    if d.views.len() > 0 {
        let mut part: Vec<u8> = Vec::new();
        emit_lit(&mut part, ",\"bufferViews\":[");
        proof {
            assert(part@ =~= lit(",\"bufferViews\":["));
        }
        emit_views(&mut part, &d.views);
        emit_lit(&mut part, "]");
        out.append(&mut part);
    } else {
        proof {
            assert(out@ =~= out@ + opt_array_member(
                ",\"bufferViews\":[",
                json_views(d.views@),
                d.views@.len(),
            ));
        }
    }
    if d.accessors.len() > 0 {
        let mut part: Vec<u8> = Vec::new();
        emit_lit(&mut part, ",\"accessors\":[");
        proof {
            assert(part@ =~= lit(",\"accessors\":["));
        }
        emit_accessors(&mut part, &d.accessors);
        emit_lit(&mut part, "]");
        out.append(&mut part);
    } else {
        proof {
            assert(out@ =~= out@ + opt_array_member(
                ",\"accessors\":[",
                json_accessors(d.accessors@),
                d.accessors@.len(),
            ));
        }
    }
    if d.meshes.len() > 0 {
        let mut part: Vec<u8> = Vec::new();
        emit_lit(&mut part, ",\"meshes\":[");
        proof {
            assert(part@ =~= lit(",\"meshes\":["));
        }
        emit_meshes(&mut part, &d.meshes);
        emit_lit(&mut part, "]");
        out.append(&mut part);
    } else {
        proof {
            assert(out@ =~= out@ + opt_array_member(
                ",\"meshes\":[",
                json_meshes(d.meshes@),
                d.meshes@.len(),
            ));
        }
    }
    if d.nodes.len() > 0 {
        let mut part: Vec<u8> = Vec::new();
        emit_lit(&mut part, ",\"nodes\":[");
        proof {
            assert(part@ =~= lit(",\"nodes\":["));
        }
        emit_nodes(&mut part, &d.nodes);
        emit_lit(&mut part, "]");
        out.append(&mut part);
    } else {
        proof {
            assert(out@ =~= out@ + opt_array_member(
                ",\"nodes\":[",
                json_nodes(d.nodes@),
                d.nodes@.len(),
            ));
        }
    }
    if d.scenes.len() > 0 {
        let mut part: Vec<u8> = Vec::new();
        emit_lit(&mut part, ",\"scenes\":[");
        proof {
            assert(part@ =~= lit(",\"scenes\":["));
        }
        emit_scenes(&mut part, &d.scenes);
        emit_lit(&mut part, "]");
        out.append(&mut part);
    } else {
        proof {
            assert(out@ =~= out@ + opt_array_member(
                ",\"scenes\":[",
                json_scenes(d.scenes@),
                d.scenes@.len(),
            ));
        }
    }
    emit_opt_num_member(&mut out, ",\"scene\":", &d.default_scene);
    emit_lit(&mut out, "}");
    out
}

impl GltfBuilder {
    /// Serializes the document's JSON representation. Succeeds exactly
    /// when the document is structurally consistent; the bytes are then
    /// exactly the document's JSON text.
    pub fn to_gltf_json(&self) -> (r: Result<Vec<u8>, GltfError>)
        ensures
            r is Ok <==> self.valid(),
            r matches Ok(v) ==> v@ == json_doc(*self),
            r is Err ==> r == Result::<Vec<u8>, GltfError>::Err(GltfError::Inconsistent),
    {
        if !self.check_valid() {
            return Err(GltfError::Inconsistent);
        }
        Ok(doc_json(self))
    }
}

} // verus!
