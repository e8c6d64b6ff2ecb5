//! The in-memory document model and its append-only builder: buffers,
//! buffer views, typed accessors, meshes, nodes and scenes, every
//! cross-reference a small-integer index into the owning sequence.

use vstd::prelude::*;
use vstd::string::StringExecFns;
use vstd::utf8::encode_utf8;
use crate::enc::{words_bytes, json_num_ok, emit_words, is_json_number};

verus! {

/// The binding point a buffer view is meant for: vertex-attribute data
/// or index data.
#[derive(Debug, Clone, Copy, PartialEq, Eq, Structural)]
pub enum Target {
    ArrayBuffer,
    ElementArrayBuffer,
}

/// How one component of an accessor element is encoded: a 32-bit
/// little-endian IEEE float or a 32-bit little-endian unsigned integer.
/// Either way a component takes four bytes.
#[derive(Debug, Clone, Copy, PartialEq, Eq, Structural)]
pub enum ComponentType {
    Float,
    UnsignedInt,
}

/// The shape of an accessor element: one component or a 3-vector.
#[derive(Debug, Clone, Copy, PartialEq, Eq, Structural)]
pub enum ElementKind {
    Scalar,
    Vec3,
}

/// Per-axis bounds of a vec3 accessor, each axis as the decimal text of
/// a JSON number. The builder attaches them verbatim; the serializers
/// check that each text really spells a JSON number.
#[derive(Debug, Clone)]
pub struct Vec3Text {
    pub x: String,
    pub y: String,
    pub z: String,
}

/// An opaque byte blob, an optional name, and an optional external URI
/// assigned at export time.
#[derive(Debug, Clone)]
pub struct Buffer {
    pub name: Option<String>,
    pub data: Vec<u8>,
    pub uri: Option<String>,
}

/// A byte range `[byte_offset, byte_offset + byte_length)` into one
/// buffer.
#[derive(Debug, Clone)]
pub struct BufferView {
    pub buffer: usize,
    pub byte_offset: usize,
    pub byte_length: usize,
    pub byte_stride: Option<usize>,
    pub target: Option<Target>,
}

/// A typed reading of `count` elements starting `byte_offset` bytes into
/// a buffer view.
#[derive(Debug, Clone)]
pub struct Accessor {
    pub name: Option<String>,
    pub view: usize,
    pub byte_offset: usize,
    pub count: usize,
    pub component: ComponentType,
    pub kind: ElementKind,
    pub min: Option<Vec3Text>,
    pub max: Option<Vec3Text>,
}

/// One drawable unit: attribute accessors, an optional index accessor,
/// drawn as triangles.
#[derive(Debug, Clone)]
pub struct Primitive {
    pub position: Option<usize>,
    pub normal: Option<usize>,
    pub indices: Option<usize>,
}

/// An ordered sequence of primitives plus an optional name and
/// optional morph-target weights, each weight as the decimal text of a
/// JSON number, attached verbatim.
#[derive(Debug, Clone)]
pub struct Mesh {
    pub name: Option<String>,
    pub primitives: Vec<Primitive>,
    pub weights: Option<Vec<String>>,
}

/// A scene-graph node: an optional mesh reference, optional name,
/// optional transform matrix (sixteen entries, each the decimal text of
/// a JSON number, attached verbatim), optional children.
#[derive(Debug, Clone)]
pub struct Node {
    pub name: Option<String>,
    pub mesh: Option<usize>,
    pub transform: Option<Vec<String>>,
    pub children: Option<Vec<usize>>,
}

/// The node indices that participate in one scene.
#[derive(Debug, Clone)]
pub struct Scene {
    pub nodes: Vec<usize>,
}

/// The errors the builder and the serializers report.
#[derive(Debug, Clone, Copy, PartialEq, Eq, Structural)]
pub enum GltfError {
    /// A cross-reference index or byte range falls outside its target
    /// sequence, a bounds, weight or matrix text is not a JSON number,
    /// or a transform matrix does not hold sixteen entries.
    Inconsistent,
    /// The serialized package would not fit the 32-bit length fields.
    TooLarge,
    /// A buffer index given to an operation does not exist.
    BadIndex,
    /// A buffer has no URI assigned at split export.
    MissingUri,
}

/// Size in bytes of one accessor element.
pub open spec fn elem_size(component: ComponentType, kind: ElementKind) -> int {
    match kind {
        ElementKind::Scalar => 4,
        ElementKind::Vec3 => 12,
    }
}

/// The append-only document under assembly.
pub struct GltfBuilder {
    pub buffers: Vec<Buffer>,
    pub views: Vec<BufferView>,
    pub accessors: Vec<Accessor>,
    pub meshes: Vec<Mesh>,
    pub nodes: Vec<Node>,
    pub scenes: Vec<Scene>,
    pub default_scene: Option<usize>,
}

impl GltfBuilder {
    /// Alignment well-formedness: every buffer holds a whole number of
    /// 32-bit words, and every view starts on a 4-byte boundary — so
    /// every view can feed float and 32-bit integer accessors.
    pub open spec fn wf(self) -> bool {
        &&& forall|i: int|
            0 <= i < self.buffers@.len() ==> (#[trigger] self.buffers@[i]).data@.len() % 4 == 0
        &&& forall|i: int|
            0 <= i < self.views@.len() ==> (#[trigger] self.views@[i]).byte_offset % 4 == 0
    }

    /// Structural consistency: every cross-reference lands inside its
    /// target sequence, every byte range inside its buffer or view,
    /// every bounds, weight and matrix text spells a JSON number, and
    /// every transform matrix holds sixteen entries. Checked by the
    /// serializers, not by the push operations.
    pub open spec fn valid(self) -> bool {
        &&& forall|i: int|
            0 <= i < self.views@.len() ==> view_ok(#[trigger] self.views@[i], self.buffers@)
        &&& forall|i: int|
            0 <= i < self.accessors@.len() ==> accessor_ok(#[trigger] self.accessors@[i], self.views@)
        &&& forall|i: int|
            0 <= i < self.meshes@.len() ==> mesh_ok(
                #[trigger] self.meshes@[i],
                self.accessors@.len() as int,
            )
        &&& forall|i: int|
            0 <= i < self.nodes@.len() ==> node_valid(
                #[trigger] self.nodes@[i],
                self.meshes@.len() as int,
                self.nodes@.len() as int,
            )
        &&& forall|i: int|
            0 <= i < self.scenes@.len() ==> scene_ok(
                #[trigger] self.scenes@[i],
                self.nodes@.len() as int,
            )
        &&& match self.default_scene {
            Some(s) => s < self.scenes@.len(),
            None => true,
        }
    }

    /// A fresh, empty document.
    pub fn new() -> (r: Self)
        ensures
            r.buffers@.len() == 0,
            r.views@.len() == 0,
            r.accessors@.len() == 0,
            r.meshes@.len() == 0,
            r.nodes@.len() == 0,
            r.scenes@.len() == 0,
            r.default_scene is None,
            r.wf(),
            r.valid(),
    {
        GltfBuilder {
            buffers: Vec::new(),
            views: Vec::new(),
            accessors: Vec::new(),
            meshes: Vec::new(),
            nodes: Vec::new(),
            scenes: Vec::new(),
            default_scene: None,
        }
    }

    /// Serializes `data` to its natural little-endian byte encoding,
    /// appends a buffer holding exactly those bytes, and appends a view
    /// spanning that whole buffer. Returns the new view's index.
    pub fn push_buffer_with_view(
        &mut self,
        name: Option<String>,
        data: Vec<u32>,
        target: Option<Target>,
        byte_stride: Option<usize>,
    ) -> (vi: usize)
        requires
            old(self).buffers@.len() < usize::MAX,
            old(self).views@.len() < usize::MAX,
            4 * data@.len() <= usize::MAX,
        ensures
            vi == old(self).views@.len(),
            final(self).buffers@.len() == old(self).buffers@.len() + 1,
            final(self).buffers@.drop_last() == old(self).buffers@,
            final(self).buffers@.last().name == name,
            final(self).buffers@.last().data@ == words_bytes(data@),
            final(self).buffers@.last().uri is None,
            final(self).views@.len() == old(self).views@.len() + 1,
            final(self).views@.drop_last() == old(self).views@,
            final(self).views@.last() == (BufferView {
                buffer: old(self).buffers@.len() as usize,
                byte_offset: 0,
                byte_length: (4 * data@.len()) as usize,
                byte_stride,
                target,
            }),
            final(self).accessors == old(self).accessors,
            final(self).meshes == old(self).meshes,
            final(self).nodes == old(self).nodes,
            final(self).scenes == old(self).scenes,
            final(self).default_scene == old(self).default_scene,
            old(self).wf() ==> final(self).wf(),
    {
        let mut bytes: Vec<u8> = Vec::new();
        emit_words(&mut bytes, &data);
        proof {
            crate::enc::lemma_words_bytes_len(data@);
        }
        let byte_length = bytes.len();
        let buffer_index = self.buffers.len();
        self.buffers.push(Buffer { name, data: bytes, uri: None });
        let vi = self.views.len();
        self.views.push(
            BufferView { buffer: buffer_index, byte_offset: 0, byte_length, byte_stride, target },
        );
        proof {
            assert(self.buffers@.drop_last() =~= old(self).buffers@);
            assert(self.views@.drop_last() =~= old(self).views@);
        }
        vi
    }

    /// Appends an accessor of 3-component float elements reading `count`
    /// elements starting `byte_offset` bytes into view `view`; `min` and
    /// `max` are attached verbatim. Returns the accessor's index.
    pub fn push_accessor_vec3(
        &mut self,
        name: Option<String>,
        view: usize,
        byte_offset: usize,
        count: usize,
        min: Option<Vec3Text>,
        max: Option<Vec3Text>,
    ) -> (ai: usize)
        requires
            old(self).accessors@.len() < usize::MAX,
        ensures
            ai == old(self).accessors@.len(),
            final(self).accessors@.len() == old(self).accessors@.len() + 1,
            final(self).accessors@.drop_last() == old(self).accessors@,
            final(self).accessors@.last() == (Accessor {
                name,
                view,
                byte_offset,
                count,
                component: ComponentType::Float,
                kind: ElementKind::Vec3,
                min,
                max,
            }),
            final(self).buffers == old(self).buffers,
            final(self).views == old(self).views,
            final(self).meshes == old(self).meshes,
            final(self).nodes == old(self).nodes,
            final(self).scenes == old(self).scenes,
            final(self).default_scene == old(self).default_scene,
            old(self).wf() ==> final(self).wf(),
    {
        let ai = self.accessors.len();
        self.accessors.push(
            Accessor {
                name,
                view,
                byte_offset,
                count,
                component: ComponentType::Float,
                kind: ElementKind::Vec3,
                min,
                max,
            },
        );
        proof {
            assert(self.accessors@.drop_last() =~= old(self).accessors@);
        }
        ai
    }

    /// Appends a scalar unsigned-32-bit accessor, as used for triangle
    /// index data. Returns the accessor's index.
    pub fn push_accessor_u32(
        &mut self,
        name: Option<String>,
        view: usize,
        byte_offset: usize,
        count: usize,
    ) -> (ai: usize)
        requires
            old(self).accessors@.len() < usize::MAX,
        ensures
            ai == old(self).accessors@.len(),
            final(self).accessors@.len() == old(self).accessors@.len() + 1,
            final(self).accessors@.drop_last() == old(self).accessors@,
            final(self).accessors@.last() == (Accessor {
                name,
                view,
                byte_offset,
                count,
                component: ComponentType::UnsignedInt,
                kind: ElementKind::Scalar,
                min: None,
                max: None,
            }),
            final(self).buffers == old(self).buffers,
            final(self).views == old(self).views,
            final(self).meshes == old(self).meshes,
            final(self).nodes == old(self).nodes,
            final(self).scenes == old(self).scenes,
            final(self).default_scene == old(self).default_scene,
            old(self).wf() ==> final(self).wf(),
    {
        let ai = self.accessors.len();
        self.accessors.push(
            Accessor {
                name,
                view,
                byte_offset,
                count,
                component: ComponentType::UnsignedInt,
                kind: ElementKind::Scalar,
                min: None,
                max: None,
            },
        );
        proof {
            assert(self.accessors@.drop_last() =~= old(self).accessors@);
        }
        ai
    }

    /// Appends a mesh made of the given primitives, with optional
    /// morph-target weights attached verbatim. Returns its index.
    pub fn push_mesh(
        &mut self,
        name: Option<String>,
        primitives: Vec<Primitive>,
        weights: Option<Vec<String>>,
    ) -> (mi: usize)
        requires
            old(self).meshes@.len() < usize::MAX,
        ensures
            mi == old(self).meshes@.len(),
            final(self).meshes@.len() == old(self).meshes@.len() + 1,
            final(self).meshes@.drop_last() == old(self).meshes@,
            final(self).meshes@.last() == (Mesh { name, primitives, weights }),
            final(self).buffers == old(self).buffers,
            final(self).views == old(self).views,
            final(self).accessors == old(self).accessors,
            final(self).nodes == old(self).nodes,
            final(self).scenes == old(self).scenes,
            final(self).default_scene == old(self).default_scene,
            old(self).wf() ==> final(self).wf(),
    {
        let mi = self.meshes.len();
        self.meshes.push(Mesh { name, primitives, weights });
        proof {
            assert(self.meshes@.drop_last() =~= old(self).meshes@);
        }
        mi
    }

    /// Appends a node, its optional transform matrix attached verbatim.
    /// Returns the node's index.
    pub fn push_node(
        &mut self,
        name: Option<String>,
        mesh: Option<usize>,
        transform: Option<Vec<String>>,
        children: Option<Vec<usize>>,
    ) -> (ni: usize)
        requires
            old(self).nodes@.len() < usize::MAX,
        ensures
            ni == old(self).nodes@.len(),
            final(self).nodes@.len() == old(self).nodes@.len() + 1,
            final(self).nodes@.drop_last() == old(self).nodes@,
            final(self).nodes@.last() == (Node { name, mesh, transform, children }),
            final(self).buffers == old(self).buffers,
            final(self).views == old(self).views,
            final(self).accessors == old(self).accessors,
            final(self).meshes == old(self).meshes,
            final(self).scenes == old(self).scenes,
            final(self).default_scene == old(self).default_scene,
            old(self).wf() ==> final(self).wf(),
    {
        let ni = self.nodes.len();
        self.nodes.push(Node { name, mesh, transform, children });
        proof {
            assert(self.nodes@.drop_last() =~= old(self).nodes@);
        }
        ni
    }

    /// Appends a scene holding the given node indices. Returns its index.
    pub fn push_scene(&mut self, nodes: Vec<usize>) -> (si: usize)
        requires
            old(self).scenes@.len() < usize::MAX,
        ensures
            si == old(self).scenes@.len(),
            final(self).scenes@.len() == old(self).scenes@.len() + 1,
            final(self).scenes@.drop_last() == old(self).scenes@,
            final(self).scenes@.last() == (Scene { nodes }),
            final(self).buffers == old(self).buffers,
            final(self).views == old(self).views,
            final(self).accessors == old(self).accessors,
            final(self).meshes == old(self).meshes,
            final(self).nodes == old(self).nodes,
            final(self).default_scene == old(self).default_scene,
            old(self).wf() ==> final(self).wf(),
    {
        let si = self.scenes.len();
        self.scenes.push(Scene { nodes });
        proof {
            assert(self.scenes@.drop_last() =~= old(self).scenes@);
        }
        si
    }

    /// Marks a scene as the document's default scene.
    pub fn set_default_scene(&mut self, scene: Option<usize>)
        ensures
            final(self).default_scene == scene,
            final(self).buffers == old(self).buffers,
            final(self).views == old(self).views,
            final(self).accessors == old(self).accessors,
            final(self).meshes == old(self).meshes,
            final(self).nodes == old(self).nodes,
            final(self).scenes == old(self).scenes,
            old(self).wf() ==> final(self).wf(),
    {
        self.default_scene = scene;
    }

    /// Attaches (or removes) the external URI of buffer `index`. Fails
    /// exactly when no buffer has that index; the document is then
    /// unchanged.
    pub fn set_buffer_uri(&mut self, index: usize, uri: Option<String>) -> (r: Result<
        (),
        GltfError,
    >)
        ensures
            r is Ok <==> index < old(self).buffers@.len(),
            r is Err ==> r == Result::<(), GltfError>::Err(GltfError::BadIndex) && *final(self)
                == *old(self),
            r is Ok ==> {
                &&& final(self).buffers@.len() == old(self).buffers@.len()
                &&& final(self).buffers@[index as int].uri == uri
                &&& final(self).buffers@[index as int].name == old(self).buffers@[
                    index as int].name
                &&& final(self).buffers@[index as int].data == old(self).buffers@[
                    index as int].data
                &&& forall|i: int|
                    0 <= i < old(self).buffers@.len() && i != index ==> final(self).buffers@[i]
                        == old(self).buffers@[i]
            },
            final(self).views == old(self).views,
            final(self).accessors == old(self).accessors,
            final(self).meshes == old(self).meshes,
            final(self).nodes == old(self).nodes,
            final(self).scenes == old(self).scenes,
            final(self).default_scene == old(self).default_scene,
            old(self).wf() ==> final(self).wf(),
    {
        if index >= self.buffers.len() {
            return Err(GltfError::BadIndex);
        }
        let b = &mut self.buffers[index];
        b.uri = uri;
        Ok(())
    }
}

impl GltfBuilder {
    /// Decides structural consistency, the condition the serializers
    /// demand.
    pub fn check_valid(&self) -> (r: bool)
        ensures
            r == self.valid(),
    {
        let mut i: usize = 0;
        while i < self.views.len()
            invariant
                i <= self.views@.len(),
                forall|k: int| 0 <= k < i ==> view_ok(#[trigger] self.views@[k], self.buffers@),
            decreases self.views@.len() - i,
        {
            let v = &self.views[i];
            if v.buffer >= self.buffers.len() {
                return false;
            }
            let blen = self.buffers[v.buffer].data.len();
            if v.byte_offset > blen || v.byte_length > blen - v.byte_offset {
                return false;
            }
            i = i + 1;
        }
        let mut i: usize = 0;
        while i < self.accessors.len()
            invariant
                i <= self.accessors@.len(),
                forall|k: int|
                    0 <= k < i ==> accessor_ok(#[trigger] self.accessors@[k], self.views@),
            decreases self.accessors@.len() - i,
        {
            let a = &self.accessors[i];
            if a.view >= self.views.len() {
                return false;
            }
            let vlen = self.views[a.view].byte_length;
            if a.byte_offset > vlen {
                return false;
            }
            let rem = (vlen - a.byte_offset) as u128;
            let size_ok = match a.kind {
                ElementKind::Scalar => (a.count as u128) * 4 <= rem,
                ElementKind::Vec3 => (a.count as u128) * 12 <= rem,
            };
            if !size_ok {
                return false;
            }
            if !check_bounds(&a.min) || !check_bounds(&a.max) {
                return false;
            }
            i = i + 1;
        }
        let mut i: usize = 0;
        while i < self.meshes.len()
            invariant
                i <= self.meshes@.len(),
                forall|k: int|
                    0 <= k < i ==> mesh_ok(#[trigger] self.meshes@[k], self.accessors@.len() as int),
            decreases self.meshes@.len() - i,
        {
            let m = &self.meshes[i];
            let mut j: usize = 0;
            while j < m.primitives.len()
                invariant
                    i < self.meshes@.len(),
                    *m == self.meshes@[i as int],
                    j <= m.primitives@.len(),
                    forall|l: int|
                        0 <= l < j ==> prim_valid(
                            #[trigger] m.primitives@[l],
                            self.accessors@.len() as int,
                        ),
                decreases m.primitives@.len() - j,
            {
                let p = &m.primitives[j];
                let na = self.accessors.len();
                let ok = (match p.position {
                    Some(a) => a < na,
                    None => true,
                }) && (match p.normal {
                    Some(a) => a < na,
                    None => true,
                }) && (match p.indices {
                    Some(a) => a < na,
                    None => true,
                });
                if !ok {
                    proof {
                        assert(!prim_valid(*p, self.accessors@.len() as int));
                        assert(self.meshes@[i as int].primitives@[j as int] == *p);
                        assert(!mesh_ok(self.meshes@[i as int], self.accessors@.len() as int));
                    }
                    return false;
                }
                j = j + 1;
            }
            if !check_num_texts(&m.weights) {
                proof {
                    assert(!mesh_ok(self.meshes@[i as int], self.accessors@.len() as int));
                }
                return false;
            }
            i = i + 1;
        }
        let mut i: usize = 0;
        while i < self.nodes.len()
            invariant
                i <= self.nodes@.len(),
                forall|k: int|
                    0 <= k < i ==> node_valid(
                        #[trigger] self.nodes@[k],
                        self.meshes@.len() as int,
                        self.nodes@.len() as int,
                    ),
            decreases self.nodes@.len() - i,
        {
            let n = &self.nodes[i];
            match n.mesh {
                Some(m) => {
                    if m >= self.meshes.len() {
                        return false;
                    }
                },
                None => {},
            }
            match &n.transform {
                Some(t) => {
                    if t.len() != 16 || !check_num_texts(&n.transform) {
                        proof {
                            assert(!node_valid(
                                self.nodes@[i as int],
                                self.meshes@.len() as int,
                                self.nodes@.len() as int,
                            ));
                        }
                        return false;
                    }
                },
                None => {},
            }
            match &n.children {
                Some(cs) => {
                    let mut j: usize = 0;
                    while j < cs.len()
                        invariant
                            i < self.nodes@.len(),
                            self.nodes@[i as int].children == Some(*cs),
                            j <= cs@.len(),
                            forall|l: int| 0 <= l < j ==> (#[trigger] cs@[l]) < self.nodes@.len(),
                        decreases cs@.len() - j,
                    {
                        if cs[j] >= self.nodes.len() {
                            proof {
                                assert(self.nodes@[i as int].children is Some);
                                assert((self.nodes@[i as int].children->Some_0)@[j as int]
                                    == cs@[j as int]);
                                assert(!node_valid(
                                    self.nodes@[i as int],
                                    self.meshes@.len() as int,
                                    self.nodes@.len() as int,
                                ));
                            }
                            return false;
                        }
                        j = j + 1;
                    }
                },
                None => {},
            }
            i = i + 1;
        }
        let mut i: usize = 0;
        while i < self.scenes.len()
            invariant
                i <= self.scenes@.len(),
                forall|k: int|
                    0 <= k < i ==> scene_ok(#[trigger] self.scenes@[k], self.nodes@.len() as int),
            decreases self.scenes@.len() - i,
        {
            let s = &self.scenes[i];
            let mut j: usize = 0;
            while j < s.nodes.len()
                invariant
                    i < self.scenes@.len(),
                    *s == self.scenes@[i as int],
                    j <= s.nodes@.len(),
                    forall|l: int| 0 <= l < j ==> (#[trigger] s.nodes@[l]) < self.nodes@.len(),
                decreases s.nodes@.len() - j,
            {
                if s.nodes[j] >= self.nodes.len() {
                    proof {
                        assert(self.scenes@[i as int].nodes@[j as int] == s.nodes@[j as int]);
                        assert(!scene_ok(self.scenes@[i as int], self.nodes@.len() as int));
                    }
                    return false;
                }
                j = j + 1;
            }
            i = i + 1;
        }
        match self.default_scene {
            Some(s) => {
                if s >= self.scenes.len() {
                    return false;
                }
            },
            None => {},
        }
        true
    }
}

impl GltfBuilder {
    /// The (URI, bytes) pairs the split export writes, one per buffer
    /// in order. Fails exactly when some buffer has no URI assigned;
    /// nothing is handed out then.
    pub fn buffer_files(&self) -> (r: Result<Vec<(String, Vec<u8>)>, GltfError>)
        ensures
            r is Ok <==> (forall|i: int|
                0 <= i < self.buffers@.len() ==> (#[trigger] self.buffers@[i]).uri is Some),
            r is Err ==> r == Result::<Vec<(String, Vec<u8>)>, GltfError>::Err(
                GltfError::MissingUri,
            ),
            r matches Ok(v) ==> {
                &&& v@.len() == self.buffers@.len()
                &&& forall|i: int|
                    0 <= i < v@.len() ==> {
                        &&& (#[trigger] v@[i]).0@ == self.buffers@[i].uri->Some_0@
                        &&& v@[i].1@ == self.buffers@[i].data@
                    }
            },
    {
        let mut out: Vec<(String, Vec<u8>)> = Vec::new();
        let mut i: usize = 0;
        while i < self.buffers.len()
            invariant
                i <= self.buffers@.len(),
                out@.len() == i,
                forall|k: int| 0 <= k < i ==> (#[trigger] self.buffers@[k]).uri is Some,
                forall|k: int|
                    0 <= k < i ==> {
                        &&& (#[trigger] out@[k]).0@ == self.buffers@[k].uri->Some_0@
                        &&& out@[k].1@ == self.buffers@[k].data@
                    },
            decreases self.buffers@.len() - i,
        {
            let b = &self.buffers[i];
            match &b.uri {
                Some(u) => {
                    let name = String::from_str(u.as_str());
                    let mut data: Vec<u8> = Vec::new();
                    data.extend_from_slice(b.data.as_slice());
                    proof {
                        assert(data@ =~= b.data@);
                    }
                    out.push((name, data));
                },
                None => {
                    proof {
                        assert(self.buffers@[i as int].uri is None);
                    }
                    return Err(GltfError::MissingUri);
                },
            }
            i = i + 1;
        }
        Ok(out)
    }
}

/// Every view of a well-formed document starts on a 4-byte boundary,
/// so any view can feed 32-bit float or 32-bit unsigned integer
/// accessors, whose components demand 4-byte alignment.
pub proof fn lemma_view_alignment(d: GltfBuilder)
    requires
        d.wf(),
    ensures
        forall|i: int| 0 <= i < d.views@.len() ==> (#[trigger] d.views@[i]).byte_offset % 4 == 0,
{
}

/// Decides whether every text of an optional list spells a JSON
/// number.
pub fn check_num_texts(o: &Option<Vec<String>>) -> (r: bool)
    ensures
        r == num_texts_ok(*o),
{
    match o {
        Some(v) => {
            let mut j: usize = 0;
            while j < v.len()
                invariant
                    *o == Some(*v),
                    j <= v@.len(),
                    forall|l: int| 0 <= l < j ==> #[trigger] json_num_ok(encode_utf8(v@[l]@)),
                decreases v@.len() - j,
            {
                if !is_json_number(v[j].as_str()) {
                    proof {
                        assert(!json_num_ok(encode_utf8(v@[j as int]@)));
                        assert(!texts_all_numbers(v@));
                    }
                    return false;
                }
                j = j + 1;
            }
            true
        },
        None => true,
    }
}

/// Decides whether an optional bounds triple holds three JSON-number
/// texts.
pub fn check_bounds(b: &Option<Vec3Text>) -> (r: bool)
    ensures
        r == bounds_ok(*b),
{
    match b {
        Some(t) => is_json_number(t.x.as_str()) && is_json_number(t.y.as_str()) && is_json_number(
            t.z.as_str(),
        ),
        None => true,
    }
}

/// Whether a view's byte range lands inside its buffer.
pub open spec fn view_ok(v: BufferView, buffers: Seq<Buffer>) -> bool {
    &&& v.buffer < buffers.len()
    &&& v.byte_offset + v.byte_length <= buffers[v.buffer as int].data@.len()
}

/// Whether an accessor's byte range lands inside its view and its
/// bounds texts spell JSON numbers.
pub open spec fn accessor_ok(a: Accessor, views: Seq<BufferView>) -> bool {
    &&& a.view < views.len()
    &&& a.byte_offset + a.count * elem_size(a.component, a.kind) <= views[a.view as int].byte_length
    &&& bounds_ok(a.min)
    &&& bounds_ok(a.max)
}

/// Whether every primitive of a mesh references existing accessors and
/// every weight text spells a JSON number.
pub open spec fn mesh_ok(m: Mesh, n_accessors: int) -> bool {
    &&& forall|j: int|
        0 <= j < m.primitives@.len() ==> prim_valid(#[trigger] m.primitives@[j], n_accessors)
    &&& num_texts_ok(m.weights)
}

/// Whether every text of a list spells a JSON number.
pub open spec fn texts_all_numbers(s: Seq<String>) -> bool {
    forall|j: int| 0 <= j < s.len() ==> #[trigger] json_num_ok(encode_utf8(s[j]@))
}

/// Whether every text of an optional list spells a JSON number.
pub open spec fn num_texts_ok(o: Option<Vec<String>>) -> bool {
    match o {
        Some(v) => texts_all_numbers(v@),
        None => true,
    }
}

/// Whether every node index of a scene exists.
pub open spec fn scene_ok(s: Scene, n_nodes: int) -> bool {
    forall|j: int| 0 <= j < s.nodes@.len() ==> (#[trigger] s.nodes@[j]) < n_nodes
}

/// Whether a primitive's accessor references land below `n_accessors`.
pub open spec fn prim_valid(p: Primitive, n_accessors: int) -> bool {
    &&& match p.position {
        Some(a) => a < n_accessors,
        None => true,
    }
    &&& match p.normal {
        Some(a) => a < n_accessors,
        None => true,
    }
    &&& match p.indices {
        Some(a) => a < n_accessors,
        None => true,
    }
}

/// Whether a node's references land below the mesh and node counts and
/// its transform, when present, holds sixteen JSON-number texts.
pub open spec fn node_valid(n: Node, n_meshes: int, n_nodes: int) -> bool {
    &&& match n.mesh {
        Some(m) => m < n_meshes,
        None => true,
    }
    &&& match n.transform {
        Some(t) => t@.len() == 16 && texts_all_numbers(t@),
        None => true,
    }
    &&& match n.children {
        Some(cs) => forall|j: int| 0 <= j < cs@.len() ==> (#[trigger] cs@[j]) < n_nodes,
        None => true,
    }
}

/// Whether an optional bounds triple holds three JSON-number texts.
pub open spec fn bounds_ok(b: Option<Vec3Text>) -> bool {
    match b {
        Some(t) => json_num_ok(encode_utf8(t.x@)) && json_num_ok(encode_utf8(t.y@))
            && json_num_ok(encode_utf8(t.z@)),
        None => true,
    }
}

} // verus!
