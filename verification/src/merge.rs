//! Buffer consolidation for the split export: every buffer's bytes are
//! concatenated, in order, into one buffer, and every view's offset is
//! rewritten to its position inside the merged buffer. The byte content
//! each view addresses is unchanged.

use vstd::prelude::*;
use crate::doc::{Buffer, BufferView, GltfBuilder, GltfError, view_ok};
use crate::glb::buffers_bytes;

verus! {

/// The merged-buffer position of buffer `i`: the summed length of the
/// buffers before it.
pub open spec fn prefix_len(s: Seq<Buffer>, i: int) -> int {
    buffers_bytes(s.take(i)).len() as int
}

/// The bytes view `i` of document `d` addresses.
pub open spec fn view_bytes(d: GltfBuilder, i: int) -> Seq<u8> {
    let v = d.views@[i];
    d.buffers@[v.buffer as int].data@.subrange(
        v.byte_offset as int,
        v.byte_offset + v.byte_length,
    )
}

/// Each buffer sits whole at its prefix position inside the
/// concatenation.
pub proof fn lemma_buffer_position(s: Seq<Buffer>, i: int)
    requires
        0 <= i < s.len(),
    ensures
        0 <= prefix_len(s, i),
        prefix_len(s, i) + s[i].data@.len() <= buffers_bytes(s).len(),
        buffers_bytes(s).subrange(prefix_len(s, i), prefix_len(s, i) + s[i].data@.len())
            == s[i].data@,
    decreases s.len(),
{
    lemma_buffers_bytes_len(s.take(i));
    if i == s.len() - 1 {
        assert(s.take(i) =~= s.drop_last());
        assert(buffers_bytes(s).subrange(prefix_len(s, i), prefix_len(s, i) + s[i].data@.len())
            =~= s[i].data@);
    } else {
        lemma_buffer_position(s.drop_last(), i);
        assert(s.drop_last().take(i) =~= s.take(i));
        assert(s.drop_last()[i] == s[i]);
        assert(buffers_bytes(s).subrange(prefix_len(s, i), prefix_len(s, i) + s[i].data@.len())
            =~= buffers_bytes(s.drop_last()).subrange(
            prefix_len(s.drop_last(), i),
            prefix_len(s.drop_last(), i) + s[i].data@.len(),
        ));
    }
}

/// The concatenation is never shorter than any one buffer's share.
pub proof fn lemma_buffers_bytes_len(s: Seq<Buffer>)
    ensures
        buffers_bytes(s).len() >= 0,
    decreases s.len(),
{
    if s.len() > 0 {
        lemma_buffers_bytes_len(s.drop_last());
    }
}

/// A concatenation of whole-word buffers has whole-word length.
pub proof fn lemma_buffers_bytes_mod4(s: Seq<Buffer>)
    requires
        forall|i: int| 0 <= i < s.len() ==> (#[trigger] s[i]).data@.len() % 4 == 0,
    ensures
        buffers_bytes(s).len() % 4 == 0,
    decreases s.len(),
{
    if s.len() > 0 {
        assert(forall|i: int|
            0 <= i < s.drop_last().len() ==> (#[trigger] s.drop_last()[i]).data@.len() % 4 == 0);
        lemma_buffers_bytes_mod4(s.drop_last());
    }
}

/// A prefix position over whole-word buffers lies on a word boundary.
pub proof fn lemma_prefix_len_mod4(s: Seq<Buffer>, i: int)
    requires
        0 <= i <= s.len(),
        forall|k: int| 0 <= k < s.len() ==> (#[trigger] s[k]).data@.len() % 4 == 0,
    ensures
        prefix_len(s, i) % 4 == 0,
{
    assert(forall|k: int| 0 <= k < s.take(i).len() ==> (#[trigger] s.take(i)[k]).data@.len() % 4
        == 0);
    lemma_buffers_bytes_mod4(s.take(i));
}

impl GltfBuilder {
    /// Consolidates all buffers into one by concatenating their bytes
    /// in order and rewriting every view's offset to its new position.
    /// Succeeds exactly when every view's range lies inside its buffer;
    /// then the result holds one unnamed buffer with the concatenated
    /// bytes, each view keeps its length, stride and target and
    /// addresses byte for byte the content it addressed before, and
    /// everything else is unchanged. Alignment and structural
    /// consistency carry over.
    #[verifier::rlimit(100)]
    pub fn merge_gltf_buffers(self) -> (r: Result<GltfBuilder, GltfError>)
        ensures
            r is Ok <==> (forall|i: int|
                0 <= i < self.views@.len() ==> view_ok(#[trigger] self.views@[i], self.buffers@)),
            r is Err ==> r == Result::<GltfBuilder, GltfError>::Err(GltfError::Inconsistent),
            r matches Ok(m) ==> {
                &&& m.buffers@.len() == 1
                &&& m.buffers@[0].data@ == buffers_bytes(self.buffers@)
                &&& m.buffers@[0].name is None
                &&& m.buffers@[0].uri is None
                &&& m.views@.len() == self.views@.len()
                &&& forall|i: int|
                    0 <= i < self.views@.len() ==> {
                        let v = #[trigger] self.views@[i];
                        let w = m.views@[i];
                        &&& w.buffer == 0
                        &&& w.byte_offset == prefix_len(self.buffers@, v.buffer as int)
                            + v.byte_offset
                        &&& w.byte_length == v.byte_length
                        &&& w.byte_stride == v.byte_stride
                        &&& w.target == v.target
                    }
                &&& forall|i: int|
                    0 <= i < self.views@.len() ==> #[trigger] view_bytes(m, i) == view_bytes(
                        self,
                        i,
                    )
                &&& m.accessors == self.accessors
                &&& m.meshes == self.meshes
                &&& m.nodes == self.nodes
                &&& m.scenes == self.scenes
                &&& m.default_scene == self.default_scene
                &&& self.wf() ==> m.wf()
                &&& self.valid() ==> m.valid()
            },
    {
        let mut i: usize = 0;
        while i < self.views.len()
            invariant
                i <= self.views@.len(),
                forall|k: int| 0 <= k < i ==> view_ok(#[trigger] self.views@[k], self.buffers@),
            decreases self.views@.len() - i,
        {
            let v = &self.views[i];
            if v.buffer >= self.buffers.len() {
                return Err(GltfError::Inconsistent);
            }
            let blen = self.buffers[v.buffer].data.len();
            if v.byte_offset > blen || v.byte_length > blen - v.byte_offset {
                return Err(GltfError::Inconsistent);
            }
            i = i + 1;
        }
        let mut merged: Vec<u8> = Vec::new();
        let mut offsets: Vec<usize> = Vec::new();
        let mut i: usize = 0;
        while i < self.buffers.len()
            invariant
                i <= self.buffers@.len(),
                merged@ == buffers_bytes(self.buffers@.take(i as int)),
                offsets@.len() == i,
                forall|k: int|
                    0 <= k < i ==> (#[trigger] offsets@[k]) as int == prefix_len(self.buffers@, k),
            decreases self.buffers@.len() - i,
        {
            offsets.push(merged.len());
            merged.extend_from_slice(self.buffers[i].data.as_slice());
            proof {
                assert(self.buffers@.take(i + 1 as int).drop_last() =~= self.buffers@.take(
                    i as int,
                ));
                assert(self.buffers@.take(i + 1 as int).last() == self.buffers@[i as int]);
            }
            i = i + 1;
        }
        proof {
            assert(self.buffers@.take(self.buffers@.len() as int) =~= self.buffers@);
        }
        let merged_len = merged.len();
        let mut nviews: Vec<BufferView> = Vec::new();
        let mut i: usize = 0;
        while i < self.views.len()
            invariant
                i <= self.views@.len(),
                merged@.len() == merged_len,
                forall|k: int| 0 <= k < self.views@.len() ==> view_ok(
                    #[trigger] self.views@[k],
                    self.buffers@,
                ),
                merged@ == buffers_bytes(self.buffers@),
                offsets@.len() == self.buffers@.len(),
                forall|k: int|
                    0 <= k < self.buffers@.len() ==> (#[trigger] offsets@[k]) as int == prefix_len(
                        self.buffers@,
                        k,
                    ),
                nviews@.len() == i,
                forall|k: int|
                    0 <= k < i ==> {
                        let v = #[trigger] self.views@[k];
                        let w = nviews@[k];
                        &&& w.buffer == 0
                        &&& w.byte_offset == prefix_len(self.buffers@, v.buffer as int)
                            + v.byte_offset
                        &&& w.byte_length == v.byte_length
                        &&& w.byte_stride == v.byte_stride
                        &&& w.target == v.target
                    },
            decreases self.views@.len() - i,
        {
            let v = &self.views[i];
            proof {
                lemma_buffer_position(self.buffers@, v.buffer as int);
                assert(view_ok(self.views@[i as int], self.buffers@));
                assert(offsets@[v.buffer as int] + v.byte_offset <= merged@.len());
            }
            let off = offsets[v.buffer] + v.byte_offset;
            nviews.push(
                BufferView {
                    buffer: 0,
                    byte_offset: off,
                    byte_length: v.byte_length,
                    byte_stride: v.byte_stride,
                    target: v.target,
                },
            );
            i = i + 1;
        }
        let merged_buffer = Buffer { name: None, data: merged, uri: None };
        let mut buffers: Vec<Buffer> = Vec::new();
        buffers.push(merged_buffer);
        let out = GltfBuilder {
            buffers,
            views: nviews,
            accessors: self.accessors,
            meshes: self.meshes,
            nodes: self.nodes,
            scenes: self.scenes,
            default_scene: self.default_scene,
        };
        proof {
            assert forall|i: int| 0 <= i < self.views@.len() implies #[trigger] view_bytes(out, i)
                == view_bytes(self, i) by {
                let v = self.views@[i];
                lemma_buffer_position(self.buffers@, v.buffer as int);
                assert(view_bytes(out, i) =~= view_bytes(self, i));
            }
            if self.wf() {
                assert forall|i: int|
                    0 <= i < out.views@.len() implies (#[trigger] out.views@[i]).byte_offset % 4
                    == 0 by {
                    let v = self.views@[i];
                    lemma_prefix_len_mod4(self.buffers@, v.buffer as int);
                }
                lemma_buffers_bytes_mod4(self.buffers@);
                assert(out.wf());
            }
            if self.valid() {
                assert forall|i: int| 0 <= i < out.views@.len() implies view_ok(
                    #[trigger] out.views@[i],
                    out.buffers@,
                ) by {
                    let v = self.views@[i];
                    lemma_buffer_position(self.buffers@, v.buffer as int);
                }
                assert forall|i: int| 0 <= i < out.accessors@.len() implies crate::doc::accessor_ok(
                    #[trigger] out.accessors@[i],
                    out.views@,
                ) by {
                    assert(crate::doc::accessor_ok(self.accessors@[i], self.views@));
                }
                assert(out.valid());
            }
        }
        Ok(out)
    }
}

/// The byte content addressable through any (view, offset, count)
/// triple is the same in two documents whose view addresses the same
/// bytes — in particular before and after buffer consolidation, where
/// the absolute offsets change but the addressed content does not.
pub proof fn lemma_view_slice_preserved(
    d1: GltfBuilder,
    d2: GltfBuilder,
    i: int,
    off: int,
    count: int,
)
    requires
        view_bytes(d1, i) == view_bytes(d2, i),
        0 <= off,
        0 <= count,
        off + count <= view_bytes(d1, i).len(),
    ensures
        view_bytes(d1, i).subrange(off, off + count) == view_bytes(d2, i).subrange(
            off,
            off + count,
        ),
{
}

} // verus!
