//! The single-package binary form: a 12-byte header, a length-prefixed
//! JSON chunk padded with spaces, and a length-prefixed binary chunk
//! padded with zero bytes, holding every buffer's bytes in push order.

use vstd::prelude::*;
use crate::enc::{le32, pad4, pad_len, emit_le32, emit_pad4, lemma_pad4_len};
use crate::doc::{Buffer, GltfBuilder, GltfError};
use crate::json::{json_doc, doc_json};

verus! {

/// The concatenation of every buffer's bytes, in order.
pub open spec fn buffers_bytes(s: Seq<Buffer>) -> Seq<u8>
    decreases s.len(),
{
    if s.len() == 0 {
        Seq::empty()
    } else {
        buffers_bytes(s.drop_last()) + s.last().data@
    }
}

/// The package's total length: header, two chunk headers, and both
/// padded payloads.
pub open spec fn glb_total(json: Seq<u8>, bin: Seq<u8>) -> int {
    28 + json.len() + pad_len(json.len()) + bin.len() + pad_len(bin.len()) as int
}

/// The magic tag of the package header.
pub open spec fn glb_magic() -> u32 {
    0x46546C67
}

/// The tag of the JSON chunk.
pub open spec fn chunk_json() -> u32 {
    0x4E4F534A
}

/// The tag of the binary chunk.
pub open spec fn chunk_bin() -> u32 {
    0x004E4942
}

/// The bytes of the whole package for a given JSON text and binary
/// payload.
pub open spec fn glb_bytes(json: Seq<u8>, bin: Seq<u8>) -> Seq<u8> {
    let jp = pad4(json, 0x20);
    let bp = pad4(bin, 0x00);
    le32(glb_magic()) + le32(2) + le32(glb_total(json, bin) as u32) + le32(jp.len() as u32) + le32(
        chunk_json(),
    ) + jp + le32(bp.len() as u32) + le32(chunk_bin()) + bp
}

/// The 32-bit little-endian value stored at byte offset `i`.
pub open spec fn u32_at(s: Seq<u8>, i: int) -> int {
    s[i] + 0x100 * s[i + 1] + 0x10000 * s[i + 2] + 0x1000000 * s[i + 3]
}

/// Reads the package back: checks the header and both chunk headers
/// and yields the two padded payloads, or nothing when the bytes do
/// not form a package.
pub open spec fn spec_parse_glb(s: Seq<u8>) -> Option<(Seq<u8>, Seq<u8>)> {
    if s.len() < 28 {
        None
    } else if u32_at(s, 0) != glb_magic() || u32_at(s, 4) != 2 || u32_at(s, 8) != s.len() {
        None
    } else {
        let jl = u32_at(s, 12);
        if u32_at(s, 16) != chunk_json() || 28 + jl > s.len() {
            None
        } else {
            let bl = u32_at(s, 20 + jl);
            if u32_at(s, 24 + jl) != chunk_bin() || 28 + jl + bl != s.len() {
                None
            } else {
                Some((s.subrange(20, 20 + jl), s.subrange(28 + jl, s.len() as int)))
            }
        }
    }
}

/// Little-endian encoding decodes to the word it came from.
pub proof fn lemma_le32_value(w: u32)
    ensures
        u32_at(le32(w), 0) == w,
{
    assert(w & 0xff < 256 && (w >> 8) & 0xff < 256 && (w >> 16) & 0xff < 256 && (w >> 24) & 0xff
        < 256) by (bit_vector);
    assert(((w & 0xff) as u64) + 0x100 * (((w >> 8) & 0xff) as u64) + 0x10000 * (((w >> 16)
        & 0xff) as u64) + 0x1000000 * (((w >> 24) & 0xff) as u64) == w as u64) by (bit_vector);
    assert(u32_at(le32(w), 0) == (w & 0xff) + 0x100 * ((w >> 8) & 0xff) + 0x10000 * ((w >> 16)
        & 0xff) + 0x1000000 * ((w >> 24) & 0xff));
}

/// The value read at `i` depends only on the four bytes there.
pub proof fn lemma_u32_at_frame(s: Seq<u8>, i: int, w: u32)
    requires
        0 <= i,
        i + 4 <= s.len(),
        s.subrange(i, i + 4) == le32(w),
    ensures
        u32_at(s, i) == w,
{
    assert(s[i] == le32(w)[0]);
    assert(s[i + 1] == le32(w)[1]);
    assert(s[i + 2] == le32(w)[2]);
    assert(s[i + 3] == le32(w)[3]);
    lemma_le32_value(w);
}

/// Reads the 32-bit little-endian value at byte offset `i`.
pub fn read_u32_at(s: &[u8], i: usize) -> (r: u32)
    requires
        i + 4 <= s@.len(),
    ensures
        r as int == u32_at(s@, i as int),
{
    // Reading the length brings the slice's byte count, and with it the
    // bound on every index below, into scope.
    let _len = s.len();
    let b0 = *vstd::slice::slice_index_get(s, i);
    let b1 = *vstd::slice::slice_index_get(s, i + 1);
    let b2 = *vstd::slice::slice_index_get(s, i + 2);
    let b3 = *vstd::slice::slice_index_get(s, i + 3);
    let r = (b0 as u32) | ((b1 as u32) << 8) | ((b2 as u32) << 16) | ((b3 as u32) << 24);
    proof {
        assert(((b0 as u32) | ((b1 as u32) << 8) | ((b2 as u32) << 16) | ((b3 as u32) << 24))
            as u64 == (b0 as u64) + 0x100 * (b1 as u64) + 0x10000 * (b2 as u64) + 0x1000000 * (
        b3 as u64)) by (bit_vector);
    }
    r
}

/// Reads a package back into its two padded payloads, exactly as the
/// layout reading says: the JSON chunk's bytes, then the binary
/// chunk's; nothing when the bytes do not form a package.
pub fn parse_glb(bytes: &[u8]) -> (r: Option<(Vec<u8>, Vec<u8>)>)
    ensures
        match r {
            Some(p) => spec_parse_glb(bytes@) == Some((p.0@, p.1@)),
            None => spec_parse_glb(bytes@) is None,
        },
{
    if bytes.len() < 28 {
        return None;
    }
    let magic = read_u32_at(bytes, 0);
    let version = read_u32_at(bytes, 4);
    let total = read_u32_at(bytes, 8);
    if magic != 0x46546C67 || version != 2 || total as usize != bytes.len() {
        return None;
    }
    let jl = read_u32_at(bytes, 12) as usize;
    let jtype = read_u32_at(bytes, 16);
    if jtype != 0x4E4F534A || jl > bytes.len() - 28 {
        return None;
    }
    let bl = read_u32_at(bytes, 20 + jl) as usize;
    let btype = read_u32_at(bytes, 24 + jl);
    if btype != 0x004E4942 || bl != bytes.len() - (28 + jl) {
        return None;
    }
    let jp = vstd::slice::slice_to_vec(vstd::slice::slice_subrange(bytes, 20, 20 + jl));
    let bp = vstd::slice::slice_to_vec(
        vstd::slice::slice_subrange(bytes, 28 + jl, bytes.len()),
    );
    Some((jp, bp))
}

/// How the package is laid out: its length equals the total declared
/// in the header, both padded chunks are multiples of four bytes, and
/// reading the package back yields exactly the two padded payloads.
#[verifier::rlimit(100)]
pub proof fn lemma_package_layout(json: Seq<u8>, bin: Seq<u8>)
    requires
        glb_total(json, bin) <= u32::MAX,
    ensures
        glb_bytes(json, bin).len() == glb_total(json, bin),
        u32_at(glb_bytes(json, bin), 8) == glb_bytes(json, bin).len(),
        pad4(json, 0x20).len() % 4 == 0,
        pad4(bin, 0x00).len() % 4 == 0,
        spec_parse_glb(glb_bytes(json, bin)) == Some((pad4(json, 0x20), pad4(bin, 0x00))),
{
    let s = glb_bytes(json, bin);
    let jp = pad4(json, 0x20);
    let bp = pad4(bin, 0x00);
    lemma_pad4_len(json, 0x20);
    lemma_pad4_len(bin, 0x00);
    let jl = jp.len() as int;
    let bl = bp.len() as int;
    assert(s.len() == 28 + jl + bl);
    assert(s.subrange(0, 4) =~= le32(glb_magic()));
    lemma_u32_at_frame(s, 0, glb_magic());
    assert(s.subrange(4, 8) =~= le32(2));
    lemma_u32_at_frame(s, 4, 2);
    assert(s.subrange(8, 12) =~= le32(glb_total(json, bin) as u32));
    lemma_u32_at_frame(s, 8, glb_total(json, bin) as u32);
    assert(s.subrange(12, 16) =~= le32(jp.len() as u32));
    lemma_u32_at_frame(s, 12, jp.len() as u32);
    assert(s.subrange(16, 20) =~= le32(chunk_json()));
    lemma_u32_at_frame(s, 16, chunk_json());
    assert(s.subrange(20 + jl, 24 + jl) =~= le32(bp.len() as u32));
    lemma_u32_at_frame(s, 20 + jl, bp.len() as u32);
    assert(s.subrange(24 + jl, 28 + jl) =~= le32(chunk_bin()));
    lemma_u32_at_frame(s, 24 + jl, chunk_bin());
    assert(s.subrange(20, 20 + jl) =~= jp);
    assert(s.subrange(28 + jl, s.len() as int) =~= bp);
}

impl GltfBuilder {
    /// Serializes the full document to the single binary package:
    /// header, JSON chunk, binary chunk. Succeeds exactly when the
    /// document is structurally consistent and the package fits the
    /// 32-bit length fields; the bytes are then exactly the package of
    /// the document's JSON text and its concatenated buffers.
    #[verifier::rlimit(100)]
    pub fn to_glb(&self) -> (r: Result<Vec<u8>, GltfError>)
        ensures
            r is Ok <==> self.valid() && glb_total(json_doc(*self), buffers_bytes(self.buffers@))
                <= u32::MAX,
            r matches Ok(v) ==> v@ == glb_bytes(json_doc(*self), buffers_bytes(self.buffers@)),
            !self.valid() ==> r == Result::<Vec<u8>, GltfError>::Err(GltfError::Inconsistent),
            self.valid() && glb_total(json_doc(*self), buffers_bytes(self.buffers@)) > u32::MAX
                ==> r == Result::<Vec<u8>, GltfError>::Err(GltfError::TooLarge),
    {
        if !self.check_valid() {
            return Err(GltfError::Inconsistent);
        }
        let json = doc_json(self);
        let mut bin: Vec<u8> = Vec::new();
        let mut i: usize = 0;
        while i < self.buffers.len()
            invariant
                i <= self.buffers@.len(),
                bin@ == buffers_bytes(self.buffers@.take(i as int)),
            decreases self.buffers@.len() - i,
        {
            bin.extend_from_slice(self.buffers[i].data.as_slice());
            proof {
                assert(self.buffers@.take(i + 1 as int).drop_last() =~= self.buffers@.take(
                    i as int,
                ));
                assert(self.buffers@.take(i + 1 as int).last() == self.buffers@[i as int]);
            }
            i = i + 1;
        }
        proof {
            assert(self.buffers@.take(self.buffers@.len() as int) =~= self.buffers@);
        }
        let ghost jtext = json@;
        let ghost btext = bin@;
        let jlen = json.len();
        let blen = bin.len();
        let jpad: usize = (4 - jlen % 4) % 4;
        let bpad: usize = (4 - blen % 4) % 4;
        let total: u128 = 28 + (jlen as u128) + (jpad as u128) + (blen as u128) + (bpad as u128);
        proof {
            assert(total as int == glb_total(jtext, btext));
        }
        if total > 0xFFFF_FFFF {
            return Err(GltfError::TooLarge);
        }
        let mut jchunk = json;
        emit_pad4(&mut jchunk, 0x20);
        let mut bchunk = bin;
        emit_pad4(&mut bchunk, 0x00);
        proof {
            lemma_pad4_len(jtext, 0x20);
            lemma_pad4_len(btext, 0x00);
            assert(jchunk@.len() == pad4(jtext, 0x20).len());
            assert(bchunk@.len() == pad4(btext, 0x00).len());
        }
        let mut out: Vec<u8> = Vec::new();
        emit_le32(&mut out, 0x46546C67);
        proof {
            assert(out@ =~= le32(glb_magic()));
        }
        emit_le32(&mut out, 2);
        emit_le32(&mut out, total as u32);
        emit_le32(&mut out, jchunk.len() as u32);
        emit_le32(&mut out, 0x4E4F534A);
        out.append(&mut jchunk);
        emit_le32(&mut out, bchunk.len() as u32);
        emit_le32(&mut out, 0x004E4942);
        out.append(&mut bchunk);
        proof {
            assert(total as u32 == glb_total(jtext, btext) as u32);
            assert(out@ == glb_bytes(jtext, btext));
        }
        Ok(out)
    }
}

/// What the single-package form preserves: reading the package of a
/// document back yields, as the first chunk, exactly the document's
/// JSON text up to its trailing space padding, and, as the second,
/// exactly its concatenated buffer bytes up to trailing zero padding —
/// so the embedded JSON describes the same graph of buffers, views,
/// accessors, meshes, nodes and scenes, index for index.
pub proof fn lemma_package_recovers_document(d: GltfBuilder)
    requires
        glb_total(json_doc(d), buffers_bytes(d.buffers@)) <= u32::MAX,
    ensures
        spec_parse_glb(glb_bytes(json_doc(d), buffers_bytes(d.buffers@))) == Some(
            (pad4(json_doc(d), 0x20), pad4(buffers_bytes(d.buffers@), 0x00)),
        ),
{
    lemma_package_layout(json_doc(d), buffers_bytes(d.buffers@));
}

} // verus!
