//! The big-endian `.gra` graph file.
//!
//! A file starts with the 9-byte tag `GRASSFEET`, one version byte and the
//! 32-bit vertex count; version 2 adds the 32-bit group count. Then comes one
//! record per fine vertex: position and normal as six `f32` bit patterns,
//! in version 2 its group, then its neighbour count and its neighbours in
//! ascending order. Version 2 ends with position and normal of each group.
use vstd::prelude::*;

use crate::adjacency::{strictly_ascending, Adjacency};
use crate::GraphError;

verus! {

/// Three `f32` values, each held as its IEEE-754 bit pattern.
#[derive(Debug, Clone, Copy, PartialEq, Eq, Structural)]
pub struct Vec3Bits {
    pub x: u32,
    pub y: u32,
    pub z: u32,
}

/// A vertex of a mesh: its position and its normal.
#[derive(Debug, Clone, Copy, PartialEq, Eq, Structural)]
pub struct VertexRecord {
    pub position: Vec3Bits,
    pub normal: Vec3Bits,
}

/// The two layouts of the file; version 2 adds the groups.
#[derive(Debug, Clone, Copy, PartialEq, Eq, Structural)]
pub enum FormatVersion {
    V1,
    V2,
}

/// The tag that opens every file: `GRASSFEET` in ASCII.
pub open spec fn magic() -> Seq<u8> {
    seq![71u8, 82u8, 65u8, 83u8, 83u8, 70u8, 69u8, 69u8, 84u8]
}

/// The version byte written for `v`.
pub open spec fn version_byte(v: FormatVersion) -> u8 {
    match v {
        FormatVersion::V1 => 1u8,
        FormatVersion::V2 => 2u8,
    }
}

/// The four bytes of `x`, most significant first.
pub open spec fn be32(x: u32) -> Seq<u8> {
    seq![(x >> 24u32) as u8, (x >> 16u32) as u8, (x >> 8u32) as u8, x as u8]
}

/// The `u32` that the four bytes `b` spell, most significant first.
pub open spec fn read_be32(b: Seq<u8>) -> u32 {
    ((b[0] as u32) << 24u32) | ((b[1] as u32) << 16u32) | ((b[2] as u32) << 8u32) | (b[3] as u32)
}

pub open spec fn vec3_bytes(v: Vec3Bits) -> Seq<u8> {
    be32(v.x) + be32(v.y) + be32(v.z)
}

pub open spec fn vertex_bytes(v: VertexRecord) -> Seq<u8> {
    vec3_bytes(v.position) + vec3_bytes(v.normal)
}

/// Each word of `s` in turn, as four big-endian bytes.
pub open spec fn words_bytes(s: Seq<u32>) -> Seq<u8>
    decreases s.len(),
{
    if s.len() == 0 {
        Seq::empty()
    } else {
        words_bytes(s.drop_last()) + be32(s.last())
    }
}

/// The record of one fine vertex.
pub open spec fn fine_record(ver: FormatVersion, v: VertexRecord, group: u32, adj: Seq<u32>) -> Seq<u8> {
    vertex_bytes(v) + (if ver == FormatVersion::V2 {
        be32(group)
    } else {
        Seq::empty()
    }) + be32(adj.len() as u32) + words_bytes(adj)
}

/// The records of the first `k` fine vertices.
pub open spec fn fine_records(
    ver: FormatVersion,
    fine: Seq<VertexRecord>,
    groups: Seq<u32>,
    adj: Seq<Seq<u32>>,
    k: nat,
) -> Seq<u8>
    decreases k,
{
    if k == 0 {
        Seq::empty()
    } else {
        fine_records(ver, fine, groups, adj, (k - 1) as nat) + fine_record(
            ver,
            fine[k - 1],
            groups[k - 1],
            adj[k - 1],
        )
    }
}

/// The records of the first `k` groups.
pub open spec fn group_records(coarse: Seq<VertexRecord>, k: nat) -> Seq<u8>
    decreases k,
{
    if k == 0 {
        Seq::empty()
    } else {
        group_records(coarse, (k - 1) as nat) + vertex_bytes(coarse[k - 1])
    }
}

/// Tag, version, vertex count and, in version 2, group count.
pub open spec fn header(ver: FormatVersion, n: u32, m: u32) -> Seq<u8> {
    magic() + seq![version_byte(ver)] + be32(n) + (if ver == FormatVersion::V2 {
        be32(m)
    } else {
        Seq::empty()
    })
}

/// The whole file for fine vertices `fine` with neighbour lists `adj` and,
/// in version 2, groups `groups` and coarse vertices `coarse`.
pub open spec fn graph_file(
    ver: FormatVersion,
    fine: Seq<VertexRecord>,
    adj: Seq<Seq<u32>>,
    groups: Seq<u32>,
    coarse: Seq<VertexRecord>,
) -> Seq<u8> {
    header(ver, fine.len() as u32, coarse.len() as u32) + fine_records(
        ver,
        fine,
        groups,
        adj,
        fine.len(),
    ) + (if ver == FormatVersion::V2 {
        group_records(coarse, coarse.len())
    } else {
        Seq::empty()
    })
}

fn push_be32(out: &mut Vec<u8>, x: u32)
    ensures
        final(out)@ == old(out)@ + be32(x),
{
    out.push((x >> 24u32) as u8);
    out.push((x >> 16u32) as u8);
    out.push((x >> 8u32) as u8);
    out.push(x as u8);
    assert(out@ =~= old(out)@ + be32(x));
}

fn push_vec3(out: &mut Vec<u8>, v: Vec3Bits)
    ensures
        final(out)@ == old(out)@ + vec3_bytes(v),
{
    push_be32(out, v.x);
    push_be32(out, v.y);
    push_be32(out, v.z);
    assert(out@ =~= old(out)@ + vec3_bytes(v));
}

fn push_vertex(out: &mut Vec<u8>, v: VertexRecord)
    ensures
        final(out)@ == old(out)@ + vertex_bytes(v),
{
    push_vec3(out, v.position);
    push_vec3(out, v.normal);
    assert(out@ =~= old(out)@ + vertex_bytes(v));
}

/// Checks that `n` vertices fit the file's 32-bit count field, and gives
/// the count as written.
pub fn check_capacity(n: usize) -> (r: Result<u32, GraphError>)
    ensures
        match r {
            Ok(c) => n <= u32::MAX && c == n,
            Err(e) => n > u32::MAX && e == GraphError::CapacityExceeded,
        },
{
    if n > u32::MAX as usize {
        Err(GraphError::CapacityExceeded)
    } else {
        Ok(n as u32)
    }
}


fn push_words(out: &mut Vec<u8>, s: &Vec<u32>)
    ensures
        final(out)@ == old(out)@ + words_bytes(s@),
{
    let mut j: usize = 0;
    while j < s.len()
        invariant
            j <= s@.len(),
            out@ == old(out)@ + words_bytes(s@.take(j as int)),
        decreases s@.len() - j,
    {
        proof {
            assert(s@.take(j + 1).drop_last() =~= s@.take(j as int));
            assert(s@.take(j + 1).last() == s@[j as int]);
        }
        push_be32(out, s[j]);
        assert(out@ =~= old(out)@ + words_bytes(s@.take(j + 1)));
        j = j + 1;
    }
    assert(s@.take(s@.len() as int) =~= s@);
}

fn push_tag(out: &mut Vec<u8>, ver: FormatVersion)
    ensures
        final(out)@ == old(out)@ + magic() + seq![version_byte(ver)],
{
    out.push(71u8);
    out.push(82u8);
    out.push(65u8);
    out.push(83u8);
    out.push(83u8);
    out.push(70u8);
    out.push(69u8);
    out.push(69u8);
    out.push(84u8);
    match ver {
        FormatVersion::V1 => out.push(1u8),
        FormatVersion::V2 => out.push(2u8),
    }
    assert(out@ =~= old(out)@ + magic() + seq![version_byte(ver)]);
}

/// Encodes the graph file for the fine vertices `fine`, their adjacency
/// and, in version 2, their groups and the coarse vertices.
///
/// Fails with `CapacityExceeded` when the fine vertex count does not fit in
/// 32 bits, and otherwise, in version 2, with `CoarseNotSmaller` when the
/// coarse mesh is not strictly smaller than the fine one. Version 1 reads
/// neither `groups` nor `coarse`.
pub fn encode_graph(
    ver: FormatVersion,
    fine: &Vec<VertexRecord>,
    adjacency: &Adjacency,
    groups: &Vec<u32>,
    coarse: &Vec<VertexRecord>,
) -> (r: Result<Vec<u8>, GraphError>)
    requires
        adjacency@.len() == fine@.len(),
        ver == FormatVersion::V2 ==> groups@.len() == fine@.len(),
    ensures
        match r {
            Ok(bytes) => {
                &&& fine@.len() <= u32::MAX
                &&& ver == FormatVersion::V2 ==> coarse@.len() < fine@.len()
                &&& bytes@ == graph_file(ver, fine@, adjacency@, groups@, coarse@)
            },
            Err(e) => if fine@.len() > u32::MAX {
                e == GraphError::CapacityExceeded
            } else {
                &&& ver == FormatVersion::V2
                &&& coarse@.len() >= fine@.len()
                &&& e == GraphError::CoarseNotSmaller
            },
        },
{
    let n = match check_capacity(fine.len()) {
        Ok(c) => c,
        Err(e) => return Err(e),
    };
    let is_v2 = match ver {
        FormatVersion::V1 => false,
        FormatVersion::V2 => true,
    };
    if is_v2 && coarse.len() >= fine.len() {
        return Err(GraphError::CoarseNotSmaller);
    }
    let mut out: Vec<u8> = Vec::new();
    push_tag(&mut out, ver);
    push_be32(&mut out, n);
    if is_v2 {
        push_be32(&mut out, coarse.len() as u32);
    }
    let ghost head = out@;
    assert(head =~= header(ver, fine@.len() as u32, coarse@.len() as u32));
    let mut i: usize = 0;
    while i < fine.len()
        invariant
            i <= fine@.len(),
            adjacency@.len() == fine@.len(),
            is_v2 <==> ver == FormatVersion::V2,
            is_v2 ==> groups@.len() == fine@.len(),
            out@ == head + fine_records(ver, fine@, groups@, adjacency@, i as nat),
        decreases fine@.len() - i,
    {
        let ghost before = out@;
        push_vertex(&mut out, fine[i]);
        if is_v2 {
            push_be32(&mut out, groups[i]);
        }
        let list = adjacency.neighbors(i);
        push_be32(&mut out, list.len() as u32);
        push_words(&mut out, list);
        assert(out@ =~= before + fine_record(ver, fine@[i as int], groups@[i as int], adjacency@[i as int]));
        i = i + 1;
    }
    let ghost mid = out@;
    if is_v2 {
        let mut k: usize = 0;
        while k < coarse.len()
            invariant
                k <= coarse@.len(),
                out@ == mid + group_records(coarse@, k as nat),
            decreases coarse@.len() - k,
        {
            push_vertex(&mut out, coarse[k]);
            k = k + 1;
        }
    }
    assert(out@ =~= graph_file(ver, fine@, adjacency@, groups@, coarse@));
    Ok(out)
}


/// Reading four bytes back gives the word that was written.
pub proof fn lemma_be32_round_trip(x: u32)
    ensures
        read_be32(be32(x)) == x,
{
    let b = be32(x);
    assert(b[0] == (x >> 24u32) as u8 && b[1] == (x >> 16u32) as u8 && b[2] == (x >> 8u32) as u8
        && b[3] == x as u8);
    assert(((((x >> 24u32) as u8) as u32) << 24u32) | ((((x >> 16u32) as u8) as u32) << 16u32) | ((
    ((x >> 8u32) as u8) as u32) << 8u32) | ((x as u8) as u32) == x) by (bit_vector);
}

proof fn lemma_words_bytes_len(s: Seq<u32>)
    ensures
        words_bytes(s).len() == 4 * s.len(),
    decreases s.len(),
{
    if s.len() > 0 {
        lemma_words_bytes_len(s.drop_last());
    }
}

/// Word `a` of `s` stands in bytes `4 * a` to `4 * a + 4`.
proof fn lemma_words_bytes_word(s: Seq<u32>, a: int)
    requires
        0 <= a < s.len(),
    ensures
        words_bytes(s).subrange(4 * a, 4 * a + 4) == be32(s[a]),
    decreases s.len(),
{
    let init = s.drop_last();
    lemma_words_bytes_len(init);
    if a == s.len() - 1 {
        assert(words_bytes(s).subrange(4 * a, 4 * a + 4) =~= be32(s[a]));
    } else {
        lemma_words_bytes_word(init, a);
        assert(words_bytes(s).subrange(4 * a, 4 * a + 4) =~= words_bytes(init).subrange(
            4 * a,
            4 * a + 4,
        ));
    }
}

/// Where the neighbour list starts in a fine vertex record.
pub open spec fn neighbors_offset(ver: FormatVersion) -> int {
    if ver == FormatVersion::V2 {
        32
    } else {
        28
    }
}

/// The neighbours written for a vertex read back strictly increasing:
/// in its record the word at neighbour slot `a` is below the one at slot `b`
/// whenever `a < b`.
pub proof fn lemma_written_neighbors_ascending(
    g: &Adjacency,
    ver: FormatVersion,
    v: VertexRecord,
    group: u32,
    i: int,
    a: int,
    b: int,
)
    requires
        g.wf(),
        0 <= i < g@.len(),
        0 <= a < b < g@[i].len(),
    ensures
        ({
            let rec = fine_record(ver, v, group, g@[i]);
            let at = neighbors_offset(ver);
            read_be32(rec.subrange(at + 4 * a, at + 4 * a + 4)) < read_be32(
                rec.subrange(at + 4 * b, at + 4 * b + 4),
            )
        }),
{
    let s = g@[i];
    assert(strictly_ascending(s));
    let rec = fine_record(ver, v, group, s);
    let at = neighbors_offset(ver);
    let prefix = vertex_bytes(v) + (if ver == FormatVersion::V2 {
        be32(group)
    } else {
        Seq::empty()
    }) + be32(s.len() as u32);
    assert(prefix.len() == at);
    assert(rec == prefix + words_bytes(s));
    lemma_words_bytes_len(s);
    lemma_words_bytes_word(s, a);
    lemma_words_bytes_word(s, b);
    assert(rec.subrange(at + 4 * a, at + 4 * a + 4) =~= words_bytes(s).subrange(4 * a, 4 * a + 4));
    assert(rec.subrange(at + 4 * b, at + 4 * b + 4) =~= words_bytes(s).subrange(4 * b, 4 * b + 4));
    lemma_be32_round_trip(s[a]);
    lemma_be32_round_trip(s[b]);
}

/// A file opens with the tag, then the version byte, then the fine vertex
/// count in big-endian order.
pub proof fn lemma_header_round_trip(
    ver: FormatVersion,
    fine: Seq<VertexRecord>,
    adj: Seq<Seq<u32>>,
    groups: Seq<u32>,
    coarse: Seq<VertexRecord>,
)
    requires
        fine.len() <= u32::MAX,
    ensures
        ({
            let f = graph_file(ver, fine, adj, groups, coarse);
            &&& f.subrange(0, 9) == magic()
            &&& f[9] == version_byte(ver)
            &&& read_be32(f.subrange(10, 14)) == fine.len()
        }),
{
    let f = graph_file(ver, fine, adj, groups, coarse);
    let n = fine.len() as u32;
    let h = header(ver, n, coarse.len() as u32);
    assert(f.subrange(0, 9) =~= magic());
    assert(f.subrange(10, 14) =~= be32(n));
    lemma_be32_round_trip(n);
}

/// The size of the first `k` version-1 vertex records: 28 bytes each, and
/// four more for each neighbour.
pub open spec fn v1_records_size(adj: Seq<Seq<u32>>, k: nat) -> int
    decreases k,
{
    if k == 0 {
        0
    } else {
        v1_records_size(adj, (k - 1) as nat) + 28 + 4 * adj[k - 1].len()
    }
}

proof fn lemma_v1_records_len(
    fine: Seq<VertexRecord>,
    groups: Seq<u32>,
    adj: Seq<Seq<u32>>,
    k: nat,
)
    ensures
        fine_records(FormatVersion::V1, fine, groups, adj, k).len() == v1_records_size(adj, k),
    decreases k,
{
    if k > 0 {
        lemma_v1_records_len(fine, groups, adj, (k - 1) as nat);
        lemma_words_bytes_len(adj[k - 1]);
    }
}

/// A version-1 file holds 14 header bytes, then for each vertex 28 bytes and
/// four more per neighbour.
pub proof fn lemma_v1_file_size(
    fine: Seq<VertexRecord>,
    adj: Seq<Seq<u32>>,
    groups: Seq<u32>,
    coarse: Seq<VertexRecord>,
)
    ensures
        graph_file(FormatVersion::V1, fine, adj, groups, coarse).len() == 14 + v1_records_size(
            adj,
            fine.len(),
        ),
{
    lemma_v1_records_len(fine, groups, adj, fine.len());
}

} // verus!
