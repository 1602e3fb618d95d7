use sphere_graph::adjacency::{build_adjacency, Triangle};
use sphere_graph::format::{check_capacity, encode_graph, FormatVersion, Vec3Bits, VertexRecord};
use sphere_graph::grouping::{check_coarse_smaller, nearest_group};
use sphere_graph::GraphError;

fn tri(a: usize, b: usize, c: usize) -> Triangle {
    Triangle { a, b, c }
}

fn vertex(p: (f32, f32, f32), n: (f32, f32, f32)) -> VertexRecord {
    VertexRecord {
        position: Vec3Bits { x: p.0.to_bits(), y: p.1.to_bits(), z: p.2.to_bits() },
        normal: Vec3Bits { x: n.0.to_bits(), y: n.1.to_bits(), z: n.2.to_bits() },
    }
}

fn dist_key(p: (f32, f32, f32), q: (f32, f32, f32)) -> u32 {
    let d = (q.0 - p.0) * (q.0 - p.0) + (q.1 - p.1) * (q.1 - p.1) + (q.2 - p.2) * (q.2 - p.2);
    d.to_bits()
}

fn be(x: u32) -> Vec<u8> {
    x.to_be_bytes().to_vec()
}

fn tetrahedron() -> Vec<Triangle> {
    vec![tri(0, 1, 2), tri(0, 3, 1), tri(1, 3, 2), tri(2, 3, 0)]
}

#[test]
fn single_triangle_adjacency() {
    let g = build_adjacency(3, &vec![tri(0, 1, 2)]).unwrap();
    assert_eq!(g.len(), 3);
    assert_eq!(g.neighbors(0), &vec![1u32, 2]);
    assert_eq!(g.neighbors(1), &vec![0u32, 2]);
    assert_eq!(g.neighbors(2), &vec![0u32, 1]);
}

#[test]
fn adjacency_is_sorted_whatever_the_triangle_order() {
    let g = build_adjacency(5, &vec![tri(4, 2, 0), tri(3, 1, 0), tri(0, 4, 3)]).unwrap();
    assert_eq!(g.neighbors(0), &vec![1u32, 2, 3, 4]);
    assert_eq!(g.neighbors(3), &vec![0u32, 1, 4]);
    assert_eq!(g.degree(4), 3);
}

#[test]
fn adjacency_symmetric_without_self_loops() {
    let g = build_adjacency(4, &tetrahedron()).unwrap();
    for i in 0..4usize {
        assert!(!g.neighbors(i).contains(&(i as u32)));
        for j in 0..4usize {
            assert_eq!(g.neighbors(i).contains(&(j as u32)), g.neighbors(j).contains(&(i as u32)));
        }
    }
    assert_eq!(g.neighbors(2), &vec![0u32, 1, 3]);
}

#[test]
fn shared_edges_are_listed_once() {
    let g = build_adjacency(4, &vec![tri(0, 1, 2), tri(2, 1, 0), tri(1, 2, 3)]).unwrap();
    assert_eq!(g.neighbors(1), &vec![0u32, 2, 3]);
    assert_eq!(g.neighbors(3), &vec![1u32, 2]);
}

#[test]
fn isolated_vertex_has_no_neighbours() {
    let g = build_adjacency(4, &vec![tri(0, 1, 2)]).unwrap();
    assert_eq!(g.degree(3), 0);
}

#[test]
fn triangle_index_out_of_range_fails() {
    let r = build_adjacency(3, &vec![tri(0, 1, 3)]);
    assert_eq!(r.err(), Some(GraphError::IndexOutOfRange));
}

#[test]
fn build_over_capacity_fails() {
    let r = build_adjacency(u32::MAX as usize + 1, &vec![]);
    assert_eq!(r.err(), Some(GraphError::CapacityExceeded));
}

#[test]
fn capacity_boundary() {
    assert_eq!(check_capacity(u32::MAX as usize), Ok(u32::MAX));
    assert_eq!(check_capacity(u32::MAX as usize + 1), Err(GraphError::CapacityExceeded));
    assert_eq!(check_capacity(0), Ok(0));
}

#[test]
fn nearest_group_scenario() {
    let coarse = [(0.0f32, 0.0, 0.0), (10.0, 0.0, 0.0)];
    let fine = [(1.0f32, 0.0, 0.0), (9.0, 0.0, 0.0), (5.0, 0.0, 0.0), (0.0, 0.0, 0.0)];
    let mut groups = Vec::new();
    for p in fine.iter() {
        let keys: Vec<u32> = coarse.iter().map(|q| dist_key(*p, *q)).collect();
        groups.push(nearest_group(&keys));
    }
    assert_eq!(groups, vec![0u32, 1, 0, 0]);
}

#[test]
fn nearest_group_first_of_equal_minima() {
    assert_eq!(nearest_group(&vec![7u32, 3, 9, 3, 4]), 1);
    assert_eq!(nearest_group(&vec![7u32, 6, 5, 4]), 3);
    assert_eq!(nearest_group(&vec![2u32]), 0);
    assert_eq!(nearest_group(&vec![]), 0);
}

#[test]
fn nearest_group_prefers_a_number_to_nan() {
    let keys = vec![f32::NAN.to_bits(), f32::INFINITY.to_bits(), 1.5f32.to_bits()];
    assert_eq!(nearest_group(&keys), 2);
}

#[test]
fn coarse_must_be_smaller() {
    assert_eq!(check_coarse_smaller(4, 2), Ok(()));
    assert_eq!(check_coarse_smaller(4, 4), Err(GraphError::CoarseNotSmaller));
    assert_eq!(check_coarse_smaller(4, 5), Err(GraphError::CoarseNotSmaller));
}

#[test]
fn version_one_file_size_counts_each_record() {
    let tris = vec![tri(0, 1, 2), tri(0, 2, 3)];
    let g = build_adjacency(5, &tris).unwrap();
    let fine: Vec<VertexRecord> = (0..5).map(|i| vertex((i as f32, 0.0, 0.0), (0.0, 0.0, 1.0))).collect();
    let bytes = encode_graph(FormatVersion::V1, &fine, &g, &vec![], &vec![]).unwrap();
    let mut expected = 14usize;
    for i in 0..5 {
        expected += 28 + 4 * g.degree(i);
    }
    assert_eq!(expected, 14 + 5 * 28 + 4 * (3 + 2 + 3 + 2 + 0));
    assert_eq!(bytes.len(), expected);
}

#[test]
fn header_reads_back() {
    let g = build_adjacency(4, &tetrahedron()).unwrap();
    let fine: Vec<VertexRecord> = (0..4).map(|i| vertex((i as f32, 1.0, 2.0), (0.0, 1.0, 0.0))).collect();
    let coarse = vec![vertex((0.0, 0.0, 0.0), (1.0, 0.0, 0.0))];
    for (ver, byte) in [(FormatVersion::V1, 1u8), (FormatVersion::V2, 2u8)] {
        let bytes = encode_graph(ver, &fine, &g, &vec![0, 0, 0, 0], &coarse).unwrap();
        assert_eq!(&bytes[0..9], b"GRASSFEET");
        assert_eq!(bytes[9], byte);
        assert_eq!(u32::from_be_bytes([bytes[10], bytes[11], bytes[12], bytes[13]]), 4);
    }
}

#[test]
fn version_two_file_is_exact() {
    let g = build_adjacency(3, &vec![tri(2, 0, 1)]).unwrap();
    let fine = vec![
        vertex((1.0, 2.0, 3.0), (0.0, 0.0, 1.0)),
        vertex((-1.0, 0.5, 0.0), (0.0, 1.0, 0.0)),
        vertex((0.0, 0.0, -2.0), (1.0, 0.0, 0.0)),
    ];
    let coarse = vec![vertex((0.25, 0.0, 0.0), (0.0, 0.0, -1.0))];
    let bytes = encode_graph(FormatVersion::V2, &fine, &g, &vec![0, 0, 0], &coarse).unwrap();
    let mut expected: Vec<u8> = b"GRASSFEET".to_vec();
    expected.push(2);
    expected.extend(be(3));
    expected.extend(be(1));
    let lists = [[1u32, 2], [0, 2], [0, 1]];
    for (v, list) in fine.iter().zip(lists.iter()) {
        for w in [v.position.x, v.position.y, v.position.z, v.normal.x, v.normal.y, v.normal.z] {
            expected.extend(be(w));
        }
        expected.extend(be(0));
        expected.extend(be(2));
        for x in list.iter() {
            expected.extend(be(*x));
        }
    }
    for w in [0.25f32, 0.0, 0.0, 0.0, 0.0, -1.0] {
        expected.extend(be(w.to_bits()));
    }
    assert_eq!(bytes, expected);
    assert_eq!(&bytes[14..18], &[0, 0, 0, 1]);
    assert_eq!(&bytes[18..22], &[0x3f, 0x80, 0x00, 0x00]);
    assert_eq!(bytes.len(), 18 + 3 * (32 + 8) + 24);
}

#[test]
fn neighbours_written_in_ascending_order() {
    let g = build_adjacency(5, &vec![tri(4, 3, 0), tri(0, 2, 1)]).unwrap();
    let fine: Vec<VertexRecord> = (0..5).map(|_| vertex((0.0, 0.0, 0.0), (0.0, 0.0, 0.0))).collect();
    let bytes = encode_graph(FormatVersion::V1, &fine, &g, &vec![], &vec![]).unwrap();
    let count = u32::from_be_bytes([bytes[38], bytes[39], bytes[40], bytes[41]]);
    assert_eq!(count, 4);
    let words: Vec<u32> = (0..4)
        .map(|k| {
            let at = 42 + 4 * k;
            u32::from_be_bytes([bytes[at], bytes[at + 1], bytes[at + 2], bytes[at + 3]])
        })
        .collect();
    assert_eq!(words, vec![1, 2, 3, 4]);
}

#[test]
fn version_two_rejects_coarse_not_smaller() {
    let g = build_adjacency(3, &vec![tri(0, 1, 2)]).unwrap();
    let fine: Vec<VertexRecord> = (0..3).map(|_| vertex((0.0, 0.0, 0.0), (0.0, 0.0, 0.0))).collect();
    let r = encode_graph(FormatVersion::V2, &fine, &g, &vec![0, 0, 0], &fine);
    assert_eq!(r, Err(GraphError::CoarseNotSmaller));
    assert!(encode_graph(FormatVersion::V1, &fine, &g, &vec![], &fine).is_ok());
}
