//! Undirected adjacency of the vertices of a triangle mesh.
use vstd::prelude::*;

use crate::GraphError;

verus! {

/// Every element is smaller than the next one: sorted, with no repeats.
pub open spec fn strictly_ascending(s: Seq<u32>) -> bool {
    forall|a: int, b: int| 0 <= a < b < s.len() ==> s[a] < s[b]
}

/// Inserts `x` into the strictly ascending list `l`, keeping it strictly
/// ascending; nothing changes when `x` is already there.
fn insert_sorted(l: &mut Vec<u32>, x: u32)
    requires
        strictly_ascending(old(l)@),
    ensures
        strictly_ascending(final(l)@),
        forall|y: u32| final(l)@.contains(y) <==> (old(l)@.contains(y) || y == x),
{
    let mut p: usize = 0;
    while p < l.len() && l[p] < x
        invariant
            p <= l@.len(),
            l@ == old(l)@,
            forall|k: int| 0 <= k < p ==> l@[k] < x,
        decreases l@.len() - p,
    {
        p = p + 1;
    }
    if p < l.len() && l[p] == x {
        assert(l@.contains(x));
        return;
    }
    let ghost before = l@;
    assert(before == old(l)@);
    l.insert(p, x);
    assert forall|y: u32| l@.contains(y) <==> (before.contains(y) || y == x) by {
        if l@.contains(y) {
            let k = choose|k: int| 0 <= k < l@.len() && l@[k] == y;
            if k < p {
                assert(before[k] == y);
            } else if k > p {
                assert(before[k - 1] == y);
            }
        }
        if before.contains(y) {
            let k = choose|k: int| 0 <= k < before.len() && before[k] == y;
            if k < p {
                assert(l@[k] == y);
            } else {
                assert(l@[k + 1] == y);
            }
        }
        if y == x {
            assert(l@[p as int] == x);
        }
    }
    assert(forall|y: u32| l@.contains(y) <==> (old(l)@.contains(y) || y == x));
}


/// A triangle of a mesh: three indices into its vertex sequence.
#[derive(Debug, Clone, Copy, PartialEq, Eq, Structural)]
pub struct Triangle {
    pub a: usize,
    pub b: usize,
    pub c: usize,
}

/// `v` is one of the corners of `t`.
pub open spec fn has_corner(t: Triangle, v: int) -> bool {
    v == t.a || v == t.b || v == t.c
}

/// `i` and `j` are two distinct corners of `t`, so `t` has an edge between them.
pub open spec fn edge_of(t: Triangle, i: int, j: int) -> bool {
    i != j && has_corner(t, i) && has_corner(t, j)
}

/// Some triangle of `tris` has an edge between `i` and `j`.
pub open spec fn linked(tris: Seq<Triangle>, i: int, j: int) -> bool {
    exists|k: int| 0 <= k < tris.len() && #[trigger] edge_of(tris[k], i, j)
}

/// Some corner of some triangle of `tris` is `n` or more.
pub open spec fn corner_out_of_range(tris: Seq<Triangle>, n: int) -> bool {
    exists|k: int|
        0 <= k < tris.len() && (#[trigger] tris[k].a >= n || tris[k].b >= n || tris[k].c >= n)
}

/// One neighbour list per vertex, each in ascending order.
pub struct Adjacency {
    lists: Vec<Vec<u32>>,
}

impl View for Adjacency {
    type V = Seq<Seq<u32>>;

    closed spec fn view(&self) -> Seq<Seq<u32>> {
        self.lists@.map_values(|l: Vec<u32>| l@)
    }
}

impl Adjacency {
    /// Every neighbour list is strictly ascending.
    pub open spec fn wf(&self) -> bool {
        forall|i: int| 0 <= i < self@.len() ==> #[trigger] strictly_ascending(self@[i])
    }

    /// This is the adjacency of the `n` vertices of a mesh with triangles
    /// `tris`: vertex `i` lists `x` exactly when some triangle has an edge
    /// between them.
    pub open spec fn models(&self, tris: Seq<Triangle>, n: int) -> bool {
        &&& self.wf()
        &&& n <= u32::MAX
        &&& self@.len() == n
        &&& forall|i: int, x: u32|
            0 <= i < n ==> (#[trigger] self@[i].contains(x) <==> (x < n && linked(
                tris,
                i,
                x as int,
            )))
    }

    /// The number of vertices.
    pub fn len(&self) -> (r: usize)
        ensures
            r == self@.len(),
    {
        self.lists.len()
    }

    /// The neighbours of vertex `i`, in ascending order.
    pub fn neighbors(&self, i: usize) -> (r: &Vec<u32>)
        requires
            i < self@.len(),
        ensures
            r@ == self@[i as int],
    {
        &self.lists[i]
    }

    /// How many neighbours vertex `i` has.
    pub fn degree(&self, i: usize) -> (r: usize)
        requires
            i < self@.len(),
        ensures
            r == self@[i as int].len(),
    {
        self.lists[i].len()
    }
}

/// Adds the edge between `u` and `v` to both their lists, unless `u == v`.
fn link(lists: &mut Vec<Vec<u32>>, u: usize, v: usize)
    requires
        u < old(lists)@.len(),
        v < old(lists)@.len(),
        u <= u32::MAX,
        v <= u32::MAX,
        forall|i: int| 0 <= i < old(lists)@.len() ==> strictly_ascending(#[trigger] old(lists)@[i]@),
    ensures
        final(lists)@.len() == old(lists)@.len(),
        forall|i: int| 0 <= i < final(lists)@.len() ==> strictly_ascending(#[trigger] final(lists)@[i]@),
        forall|i: int, x: u32|
            0 <= i < final(lists)@.len() ==> (#[trigger] final(lists)@[i]@.contains(x) <==> (
            old(lists)@[i]@.contains(x) || (u != v && ((i == u && x == v) || (i == v && x == u))))),
{
    if u == v {
        return;
    }
    insert_sorted(&mut lists[u], v as u32);
    insert_sorted(&mut lists[v], u as u32);
}


/// Adding triangle `k` to the first `k` triangles adds exactly its edges.
proof fn lemma_linked_step(tris: Seq<Triangle>, k: int, i: int, j: int)
    requires
        0 <= k < tris.len(),
    ensures
        linked(tris.take(k + 1), i, j) <==> (linked(tris.take(k), i, j) || edge_of(tris[k], i, j)),
{
    if linked(tris.take(k + 1), i, j) {
        let m = choose|m: int| 0 <= m < k + 1 && #[trigger] edge_of(tris.take(k + 1)[m], i, j);
        if m < k {
            assert(tris.take(k)[m] == tris.take(k + 1)[m]);
        }
    }
    if linked(tris.take(k), i, j) {
        let m = choose|m: int| 0 <= m < k && #[trigger] edge_of(tris.take(k)[m], i, j);
        assert(tris.take(k + 1)[m] == tris.take(k)[m]);
    }
    if edge_of(tris[k], i, j) {
        assert(tris.take(k + 1)[k] == tris[k]);
    }
}

/// Builds the adjacency of the `n` vertices of a mesh with triangles `tris`.
///
/// Fails with `CapacityExceeded` when `n` does not fit in 32 bits, and
/// otherwise with `IndexOutOfRange` when a triangle names a vertex at or
/// past `n`.
pub fn build_adjacency(n: usize, tris: &Vec<Triangle>) -> (r: Result<Adjacency, GraphError>)
    ensures
        match r {
            Ok(g) => n <= u32::MAX && !corner_out_of_range(tris@, n as int) && g.models(
                tris@,
                n as int,
            ),
            Err(e) => if n > u32::MAX {
                e == GraphError::CapacityExceeded
            } else {
                e == GraphError::IndexOutOfRange && corner_out_of_range(tris@, n as int)
            },
        },
{
    if n > u32::MAX as usize {
        return Err(GraphError::CapacityExceeded);
    }
    let mut k: usize = 0;
    while k < tris.len()
        invariant
            k <= tris@.len(),
            n <= u32::MAX,
            forall|j: int| 0 <= j < k ==> #[trigger] tris@[j].a < n && tris@[j].b < n && tris@[j].c < n,
        decreases tris@.len() - k,
    {
        let t = tris[k];
        if t.a >= n || t.b >= n || t.c >= n {
            assert(tris@[k as int] == t);
            assert(tris@[k as int].a >= n || tris@[k as int].b >= n || tris@[k as int].c >= n);
            assert(corner_out_of_range(tris@, n as int));
            return Err(GraphError::IndexOutOfRange);
        }
        k = k + 1;
    }
    let mut lists: Vec<Vec<u32>> = Vec::new();
    while lists.len() < n
        invariant
            lists@.len() <= n,
            n <= u32::MAX,
            forall|j: int| 0 <= j < tris@.len() ==> #[trigger] tris@[j].a < n && tris@[j].b < n && tris@[j].c < n,
            forall|i: int| 0 <= i < lists@.len() ==> (#[trigger] lists@[i])@ == Seq::<u32>::empty(),
        decreases n - lists@.len(),
    {
        lists.push(Vec::new());
    }
    let mut k: usize = 0;
    while k < tris.len()
        invariant
            k <= tris@.len(),
            lists@.len() == n,
            n <= u32::MAX,
            forall|j: int| 0 <= j < tris@.len() ==> #[trigger] tris@[j].a < n && tris@[j].b < n && tris@[j].c < n,
            forall|i: int| 0 <= i < n ==> strictly_ascending(#[trigger] lists@[i]@),
            forall|i: int, x: u32|
                0 <= i < n ==> (#[trigger] lists@[i]@.contains(x) <==> (x < n && linked(
                    tris@.take(k as int),
                    i,
                    x as int,
                ))),
        decreases tris@.len() - k,
    {
        let t = tris[k];
        let ghost prev = lists@;
        link(&mut lists, t.a, t.b);
        link(&mut lists, t.a, t.c);
        link(&mut lists, t.b, t.c);
        assert forall|i: int, x: u32| 0 <= i < n implies (#[trigger] lists@[i]@.contains(x) <==> (x
            < n && linked(tris@.take(k + 1), i, x as int))) by {
            lemma_linked_step(tris@, k as int, i, x as int);
            assert(tris@[k as int] == t);
        }
        k = k + 1;
    }
    assert(tris@.take(tris@.len() as int) == tris@);
    let g = Adjacency { lists };
    assert forall|i: int| 0 <= i < n implies g@[i] == g.lists@[i]@ by {}
    Ok(g)
}


/// Adjacency is symmetric: `j` is a neighbour of `i` exactly when `i` is a
/// neighbour of `j`.
pub proof fn lemma_adjacency_symmetric(g: &Adjacency, tris: Seq<Triangle>, n: int, i: int, j: int)
    requires
        g.models(tris, n),
        0 <= i < n,
        0 <= j < n,
    ensures
        g@[i].contains(j as u32) <==> g@[j].contains(i as u32),
{
    if linked(tris, i, j) {
        let k = choose|k: int| 0 <= k < tris.len() && #[trigger] edge_of(tris[k], i, j);
        assert(edge_of(tris[k], j, i));
    }
    if linked(tris, j, i) {
        let k = choose|k: int| 0 <= k < tris.len() && #[trigger] edge_of(tris[k], j, i);
        assert(edge_of(tris[k], i, j));
    }
}

/// No vertex is its own neighbour.
pub proof fn lemma_no_self_loops(g: &Adjacency, tris: Seq<Triangle>, n: int, i: int)
    requires
        g.models(tris, n),
        0 <= i < n,
    ensures
        !g@[i].contains(i as u32),
{
}

/// Each corner of each triangle with three distinct corners has the other
/// two corners as neighbours.
pub proof fn lemma_triangle_edges_present(g: &Adjacency, tris: Seq<Triangle>, n: int, k: int)
    requires
        g.models(tris, n),
        !corner_out_of_range(tris, n),
        0 <= k < tris.len(),
        tris[k].a != tris[k].b,
        tris[k].b != tris[k].c,
        tris[k].a != tris[k].c,
    ensures
        g@[tris[k].a as int].contains(tris[k].b as u32),
        g@[tris[k].a as int].contains(tris[k].c as u32),
        g@[tris[k].b as int].contains(tris[k].a as u32),
        g@[tris[k].b as int].contains(tris[k].c as u32),
        g@[tris[k].c as int].contains(tris[k].a as u32),
        g@[tris[k].c as int].contains(tris[k].b as u32),
{
    let t = tris[k];
    if t.a >= n || t.b >= n || t.c >= n {
        assert(corner_out_of_range(tris, n));
    }
    assert(edge_of(tris[k], t.a as int, t.b as int));
    assert(edge_of(tris[k], t.a as int, t.c as int));
    assert(edge_of(tris[k], t.b as int, t.a as int));
    assert(edge_of(tris[k], t.b as int, t.c as int));
    assert(edge_of(tris[k], t.c as int, t.a as int));
    assert(edge_of(tris[k], t.c as int, t.b as int));
}

} // verus!
