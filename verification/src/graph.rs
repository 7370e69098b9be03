//! A directed graph kept as adjacency vectors, with integer handles in place
//! of references between vertices.

use vstd::prelude::*;

verus! {

/// The handle of a vertex: its index in the graph.
#[derive(PartialEq, Eq, Debug, Copy, Clone, Structural)]
pub struct VertexId {
    inner: usize,
}

impl View for VertexId {
    type V = usize;

    closed spec fn view(&self) -> usize {
        self.inner
    }
}

impl VertexId {
    pub fn new(id: usize) -> (handle: Self)
        ensures
            handle@ == id,
    {
        VertexId { inner: id }
    }
}

/// The handle of an arc: its index among the arcs that leave its vertex.
#[derive(PartialEq, Eq, Debug, Copy, Clone, Structural)]
pub struct ArcId {
    inner: usize,
}

impl View for ArcId {
    type V = usize;

    closed spec fn view(&self) -> usize {
        self.inner
    }
}

impl ArcId {
    pub fn new(id: usize) -> (handle: Self)
        ensures
            handle@ == id,
    {
        ArcId { inner: id }
    }
}

/// An arc as the contracts see it: what it costs and where it points.
pub struct ArcView<C> {
    pub cost: C,
    pub points_to: usize,
}

#[derive(Debug)]
struct Arc<C> {
    id: ArcId,
    cost: C,
    points_to: VertexId,
}

impl<C> Arc<C> {
    fn new(id: ArcId, cost: C, points_to: VertexId) -> (arc: Self)
        ensures
            arc.id == id,
            arc.cost == cost,
            arc.points_to == points_to,
    {
        Arc { id, cost, points_to }
    }

    spec fn view(&self) -> ArcView<C> {
        ArcView { cost: self.cost, points_to: self.points_to@ }
    }
}

#[derive(Debug)]
struct Vertex<C> {
    id: VertexId,
    parent: Option<(VertexId, C)>,
    adj: Vec<Arc<C>>,
}

impl<C> Vertex<C> {
    fn new(id: VertexId) -> (vertex: Self)
        ensures
            vertex.id == id,
            vertex.parent is None,
            vertex.adj@.len() == 0,
    {
        Vertex { id, parent: None, adj: Vec::new() }
    }

    /// The arcs that leave the vertex, in the order in which they were added.
    spec fn arcs(&self) -> Seq<ArcView<C>> {
        Seq::new(self.adj@.len(), |k: int| self.adj@[k].view())
    }

    /// Every arc carries its own index as its handle.
    spec fn numbered(&self) -> bool {
        forall|k: int| 0 <= k < self.adj@.len() ==> (#[trigger] self.adj@[k]).id@ == k
    }
}

/// A directed graph with a cost of type `C` on every arc.
#[derive(Debug)]
pub struct Graph<C> {
    vertices: Vec<Vertex<C>>,
}

impl<C> View for Graph<C> {
    /// For each vertex, by its handle, the arcs that leave it, in the order in
    /// which they were added.
    type V = Seq<Seq<ArcView<C>>>;

    closed spec fn view(&self) -> Seq<Seq<ArcView<C>>> {
        Seq::new(self.vertices@.len(), |v: int| self.vertices@[v].arcs())
    }
}

impl<C> Graph<C> {
    /// The layout behind the view: every vertex and every arc carries its own
    /// index as its handle.
    pub closed spec fn numbered(&self) -> bool {
        forall|v: int|
            0 <= v < self.vertices@.len() ==> {
                &&& (#[trigger] self.vertices@[v]).id@ == v
                &&& self.vertices@[v].numbered()
            }
    }

    /// Validity of a graph: handles are indices, and every arc points to a
    /// vertex of the graph.
    pub open spec fn wf(&self) -> bool {
        &&& self.numbered()
        &&& forall|v: int, k: int|
            0 <= v < self@.len() && 0 <= k < self@[v].len() ==> (#[trigger] self@[v][k]).points_to
                < self@.len()
    }

    /// The graph without vertices.
    pub fn new() -> (graph: Self)
        ensures
            graph.wf(),
            graph@.len() == 0,
    {
        Graph { vertices: Vec::new() }
    }

    /// Adds a vertex without arcs. Its handle is the number of vertices that
    /// the graph had before.
    pub fn add_vertex(&mut self) -> (id: VertexId)
        requires
            old(self).wf(),
        ensures
            final(self).wf(),
            id@ == old(self)@.len(),
            final(self)@ == old(self)@.push(Seq::empty()),
    {
        let id = VertexId::new(self.vertices.len());
        self.vertices.push(Vertex::new(id));
        proof {
            assert(self@ =~= old(self)@.push(Seq::empty())) by {
                assert forall|v: int| 0 <= v < self@.len() implies self@[v] =~= old(
                    self,
                )@.push(Seq::empty())[v] by {
                    if v < old(self)@.len() {
                        assert(self.vertices@[v] == old(self).vertices@[v]);
                    }
                }
            }
            assert forall|v: int| 0 <= v < self.vertices@.len() implies {
                &&& (#[trigger] self.vertices@[v]).id@ == v
                &&& self.vertices@[v].numbered()
            } by {
                if v < old(self)@.len() {
                    assert(self.vertices@[v] == old(self).vertices@[v]);
                }
            }
        }
        id
    }

    /// Adds an arc from `from` to `to` at cost `cost`. Both must be vertices
    /// of the graph. The arc's handle is the number of arcs that left `from`
    /// before; no other vertex changes.
    pub fn add_arc(&mut self, from: VertexId, to: VertexId, cost: C) -> (id: ArcId)
        requires
            old(self).wf(),
            from@ < old(self)@.len(),
            to@ < old(self)@.len(),
        ensures
            final(self).wf(),
            id@ == old(self)@[from@ as int].len(),
            final(self)@ == old(self)@.update(
                from@ as int,
                old(self)@[from@ as int].push(ArcView { cost, points_to: to@ }),
            ),
    {
        let id = ArcId::new(self.vertices[from.inner].adj.len());
        self.vertices[from.inner].adj.push(Arc::new(id, cost, to));
        proof {
            let f = from@ as int;
            let grown = old(self)@[f].push(ArcView { cost, points_to: to@ });
            assert(self.vertices@[f].arcs() =~= grown);
            assert(self@ =~= old(self)@.update(f, grown)) by {
                assert forall|v: int| 0 <= v < self@.len() implies self@[v] == old(self)@.update(
                    f,
                    grown,
                )[v] by {
                    if v != f {
                        assert(self.vertices@[v] == old(self).vertices@[v]);
                    }
                }
            }
            assert forall|v: int| 0 <= v < self.vertices@.len() implies {
                &&& (#[trigger] self.vertices@[v]).id@ == v
                &&& self.vertices@[v].numbered()
            } by {
                if v != f {
                    assert(self.vertices@[v] == old(self).vertices@[v]);
                } else {
                    assert(old(self).vertices@[f].numbered());
                }
            }
            assert forall|v: int, k: int|
                0 <= v < self@.len() && 0 <= k < self@[v].len() implies (#[trigger] self@[v][k]).points_to
                < self@.len() by {
                if v != f || k < old(self)@[f].len() {
                    assert(self@[v][k] == old(self)@[v][k]);
                }
            }
        }
        id
    }
}

} // verus!
