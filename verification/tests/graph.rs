use snippets::graph::{ArcId, Graph, VertexId};

#[test]
fn it_works() {
    let mut graph: Graph<i32> = Graph::new();

    let v1 = graph.add_vertex();
    let v2 = graph.add_vertex();
    let v3 = graph.add_vertex();
    let v4 = graph.add_vertex();

    graph.add_arc(v1, v2, 42);
    graph.add_arc(v1, v3, 69);
    graph.add_arc(v2, v3, 40);
    graph.add_arc(v2, v4, 32);
    graph.add_arc(v3, v4, 20);
}

#[test]
fn handles_count_up_from_zero() {
    let mut graph: Graph<u8> = Graph::new();
    assert_eq!(graph.add_vertex(), VertexId::new(0));
    assert_eq!(graph.add_vertex(), VertexId::new(1));
    let a = VertexId::new(0);
    let b = VertexId::new(1);
    assert_eq!(graph.add_arc(a, b, 1), ArcId::new(0));
    assert_eq!(graph.add_arc(a, a, 2), ArcId::new(1));
    assert_eq!(graph.add_arc(b, a, 3), ArcId::new(0));
    assert_eq!(graph.add_vertex(), VertexId::new(2));
}
