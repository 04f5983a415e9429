use simple_graph::{Graph, GraphError};

#[test]
fn add_vertex_test() {
    let mut x = Graph::new(false);
    x.insert_vertex(0).expect("error first add");
    x.insert_vertex(1).expect("error second add");
    x.insert_vertex(1).expect_err("not error found at third");
    x.insert_vertex(50).expect("error third add");
}

#[test]
fn add_edge_test() {
    let mut x = Graph::new(false);
    x.insert_vertex(0).expect("error first add");
    x.insert_vertex(1).expect("error second add");
    x.insert_vertex(4).expect("error third add");

    x.insert_edge(0, 1, 100).expect("error adding first edge");
    x.insert_edge(0, 4, 500).expect("error adding second edge");
}

#[test]
fn find_edge_test() {
    let mut x = Graph::new(true);
    x.insert_vertex(0).expect("error first add");
    x.insert_vertex(1).expect("error second add");
    x.insert_vertex(4).expect("error third add");

    x.insert_edge(0, 1, 100).expect("error adding first edge");
    x.insert_edge(0, 4, 500).expect("error adding second edge");

    assert!(x.edge_exists(0, 1));
    assert!(x.edge_exists(0, 4));
    assert!(!x.edge_exists(1, 4));
}

#[test]
fn modify_edge_test() {
    let mut x = Graph::new(false);
    x.insert_vertex(0).expect("error first add");
    x.insert_vertex(1).expect("error second add");
    x.insert_vertex(4).expect("error third add");

    x.insert_edge(0, 1, 100).expect("error adding first edge");
    x.insert_edge(0, 4, 500).expect("error adding second edge");

    x.update_edge(0, 1, 5).expect("error modifying edge");

    println!("{}", x.render());
    assert_eq!(x.render(), "0 -> [(1, 5), (4, 500)]\n1 -> [(0, 5)]\n4 -> [(0, 500)]\n");
}

#[test]
fn delete_vertex() {
    let mut x = Graph::new(false);
    x.insert_vertex(0).expect("error first add");
    x.insert_vertex(1).expect("error second add");
    x.insert_vertex(4).expect("error third add");

    x.insert_edge(0, 1, 100).expect("error adding first edge");
    x.insert_edge(0, 4, 500).expect("error adding second edge");

    x.update_edge(0, 1, 5).expect("error modifying edge");

    x.clean_vertex(0);
    assert!(!x.vertex_exists(0));
    println!("{}", x.render());
    assert_eq!(x.render(), "1 -> []\n4 -> []\n");

    x.clean_vertex(1);
    assert!(!x.vertex_exists(1));
    println!("{}", x.render());
    assert_eq!(x.render(), "4 -> []\n");
}

#[test]
fn new_graph_is_empty() {
    let g = Graph::new(true);
    assert!(!g.vertex_exists(0));
    assert!(!g.vertex_exists(usize::MAX));
    assert_eq!(g.render(), "");
    let d = Graph::default();
    assert_eq!(d.render(), "");
}

#[test]
fn default_graph_is_undirected() {
    let mut g = Graph::default();
    g.insert_vertex(0).unwrap();
    g.insert_vertex(1).unwrap();
    g.insert_edge(0, 1, 3).unwrap();
    assert!(g.edge_exists(1, 0));
}

#[test]
fn second_insert_of_a_vertex_is_rejected_and_changes_nothing() {
    let mut g = Graph::new(false);
    assert_eq!(g.insert_vertex(3), Ok(()));
    let after_first = g.render();
    assert_eq!(g.insert_vertex(3), Err(GraphError::VertexDuplication));
    assert_eq!(g.render(), after_first);
    assert_eq!(after_first, "3 -> []\n");
}

#[test]
fn insert_vertex_leaves_intermediate_ids_absent() {
    let mut g = Graph::new(true);
    assert_eq!(g.insert_vertex(1), Ok(()));
    assert_eq!(g.insert_vertex(6), Ok(()));
    assert!(g.vertex_exists(1));
    assert!(g.vertex_exists(6));
    for id in [0usize, 2, 3, 4, 5, 7] {
        assert!(!g.vertex_exists(id));
    }
    assert_eq!(g.insert_vertex(3), Ok(()));
    assert!(g.vertex_exists(3));
    assert!(g.vertex_exists(6));
    assert_eq!(g.render(), "1 -> []\n3 -> []\n6 -> []\n");
}

#[test]
fn removed_vertex_can_be_inserted_again() {
    let mut g = Graph::new(true);
    g.insert_vertex(2).unwrap();
    assert_eq!(g.remove_vertex(2), Ok(()));
    assert!(!g.vertex_exists(2));
    assert_eq!(g.insert_vertex(2), Ok(()));
    assert!(g.vertex_exists(2));
}

#[test]
fn remove_vertex_rejects_absent_vertex() {
    let mut g = Graph::new(true);
    assert_eq!(g.remove_vertex(0), Err(GraphError::VertexNotExist));
    g.insert_vertex(5).unwrap();
    assert_eq!(g.remove_vertex(2), Err(GraphError::VertexNotExist));
    assert_eq!(g.remove_vertex(9), Err(GraphError::VertexNotExist));
    assert_eq!(g.render(), "5 -> []\n");
}

#[test]
fn undirected_edges_are_mirrored() {
    let mut g = Graph::new(false);
    for id in [0usize, 1, 2] {
        g.insert_vertex(id).unwrap();
    }
    g.insert_edge(0, 1, 10).unwrap();
    g.insert_edge(2, 1, -4).unwrap();
    assert!(g.edge_exists(0, 1) && g.edge_exists(1, 0));
    assert!(g.edge_exists(2, 1) && g.edge_exists(1, 2));
    assert!(!g.edge_exists(0, 2) && !g.edge_exists(2, 0));
    assert_eq!(g.render(), "0 -> [(1, 10)]\n1 -> [(0, 10), (2, -4)]\n2 -> [(1, -4)]\n");
    g.update_edge(1, 0, 77).unwrap();
    assert_eq!(g.render(), "0 -> [(1, 77)]\n1 -> [(0, 77), (2, -4)]\n2 -> [(1, -4)]\n");
    assert_eq!(g.insert_edge(1, 0, 1), Err(GraphError::EdgeDuplication));
}

#[test]
fn directed_edge_does_not_lead_back() {
    let mut g = Graph::new(true);
    g.insert_vertex(0).unwrap();
    g.insert_vertex(1).unwrap();
    g.insert_edge(0, 1, 9).unwrap();
    assert!(g.edge_exists(0, 1));
    assert!(!g.edge_exists(1, 0));
    assert_eq!(g.insert_edge(1, 0, 8), Ok(()));
    assert_eq!(g.render(), "0 -> [(1, 9)]\n1 -> [(0, 8)]\n");
    assert_eq!(g.update_edge(0, 1, 1), Ok(()));
    assert_eq!(g.render(), "0 -> [(1, 1)]\n1 -> [(0, 8)]\n");
    assert_eq!(g.remove_edge(0, 1), Ok(()));
    assert!(!g.edge_exists(0, 1));
    assert!(g.edge_exists(1, 0));
}

#[test]
fn remove_vertex_prunes_every_reference() {
    let mut g = Graph::new(true);
    for id in [0usize, 1, 2, 3] {
        g.insert_vertex(id).unwrap();
    }
    g.insert_edge(0, 2, 1).unwrap();
    g.insert_edge(1, 2, 2).unwrap();
    g.insert_edge(1, 3, 3).unwrap();
    g.insert_edge(2, 3, 4).unwrap();
    g.insert_edge(3, 2, 5).unwrap();
    g.insert_edge(3, 0, 6).unwrap();
    assert_eq!(g.remove_vertex(2), Ok(()));
    assert!(!g.vertex_exists(2));
    assert_eq!(g.render(), "0 -> []\n1 -> [(3, 3)]\n3 -> [(0, 6)]\n");
    g.insert_vertex(2).unwrap();
    for id in [0usize, 1, 2, 3] {
        assert!(!g.edge_exists(id, 2));
        assert!(!g.edge_exists(2, id));
    }
}

#[test]
fn undirected_remove_vertex_scenario() {
    let mut g = Graph::new(false);
    g.insert_vertex(0).unwrap();
    g.insert_vertex(1).unwrap();
    g.insert_vertex(4).unwrap();
    g.insert_edge(0, 1, 100).unwrap();
    assert_eq!(g.remove_vertex(0), Ok(()));
    assert!(!g.vertex_exists(0));
    assert_eq!(g.render(), "1 -> []\n4 -> []\n");
    assert_eq!(g.insert_edge(1, 0, 1), Err(GraphError::VertexNotExist));
}

#[test]
fn undirected_update_scenario() {
    let mut g = Graph::new(false);
    g.insert_vertex(0).unwrap();
    g.insert_vertex(1).unwrap();
    g.insert_edge(0, 1, 100).unwrap();
    assert_eq!(g.update_edge(0, 1, 5), Ok(()));
    assert_eq!(g.render(), "0 -> [(1, 5)]\n1 -> [(0, 5)]\n");
}

#[test]
fn update_twice_keeps_the_last_weight_only() {
    let mut g = Graph::new(true);
    g.insert_vertex(0).unwrap();
    g.insert_vertex(1).unwrap();
    g.insert_edge(0, 1, 1).unwrap();
    g.update_edge(0, 1, 30).unwrap();
    g.update_edge(0, 1, 12).unwrap();
    assert_eq!(g.render(), "0 -> [(1, 12)]\n1 -> []\n");
}

#[test]
fn edge_operations_reject_absent_vertices() {
    let mut g = Graph::new(true);
    g.insert_vertex(0).unwrap();
    assert_eq!(g.insert_edge(0, 1, 1), Err(GraphError::VertexNotExist));
    assert_eq!(g.insert_edge(1, 0, 1), Err(GraphError::VertexNotExist));
    assert_eq!(g.update_edge(0, 7, 1), Err(GraphError::VertexNotExist));
    assert_eq!(g.update_edge(7, 0, 1), Err(GraphError::VertexNotExist));
    assert_eq!(g.remove_edge(0, 7), Err(GraphError::VertexNotExist));
    assert_eq!(g.remove_edge(7, 7), Err(GraphError::VertexNotExist));
    assert_eq!(g.render(), "0 -> []\n");
}

#[test]
fn edge_operations_reject_absent_and_duplicate_edges() {
    let mut g = Graph::new(false);
    g.insert_vertex(0).unwrap();
    g.insert_vertex(1).unwrap();
    assert_eq!(g.update_edge(0, 1, 1), Err(GraphError::EdgeNotExist));
    assert_eq!(g.remove_edge(0, 1), Err(GraphError::EdgeNotExist));
    assert_eq!(g.render(), "0 -> []\n1 -> []\n");
    assert_eq!(g.insert_edge(0, 1, 1), Ok(()));
    assert_eq!(g.insert_edge(0, 1, 2), Err(GraphError::EdgeDuplication));
    assert_eq!(g.insert_edge(1, 0, 2), Err(GraphError::EdgeDuplication));
    assert_eq!(g.render(), "0 -> [(1, 1)]\n1 -> [(0, 1)]\n");
}

#[test]
fn remove_edge_moves_the_last_entry_into_the_gap() {
    let mut g = Graph::new(true);
    for id in [0usize, 1, 2, 3] {
        g.insert_vertex(id).unwrap();
    }
    g.insert_edge(0, 1, 11).unwrap();
    g.insert_edge(0, 2, 22).unwrap();
    g.insert_edge(0, 3, 33).unwrap();
    assert_eq!(g.remove_edge(0, 1), Ok(()));
    assert_eq!(g.render(), "0 -> [(3, 33), (2, 22)]\n1 -> []\n2 -> []\n3 -> []\n");
    assert!(!g.edge_exists(0, 1));
    assert!(g.edge_exists(0, 2));
    assert!(g.edge_exists(0, 3));
    assert_eq!(g.remove_edge(0, 2), Ok(()));
    assert_eq!(g.render(), "0 -> [(3, 33)]\n1 -> []\n2 -> []\n3 -> []\n");
}

#[test]
fn undirected_remove_edge_removes_both_entries() {
    let mut g = Graph::new(false);
    for id in [0usize, 1, 2] {
        g.insert_vertex(id).unwrap();
    }
    g.insert_edge(0, 1, 1).unwrap();
    g.insert_edge(1, 2, 2).unwrap();
    assert_eq!(g.remove_edge(1, 0), Ok(()));
    assert_eq!(g.render(), "0 -> []\n1 -> [(2, 2)]\n2 -> [(1, 2)]\n");
    assert!(!g.edge_exists(0, 1));
    assert!(!g.edge_exists(1, 0));
    assert_eq!(g.remove_edge(0, 1), Err(GraphError::EdgeNotExist));
}

#[test]
fn undirected_self_loop_is_recorded_once() {
    let mut g = Graph::new(false);
    g.insert_vertex(0).unwrap();
    assert!(!g.edge_exists(0, 0));
    assert_eq!(g.insert_edge(0, 0, 7), Ok(()));
    assert!(g.edge_exists(0, 0));
    assert_eq!(g.render(), "0 -> [(0, 7)]\n");
    assert_eq!(g.insert_edge(0, 0, 8), Err(GraphError::EdgeDuplication));
    assert_eq!(g.update_edge(0, 0, 9), Ok(()));
    assert_eq!(g.render(), "0 -> [(0, 9)]\n");
    assert_eq!(g.remove_edge(0, 0), Ok(()));
    assert_eq!(g.render(), "0 -> []\n");
    assert!(!g.edge_exists(0, 0));
}

#[test]
fn directed_self_loop() {
    let mut g = Graph::new(true);
    g.insert_vertex(2).unwrap();
    assert_eq!(g.insert_edge(2, 2, -1), Ok(()));
    assert!(g.edge_exists(2, 2));
    assert_eq!(g.render(), "2 -> [(2, -1)]\n");
    assert_eq!(g.remove_vertex(2), Ok(()));
    assert_eq!(g.render(), "");
}

#[test]
fn render_writes_numbers_in_decimal() {
    let mut g = Graph::new(true);
    g.insert_vertex(0).unwrap();
    g.insert_vertex(10).unwrap();
    g.insert_vertex(123).unwrap();
    g.insert_edge(10, 0, 0).unwrap();
    g.insert_edge(10, 123, i32::MIN).unwrap();
    g.insert_edge(10, 10, i32::MAX).unwrap();
    g.insert_edge(123, 0, -10).unwrap();
    g.insert_edge(123, 10, 1009).unwrap();
    assert_eq!(
        g.render(),
        "0 -> []\n10 -> [(0, 0), (123, -2147483648), (10, 2147483647)]\n123 -> [(0, -10), (10, 1009)]\n"
    );
}

#[test]
fn render_matches_the_debug_form_of_the_lists() {
    let mut g = Graph::new(false);
    let lists: Vec<(usize, Vec<(usize, i32)>)> = vec![
        (1, vec![(3, -5), (20, 99)]),
        (3, vec![(1, -5)]),
        (20, vec![(1, 99)]),
    ];
    for (id, _) in lists.iter() {
        g.insert_vertex(*id).unwrap();
    }
    g.insert_edge(1, 3, -5).unwrap();
    g.insert_edge(20, 1, 99).unwrap();
    let mut expected = String::new();
    for (id, list) in lists.iter() {
        expected.push_str(&format!("{} -> {:?}\n", id, list));
    }
    assert_eq!(g.render(), expected);
}

#[test]
fn error_messages() {
    assert_eq!(GraphError::VertexNotExist.message(), "Trying to access a vertex non-existent");
    assert_eq!(GraphError::VertexDuplication.message(), "Trying to insert the same vertex two times");
    assert_eq!(GraphError::EdgeNotExist.message(), "Trying to access a edge non-existent");
    assert_eq!(GraphError::EdgeDuplication.message(), "Trying to insert the same edge two times");
}

#[test]
fn errors_compare_and_copy() {
    let e = GraphError::EdgeNotExist;
    let f = e;
    assert_eq!(e, f);
    assert_ne!(e, GraphError::EdgeDuplication);
    assert_ne!(GraphError::VertexNotExist, GraphError::VertexDuplication);
}
