use autograph::flags::ImageLayout;
use autograph::graph::{
    BarrierDetail, Dependency, Edge, FrameGraph, GraphError, SubpassBarrier, TaskDetails,
};
use autograph::ids::{ImageId, TaskId};

fn plain_dependency(latency: u32) -> Dependency {
    Dependency {
        src_stage_mask: 0x1,
        dst_stage_mask: 0x8,
        barrier: BarrierDetail::Subpass(SubpassBarrier {
            id: ImageId(0),
            old_layout: ImageLayout::Undefined,
            new_layout: ImageLayout::Undefined,
            src_access_mask: 0,
            dst_access_mask: 0,
        }),
        latency,
    }
}

fn graph_of(tasks: usize, edges: &[(usize, usize)]) -> FrameGraph {
    let mut graph = FrameGraph::new();
    for i in 0..tasks {
        let id = graph.create_task(format!("task{}", i), 0, TaskDetails::Other);
        assert_eq!(id, TaskId(i));
    }
    for &(a, b) in edges {
        assert_eq!(graph.add_dependency(TaskId(a), TaskId(b), plain_dependency(0)), Ok(()));
    }
    graph
}

#[test]
fn new_graph_is_empty() {
    let graph = FrameGraph::new();
    assert_eq!(graph.task_count(), 0);
    assert_eq!(graph.dependency_count(), 0);
    assert!(graph.task(TaskId(0)).is_none());
    assert_eq!(graph.dependency(0), None);
    assert_eq!(graph.execution_order(), Vec::<TaskId>::new());
}

#[test]
fn create_task_returns_declaration_position() {
    let mut graph = FrameGraph::new();
    let a = graph.create_task(String::from("a"), 0, TaskDetails::Other);
    let b = graph.create_task(String::from("b"), 2, TaskDetails::Other);
    assert_eq!(a, TaskId(0));
    assert_eq!(b, TaskId(1));
    assert_eq!(graph.task_count(), 2);
    assert_eq!(graph.task(b).unwrap().name, "b");
    assert_eq!(graph.task(b).unwrap().queue, 2);
    assert!(matches!(graph.task(a).unwrap().details, TaskDetails::Other));
    assert_eq!(graph.dependency_count(), 0);
}

#[test]
fn add_dependency_records_the_edge() {
    let mut graph = graph_of(2, &[]);
    assert_eq!(graph.add_dependency(TaskId(0), TaskId(1), plain_dependency(7)), Ok(()));
    assert_eq!(graph.dependency_count(), 1);
    assert_eq!(
        graph.dependency(0),
        Some(Edge { src: TaskId(0), dst: TaskId(1), dependency: plain_dependency(7) })
    );
    assert_eq!(graph.dependency(1), None);
}

#[test]
fn dependency_that_closes_a_cycle_is_refused() {
    let mut graph = graph_of(3, &[(0, 1), (1, 2)]);
    assert_eq!(
        graph.add_dependency(TaskId(2), TaskId(0), plain_dependency(0)),
        Err(GraphError::Cycle)
    );
    assert_eq!(graph.dependency_count(), 2);
    assert_eq!(graph.task_count(), 3);
    assert_eq!(
        graph.add_dependency(TaskId(1), TaskId(0), plain_dependency(0)),
        Err(GraphError::Cycle)
    );
    assert_eq!(graph.dependency_count(), 2);
    assert_eq!(graph.dependency(0).unwrap().src, TaskId(0));
    assert_eq!(graph.dependency(1).unwrap().dst, TaskId(2));
}

#[test]
fn self_dependency_is_refused() {
    let mut graph = graph_of(1, &[]);
    assert_eq!(
        graph.add_dependency(TaskId(0), TaskId(0), plain_dependency(0)),
        Err(GraphError::SelfDependency)
    );
    assert_eq!(graph.dependency_count(), 0);
}

#[test]
fn dependency_on_unknown_task_is_refused() {
    let mut graph = graph_of(2, &[]);
    assert_eq!(
        graph.add_dependency(TaskId(0), TaskId(2), plain_dependency(0)),
        Err(GraphError::UnknownTask)
    );
    assert_eq!(
        graph.add_dependency(TaskId(9), TaskId(9), plain_dependency(0)),
        Err(GraphError::UnknownTask)
    );
    assert_eq!(graph.dependency_count(), 0);
}

#[test]
fn parallel_edges_are_kept() {
    let mut graph = graph_of(2, &[(0, 1)]);
    assert_eq!(graph.add_dependency(TaskId(0), TaskId(1), plain_dependency(3)), Ok(()));
    assert_eq!(graph.dependency_count(), 2);
}

#[test]
fn check_answers_without_changing_the_graph() {
    let graph = graph_of(3, &[(0, 1), (1, 2)]);
    assert_eq!(graph.check(TaskId(0), TaskId(2)), Ok(()));
    assert_eq!(graph.check(TaskId(2), TaskId(0)), Err(GraphError::Cycle));
    assert_eq!(graph.check(TaskId(1), TaskId(1)), Err(GraphError::SelfDependency));
    assert_eq!(graph.check(TaskId(1), TaskId(3)), Err(GraphError::UnknownTask));
    assert_eq!(graph.dependency_count(), 2);
}

#[test]
fn depends_on_follows_chains_of_edges() {
    let graph = graph_of(5, &[(0, 1), (1, 2), (3, 2)]);
    assert!(graph.depends_on(TaskId(0), TaskId(2)));
    assert!(graph.depends_on(TaskId(0), TaskId(1)));
    assert!(graph.depends_on(TaskId(3), TaskId(2)));
    assert!(graph.depends_on(TaskId(4), TaskId(4)));
    assert!(!graph.depends_on(TaskId(2), TaskId(0)));
    assert!(!graph.depends_on(TaskId(0), TaskId(3)));
    assert!(!graph.depends_on(TaskId(4), TaskId(0)));
}

#[test]
fn depends_on_sees_edges_added_against_declaration_order() {
    // The edge list is scanned front to back; this chain runs back to front.
    let graph = graph_of(4, &[(2, 3), (1, 2), (0, 1)]);
    assert!(graph.depends_on(TaskId(0), TaskId(3)));
    assert!(!graph.depends_on(TaskId(3), TaskId(0)));
}

#[test]
fn execution_order_of_independent_tasks_is_declaration_order() {
    let graph = graph_of(4, &[]);
    assert_eq!(graph.execution_order(), vec![TaskId(0), TaskId(1), TaskId(2), TaskId(3)]);
}

#[test]
fn execution_order_puts_sources_first() {
    let graph = graph_of(4, &[(3, 0), (2, 3)]);
    assert_eq!(graph.execution_order(), vec![TaskId(1), TaskId(2), TaskId(3), TaskId(0)]);
}

#[test]
fn execution_order_breaks_ties_by_declaration() {
    // 0 and 1 both wait for 4; 2 and 3 are free.
    let graph = graph_of(5, &[(4, 0), (4, 1)]);
    assert_eq!(
        graph.execution_order(),
        vec![TaskId(2), TaskId(3), TaskId(4), TaskId(0), TaskId(1)]
    );
}

#[test]
fn execution_order_of_a_diamond() {
    let graph = graph_of(4, &[(0, 1), (0, 2), (1, 3), (2, 3)]);
    assert_eq!(graph.execution_order(), vec![TaskId(0), TaskId(1), TaskId(2), TaskId(3)]);
}

#[test]
fn set_details_replaces_what_a_task_does() {
    let mut graph = graph_of(2, &[(0, 1)]);
    assert!(graph.set_details(TaskId(1), TaskDetails::Other));
    assert!(!graph.set_details(TaskId(2), TaskDetails::Other));
    assert_eq!(graph.task_count(), 2);
    assert_eq!(graph.dependency_count(), 1);
    assert_eq!(graph.task(TaskId(1)).unwrap().name, "task1");
}

#[test]
fn graph_stays_acyclic_over_many_requests() {
    let mut graph = graph_of(6, &[]);
    let requests = [(0, 1), (1, 2), (2, 0), (2, 3), (3, 1), (4, 5), (5, 4), (3, 4), (5, 0), (0, 5)];
    let mut accepted = 0;
    for &(a, b) in requests.iter() {
        let before = graph.dependency_count();
        match graph.add_dependency(TaskId(a), TaskId(b), plain_dependency(0)) {
            Ok(()) => {
                accepted += 1;
                assert_eq!(graph.dependency_count(), before + 1);
            }
            Err(GraphError::Cycle) => {
                assert!(graph.depends_on(TaskId(b), TaskId(a)));
                assert_eq!(graph.dependency_count(), before);
            }
            Err(other) => panic!("unexpected refusal {:?}", other),
        }
    }
    assert_eq!(accepted, 6);
    let order = graph.execution_order();
    assert_eq!(order.len(), 6);
    for i in 0..graph.dependency_count() {
        let edge = graph.dependency(i).unwrap();
        let src = order.iter().position(|t| *t == edge.src).unwrap();
        let dst = order.iter().position(|t| *t == edge.dst).unwrap();
        assert!(src < dst);
    }
}

#[test]
fn barriers_are_emitted_task_by_task_in_execution_order() {
    let mut graph = graph_of(4, &[]);
    // 3 comes first; 0 waits for 3 and 1; 2 waits for 0.
    graph.add_dependency(TaskId(1), TaskId(0), plain_dependency(10)).unwrap();
    graph.add_dependency(TaskId(0), TaskId(2), plain_dependency(20)).unwrap();
    graph.add_dependency(TaskId(3), TaskId(0), plain_dependency(30)).unwrap();
    graph.add_dependency(TaskId(3), TaskId(2), plain_dependency(40)).unwrap();
    assert_eq!(graph.execution_order(), vec![TaskId(1), TaskId(3), TaskId(0), TaskId(2)]);
    let latencies: Vec<u32> =
        graph.barrier_order().iter().map(|edge| edge.dependency.latency).collect();
    assert_eq!(latencies, vec![10, 30, 20, 40]);
    assert!(FrameGraph::new().barrier_order().is_empty());
}

#[test]
fn clear_empties_the_graph() {
    let mut graph = graph_of(3, &[(0, 1), (1, 2)]);
    graph.clear();
    assert_eq!(graph.task_count(), 0);
    assert_eq!(graph.dependency_count(), 0);
    assert_eq!(graph.create_task(String::from("again"), 0, TaskDetails::Other), TaskId(0));
}

#[test]
fn barriers_in_follows_the_order_that_is_given() {
    let mut graph = graph_of(3, &[]);
    graph.add_dependency(TaskId(0), TaskId(2), plain_dependency(1)).unwrap();
    graph.add_dependency(TaskId(0), TaskId(1), plain_dependency(2)).unwrap();
    graph.add_dependency(TaskId(1), TaskId(2), plain_dependency(3)).unwrap();
    let latencies = |order: Vec<TaskId>| -> Vec<u32> {
        graph.barriers_in(&order).iter().map(|edge| edge.dependency.latency).collect()
    };
    assert_eq!(latencies(vec![TaskId(0), TaskId(1), TaskId(2)]), vec![2, 1, 3]);
    assert_eq!(latencies(vec![TaskId(2), TaskId(1)]), vec![1, 3, 2]);
    assert_eq!(latencies(vec![TaskId(0)]), Vec::<u32>::new());
    assert_eq!(latencies(vec![]), Vec::<u32>::new());
}

#[test]
fn nothing_depends_on_what_is_no_task() {
    let graph = graph_of(2, &[(0, 1)]);
    assert!(!graph.depends_on(TaskId(0), TaskId(5)));
    assert!(!graph.depends_on(TaskId(5), TaskId(1)));
    assert!(!graph.depends_on(TaskId(5), TaskId(6)));
    assert!(graph.depends_on(TaskId(5), TaskId(5)));
}
