use rust_tgf::grid::{grid_side, node_role, plan_grid, plan_node, sink_share, NodePlan, Role};

fn sinks_of(plan: &[NodePlan]) -> Vec<u64> {
    plan.iter().filter(|n| matches!(n.role, Role::Sink { .. })).map(|n| n.id).collect()
}

#[test]
fn side_is_integer_square_root() {
    assert_eq!(grid_side(0), 0);
    assert_eq!(grid_side(1), 1);
    assert_eq!(grid_side(3), 1);
    assert_eq!(grid_side(4), 2);
    assert_eq!(grid_side(15), 3);
    assert_eq!(grid_side(16), 4);
    assert_eq!(grid_side(50), 7);
    assert_eq!(grid_side(u64::MAX), 4294967295);
    assert_eq!(grid_side(4294967296 * 4294967295), 4294967295);
}

#[test]
fn line_count_is_square_of_side() {
    assert_eq!(plan_grid(50, 100, 4).len(), 49);
    assert_eq!(plan_grid(9, 100, 4).len(), 9);
    assert_eq!(plan_grid(10, 100, 4).len(), 9);
    assert_eq!(plan_grid(0, 100, 4).len(), 0);
    assert_eq!(plan_grid(1, 100, 4).len(), 1);
}

#[test]
fn share_rounds_toward_zero() {
    assert_eq!(sink_share(90, 2), 45);
    assert_eq!(sink_share(100, 3), 33);
    assert_eq!(sink_share(-7, 2), -3);
    assert_eq!(sink_share(3, 4), 0);
    assert_eq!(sink_share(i64::MIN, 1), i64::MIN);
    assert_eq!(sink_share(i64::MIN, 9223372036854775808), -1);
    assert_eq!(sink_share(i64::MAX, u64::MAX), 0);
}

#[test]
fn roles_by_cell() {
    assert_eq!(node_role(0, 0, 90, 2), Role::Source { rate: 90 });
    assert_eq!(node_role(0, 1, 90, 2), Role::Sink { share: 45 });
    assert_eq!(node_role(0, 2, 90, 2), Role::Sink { share: 45 });
    assert_eq!(node_role(0, 3, 90, 2), Role::Plain);
    assert_eq!(node_role(1, 0, 90, 2), Role::Plain);
    assert_eq!(node_role(0, 0, 90, 0), Role::Source { rate: 90 });
    assert_eq!(node_role(0, 1, 90, 0), Role::Plain);
}

#[test]
fn plan_node_cell_and_flags() {
    let n = plan_node(3, 5, 90, 2);
    assert_eq!(n.id, 5);
    assert_eq!(n.row, 1);
    assert_eq!(n.col, 2);
    assert!(n.offset_row);
    assert!(n.trailing_space);
    assert_eq!(n.role, Role::Plain);
    let m = plan_node(3, 7, 90, 1);
    assert_eq!(m.row, 2);
    assert!(!m.offset_row);
    assert!(!m.trailing_space);
}

#[test]
fn exactly_one_positive_rate() {
    let plan = plan_grid(50, 100, 4);
    let positive: Vec<u64> = plan
        .iter()
        .filter(|n| matches!(n.role, Role::Source { rate } if rate > 0))
        .map(|n| n.id)
        .collect();
    assert_eq!(positive, vec![0]);
    assert_eq!(plan[0].role, Role::Source { rate: 100 });
    assert_eq!((plan[0].row, plan[0].col), (0, 0));
}

#[test]
fn sink_band_is_clipped_to_grid() {
    assert_eq!(sinks_of(&plan_grid(50, 100, 4)), vec![1, 2, 3, 4]);
    assert_eq!(sinks_of(&plan_grid(9, 100, 4)), vec![1, 2]);
    assert_eq!(sinks_of(&plan_grid(9, 100, 1)), vec![1]);
    assert_eq!(sinks_of(&plan_grid(1, 100, 4)), Vec::<u64>::new());
    for n in plan_grid(50, 100, 4) {
        if let Role::Sink { share } = n.role {
            assert_eq!(share, 25);
        }
    }
}

#[test]
fn zero_sinks_with_default_count() {
    let plan = plan_grid(50, 100, 0);
    assert_eq!(plan.len(), 49);
    assert!(sinks_of(&plan).is_empty());
    assert_eq!(plan[0].role, Role::Source { rate: 100 });
    assert!(plan[0].trailing_space);
    assert!(!plan[7].trailing_space);
}

#[test]
fn same_request_same_plan() {
    assert_eq!(plan_grid(50, 100, 4), plan_grid(50, 100, 4));
}
