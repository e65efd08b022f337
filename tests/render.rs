use rust_tgf::decimal::{i64_text, u64_text};
use rust_tgf::grid::plan_grid;
use rust_tgf::render::{gen_matrix, header_line, node_line};

fn coords(count: usize, tag: &str) -> Vec<(String, String)> {
    (0..count).map(|t| (format!("{}x{}", tag, t), format!("{}y{}", tag, t))).collect()
}

#[test]
fn integer_texts() {
    assert_eq!(u64_text(0), "0");
    assert_eq!(u64_text(45), "45");
    assert_eq!(u64_text(u64::MAX), "18446744073709551615");
    assert_eq!(i64_text(-5), "-5");
    assert_eq!(i64_text(i64::MIN), "-9223372036854775808");
    assert_eq!(i64_text(i64::MAX), "9223372036854775807");
}

#[test]
fn header_declares_requested_count() {
    assert_eq!(header_line(50), "50\n");
    assert_eq!(header_line(0), "0\n");
}

#[test]
fn nine_nodes_two_sinks() {
    let text = gen_matrix(9, 90, 2, &coords(9, ""));
    let lines: Vec<&str> = text.split_terminator('\n').collect();
    assert_eq!(lines.len(), 10);
    assert_eq!(lines[0], "9");
    assert_eq!(lines[1], "0 x0 y0 90");
    assert_eq!(lines[2], "1 x1 y1 -45");
    assert_eq!(lines[3], "2 x2 y2 -45");
    assert_eq!(lines[4], "3 x3 y3 ");
    assert_eq!(lines[7], "6 x6 y6 ");
    assert_eq!(lines[9], "8 x8 y8 ");
}

#[test]
fn trailing_space_only_in_rows_up_to_sink_count() {
    let text = gen_matrix(9, 90, 0, &coords(9, ""));
    let lines: Vec<&str> = text.split_terminator('\n').collect();
    assert_eq!(lines[1], "0 x0 y0 90");
    assert_eq!(lines[2], "1 x1 y1 ");
    assert_eq!(lines[4], "3 x3 y3");
    assert_eq!(lines[9], "8 x8 y8");
}

#[test]
fn requested_count_differs_from_lines() {
    let text = gen_matrix(50, 100, 4, &coords(49, ""));
    let lines: Vec<&str> = text.split_terminator('\n').collect();
    assert_eq!(lines[0], "50");
    assert_eq!(lines.len() - 1, 49);
    assert_eq!(lines[5], "4 x4 y4 -25");
    assert_eq!(lines[6], "5 x5 y5 ");
}

#[test]
fn negative_production_keeps_sign_text() {
    let plan = plan_grid(9, -7, 2);
    assert_eq!(node_line(&plan[0], "a", "b"), "0 a b -7\n");
    assert_eq!(node_line(&plan[1], "a", "b"), "1 a b --3\n");
}

#[test]
fn empty_grid_is_header_only() {
    assert_eq!(gen_matrix(0, 100, 4, &Vec::new()), "0\n");
    assert_eq!(gen_matrix(3, 100, 4, &coords(1, "")), "3\n0 x0 y0 100\n");
}

#[test]
fn two_runs_share_structure() {
    let a = gen_matrix(16, 100, 4, &coords(16, "a"));
    let b = gen_matrix(16, 100, 4, &coords(16, "b"));
    let la: Vec<&str> = a.split_terminator('\n').collect();
    let lb: Vec<&str> = b.split_terminator('\n').collect();
    assert_eq!(la.len(), lb.len());
    assert_eq!(la[0], lb[0]);
    for t in 1..la.len() {
        let fa: Vec<&str> = la[t].split(' ').collect();
        let fb: Vec<&str> = lb[t].split(' ').collect();
        assert_eq!(fa[0], fb[0]);
        assert_eq!(fa[3..], fb[3..]);
    }
}
