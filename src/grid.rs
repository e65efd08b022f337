//! The layout of the grid: its side, the position of each node in it and the
//! role that each node plays in the flow network.
use vstd::prelude::*;
use vstd::arithmetic::div_mod::{lemma_basic_div, lemma_div_non_zero, lemma_small_mod};
use vstd::set_lib::{set_int_range, lemma_int_range};

verus! {

/// The largest `k` with `k * k <= n`.
pub open spec fn floor_sqrt(n: nat) -> nat
    decreases n,
{
    if n == 0 {
        0
    } else {
        let r = floor_sqrt((n - 1) as nat);
        if (r + 1) * (r + 1) <= n {
            r + 1
        } else {
            r
        }
    }
}

/// `k` is the integer square root of `n`.
pub open spec fn is_floor_sqrt(n: int, k: int) -> bool {
    0 <= k && k * k <= n && n < (k + 1) * (k + 1)
}

pub proof fn lemma_floor_sqrt_bounds(n: nat)
    ensures
        is_floor_sqrt(n as int, floor_sqrt(n) as int),
    decreases n,
{
    if n > 0 {
        lemma_floor_sqrt_bounds((n - 1) as nat);
        let r = floor_sqrt((n - 1) as nat);
        assert((r + 2) * (r + 2) == (r + 1) * (r + 1) + 2 * r + 3) by (nonlinear_arith);
    }
}

pub proof fn lemma_floor_sqrt_unique(n: int, k: int, m: int)
    requires
        is_floor_sqrt(n, k),
        is_floor_sqrt(n, m),
    ensures
        k == m,
{
    if k < m {
        assert((k + 1) * (k + 1) <= m * m) by (nonlinear_arith)
            requires
                0 <= k + 1 <= m,
        ;
    } else if m < k {
        assert((m + 1) * (m + 1) <= k * k) by (nonlinear_arith)
            requires
                0 <= m + 1 <= k,
        ;
    }
}

/// The number of nodes on each side of the grid that `node_count` asks for.
pub open spec fn side_of(node_count: nat) -> nat {
    floor_sqrt(node_count)
}

/// The side of the grid for a requested number of nodes: the integer square
/// root of `node_count`, so that `side * side` nodes are laid out.
pub fn grid_side(node_count: u64) -> (side: u64)
    ensures
        side == side_of(node_count as nat),
        side as int * side as int <= node_count,
        side <= 4294967295,
{
    let mut lo: u64 = 0;
    let mut hi: u64 = 4294967296;
    let n = node_count as u128;
    assert(4294967296u128 * 4294967296u128 == 18446744073709551616u128);
    while hi - lo > 1
        invariant
            lo < hi <= 4294967296,
            n == node_count as u128,
            lo as int * lo as int <= n,
            n < hi as int * hi as int,
        decreases hi - lo,
    {
        let mid: u64 = lo + (hi - lo) / 2;
        assert(mid as int * mid as int <= 4294967296 * 4294967296) by (nonlinear_arith)
            requires
                mid <= 4294967296,
        ;
        let sq: u128 = (mid as u128) * (mid as u128);
        if sq <= n {
            lo = mid;
        } else {
            hi = mid;
        }
    }
    proof {
        lemma_floor_sqrt_bounds(node_count as nat);
        lemma_floor_sqrt_unique(node_count as int, lo as int, floor_sqrt(node_count as nat) as int);
    }
    lo
}

/// Integer division of `a` by a positive `b`, rounded toward zero.
pub open spec fn trunc_div(a: int, b: int) -> int {
    if a >= 0 {
        a / b
    } else {
        -((-a) / b)
    }
}

/// The share of the production rate that each sink absorbs:
/// `production_rate / sink_count`, rounded toward zero.
pub fn sink_share(production_rate: i64, sink_count: u64) -> (share: i64)
    requires
        sink_count >= 1,
    ensures
        share == trunc_div(production_rate as int, sink_count as int),
{
    let magnitude: u64 = if production_rate >= 0 {
        production_rate as u64
    } else if production_rate == i64::MIN {
        9223372036854775808u64
    } else {
        (-production_rate) as u64
    };
    let m: u64 = magnitude / sink_count;
    assert(m <= magnitude) by (nonlinear_arith)
        requires
            m == magnitude / sink_count,
            sink_count >= 1,
    ;
    if production_rate >= 0 {
        m as i64
    } else if m == 9223372036854775808u64 {
        i64::MIN
    } else {
        -(m as i64)
    }
}

/// What a node is in the flow network.
#[derive(Clone, Copy, Debug, PartialEq, Eq, Structural)]
pub enum Role {
    /// A node that neither produces nor absorbs.
    Plain,
    /// The one node that produces `rate` units.
    Source { rate: i64 },
    /// A node that absorbs `share` units; its rate is `-share`.
    Sink { share: i64 },
}

/// The rate that a role carries, if any: positive for the source, the
/// negated share for a sink.
pub open spec fn rate_of(role: Role) -> Option<int> {
    match role {
        Role::Plain => None,
        Role::Source { rate } => Some(rate as int),
        Role::Sink { share } => Some(-(share as int)),
    }
}

/// The role of the node at `row`, `col`: the corner is the source, the
/// following nodes of the first row up to column `sink_count` are sinks.
pub open spec fn role_at(row: nat, col: nat, production_rate: i64, sink_count: nat) -> Role {
    if row + col == 0 {
        Role::Source { rate: production_rate }
    } else if row == 0 && row + col <= sink_count {
        Role::Sink { share: trunc_div(production_rate as int, sink_count as int) as i64 }
    } else {
        Role::Plain
    }
}

/// The role of the node at `row`, `col` of the grid.
pub fn node_role(row: u64, col: u64, production_rate: i64, sink_count: u64) -> (role: Role)
    ensures
        role == role_at(row as nat, col as nat, production_rate, sink_count as nat),
{
    if row == 0 && col == 0 {
        Role::Source { rate: production_rate }
    } else if row == 0 && col <= sink_count {
        Role::Sink { share: sink_share(production_rate, sink_count) }
    } else {
        Role::Plain
    }
}

/// Everything about a node that does not depend on chance: its id, its cell,
/// whether its row is shifted by half a pitch, whether its line ends its
/// coordinates with a space, and its role.
#[derive(Clone, Copy, Debug, PartialEq, Eq, Structural)]
pub struct NodePlan {
    pub id: u64,
    pub row: u64,
    pub col: u64,
    pub offset_row: bool,
    pub trailing_space: bool,
    pub role: Role,
}

/// The node with row-major index `index` in a grid of side `side`.
pub open spec fn node_at(side: nat, index: nat, production_rate: i64, sink_count: nat) -> NodePlan {
    let row = index / side;
    let col = index % side;
    NodePlan {
        id: index as u64,
        row: row as u64,
        col: col as u64,
        offset_row: row % 2 == 1,
        trailing_space: row <= sink_count,
        role: role_at(row, col, production_rate, sink_count),
    }
}

/// The nodes laid out for a request of `node_count` nodes, in row-major order.
pub open spec fn grid_plan(node_count: nat, production_rate: i64, sink_count: nat) -> Seq<NodePlan> {
    let side = side_of(node_count);
    Seq::new(side * side, |t: int| node_at(side, t as nat, production_rate, sink_count))
}

/// The node with row-major index `index` in a grid of side `side`.
pub fn plan_node(side: u64, index: u64, production_rate: i64, sink_count: u64) -> (node: NodePlan)
    requires
        side >= 1,
    ensures
        node == node_at(side as nat, index as nat, production_rate, sink_count as nat),
{
    let row = index / side;
    let col = index % side;
    NodePlan {
        id: index,
        row,
        col,
        offset_row: row % 2 == 1,
        trailing_space: row <= sink_count,
        role: node_role(row, col, production_rate, sink_count),
    }
}

/// All nodes of the grid for a request of `node_count` nodes, row by row.
pub fn plan_grid(node_count: u64, production_rate: i64, sink_count: u64) -> (plan: Vec<NodePlan>)
    ensures
        plan@ == grid_plan(node_count as nat, production_rate, sink_count as nat),
{
    let side = grid_side(node_count);
    let total: u64 = side * side;
    let mut plan: Vec<NodePlan> = Vec::new();
    let mut t: u64 = 0;
    while t < total
        invariant
            side == side_of(node_count as nat),
            total == side * side,
            t <= total,
            plan@.len() == t,
            forall|u: int|
                0 <= u < t ==> plan@[u] == node_at(
                    side as nat,
                    u as nat,
                    production_rate,
                    sink_count as nat,
                ),
        decreases total - t,
    {
        plan.push(plan_node(side, t, production_rate, sink_count));
        t = t + 1;
    }
    assert(plan@ =~= grid_plan(node_count as nat, production_rate, sink_count as nat));
    plan
}

/// Where in the first row an index falls: index `t` is in row 0 exactly
/// when `t < side`, and there it is column `t`.
proof fn lemma_first_row(side: nat, t: nat)
    requires
        side >= 1,
    ensures
        (t / side == 0) <==> t < side,
        t < side ==> t % side == t,
{
    if t < side {
        lemma_basic_div(t as int, side as int);
        lemma_small_mod(t, side);
    } else {
        lemma_div_non_zero(t as int, side as int);
    }
}

/// A request for at least one node lays out at least one.
proof fn lemma_side_positive(node_count: nat)
    requires
        node_count >= 1,
    ensures
        side_of(node_count) >= 1,
{
    lemma_floor_sqrt_bounds(node_count);
    let side = side_of(node_count);
    assert(side >= 1) by (nonlinear_arith)
        requires
            is_floor_sqrt(node_count as int, side as int),
            node_count >= 1,
    ;
}

/// The grid has `k * k` nodes for the integer square root `k` of the
/// requested count, which never exceeds that count.
pub proof fn lemma_plan_size(node_count: nat, production_rate: i64, sink_count: nat)
    ensures
        grid_plan(node_count, production_rate, sink_count).len() == side_of(node_count) * side_of(node_count),
        is_floor_sqrt(node_count as int, side_of(node_count) as int),
{
    lemma_floor_sqrt_bounds(node_count);
}

/// With a positive production rate, exactly one node carries a positive
/// rate: the corner node, with id 0, and its rate is the production rate.
pub proof fn lemma_single_source(node_count: nat, production_rate: i64, sink_count: nat)
    requires
        node_count >= 1,
        production_rate > 0,
    ensures
        ({
            let plan = grid_plan(node_count, production_rate, sink_count);
            &&& plan.len() >= 1
            &&& plan[0].row == 0 && plan[0].col == 0 && plan[0].id == 0
            &&& rate_of(plan[0].role) == Some(production_rate as int)
            &&& forall|t: int|
                0 <= t < plan.len() ==> (#[trigger] rate_of(plan[t].role) matches Some(r) && r > 0
                    <==> t == 0)
        }),
{
    let plan = grid_plan(node_count, production_rate, sink_count);
    let side = side_of(node_count);
    lemma_side_positive(node_count);
    assert(side * side >= 1) by (nonlinear_arith)
        requires
            side >= 1,
    ;
    lemma_first_row(side, 0);
    assert forall|t: int| 0 <= t < plan.len() implies (#[trigger] rate_of(plan[t].role) matches Some(
        r,
    ) && r > 0 <==> t == 0) by {
        lemma_first_row(side, t as nat);
        if t != 0 {
            if t / side as int == 0 {
                assert(t % side as int != 0);
            }
            let q = production_rate as int / sink_count as int;
            if sink_count >= 1 {
                assert(q >= 0) by (nonlinear_arith)
                    requires
                        production_rate > 0,
                        sink_count >= 1,
                        q == production_rate as int / sink_count as int,
                ;
            }
        }
    }
}

/// The sinks are the nodes with ids 1 to `min(sink_count, k - 1)` for a grid
/// of side `k`: as many as that minimum, each with the rate
/// `-(production_rate / sink_count)`, rounded toward zero.
pub proof fn lemma_sink_band(node_count: nat, production_rate: i64, sink_count: nat)
    requires
        node_count >= 1,
    ensures
        ({
            let plan = grid_plan(node_count, production_rate, sink_count);
            let last = if sink_count < side_of(node_count) - 1 {
                sink_count as int
            } else {
                side_of(node_count) - 1
            };
            &&& forall|t: int|
                0 <= t < plan.len() ==> (#[trigger] plan[t].role is Sink <==> 1 <= t <= last)
            &&& forall|t: int|
                0 <= t < plan.len() && plan[t].role is Sink ==> #[trigger] rate_of(plan[t].role)
                    == Some(-trunc_div(production_rate as int, sink_count as int))
            &&& Set::new(|t: int| 0 <= t < plan.len() && plan[t].role is Sink).len() == last
        }),
{
    let plan = grid_plan(node_count, production_rate, sink_count);
    let side = side_of(node_count);
    let last = if sink_count < side - 1 {
        sink_count as int
    } else {
        side - 1
    };
    lemma_side_positive(node_count);
    assert(side <= side * side) by (nonlinear_arith)
        requires
            side >= 1,
    ;
    assert forall|t: int| 0 <= t < plan.len() implies (#[trigger] plan[t].role is Sink <==> 1 <= t
        <= last) by {
        lemma_first_row(side, t as nat);
    }
    assert forall|t: int| 0 <= t < plan.len() && plan[t].role is Sink implies #[trigger] rate_of(
        plan[t].role,
    ) == Some(-trunc_div(production_rate as int, sink_count as int)) by {
        lemma_first_row(side, t as nat);
        let q = trunc_div(production_rate as int, sink_count as int);
        assert(i64::MIN <= q <= i64::MAX) by {
            if production_rate >= 0 {
                assert(0 <= q <= production_rate) by (nonlinear_arith)
                    requires
                        production_rate >= 0,
                        sink_count >= 1,
                        q == production_rate as int / sink_count as int,
                ;
            } else {
                let a = -(production_rate as int);
                assert(0 <= a / sink_count as int <= a) by (nonlinear_arith)
                    requires
                        a > 0,
                        sink_count >= 1,
                ;
            }
        }
    }
    let sinks = Set::new(|t: int| 0 <= t < plan.len() && plan[t].role is Sink);
    assert(sinks =~= set_int_range(1, last + 1));
    lemma_int_range(1, last + 1);
}

/// Without sinks requested, no node is a sink, so the share is never computed.
pub proof fn lemma_no_sinks(node_count: nat, production_rate: i64)
    ensures
        forall|t: int|
            0 <= t < grid_plan(node_count, production_rate, 0).len() ==> !(#[trigger] grid_plan(
                node_count,
                production_rate,
                0,
            )[t].role is Sink),
{
}

} // verus!
