//! The text of the node list: a header line with the requested node count,
//! then one line per node.
use vstd::prelude::*;
use vstd::string::StringExecFns;
use crate::decimal::{decimal, signed_decimal, push_decimal, push_signed_decimal};
use crate::grid::{NodePlan, Role, grid_plan, side_of, plan_grid, is_floor_sqrt, lemma_plan_size};

verus! {

/// The text that follows the coordinates for a role: the rate of the
/// source, a minus sign and the share of a sink, nothing otherwise.
pub open spec fn rate_text(role: Role) -> Seq<char> {
    match role {
        Role::Plain => Seq::empty(),
        Role::Source { rate } => signed_decimal(rate as int),
        Role::Sink { share } => seq!['-'] + signed_decimal(share as int),
    }
}

/// What follows the coordinates on a node's line: the space that closes the
/// coordinates in the rows up to `sink_count`, the rate, the newline.
pub open spec fn line_tail(node: NodePlan) -> Seq<char> {
    (if node.trailing_space {
        seq![' ']
    } else {
        Seq::empty()
    }) + rate_text(node.role) + seq!['\n']
}

/// The line of a node whose coordinates read `x` and `y`.
pub open spec fn node_line_text(node: NodePlan, x: Seq<char>, y: Seq<char>) -> Seq<char> {
    decimal(node.id as nat) + seq![' '] + x + seq![' '] + y + line_tail(node)
}

/// The first line: the requested node count.
pub open spec fn header_text(node_count: nat) -> Seq<char> {
    decimal(node_count) + seq!['\n']
}

/// The lines of `lines`, one after another.
pub open spec fn joined(lines: Seq<Seq<char>>) -> Seq<char>
    decreases lines.len(),
{
    if lines.len() == 0 {
        Seq::empty()
    } else {
        joined(lines.drop_last()) + lines.last()
    }
}

/// The node lines of a plan, the coordinates of node `t` being the texts
/// `coords[t]`.
pub open spec fn node_lines(plan: Seq<NodePlan>, coords: Seq<(Seq<char>, Seq<char>)>) -> Seq<Seq<char>> {
    Seq::new(plan.len(), |t: int| node_line_text(plan[t], coords[t].0, coords[t].1))
}

/// The views of coordinate texts.
pub open spec fn coord_views(coords: Seq<(String, String)>) -> Seq<(Seq<char>, Seq<char>)> {
    coords.map_values(|c: (String, String)| (c.0@, c.1@))
}

/// The whole output for a request of `node_count` nodes.
pub open spec fn matrix_text(
    node_count: nat,
    production_rate: i64,
    sink_count: nat,
    coords: Seq<(Seq<char>, Seq<char>)>,
) -> Seq<char> {
    header_text(node_count) + joined(
        node_lines(grid_plan(node_count, production_rate, sink_count), coords),
    )
}

/// Appends the line of `node` to `out`.
pub fn push_node_line(out: &mut String, node: &NodePlan, x: &str, y: &str)
    ensures
        final(out)@ == old(out)@ + node_line_text(*node, x@, y@),
{
    proof {
        reveal_strlit(" ");
        reveal_strlit("-");
        reveal_strlit("\n");
    }
    push_decimal(out, node.id);
    out.append(" ");
    out.append(x);
    out.append(" ");
    out.append(y);
    if node.trailing_space {
        out.append(" ");
    }
    match node.role {
        Role::Plain => {},
        Role::Source { rate } => {
            push_signed_decimal(out, rate);
        },
        Role::Sink { share } => {
            out.append("-");
            push_signed_decimal(out, share);
        },
    }
    out.append("\n");
    assert(final(out)@ =~= old(out)@ + node_line_text(*node, x@, y@));
}

/// The line of `node`, its coordinates reading `x` and `y`.
pub fn node_line(node: &NodePlan, x: &str, y: &str) -> (line: String)
    ensures
        line@ == node_line_text(*node, x@, y@),
{
    let mut line = String::new();
    push_node_line(&mut line, node, x, y);
    assert(line@ =~= node_line_text(*node, x@, y@));
    line
}

/// The header line: the requested node count, which may exceed the number
/// of nodes laid out.
pub fn header_line(node_count: u64) -> (line: String)
    ensures
        line@ == header_text(node_count as nat),
{
    proof {
        reveal_strlit("\n");
    }
    let mut line = String::new();
    push_decimal(&mut line, node_count);
    line.append("\n");
    assert(line@ =~= header_text(node_count as nat));
    line
}

/// The whole node list for a request of `node_count` nodes: the header, then
/// the line of each node of the grid, node `t` with the coordinate texts
/// `coords[t]`.
pub fn gen_matrix(
    node_count: u64,
    production_rate: i64,
    sink_count: u64,
    coords: &Vec<(String, String)>,
) -> (text: String)
    requires
        coords@.len() == side_of(node_count as nat) * side_of(node_count as nat),
    ensures
        text@ == matrix_text(node_count as nat, production_rate, sink_count as nat, coord_views(coords@)),
{
    let plan = plan_grid(node_count, production_rate, sink_count);
    let ghost lines = node_lines(plan@, coord_views(coords@));
    let mut text = header_line(node_count);
    let mut t: usize = 0;
    while t < plan.len()
        invariant
            plan@ == grid_plan(node_count as nat, production_rate, sink_count as nat),
            coords@.len() == plan@.len(),
            lines == node_lines(plan@, coord_views(coords@)),
            t <= plan@.len(),
            text@ == header_text(node_count as nat) + joined(lines.take(t as int)),
        decreases plan@.len() - t,
    {
        let c = &coords[t];
        push_node_line(&mut text, &plan[t], c.0.as_str(), c.1.as_str());
        proof {
            assert(lines.take(t + 1).drop_last() =~= lines.take(t as int));
        }
        t = t + 1;
    }
    assert(lines.take(t as int) =~= lines);
    text
}

/// The output holds one node line for each of the `k * k` nodes, `k` being
/// the integer square root of the requested count, and its header declares
/// the requested count itself.
pub proof fn lemma_output_shape(
    node_count: nat,
    production_rate: i64,
    sink_count: nat,
    coords: Seq<(Seq<char>, Seq<char>)>,
)
    requires
        coords.len() == side_of(node_count) * side_of(node_count),
    ensures
        ({
            let lines = node_lines(grid_plan(node_count, production_rate, sink_count), coords);
            &&& lines.len() == side_of(node_count) * side_of(node_count)
            &&& is_floor_sqrt(node_count as int, side_of(node_count) as int)
            &&& matrix_text(node_count, production_rate, sink_count, coords) == decimal(node_count)
                + seq!['\n'] + joined(lines)
        }),
{
    lemma_plan_size(node_count, production_rate, sink_count);
}

/// Two outputs for the same request differ in their coordinates only: they
/// have the same header and as many lines, and line `t` of each is the id
/// `t`, the coordinates of that output and the same tail, with the same role.
pub proof fn lemma_structure_stable(
    node_count: u64,
    production_rate: i64,
    sink_count: nat,
    coords1: Seq<(Seq<char>, Seq<char>)>,
    coords2: Seq<(Seq<char>, Seq<char>)>,
)
    requires
        coords1.len() == side_of(node_count as nat) * side_of(node_count as nat),
        coords2.len() == side_of(node_count as nat) * side_of(node_count as nat),
    ensures
        ({
            let plan = grid_plan(node_count as nat, production_rate, sink_count);
            let lines1 = node_lines(plan, coords1);
            let lines2 = node_lines(plan, coords2);
            &&& lines1.len() == lines2.len()
            &&& forall|t: int|
                0 <= t < lines1.len() ==> {
                    &&& #[trigger] lines1[t] == decimal(t as nat) + seq![' '] + coords1[t].0
                        + seq![' '] + coords1[t].1 + line_tail(plan[t])
                    &&& lines2[t] == decimal(t as nat) + seq![' '] + coords2[t].0 + seq![' ']
                        + coords2[t].1 + line_tail(plan[t])
                }
        }),
{
    let plan = grid_plan(node_count as nat, production_rate, sink_count);
    assert forall|t: int| 0 <= t < plan.len() implies (plan[t].id as nat == t as nat) by {
        assert(t <= u64::MAX) by {
            lemma_plan_size(node_count as nat, production_rate, sink_count);
        }
    }
}

} // verus!
