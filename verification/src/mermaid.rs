//! The trusted boundary with `mermaid_rs_renderer` (mmdr): reading and
//! editing the IR its parser builds, and its default theme. Parsing and
//! rendering themselves can unwind, so the application makes those calls and
//! hands the library their results. Everything here is believed, not proved;
//! each item says what it claims.

use mermaid_rs_renderer::{DiagramKind, Direction, NodeShape, ParseOutput, Theme};
use vstd::prelude::*;

use crate::graph::{
    edge_views, group_views, node_views, EdgeFacts, Family, Flow, GraphView, GroupFacts, GroupView,
    NodeFacts, StyleChannel, StyleChannels,
};

verus! {

#[verifier::external_type_specification]
#[verifier::external_body]
pub struct ExParseOutput(ParseOutput);

#[verifier::external_type_specification]
#[verifier::external_body]
pub struct ExTheme(Theme);

/// What mmdr's IR holds, as the rules read it: the contents of its node map,
/// edge list and group list, with the kind, the direction and the style
/// channels. Every accessor and editor below speaks of it.
pub uninterp spec fn ir_contents(ir: ParseOutput) -> GraphView;

/// Reads `graph.kind`: flowchart, class, or any other family.
#[verifier::external_body]
pub(crate) fn family_of(parsed: &ParseOutput) -> (family: Family)
    ensures
        family == ir_contents(*parsed).family,
{
    match parsed.graph.kind {
        DiagramKind::Flowchart => Family::Flowchart,
        DiagramKind::Class => Family::Class,
        _ => Family::Other,
    }
}

/// Reads `graph.direction`: whether it is left to right.
#[verifier::external_body]
pub(crate) fn left_to_right_of(parsed: &ParseOutput) -> (b: bool)
    ensures
        b == ir_contents(*parsed).left_to_right,
{
    parsed.graph.direction == Direction::LeftRight
}

/// Reads `graph.nodes`, a map walked in id order: each node's id, label,
/// and whether its shape is the plain rectangle.
#[verifier::external_body]
pub(crate) fn nodes_of(parsed: &ParseOutput) -> (nodes: Vec<NodeFacts>)
    ensures
        node_views(nodes@) == ir_contents(*parsed).nodes,
{
    parsed.graph.nodes.values().map(
        |node| NodeFacts {
            id: node.id.clone(),
            label: node.label.clone(),
            rectangle: node.shape == NodeShape::Rectangle,
        },
    ).collect()
}

/// Reads `graph.edges`, in order: both ends of each edge and the labels it
/// has (middle, start, end, in that order).
#[verifier::external_body]
pub(crate) fn edges_of(parsed: &ParseOutput) -> (edges: Vec<EdgeFacts>)
    ensures
        edge_views(edges@) == ir_contents(*parsed).edges,
{
    parsed.graph.edges.iter().map(
        |edge| EdgeFacts {
            from: edge.from.clone(),
            to: edge.to.clone(),
            labels: edge.label.iter().chain(&edge.start_label).chain(&edge.end_label).cloned().collect(),
        },
    ).collect()
}

/// Reads `graph.subgraphs`, in order: each group's label, and whether it
/// carries a direction of its own.
#[verifier::external_body]
pub(crate) fn groups_of(parsed: &ParseOutput) -> (groups: Vec<GroupFacts>)
    ensures
        group_views(groups@) == ir_contents(*parsed).groups,
{
    parsed.graph.subgraphs.iter().map(
        |group| GroupFacts { label: group.label.clone(), own_direction: group.direction.is_some() },
    ).collect()
}

/// Reads the nine style channels —the graph's class definitions, node
/// classes, node styles, group styles, group classes, edge styles, default
/// edge style and links, and the parse output's `init` configuration—:
/// whether each came in filled.
#[verifier::external_body]
pub(crate) fn style_of(parsed: &ParseOutput) -> (style: StyleChannels)
    ensures
        style == ir_contents(*parsed).style,
{
    let graph = &parsed.graph;
    StyleChannels {
        class_defs: !graph.class_defs.is_empty(),
        node_classes: !graph.node_classes.is_empty(),
        node_styles: !graph.node_styles.is_empty(),
        subgraph_styles: !graph.subgraph_styles.is_empty(),
        subgraph_classes: !graph.subgraph_classes.is_empty(),
        edge_styles: !graph.edge_styles.is_empty(),
        edge_style_default: graph.edge_style_default.is_some(),
        node_links: !graph.node_links.is_empty(),
        init_config: parsed.init_config.is_some(),
    }
}

/// Empties one style channel of the IR, and touches nothing else the rules
/// read.
#[verifier::external_body]
pub(crate) fn empty_channel(parsed: &mut ParseOutput, channel: StyleChannel)
    ensures
        ir_contents(*final(parsed)) == (GraphView {
            style: ir_contents(*old(parsed)).style.without(channel),
            ..ir_contents(*old(parsed))
        }),
{
    let graph = &mut parsed.graph;
    match channel {
        StyleChannel::ClassDefs => graph.class_defs.clear(),
        StyleChannel::NodeClasses => graph.node_classes.clear(),
        StyleChannel::NodeStyles => graph.node_styles.clear(),
        StyleChannel::SubgraphStyles => graph.subgraph_styles.clear(),
        StyleChannel::SubgraphClasses => graph.subgraph_classes.clear(),
        StyleChannel::EdgeStyles => graph.edge_styles.clear(),
        StyleChannel::EdgeStyleDefault => graph.edge_style_default = None,
        StyleChannel::NodeLinks => graph.node_links.clear(),
        StyleChannel::InitConfig => parsed.init_config = None,
    }
}

/// Writes `flow` as the graph's direction (`graph.direction`), and touches
/// nothing else the rules read.
#[verifier::external_body]
pub(crate) fn set_direction(parsed: &mut ParseOutput, flow: Flow)
    ensures
        ir_contents(*final(parsed)) == (GraphView {
            left_to_right: flow == Flow::LeftRight,
            ..ir_contents(*old(parsed))
        }),
{
    parsed.graph.direction = match flow {
        Flow::TopDown => Direction::TopDown,
        Flow::BottomTop => Direction::BottomTop,
        Flow::LeftRight => Direction::LeftRight,
        Flow::RightLeft => Direction::RightLeft,
    };
}

/// How many groups the graph has (`graph.subgraphs.len()`).
#[verifier::external_body]
pub(crate) fn group_count(parsed: &ParseOutput) -> (n: usize)
    ensures
        n == ir_contents(*parsed).groups.len(),
{
    parsed.graph.subgraphs.len()
}

/// Takes away the direction of the group at `i` (`graph.subgraphs[i]`), and
/// touches nothing else the rules read.
#[verifier::external_body]
pub(crate) fn drop_group_direction(parsed: &mut ParseOutput, i: usize)
    requires
        i < ir_contents(*old(parsed)).groups.len(),
    ensures
        ir_contents(*final(parsed)) == (GraphView {
            groups: ir_contents(*old(parsed)).groups.update(
                i as int,
                GroupView { own_direction: false, ..ir_contents(*old(parsed)).groups[i as int] },
            ),
            ..ir_contents(*old(parsed))
        }),
{
    parsed.graph.subgraphs[i].direction = None;
}

/// `Theme::mermaid_default`: Mermaid's own default theme. Opaque.
#[verifier::external_body]
pub(crate) fn mermaid_theme() -> Theme {
    Theme::mermaid_default()
}

} // verus!
