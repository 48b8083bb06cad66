//! The library's own picture of a parsed diagram: as plain values, what the
//! rules read of mmdr's IR, next to the IR itself, which is carried through
//! to the renderer untouched by anything but the house style.

use mermaid_rs_renderer::ParseOutput;
use vstd::prelude::*;

use crate::mermaid;

verus! {

/// The diagram families the house style tells apart.
#[derive(Clone, Copy, PartialEq, Eq, Debug)]
pub enum Family {
    Flowchart,
    Class,
    Other,
}

/// A node as the rules see it.
#[derive(Clone, Debug)]
pub struct NodeFacts {
    pub id: String,
    pub label: String,
    /// The shape is the plain rectangle a bare id gets.
    pub rectangle: bool,
}

/// An edge as the rules see it.
#[derive(Clone, Debug)]
pub struct EdgeFacts {
    pub from: String,
    pub to: String,
    /// The labels that are present: middle, start and end, in that order.
    pub labels: Vec<String>,
}

/// A group (subgraph) as the rules see it.
#[derive(Clone, Debug)]
pub struct GroupFacts {
    pub label: String,
    /// The group declared a direction of its own.
    pub own_direction: bool,
}

/// The nine channels through which a diagram asks for pixels: whether each
/// came in filled.
#[derive(Clone, Copy, Debug)]
pub struct StyleChannels {
    pub class_defs: bool,
    pub node_classes: bool,
    pub node_styles: bool,
    pub subgraph_styles: bool,
    pub subgraph_classes: bool,
    pub edge_styles: bool,
    pub edge_style_default: bool,
    pub node_links: bool,
    pub init_config: bool,
}

/// One of the nine channels through which a diagram asks for pixels.
#[derive(Clone, Copy, PartialEq, Eq, Debug)]
pub enum StyleChannel {
    ClassDefs,
    NodeClasses,
    NodeStyles,
    SubgraphStyles,
    SubgraphClasses,
    EdgeStyles,
    EdgeStyleDefault,
    NodeLinks,
    InitConfig,
}

/// The direction a graph is laid out in.
#[derive(Clone, Copy, PartialEq, Eq, Debug)]
pub enum Flow {
    TopDown,
    BottomTop,
    LeftRight,
    RightLeft,
}

/// What the rules read of a parsed graph.
#[derive(Clone, Debug)]
pub struct GraphFacts {
    pub family: Family,
    pub left_to_right: bool,
    pub nodes: Vec<NodeFacts>,
    pub edges: Vec<EdgeFacts>,
    pub groups: Vec<GroupFacts>,
    pub style: StyleChannels,
}

impl StyleChannels {
    /// No channel is filled.
    pub open spec fn is_empty(self) -> bool {
        &&& !self.class_defs
        &&& !self.node_classes
        &&& !self.node_styles
        &&& !self.subgraph_styles
        &&& !self.subgraph_classes
        &&& !self.edge_styles
        &&& !self.edge_style_default
        &&& !self.node_links
        &&& !self.init_config
    }

    /// Every channel empty.
    pub open spec fn none() -> StyleChannels {
        StyleChannels {
            class_defs: false,
            node_classes: false,
            node_styles: false,
            subgraph_styles: false,
            subgraph_classes: false,
            edge_styles: false,
            edge_style_default: false,
            node_links: false,
            init_config: false,
        }
    }

    /// The channels with `channel` emptied.
    pub open spec fn without(self, channel: StyleChannel) -> StyleChannels {
        match channel {
            StyleChannel::ClassDefs => StyleChannels { class_defs: false, ..self },
            StyleChannel::NodeClasses => StyleChannels { node_classes: false, ..self },
            StyleChannel::NodeStyles => StyleChannels { node_styles: false, ..self },
            StyleChannel::SubgraphStyles => StyleChannels { subgraph_styles: false, ..self },
            StyleChannel::SubgraphClasses => StyleChannels { subgraph_classes: false, ..self },
            StyleChannel::EdgeStyles => StyleChannels { edge_styles: false, ..self },
            StyleChannel::EdgeStyleDefault => StyleChannels { edge_style_default: false, ..self },
            StyleChannel::NodeLinks => StyleChannels { node_links: false, ..self },
            StyleChannel::InitConfig => StyleChannels { init_config: false, ..self },
        }
    }

    /// Every channel empty.
    pub fn emptied() -> (style: StyleChannels)
        ensures
            style == StyleChannels::none(),
    {
        StyleChannels {
            class_defs: false,
            node_classes: false,
            node_styles: false,
            subgraph_styles: false,
            subgraph_classes: false,
            edge_styles: false,
            edge_style_default: false,
            node_links: false,
            init_config: false,
        }
    }
}

// ---------------------------------------------------------------------------
// The same facts over character sequences, which the contracts speak of
// ---------------------------------------------------------------------------

pub struct NodeView {
    pub id: Seq<char>,
    pub label: Seq<char>,
    pub rectangle: bool,
}

pub struct EdgeView {
    pub from: Seq<char>,
    pub to: Seq<char>,
    pub labels: Seq<Seq<char>>,
}

pub struct GroupView {
    pub label: Seq<char>,
    pub own_direction: bool,
}

pub struct GraphView {
    pub family: Family,
    pub left_to_right: bool,
    pub nodes: Seq<NodeView>,
    pub edges: Seq<EdgeView>,
    pub groups: Seq<GroupView>,
    pub style: StyleChannels,
}

impl View for NodeFacts {
    type V = NodeView;

    open spec fn view(&self) -> NodeView {
        NodeView { id: self.id@, label: self.label@, rectangle: self.rectangle }
    }
}

impl View for EdgeFacts {
    type V = EdgeView;

    open spec fn view(&self) -> EdgeView {
        EdgeView {
            from: self.from@,
            to: self.to@,
            labels: self.labels@.map_values(|l: String| l@),
        }
    }
}

impl View for GroupFacts {
    type V = GroupView;

    open spec fn view(&self) -> GroupView {
        GroupView { label: self.label@, own_direction: self.own_direction }
    }
}

pub open spec fn node_views(nodes: Seq<NodeFacts>) -> Seq<NodeView> {
    nodes.map_values(|n: NodeFacts| n@)
}

pub open spec fn edge_views(edges: Seq<EdgeFacts>) -> Seq<EdgeView> {
    edges.map_values(|e: EdgeFacts| e@)
}

pub open spec fn group_views(groups: Seq<GroupFacts>) -> Seq<GroupView> {
    groups.map_values(|g: GroupFacts| g@)
}

/// The groups, each without a direction of its own.
pub open spec fn without_directions(groups: Seq<GroupView>) -> Seq<GroupView> {
    groups.map_values(|g: GroupView| GroupView { own_direction: false, ..g })
}

impl View for GraphFacts {
    type V = GraphView;

    open spec fn view(&self) -> GraphView {
        GraphView {
            family: self.family,
            left_to_right: self.left_to_right,
            nodes: node_views(self.nodes@),
            edges: edge_views(self.edges@),
            groups: group_views(self.groups@),
            style: self.style,
        }
    }
}

/// A parsed diagram: mmdr's IR, and the facts the rules read of it.
pub struct Diagram {
    pub ir: ParseOutput,
    pub graph: GraphFacts,
}

impl Diagram {
    /// The facts are those the IR holds: what the rules judge is what gets
    /// rendered.
    pub open spec fn well_formed(&self) -> bool {
        mermaid::ir_contents(self.ir) == self.graph@
    }

    /// Reads the facts out of mmdr's IR and keeps the IR alongside.
    pub fn of(ir: ParseOutput) -> (diagram: Diagram)
        ensures
            diagram.ir == ir,
            diagram.graph@ == mermaid::ir_contents(ir),
    {
        let graph = GraphFacts {
            family: mermaid::family_of(&ir),
            left_to_right: mermaid::left_to_right_of(&ir),
            nodes: mermaid::nodes_of(&ir),
            edges: mermaid::edges_of(&ir),
            groups: mermaid::groups_of(&ir),
            style: mermaid::style_of(&ir),
        };
        Diagram { ir, graph }
    }
}

/// mmdr's typed parse error, as plain values. The variants this library does
/// not word are kept as their text.
#[derive(Clone, Debug)]
pub enum ParseFailure {
    UnknownParticipant { name: String, line: u32, candidates: Vec<String> },
    UnclosedSubgraph { opened_at: u32 },
    UnexpectedToken { line: u32, col: u32, found: String, expected: String },
    Unclassified(String),
}

/// `ParseFailure` over character sequences.
pub enum FailureView {
    UnknownParticipant { name: Seq<char>, line: u32, candidates: Seq<Seq<char>> },
    UnclosedSubgraph { opened_at: u32 },
    UnexpectedToken { line: u32, col: u32, found: Seq<char>, expected: Seq<char> },
    Unclassified(Seq<char>),
}

impl View for ParseFailure {
    type V = FailureView;

    open spec fn view(&self) -> FailureView {
        match self {
            ParseFailure::UnknownParticipant { name, line, candidates } => {
                FailureView::UnknownParticipant {
                    name: name@,
                    line: *line,
                    candidates: candidates@.map_values(|c: String| c@),
                }
            },
            ParseFailure::UnclosedSubgraph { opened_at } => FailureView::UnclosedSubgraph {
                opened_at: *opened_at,
            },
            ParseFailure::UnexpectedToken { line, col, found, expected } => {
                FailureView::UnexpectedToken {
                    line: *line,
                    col: *col,
                    found: found@,
                    expected: expected@,
                }
            },
            ParseFailure::Unclassified(text) => FailureView::Unclassified(text@),
        }
    }
}

} // verus!
