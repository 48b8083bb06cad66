use flipchart::check::view_id;
use flipchart::diagram::{ready, theme, unread, Drawing, Rejection};
use flipchart::graph::{Diagram, ParseFailure};
use mermaid_rs_renderer::{
    compute_layout, parse_mermaid, parse_mermaid_strict, render_svg, LayoutConfig, ParseError,
};

/// The pipeline the application runs: mmdr's parse, the library's rules,
/// mmdr's renderer.
fn draw(source: &str) -> Result<Drawing, Rejection> {
    let ir = match parse_mermaid(source) {
        Ok(ir) => ir,
        Err(permissive) => {
            let typed = parse_mermaid_strict(source).err().map(typed);
            return Err(Rejection::Unparsed(unread(permissive.to_string(), &typed)));
        }
    };
    let ready = ready(Diagram::of(ir), source)?;
    let (theme, config) = (theme(), LayoutConfig::default());
    let scene = compute_layout(&ready.diagram.ir.graph, &theme, &config);
    let svg = render_svg(&scene, &theme, &config);
    Ok(ready.drawn(svg))
}

fn typed(error: ParseError) -> ParseFailure {
    match error {
        ParseError::UnknownParticipant { name, line, candidates } => {
            ParseFailure::UnknownParticipant { name, line, candidates }
        }
        ParseError::UnclosedSubgraph { opened_at } => ParseFailure::UnclosedSubgraph { opened_at },
        ParseError::UnexpectedToken { line, col, found, expected } => {
            ParseFailure::UnexpectedToken { line, col, found, expected }
        }
        other => ParseFailure::Unclassified(other.to_string()),
    }
}

fn outcome_of(source: &str, view_id: &str) -> String {
    flipchart::check::outcome_of(&draw(source), view_id)
}

#[test]
fn a_diagram_that_gets_drawn_says_the_outcome_and_the_recount() {
    let text = outcome_of("flowchart LR\n  A[One] --> B[Two]\n", "two-nodes");

    assert_eq!(text, "drawn\n2 nodes, 1 edge");
}

#[test]
fn a_drawing_with_a_note_prints_it_after_the_recount() {
    let text = outcome_of("flowchart TB\n  A[One] --> B[Two]\n", "two-nodes");

    assert_eq!(
        text,
        "drawn\n2 nodes, 1 edge\n\
         Note: the flipchart lays diagrams out left to right; the direction in your \
         source was ignored. The view was drawn."
    );
}

#[test]
fn a_rejection_says_the_outcome_and_the_text_the_agent_would_receive() {
    let text = outcome_of("flowchart TD\n  API[API Layer] --> Db\n", "fc-99");

    assert_eq!(
        text,
        "undeclared nodes\n\
         Rejected: nothing was drawn; view \"fc-99\" is unchanged.\n\
         1 node appears in the drawing that you did not declare.\n  \
         \"Db\"  line 2  — only used in a relation\n\
         Declare every node you name, and rewrite any line the renderer turned into one."
    );
}

#[test]
fn the_diagnostic_view_id_is_the_file_name() {
    assert_eq!(view_id("cases/fc-11-bare-header.mmd"), "fc-11-bare-header");
}

#[test]
fn a_source_that_does_not_parse_says_parse_error() {
    let text = outcome_of("this is not Mermaid", "nothing");

    assert!(text.starts_with("parse error\nRejected: nothing was drawn; view \"nothing\" is unchanged.\n"));
}

#[test]
fn a_path_with_no_file_name_is_its_own_view_id() {
    assert_eq!(view_id(".."), "..");
}
