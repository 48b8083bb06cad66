use flipchart::diagram::{diagnosed, ready, theme, unread, Drawing, Rejection};
use flipchart::graph::{Diagram, ParseFailure};
use mermaid_rs_renderer::{
    compute_layout, parse_mermaid, parse_mermaid_strict, render_svg, LayoutConfig, ParseError,
    Theme,
};

/// The pipeline the application runs: mmdr's parse, the library's rules,
/// mmdr's renderer.
fn draw(source: &str) -> Result<Drawing, Rejection> {
    let ir = match parse_mermaid(source) {
        Ok(ir) => ir,
        Err(permissive) => {
            let typed = parse_mermaid_strict(source).err().map(typed);
            return Err(Rejection::Unparsed(unread(permissive.to_string(), &typed)));
        }
    };
    let ready = ready(Diagram::of(ir), source)?;
    let (theme, config) = (theme(), LayoutConfig::default());
    let scene = compute_layout(&ready.diagram.ir.graph, &theme, &config);
    let svg = render_svg(&scene, &theme, &config);
    Ok(ready.drawn(svg))
}

fn typed(error: ParseError) -> ParseFailure {
    match error {
        ParseError::UnknownParticipant { name, line, candidates } => {
            ParseFailure::UnknownParticipant { name, line, candidates }
        }
        ParseError::UnclosedSubgraph { opened_at } => ParseFailure::UnclosedSubgraph { opened_at },
        ParseError::UnexpectedToken { line, col, found, expected } => {
            ParseFailure::UnexpectedToken { line, col, found, expected }
        }
        other => ParseFailure::Unclassified(other.to_string()),
    }
}

const TWO_NODES: &str = "flowchart TD\n  A[One] --> B[Two]\n";

#[test]
fn the_pipeline_returns_an_svg_with_the_labels_inside() {
    let drawing = draw(TWO_NODES).unwrap();

    assert!(drawing.svg.starts_with("<svg"));
    assert!(drawing.svg.contains("One"));
    assert!(drawing.svg.contains("Two"));
}

#[test]
fn the_pipeline_counts_what_it_has_drawn() {
    let drawing = draw(TWO_NODES).unwrap();

    assert_eq!((drawing.nodes, drawing.edges), (2, 1));
}

#[test]
fn the_theme_is_mermaids_and_not_the_modern_14_px_one() {
    assert_eq!(theme().font_size, Theme::mermaid_default().font_size);
    assert_ne!(theme().font_size, Theme::modern().font_size);
}

#[test]
fn what_is_not_mermaid_never_gets_drawn() {
    assert!(draw("this is not Mermaid").is_err());
}

#[test]
fn what_does_not_parse_is_the_parse_error_outcome() {
    let rejection = draw("this is not Mermaid").unwrap_err();

    assert_eq!(rejection.outcome(), "parse error");
}

#[test]
fn a_node_the_agent_did_not_declare_is_the_rules_outcome() {
    let rejection = draw("flowchart TD\n  API[API Layer] --> Db\n").unwrap_err();

    assert_eq!(rejection.outcome(), "undeclared nodes");
}

#[test]
fn the_parse_error_comes_before_the_rules_because_without_a_graph_there_are_none() {
    let rejection = draw("not Mermaid\n  API[API Layer] --> Db\n").unwrap_err();

    assert_eq!(rejection.outcome(), "parse error");
}

#[test]
fn every_rejection_that_is_not_the_panic_opens_with_the_fixed_line() {
    let rejection = draw("this is not Mermaid").unwrap_err();

    assert!(
        rejection
            .told_about("proposed")
            .starts_with("Rejected: nothing was drawn; view \"proposed\" is unchanged.\n")
    );
}

#[test]
fn the_panic_is_the_only_rejection_that_says_the_fault_is_ours() {
    let text = Rejection::RendererPanicked.told_about("proposed");

    assert_eq!(
        text,
        "Rejected: the renderer failed on this diagram; nothing was drawn.\n\
         View \"proposed\" is unchanged. This is a bug in the flipchart, not in your \
         diagram — try a simpler diagram, or the same one with fewer nodes."
    );
}

#[test]
fn the_unexpected_token_carries_line_column_and_what_was_found() {
    let text = diagnosed(&ParseFailure::UnexpectedToken {
        line: 4,
        col: 3,
        found: "-->".to_string(),
        expected: "class".to_string(),
    });

    assert_eq!(
        text,
        "Unexpected token at line 4, column 3 — found \"-->\", expected class."
    );
}

#[test]
fn a_long_expected_stops_at_the_first_three() {
    let text = diagnosed(&ParseFailure::UnexpectedToken {
        line: 4,
        col: 3,
        found: "-->".to_string(),
        expected: "class, }, an identifier, a comment".to_string(),
    });

    assert!(text.ends_with("expected class, } or an identifier."));
}

#[test]
fn the_unknown_participant_offers_the_candidates() {
    let text = diagnosed(&ParseFailure::UnknownParticipant {
        name: "Ordr".to_string(),
        line: 6,
        candidates: vec!["Order".to_string()],
    });

    assert_eq!(
        text,
        "Unknown node \"Ordr\" at line 6 — did you mean \"Order\"?"
    );
}

#[test]
fn the_unknown_participant_with_no_candidates_invents_none() {
    let text = diagnosed(&ParseFailure::UnknownParticipant {
        name: "Ordr".to_string(),
        line: 6,
        candidates: Vec::new(),
    });

    assert_eq!(
        text,
        "Unknown node \"Ordr\" at line 6 — it was never declared."
    );
}

#[test]
fn the_unclosed_subgraph_says_where_it_was_opened() {
    let text = diagnosed(&ParseFailure::UnclosedSubgraph { opened_at: 3 });

    assert_eq!(text, "A subgraph opened at line 3 was never closed.");
}

#[test]
fn the_unclassified_variant_admits_we_have_not_classified_it() {
    let text = diagnosed(&ParseFailure::Unclassified(
        ParseError::InvalidDirective {
            line: 2,
            col: 1,
            directive: "init".to_string(),
            reason: "empty body".to_string(),
        }
        .to_string(),
    ));

    assert!(text.starts_with("The flipchart did not classify this failure: "));
}

#[test]
fn three_candidates_read_as_a_list_with_or_before_the_last() {
    let text = diagnosed(&ParseFailure::UnknownParticipant {
        name: "Ordr".to_string(),
        line: 12,
        candidates: vec!["Order".to_string(), "Orders".to_string(), "Ord".to_string(), "O".to_string()],
    });

    assert_eq!(
        text,
        "Unknown node \"Ordr\" at line 12 — did you mean \"Order\", \"Orders\" or \"Ord\"?"
    );
}

#[test]
fn each_rejection_names_its_outcome() {
    assert_eq!(Rejection::InvalidInput(String::new()).outcome(), "invalid input");
    assert_eq!(Rejection::Unparsed(String::new()).outcome(), "parse error");
    assert_eq!(Rejection::Undeclared(String::new()).outcome(), "undeclared nodes");
    assert_eq!(Rejection::RendererPanicked.outcome(), "renderer panic");
}

#[test]
fn the_recount_goes_singular_for_one_and_plural_otherwise() {
    let drawing = Drawing { svg: String::new(), nodes: 1, edges: 0, notes: vec![] };

    assert_eq!(drawing.recount(), "1 node, 0 edges");
}

#[test]
fn the_notes_go_after_one_per_line() {
    let drawing = Drawing { svg: String::new(), nodes: 12, edges: 2, notes: vec!["first", "second"] };

    assert_eq!(drawing.noted_after("told".to_string()), "told\nfirst\nsecond");
    assert_eq!(drawing.recount(), "12 nodes, 2 edges");
}
