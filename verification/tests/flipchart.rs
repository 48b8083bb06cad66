use flipchart::flipchart::{
    ClearParams, DeckSnapshot, Flipchart, ShowParams, ShowRequest, ToolAnswer,
};
use flipchart::diagram::{ready, theme, unread, Drawing, Rejection};
use flipchart::graph::{Diagram, ParseFailure};
use mermaid_rs_renderer::{
    compute_layout, parse_mermaid, parse_mermaid_strict, render_svg, LayoutConfig, ParseError,
};

/// The pipeline the application runs: mmdr's parse, the library's rules,
/// mmdr's renderer.
fn draw(source: &str) -> Result<Drawing, Rejection> {
    let ir = match parse_mermaid(source) {
        Ok(ir) => ir,
        Err(permissive) => {
            let typed = parse_mermaid_strict(source).err().map(typed);
            return Err(Rejection::Unparsed(unread(permissive.to_string(), &typed)));
        }
    };
    let ready = ready(Diagram::of(ir), source)?;
    let (theme, config) = (theme(), LayoutConfig::default());
    let scene = compute_layout(&ready.diagram.ir.graph, &theme, &config);
    let svg = render_svg(&scene, &theme, &config);
    Ok(ready.drawn(svg))
}

fn typed(error: ParseError) -> ParseFailure {
    match error {
        ParseError::UnknownParticipant { name, line, candidates } => {
            ParseFailure::UnknownParticipant { name, line, candidates }
        }
        ParseError::UnclosedSubgraph { opened_at } => ParseFailure::UnclosedSubgraph { opened_at },
        ParseError::UnexpectedToken { line, col, found, expected } => {
            ParseFailure::UnexpectedToken { line, col, found, expected }
        }
        other => ParseFailure::Unclassified(other.to_string()),
    }
}

fn show(flipchart: &mut Flipchart, view_id: &str, diagram: &str) -> Result<String, String> {
    let request = ShowRequest::new(view_id, diagram)?;
    let drawn = draw(request.diagram());
    flipchart.show(request, drawn)
}

const TWO_NODES: &str = "flowchart LR\n  A[One] --> B[Two]\n";
const THREE_NODES: &str = "flowchart LR\n  A[One] --> B[Two]\n  B --> C[Three]\n";
const THREE_NODES_DOWNWARDS: &str = "flowchart TB\n  A[One] --> B[Two]\n  B --> C[Three]\n";
const ONE_NODE: &str = "flowchart LR\n  A[Alone]\n";

fn handed_over(flipchart: &mut Flipchart) -> DeckSnapshot {
    flipchart.take_handed_over().expect("a flipchart reached the Viewer")
}

fn names(snapshot: &DeckSnapshot) -> Vec<&str> {
    snapshot.sheets.iter().map(|sheet| sheet.id.as_str()).collect()
}

fn front(snapshot: &DeckSnapshot) -> &str {
    let front = snapshot.front.expect("there is a sheet at the front");
    &snapshot.sheets[front].id
}

#[test]
fn the_acknowledgement_carries_the_id_the_recount_and_the_live_views() {
    let mut flipchart = Flipchart::new();
    show(&mut flipchart, "current", TWO_NODES).unwrap();

    let acknowledgement = show(&mut flipchart, "proposed", THREE_NODES).unwrap();

    assert_eq!(
        acknowledgement,
        "Shown as view \"proposed\" (3 nodes, 2 edges). \
         Views on the flipchart: current, proposed."
    );
}

#[test]
fn the_recount_goes_singular_when_there_is_one_of_each() {
    let mut flipchart = Flipchart::new();

    let acknowledgement = show(&mut flipchart, "alone", TWO_NODES);

    assert!(acknowledgement.unwrap().contains("(2 nodes, 1 edge)"));
}

#[test]
fn a_view_with_no_edges_counts_zero() {
    let mut flipchart = Flipchart::new();

    let acknowledgement = show(&mut flipchart, "alone", ONE_NODE);

    assert!(acknowledgement.unwrap().contains("(1 node, 0 edges)"));
}

#[test]
fn reusing_an_id_replaces_the_view_without_moving_it() {
    let mut flipchart = Flipchart::new();
    show(&mut flipchart, "current", TWO_NODES).unwrap();
    show(&mut flipchart, "proposed", TWO_NODES).unwrap();

    let acknowledgement = show(&mut flipchart, "current", THREE_NODES).unwrap();

    assert!(acknowledgement.ends_with("Views on the flipchart: current, proposed."));
}

#[test]
fn reusing_an_id_keeps_the_new_diagram() {
    let mut flipchart = Flipchart::new();
    show(&mut flipchart, "current", TWO_NODES).unwrap();

    show(&mut flipchart, "current", THREE_NODES).unwrap();

    assert_eq!(flipchart.view("current"), Some(THREE_NODES));
}

#[test]
fn the_viewer_learns_about_the_shown_view() {
    let mut flipchart = Flipchart::new();

    show(&mut flipchart, "current", TWO_NODES).unwrap();

    assert_eq!(names(&handed_over(&mut flipchart)), ["current"]);
}

#[test]
fn what_reaches_the_viewer_is_the_already_drawn_svg() {
    let mut flipchart = Flipchart::new();

    show(&mut flipchart, "current", TWO_NODES).unwrap();

    let snapshot = handed_over(&mut flipchart);
    let svg = &snapshot.sheets[0].svg;
    assert!(svg.starts_with("<svg"));
    assert!(svg.contains("One"));
}

#[test]
fn the_sheets_arrive_in_creation_order_and_replacing_does_not_reorder() {
    let mut flipchart = Flipchart::new();
    show(&mut flipchart, "current", TWO_NODES).unwrap();
    show(&mut flipchart, "proposed", TWO_NODES).unwrap();

    show(&mut flipchart, "current", THREE_NODES).unwrap();

    assert_eq!(names(&handed_over(&mut flipchart)), ["current", "proposed"]);
}

#[test]
fn a_show_leaves_its_view_at_the_front() {
    let mut flipchart = Flipchart::new();
    show(&mut flipchart, "current", TWO_NODES).unwrap();
    show(&mut flipchart, "proposed", TWO_NODES).unwrap();

    show(&mut flipchart, "current", THREE_NODES).unwrap();

    assert_eq!(front(&handed_over(&mut flipchart)), "current");
}

#[test]
fn replacing_a_view_sends_a_new_sheet() {
    let mut flipchart = Flipchart::new();
    show(&mut flipchart, "current", TWO_NODES).unwrap();
    let first = handed_over(&mut flipchart).sheets[0].number;

    show(&mut flipchart, "current", THREE_NODES).unwrap();

    assert_ne!(handed_over(&mut flipchart).sheets[0].number, first);
}

#[test]
fn removing_the_front_view_falls_back_to_the_most_recent_live_show() {
    let mut flipchart = Flipchart::new();
    show(&mut flipchart, "current", TWO_NODES).unwrap();
    show(&mut flipchart, "proposed", TWO_NODES).unwrap();
    show(&mut flipchart, "flow", TWO_NODES).unwrap();

    flipchart.clear(Some("flow"));

    assert_eq!(front(&handed_over(&mut flipchart)), "proposed");
}

#[test]
fn removing_another_view_leaves_at_the_front_the_one_already_there() {
    let mut flipchart = Flipchart::new();
    show(&mut flipchart, "current", TWO_NODES).unwrap();
    show(&mut flipchart, "proposed", TWO_NODES).unwrap();

    flipchart.clear(Some("current"));

    assert_eq!(front(&handed_over(&mut flipchart)), "proposed");
}

#[test]
fn emptying_the_flipchart_hands_over_a_flipchart_with_no_sheets() {
    let mut flipchart = Flipchart::new();
    show(&mut flipchart, "current", TWO_NODES).unwrap();

    flipchart.clear(None);

    assert!(handed_over(&mut flipchart).sheets.is_empty());
}

#[test]
fn a_flipchart_with_no_sheets_has_none_at_the_front() {
    let mut flipchart = Flipchart::new();
    show(&mut flipchart, "current", TWO_NODES).unwrap();

    flipchart.clear(None);

    assert_eq!(handed_over(&mut flipchart).front, None);
}

#[test]
fn clearing_an_id_that_does_not_exist_tells_the_viewer_nothing() {
    let mut flipchart = Flipchart::new();
    show(&mut flipchart, "current", TWO_NODES).unwrap();
    handed_over(&mut flipchart);

    flipchart.clear(Some("propsoed"));

    assert!(flipchart.take_handed_over().is_none());
}

#[test]
fn a_blank_view_id_is_rejected() {
    let mut flipchart = Flipchart::new();

    let rejection = show(&mut flipchart, "   ", TWO_NODES).unwrap_err();

    assert!(rejection.contains("view_id must not be empty."));
}

#[test]
fn a_view_id_longer_than_64_characters_is_rejected() {
    let mut flipchart = Flipchart::new();

    let rejection = show(&mut flipchart, &"a".repeat(65), TWO_NODES).unwrap_err();

    assert!(rejection.contains("view_id must be at most 64 characters; got 65."));
}

#[test]
fn a_view_id_of_64_characters_goes_in() {
    let mut flipchart = Flipchart::new();

    let acknowledgement = show(&mut flipchart, &"a".repeat(64), TWO_NODES);

    assert!(acknowledgement.is_ok());
}

#[test]
fn the_view_id_is_prose_and_not_a_slug() {
    let mut flipchart = Flipchart::new();

    let acknowledgement = show(&mut flipchart, "Current structure (v2) — really?", TWO_NODES)
        .unwrap();

    assert!(acknowledgement.starts_with("Shown as view \"Current structure (v2) — really?\""));
}

#[test]
fn the_view_id_is_stored_trimmed() {
    let mut flipchart = Flipchart::new();

    let acknowledgement = show(&mut flipchart, "  current  ", TWO_NODES).unwrap();

    assert!(acknowledgement.starts_with("Shown as view \"current\""));
}

#[test]
fn an_empty_diagram_is_rejected() {
    let mut flipchart = Flipchart::new();

    let rejection = show(&mut flipchart, "current", "  \n ").unwrap_err();

    assert!(rejection.contains("diagram must not be empty."));
}

#[test]
fn the_input_is_validated_before_parsing() {
    let mut flipchart = Flipchart::new();

    let rejection = show(&mut flipchart, "", "this is not Mermaid").unwrap_err();

    assert!(rejection.contains("view_id must not be empty."));
}

#[test]
fn a_rejection_leaves_the_view_that_was_already_there_intact() {
    let mut flipchart = Flipchart::new();
    show(&mut flipchart, "current", TWO_NODES).unwrap();

    show(&mut flipchart, "current", "").unwrap_err();

    assert_eq!(flipchart.view("current"), Some(TWO_NODES));
}

#[test]
fn the_rejection_opens_with_the_fixed_line() {
    let mut flipchart = Flipchart::new();

    let rejection = show(&mut flipchart, "current", "").unwrap_err();

    assert!(
        rejection.starts_with("Rejected: nothing was drawn; view \"current\" is unchanged.\n")
    );
}

#[test]
fn clearing_a_view_says_so_and_lists_what_is_left() {
    let mut flipchart = Flipchart::new();
    show(&mut flipchart, "current", TWO_NODES).unwrap();
    show(&mut flipchart, "proposed", TWO_NODES).unwrap();

    let text = flipchart.clear(Some("proposed"));

    assert_eq!(
        text,
        "Cleared view \"proposed\". Views on the flipchart: current."
    );
}

#[test]
fn clearing_the_last_view_leaves_the_flipchart_with_no_views() {
    let mut flipchart = Flipchart::new();
    show(&mut flipchart, "current", TWO_NODES).unwrap();

    let text = flipchart.clear(Some("current"));

    assert_eq!(text, "Cleared view \"current\". No views.");
}

#[test]
fn clearing_the_whole_flipchart_says_so() {
    let mut flipchart = Flipchart::new();
    show(&mut flipchart, "current", TWO_NODES).unwrap();

    let text = flipchart.clear(None);

    assert_eq!(text, "Cleared the flipchart. No views.");
}

#[test]
fn clearing_an_id_that_does_not_exist_is_not_an_error_and_carries_the_list_alongside() {
    let mut flipchart = Flipchart::new();
    show(&mut flipchart, "current", TWO_NODES).unwrap();
    show(&mut flipchart, "proposed", TWO_NODES).unwrap();

    let text = flipchart.clear(Some("propsoed"));

    assert_eq!(
        text,
        "No view \"propsoed\" on the flipchart. Views: current, proposed."
    );
}

#[test]
fn clearing_an_id_that_does_not_exist_does_not_touch_the_views() {
    let mut flipchart = Flipchart::new();
    show(&mut flipchart, "current", TWO_NODES).unwrap();

    flipchart.clear(Some("propsoed"));

    assert_eq!(flipchart.view("current"), Some(TWO_NODES));
}

#[test]
fn clearing_an_already_empty_flipchart_says_so() {
    let mut flipchart = Flipchart::new();

    let text = flipchart.clear(None);

    assert_eq!(text, "The flipchart was already empty.");
}

#[test]
fn the_acknowledgement_drags_the_notes_behind_it() {
    let mut flipchart = Flipchart::new();

    let acknowledgement = show(&mut flipchart, "current", THREE_NODES_DOWNWARDS).unwrap();

    assert_eq!(
        acknowledgement,
        "Shown as view \"current\" (3 nodes, 2 edges). Views on the flipchart: current.\n\
         Note: the flipchart lays diagrams out left to right; the direction in your \
         source was ignored. The view was drawn."
    );
}

#[test]
fn a_rejection_carries_no_notes() {
    let mut flipchart = Flipchart::new();

    let rejection = show(&mut flipchart, 
            "current",
            "flowchart TB\n  classDef danger fill:#f00\n  A[One] --> Db\n",
        )
        .unwrap_err();

    assert!(!rejection.contains("Note:"));
}

#[test]
fn a_diagram_that_does_not_parse_is_rejected_without_touching_the_flipchart() {
    let mut flipchart = Flipchart::new();

    let rejection = show(&mut flipchart, "current", "this is not Mermaid")
        .unwrap_err();

    assert!(rejection.starts_with("Rejected: nothing was drawn;"));
    assert_eq!(flipchart.view("current"), None);
}

#[test]
fn a_shown_view_reads_back_and_a_cleared_one_is_gone() {
    let mut flipchart = Flipchart::new();
    show(&mut flipchart, "current", TWO_NODES).unwrap();

    assert_eq!(flipchart.view("current"), Some(TWO_NODES));
    flipchart.clear(Some("current"));
    assert_eq!(flipchart.view("current"), None);
}

#[test]
fn the_tools_answer_a_drawing_as_a_success_and_a_rejection_as_an_error() {
    let mut flipchart = Flipchart::new();

    let shown = answer(&mut flipchart, &ShowParams {
        view_id: "current".to_string(),
        diagram: TWO_NODES.to_string(),
    });
    let rejected = answer(&mut flipchart, &ShowParams {
        view_id: "proposed".to_string(),
        diagram: "flowchart TD\n  API[API Layer] --> Db\n".to_string(),
    });
    let cleared = flipchart.answer_clear(&ClearParams { view_id: Some("current".to_string()) });

    assert!(matches!(shown, ToolAnswer::Success(text) if text.starts_with("Shown as view \"current\"")));
    assert!(matches!(rejected, ToolAnswer::Error(text) if text.contains("only used in a relation")));
    assert!(matches!(cleared, ToolAnswer::Success(text) if text == "Cleared view \"current\". No views."));
}

#[test]
fn a_renderer_failure_names_the_trimmed_view() {
    let mut flipchart = Flipchart::new();
    let request = ShowRequest::new("  proposed ", TWO_NODES).unwrap();

    let rejection = flipchart.show(request, Err(Rejection::RendererPanicked)).unwrap_err();

    assert!(rejection.starts_with(
        "Rejected: the renderer failed on this diagram; nothing was drawn.\nView \"proposed\" is unchanged."
    ));
}

#[test]
fn a_fresh_flipchart_can_still_draw() {
    assert!(Flipchart::new().can_draw());
}

#[test]
fn a_renderer_failure_comes_back_as_a_tool_error_and_blames_the_flipchart() {
    let mut flipchart = Flipchart::new();
    let params = ShowParams {
        view_id: " proposed ".to_string(),
        diagram: "flowchart LR\n  A --> B\n".to_string(),
    };
    let request = ShowRequest::asked(&params).ok().expect("the input is valid");

    match flipchart.answer_show(request, Err(Rejection::RendererPanicked)) {
        ToolAnswer::Error(text) => {
            assert!(text.contains("View \"proposed\" is unchanged."));
            assert!(text.contains("This is a bug in the flipchart, not in your diagram"));
        }
        ToolAnswer::Success(_) => panic!("a renderer failure is never a success"),
    }
    assert_eq!(flipchart.view("proposed"), None);
    assert!(flipchart.take_handed_over().is_none());
}

#[test]
fn an_invalid_input_is_answered_as_an_error_before_anything_is_drawn() {
    let params = ShowParams {
        view_id: "   ".to_string(),
        diagram: TWO_NODES.to_string(),
    };

    match ShowRequest::asked(&params) {
        Err(ToolAnswer::Error(text)) => assert_eq!(
            text,
            "Rejected: nothing was drawn; view \"\" is unchanged.\nview_id must not be empty."
        ),
        _ => panic!("an empty view id is rejected"),
    }
}

#[test]
fn a_request_carries_the_trimmed_id_and_the_diagram() {
    let request = ShowRequest::new("  current ", TWO_NODES).unwrap();

    assert_eq!((request.id(), request.diagram()), ("current", TWO_NODES));
}

fn answer(flipchart: &mut Flipchart, params: &ShowParams) -> ToolAnswer {
    match ShowRequest::asked(params) {
        Err(answer) => answer,
        Ok(request) => {
            let drawn = draw(request.diagram());
            flipchart.answer_show(request, drawn)
        }
    }
}
