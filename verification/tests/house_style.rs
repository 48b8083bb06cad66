use flipchart::graph::Diagram;
use mermaid_rs_renderer::parse_mermaid;
use flipchart::house_style::{
    imposed_on, reads_as_markup_exec, DIRECTION_IMPOSED, MARKUP_DRAWN_AS_TEXT,
    NAMESPACE_NOT_DRAWN, NOTES_NOT_DRAWN, STYLE_DROPPED,
};
use mermaid_rs_renderer::{Direction, Graph};

/// What mmdr's parser reads of `source`, as the library sees it.
fn read(source: &str) -> Result<Diagram, String> {
    parse_mermaid(source).map(Diagram::of).map_err(|error| error.to_string())
}

fn imposed(source: &str) -> (Diagram, Vec<&'static str>) {
    let mut parsed = read(source).expect("the test source parses");
    let notes = imposed_on(&mut parsed, source);
    (parsed, notes)
}

fn notes(source: &str) -> Vec<&'static str> {
    imposed(source).1
}

fn graph(source: &str) -> Graph {
    imposed(source).0.ir.graph
}

#[test]
fn the_classdef_is_emptied_out_of_the_ir() {
    let graph =
        graph("flowchart TD\n  classDef danger fill:#f00\n  A[One]:::danger --> B[Two]\n");

    assert!(graph.class_defs.is_empty());
    assert!(graph.node_classes.is_empty());
}

#[test]
fn a_nodes_style_is_emptied_out_of_the_ir() {
    let graph = graph("flowchart TD\n  A[One] --> B[Two]\n  style A fill:#f00\n");

    assert!(graph.node_styles.is_empty());
}

#[test]
fn the_linkstyle_is_emptied_out_of_the_ir() {
    let graph = graph("flowchart TD\n  A[One] --> B[Two]\n  linkStyle 0 stroke:#f00\n");

    assert!(graph.edge_styles.is_empty() && graph.edge_style_default.is_none());
}

#[test]
fn the_click_is_emptied_out_of_the_ir() {
    let graph =
        graph("flowchart TD\n  A[One] --> B[Two]\n  click A \"https://example\" \"Go\"\n");

    assert!(graph.node_links.is_empty());
}

#[test]
fn the_init_is_emptied_out_of_the_parse_output() {
    let (parsed, _) =
        imposed("%%{init: {'theme':'dark'}}%%\nflowchart TD\n  A[One] --> B[Two]\n");

    assert!(parsed.ir.init_config.is_none());
}

#[test]
fn the_dropped_style_carries_a_single_note_for_everything() {
    let notes = notes(
        "%%{init: {'theme':'dark'}}%%\nflowchart LR\n  classDef danger fill:#f00\n  \
         A[One]:::danger --> B[Two]\n  style B fill:#0f0\n  \
         click A \"https://example\" \"Go\"\n",
    );

    assert_eq!(notes, vec![STYLE_DROPPED]);
}

#[test]
fn a_classdef_nobody_uses_warns_all_the_same_because_the_agent_believed_it_was_painting() {
    let notes = notes("flowchart LR\n  classDef danger fill:#f00\n  A[One] --> B[Two]\n");

    assert_eq!(notes, vec![STYLE_DROPPED]);
}

#[test]
fn a_diagram_with_no_style_does_not_pay_the_note() {
    assert!(notes("flowchart LR\n  A[One] --> B[Two]\n").is_empty());
}

#[test]
fn the_direction_is_imposed_on_the_flowchart() {
    assert_eq!(
        graph("flowchart TB\n  A[One] --> B[Two]\n").direction,
        Direction::LeftRight
    );
}

#[test]
fn the_direction_is_imposed_on_the_class_diagram() {
    assert_eq!(
        graph("classDiagram\n  direction TB\n  Order <|-- Sale\n").direction,
        Direction::LeftRight
    );
}

#[test]
fn the_imposition_reaches_down_to_each_groups_direction() {
    let graph =
        graph("flowchart TD\n  subgraph API\n    direction RL\n    A[One] --> B[Two]\n  end\n");

    assert!(
        graph
            .subgraphs
            .iter()
            .all(|group| group.direction.is_none())
    );
}

#[test]
fn outside_the_two_families_the_direction_is_not_touched() {
    let graph = graph("stateDiagram-v2\n  direction TB\n  [*] --> Active\n");

    assert_eq!(graph.direction, Direction::TopDown);
}

#[test]
fn a_declared_direction_that_differs_is_warned_about() {
    assert_eq!(
        notes("flowchart TB\n  A[One] --> B[Two]\n"),
        vec![DIRECTION_IMPOSED]
    );
}

#[test]
fn a_bare_header_declared_no_direction_and_is_not_paid_for() {
    assert!(notes("flowchart\n  A[One] --> B[Two]\n").is_empty());
}

#[test]
fn a_header_that_already_asked_for_lr_is_not_warned_about() {
    assert!(notes("flowchart LR\n  A[One] --> B[Two]\n").is_empty());
}

#[test]
fn a_groups_direction_is_also_a_declared_direction() {
    let notes =
        notes("flowchart LR\n  subgraph API\n    direction TB\n    A[One] --> B[Two]\n  end\n");

    assert_eq!(notes, vec![DIRECTION_IMPOSED]);
}

#[test]
fn outside_the_two_families_a_declared_direction_does_not_warn() {
    assert!(notes("stateDiagram-v2\n  direction TB\n  [*] --> Active\n").is_empty());
}

#[test]
fn the_namespace_mmdr_cannot_draw_is_warned_about() {
    let notes = notes("classDiagram\n  namespace Domain {\n    class Order\n  }\n");

    assert_eq!(notes, vec![NAMESPACE_NOT_DRAWN]);
}

#[test]
fn the_note_mmdr_cannot_draw_is_warned_about() {
    let notes = notes("classDiagram\n  note for Order \"the note\"\n  class Order\n");

    assert_eq!(notes, vec![NOTES_NOT_DRAWN]);
}

#[test]
fn a_namespace_outside_the_class_diagram_is_not_warned_about() {
    assert!(notes("flowchart LR\n  namespace --> B[Two]\n").is_empty());
}

#[test]
fn the_line_break_mmdr_interprets_warns_about_nothing() {
    assert!(
        notes("flowchart LR\n  store[\"storelua<br/>persistence\"] --> marks[\"markslua<br>repositioning\"]\n")
            .is_empty()
    );
}

#[test]
fn the_bold_that_ends_up_drawn_as_text_is_warned_about() {
    let notes =
        notes("flowchart LR\n  store[\"storelua\"] --> marks[\"<b>repositioning</b>\"]\n");

    assert_eq!(notes, vec![MARKUP_DRAWN_AS_TEXT]);
}

#[test]
fn the_line_break_with_a_space_inside_already_comes_out_literal_and_is_warned_about() {
    let notes =
        notes("flowchart LR\n  store[\"storelua<br />persistence\"] --> marks[\"markslua\"]\n");

    assert_eq!(notes, vec![MARKUP_DRAWN_AS_TEXT]);
}

#[test]
fn mmdr_does_not_interpret_the_line_break_in_capitals_either() {
    let notes =
        notes("flowchart LR\n  store[\"storelua<BR/>persistence\"] --> marks[\"markslua\"]\n");

    assert_eq!(notes, vec![MARKUP_DRAWN_AS_TEXT]);
}

#[test]
fn the_whole_family_of_escaped_labels_warns_all_the_same() {
    for label in [
        "<i>one</i>",
        "<em>one</em>",
        "<strong>one</strong>",
        "<u>one</u>",
        "<code>one</code>",
        "<span style='color:red'>one</span>",
        "<a href='https://example'>one</a>",
        "<img src='x.png'/>one",
    ] {
        let notes = notes(&format!(
            "flowchart LR\n  store[\"{label}\"] --> marks[\"markslua\"]\n"
        ));

        assert_eq!(notes, vec![MARKUP_DRAWN_AS_TEXT], "fails with {label}");
    }
}

#[test]
fn entities_and_mermaids_escapes_arrive_as_text_and_are_warned_about() {
    for label in [
        "storelua &amp; marks",
        "storelua&nbsp;persistence",
        "&lt;storelua&gt;",
        "storelua &#35; persistence",
        "storelua #quot;persistence#quot;",
        "storelua #35; persistence",
    ] {
        let notes = notes(&format!(
            "flowchart LR\n  store[\"{label}\"] --> marks[\"markslua\"]\n"
        ));

        assert_eq!(notes, vec![MARKUP_DRAWN_AS_TEXT], "fails with {label}");
    }
}

#[test]
fn the_raw_characters_mmdr_escapes_properly_do_not_warn() {
    for label in [
        "storelua & persistence",
        "storelua < persistence",
        "the usual 'storelua'",
        "Map<String,Int>",
    ] {
        assert!(
            notes(&format!(
                "flowchart LR\n  store[\"{label}\"] --> marks[\"markslua\"]\n"
            ))
            .is_empty(),
            "over-warns on {label}"
        );
    }
}

#[test]
fn the_class_diagrams_annotation_is_not_markup() {
    assert!(
        notes("classDiagram\n  class Order {\n    <<interface>>\n    +confirm() void\n  }\n")
            .is_empty()
    );
}

#[test]
fn markup_in_an_edges_label_is_warned_about_too() {
    let notes = notes(
        "flowchart LR\n  store[\"storelua\"] -->|\"<b>reads</b>\"| marks[\"markslua\"]\n",
    );

    assert_eq!(notes, vec![MARKUP_DRAWN_AS_TEXT]);
}

#[test]
fn markup_in_a_groups_label_is_warned_about_too() {
    let notes = notes(
        "flowchart LR\n  subgraph layer[\"<b>Data</b> layer\"]\n    store[\"storelua\"]\n  \
         end\n  store --> marks[\"markslua\"]\n",
    );

    assert_eq!(notes, vec![MARKUP_DRAWN_AS_TEXT]);
}

#[test]
fn markup_in_a_class_member_is_warned_about_too() {
    let notes = notes("classDiagram\n  class Order {\n    +<b>confirm</b>() void\n  }\n");

    assert_eq!(notes, vec![MARKUP_DRAWN_AS_TEXT]);
}

#[test]
fn the_line_break_in_a_class_member_comes_out_right_and_does_not_warn() {
    assert!(notes("classDiagram\n  class Order {\n    +confirm()<br/>void\n  }\n").is_empty());
}

#[test]
fn the_notes_accumulate() {
    let notes = notes(
        "%%{init: {'theme':'dark'}}%%\nclassDiagram\n  direction TB\n  \
         namespace Domain {\n    class Order\n  }\n  note \"the note\"\n",
    );

    assert_eq!(
        notes,
        vec![
            STYLE_DROPPED,
            NAMESPACE_NOT_DRAWN,
            NOTES_NOT_DRAWN,
            DIRECTION_IMPOSED
        ]
    );
}

#[test]
fn a_comment_declares_neither_direction_nor_structure() {
    assert!(
        notes("classDiagram\n  %% direction TB\n  %% namespace Domain\n  class Order\n")
            .is_empty()
    );
}

#[test]
fn el_classdef_se_vacia_del_ir() {
    let dibujo =
        graph("flowchart TD\n  classDef danger fill:#f00\n  A[Uno]:::danger --> B[Dos]\n");

    assert!(dibujo.class_defs.is_empty());
    assert!(dibujo.node_classes.is_empty());
}

#[test]
fn el_style_de_un_nodo_se_vacia_del_ir() {
    let dibujo = graph("flowchart TD\n  A[Uno] --> B[Dos]\n  style A fill:#f00\n");

    assert!(dibujo.node_styles.is_empty());
}

#[test]
fn el_linkstyle_se_vacia_del_ir() {
    let dibujo = graph("flowchart TD\n  A[Uno] --> B[Dos]\n  linkStyle 0 stroke:#f00\n");

    assert!(dibujo.edge_styles.is_empty() && dibujo.edge_style_default.is_none());
}

#[test]
fn el_click_se_vacia_del_ir() {
    let dibujo =
        graph("flowchart TD\n  A[Uno] --> B[Dos]\n  click A \"https://ejemplo\" \"Ir\"\n");

    assert!(dibujo.node_links.is_empty());
}

#[test]
fn el_init_se_vacia_del_parse_output() {
    let (parsed, _) =
        imposed("%%{init: {'theme':'dark'}}%%\nflowchart TD\n  A[Uno] --> B[Dos]\n");

    assert!(parsed.ir.init_config.is_none());
}

#[test]
fn el_estilo_descartado_lleva_un_solo_aviso_para_todo() {
    let avisos = notes(
        "%%{init: {'theme':'dark'}}%%\nflowchart LR\n  classDef danger fill:#f00\n  \
         A[Uno]:::danger --> B[Dos]\n  style B fill:#0f0\n  \
         click A \"https://ejemplo\" \"Ir\"\n",
    );

    assert_eq!(avisos, vec![STYLE_DROPPED]);
}

#[test]
fn un_classdef_que_nadie_usa_avisa_igual_porque_el_agente_creyo_que_pintaba() {
    let avisos = notes("flowchart LR\n  classDef danger fill:#f00\n  A[Uno] --> B[Dos]\n");

    assert_eq!(avisos, vec![STYLE_DROPPED]);
}

#[test]
fn un_diagrama_sin_estilo_no_paga_el_aviso() {
    assert!(notes("flowchart LR\n  A[Uno] --> B[Dos]\n").is_empty());
}

#[test]
fn la_direccion_se_impone_en_el_flowchart() {
    assert_eq!(
        graph("flowchart TB\n  A[Uno] --> B[Dos]\n").direction,
        Direction::LeftRight
    );
}

#[test]
fn la_direccion_se_impone_en_el_diagrama_de_clases() {
    assert_eq!(
        graph("classDiagram\n  direction TB\n  Pedido <|-- Venta\n").direction,
        Direction::LeftRight
    );
}

#[test]
fn la_imposicion_baja_a_la_direccion_de_cada_grupo() {
    let dibujo =
        graph("flowchart TD\n  subgraph API\n    direction RL\n    A[Uno] --> B[Dos]\n  end\n");

    assert!(
        dibujo
            .subgraphs
            .iter()
            .all(|grupo| grupo.direction.is_none())
    );
}

#[test]
fn fuera_de_las_dos_familias_no_se_toca_la_direccion() {
    let dibujo = graph("stateDiagram-v2\n  direction TB\n  [*] --> Activo\n");

    assert_eq!(dibujo.direction, Direction::TopDown);
}

#[test]
fn una_direccion_declarada_distinta_se_avisa() {
    assert_eq!(
        notes("flowchart TB\n  A[Uno] --> B[Dos]\n"),
        vec![DIRECTION_IMPOSED]
    );
}

#[test]
fn una_cabecera_desnuda_no_declaraba_direccion_y_no_se_paga() {
    assert!(notes("flowchart\n  A[Uno] --> B[Dos]\n").is_empty());
}

#[test]
fn una_cabecera_que_ya_pedia_lr_no_se_avisa() {
    assert!(notes("flowchart LR\n  A[Uno] --> B[Dos]\n").is_empty());
}

#[test]
fn la_direccion_de_un_grupo_tambien_es_una_direccion_declarada() {
    let avisos =
        notes("flowchart LR\n  subgraph API\n    direction TB\n    A[Uno] --> B[Dos]\n  end\n");

    assert_eq!(avisos, vec![DIRECTION_IMPOSED]);
}

#[test]
fn fuera_de_las_dos_familias_una_direccion_declarada_no_avisa() {
    assert!(notes("stateDiagram-v2\n  direction TB\n  [*] --> Activo\n").is_empty());
}

#[test]
fn el_namespace_que_mmdr_no_dibuja_se_avisa() {
    let avisos = notes("classDiagram\n  namespace Dominio {\n    class Pedido\n  }\n");

    assert_eq!(avisos, vec![NAMESPACE_NOT_DRAWN]);
}

#[test]
fn la_nota_que_mmdr_no_dibuja_se_avisa() {
    let avisos = notes("classDiagram\n  note for Pedido \"la nota\"\n  class Pedido\n");

    assert_eq!(avisos, vec![NOTES_NOT_DRAWN]);
}

#[test]
fn el_namespace_fuera_del_diagrama_de_clases_no_se_avisa() {
    assert!(notes("flowchart LR\n  namespace --> B[Dos]\n").is_empty());
}

#[test]
fn los_avisos_se_acumulan() {
    let avisos = notes(
        "%%{init: {'theme':'dark'}}%%\nclassDiagram\n  direction TB\n  \
         namespace Dominio {\n    class Pedido\n  }\n  note \"la nota\"\n",
    );

    assert_eq!(
        avisos,
        vec![
            STYLE_DROPPED,
            NAMESPACE_NOT_DRAWN,
            NOTES_NOT_DRAWN,
            DIRECTION_IMPOSED
        ]
    );
}

#[test]
fn un_comentario_no_declara_ni_direccion_ni_estructura() {
    assert!(
        notes("classDiagram\n  %% direction TB\n  %% namespace Dominio\n  class Pedido\n")
            .is_empty()
    );
}

#[test]
fn the_model_of_the_graph_follows_the_imposition() {
    let (parsed, _) = imposed(
        "flowchart TB\n  classDef danger fill:#f00\n  subgraph API\n    direction RL\n    \
         A[One] --> B[Two]\n  end\n",
    );

    assert!(parsed.graph.left_to_right);
    assert!(!parsed.graph.style.class_defs);
    assert!(parsed.graph.groups.iter().all(|group| !group.own_direction));
}

#[test]
fn a_label_is_read_as_markup_only_when_mmdr_would_print_it_literally() {
    assert!(reads_as_markup_exec("<b>x</b>"));
    assert!(reads_as_markup_exec("a &amp; b"));
    assert!(!reads_as_markup_exec("a<br>b"));
    assert!(!reads_as_markup_exec("<<interface>>"));
    assert!(!reads_as_markup_exec("&;"));
}
