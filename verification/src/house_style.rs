//! The house style: the flipchart decides how views look. It empties the style
//! out of the IR, lays flowcharts and class diagrams out left to right, and
//! returns a note for each thing the agent asked for that it did not get. It
//! never rejects: every note accompanies a view that gets drawn.

use vstd::prelude::*;

use crate::graph::{
    without_directions, Diagram, Family, Flow, GraphFacts, GraphView, GroupFacts, GroupView,
    StyleChannel,
    StyleChannels,
};
use crate::mermaid::{self, ir_contents};
use crate::text::{
    after_first_word, ascii_alnum, chars_of, find_char, find_char_from, first_word,
    first_word_exec, is_ascii_alnum, is_white, lines, lines_exec, same, second_word, slice,
    starts_with, starts_with_exec, trim, trim_end_char, trim_end_char_exec, trim_exec, views, white,
};

verus! {

/// A single note covers the three ways of asking for pixels —style, `click`
/// and `%%{init}%%`—: the agent needs to know that here the flipchart decides
/// how things look, not the inventory.
pub const STYLE_DROPPED: &'static str = "Note: style directives (classDef, class, style, linkStyle) and click links were dropped — the flipchart decides how views look. The view was drawn.";

/// Unlike the style note, this one admits that the flipchart cannot draw it.
pub const NAMESPACE_NOT_DRAWN: &'static str = "Note: the flipchart could not draw namespace here; the classes were drawn without it.";

pub const NOTES_NOT_DRAWN: &'static str = "Note: the flipchart could not draw notes here; the classes were drawn without them.";

pub const DIRECTION_IMPOSED: &'static str = "Note: the flipchart lays diagrams out left to right; the direction in your source was ignored. The view was drawn.";

/// What travels inside a label's text, where emptying the style channels does
/// not reach. It names the one construct that does come out right.
pub const MARKUP_DRAWN_AS_TEXT: &'static str = "Note: only <br> is rendered inside labels; other tags, HTML entities and #-escapes reached the drawing as literal text. The view was drawn — write those labels as plain text.";

// ---------------------------------------------------------------------------
// What the notes are about
// ---------------------------------------------------------------------------

/// Style came in through at least one of the nine channels. They are looked
/// at in the IR, not in the text: to take effect, style has to land there.
pub open spec fn style_came_in(style: StyleChannels) -> bool {
    !style.is_empty()
}

/// The families whose layout the flipchart imposes.
pub open spec fn lays_out_left_to_right(family: Family) -> bool {
    family == Family::Flowchart || family == Family::Class
}

/// A line that is not a `%%` comment, once trimmed.
pub open spec fn speaks(line: Seq<char>) -> bool {
    !starts_with(trim(line), "%%"@)
}

/// Some speaking line of `ls` opens with `word`.
pub open spec fn opens_a_line_in(ls: Seq<Seq<char>>, word: Seq<char>) -> bool {
    exists|i: int| 0 <= i < ls.len() && speaks(ls[i]) && first_word(trim(ls[i])) == Some(word)
}

/// Some speaking line of `source` opens with `word`.
pub open spec fn opens_a_line(source: Seq<char>, word: Seq<char>) -> bool {
    opens_a_line_in(lines(source), word)
}

/// The words after which Mermaid takes a direction.
pub open spec fn takes_a_direction(word: Seq<char>) -> bool {
    word == "flowchart"@ || word == "graph"@ || word == "direction"@
}

/// The five direction words.
pub open spec fn is_direction(word: Seq<char>) -> bool {
    word == "TB"@ || word == "TD"@ || word == "BT"@ || word == "RL"@ || word == "LR"@
}

/// The direction `line` writes down, if it writes one: `flowchart`, `graph`
/// or `direction`, followed by a direction word (a trailing `;` aside).
pub open spec fn written_direction(line: Seq<char>) -> Option<Seq<char>> {
    let t = trim(line);
    if !speaks(line) {
        None
    } else {
        match (first_word(t), second_word(t)) {
            (Some(opening), Some(word)) => {
                let direction = trim_end_char(word, ';');
                if takes_a_direction(opening) && is_direction(direction) {
                    Some(direction)
                } else {
                    None
                }
            },
            _ => None,
        }
    }
}

/// The source writes down a direction other than `LR`, in its header or in
/// a group. mmdr does not tell `flowchart TB` from `flowchart`, so this is
/// asked of the source.
pub open spec fn declared_another_direction_in(ls: Seq<Seq<char>>) -> bool {
    exists|i: int|
        #![trigger ls[i]]
        0 <= i < ls.len() && (written_direction(ls[i]) matches Some(d) && d != "LR"@)
}

pub open spec fn declared_another_direction(source: Seq<char>) -> bool {
    declared_another_direction_in(lines(source))
}

/// `s` without one leading `/`.
pub open spec fn strip_slash(s: Seq<char>) -> Seq<char> {
    if s.len() > 0 && s[0] == '/' {
        s.drop_first()
    } else {
        s
    }
}

/// How many ASCII letters and digits `s` opens with.
pub open spec fn alnum_run(s: Seq<char>) -> nat
    decreases s.len(),
{
    if s.len() > 0 && is_ascii_alnum(s[0]) {
        1 + alnum_run(s.drop_first())
    } else {
        0
    }
}

/// After a `<`: an optional slash, a name, and then the close, a slash or
/// white space. `Map<String,Int>` has none —a comma ends no name—.
pub open spec fn looks_like_a_tag(after: Seq<char>) -> bool {
    let name = strip_slash(after);
    let k = alnum_run(name);
    0 < k < name.len() && (name[k as int] == '>' || name[k as int] == '/' || is_white(
        name[k as int],
    ))
}

/// The two line breaks mmdr interprets, exactly: `<br>` and `<br/>`.
pub open spec fn opens_a_line_break(after: Seq<char>) -> bool {
    starts_with(after, "br>"@) || starts_with(after, "br/>"@)
}

/// The `<` at `i` opens something shaped like a tag. A `<` stuck to another
/// `<` opens nothing: `<<interface>>` is Mermaid's own annotation.
pub open spec fn opens_tag_at(label: Seq<char>, i: int) -> bool {
    &&& 0 <= i < label.len()
    &&& label[i] == '<'
    &&& !(i > 0 && label[i - 1] == '<')
    &&& !(i + 1 < label.len() && label[i + 1] == '<')
    &&& looks_like_a_tag(label.skip(i + 1))
}

/// Some tag in `label` is not one of the two line breaks.
pub open spec fn opens_a_stray_tag(label: Seq<char>) -> bool {
    exists|i: int| opens_tag_at(label, i) && !opens_a_line_break(label.skip(i + 1))
}

/// After a `&` or a `#`: an optional `#`, then one or more ASCII letters or
/// digits closed by `;` — an HTML entity or one of Mermaid's escapes.
pub open spec fn names_an_escape(after: Seq<char>) -> bool {
    let name = without_hash(after);
    match find_char(name, ';') {
        Some(at) => at > 0 && forall|j: int| 0 <= j < at ==> is_ascii_alnum(name[j]),
        None => false,
    }
}

/// `s` without one leading `#`.
pub open spec fn without_hash(s: Seq<char>) -> Seq<char> {
    if s.len() > 0 && s[0] == '#' {
        s.drop_first()
    } else {
        s
    }
}

/// An entity or an escape, anywhere in `label`.
pub open spec fn carries_an_escape(label: Seq<char>) -> bool {
    exists|i: int|
        0 <= i < label.len() && (label[i] == '&' || label[i] == '#') && names_an_escape(
            label.skip(i + 1),
        )
}

/// Something in `label` that mmdr will draw as literal markup.
pub open spec fn reads_as_markup(label: Seq<char>) -> bool {
    opens_a_stray_tag(label) || carries_an_escape(label)
}

/// Some label that reaches the drawing —a node's, a group's or an edge's—
/// reads as markup. The question is put to the IR's labels, where no Mermaid
/// syntax is left to mistake for markup.
pub open spec fn any_label_carries_markup(graph: GraphView) -> bool {
    ||| exists|i: int| 0 <= i < graph.nodes.len() && reads_as_markup(graph.nodes[i].label)
    ||| exists|i: int| 0 <= i < graph.groups.len() && reads_as_markup(graph.groups[i].label)
    ||| exists|i: int, j: int|
        0 <= i < graph.edges.len() && 0 <= j < graph.edges[i].labels.len()
            && reads_as_markup(graph.edges[i].labels[j])
}

/// `note` when `holds`, nothing otherwise.
pub open spec fn note_if(holds: bool, note: &'static str) -> Seq<&'static str> {
    if holds {
        seq![note]
    } else {
        Seq::empty()
    }
}

/// The notes the house style owes a diagram, in order: for what came in, not
/// for what took effect.
pub open spec fn imposed_notes(graph: GraphView, source: Seq<char>) -> Seq<&'static str> {
    note_if(style_came_in(graph.style), STYLE_DROPPED) + note_if(
        graph.family == Family::Class && opens_a_line(source, "namespace"@),
        NAMESPACE_NOT_DRAWN,
    ) + note_if(graph.family == Family::Class && opens_a_line(source, "note"@), NOTES_NOT_DRAWN)
        + note_if(
        lays_out_left_to_right(graph.family) && declared_another_direction(source),
        DIRECTION_IMPOSED,
    ) + note_if(any_label_carries_markup(graph), MARKUP_DRAWN_AS_TEXT)
}

/// The graph once the house style has imposed itself: no style, and for the
/// two families it lays out, left to right down to every group. Nodes, edges
/// and labels are left as they came.
pub open spec fn imposed(before: GraphView) -> GraphView {
    let unstyled = GraphView { style: StyleChannels::none(), ..before };
    if lays_out_left_to_right(before.family) {
        GraphView {
            left_to_right: true,
            groups: without_directions(before.groups),
            ..unstyled
        }
    } else {
        unstyled
    }
}

/// Each of Mermaid's five direction words, written after `flowchart`,
/// `graph` or `direction` on a line that is not a comment, is the direction
/// that line writes down.
pub proof fn law_each_direction_word_is_read(line: Seq<char>, opening: Seq<char>, word: Seq<char>)
    requires
        !starts_with(trim(line), "%%"@),
        first_word(trim(line)) == Some(opening),
        second_word(trim(line)) == Some(word),
        opening == "flowchart"@ || opening == "graph"@ || opening == "direction"@,
        word == "TB"@ || word == "TD"@ || word == "BT"@ || word == "RL"@ || word == "LR"@,
    ensures
        written_direction(line) == Some(word),
{
    reveal_strlit("TB");
    reveal_strlit("TD");
    reveal_strlit("BT");
    reveal_strlit("RL");
    reveal_strlit("LR");
    assert(trim_end_char(word, ';') == word) by {
        assert(word.len() == 2 && word.last() != ';');
    }
}

/// A flowchart or a class diagram whose source writes down a direction other
/// than `LR` —`TB`, `TD`, `BT` or `RL`— after `flowchart`, `graph` or
/// `direction` is told that the direction was ignored.
pub proof fn law_another_written_direction_is_noted(
    graph: GraphView,
    source: Seq<char>,
    i: int,
    opening: Seq<char>,
    word: Seq<char>,
)
    requires
        graph.family == Family::Flowchart || graph.family == Family::Class,
        0 <= i < lines(source).len(),
        !starts_with(trim(lines(source)[i]), "%%"@),
        first_word(trim(lines(source)[i])) == Some(opening),
        second_word(trim(lines(source)[i])) == Some(word),
        opening == "flowchart"@ || opening == "graph"@ || opening == "direction"@,
        word == "TB"@ || word == "TD"@ || word == "BT"@ || word == "RL"@,
    ensures
        imposed_notes(graph, source).contains(DIRECTION_IMPOSED),
{
    let ls = lines(source);
    law_each_direction_word_is_read(ls[i], opening, word);
    reveal_strlit("TB");
    reveal_strlit("TD");
    reveal_strlit("BT");
    reveal_strlit("RL");
    reveal_strlit("LR");
    assert(word != "LR"@) by {
        assert(word[0] != 'L' || word[1] != 'R');
    }
    assert(declared_another_direction_in(ls));
    let a = note_if(style_came_in(graph.style), STYLE_DROPPED);
    let b = note_if(graph.family == Family::Class && opens_a_line(source, "namespace"@), NAMESPACE_NOT_DRAWN);
    let c = note_if(graph.family == Family::Class && opens_a_line(source, "note"@), NOTES_NOT_DRAWN);
    let at = a.len() + b.len() + c.len();
    assert(imposed_notes(graph, source)[at as int] == DIRECTION_IMPOSED);
}

// ---------------------------------------------------------------------------
// The executable side
// ---------------------------------------------------------------------------

/// Empties the style out of the IR and imposes the direction, and returns the
/// notes for what came in, not for what took effect: a `classDef` no class was
/// using still warns, because the agent believed it was painting.
pub fn imposed_on(parsed: &mut Diagram, source: &str) -> (notes: Vec<&'static str>)
    ensures
        notes@ == imposed_notes(old(parsed).graph@, source@),
        final(parsed).graph@ == imposed(old(parsed).graph@),
        old(parsed).well_formed() ==> final(parsed).well_formed(),
{
    let ghost before = parsed.graph@;
    let ghost ir_before = ir_contents(parsed.ir);
    let chars = chars_of(source);
    let ls = lines_exec(&chars);
    let mut notes: Vec<&'static str> = Vec::new();
    let markup = any_label_carries_markup_exec(&parsed.graph);

    if style_came_in_exec(&parsed.graph.style) {
        notes.push(STYLE_DROPPED);
    }
    parsed.graph.style = StyleChannels::emptied();
    empty_the_style(&mut parsed.ir);

    let class = match parsed.graph.family {
        Family::Class => true,
        _ => false,
    };
    let namespace = class && opens_a_line_exec(&ls, &chars_of("namespace"));
    if namespace {
        notes.push(NAMESPACE_NOT_DRAWN);
    }
    let note = class && opens_a_line_exec(&ls, &chars_of("note"));
    if note {
        notes.push(NOTES_NOT_DRAWN);
    }
    let lays_out = match parsed.graph.family {
        Family::Flowchart | Family::Class => true,
        Family::Other => false,
    };
    if lays_out {
        impose_left_to_right(parsed);
        if declared_another_direction_exec(&ls) {
            notes.push(DIRECTION_IMPOSED);
        }
    }
    if markup {
        notes.push(MARKUP_DRAWN_AS_TEXT);
    }
    proof {
        assert(notes@ =~= imposed_notes(before, source@));
        assert(parsed.graph@ == imposed(before));
        if ir_before == before {
            assert(ir_contents(parsed.ir) == imposed(ir_before));
        }
    }
    notes
}

fn style_came_in_exec(style: &StyleChannels) -> (b: bool)
    ensures
        b == style_came_in(*style),
{
    style.class_defs || style.node_classes || style.node_styles || style.subgraph_styles
        || style.subgraph_classes || style.edge_styles || style.edge_style_default
        || style.node_links || style.init_config
}

/// The imposition reaches down into the groups: a group with a direction of
/// its own is the same knob in the agent's hands.
fn impose_left_to_right(parsed: &mut Diagram)
    ensures
        final(parsed).graph@ == (GraphView {
            left_to_right: true,
            groups: without_directions(old(parsed).graph@.groups),
            ..old(parsed).graph@
        }),
        ir_contents(final(parsed).ir) == (GraphView {
            left_to_right: true,
            groups: without_directions(ir_contents(old(parsed).ir).groups),
            ..ir_contents(old(parsed).ir)
        }),
{
    let mut groups: Vec<GroupFacts> = Vec::new();
    let before = &parsed.graph.groups;
    let ghost wanted = without_directions(parsed.graph@.groups);
    let mut i: usize = 0;
    while i < before.len()
        invariant
            i <= before@.len(),
            wanted == without_directions(crate::graph::group_views(before@)),
            crate::graph::group_views(groups@) == wanted.take(i as int),
        decreases before@.len() - i,
    {
        let label = before[i].label.clone();
        let ghost so_far = crate::graph::group_views(groups@);
        let group = GroupFacts { label, own_direction: false };
        groups.push(group);
        assert(group@ == wanted[i as int]);
        assert(crate::graph::group_views(groups@) =~= so_far.push(group@));
        i = i + 1;
        assert(crate::graph::group_views(groups@) =~= wanted.take(i as int));
    }
    assert(wanted.take(before@.len() as int) =~= wanted);
    parsed.graph.groups = groups;
    parsed.graph.left_to_right = true;
    mermaid::set_direction(&mut parsed.ir, Flow::LeftRight);
    let ghost laid = ir_contents(parsed.ir);
    let ghost graph = parsed.graph;
    let count = mermaid::group_count(&parsed.ir);
    let mut i: usize = 0;
    assert(without_directions(laid.groups).take(0) + laid.groups.skip(0) =~= laid.groups);
    while i < count
        invariant
            i <= count,
            count == laid.groups.len(),
            parsed.graph == graph,
            ir_contents(parsed.ir) == (GraphView {
                groups: without_directions(laid.groups).take(i as int) + laid.groups.skip(i as int),
                ..laid
            }),
        decreases count - i,
    {
        let ghost here = ir_contents(parsed.ir);
        mermaid::drop_group_direction(&mut parsed.ir, i);
        assert(without_directions(laid.groups).take(i + 1) + laid.groups.skip(i + 1)
            =~= here.groups.update(
            i as int,
            GroupView { own_direction: false, ..here.groups[i as int] },
        ));
        i = i + 1;
    }
    assert(without_directions(laid.groups).take(count as int) + laid.groups.skip(count as int)
        =~= without_directions(laid.groups));
}

/// Empties the nine style channels out of the IR, one by one.
fn empty_the_style(ir: &mut mermaid_rs_renderer::ParseOutput)
    ensures
        ir_contents(*final(ir)) == (GraphView {
            style: StyleChannels::none(),
            ..ir_contents(*old(ir))
        }),
{
    mermaid::empty_channel(ir, StyleChannel::ClassDefs);
    mermaid::empty_channel(ir, StyleChannel::NodeClasses);
    mermaid::empty_channel(ir, StyleChannel::NodeStyles);
    mermaid::empty_channel(ir, StyleChannel::SubgraphStyles);
    mermaid::empty_channel(ir, StyleChannel::SubgraphClasses);
    mermaid::empty_channel(ir, StyleChannel::EdgeStyles);
    mermaid::empty_channel(ir, StyleChannel::EdgeStyleDefault);
    mermaid::empty_channel(ir, StyleChannel::NodeLinks);
    mermaid::empty_channel(ir, StyleChannel::InitConfig);
}

/// Whether some speaking line of `ls` opens with `word`.
fn opens_a_line_exec(ls: &Vec<Vec<char>>, word: &Vec<char>) -> (b: bool)
    ensures
        b == opens_a_line_in(views(ls@), word@),
{
    let mut i: usize = 0;
    while i < ls.len()
        invariant
            i <= ls@.len(),
            forall|k: int|
                0 <= k < i ==> !(speaks(#[trigger] views(ls@)[k]) && first_word(
                    trim(views(ls@)[k]),
                ) == Some(word@)),
        decreases ls@.len() - i,
    {
        let t = trim_exec(&ls[i]);
        let comment = starts_with_exec(&t, &chars_of("%%"));
        if !comment {
            let (first, _) = first_word_exec(&t);
            match first {
                Some(w) => {
                    if same(&w, word) {
                        assert(speaks(views(ls@)[i as int]));
                        return true;
                    }
                },
                None => {},
            }
        }
        i = i + 1;
    }
    false
}

/// The direction `line` writes down, if any.
fn written_direction_exec(line: &Vec<char>) -> (d: Option<Vec<char>>)
    ensures
        match d {
            None => written_direction(line@) is None,
            Some(d) => written_direction(line@) == Some(d@),
        },
{
    let t = trim_exec(line);
    if starts_with_exec(&t, &chars_of("%%")) {
        return None;
    }
    let (first, rest_at) = first_word_exec(&t);
    let opening = match first {
        Some(w) => w,
        None => return None,
    };
    let rest = slice(&t, rest_at, t.len());
    assert(rest@ == after_first_word(t@)) by {
        assert(rest@ =~= t@.skip(rest_at as int));
    }
    let (second, _) = first_word_exec(&rest);
    let word = match second {
        Some(w) => w,
        None => return None,
    };
    let direction = trim_end_char_exec(&word, ';');
    let takes = same(&opening, &chars_of("flowchart")) || same(&opening, &chars_of("graph"))
        || same(&opening, &chars_of("direction"));
    let is_dir = same(&direction, &chars_of("TB")) || same(&direction, &chars_of("TD")) || same(
        &direction,
        &chars_of("BT"),
    ) || same(&direction, &chars_of("RL")) || same(&direction, &chars_of("LR"));
    if takes && is_dir {
        Some(direction)
    } else {
        None
    }
}

/// Whether some line of `ls` writes down a direction other than `LR`.
fn declared_another_direction_exec(ls: &Vec<Vec<char>>) -> (b: bool)
    ensures
        b == declared_another_direction_in(views(ls@)),
{
    let lr = chars_of("LR");
    let mut i: usize = 0;
    while i < ls.len()
        invariant
            i <= ls@.len(),
            lr@ == "LR"@,
            forall|k: int|
                0 <= k < i ==> !(written_direction(#[trigger] views(ls@)[k]) matches Some(d) && d
                    != "LR"@),
        decreases ls@.len() - i,
    {
        match written_direction_exec(&ls[i]) {
            Some(d) => {
                if !same(&d, &lr) {
                    assert(views(ls@)[i as int] == ls@[i as int]@);
                    return true;
                }
            },
            None => {},
        }
        i = i + 1;
    }
    false
}

/// Whether `after` looks like the rest of a tag.
fn looks_like_a_tag_exec(after: &[char]) -> (b: bool)
    ensures
        b == looks_like_a_tag(after@),
{
    let name = if after.len() > 0 && after[0] == '/' {
        slice(after, 1, after.len())
    } else {
        slice(after, 0, after.len())
    };
    assert(name@ == strip_slash(after@)) by {
        if after@.len() > 0 && after@[0] == '/' {
            assert(name@ =~= after@.drop_first());
        } else {
            assert(name@ =~= after@);
        }
    }
    let mut k: usize = 0;
    assert(name@.skip(0) =~= name@);
    while k < name.len() && ascii_alnum(name[k])
        invariant
            k <= name@.len(),
            alnum_run(name@) == k + alnum_run(name@.skip(k as int)),
        decreases name@.len() - k,
    {
        assert(name@.skip(k as int).drop_first() =~= name@.skip(k + 1));
        k = k + 1;
    }
    if k == name.len() {
        return false;
    }
    k > 0 && (name[k] == '>' || name[k] == '/' || white(name[k]))
}

/// Whether `after` opens one of the two line breaks mmdr interprets.
fn opens_a_line_break_exec(after: &[char]) -> (b: bool)
    ensures
        b == opens_a_line_break(after@),
{
    starts_with_exec(after, &chars_of("br>")) || starts_with_exec(after, &chars_of("br/>"))
}

/// Whether some tag in `label` is not one of the two line breaks.
fn opens_a_stray_tag_exec(label: &[char]) -> (b: bool)
    ensures
        b == opens_a_stray_tag(label@),
{
    let mut i: usize = 0;
    while i < label.len()
        invariant
            i <= label@.len(),
            forall|k: int|
                0 <= k < i ==> !(#[trigger] opens_tag_at(label@, k) && !opens_a_line_break(
                    label@.skip(k + 1),
                )),
        decreases label@.len() - i,
    {
        if label[i] == '<' {
            let stuck_before = i > 0 && label[i - 1] == '<';
            let stuck_after = i + 1 < label.len() && label[i + 1] == '<';
            if !stuck_before && !stuck_after {
                let after = slice(label, i + 1, label.len());
                assert(after@ =~= label@.skip(i + 1));
                if looks_like_a_tag_exec(&after) && !opens_a_line_break_exec(&after) {
                    assert(opens_tag_at(label@, i as int));
                    return true;
                }
            }
        }
        i = i + 1;
    }
    assert forall|k: int| !(#[trigger] opens_tag_at(label@, k) && !opens_a_line_break(label@.skip(k + 1))) by {
        if 0 <= k < i {
        }
    }
    false
}

/// Whether `after` names an entity or an escape.
fn names_an_escape_exec(after: &[char]) -> (b: bool)
    ensures
        b == names_an_escape(after@),
{
    let name = if after.len() > 0 && after[0] == '#' {
        slice(after, 1, after.len())
    } else {
        slice(after, 0, after.len())
    };
    let ghost expected = without_hash(after@);
    assert(name@ =~= expected);
    assert(name@.skip(0) =~= name@);
    match find_char_from(&name, ';', 0) {
        None => {
            assert(find_char(expected, ';') is None);
            false
        },
        Some(at) => {
            assert(find_char(expected, ';') == Some(at as int));
            if at == 0 {
                return false;
            }
            let mut j: usize = 0;
            while j < at
                invariant
                    at < name@.len(),
                    name@ == expected,
                    find_char(expected, ';') == Some(at as int),
                    expected == without_hash(after@),
                    j <= at,
                    forall|m: int| 0 <= m < j ==> is_ascii_alnum(expected[m]),
                decreases at - j,
            {
                if !ascii_alnum(name[j]) {
                    assert(!is_ascii_alnum(expected[j as int]));
                    assert(!(forall|m: int| 0 <= m < at ==> is_ascii_alnum(expected[m])));
                    assert(!names_an_escape(after@));
                    return false;
                }
                j = j + 1;
            }
            assert(names_an_escape(after@));
            true
        },
    }
}

/// Whether `label` carries an entity or an escape anywhere.
fn carries_an_escape_exec(label: &[char]) -> (b: bool)
    ensures
        b == carries_an_escape(label@),
{
    let mut i: usize = 0;
    while i < label.len()
        invariant
            i <= label@.len(),
            forall|k: int|
                0 <= k < i ==> !((label@[k] == '&' || label@[k] == '#') && names_an_escape(
                    #[trigger] label@.skip(k + 1),
                )),
        decreases label@.len() - i,
    {
        if label[i] == '&' || label[i] == '#' {
            let after = slice(label, i + 1, label.len());
            assert(after@ =~= label@.skip(i + 1));
            if names_an_escape_exec(&after) {
                return true;
            }
        }
        i = i + 1;
    }
    false
}

/// Whether `label` reads as markup.
pub fn reads_as_markup_exec(label: &str) -> (b: bool)
    ensures
        b == reads_as_markup(label@),
{
    let chars = chars_of(label);
    opens_a_stray_tag_exec(&chars) || carries_an_escape_exec(&chars)
}

/// Whether some label of the graph reads as markup.
fn any_label_carries_markup_exec(graph: &GraphFacts) -> (b: bool)
    ensures
        b == any_label_carries_markup(graph@),
{
    let ghost g = graph@;
    let mut i: usize = 0;
    while i < graph.nodes.len()
        invariant
            i <= graph.nodes@.len(),
            g == graph@,
            forall|k: int| 0 <= k < i ==> !reads_as_markup(#[trigger] g.nodes[k].label),
        decreases graph.nodes@.len() - i,
    {
        assert(g.nodes[i as int] == graph.nodes@[i as int]@);
        if reads_as_markup_exec(graph.nodes[i].label.as_str()) {
            assert(reads_as_markup(g.nodes[i as int].label));
            return true;
        }
        i = i + 1;
    }
    let mut i: usize = 0;
    while i < graph.groups.len()
        invariant
            i <= graph.groups@.len(),
            g == graph@,
            forall|k: int| 0 <= k < g.nodes.len() ==> !reads_as_markup(#[trigger] g.nodes[k].label),
            forall|k: int| 0 <= k < i ==> !reads_as_markup(#[trigger] g.groups[k].label),
        decreases graph.groups@.len() - i,
    {
        assert(g.groups[i as int] == graph.groups@[i as int]@);
        if reads_as_markup_exec(graph.groups[i].label.as_str()) {
            assert(reads_as_markup(g.groups[i as int].label));
            return true;
        }
        i = i + 1;
    }
    let mut i: usize = 0;
    while i < graph.edges.len()
        invariant
            i <= graph.edges@.len(),
            g == graph@,
            forall|k: int| 0 <= k < g.nodes.len() ==> !reads_as_markup(#[trigger] g.nodes[k].label),
            forall|k: int| 0 <= k < g.groups.len() ==> !reads_as_markup(#[trigger] g.groups[k].label),
            forall|k: int, j: int|
                0 <= k < i && 0 <= j < g.edges[k].labels.len() ==> !reads_as_markup(
                    #[trigger] g.edges[k].labels[j],
                ),
        decreases graph.edges@.len() - i,
    {
        let labels = &graph.edges[i].labels;
        assert(g.edges[i as int] == graph.edges@[i as int]@);
        let mut j: usize = 0;
        while j < labels.len()
            invariant
                i < graph.edges@.len(),
                g == graph@,
                j <= labels@.len(),
                labels@ == graph.edges@[i as int].labels@,
                g.edges[i as int].labels == labels@.map_values(|l: String| l@),
                forall|m: int| 0 <= m < j ==> !reads_as_markup(#[trigger] g.edges[i as int].labels[m]),
            decreases labels@.len() - j,
        {
            assert(g.edges[i as int].labels[j as int] == labels@[j as int]@);
            if reads_as_markup_exec(labels[j].as_str()) {
                assert(reads_as_markup(g.edges[i as int].labels[j as int]));
                return true;
            }
            j = j + 1;
        }
        i = i + 1;
    }
    assert(!any_label_carries_markup(g)) by {
        assert forall|k: int, j: int|
            0 <= k < g.edges.len() && 0 <= j < g.edges[k].labels.len() implies !reads_as_markup(
                #[trigger] g.edges[k].labels[j],
            ) by {}
    }
    false
}

} // verus!
