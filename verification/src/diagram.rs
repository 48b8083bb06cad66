//! From Mermaid source to a drawing or a rejection: read, check the honest
//! limit, impose the house style, render. And the words the agent gets back
//! either way, since the image itself never comes back into its context.

use mermaid_rs_renderer::Theme;
use vstd::prelude::*;

use crate::graph::{Diagram, FailureView, GraphView, ParseFailure};
use crate::honest_limit::{undeclared, undeclared_nodes};
use crate::house_style::{imposed, imposed_notes, imposed_on};
use crate::mermaid::mermaid_theme;
use crate::text::{
    append_chars, append_decimal, chars_of, decimal, find_char, find_char_from, push_all, slice,
    trim, trim_exec,
};

verus! {

// ---------------------------------------------------------------------------
// The drawing
// ---------------------------------------------------------------------------

/// A drawn view: the SVG, what it counts, and the notes that go with it.
#[derive(Debug)]
pub struct Drawing {
    pub svg: String,
    pub nodes: usize,
    pub edges: usize,
    pub notes: Vec<&'static str>,
}

/// `3 nodes`, `1 node`, `0 nodes`.
pub open spec fn plural(count: nat, noun: Seq<char>) -> Seq<char> {
    decimal(count) + " "@ + noun + if count == 1 {
        Seq::empty()
    } else {
        "s"@
    }
}

/// `3 nodes, 2 edges`.
pub open spec fn recount_of(nodes: nat, edges: nat) -> Seq<char> {
    plural(nodes, "node"@) + ", "@ + plural(edges, "edge"@)
}

/// `text`, then each note on a line of its own.
pub open spec fn noted(text: Seq<char>, notes: Seq<&'static str>) -> Seq<char>
    decreases notes.len(),
{
    if notes.len() == 0 {
        text
    } else {
        noted(text, notes.drop_last()) + "\n"@ + notes.last()@
    }
}

impl Drawing {
    /// The only feedback the agent has about the drawing, because the image
    /// never comes back into its context.
    pub fn recount(&self) -> (text: String)
        ensures
            text@ == recount_of(self.nodes as nat, self.edges as nat),
    {
        let mut text = plural_exec(self.nodes, "node");
        text.append(", ");
        let edges = plural_exec(self.edges, "edge");
        text.append(edges.as_str());
        text
    }

    /// The notes go after, one per line: the agent reads the outcome first
    /// and the price afterwards.
    pub fn noted_after(&self, text: String) -> (told: String)
        ensures
            told@ == noted(text@, self.notes@),
    {
        let mut told = text;
        let ghost start = told@;
        let mut i: usize = 0;
        while i < self.notes.len()
            invariant
                i <= self.notes@.len(),
                told@ == noted(start, self.notes@.take(i as int)),
            decreases self.notes@.len() - i,
        {
            assert(self.notes@.take(i + 1).drop_last() =~= self.notes@.take(i as int));
            told.append("\n");
            told.append(self.notes[i]);
            i = i + 1;
        }
        assert(self.notes@.take(self.notes@.len() as int) =~= self.notes@);
        told
    }
}

fn plural_exec(count: usize, noun: &str) -> (text: String)
    ensures
        text@ == plural(count as nat, noun@),
{
    let mut text = String::new();
    append_decimal(&mut text, count);
    text.append(" ");
    text.append(noun);
    if count != 1 {
        text.append("s");
    }
    text
}

// ---------------------------------------------------------------------------
// The rejections
// ---------------------------------------------------------------------------

/// The outcomes of a `show` that draw nothing. The panic is the only one that
/// says the fault is the flipchart's, on purpose: asked to fix its diagram,
/// the agent would try in a loop on something that has no fix.
#[derive(Debug)]
pub enum Rejection {
    InvalidInput(String),
    Unparsed(String),
    Undeclared(String),
    RendererPanicked,
}

pub open spec fn outcome_text(rejection: Rejection) -> Seq<char> {
    match rejection {
        Rejection::InvalidInput(_) => "invalid input"@,
        Rejection::Unparsed(_) => "parse error"@,
        Rejection::Undeclared(_) => "undeclared nodes"@,
        Rejection::RendererPanicked => "renderer panic"@,
    }
}

/// What the agent is told of a rejection of view `view_id`.
pub open spec fn told(rejection: Rejection, view_id: Seq<char>) -> Seq<char> {
    match rejection {
        Rejection::InvalidInput(d) => unchanged(view_id) + d@,
        Rejection::Unparsed(d) => unchanged(view_id) + d@,
        Rejection::Undeclared(d) => unchanged(view_id) + d@,
        Rejection::RendererPanicked => "Rejected: the renderer failed on this diagram; nothing was drawn.\nView \""@
            + view_id
            + "\" is unchanged. This is a bug in the flipchart, not in your diagram — try a simpler diagram, or the same one with fewer nodes."@,
    }
}

/// The fixed line every rejection but the panic opens with.
pub open spec fn unchanged(view_id: Seq<char>) -> Seq<char> {
    "Rejected: nothing was drawn; view \""@ + view_id + "\" is unchanged.\n"@
}

impl Rejection {
    pub fn outcome(&self) -> (text: &'static str)
        ensures
            text@ == outcome_text(*self),
    {
        match self {
            Rejection::InvalidInput(_) => "invalid input",
            Rejection::Unparsed(_) => "parse error",
            Rejection::Undeclared(_) => "undeclared nodes",
            Rejection::RendererPanicked => "renderer panic",
        }
    }

    pub fn told_about(&self, view_id: &str) -> (text: String)
        ensures
            text@ == told(*self, view_id@),
    {
        let mut text = String::new();
        match self {
            Rejection::InvalidInput(d) | Rejection::Unparsed(d) | Rejection::Undeclared(d) => {
                text.append("Rejected: nothing was drawn; view \"");
                text.append(view_id);
                text.append("\" is unchanged.\n");
                text.append(d.as_str());
            },
            Rejection::RendererPanicked => {
                text.append(
                    "Rejected: the renderer failed on this diagram; nothing was drawn.\nView \"",
                );
                text.append(view_id);
                text.append(
                    "\" is unchanged. This is a bug in the flipchart, not in your diagram — try a simpler diagram, or the same one with fewer nodes.",
                );
            },
        }
        text
    }
}

// ---------------------------------------------------------------------------
// The parse error, in words
// ---------------------------------------------------------------------------

/// `s.split(c)`: the pieces between the `c`s, empty ones included.
pub open spec fn split_on(s: Seq<char>, c: char) -> Seq<Seq<char>>
    decreases s.len(),
{
    match find_char(s, c) {
        None => seq![s],
        Some(i) => {
            proof {
                crate::text::lemma_find_char_in_range(s, c);
            }
            seq![s.take(i)] + split_on(s.skip(i + 1), c)
        },
    }
}

/// `items` joined by `sep`.
pub open spec fn joined(items: Seq<Seq<char>>, sep: Seq<char>) -> Seq<char>
    decreases items.len(),
{
    if items.len() == 0 {
        Seq::empty()
    } else if items.len() == 1 {
        items[0]
    } else {
        joined(items.drop_last(), sep) + sep + items.last()
    }
}

/// Joining one more item adds the separator and the item after what was
/// already joined: every item is listed, once, in its order.
pub proof fn law_joining_one_more_item(items: Seq<Seq<char>>, sep: Seq<char>, x: Seq<char>)
    ensures
        items.len() == 0 ==> joined(items.push(x), sep) == x,
        items.len() > 0 ==> joined(items.push(x), sep) == joined(items, sep) + sep + x,
{
    assert(items.push(x).drop_last() =~= items);
    if items.len() == 0 {
        assert(items.push(x)[0] == x);
    }
}

/// The first three items, as prose: `a`, `a or b`, `a, b or c`.
pub open spec fn shortlist(items: Seq<Seq<char>>) -> Seq<char> {
    let first = if items.len() < 3 {
        items
    } else {
        items.take(3)
    };
    if first.len() == 0 {
        Seq::empty()
    } else if first.len() == 1 {
        first[0]
    } else {
        joined(first.drop_last(), ", "@) + " or "@ + first.last()
    }
}

pub open spec fn quoted_all(items: Seq<Seq<char>>) -> Seq<Seq<char>> {
    items.map_values(|item: Seq<char>| "\""@ + item + "\""@)
}

pub open spec fn trimmed_all(items: Seq<Seq<char>>) -> Seq<Seq<char>> {
    items.map_values(|item: Seq<char>| trim(item))
}

/// The words for mmdr's typed parse error.
pub open spec fn diagnosis(failure: FailureView) -> Seq<char> {
    match failure {
        FailureView::UnknownParticipant { name, line, candidates } => if candidates.len() == 0 {
            "Unknown node \""@ + name + "\" at line "@ + decimal(line as nat)
                + " — it was never declared."@
        } else {
            "Unknown node \""@ + name + "\" at line "@ + decimal(line as nat) + " — did you mean "@
                + shortlist(quoted_all(candidates)) + "?"@
        },
        FailureView::UnclosedSubgraph { opened_at } => "A subgraph opened at line "@ + decimal(
            opened_at as nat,
        ) + " was never closed."@,
        FailureView::UnexpectedToken { line, col, found, expected } => "Unexpected token at line "@
            + decimal(line as nat) + ", column "@ + decimal(col as nat) + " — found \""@ + found
            + "\", expected "@ + shortlist(trimmed_all(split_on(expected, ','))) + "."@,
        FailureView::Unclassified(text) => "The flipchart did not classify this failure: "@ + text,
    }
}

/// Puts mmdr's typed parse error into words the agent can act on.
pub fn diagnosed(failure: &ParseFailure) -> (text: String)
    ensures
        text@ == diagnosis(failure@),
{
    let mut text = String::new();
    match failure {
        ParseFailure::UnknownParticipant { name, line, candidates } => {
            text.append("Unknown node \"");
            text.append(name.as_str());
            text.append("\" at line ");
            append_decimal(&mut text, *line as usize);
            if candidates.len() == 0 {
                text.append(" — it was never declared.");
            } else {
                text.append(" — did you mean ");
                let quoted = quoted_exec(candidates);
                let list = shortlist_exec(&quoted);
                append_chars(&mut text, &list);
                text.append("?");
            }
        },
        ParseFailure::UnclosedSubgraph { opened_at } => {
            text.append("A subgraph opened at line ");
            append_decimal(&mut text, *opened_at as usize);
            text.append(" was never closed.");
        },
        ParseFailure::UnexpectedToken { line, col, found, expected } => {
            text.append("Unexpected token at line ");
            append_decimal(&mut text, *line as usize);
            text.append(", column ");
            append_decimal(&mut text, *col as usize);
            text.append(" — found \"");
            text.append(found.as_str());
            text.append("\", expected ");
            let pieces = split_trimmed(expected.as_str());
            let list = shortlist_exec(&pieces);
            append_chars(&mut text, &list);
            text.append(".");
        },
        ParseFailure::Unclassified(unclassified) => {
            text.append("The flipchart did not classify this failure: ");
            text.append(unclassified.as_str());
        },
    }
    text
}

/// Each candidate, in double quotes.
fn quoted_exec(candidates: &Vec<String>) -> (quoted: Vec<Vec<char>>)
    ensures
        crate::text::views(quoted@) == quoted_all(candidates@.map_values(|c: String| c@)),
{
    let ghost expected = quoted_all(candidates@.map_values(|c: String| c@));
    let mut quoted: Vec<Vec<char>> = Vec::new();
    let mut i: usize = 0;
    while i < candidates.len()
        invariant
            i <= candidates@.len(),
            expected == quoted_all(candidates@.map_values(|c: String| c@)),
            crate::text::views(quoted@) == expected.take(i as int),
        decreases candidates@.len() - i,
    {
        let mut q: Vec<char> = Vec::new();
        q.push('"');
        let c = chars_of(candidates[i].as_str());
        let mut k: usize = 0;
        while k < c.len()
            invariant
                k <= c@.len(),
                q@ == seq!['"'] + c@.take(k as int),
            decreases c@.len() - k,
        {
            q.push(c[k]);
            k = k + 1;
            assert(q@ =~= seq!['"'] + c@.take(k as int));
        }
        q.push('"');
        proof {
            reveal_strlit("\"");
            assert(q@ =~= "\""@ + candidates@[i as int]@ + "\""@);
        }
        let ghost before = crate::text::views(quoted@);
        assert(candidates@.map_values(|c: String| c@)[i as int] == candidates@[i as int]@);
        assert(expected[i as int] == q@);
        quoted.push(q);
        assert(crate::text::views(quoted@) =~= before.push(q@));
        assert(expected.take(i + 1) =~= expected.take(i as int).push(expected[i as int]));
        i = i + 1;
    }
    assert(expected.take(candidates@.len() as int) =~= expected);
    quoted
}

/// `s.split(',')`, each piece trimmed.
fn split_trimmed(s: &str) -> (pieces: Vec<Vec<char>>)
    ensures
        crate::text::views(pieces@) == trimmed_all(split_on(s@, ',')),
{
    let chars = chars_of(s);
    let mut pieces: Vec<Vec<char>> = Vec::new();
    let mut at: usize = 0;
    let count = chars.len();
    assert(chars@.skip(0) =~= chars@);
    assert(crate::text::views(pieces@) + trimmed_all(split_on(chars@, ',')) =~= trimmed_all(
        split_on(chars@, ','),
    ));
    loop
        invariant
            at <= chars@.len(),
            chars@ == s@,
            count == chars@.len(),
            crate::text::views(pieces@) + trimmed_all(split_on(chars@.skip(at as int), ','))
                == trimmed_all(split_on(chars@, ',')),
        decreases chars@.len() - at,
    {
        let ghost rest = chars@.skip(at as int);
        let ghost before = crate::text::views(pieces@);
        match find_char_from(&chars, ',', at) {
            None => {
                let piece = slice(&chars, at, chars.len());
                assert(piece@ =~= rest);
                let t = trim_exec(&piece);
                pieces.push(t);
                assert(crate::text::views(pieces@) =~= before.push(trim(rest)));
                assert(trimmed_all(split_on(rest, ',')) =~= seq![trim(rest)]);
                assert(crate::text::views(pieces@) =~= trimmed_all(split_on(chars@, ',')));
                return pieces;
            },
            Some(end) => {
                let piece = slice(&chars, at, end);
                assert(piece@ =~= rest.take(end - at));
                let t = trim_exec(&piece);
                pieces.push(t);
                assert(crate::text::views(pieces@) =~= before.push(trim(rest.take(end - at))));
                let ghost start = at;
                at = end + 1;
                assert(rest.skip(end - start + 1) =~= chars@.skip(at as int));
                assert(trimmed_all(split_on(rest, ',')) =~= seq![trim(rest.take(end - start))]
                    + trimmed_all(split_on(chars@.skip(at as int), ',')));
                assert(crate::text::views(pieces@) + trimmed_all(
                    split_on(chars@.skip(at as int), ','),
                ) =~= before + trimmed_all(split_on(rest, ',')));
            },
        }
    }
}

/// The first three items, as prose.
fn shortlist_exec(items: &Vec<Vec<char>>) -> (text: Vec<char>)
    ensures
        text@ == shortlist(crate::text::views(items@)),
{
    let ghost all = crate::text::views(items@);
    let n: usize = if items.len() < 3 {
        items.len()
    } else {
        3
    };
    let ghost first = if all.len() < 3 {
        all
    } else {
        all.take(3)
    };
    assert(first.len() == n);
    assert(forall|k: int| 0 <= k < n ==> #[trigger] first[k] == items@[k]@);
    let mut text: Vec<char> = Vec::new();
    if n == 0 {
        return text;
    }
    push_all(&mut text, &items[0]);
    assert(text@ == first[0]);
    if n == 1 {
        return text;
    }
    assert(first.take(1) =~= seq![first[0]]);
    let mut i: usize = 1;
    while i < n - 1
        invariant
            1 < n <= 3,
            n <= items@.len(),
            first.len() == n,
            forall|k: int| 0 <= k < n ==> #[trigger] first[k] == items@[k]@,
            1 <= i <= n - 1,
            text@ == joined(first.take(i as int), ", "@),
        decreases n - 1 - i,
    {
        assert(first.take(i + 1).drop_last() =~= first.take(i as int));
        push_all(&mut text, &chars_of(", "));
        push_all(&mut text, &items[i]);
        i = i + 1;
    }
    push_all(&mut text, &chars_of(" or "));
    push_all(&mut text, &items[n - 1]);
    assert(first.drop_last() =~= first.take((n - 1) as int));
    text
}

// ---------------------------------------------------------------------------
// The pipeline
// ---------------------------------------------------------------------------
//
// Parsing and rendering are mmdr's, and either can unwind; the application
// makes those two calls, catches an unwinding as `RendererPanicked`, and
// hands the library what they gave. Everything in between is decided here:
// the words for what does not read, the honest limit, the house style, and
// the drawing.

/// Why a source does not read: the typed diagnosis when mmdr's strict parser
/// gave one, else the permissive parser's own words.
pub open spec fn unread_text(permissive: Seq<char>, typed: Option<FailureView>) -> Seq<char> {
    match typed {
        Some(failure) => diagnosis(failure),
        None => permissive,
    }
}

/// The words for a source that does not read. The strict parser is only paid
/// for when nothing is going to be drawn any more, and only for the typed
/// error the message is worded from: `typed` is what it said, if anything.
pub fn unread(permissive: String, typed: &Option<ParseFailure>) -> (text: String)
    ensures
        text@ == unread_text(
            permissive@,
            match typed {
                Some(f) => Some(f@),
                None => None,
            },
        ),
{
    match typed {
        Some(failure) => diagnosed(failure),
        None => permissive,
    }
}

/// Mermaid's own default theme, with its 16 px text: the modern theme's
/// 14 px text is harder to read on a second monitor. The renderer draws in
/// it, with mmdr's factory layout: no layout knob improves the drawing, and
/// several do harm.
pub fn theme() -> Theme {
    mermaid_theme()
}

/// A diagram the honest limit let through, with the house style imposed on
/// it and the notes the house style owes it: what goes to the renderer.
pub struct Ready {
    pub diagram: Diagram,
    pub notes: Vec<&'static str>,
}

/// What becomes of a parsed diagram before the renderer: rejected by the
/// honest limit, or house-styled with its notes, nodes and edges untouched.
pub open spec fn readied(graph: GraphView, source: Seq<char>, outcome: Result<Ready, Rejection>) -> bool {
    match undeclared(graph, source) {
        Some(text) => outcome matches Err(Rejection::Undeclared(t)) && t@ == text,
        None => outcome matches Ok(ready) && {
            &&& ready.diagram.graph@ == imposed(graph)
            &&& ready.diagram.well_formed()
            &&& ready.notes@ == imposed_notes(graph, source)
        },
    }
}

/// The honest limit first, then the house style. What the rules judge is
/// the IR the renderer will draw.
pub fn ready(parsed: Diagram, source: &str) -> (outcome: Result<Ready, Rejection>)
    requires
        parsed.well_formed(),
    ensures
        readied(parsed.graph@, source@, outcome),
{
    let mut parsed = parsed;
    if let Some(diagnostic) = undeclared_nodes(&parsed.graph, source) {
        return Err(Rejection::Undeclared(diagnostic));
    }
    let notes = imposed_on(&mut parsed, source);
    Ok(Ready { diagram: parsed, notes })
}

impl Ready {
    /// The drawing, once the renderer has turned the diagram into `svg`: it
    /// counts the nodes and edges that were drawn, and carries the notes.
    pub fn drawn(self, svg: String) -> (drawing: Drawing)
        ensures
            drawing.svg == svg,
            drawing.nodes == self.diagram.graph.nodes@.len(),
            drawing.edges == self.diagram.graph.edges@.len(),
            drawing.notes == self.notes,
    {
        let nodes = self.diagram.graph.nodes.len();
        let edges = self.diagram.graph.edges.len();
        Drawing { svg, nodes, edges, notes: self.notes }
    }
}

} // verus!
