//! The honest limit: the flipchart does not draw a node the agent did not
//! declare. A node is undeclared when no line of the source names it —the
//! parser manufactured it—, or when the agent gave other nodes a label, a body
//! or a shape and left this one bare, naming it only in a relation.

use vstd::prelude::*;

use crate::graph::{EdgeView, GraphFacts, GraphView, NodeFacts, NodeView};
use crate::text::{
    alphanumeric, append_decimal, append_padded, byte_len, chars_of, contains, contains_exec,
    decimal, lines, lines_exec, occurs_at, occurs_at_exec, pad, unicode_alphanumeric, utf8_len,
    views,
};

verus! {

// ---------------------------------------------------------------------------
// Reading the source
// ---------------------------------------------------------------------------

/// `char::is_alphanumeric() || c == '_'`: a character an id is made of.
pub open spec fn is_id_char(c: char) -> bool {
    unicode_alphanumeric(c) || c == '_'
}

/// `id` can be looked for as a whole token.
pub open spec fn is_a_token(id: Seq<char>) -> bool {
    id.len() > 0 && forall|k: int| 0 <= k < id.len() ==> is_id_char(#[trigger] id[k])
}

/// `line` holds `id` at `at` as a whole token, not as a piece of another.
pub open spec fn whole_at(line: Seq<char>, id: Seq<char>, at: int) -> bool {
    &&& occurs_at(line, id, at)
    &&& !(at > 0 && is_id_char(line[at - 1]))
    &&& !(at + id.len() < line.len() && is_id_char(line[at + id.len()]))
}

/// The characters that open a node's body: `[`, `(`, `{` and `>`.
pub open spec fn opens_a_body(c: char) -> bool {
    c == '[' || c == '(' || c == '{' || c == '>'
}

/// `line` names `id`.
pub open spec fn names(line: Seq<char>, id: Seq<char>) -> bool {
    is_a_token(id) && exists|at: int| whole_at(line, id, at)
}

/// `line` names `id` and gives it a body right there.
pub open spec fn names_with_a_body(line: Seq<char>, id: Seq<char>) -> bool {
    is_a_token(id) && exists|at: int|
        whole_at(line, id, at) && at + id.len() < line.len() && opens_a_body(line[at + id.len()])
}

/// The index of the first line of `ls`, from `i` on, that names `id`.
pub open spec fn first_naming_from(ls: Seq<Seq<char>>, id: Seq<char>, i: int) -> Option<int>
    decreases ls.len() - i,
{
    if i < 0 || i >= ls.len() {
        None
    } else if names(ls[i], id) {
        Some(i)
    } else {
        first_naming_from(ls, id, i + 1)
    }
}

/// The index of the first line of `ls`, from `i` on, that contains `id`.
pub open spec fn first_holding_from(ls: Seq<Seq<char>>, id: Seq<char>, i: int) -> Option<int>
    decreases ls.len() - i,
{
    if i < 0 || i >= ls.len() {
        None
    } else if contains(ls[i], id) {
        Some(i)
    } else {
        first_holding_from(ls, id, i + 1)
    }
}

/// The body of the source is every line but the first: the header says what
/// kind of diagram this is and declares no node. Lines are numbered from 1, so
/// the line at index `i` is line `i + 1`.
pub open spec fn line_number(index: Option<int>) -> Option<int> {
    match index {
        Some(i) => Some(i + 1),
        None => None,
    }
}

/// Some line of the body names `id` and gives it a body.
pub open spec fn gives_it_a_body(ls: Seq<Seq<char>>, id: Seq<char>) -> bool {
    exists|i: int| 1 <= i < ls.len() && names_with_a_body(#[trigger] ls[i], id)
}

/// A label, a body or a shape of its own. The IR does not tell
/// `Order["Order"]` from a bare `Order`, so the body is asked of the source.
pub open spec fn declares_itself(node: NodeView, ls: Seq<Seq<char>>) -> bool {
    node.label != node.id || !node.rectangle || gives_it_a_body(ls, node.id)
}

/// Some node of the graph declares itself.
pub open spec fn anyone_declares_itself(graph: GraphView, ls: Seq<Seq<char>>) -> bool {
    exists|i: int| 0 <= i < graph.nodes.len() && declares_itself(#[trigger] graph.nodes[i], ls)
}

/// Some edge starts or ends at `id`.
pub open spec fn in_a_relation(graph: GraphView, id: Seq<char>) -> bool {
    exists|e: int| 0 <= e < graph.edges.len() && touches(#[trigger] graph.edges[e], id)
}

/// `edge` starts or ends at `id`.
pub open spec fn touches(edge: EdgeView, id: Seq<char>) -> bool {
    edge.from == id || edge.to == id
}

// ---------------------------------------------------------------------------
// The verdicts
// ---------------------------------------------------------------------------

/// Why a node counts as undeclared.
#[derive(Clone, Copy, PartialEq, Eq, Debug)]
pub enum Cause {
    NotInSource,
    OnlyInARelation,
}

/// An undeclared node: its id, the line to point at, and why.
pub struct Verdict {
    pub id: Seq<char>,
    pub line: Option<int>,
    pub cause: Cause,
}

/// The verdict on one node.
pub open spec fn judge(node: NodeView, graph: GraphView, ls: Seq<Seq<char>>, anyone: bool) -> Option<
    Verdict,
> {
    match first_naming_from(ls, node.id, 1) {
        None => Some(
            Verdict {
                id: node.id,
                line: line_number(first_holding_from(ls, node.id, 1)),
                cause: Cause::NotInSource,
            },
        ),
        Some(i) => if anyone && !declares_itself(node, ls) && in_a_relation(graph, node.id) {
            Some(Verdict { id: node.id, line: Some(i + 1), cause: Cause::OnlyInARelation })
        } else {
            None
        },
    }
}

/// The verdicts on the nodes `nodes`, in their order.
pub open spec fn judged(nodes: Seq<NodeView>, graph: GraphView, ls: Seq<Seq<char>>, anyone: bool) -> Seq<
    Verdict,
>
    decreases nodes.len(),
{
    if nodes.len() == 0 {
        Seq::empty()
    } else {
        judged(nodes.drop_last(), graph, ls, anyone) + match judge(
            nodes.last(),
            graph,
            ls,
            anyone,
        ) {
            Some(v) => seq![v],
            None => Seq::empty(),
        }
    }
}

/// `a` comes before `b`, or is `b`, in lexicographic order of characters —
/// which is the byte order of their UTF-8, `String`'s order.
pub open spec fn text_le(a: Seq<char>, b: Seq<char>) -> bool
    decreases a.len(),
{
    if a.len() == 0 {
        true
    } else if b.len() == 0 {
        false
    } else if a[0] != b[0] {
        (a[0] as u32) < (b[0] as u32)
    } else {
        text_le(a.drop_first(), b.drop_first())
    }
}

/// Where a verdict points: its line, or the end of everything when it has none.
pub open spec fn place_key(v: Verdict) -> int {
    match v.line {
        Some(n) => n,
        None => usize::MAX as int,
    }
}

/// `a` sorts no later than `b`: by line, then by id.
pub open spec fn key_le(a: Verdict, b: Verdict) -> bool {
    place_key(a) < place_key(b) || (place_key(a) == place_key(b) && text_le(a.id, b.id))
}

/// `v` inserted into `sorted` after every verdict that sorts no later than it.
pub open spec fn insert_sorted(sorted: Seq<Verdict>, v: Verdict) -> Seq<Verdict>
    decreases sorted.len(),
{
    if sorted.len() == 0 {
        seq![v]
    } else if key_le(sorted.last(), v) {
        sorted.push(v)
    } else {
        insert_sorted(sorted.drop_last(), v).push(sorted.last())
    }
}

/// The verdicts sorted by line and then by id; verdicts that tie keep their
/// order.
pub open spec fn sorted(vs: Seq<Verdict>) -> Seq<Verdict>
    decreases vs.len(),
{
    if vs.len() == 0 {
        Seq::empty()
    } else {
        insert_sorted(sorted(vs.drop_last()), vs.last())
    }
}

/// The verdicts are in order: each sorts no later than every one after it.
pub open spec fn in_order(vs: Seq<Verdict>) -> bool {
    forall|i: int, j: int| 0 <= i < j < vs.len() ==> key_le(#[trigger] vs[i], #[trigger] vs[j])
}

/// Of two texts, one comes no later than the other.
pub proof fn lemma_text_le_total(a: Seq<char>, b: Seq<char>)
    ensures
        text_le(a, b) || text_le(b, a),
    decreases a.len(),
{
    if a.len() > 0 && b.len() > 0 {
        if a[0] == b[0] {
            lemma_text_le_total(a.drop_first(), b.drop_first());
        } else {
            vstd::utf8::char_u32_cast(a[0], a[0] as u32);
            vstd::utf8::char_u32_cast(b[0], b[0] as u32);
        }
    }
}

/// Coming no later is transitive over texts.
pub proof fn lemma_text_le_transitive(a: Seq<char>, b: Seq<char>, c: Seq<char>)
    requires
        text_le(a, b),
        text_le(b, c),
    ensures
        text_le(a, c),
    decreases a.len(),
{
    if a.len() > 0 && b.len() > 0 && c.len() > 0 && a[0] == b[0] && b[0] == c[0] {
        lemma_text_le_transitive(a.drop_first(), b.drop_first(), c.drop_first());
    }
}

/// Of two verdicts, one sorts no later than the other.
pub proof fn lemma_key_le_total(a: Verdict, b: Verdict)
    ensures
        key_le(a, b) || key_le(b, a),
{
    lemma_text_le_total(a.id, b.id);
}

/// Sorting no later is transitive over verdicts.
pub proof fn lemma_key_le_transitive(a: Verdict, b: Verdict, c: Verdict)
    requires
        key_le(a, b),
        key_le(b, c),
    ensures
        key_le(a, c),
{
    if place_key(a) == place_key(b) && place_key(b) == place_key(c) {
        lemma_text_le_transitive(a.id, b.id, c.id);
    }
}

/// Inserting into verdicts in order keeps them in order, and adds exactly
/// the one inserted.
pub proof fn lemma_insert_sorted(vs: Seq<Verdict>, v: Verdict)
    requires
        in_order(vs),
    ensures
        in_order(insert_sorted(vs, v)),
        insert_sorted(vs, v).to_multiset() == vs.to_multiset().insert(v),
    decreases vs.len(),
{
    broadcast use vstd::seq_lib::group_to_multiset_ensures;

    if vs.len() == 0 {
        assert(insert_sorted(vs, v) =~= Seq::<Verdict>::empty().push(v));
    } else if key_le(vs.last(), v) {
        let r = vs.push(v);
        assert forall|i: int, j: int| 0 <= i < j < r.len() implies key_le(
            #[trigger] r[i],
            #[trigger] r[j],
        ) by {
            if j == vs.len() {
                if i < vs.len() - 1 {
                    assert(key_le(vs[i], vs[vs.len() - 1]));
                    lemma_key_le_transitive(vs[i], vs.last(), v);
                }
            } else {
                assert(key_le(vs[i], vs[j]));
            }
        }
    } else {
        let rest = vs.drop_last();
        let last = vs.last();
        assert(in_order(rest)) by {
            assert forall|i: int, j: int| 0 <= i < j < rest.len() implies key_le(
                #[trigger] rest[i],
                #[trigger] rest[j],
            ) by {
                assert(key_le(vs[i], vs[j]));
            }
        }
        lemma_insert_sorted(rest, v);
        let inner = insert_sorted(rest, v);
        lemma_key_le_total(last, v);
        assert(vs =~= rest.push(last));
        assert forall|k: int| 0 <= k < inner.len() implies key_le(#[trigger] inner[k], last) by {
            let x = inner[k];
            assert(inner.to_multiset().count(x) > 0);
            if x != v {
                assert(rest.to_multiset().count(x) > 0);
                let m = choose|m: int| 0 <= m < rest.len() && rest[m] == x;
                assert(key_le(vs[m], vs[vs.len() - 1]));
            }
        }
        let r = inner.push(last);
        assert forall|i: int, j: int| 0 <= i < j < r.len() implies key_le(
            #[trigger] r[i],
            #[trigger] r[j],
        ) by {
            if j == inner.len() {
                assert(key_le(inner[i], last));
            } else {
                assert(key_le(inner[i], inner[j]));
            }
        }
        assert(r.to_multiset() =~= inner.to_multiset().insert(last));
        assert(vs.to_multiset() =~= rest.to_multiset().insert(last));
        assert(r.to_multiset() =~= vs.to_multiset().insert(v));
    }
}

/// The rejection lists the undeclared nodes sorted by the line they are
/// pointed at, and then by id, a node with no line last: the sorted verdicts
/// are the same verdicts, each once, in order.
pub proof fn law_verdicts_come_sorted(vs: Seq<Verdict>)
    ensures
        in_order(sorted(vs)),
        sorted(vs).to_multiset() == vs.to_multiset(),
    decreases vs.len(),
{
    broadcast use vstd::seq_lib::group_to_multiset_ensures;

    if vs.len() == 0 {
        assert(sorted(vs) =~= vs);
    } else {
        law_verdicts_come_sorted(vs.drop_last());
        lemma_insert_sorted(sorted(vs.drop_last()), vs.last());
        assert(vs =~= vs.drop_last().push(vs.last()));
    }
}

/// No verdict on any of `nodes` is the same as no verdict on each of them.
pub proof fn lemma_judged_empty(nodes: Seq<NodeView>, graph: GraphView, ls: Seq<Seq<char>>, anyone: bool)
    ensures
        judged(nodes, graph, ls, anyone).len() == 0 <==> forall|k: int|
            0 <= k < nodes.len() ==> #[trigger] judge(nodes[k], graph, ls, anyone) is None,
    decreases nodes.len(),
{
    if nodes.len() > 0 {
        let rest = nodes.drop_last();
        lemma_judged_empty(rest, graph, ls, anyone);
        assert forall|k: int| 0 <= k < rest.len() implies #[trigger] rest[k] == nodes[k] by {}
        if judged(nodes, graph, ls, anyone).len() == 0 {
            assert forall|k: int| 0 <= k < nodes.len() implies #[trigger] judge(
                nodes[k],
                graph,
                ls,
                anyone,
            ) is None by {
                if k < rest.len() {
                    assert(rest[k] == nodes[k]);
                    assert(judge(rest[k], graph, ls, anyone) is None);
                }
            }
        } else {
            if forall|k: int| 0 <= k < nodes.len() ==> #[trigger] judge(nodes[k], graph, ls, anyone) is None {
                assert(judge(nodes[nodes.len() - 1], graph, ls, anyone) is None);
                assert forall|k: int| 0 <= k < rest.len() implies #[trigger] judge(
                    rest[k],
                    graph,
                    ls,
                    anyone,
                ) is None by {
                    assert(judge(nodes[k], graph, ls, anyone) is None);
                }
            }
        }
    }
}

/// The honest limit: the flipchart draws no node the agent did not declare.
/// A graph passes exactly when every node is named, as a whole token, by
/// some line after the header, and, once any node declares itself, every
/// node that takes part in a relation declares itself too.
pub proof fn law_only_declared_nodes_pass(graph: GraphView, source: Seq<char>)
    ensures
        undeclared(graph, source) is None <==> forall|k: int|
            0 <= k < graph.nodes.len() ==> {
                &&& first_naming_from(lines(source), #[trigger] graph.nodes[k].id, 1) is Some
                &&& anyone_declares_itself(graph, lines(source)) && in_a_relation(graph, graph.nodes[k].id)
                    ==> declares_itself(graph.nodes[k], lines(source))
            },
{
    let ls = lines(source);
    let anyone = anyone_declares_itself(graph, ls);
    lemma_judged_empty(graph.nodes, graph, ls, anyone);
    if undeclared(graph, source) is None {
        assert forall|k: int| 0 <= k < graph.nodes.len() implies {
            &&& first_naming_from(ls, #[trigger] graph.nodes[k].id, 1) is Some
            &&& anyone && in_a_relation(graph, graph.nodes[k].id) ==> declares_itself(
                graph.nodes[k],
                ls,
            )
        } by {
            assert(judge(graph.nodes[k], graph, ls, anyone) is None);
        }
    } else {
        let k = choose|k: int|
            0 <= k < graph.nodes.len() && !(#[trigger] judge(graph.nodes[k], graph, ls, anyone) is None);
        assert(!{
            &&& first_naming_from(ls, graph.nodes[k].id, 1) is Some
            &&& anyone && in_a_relation(graph, graph.nodes[k].id) ==> declares_itself(
                graph.nodes[k],
                ls,
            )
        });
    }
}

/// A node takes part in a relation when it is either end of some edge: the
/// start of an edge counts as much as its end.
pub proof fn law_both_ends_of_an_edge_are_in_a_relation(graph: GraphView, e: int)
    requires
        0 <= e < graph.edges.len(),
    ensures
        in_a_relation(graph, graph.edges[e].from),
        in_a_relation(graph, graph.edges[e].to),
{
    assert(touches(graph.edges[e], graph.edges[e].from));
    assert(touches(graph.edges[e], graph.edges[e].to));
}

/// Once some node declares itself, a bare node at either end of an edge —the
/// start or the end— gets the diagram rejected.
pub proof fn law_a_bare_node_at_either_end_of_an_edge_is_rejected(
    graph: GraphView,
    source: Seq<char>,
    k: int,
    e: int,
)
    requires
        0 <= k < graph.nodes.len(),
        0 <= e < graph.edges.len(),
        graph.edges[e].from == graph.nodes[k].id || graph.edges[e].to == graph.nodes[k].id,
        anyone_declares_itself(graph, lines(source)),
        !declares_itself(graph.nodes[k], lines(source)),
    ensures
        undeclared(graph, source) is Some,
{
    law_both_ends_of_an_edge_are_in_a_relation(graph, e);
    law_only_declared_nodes_pass(graph, source);
    assert(in_a_relation(graph, graph.nodes[k].id));
}

// ---------------------------------------------------------------------------
// The wording
// ---------------------------------------------------------------------------

/// `"id"`.
pub open spec fn quoted(id: Seq<char>) -> Seq<char> {
    "\""@ + id + "\""@
}

/// `line N`, or nothing.
pub open spec fn place(v: Verdict) -> Seq<char> {
    match v.line {
        Some(n) => "line "@ + decimal(n as nat),
        None => Seq::empty(),
    }
}

/// The widest quoted id, in bytes.
pub open spec fn name_width(vs: Seq<Verdict>) -> nat
    decreases vs.len(),
{
    if vs.len() == 0 {
        0
    } else {
        let rest = name_width(vs.drop_last());
        let here = utf8_len(quoted(vs.last().id));
        if here > rest {
            here
        } else {
            rest
        }
    }
}

/// The widest place, in bytes.
pub open spec fn place_width(vs: Seq<Verdict>) -> nat
    decreases vs.len(),
{
    if vs.len() == 0 {
        0
    } else {
        let rest = place_width(vs.drop_last());
        let here = utf8_len(place(vs.last()));
        if here > rest {
            here
        } else {
            rest
        }
    }
}

pub open spec fn cause_text(cause: Cause) -> Seq<char> {
    match cause {
        Cause::NotInSource => "not in your source"@,
        Cause::OnlyInARelation => "only used in a relation"@,
    }
}

/// One row of the table: the quoted id and the place, each padded to its
/// column, then the cause. With no place in any row, the place column goes.
pub open spec fn row(v: Verdict, names: nat, places: nat) -> Seq<char> {
    "\n  "@ + pad(quoted(v.id), names) + "  "@ + (if places == 0 {
        Seq::empty()
    } else {
        pad(place(v), places) + "  "@
    }) + "— "@ + cause_text(v.cause)
}

pub open spec fn rows(vs: Seq<Verdict>, names: nat, places: nat) -> Seq<char>
    decreases vs.len(),
{
    if vs.len() == 0 {
        Seq::empty()
    } else {
        rows(vs.drop_last(), names, places) + row(vs.last(), names, places)
    }
}

pub open spec fn headline(count: nat) -> Seq<char> {
    if count == 1 {
        "1 node appears in the drawing that you did not declare."@
    } else {
        decimal(count) + " nodes appear in the drawing that you did not declare."@
    }
}

/// The rejection's text for the sorted verdicts `vs`.
pub open spec fn worded(vs: Seq<Verdict>) -> Seq<char> {
    headline(vs.len()) + rows(vs, name_width(vs), place_width(vs))
        + "\nDeclare every node you name, and rewrite any line the renderer turned into one."@
}

/// What the honest limit says of `graph`, parsed from `source`: nothing when
/// every node is declared, else the wording of the sorted verdicts.
pub open spec fn undeclared(graph: GraphView, source: Seq<char>) -> Option<Seq<char>> {
    let ls = lines(source);
    let found = judged(graph.nodes, graph, ls, anyone_declares_itself(graph, ls));
    if found.len() == 0 {
        None
    } else {
        Some(worded(sorted(found)))
    }
}

// ---------------------------------------------------------------------------
// The executable side
// ---------------------------------------------------------------------------

/// An undeclared node, as the code carries it.
pub struct Undeclared {
    pub id: Vec<char>,
    pub line: Option<usize>,
    pub cause: Cause,
}

impl View for Undeclared {
    type V = Verdict;

    open spec fn view(&self) -> Verdict {
        Verdict {
            id: self.id@,
            line: match self.line {
                Some(n) => Some(n as int),
                None => None,
            },
            cause: self.cause,
        }
    }
}

pub open spec fn verdicts(us: Seq<Undeclared>) -> Seq<Verdict> {
    us.map_values(|u: Undeclared| u@)
}

/// Rejects the drawing when it holds a node the agent did not declare, and
/// says which, where and why, sorted by line and then by id.
pub fn undeclared_nodes(graph: &GraphFacts, source: &str) -> (text: Option<String>)
    ensures
        match text {
            None => undeclared(graph@, source@) is None,
            Some(t) => undeclared(graph@, source@) == Some(t@),
        },
{
    let chars = chars_of(source);
    let ls = lines_exec(&chars);
    let ghost lv = views(ls@);
    let ghost g = graph@;
    let anyone = anyone_declares_itself_exec(graph, &ls);
    let mut found: Vec<Undeclared> = Vec::new();
    let mut i: usize = 0;
    while i < graph.nodes.len()
        invariant
            i <= graph.nodes@.len(),
            g == graph@,
            lv == views(ls@),
            anyone == anyone_declares_itself(g, lv),
            verdicts(found@) == judged(g.nodes.take(i as int), g, lv, anyone),
        decreases graph.nodes@.len() - i,
    {
        let ghost before = found@;
        assert(g.nodes.take(i + 1).drop_last() =~= g.nodes.take(i as int));
        assert(g.nodes.take(i + 1).last() == graph.nodes@[i as int]@);
        match judge_exec(&graph.nodes[i], graph, &ls, anyone) {
            Some(u) => {
                found.push(u);
                assert(verdicts(found@) =~= verdicts(before).push(u@));
            },
            None => {},
        }
        i = i + 1;
        assert(verdicts(found@) =~= judged(g.nodes.take(i as int), g, lv, anyone));
    }
    assert(g.nodes.take(g.nodes.len() as int) =~= g.nodes);
    if found.len() == 0 {
        return None;
    }
    let order = sort_exec(found);
    Some(worded_exec(&order))
}

/// Whether `line` names `id` as a whole token, and whether, right there, it
/// gives it a body.
fn named_in(line: &Vec<char>, id: &Vec<char>) -> (r: (bool, bool))
    ensures
        r.0 == names(line@, id@),
        r.1 == names_with_a_body(line@, id@),
{
    if !a_token(id) {
        return (false, false);
    }
    let mut named = false;
    let mut bodied = false;
    let mut at: usize = 0;
    while at < line.len()
        invariant
            is_a_token(id@),
            at <= line@.len(),
            named == exists|k: int| 0 <= k < at && whole_at(line@, id@, k),
            bodied == exists|k: int|
                0 <= k < at && whole_at(line@, id@, k) && k + id@.len() < line@.len()
                    && opens_a_body(line@[k + id@.len()]),
        decreases line@.len() - at,
    {
        if whole_at_exec(line, id, at) {
            named = true;
            let end = at + id.len();
            if end < line.len() && (line[end] == '[' || line[end] == '(' || line[end] == '{'
                || line[end] == '>') {
                bodied = true;
            }
        }
        at = at + 1;
    }
    proof {
        assert forall|k: int| #[trigger] whole_at(line@, id@, k) implies 0 <= k < at by {}
    }
    (named, bodied)
}

/// Whether `id` is made of id characters only, and is not empty.
fn a_token(id: &Vec<char>) -> (b: bool)
    ensures
        b == is_a_token(id@),
{
    if id.len() == 0 {
        return false;
    }
    let mut k: usize = 0;
    while k < id.len()
        invariant
            k <= id@.len(),
            forall|j: int| 0 <= j < k ==> is_id_char(#[trigger] id@[j]),
        decreases id@.len() - k,
    {
        if !(alphanumeric(id[k]) || id[k] == '_') {
            assert(!is_id_char(id@[k as int]));
            return false;
        }
        k = k + 1;
    }
    true
}

/// Whether `line` holds `id` at `at` as a whole token.
fn whole_at_exec(line: &Vec<char>, id: &Vec<char>, at: usize) -> (b: bool)
    ensures
        b == whole_at(line@, id@, at as int),
{
    if !occurs_at_exec(line, id, at) {
        return false;
    }
    let n = line.len();
    assert(at + id@.len() <= n);
    let before = at > 0 && (alphanumeric(line[at - 1]) || line[at - 1] == '_');
    let end = at + id.len();
    let after = end < line.len() && (alphanumeric(line[end]) || line[end] == '_');
    !before && !after
}

/// The index of the first line from `1` on that names `id` (`by_name`), or
/// that contains it.
fn first_line(ls: &Vec<Vec<char>>, id: &Vec<char>, by_name: bool) -> (r: Option<usize>)
    ensures
        r matches Some(i) ==> 1 <= i < ls@.len(),
        by_name ==> match r {
            None => first_naming_from(views(ls@), id@, 1) is None,
            Some(i) => first_naming_from(views(ls@), id@, 1) == Some(i as int),
        },
        !by_name ==> match r {
            None => first_holding_from(views(ls@), id@, 1) is None,
            Some(i) => first_holding_from(views(ls@), id@, 1) == Some(i as int),
        },
{
    let ghost lv = views(ls@);
    let mut i: usize = 1;
    while i < ls.len()
        invariant
            1 <= i,
            lv == views(ls@),
            by_name ==> first_naming_from(lv, id@, 1) == first_naming_from(lv, id@, i as int),
            !by_name ==> first_holding_from(lv, id@, 1) == first_holding_from(lv, id@, i as int),
        decreases ls@.len() - i,
    {
        assert(lv[i as int] == ls@[i as int]@);
        let hit = if by_name {
            named_in(&ls[i], id).0
        } else {
            contains_exec(&ls[i], id)
        };
        if hit {
            return Some(i);
        }
        i = i + 1;
    }
    None
}

/// Whether some body line names `id` and gives it a body.
fn gives_it_a_body_exec(ls: &Vec<Vec<char>>, id: &Vec<char>) -> (b: bool)
    ensures
        b == gives_it_a_body(views(ls@), id@),
{
    let ghost lv = views(ls@);
    let mut i: usize = 1;
    while i < ls.len()
        invariant
            1 <= i,
            lv == views(ls@),
            forall|k: int| 1 <= k < i ==> !names_with_a_body(#[trigger] lv[k], id@),
        decreases ls@.len() - i,
    {
        assert(lv[i as int] == ls@[i as int]@);
        if named_in(&ls[i], id).1 {
            return true;
        }
        i = i + 1;
    }
    false
}

/// Whether `node` declares itself.
fn declares_itself_exec(node: &NodeFacts, ls: &Vec<Vec<char>>) -> (b: bool)
    ensures
        b == declares_itself(node@, views(ls@)),
{
    let id = chars_of(node.id.as_str());
    let label = chars_of(node.label.as_str());
    !crate::text::same(&label, &id) || !node.rectangle || gives_it_a_body_exec(ls, &id)
}

fn anyone_declares_itself_exec(graph: &GraphFacts, ls: &Vec<Vec<char>>) -> (b: bool)
    ensures
        b == anyone_declares_itself(graph@, views(ls@)),
{
    let ghost g = graph@;
    let mut i: usize = 0;
    while i < graph.nodes.len()
        invariant
            i <= graph.nodes@.len(),
            g == graph@,
            forall|k: int| 0 <= k < i ==> !declares_itself(#[trigger] g.nodes[k], views(ls@)),
        decreases graph.nodes@.len() - i,
    {
        assert(g.nodes[i as int] == graph.nodes@[i as int]@);
        if declares_itself_exec(&graph.nodes[i], ls) {
            return true;
        }
        i = i + 1;
    }
    false
}

fn in_a_relation_exec(graph: &GraphFacts, id: &Vec<char>) -> (b: bool)
    ensures
        b == in_a_relation(graph@, id@),
{
    let ghost g = graph@;
    let mut e: usize = 0;
    while e < graph.edges.len()
        invariant
            e <= graph.edges@.len(),
            g == graph@,
            forall|k: int| 0 <= k < e ==> !touches(#[trigger] g.edges[k], id@),
        decreases graph.edges@.len() - e,
    {
        let edge = &graph.edges[e];
        let from = chars_of(edge.from.as_str());
        let to = chars_of(edge.to.as_str());
        assert(g.edges[e as int] == graph.edges@[e as int]@);
        assert(from@ == g.edges[e as int].from);
        assert(to@ == g.edges[e as int].to);
        if crate::text::same(&from, id) || crate::text::same(&to, id) {
            assert(touches(g.edges[e as int], id@));
            return true;
        }
        assert(!touches(g.edges[e as int], id@));
        e = e + 1;
    }
    false
}

/// The verdict on `node`.
fn judge_exec(node: &NodeFacts, graph: &GraphFacts, ls: &Vec<Vec<char>>, anyone: bool) -> (r: Option<
    Undeclared,
>)
    ensures
        match r {
            None => judge(node@, graph@, views(ls@), anyone) is None,
            Some(u) => judge(node@, graph@, views(ls@), anyone) == Some(u@),
        },
{
    let id = chars_of(node.id.as_str());
    let count = ls.len();
    match first_line(ls, &id, true) {
        None => {
            let line = match first_line(ls, &id, false) {
                Some(i) => Some(i + 1),
                None => None,
            };
            Some(Undeclared { id, line, cause: Cause::NotInSource })
        },
        Some(i) => {
            if anyone && !declares_itself_exec(node, ls) && in_a_relation_exec(graph, &id) {
                Some(Undeclared { id, line: Some(i + 1), cause: Cause::OnlyInARelation })
            } else {
                None
            }
        },
    }
}

fn sort_exec(found: Vec<Undeclared>) -> (order: Vec<Undeclared>)
    ensures
        verdicts(order@) == sorted(verdicts(found@)),
{
    let mut order: Vec<Undeclared> = Vec::new();
    let count = found.len();
    let mut rest = found;
    let ghost all = verdicts(rest@);
    let mut taken: usize = 0;
    // Takes the verdicts in their order, inserting each into `order`.
    while rest.len() > 0
        invariant
            taken + rest@.len() == all.len(),
            all.len() <= usize::MAX,
            verdicts(rest@) == all.skip(taken as int),
            verdicts(order@) == sorted(all.take(taken as int)),
        decreases rest@.len(),
    {
        let ghost rest_before = rest@;
        let v = rest.remove(0);
        assert(verdicts(rest@) =~= all.skip(taken + 1)) by {
            assert(rest@ =~= rest_before.drop_first());
            assert(verdicts(rest@) =~= verdicts(rest_before).drop_first());
            assert(all.skip(taken as int).drop_first() =~= all.skip(taken + 1));
        }
        assert(v@ == all[taken as int]) by {
            assert(verdicts(rest_before)[0] == v@);
        }
        assert(all.take(taken + 1).drop_last() =~= all.take(taken as int));
        order = insert_exec(order, v);
        taken = taken + 1;
    }
    assert(all.take(all.len() as int) =~= all);
    order
}

/// Whether `a` sorts no later than `b`.
fn key_le_exec(a: &Undeclared, b: &Undeclared) -> (le: bool)
    ensures
        le == key_le(a@, b@),
{
    let ka: usize = match a.line {
        Some(n) => n,
        None => usize::MAX,
    };
    let kb: usize = match b.line {
        Some(n) => n,
        None => usize::MAX,
    };
    if ka < kb {
        true
    } else if ka > kb {
        false
    } else {
        text_le_exec(&a.id, &b.id)
    }
}

fn text_le_exec(a: &Vec<char>, b: &Vec<char>) -> (le: bool)
    ensures
        le == text_le(a@, b@),
{
    let mut i: usize = 0;
    assert(a@.skip(0) =~= a@);
    assert(b@.skip(0) =~= b@);
    while i < a.len() && i < b.len() && a[i] == b[i]
        invariant
            i <= a@.len(),
            i <= b@.len(),
            text_le(a@, b@) == text_le(a@.skip(i as int), b@.skip(i as int)),
        decreases a@.len() - i,
    {
        assert(a@.skip(i as int).drop_first() =~= a@.skip(i + 1));
        assert(b@.skip(i as int).drop_first() =~= b@.skip(i + 1));
        i = i + 1;
    }
    if i == a.len() {
        true
    } else if i == b.len() {
        false
    } else {
        (a[i] as u32) < (b[i] as u32)
    }
}

/// `v` inserted into `order` after every verdict that sorts no later than it.
fn insert_exec(order: Vec<Undeclared>, v: Undeclared) -> (r: Vec<Undeclared>)
    ensures
        verdicts(r@) == insert_sorted(verdicts(order@), v@),
{
    let mut p: usize = order.len();
    while p > 0 && !key_le_exec(&order[p - 1], &v)
        invariant
            p <= order@.len(),
            forall|k: int| p <= k < order@.len() ==> !key_le(#[trigger] verdicts(order@)[k], v@),
        decreases p,
    {
        p = p - 1;
    }
    let ghost vs = verdicts(order@);
    proof {
        lemma_insert_at(vs, v@, p as int);
    }
    let mut tail = order;
    let mut head: Vec<Undeclared> = Vec::new();
    let ghost whole = tail@;
    // Moves the first `p` verdicts to `head`.
    let mut moved: usize = 0;
    while moved < p
        invariant
            moved <= p <= whole.len(),
            head@ == whole.take(moved as int),
            tail@ == whole.skip(moved as int),
        decreases p - moved,
    {
        let ghost tail_before = tail@;
        let u = tail.remove(0);
        head.push(u);
        moved = moved + 1;
        assert(head@ =~= whole.take(moved as int));
        assert(tail@ =~= whole.skip(moved as int)) by {
            assert(tail@ =~= tail_before.drop_first());
        }
    }
    head.push(v);
    let mut rest = tail;
    let ghost joined_before = head@;
    head.append(&mut rest);
    assert(verdicts(head@) =~= vs.take(p as int) + seq![v@] + vs.skip(p as int)) by {
        assert(head@ =~= whole.take(p as int).push(v) + whole.skip(p as int));
    }
    head
}

/// Inserting behind the last verdict that sorts no later than `v` is
/// splicing `v` in there.
proof fn lemma_insert_at(vs: Seq<Verdict>, v: Verdict, p: int)
    requires
        0 <= p <= vs.len(),
        p == 0 || key_le(vs[p - 1], v),
        forall|k: int| p <= k < vs.len() ==> !key_le(#[trigger] vs[k], v),
    ensures
        insert_sorted(vs, v) == vs.take(p) + seq![v] + vs.skip(p),
    decreases vs.len(),
{
    if vs.len() == 0 {
        assert(vs.take(p) + seq![v] + vs.skip(p) =~= seq![v]);
    } else if p == vs.len() {
        assert(vs.take(p) + seq![v] + vs.skip(p) =~= vs.push(v));
    } else {
        assert(!key_le(vs.last(), v));
        lemma_insert_at(vs.drop_last(), v, p);
        assert(vs.drop_last().take(p) + seq![v] + vs.drop_last().skip(p) + seq![vs.last()]
            =~= vs.take(p) + seq![v] + vs.skip(p));
    }
}

/// The rejection's text for the sorted verdicts `order`.
fn worded_exec(order: &Vec<Undeclared>) -> (text: String)
    ensures
        text@ == worded(verdicts(order@)),
{
    let ghost vs = verdicts(order@);
    let mut names: Vec<Vec<char>> = Vec::new();
    let mut places: Vec<Vec<char>> = Vec::new();
    let mut names_w: usize = 0;
    let mut places_w: usize = 0;
    let mut i: usize = 0;
    while i < order.len()
        invariant
            i <= order@.len(),
            vs == verdicts(order@),
            names@.len() == i,
            places@.len() == i,
            forall|k: int| 0 <= k < i ==> #[trigger] names@[k]@ == quoted(vs[k].id),
            forall|k: int| 0 <= k < i ==> #[trigger] places@[k]@ == place(vs[k]),
            names_w == name_width(vs.take(i as int)),
            places_w == place_width(vs.take(i as int)),
        decreases order@.len() - i,
    {
        assert(vs.take(i + 1).drop_last() =~= vs.take(i as int));
        let name = quoted_exec(&order[i].id);
        let here = byte_len(crate::text::string_of(&name).as_str());
        if here > names_w {
            names_w = here;
        }
        let pl = place_exec(&order[i]);
        let here = byte_len(crate::text::string_of(&pl).as_str());
        if here > places_w {
            places_w = here;
        }
        names.push(name);
        places.push(pl);
        i = i + 1;
    }
    assert(vs.take(vs.len() as int) =~= vs);
    let mut text = String::new();
    if order.len() == 1 {
        text.append("1 node appears in the drawing that you did not declare.");
    } else {
        append_decimal(&mut text, order.len());
        text.append(" nodes appear in the drawing that you did not declare.");
    }
    let ghost head = text@;
    assert(head == headline(vs.len()));
    let mut i: usize = 0;
    while i < order.len()
        invariant
            i <= order@.len(),
            vs == verdicts(order@),
            names@.len() == order@.len(),
            places@.len() == order@.len(),
            forall|k: int| 0 <= k < order@.len() ==> #[trigger] names@[k]@ == quoted(vs[k].id),
            forall|k: int| 0 <= k < order@.len() ==> #[trigger] places@[k]@ == place(vs[k]),
            text@ == head + rows(vs.take(i as int), names_w as nat, places_w as nat),
        decreases order@.len() - i,
    {
        assert(vs.take(i + 1).drop_last() =~= vs.take(i as int));
        let ghost before = text@;
        append_row(&mut text, &names[i], &places[i], names_w, places_w, order[i].cause);
        assert(text@ =~= before + row(vs[i as int], names_w as nat, places_w as nat));
        i = i + 1;
    }
    text.append(
        "\nDeclare every node you name, and rewrite any line the renderer turned into one.",
    );
    text
}

/// Appends one row of the table.
fn append_row(text: &mut String, name: &Vec<char>, place: &Vec<char>, names_w: usize, places_w: usize, cause: Cause)
    ensures
        final(text)@ == old(text)@ + "\n  "@ + pad(name@, names_w as nat) + "  "@ + (if places_w == 0 {
            Seq::empty()
        } else {
            pad(place@, places_w as nat) + "  "@
        }) + "— "@ + cause_text(cause),
{
    text.append("\n  ");
    append_padded(text, name, names_w);
    text.append("  ");
    if places_w != 0 {
        append_padded(text, place, places_w);
        text.append("  ");
    }
    text.append("— ");
    match cause {
        Cause::NotInSource => text.append("not in your source"),
        Cause::OnlyInARelation => text.append("only used in a relation"),
    }
    assert(text@ =~= old(text)@ + "\n  "@ + pad(name@, names_w as nat) + "  "@ + (if places_w == 0 {
            Seq::empty()
        } else {
            pad(place@, places_w as nat) + "  "@
        }) + "— "@ + cause_text(cause));
}

/// `"id"`.
fn quoted_exec(id: &Vec<char>) -> (q: Vec<char>)
    ensures
        q@ == quoted(id@),
{
    let mut q: Vec<char> = Vec::new();
    q.push('"');
    let mut k: usize = 0;
    while k < id.len()
        invariant
            k <= id@.len(),
            q@ == seq!['"'] + id@.take(k as int),
        decreases id@.len() - k,
    {
        q.push(id[k]);
        k = k + 1;
        assert(q@ =~= seq!['"'] + id@.take(k as int));
    }
    q.push('"');
    proof {
        reveal_strlit("\"");
        assert(q@ =~= quoted(id@));
    }
    q
}

/// `line N`, or nothing.
fn place_exec(u: &Undeclared) -> (p: Vec<char>)
    ensures
        p@ == place(u@),
{
    match u.line {
        Some(n) => {
            let mut p = chars_of("line ");
            let digits = crate::text::decimal_exec(n);
            let mut k: usize = 0;
            let ghost start = p@;
            while k < digits.len()
                invariant
                    k <= digits@.len(),
                    p@ == start + digits@.take(k as int),
                decreases digits@.len() - k,
            {
                p.push(digits[k]);
                k = k + 1;
                assert(p@ =~= start + digits@.take(k as int));
            }
            assert(digits@.take(digits@.len() as int) =~= digits@);
            p
        },
        None => Vec::new(),
    }
}

} // verus!
