//! The flipchart: the live views, in the order they were created, and which
//! one goes in front. Both are decided here, not by the Viewer, which is
//! handed the whole deck after every change.

use vstd::prelude::*;

use crate::diagram::{joined, noted, recount_of, told, unchanged, Drawing, Rejection};
use crate::text::{append_decimal, chars_of, decimal, string_of, trim, trim_exec};

verus! {

/// The longest view id, in characters.
pub const MAX_VIEW_ID_CHARS: usize = 64;

// ---------------------------------------------------------------------------
// What crosses to the Viewer
// ---------------------------------------------------------------------------

/// A drawn sheet, as it crosses to the Viewer. Whoever draws it numbers it: a
/// `show` on an id that already existed gives a new sheet with the same name.
#[derive(Debug)]
pub struct Drawn {
    pub number: u64,
    pub id: String,
    pub svg: String,
}

/// The whole flipchart every time: the sheets in creation order, and which
/// one goes in front. The Viewer decides neither.
#[derive(Debug)]
pub struct DeckSnapshot {
    pub sheets: Vec<Drawn>,
    pub front: Option<usize>,
}

/// A view as the contracts speak of it.
pub struct ViewModel {
    pub id: Seq<char>,
    pub diagram: Seq<char>,
    pub svg: Seq<char>,
    /// When it was drawn: the highest is the most recent live `show`.
    pub drawn: nat,
}

/// A sheet as the contracts speak of it.
pub struct SheetModel {
    pub number: nat,
    pub id: Seq<char>,
    pub svg: Seq<char>,
}

/// A snapshot as the contracts speak of it.
pub struct DeckModel {
    pub sheets: Seq<SheetModel>,
    pub front: Option<int>,
}

impl View for Drawn {
    type V = SheetModel;

    open spec fn view(&self) -> SheetModel {
        SheetModel { number: self.number as nat, id: self.id@, svg: self.svg@ }
    }
}

impl DeckSnapshot {
    /// Only a deck with sheets brings the window out: a `clear` on its own,
    /// before anything was drawn, does not.
    pub fn opens_the_window(&self) -> (b: bool)
        ensures
            b == (self.sheets@.len() > 0),
    {
        self.sheets.len() > 0
    }
}

impl View for DeckSnapshot {
    type V = DeckModel;

    open spec fn view(&self) -> DeckModel {
        DeckModel {
            sheets: self.sheets@.map_values(|d: Drawn| d@),
            front: match self.front {
                Some(i) => Some(i as int),
                None => None,
            },
        }
    }
}

/// The flipchart as the contracts speak of it.
pub struct FlipchartModel {
    pub views: Seq<ViewModel>,
    /// How many views have been drawn so far.
    pub drawn: nat,
    /// The deck handed over to the Viewer and not yet taken.
    pub handed_over: Option<DeckModel>,
}

// ---------------------------------------------------------------------------
// The rules
// ---------------------------------------------------------------------------

/// The position of the view named `id`, looking from `i` on.
pub open spec fn position_from(views: Seq<ViewModel>, id: Seq<char>, i: int) -> Option<int>
    decreases views.len() - i,
{
    if i < 0 || i >= views.len() {
        None
    } else if views[i].id == id {
        Some(i)
    } else {
        position_from(views, id, i + 1)
    }
}

/// The position of the view named `id`.
pub open spec fn position_of(views: Seq<ViewModel>, id: Seq<char>) -> Option<int> {
    position_from(views, id, 0)
}

/// The diagram of the view named `id`.
pub open spec fn diagram_of(views: Seq<ViewModel>, id: Seq<char>) -> Option<Seq<char>> {
    match position_of(views, id) {
        Some(i) => Some(views[i].diagram),
        None => None,
    }
}

/// What is wrong with the input, if anything: the view id (already trimmed)
/// must be there and be at most 64 characters; the diagram must be there.
pub open spec fn invalid_input(id: Seq<char>, diagram: Seq<char>) -> Option<Seq<char>> {
    if id.len() == 0 {
        Some("view_id must not be empty."@)
    } else if id.len() > MAX_VIEW_ID_CHARS {
        Some("view_id must be at most 64 characters; got "@ + decimal(id.len()) + "."@)
    } else if trim(diagram).len() == 0 {
        Some("diagram must not be empty."@)
    } else {
        None
    }
}

/// The views once `id` is shown with `diagram`: a view with that id is
/// replaced where it stands, otherwise the new one goes last. Either way it
/// is numbered as the most recent drawing.
pub open spec fn shown(views: Seq<ViewModel>, drawn: nat, id: Seq<char>, diagram: Seq<char>, svg: Seq<char>) -> Seq<
    ViewModel,
> {
    let view = ViewModel { id, diagram, svg, drawn: drawn + 1 };
    match position_of(views, id) {
        Some(i) => views.update(i, view),
        None => views.push(view),
    }
}

/// The ids of the views, in order.
pub open spec fn ids(views: Seq<ViewModel>) -> Seq<Seq<char>> {
    views.map_values(|v: ViewModel| v.id)
}

/// `Views on the flipchart: a, b.`, or `No views.`
pub open spec fn views_on_the_flipchart(views: Seq<ViewModel>) -> Seq<char> {
    if views.len() == 0 {
        "No views."@
    } else {
        "Views on the flipchart: "@ + joined(ids(views), ", "@) + "."@
    }
}

/// `Views: a, b.`, or `No views.`
pub open spec fn views_listed(views: Seq<ViewModel>) -> Seq<char> {
    if views.len() == 0 {
        "No views."@
    } else {
        "Views: "@ + joined(ids(views), ", "@) + "."@
    }
}

/// The acknowledgement of a shown view.
pub open spec fn acknowledgement(id: Seq<char>, recount: Seq<char>, views: Seq<ViewModel>) -> Seq<
    char,
> {
    "Shown as view \""@ + id + "\" ("@ + recount + "). "@ + views_on_the_flipchart(views)
}

/// The position of the most recently drawn view among the first `n`; the
/// later one wins a tie.
pub open spec fn latest_among(views: Seq<ViewModel>, n: int) -> int
    decreases n,
{
    if n <= 1 {
        0
    } else {
        let best = latest_among(views, n - 1);
        if views[n - 1].drawn >= views[best].drawn {
            n - 1
        } else {
            best
        }
    }
}

/// The view in front: the one from the most recent live `show`.
pub open spec fn front_of(views: Seq<ViewModel>) -> Option<int> {
    if views.len() == 0 {
        None
    } else {
        Some(latest_among(views, views.len() as int))
    }
}

/// What the Viewer is handed for `views`.
pub open spec fn deck_of(views: Seq<ViewModel>) -> DeckModel {
    DeckModel {
        sheets: views.map_values(|v: ViewModel| SheetModel { number: v.drawn, id: v.id, svg: v.svg }),
        front: front_of(views),
    }
}

/// The invariant: ids are unique and valid, and each view was drawn at a
/// different moment, no later than the count of drawings.
pub open spec fn well_formed(m: FlipchartModel) -> bool {
    &&& forall|i: int, j: int|
        0 <= i < j < m.views.len() ==> #[trigger] m.views[i].id != #[trigger] m.views[j].id
    &&& forall|i: int, j: int|
        0 <= i < j < m.views.len() ==> #[trigger] m.views[i].drawn != #[trigger] m.views[j].drawn
    &&& forall|i: int| 0 <= i < m.views.len() ==> #[trigger] m.views[i].drawn <= m.drawn
    &&& forall|i: int|
        0 <= i < m.views.len() ==> invalid_input(#[trigger] m.views[i].id, m.views[i].diagram) is None
}



/// The answer of a `show`, as text either way.
pub open spec fn answer_text(answer: Result<String, String>) -> Result<Seq<char>, Seq<char>> {
    match answer {
        Ok(text) => Ok(text@),
        Err(text) => Err(text@),
    }
}

/// What asking to show `diagram` as the view `view_id` answers before any
/// drawing: the input is checked first, the view id once trimmed. It must be
/// there and be at most 64 characters, and the diagram must be there. A
/// request that fails the check is rejected with the fixed line and nothing
/// is parsed; otherwise the request carries the trimmed id and the diagram.
pub open spec fn requested(
    view_id: Seq<char>,
    diagram: Seq<char>,
    request: Result<(Seq<char>, Seq<char>), Seq<char>>,
) -> bool {
    match invalid_input(trim(view_id), diagram) {
        Some(problem) => request == Err::<(Seq<char>, Seq<char>), Seq<char>>(
            unchanged(trim(view_id)) + problem,
        ),
        None => request == Ok::<(Seq<char>, Seq<char>), Seq<char>>((trim(view_id), diagram)),
    }
}

/// What a `show` of `diagram` as the view `id` does to the flipchart and
/// answers, given what came of drawing it. Every rejection leaves the
/// flipchart as it was —nothing is handed to the Viewer— and is told with
/// the view's id. Otherwise the view is shown in place or last with the
/// drawing's SVG, put in front, the deck is handed over, and the
/// acknowledgement carries the id, the recount, the live views and the
/// house style's notes.
pub open spec fn show_answered(
    before: FlipchartModel,
    after: FlipchartModel,
    id: Seq<char>,
    diagram: Seq<char>,
    drawn: Result<Drawing, Rejection>,
    answer: Result<Seq<char>, Seq<char>>,
) -> bool {
    match drawn {
        Err(rejection) => answer == Err::<Seq<char>, Seq<char>>(told(rejection, id)) && after
            == before,
        Ok(drawing) => {
            let views = shown(before.views, before.drawn, id, diagram, drawing.svg@);
            &&& after.views == views
            &&& after.drawn == before.drawn + 1
            &&& after.handed_over == Some(deck_of(views))
            &&& answer == Ok::<Seq<char>, Seq<char>>(
                noted(
                    acknowledgement(
                        id,
                        recount_of(drawing.nodes as nat, drawing.edges as nat),
                        views,
                    ),
                    drawing.notes@,
                ),
            )
        },
    }
}

/// What a `clear` of the view `id`, or of every view, does and answers. An id
/// that is not there is no error and touches nothing; the Viewer is handed
/// the deck only when something was removed.
pub open spec fn clear_answered(
    before: FlipchartModel,
    after: FlipchartModel,
    id: Option<Seq<char>>,
    answer: Seq<char>,
) -> bool {
    &&& after.drawn == before.drawn
    &&& match id {
        None => if before.views.len() == 0 {
            &&& answer == "The flipchart was already empty."@
            &&& after == before
        } else {
            &&& answer == "Cleared the flipchart. No views."@
            &&& after.views.len() == 0
            &&& after.handed_over == Some(deck_of(Seq::<ViewModel>::empty()))
        },
        Some(id) => match position_of(before.views, id) {
            None => {
                &&& answer == "No view \""@ + id + "\" on the flipchart. "@ + views_listed(
                    before.views,
                )
                &&& after == before
            },
            Some(i) => {
                let views = before.views.remove(i);
                &&& answer == "Cleared view \""@ + id + "\". "@ + views_on_the_flipchart(views)
                &&& after.views == views
                &&& after.handed_over == Some(deck_of(views))
            },
        },
    }
}

// ---------------------------------------------------------------------------
// The two tools
// ---------------------------------------------------------------------------

/// The arguments of the `show` tool.
#[derive(Debug)]
pub struct ShowParams {
    /// A short human-readable name, shown to the user above the diagram.
    /// Reusing a name replaces that view.
    pub view_id: String,
    /// Mermaid source.
    pub diagram: String,
}

/// The arguments of the `clear` tool.
#[derive(Debug)]
pub struct ClearParams {
    /// The view to remove; none clears the whole flipchart.
    pub view_id: Option<String>,
}

/// What a tool answers: a result, or a result marked as an error — never a
/// transport error.
#[derive(Debug)]
pub enum ToolAnswer {
    Success(String),
    Error(String),
}

/// The answer as text either way.
pub open spec fn tool_text(answer: ToolAnswer) -> Result<Seq<char>, Seq<char>> {
    match answer {
        ToolAnswer::Success(text) => Ok(text@),
        ToolAnswer::Error(text) => Err(text@),
    }
}

// ---------------------------------------------------------------------------
// Facts about the rules
// ---------------------------------------------------------------------------

/// `position_from` finds the first view named `id` from `i` on.
pub proof fn lemma_position_from(views: Seq<ViewModel>, id: Seq<char>, i: int)
    requires
        0 <= i,
    ensures
        match position_from(views, id, i) {
            Some(p) => i <= p < views.len() && views[p].id == id && forall|k: int|
                i <= k < p ==> views[k].id != id,
            None => forall|k: int| i <= k < views.len() ==> views[k].id != id,
        },
    decreases views.len() - i,
{
    if i < views.len() && views[i].id != id {
        lemma_position_from(views, id, i + 1);
    }
}

/// `position_of` finds the view named `id`, if there is one.
pub proof fn lemma_position(views: Seq<ViewModel>, id: Seq<char>)
    ensures
        match position_of(views, id) {
            Some(p) => 0 <= p < views.len() && views[p].id == id,
            None => forall|k: int| 0 <= k < views.len() ==> views[k].id != id,
        },
{
    lemma_position_from(views, id, 0);
}

/// Showing a valid view keeps the flipchart well formed: ids stay unique and
/// valid, and every view keeps a drawing moment of its own.
pub proof fn law_showing_keeps_the_flipchart_well_formed(
    m: FlipchartModel,
    id: Seq<char>,
    diagram: Seq<char>,
    svg: Seq<char>,
    handed_over: Option<DeckModel>,
)
    requires
        well_formed(m),
        invalid_input(id, diagram) is None,
    ensures
        well_formed(
            FlipchartModel {
                views: shown(m.views, m.drawn, id, diagram, svg),
                drawn: m.drawn + 1,
                handed_over,
            },
        ),
{
    lemma_position(m.views, id);
}

/// Removing a view keeps the flipchart well formed.
pub proof fn law_removing_keeps_the_flipchart_well_formed(m: FlipchartModel, i: int, handed_over: Option<DeckModel>)
    requires
        well_formed(m),
        0 <= i < m.views.len(),
    ensures
        well_formed(FlipchartModel { views: m.views.remove(i), drawn: m.drawn, handed_over }),
{
    let views = m.views.remove(i);
    assert forall|a: int, b: int| 0 <= a < b < views.len() implies #[trigger] views[a].id
        != #[trigger] views[b].id && views[a].drawn != views[b].drawn by {
        let a0 = if a < i {
            a
        } else {
            a + 1
        };
        let b0 = if b < i {
            b
        } else {
            b + 1
        };
        assert(views[a] == m.views[a0]);
        assert(views[b] == m.views[b0]);
        assert(m.views[a0].id != m.views[b0].id);
        assert(m.views[a0].drawn != m.views[b0].drawn);
    }
    assert forall|a: int| 0 <= a < views.len() implies #[trigger] views[a].drawn <= m.drawn
        && invalid_input(views[a].id, views[a].diagram) is None by {
        let a0 = if a < i {
            a
        } else {
            a + 1
        };
        assert(views[a] == m.views[a0]);
    }
}

/// The most recently drawn of the first `n` views is at least as recent as
/// each of them.
pub proof fn lemma_latest_among(views: Seq<ViewModel>, n: int)
    requires
        1 <= n <= views.len(),
    ensures
        0 <= latest_among(views, n) < n,
        forall|k: int| 0 <= k < n ==> views[latest_among(views, n)].drawn >= #[trigger] views[k].drawn,
    decreases n,
{
    if n > 1 {
        lemma_latest_among(views, n - 1);
    }
}

/// The view in front is the most recently drawn one.
pub proof fn law_the_front_is_the_latest_drawing(views: Seq<ViewModel>)
    requires
        views.len() > 0,
    ensures
        front_of(views) matches Some(f) && 0 <= f < views.len() && forall|k: int|
            0 <= k < views.len() ==> views[f].drawn >= #[trigger] views[k].drawn,
{
    lemma_latest_among(views, views.len() as int);
}

/// What a `show` wrote, a read gives back: the view named `id` holds the
/// diagram just shown.
pub proof fn law_a_shown_view_reads_back(
    views: Seq<ViewModel>,
    drawn: nat,
    id: Seq<char>,
    diagram: Seq<char>,
    svg: Seq<char>,
)
    ensures
        diagram_of(shown(views, drawn, id, diagram, svg), id) == Some(diagram),
{
    let after = shown(views, drawn, id, diagram, svg);
    lemma_position_from(views, id, 0);
    lemma_position_from(after, id, 0);
    match position_of(views, id) {
        Some(i) => {
            assert(after[i].id == id);
            assert(forall|k: int| 0 <= k < i ==> after[k] == views[k]);
        },
        None => {
            assert(after[views.len() as int].id == id);
            assert(forall|k: int| 0 <= k < views.len() ==> after[k] == views[k]);
        },
    }
}

/// Showing keeps the order of creation: replacing a view does not move it,
/// and a new view goes last.
pub proof fn law_showing_keeps_the_creation_order(
    views: Seq<ViewModel>,
    drawn: nat,
    id: Seq<char>,
    diagram: Seq<char>,
    svg: Seq<char>,
)
    ensures
        ids(shown(views, drawn, id, diagram, svg)) == match position_of(views, id) {
            Some(_) => ids(views),
            None => ids(views).push(id),
        },
{
    lemma_position(views, id);
    let after = shown(views, drawn, id, diagram, svg);
    match position_of(views, id) {
        Some(i) => {
            assert(ids(after) =~= ids(views));
        },
        None => {
            assert(ids(after) =~= ids(views).push(id));
        },
    }
}

/// A `show` leaves its view in front.
pub proof fn law_the_shown_view_goes_in_front(
    m: FlipchartModel,
    id: Seq<char>,
    diagram: Seq<char>,
    svg: Seq<char>,
)
    requires
        well_formed(m),
    ensures
        front_of(shown(m.views, m.drawn, id, diagram, svg)) == position_of(
            shown(m.views, m.drawn, id, diagram, svg),
            id,
        ),
{
    let after = shown(m.views, m.drawn, id, diagram, svg);
    law_a_shown_view_reads_back(m.views, m.drawn, id, diagram, svg);
    lemma_position(m.views, id);
    lemma_position(after, id);
    let p = position_of(after, id)->0;
    assert(after[p].drawn == m.drawn + 1) by {
        lemma_position_from(after, id, 0);
        match position_of(m.views, id) {
            Some(i) => {
                assert(after[i].id == id);
                assert(forall|k: int| 0 <= k < i ==> after[k] == m.views[k]);
            },
            None => {
                assert(forall|k: int| 0 <= k < m.views.len() ==> after[k] == m.views[k]);
            },
        }
    }
    law_the_front_is_the_latest_drawing(after);
    let f = front_of(after)->0;
    assert forall|k: int| 0 <= k < after.len() && k != p implies #[trigger] after[k].drawn <= m.drawn by {
        match position_of(m.views, id) {
            Some(i) => {
                lemma_position_from(after, id, 0);
                assert(after[k] == m.views[k]);
            },
            None => {
                assert(after[k] == m.views[k]);
            },
        }
    }
    if f != p {
        assert(after[f].drawn >= after[p].drawn);
    }
}

/// A cleared view is gone: a read of it gives nothing back.
pub proof fn law_a_cleared_view_is_gone(m: FlipchartModel, id: Seq<char>)
    requires
        well_formed(m),
        position_of(m.views, id) is Some,
    ensures
        diagram_of(m.views.remove(position_of(m.views, id)->0), id) is None,
{
    let i = position_of(m.views, id)->0;
    lemma_position(m.views, id);
    let after = m.views.remove(i);
    assert forall|k: int| 0 <= k < after.len() implies after[k].id != id by {
        let k0 = if k < i {
            k
        } else {
            k + 1
        };
        assert(after[k] == m.views[k0]);
    }
    lemma_position(after, id);
}

/// Clearing one view keeps the others in their order.
pub proof fn law_clearing_keeps_the_order_of_the_rest(views: Seq<ViewModel>, i: int)
    requires
        0 <= i < views.len(),
    ensures
        ids(views.remove(i)) == ids(views).remove(i),
{
    assert(ids(views.remove(i)) =~= ids(views).remove(i));
}

/// A rejected `show` changes nothing on the flipchart.
pub proof fn law_a_rejection_changes_nothing(
    before: FlipchartModel,
    after: FlipchartModel,
    id: Seq<char>,
    diagram: Seq<char>,
    drawn: Result<Drawing, Rejection>,
    text: Seq<char>,
)
    requires
        show_answered(before, after, id, diagram, drawn, Err(text)),
    ensures
        after == before,
        drawn is Err,
{
}

// ---------------------------------------------------------------------------
// The flipchart
// ---------------------------------------------------------------------------

/// A `show` whose input passed the check: the trimmed view id and the
/// diagram. Only `ShowRequest::new` makes one, so a request in hand is
/// always valid input.
pub struct ShowRequest {
    id: String,
    diagram: String,
}

impl ShowRequest {
    #[verifier::type_invariant]
    spec fn valid(self) -> bool {
        invalid_input(self.id@, self.diagram@) is None
    }

    /// Checks the input of a `show`, before any parsing: the answer for an
    /// invalid one, or the request to draw.
    pub fn new(view_id: &str, diagram: &str) -> (request: Result<ShowRequest, String>)
        ensures
            requested(
                view_id@,
                diagram@,
                match request {
                    Ok(r) => Ok(r@),
                    Err(text) => Err(text@),
                },
            ),
    {
        let id = string_of(&trim_exec(&chars_of(view_id)));
        match input_problem(&id, diagram) {
            Some(problem) => Err(Rejection::InvalidInput(problem).told_about(id.as_str())),
            None => Ok(ShowRequest { id, diagram: string_of(&chars_of(diagram)) }),
        }
    }

    /// The `show` tool's arguments, checked: an invalid input is answered
    /// right away as a result marked as an error.
    pub fn asked(params: &ShowParams) -> (request: Result<ShowRequest, ToolAnswer>)
        ensures
            requested(
                params.view_id@,
                params.diagram@,
                match request {
                    Ok(r) => Ok(r@),
                    Err(answer) => match answer {
                        ToolAnswer::Error(text) => Err(text@),
                        ToolAnswer::Success(text) => Ok((text@, text@)),
                    },
                },
            ),
            request matches Err(answer) ==> answer is Error,
    {
        match ShowRequest::new(params.view_id.as_str(), params.diagram.as_str()) {
            Ok(request) => Ok(request),
            Err(text) => Err(ToolAnswer::Error(text)),
        }
    }

    /// The view id, trimmed.
    pub fn id(&self) -> (id: &str)
        ensures
            id@ == self@.0,
    {
        self.id.as_str()
    }

    /// The Mermaid source to draw.
    pub fn diagram(&self) -> (diagram: &str)
        ensures
            diagram@ == self@.1,
    {
        self.diagram.as_str()
    }
}

impl View for ShowRequest {
    type V = (Seq<char>, Seq<char>);

    closed spec fn view(&self) -> (Seq<char>, Seq<char>) {
        (self.id@, self.diagram@)
    }
}

/// What is wrong with the input, if anything.
fn input_problem(id: &String, source: &str) -> (problem: Option<String>)
    ensures
        match problem {
            Some(p) => invalid_input(id@, source@) == Some(p@),
            None => invalid_input(id@, source@) is None,
        },
{
    let id_chars = chars_of(id.as_str());
    if id_chars.len() == 0 {
        return Some(string_of(&chars_of("view_id must not be empty.")));
    }
    if id_chars.len() > MAX_VIEW_ID_CHARS {
        let mut text = string_of(&chars_of("view_id must be at most 64 characters; got "));
        append_decimal(&mut text, id_chars.len());
        text.append(".");
        return Some(text);
    }
    let source_chars = chars_of(source);
    if trim_exec(&source_chars).len() == 0 {
        return Some(string_of(&chars_of("diagram must not be empty.")));
    }
    None
}

/// A live view. `drawn` numbers it at the moment it was drawn.
#[derive(Debug)]
struct LiveView {
    id: String,
    diagram: String,
    svg: String,
    drawn: u64,
}

#[derive(Debug)]
pub struct Flipchart {
    views: Vec<LiveView>,
    drawn: u64,
    handed_over: Option<DeckSnapshot>,
}

impl Flipchart {
    /// The flipchart as the contracts speak of it.
    pub closed spec fn model(&self) -> FlipchartModel {
        FlipchartModel {
            views: self.views@.map_values(
                |v: LiveView| ViewModel { id: v.id@, diagram: v.diagram@, svg: v.svg@, drawn: v.drawn as nat },
            ),
            drawn: self.drawn as nat,
            handed_over: match self.handed_over {
                Some(deck) => Some(deck@),
                None => None,
            },
        }
    }
}

impl Flipchart {
    pub fn new() -> (flipchart: Flipchart)
        ensures
            flipchart.model().views.len() == 0,
            flipchart.model().drawn == 0,
            flipchart.model().handed_over is None,
            well_formed(flipchart.model()),
    {
        let flipchart = Flipchart { views: Vec::new(), drawn: 0, handed_over: None };
        assert(flipchart.model().views =~= Seq::<ViewModel>::empty());
        flipchart
    }

    /// Whether one more drawing can still be numbered.
    pub fn can_draw(&self) -> (b: bool)
        ensures
            b == (self.model().drawn < u64::MAX),
    {
        self.drawn < u64::MAX
    }

    /// Shows the requested view, given what came of drawing its diagram:
    /// a drawing replaces a view of that id where it stands or is added last,
    /// and goes in front; a rejection leaves the flipchart as it was and
    /// tells the agent so.
    pub fn show(&mut self, request: ShowRequest, drawn: Result<Drawing, Rejection>) -> (answer: Result<
        String,
        String,
    >)
        requires
            well_formed(old(self).model()),
            old(self).model().drawn < u64::MAX,
        ensures
            well_formed(final(self).model()),
            show_answered(
                old(self).model(),
                final(self).model(),
                request@.0,
                request@.1,
                drawn,
                answer_text(answer),
            ),
    {
        proof {
            use_type_invariant(&request);
        }
        let id = request.id;
        let source = request.diagram;
        let drawing = match drawn {
            Err(rejection) => {
                return Err(rejection.told_about(id.as_str()));
            },
            Ok(drawing) => drawing,
        };
        let recount = drawing.recount();
        self.drawn = self.drawn + 1;
        let number = self.drawn;
        let ghost before = old(self).model().views;
        match self.position(&id) {
            Some(i) => {
                let view = LiveView {
                    id: id.clone(),
                    diagram: source.clone(),
                    svg: drawing.svg.clone(),
                    drawn: number,
                };
                self.views.set(i, view);
                assert(self.model().views =~= shown(before, old(self).model().drawn, id@, source@, drawing.svg@));
            },
            None => {
                self.views.push(
                    LiveView {
                        id: id.clone(),
                        diagram: source.clone(),
                        svg: drawing.svg.clone(),
                        drawn: number,
                    },
                );
                assert(self.model().views =~= shown(before, old(self).model().drawn, id@, source@, drawing.svg@));
            },
        }
        proof {
            law_showing_keeps_the_flipchart_well_formed(old(self).model(), id@, source@, drawing.svg@, None);
        }
        let mut told = string_of(&chars_of("Shown as view \""));
        told.append(id.as_str());
        told.append("\" (");
        told.append(recount.as_str());
        told.append("). ");
        let views = self.views_on_the_flipchart();
        told.append(views.as_str());
        let acknowledgement = drawing.noted_after(told);
        self.hand_the_deck_over();
        Ok(acknowledgement)
    }

    /// Removes the view `view_id`, or every view, and says what is left. An
    /// id that is not there is no error: the answer lists what there is.
    pub fn clear(&mut self, view_id: Option<&str>) -> (answer: String)
        requires
            well_formed(old(self).model()),
        ensures
            well_formed(final(self).model()),
            clear_answered(
                old(self).model(),
                final(self).model(),
                match view_id {
                    Some(id) => Some(id@),
                    None => None,
                },
                answer@,
            ),
    {
        match view_id {
            None => {
                if self.views.len() == 0 {
                    return string_of(&chars_of("The flipchart was already empty."));
                }
                self.views.clear();
                assert(self.model().views =~= Seq::<ViewModel>::empty());
                self.hand_the_deck_over();
                string_of(&chars_of("Cleared the flipchart. No views."))
            },
            Some(id) => {
                let id = string_of(&chars_of(id));
                match self.position(&id) {
                    None => {
                        let mut text = string_of(&chars_of("No view \""));
                        text.append(id.as_str());
                        text.append("\" on the flipchart. ");
                        let listed = self.views_listed();
                        text.append(listed.as_str());
                        text
                    },
                    Some(i) => {
                        let ghost before = self.model();
                        self.views.remove(i);
                        assert(self.model().views =~= before.views.remove(i as int));
                        proof {
                            law_removing_keeps_the_flipchart_well_formed(before, i as int, None);
                        }
                        self.hand_the_deck_over();
                        let mut text = string_of(&chars_of("Cleared view \""));
                        text.append(id.as_str());
                        text.append("\". ");
                        let left = self.views_on_the_flipchart();
                        text.append(left.as_str());
                        text
                    },
                }
            },
        }
    }

    /// The `show` tool, once the request was drawn: a drawn view is a
    /// success, a rejection comes back as a result marked as an error.
    pub fn answer_show(&mut self, request: ShowRequest, drawn: Result<Drawing, Rejection>) -> (answer:
        ToolAnswer)
        requires
            well_formed(old(self).model()),
            old(self).model().drawn < u64::MAX,
        ensures
            well_formed(final(self).model()),
            show_answered(
                old(self).model(),
                final(self).model(),
                request@.0,
                request@.1,
                drawn,
                tool_text(answer),
            ),
    {
        match self.show(request, drawn) {
            Ok(acknowledgement) => ToolAnswer::Success(acknowledgement),
            Err(rejection) => ToolAnswer::Error(rejection),
        }
    }

    /// The `clear` tool: always a success.
    pub fn answer_clear(&mut self, params: &ClearParams) -> (answer: ToolAnswer)
        requires
            well_formed(old(self).model()),
        ensures
            well_formed(final(self).model()),
            answer matches ToolAnswer::Success(text) && clear_answered(
                old(self).model(),
                final(self).model(),
                match params.view_id {
                    Some(id) => Some(id@),
                    None => None,
                },
                text@,
            ),
    {
        let text = match &params.view_id {
            Some(id) => self.clear(Some(id.as_str())),
            None => self.clear(None),
        };
        ToolAnswer::Success(text)
    }

    /// The diagram of the view `view_id`, if there is one.
    pub fn view(&self, view_id: &str) -> (diagram: Option<&str>)
        ensures
            match diagram {
                Some(d) => diagram_of(self.model().views, view_id@) == Some(d@),
                None => diagram_of(self.model().views, view_id@) is None,
            },
    {
        let id = string_of(&chars_of(view_id));
        match self.position(&id) {
            Some(i) => Some(self.views[i].diagram.as_str()),
            None => None,
        }
    }

    /// The deck the Viewer was last handed, taken from the flipchart.
    pub fn take_handed_over(&mut self) -> (deck: Option<DeckSnapshot>)
        ensures
            final(self).model().views == old(self).model().views,
            final(self).model().drawn == old(self).model().drawn,
            final(self).model().handed_over is None,
            match deck {
                Some(d) => old(self).model().handed_over == Some(d@),
                None => old(self).model().handed_over is None,
            },
    {
        let deck = self.handed_over.take();
        deck
    }

    /// The position of the view named `id`.
    fn position(&self, id: &String) -> (position: Option<usize>)
        ensures
            match position {
                Some(i) => position_of(self.model().views, id@) == Some(i as int) && i < self.views@.len(),
                None => position_of(self.model().views, id@) is None,
            },
    {
        let ghost views = self.model().views;
        let mut i: usize = 0;
        while i < self.views.len()
            invariant
                i <= self.views@.len(),
                views == self.model().views,
                position_of(views, id@) == position_from(views, id@, i as int),
            decreases self.views@.len() - i,
        {
            if self.views[i].id == *id {
                return Some(i);
            }
            i = i + 1;
        }
        None
    }

    /// The order is the order of creation and the front one is the one from
    /// the most recent live `show`.
    fn hand_the_deck_over(&mut self)
        ensures
            final(self).model().views == old(self).model().views,
            final(self).model().drawn == old(self).model().drawn,
            final(self).model().handed_over == Some(deck_of(old(self).model().views)),
    {
        let ghost views = self.model().views;
        let mut sheets: Vec<Drawn> = Vec::new();
        let mut i: usize = 0;
        while i < self.views.len()
            invariant
                i <= self.views@.len(),
                views == self.model().views,
                sheets@.map_values(|d: Drawn| d@) == deck_of(views).sheets.take(i as int),
            decreases self.views@.len() - i,
        {
            let view = &self.views[i];
            let drawn = Drawn { number: view.drawn, id: view.id.clone(), svg: view.svg.clone() };
            assert(drawn@ == deck_of(views).sheets[i as int]);
            let ghost before = sheets@.map_values(|d: Drawn| d@);
            sheets.push(drawn);
            assert(sheets@.map_values(|d: Drawn| d@) =~= before.push(drawn@));
            i = i + 1;
            assert(sheets@.map_values(|d: Drawn| d@) =~= deck_of(views).sheets.take(i as int));
        }
        assert(deck_of(views).sheets.take(views.len() as int) =~= deck_of(views).sheets);
        let front = self.front();
        self.handed_over = Some(DeckSnapshot { sheets, front });
    }

    /// The position of the view from the most recent live `show`.
    fn front(&self) -> (front: Option<usize>)
        ensures
            match front {
                Some(i) => front_of(self.model().views) == Some(i as int),
                None => front_of(self.model().views) is None,
            },
    {
        if self.views.len() == 0 {
            return None;
        }
        let ghost views = self.model().views;
        let mut best: usize = 0;
        let mut n: usize = 1;
        while n < self.views.len()
            invariant
                1 <= n <= self.views@.len(),
                views == self.model().views,
                best as int == latest_among(views, n as int),
                best < n,
            decreases self.views@.len() - n,
        {
            if self.views[n].drawn >= self.views[best].drawn {
                best = n;
            }
            n = n + 1;
        }
        Some(best)
    }

    fn views_on_the_flipchart(&self) -> (text: String)
        ensures
            text@ == views_on_the_flipchart(self.model().views),
    {
        match self.view_ids() {
            Some(ids) => {
                let mut text = string_of(&chars_of("Views on the flipchart: "));
                text.append(ids.as_str());
                text.append(".");
                text
            },
            None => string_of(&chars_of("No views.")),
        }
    }

    fn views_listed(&self) -> (text: String)
        ensures
            text@ == views_listed(self.model().views),
    {
        match self.view_ids() {
            Some(ids) => {
                let mut text = string_of(&chars_of("Views: "));
                text.append(ids.as_str());
                text.append(".");
                text
            },
            None => string_of(&chars_of("No views.")),
        }
    }

    fn view_ids(&self) -> (text: Option<String>)
        ensures
            match text {
                Some(t) => self.model().views.len() > 0 && t@ == joined(ids(self.model().views), ", "@),
                None => self.model().views.len() == 0,
            },
    {
        if self.views.len() == 0 {
            return None;
        }
        let ghost all = ids(self.model().views);
        let mut text = self.views[0].id.clone();
        assert(all.take(1) =~= seq![all[0]]);
        let mut i: usize = 1;
        while i < self.views.len()
            invariant
                1 <= i <= self.views@.len(),
                all == ids(self.model().views),
                text@ == joined(all.take(i as int), ", "@),
            decreases self.views@.len() - i,
        {
            assert(all.take(i + 1).drop_last() =~= all.take(i as int));
            text.append(", ");
            text.append(self.views[i].id.as_str());
            i = i + 1;
        }
        assert(all.take(all.len() as int) =~= all);
        Some(text)
    }
}

} // verus!
