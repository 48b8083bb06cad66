//! The Viewer's side of the flipchart: the sheets it has and which one the
//! user is looking at. The cursor is the Viewer's own —the user's only
//! control— and the next `show` overrides it; a `clear` leaves the user
//! looking where they were.

use vstd::prelude::*;

use crate::flipchart::{
    deck_of, front_of, law_the_front_is_the_latest_drawing, law_the_shown_view_goes_in_front,
    lemma_position, lemma_position_from, position_of, shown, well_formed, DeckModel, DeckSnapshot,
    FlipchartModel, SheetModel,
};

verus! {

/// A sheet on screen, as the deck knows it: its number and its name. What is
/// painted on it is kept by the window, under the same number.
#[derive(Debug)]
pub struct SheetTag {
    pub number: u64,
    pub id: String,
}

/// The sheets there are and the one being looked at.
#[derive(Debug)]
pub struct Deck {
    pub sheets: Vec<SheetTag>,
    pub cursor: usize,
}

/// The position of the sheet numbered `number` in `numbers`, looking from `i`.
pub open spec fn position_from(numbers: Seq<nat>, number: nat, i: int) -> Option<int>
    decreases numbers.len() - i,
{
    if i < 0 || i >= numbers.len() {
        None
    } else if numbers[i] == number {
        Some(i)
    } else {
        position_from(numbers, number, i + 1)
    }
}

pub open spec fn numbers_of(deck: Deck) -> Seq<nat> {
    deck.sheets@.map_values(|s: SheetTag| s.number as nat)
}

pub open spec fn snapshot_numbers(snapshot: DeckModel) -> Seq<nat> {
    snapshot.sheets.map_values(|s: SheetModel| s.number)
}

/// The number of the sheet being looked at, if the cursor is on one.
pub open spec fn looked_at(deck: Deck) -> Option<nat> {
    if deck.cursor < deck.sheets@.len() {
        Some(deck.sheets@[deck.cursor as int].number as nat)
    } else {
        None
    }
}

/// Where the cursor goes when the deck takes `snapshot`: to the front sheet
/// when the snapshot turns to a sheet the deck did not have (a `show`), else
/// back to the sheet the user was looking at, wherever it now stands; to the
/// front when that sheet is gone.
pub open spec fn cursor_after(deck: Deck, snapshot: DeckModel) -> int {
    let front = match snapshot.front {
        Some(f) => f,
        None => 0,
    };
    let turned = 0 <= front < snapshot.sheets.len() && position_from(
        numbers_of(deck),
        snapshot.sheets[front].number,
        0,
    ) is None;
    match looked_at(deck) {
        Some(number) => if !turned {
            match position_from(snapshot_numbers(snapshot), number, 0) {
                Some(p) => p,
                None => front,
            }
        } else {
            front
        },
        None => front,
    }
}

impl Deck {
    pub fn new() -> (deck: Deck)
        ensures
            deck.sheets@.len() == 0,
            deck.cursor == 0,
    {
        Deck { sheets: Vec::new(), cursor: 0 }
    }

    /// Takes the whole flipchart: the deck becomes its sheets, in its order.
    pub fn accept(&mut self, snapshot: &DeckSnapshot)
        ensures
            final(self).sheets@.len() == snapshot.sheets@.len(),
            forall|i: int|
                0 <= i < snapshot.sheets@.len() ==> #[trigger] final(self).sheets@[i].number
                    == snapshot.sheets@[i].number && final(self).sheets@[i].id@
                    == snapshot.sheets@[i].id@,
            final(self).cursor as int == cursor_after(*old(self), snapshot@),
    {
        let ghost model = snapshot@;
        let front: usize = match snapshot.front {
            Some(f) => f,
            None => 0,
        };
        let turned = front < snapshot.sheets.len() && self.position(snapshot.sheets[front].number).is_none();
        proof {
            if front < snapshot.sheets@.len() {
                assert(model.sheets[front as int].number == snapshot.sheets@[front as int].number);
            }
        }
        let looked = if self.cursor < self.sheets.len() {
            Some(self.sheets[self.cursor].number)
        } else {
            None
        };
        let ghost before = *self;
        let mut sheets: Vec<SheetTag> = Vec::new();
        let mut i: usize = 0;
        while i < snapshot.sheets.len()
            invariant
                i <= snapshot.sheets@.len(),
                sheets@.len() == i,
                forall|k: int|
                    0 <= k < i ==> #[trigger] sheets@[k].number == snapshot.sheets@[k].number
                        && sheets@[k].id@ == snapshot.sheets@[k].id@,
            decreases snapshot.sheets@.len() - i,
        {
            let drawn = &snapshot.sheets[i];
            sheets.push(SheetTag { number: drawn.number, id: drawn.id.clone() });
            i = i + 1;
        }
        self.sheets = sheets;
        assert(snapshot_numbers(model) =~= numbers_of(*self));
        self.cursor = match looked {
            Some(number) => if !turned {
                match self.position(number) {
                    Some(p) => p,
                    None => front,
                }
            } else {
                front
            },
            None => front,
        };
    }

    /// The position of the sheet numbered `number`.
    fn position(&self, number: u64) -> (p: Option<usize>)
        ensures
            match p {
                Some(i) => position_from(numbers_of(*self), number as nat, 0) == Some(i as int),
                None => position_from(numbers_of(*self), number as nat, 0) is None,
            },
    {
        let mut i: usize = 0;
        while i < self.sheets.len()
            invariant
                i <= self.sheets@.len(),
                position_from(numbers_of(*self), number as nat, 0) == position_from(
                    numbers_of(*self),
                    number as nat,
                    i as int,
                ),
            decreases self.sheets@.len() - i,
        {
            if self.sheets[i].number == number {
                return Some(i);
            }
            i = i + 1;
        }
        None
    }

    /// The sheet being looked at, if the cursor is on one.
    pub fn showing(&self) -> (sheet: Option<&SheetTag>)
        ensures
            match sheet {
                Some(s) => self.cursor < self.sheets@.len() && *s == self.sheets@[self.cursor as int],
                None => self.cursor >= self.sheets@.len(),
            },
    {
        if self.cursor < self.sheets.len() {
            Some(&self.sheets[self.cursor])
        } else {
            None
        }
    }

    /// The back arrow: one sheet back, none before the first.
    pub fn back(&mut self)
        ensures
            final(self).sheets@ == old(self).sheets@,
            final(self).cursor as int == back_of(old(self).cursor as int),
    {
        if self.cursor > 0 {
            self.cursor = self.cursor - 1;
        }
    }

    /// The forward arrow: one sheet on, none after the last.
    pub fn forward(&mut self)
        ensures
            final(self).sheets@ == old(self).sheets@,
            final(self).cursor as int == forward_of(old(self).cursor as int, old(self).sheets@.len()),
    {
        let last: usize = if self.sheets.len() == 0 {
            0
        } else {
            self.sheets.len() - 1
        };
        if self.cursor < last {
            self.cursor = self.cursor + 1;
        } else {
            self.cursor = last;
        }
    }
}

/// Where the back arrow leaves the cursor.
pub open spec fn back_of(cursor: int) -> int {
    if cursor <= 0 {
        0
    } else {
        cursor - 1
    }
}

/// Where the forward arrow leaves the cursor, on a deck of `sheets` sheets.
pub open spec fn forward_of(cursor: int, sheets: nat) -> int {
    let last = if sheets == 0 {
        0
    } else {
        sheets - 1
    };
    if cursor + 1 < last {
        cursor + 1
    } else {
        last
    }
}

/// Taking the focus is for the moment the window is born, never for an
/// update: jumping to the front each time the agent retouches a view, while
/// the user types in the terminal, is intolerable.
#[derive(Debug)]
pub struct Focus {
    pub stolen: bool,
}

impl Focus {
    pub fn new() -> (focus: Focus)
        ensures
            !focus.stolen,
    {
        Focus { stolen: false }
    }

    /// Whether to take the focus now: yes the first time, never again.
    pub fn steal(&mut self) -> (now: bool)
        ensures
            now == !old(self).stolen,
            final(self).stolen,
    {
        let now = !self.stolen;
        self.stolen = true;
        now
    }
}

/// The arrows undo each other: back and then forward returns to the sheet
/// the user was on, away from the first one.
pub proof fn law_forward_undoes_back(cursor: int, sheets: nat)
    requires
        0 < cursor < sheets,
    ensures
        forward_of(back_of(cursor), sheets) == cursor,
{
}

/// Neither arrow leaves a deck that has sheets: the cursor stays on one.
pub proof fn law_arrows_stay_on_the_deck(cursor: int, sheets: nat)
    requires
        0 <= cursor < sheets,
    ensures
        0 <= back_of(cursor) < sheets,
        0 <= forward_of(cursor, sheets) < sheets,
{
}

/// A number that is not there is not found.
pub proof fn lemma_position_from_absent(numbers: Seq<nat>, number: nat, i: int)
    requires
        0 <= i,
        forall|k: int| i <= k < numbers.len() ==> numbers[k] != number,
    ensures
        position_from(numbers, number, i) is None,
    decreases numbers.len() - i,
{
    if i < numbers.len() {
        lemma_position_from_absent(numbers, number, i + 1);
    }
}

/// A number that is there is found, no later than where it is.
pub proof fn lemma_position_from_present(numbers: Seq<nat>, number: nat, i: int, k: int)
    requires
        0 <= i <= k < numbers.len(),
        numbers[k] == number,
    ensures
        position_from(numbers, number, i) matches Some(p) && i <= p <= k && numbers[p] == number,
    decreases k - i,
{
    if numbers[i] != number {
        lemma_position_from_present(numbers, number, i + 1, k);
    }
}

/// When the sheet the user was looking at is gone from the new deck, the
/// window falls back to the sheet in front.
pub proof fn law_a_gone_sheet_falls_back_to_the_front(deck: Deck, snapshot: DeckModel)
    requires
        looked_at(deck) is Some,
        forall|k: int|
            0 <= k < snapshot.sheets.len() ==> #[trigger] snapshot.sheets[k].number != looked_at(
                deck,
            )->0,
    ensures
        cursor_after(deck, snapshot) == match snapshot.front {
            Some(f) => f,
            None => 0,
        },
{
    let numbers = snapshot_numbers(snapshot);
    assert forall|k: int| 0 <= k < numbers.len() implies numbers[k] != looked_at(deck)->0 by {
        assert(numbers[k] == snapshot.sheets[k].number);
    }
    lemma_position_from_absent(numbers, looked_at(deck)->0, 0);
}

/// When the sheet the user was looking at is still in the new deck and the
/// sheet in front is one the window already had, the window stays on the
/// sheet the user was looking at.
pub proof fn law_a_surviving_sheet_stays_in_view(deck: Deck, snapshot: DeckModel, k: int)
    requires
        looked_at(deck) is Some,
        0 <= k < snapshot.sheets.len(),
        snapshot.sheets[k].number == looked_at(deck)->0,
        ({
            let f = match snapshot.front {
                Some(f) => f,
                None => 0,
            };
            0 <= f < snapshot.sheets.len() ==> exists|j: int|
                0 <= j < deck.sheets@.len() && #[trigger] deck.sheets@[j].number
                    == snapshot.sheets[f].number
        }),
    ensures
        0 <= cursor_after(deck, snapshot) < snapshot.sheets.len(),
        snapshot.sheets[cursor_after(deck, snapshot)].number == looked_at(deck)->0,
{
    let numbers = snapshot_numbers(snapshot);
    assert(numbers[k] == snapshot.sheets[k].number);
    lemma_position_from_present(numbers, looked_at(deck)->0, 0, k);
    let p = position_from(numbers, looked_at(deck)->0, 0)->0;
    assert(numbers[p] == snapshot.sheets[p].number);
    let front = match snapshot.front {
        Some(f) => f,
        None => 0,
    };
    if 0 <= front < snapshot.sheets.len() {
        let j = choose|j: int|
            0 <= j < deck.sheets@.len() && #[trigger] deck.sheets@[j].number
                == snapshot.sheets[front].number;
        assert(numbers_of(deck)[j] == snapshot.sheets[front].number);
        lemma_position_from_present(numbers_of(deck), snapshot.sheets[front].number, 0, j);
    }
}

/// The next `show` overrides the user's cursor: whatever sheet the window
/// was on, taking the deck handed over after a `show` turns it to the view
/// just shown, whose sheet it never had.
pub proof fn law_a_show_turns_the_window_to_its_view(
    m: FlipchartModel,
    id: Seq<char>,
    diagram: Seq<char>,
    svg: Seq<char>,
    deck: Deck,
)
    requires
        well_formed(m),
        forall|k: int| 0 <= k < deck.sheets@.len() ==> #[trigger] deck.sheets@[k].number <= m.drawn,
    ensures
        position_of(shown(m.views, m.drawn, id, diagram, svg), id) == Some(
            cursor_after(deck, deck_of(shown(m.views, m.drawn, id, diagram, svg))),
        ),
{
    let views = shown(m.views, m.drawn, id, diagram, svg);
    let snapshot = deck_of(views);
    law_the_shown_view_goes_in_front(m, id, diagram, svg);
    lemma_position(m.views, id);
    lemma_position(views, id);
    lemma_position_from(views, id, 0);
    let p = match position_of(m.views, id) {
        Some(i) => i,
        None => m.views.len() as int,
    };
    assert(views[p].id == id && views[p].drawn == m.drawn + 1);
    assert forall|k: int| 0 <= k < p implies views[k].id != id by {
        assert(views[k] == m.views[k]);
    }
    assert(position_of(views, id) == Some(p)) by {
        if position_of(views, id) != Some(p) {
            let q = position_of(views, id)->0;
            assert(q != p);
            if q < p {
                assert(views[q].id != id);
            }
        }
    }
    assert(front_of(views) == Some(p));
    assert(snapshot.sheets[p].number == m.drawn + 1);
    lemma_position_from_absent(numbers_of(deck), m.drawn + 1, 0);
}

/// A `clear` of a view the user was not looking at leaves them looking
/// where they were: the window, which was showing the flipchart as it stood,
/// stays on the same sheet.
pub proof fn law_a_clear_leaves_the_user_where_they_were(m: FlipchartModel, i: int, deck: Deck)
    requires
        well_formed(m),
        0 <= i < m.views.len(),
        numbers_of(deck) == snapshot_numbers(deck_of(m.views)),
        looked_at(deck) is Some,
        looked_at(deck) != Some(m.views[i].drawn),
    ensures
        0 <= cursor_after(deck, deck_of(m.views.remove(i))) < m.views.len() - 1,
        Some(
            deck_of(m.views.remove(i)).sheets[cursor_after(deck, deck_of(m.views.remove(i)))].number,
        ) == looked_at(deck),
{
    let before = snapshot_numbers(deck_of(m.views));
    let views = m.views.remove(i);
    let snapshot = deck_of(views);
    let after = snapshot_numbers(snapshot);
    assert(after =~= before.remove(i));
    let n = looked_at(deck)->0;
    let c = deck.cursor as int;
    assert(numbers_of(deck)[c] == n);
    assert(before[c] == n);
    assert(c != i);
    let c2 = if c < i {
        c
    } else {
        c - 1
    };
    assert(after[c2] == n);
    lemma_position_from_present(after, n, 0, c2);
    match front_of(views) {
        Some(f) => {
            law_the_front_is_the_latest_drawing(views);
            let f0 = if f < i {
                f
            } else {
                f + 1
            };
            assert(snapshot.sheets[f].number == before[f0]);
            lemma_position_from_present(numbers_of(deck), before[f0], 0, f0);
        },
        None => {},
    }
}

} // verus!
