//! The suggestion panel: a box below the edited line that lists the
//! suggestions, wrapped into rows.
//!
//! The panel has a fixed height of at least three rows: a top border, one or
//! more body rows, a bottom border. Columns of the panel count from 1: the left
//! border stands in column 1, a space in column 2, and the first word of a row
//! in column 3. A word takes its characters and one space behind them.

use vstd::prelude::*;
use crate::paint::{
    cursor_after_all, keeps_saved_position, lemma_cursor_after_concat, lemma_cursor_after_one,
    lemma_save_restore_symmetry, paints, Cursor, Paint, PaintOp,
};
use crate::suggest::texts;

verus! {

/// The least height of the panel: two borders and one body row.
pub const MIN_PANEL_HEIGHT: u16 = 3;

/// The column in which the first word of a body row stands.
pub const FIRST_WORD_COLUMN: u16 = 3;

/// The terminal as the panel sees it: its extent, the row of the cursor and
/// the height asked for the panel.
#[derive(Clone, Copy, Debug, PartialEq, Eq, Structural)]
pub struct PanelGeometry {
    pub cols: u16,
    pub rows: u16,
    pub cursor_row: u16,
    pub height: u16,
}

impl PanelGeometry {
    /// The height of the panel: the height asked for, but at least
    /// [`MIN_PANEL_HEIGHT`].
    pub open spec fn spec_panel_height(self) -> u16 {
        if self.height < MIN_PANEL_HEIGHT {
            MIN_PANEL_HEIGHT
        } else {
            self.height
        }
    }

    /// The number of body rows: the height without the two borders.
    pub open spec fn spec_body_rows(self) -> u16 {
        (self.spec_panel_height() - 2) as u16
    }

    /// The panel would reach the last row of the terminal or run off it.
    pub open spec fn spec_needs_scroll(self) -> bool {
        self.cursor_row + self.spec_panel_height() >= self.rows
    }

    /// By how many rows the screen is scrolled up before the panel is drawn.
    pub open spec fn spec_scroll_rows(self) -> u16 {
        if self.spec_needs_scroll() {
            self.spec_panel_height()
        } else {
            0
        }
    }

    /// The row below which the panel is drawn: the row of the cursor, moved up
    /// with the screen where the screen is scrolled, but not above row 0.
    pub open spec fn spec_reference_row(self) -> u16 {
        if self.cursor_row >= self.spec_scroll_rows() {
            (self.cursor_row - self.spec_scroll_rows()) as u16
        } else {
            0
        }
    }

    /// The column that a word and the space behind it may not pass.
    pub open spec fn flow_limit(self) -> int {
        self.cols - 3
    }

    #[verifier::when_used_as_spec(spec_panel_height)]
    pub fn panel_height(self) -> (height: u16)
        ensures
            height == self.spec_panel_height(),
            height >= MIN_PANEL_HEIGHT,
    {
        if self.height < MIN_PANEL_HEIGHT {
            MIN_PANEL_HEIGHT
        } else {
            self.height
        }
    }

    #[verifier::when_used_as_spec(spec_body_rows)]
    pub fn body_rows(self) -> (rows: u16)
        ensures
            rows == self.spec_body_rows(),
            rows >= 1,
    {
        self.panel_height() - 2
    }

    #[verifier::when_used_as_spec(spec_needs_scroll)]
    pub fn needs_scroll(self) -> (needed: bool)
        ensures
            needed == self.spec_needs_scroll(),
    {
        self.rows < self.panel_height() || self.cursor_row >= self.rows - self.panel_height()
    }

    #[verifier::when_used_as_spec(spec_scroll_rows)]
    pub fn scroll_rows(self) -> (rows: u16)
        ensures
            rows == self.spec_scroll_rows(),
    {
        if self.needs_scroll() {
            self.panel_height()
        } else {
            0
        }
    }

    #[verifier::when_used_as_spec(spec_reference_row)]
    pub fn reference_row(self) -> (row: u16)
        ensures
            row == self.spec_reference_row(),
    {
        let scroll = self.scroll_rows();
        if self.cursor_row >= scroll {
            self.cursor_row - scroll
        } else {
            0
        }
    }
}

/// A word in its place in the panel.
#[derive(Clone, Copy, Debug, PartialEq, Eq, Structural)]
pub struct PlacedWord {
    /// Which suggestion it is.
    pub index: usize,
    /// The body row, counted from 0.
    pub row: u16,
    /// The column of its first character, counted from 1.
    pub column: u16,
    /// Whether it is the selected suggestion.
    pub highlighted: bool,
}

/// How far the words have been laid out: the body row being filled, the next
/// free column in it, and how many words have a place.
pub struct Flow {
    pub row: nat,
    pub column: nat,
    pub placed: nat,
}

/// The layout after the first `k` words have been considered.
///
/// A word goes behind the one before it unless it would pass `limit` with the
/// space behind it. Then it opens the next body row, however long it is, and
/// if there is no next body row, it and all words after it are left out.
pub open spec fn flow(words: Seq<Seq<char>>, limit: int, body_rows: nat, k: nat) -> Flow
    decreases k,
{
    if k == 0 {
        Flow { row: 0, column: FIRST_WORD_COLUMN as nat, placed: 0 }
    } else {
        let before = flow(words, limit, body_rows, (k - 1) as nat);
        let width = words[k - 1].len() + 1;
        if before.placed < k - 1 {
            before
        } else if before.column + width <= limit {
            Flow { row: before.row, column: before.column + width, placed: k }
        } else if before.row + 1 < body_rows {
            Flow { row: before.row + 1, column: FIRST_WORD_COLUMN as nat + width, placed: k }
        } else {
            before
        }
    }
}

/// How many of the words have a place in the panel. They are the first so
/// many: what is left out is left out at the end.
pub open spec fn placed_count(words: Seq<Seq<char>>, limit: int, body_rows: nat) -> nat {
    flow(words, limit, body_rows, words.len()).placed
}

/// The place of word `i`, provided that it has one.
pub open spec fn placement(
    words: Seq<Seq<char>>,
    limit: int,
    body_rows: nat,
    selected: Option<usize>,
    i: int,
) -> PlacedWord {
    let after = flow(words, limit, body_rows, (i + 1) as nat);
    PlacedWord {
        index: i as usize,
        row: after.row as u16,
        column: (after.column - words[i].len() - 1) as u16,
        highlighted: selected == Some(i as usize),
    }
}

/// The first `count` words in their places.
pub open spec fn placements(
    words: Seq<Seq<char>>,
    limit: int,
    body_rows: nat,
    selected: Option<usize>,
    count: nat,
) -> Seq<PlacedWord> {
    Seq::new(count, |i: int| placement(words, limit, body_rows, selected, i))
}

/// The test "stands in body row `row`".
pub open spec fn in_row(row: int) -> spec_fn(PlacedWord) -> bool {
    |word: PlacedWord| word.row == row
}

/// The body rows of the panel: row `r` holds the placed words that stand in
/// it, from left to right.
pub open spec fn body_of(
    words: Seq<Seq<char>>,
    limit: int,
    body_rows: nat,
    selected: Option<usize>,
) -> Seq<Seq<PlacedWord>> {
    Seq::new(
        body_rows,
        |r: int|
            placements(
                words,
                limit,
                body_rows,
                selected,
                placed_count(words, limit, body_rows),
            ).filter(in_row(r)),
    )
}

/// Where the panel goes and what stands in it.
#[derive(Debug, PartialEq, Eq)]
pub struct PanelLayout {
    /// By how many rows the screen is scrolled up first.
    pub scroll_rows: u16,
    /// The row of the edited line once the screen has been scrolled.
    pub reference_row: u16,
    /// The width of the panel, which is that of the terminal.
    pub cols: u16,
    /// The body rows, each with its words from left to right.
    pub body: Vec<Vec<PlacedWord>>,
}

/// What a [`PanelLayout`] holds.
pub struct LayoutView {
    pub scroll_rows: u16,
    pub reference_row: u16,
    pub cols: u16,
    pub body: Seq<Seq<PlacedWord>>,
}

/// The rows of `body`, each as a sequence.
pub open spec fn body_view(body: Seq<Vec<PlacedWord>>) -> Seq<Seq<PlacedWord>> {
    Seq::new(body.len(), |r: int| body[r]@)
}

impl View for PanelLayout {
    type V = LayoutView;

    open spec fn view(&self) -> LayoutView {
        LayoutView {
            scroll_rows: self.scroll_rows,
            reference_row: self.reference_row,
            cols: self.cols,
            body: body_view(self.body@),
        }
    }
}

/// The layout of the panel for `words` on a terminal of this geometry.
pub open spec fn layout_of(
    geometry: PanelGeometry,
    words: Seq<Seq<char>>,
    selected: Option<usize>,
) -> LayoutView {
    LayoutView {
        scroll_rows: geometry.spec_scroll_rows(),
        reference_row: geometry.spec_reference_row(),
        cols: geometry.cols,
        body: body_of(words, geometry.flow_limit(), geometry.spec_body_rows() as nat, selected),
    }
}

/// While words still get a place, the flow stays inside the body, and no
/// placed word stands in a later row than the row being filled.
pub proof fn lemma_flow_bounds(words: Seq<Seq<char>>, limit: int, body_rows: nat, k: nat)
    requires
        body_rows >= 1,
        k <= words.len(),
    ensures
        flow(words, limit, body_rows, k).placed <= k,
        flow(words, limit, body_rows, k).row < body_rows,
        flow(words, limit, body_rows, k).column >= FIRST_WORD_COLUMN,
        forall|j: nat|
            j <= k ==> (#[trigger] flow(words, limit, body_rows, j)).row <= flow(
                words,
                limit,
                body_rows,
                k,
            ).row,
    decreases k,
{
    if k > 0 {
        lemma_flow_bounds(words, limit, body_rows, (k - 1) as nat);
    }
}

/// Once a word has been left out, all later words are left out too.
pub proof fn lemma_flow_stops(words: Seq<Seq<char>>, limit: int, body_rows: nat, k: nat, m: nat)
    requires
        flow(words, limit, body_rows, k).placed < k,
        k <= m,
    ensures
        flow(words, limit, body_rows, m) == flow(words, limit, body_rows, k),
    decreases m,
{
    if m > k {
        lemma_flow_stops(words, limit, body_rows, k, (m - 1) as nat);
    }
}

/// A placed word stands in a body row of the panel, at or behind the first
/// word column. Unless it opens its row, it ends, with the space behind it, at
/// or in front of the limit.
pub proof fn lemma_placement_in_panel(
    words: Seq<Seq<char>>,
    limit: int,
    body_rows: nat,
    selected: Option<usize>,
    i: int,
)
    requires
        1 <= body_rows <= u16::MAX,
        limit <= u16::MAX,
        0 <= i < placed_count(words, limit, body_rows),
        words.len() <= usize::MAX,
    ensures
        placement(words, limit, body_rows, selected, i).index == i,
        placement(words, limit, body_rows, selected, i).row < body_rows,
        placement(words, limit, body_rows, selected, i).column >= FIRST_WORD_COLUMN,
        placement(words, limit, body_rows, selected, i).column == FIRST_WORD_COLUMN
            || placement(words, limit, body_rows, selected, i).column + words[i].len() + 1
            <= limit,
{
    lemma_flow_bounds(words, limit, body_rows, words.len());
    lemma_flow_bounds(words, limit, body_rows, i as nat);
    lemma_flow_bounds(words, limit, body_rows, (i + 1) as nat);
    if flow(words, limit, body_rows, (i + 1) as nat).placed < i + 1 {
        lemma_flow_stops(words, limit, body_rows, (i + 1) as nat, words.len());
    }
    if flow(words, limit, body_rows, i as nat).placed < i {
        lemma_flow_stops(words, limit, body_rows, i as nat, words.len());
    }
}

/// Every word up to the last placed one has a place.
proof fn lemma_all_placed(words: Seq<Seq<char>>, limit: int, body_rows: nat, k: nat)
    requires
        body_rows >= 1,
        k <= placed_count(words, limit, body_rows),
        k <= words.len(),
    ensures
        flow(words, limit, body_rows, k).placed == k,
{
    lemma_flow_bounds(words, limit, body_rows, k);
    if flow(words, limit, body_rows, k).placed < k {
        lemma_flow_stops(words, limit, body_rows, k, words.len());
    }
}

/// Placed words keep the order of the list: of two placed words the later one
/// stands in a later row, or in the same row behind the earlier word and the
/// space that follows it.
pub proof fn lemma_placed_words_in_order(
    words: Seq<Seq<char>>,
    limit: int,
    body_rows: nat,
    selected: Option<usize>,
    i: int,
    j: int,
)
    requires
        1 <= body_rows <= u16::MAX,
        limit <= u16::MAX,
        0 <= i < j < placed_count(words, limit, body_rows),
    ensures
        placement(words, limit, body_rows, selected, i).row <= placement(
            words,
            limit,
            body_rows,
            selected,
            j,
        ).row,
        placement(words, limit, body_rows, selected, i).row == placement(
            words,
            limit,
            body_rows,
            selected,
            j,
        ).row ==> placement(words, limit, body_rows, selected, i).column + words[i].len() + 1
            <= placement(words, limit, body_rows, selected, j).column,
    decreases j - i,
{
    lemma_flow_bounds(words, limit, body_rows, words.len());
    lemma_all_placed(words, limit, body_rows, i as nat);
    lemma_all_placed(words, limit, body_rows, (i + 1) as nat);
    lemma_all_placed(words, limit, body_rows, j as nat);
    lemma_all_placed(words, limit, body_rows, (j + 1) as nat);
    lemma_flow_bounds(words, limit, body_rows, (i + 1) as nat);
    lemma_flow_bounds(words, limit, body_rows, j as nat);
    lemma_flow_bounds(words, limit, body_rows, (j + 1) as nat);
    if j > i + 1 {
        lemma_placed_words_in_order(words, limit, body_rows, selected, i, j - 1);
        lemma_all_placed(words, limit, body_rows, (j - 1) as nat);
    }
}

/// A sequence none of whose words stands in row `row` has no word for it.
proof fn lemma_no_word_in_row(placed: Seq<PlacedWord>, row: int)
    requires
        forall|j: int| 0 <= j < placed.len() ==> (#[trigger] placed[j]).row != row,
    ensures
        placed.filter(in_row(row)) == Seq::<PlacedWord>::empty(),
    decreases placed.len(),
{
    reveal(Seq::filter);
    if placed.len() > 0 {
        assert(placed.last() == placed[placed.len() - 1]);
        assert forall|j: int| 0 <= j < placed.drop_last().len() implies (
        #[trigger] placed.drop_last()[j]).row != row by {
            assert(placed.drop_last()[j] == placed[j]);
        }
        lemma_no_word_in_row(placed.drop_last(), row);
    }
}

/// Lays the words out in the panel: each word behind the one before it, a new
/// body row where a word would pass the limit, and no place for the words that
/// would need a row more than the panel has. The panel keeps its height:
/// body rows that get no word stay empty.
pub fn layout_panel(geometry: PanelGeometry, words: &Vec<String>, selected: Option<usize>) -> (layout:
    PanelLayout)
    ensures
        layout@ == layout_of(geometry, texts(words@), selected),
        layout.body.len() == geometry.spec_body_rows(),
{
    let body_rows: u16 = geometry.body_rows();
    let limit: i128 = geometry.cols as i128 - 3;
    let ghost w = texts(words@);
    let ghost lim = geometry.flow_limit();
    let ghost br = body_rows as nat;
    let mut body: Vec<Vec<PlacedWord>> = Vec::new();
    let mut current: Vec<PlacedWord> = Vec::new();
    let mut row: u16 = 0;
    let mut column: i128 = 3;
    let mut i: usize = 0;
    proof {
        lemma_no_word_in_row(placements(w, lim, br, selected, 0), 0);
    }
    while i < words.len()
        invariant
            i <= words.len(),
            w == texts(words@),
            lim == limit,
            lim == geometry.cols - 3,
            br == body_rows,
            br >= 1,
            row < body_rows,
            body.len() == row,
            flow(w, lim, br, i as nat) == (Flow {
                row: row as nat,
                column: column as nat,
                placed: i as nat,
            }),
            3 <= column <= usize::MAX + 4,
            forall|r: int|
                0 <= r < row ==> (#[trigger] body[r])@ == placements(
                    w,
                    lim,
                    br,
                    selected,
                    i as nat,
                ).filter(in_row(r)),
            current@ == placements(w, lim, br, selected, i as nat).filter(in_row(row as int)),
            forall|j: int|
                0 <= j < i ==> (#[trigger] placements(w, lim, br, selected, i as nat)[j]).row
                    <= row,
        ensures
            i <= words.len(),
            placed_count(w, lim, br) == i,
            row < body_rows,
            body.len() == row,
            forall|r: int|
                0 <= r < row ==> (#[trigger] body[r])@ == placements(
                    w,
                    lim,
                    br,
                    selected,
                    i as nat,
                ).filter(in_row(r)),
            current@ == placements(w, lim, br, selected, i as nat).filter(in_row(row as int)),
            forall|j: int|
                0 <= j < i ==> (#[trigger] placements(w, lim, br, selected, i as nat)[j]).row
                    <= row,
        decreases words.len() - i,
    {
        let length = words[i].as_str().unicode_len();
        let width: i128 = length as i128 + 1;
        let highlighted = match selected {
            Some(s) => s == i,
            None => false,
        };
        let ghost before = placements(w, lim, br, selected, i as nat);
        let ghost after = placements(w, lim, br, selected, (i + 1) as nat);
        let ghost place = placement(w, lim, br, selected, i as int);
        assert(w[i as int].len() == length);
        assert(after =~= before.push(place));
        proof {
            assert forall|r: int| after.filter(in_row(r)) == if place.row == r {
                before.filter(in_row(r)).push(place)
            } else {
                before.filter(in_row(r))
            } by {
                before.lemma_filter_push(place, in_row(r));
            }
        }
        if column + width <= limit {
            current.push(PlacedWord { index: i, row, column: column as u16, highlighted });
            column = column + width;
        } else if row + 1 < body_rows {
            proof {
                assert forall|j: int| 0 <= j < before.len() implies (#[trigger] before[j]).row
                    != row + 1 by {}
                lemma_no_word_in_row(before, row + 1);
            }
            body.push(current);
            current = Vec::new();
            row = row + 1;
            current.push(PlacedWord { index: i, row, column: 3, highlighted });
            column = 3 + width;
        } else {
            proof {
                lemma_flow_stops(w, lim, br, (i + 1) as nat, w.len());
            }
            break ;
        }
        i += 1;
    }
    let ghost placed = placements(w, lim, br, selected, i as nat);
    body.push(current);
    while body.len() < body_rows as usize
        invariant
            row < body.len() <= body_rows,
            forall|r: int| 0 <= r < body.len() ==> (#[trigger] body[r])@ == placed.filter(in_row(r)),
            forall|j: int| 0 <= j < placed.len() ==> (#[trigger] placed[j]).row <= row,
        decreases body_rows - body.len(),
    {
        proof {
            lemma_no_word_in_row(placed, body.len() as int);
        }
        body.push(Vec::new());
    }
    let layout = PanelLayout {
        scroll_rows: geometry.scroll_rows(),
        reference_row: geometry.reference_row(),
        cols: geometry.cols,
        body,
    };
    assert(layout@.body =~= body_of(w, lim, br, selected));
    layout
}

/// The glyph of which the horizontal borders are made.
pub const RULE: char = '\u{2500}';

/// The glyph of which the vertical borders are made.
pub const BAR: char = '\u{2502}';

/// The four corners of the panel.
pub const TOP_LEFT: char = '\u{256D}';

pub const TOP_RIGHT: char = '\u{256E}';

pub const BOTTOM_LEFT: char = '\u{2570}';

pub const BOTTOM_RIGHT: char = '\u{256F}';

/// The number of rule glyphs between the two corners of a border: the width
/// of the terminal without the corners.
pub open spec fn rule_len(cols: u16) -> nat {
    if cols >= 2 {
        (cols - 2) as nat
    } else {
        0
    }
}

/// A horizontal border: a corner, the rule, a corner.
pub open spec fn border(left: char, cols: u16, right: char) -> Seq<char> {
    seq![left] + Seq::new(rule_len(cols), |i: int| RULE) + seq![right]
}

/// The column, counted from 0, at which the right border of a body row
/// begins: a space in the last column but one, the bar in the last.
pub open spec fn closing_column(cols: u16) -> u16 {
    if cols >= 2 {
        (cols - 2) as u16
    } else {
        0
    }
}

/// What writes one word: the word and a space, the word black on white if it
/// is the selected one.
pub open spec fn word_paints(word: Seq<char>, highlighted: bool) -> Seq<Paint> {
    if highlighted {
        seq![
            Paint::InvertColors,
            Paint::Write(word),
            Paint::ResetColors,
            Paint::Write(seq![' ']),
        ]
    } else {
        seq![Paint::Write(word.push(' '))]
    }
}

/// What writes the words of one body row, from left to right. A place whose
/// index names no word writes nothing.
pub open spec fn row_words_paints(row: Seq<PlacedWord>, words: Seq<Seq<char>>) -> Seq<Paint>
    decreases row.len(),
{
    if row.len() == 0 {
        Seq::empty()
    } else {
        let last = row.last();
        row_words_paints(row.drop_last(), words) + if last.index < words.len() {
            word_paints(words[last.index as int], last.highlighted)
        } else {
            Seq::empty()
        }
    }
}

/// What draws one body row: down one row, the left border and a space, the
/// words, then at the right edge a space and the right border.
pub open spec fn row_paints(row: Seq<PlacedWord>, words: Seq<Seq<char>>, cols: u16) -> Seq<Paint> {
    seq![Paint::MoveToNextLine(1), Paint::Write(seq![BAR, ' '])] + row_words_paints(row, words)
        + seq![Paint::MoveToColumn(closing_column(cols)), Paint::Write(seq![' ', BAR])]
}

/// What draws the body rows, from top to bottom.
pub open spec fn body_paints(body: Seq<Seq<PlacedWord>>, words: Seq<Seq<char>>, cols: u16) -> Seq<
    Paint,
>
    decreases body.len(),
{
    if body.len() == 0 {
        Seq::empty()
    } else {
        body_paints(body.drop_last(), words, cols) + row_paints(body.last(), words, cols)
    }
}

/// What makes room for the panel: the screen goes up and the cursor with it.
pub open spec fn scroll_paints(scroll_rows: u16) -> Seq<Paint> {
    if scroll_rows > 0 {
        seq![Paint::ScrollUp(scroll_rows), Paint::MoveUp(scroll_rows)]
    } else {
        Seq::empty()
    }
}

/// What draws the panel below the cursor and puts the cursor back: remember
/// the cursor, blank everything below its row, draw the top border, the body
/// rows and the bottom border, restore the cursor.
pub open spec fn frame_paints(cols: u16, body: Seq<Seq<PlacedWord>>, words: Seq<Seq<char>>) -> Seq<
    Paint,
> {
    seq![
        Paint::SavePosition,
        Paint::MoveToNextLine(1),
        Paint::ClearFromCursorDown,
        Paint::Write(border(TOP_LEFT, cols, TOP_RIGHT)),
    ] + body_paints(body, words, cols) + seq![
        Paint::MoveToNextLine(1),
        Paint::Write(border(BOTTOM_LEFT, cols, BOTTOM_RIGHT)),
        Paint::RestorePosition,
    ]
}

/// What draws a laid-out panel: first the scrolling, if any, then the frame.
pub open spec fn layout_paints(layout: LayoutView, words: Seq<Seq<char>>) -> Seq<Paint> {
    scroll_paints(layout.scroll_rows) + frame_paints(layout.cols, layout.body, words)
}

/// What draws the panel for `words` on a terminal of this geometry.
pub open spec fn panel_paints(
    geometry: PanelGeometry,
    words: Seq<Seq<char>>,
    selected: Option<usize>,
) -> Seq<Paint> {
    layout_paints(layout_of(geometry, words, selected), words)
}

/// What blanks the panel: everything below the row of the cursor, if there
/// is a row below it, with the cursor back in its place afterwards.
pub open spec fn clear_paints(geometry: PanelGeometry) -> Seq<Paint> {
    if geometry.cursor_row + 1 < geometry.rows {
        seq![
            Paint::SavePosition,
            Paint::MoveToNextLine(1),
            Paint::ClearFromCursorDown,
            Paint::RestorePosition,
        ]
    } else {
        Seq::empty()
    }
}

/// Writing the words of a row remembers no cursor position.
proof fn lemma_row_words_keep_saved(row: Seq<PlacedWord>, words: Seq<Seq<char>>)
    ensures
        keeps_saved_position(row_words_paints(row, words)),
    decreases row.len(),
{
    if row.len() > 0 {
        lemma_row_words_keep_saved(row.drop_last(), words);
    }
}

/// Drawing the body rows remembers no cursor position.
proof fn lemma_body_keeps_saved(body: Seq<Seq<PlacedWord>>, words: Seq<Seq<char>>, cols: u16)
    ensures
        keeps_saved_position(body_paints(body, words, cols)),
    decreases body.len(),
{
    if body.len() > 0 {
        lemma_body_keeps_saved(body.drop_last(), words, cols);
        lemma_row_words_keep_saved(body.last(), words);
    }
}

/// Where the panel would not fit below the cursor, drawing it begins with the
/// request to scroll, before anything is written. And drawing it leaves the
/// cursor where the edited line is: in the column in which it was, and in the
/// row in which it was, moved up with the screen where the screen was
/// scrolled.
pub proof fn lemma_panel_restores_cursor(
    geometry: PanelGeometry,
    words: Seq<Seq<char>>,
    selected: Option<usize>,
    cursor: Cursor,
)
    requires
        cursor.row == geometry.cursor_row,
    ensures
        geometry.spec_needs_scroll() ==> panel_paints(geometry, words, selected)[0]
            == Paint::ScrollUp(geometry.spec_panel_height()),
        !geometry.spec_needs_scroll() ==> panel_paints(geometry, words, selected)[0]
            == Paint::SavePosition,
        cursor_after_all(
            cursor,
            panel_paints(geometry, words, selected),
            geometry.rows as nat,
        ).column == cursor.column,
        cursor_after_all(cursor, panel_paints(geometry, words, selected), geometry.rows as nat).row
            == geometry.spec_reference_row(),
        geometry.cursor_row >= geometry.spec_scroll_rows() ==> cursor_after_all(
            cursor,
            panel_paints(geometry, words, selected),
            geometry.rows as nat,
        ).row + geometry.spec_scroll_rows() == cursor.row,
{
    let rows = geometry.rows as nat;
    let layout = layout_of(geometry, words, selected);
    let scroll = scroll_paints(layout.scroll_rows);
    let frame = frame_paints(layout.cols, layout.body, words);
    let between = seq![
        Paint::MoveToNextLine(1),
        Paint::ClearFromCursorDown,
        Paint::Write(border(TOP_LEFT, layout.cols, TOP_RIGHT)),
    ] + body_paints(layout.body, words, layout.cols) + seq![
        Paint::MoveToNextLine(1),
        Paint::Write(border(BOTTOM_LEFT, layout.cols, BOTTOM_RIGHT)),
    ];
    assert(frame =~= seq![Paint::SavePosition] + between + seq![Paint::RestorePosition]);
    lemma_body_keeps_saved(layout.body, words, layout.cols);
    assert(keeps_saved_position(between));
    let scrolled = cursor_after_all(cursor, scroll, rows);
    if layout.scroll_rows > 0 {
        let up = seq![Paint::MoveUp(layout.scroll_rows)];
        assert(scroll =~= seq![Paint::ScrollUp(layout.scroll_rows)] + up);
        lemma_cursor_after_concat(cursor, seq![Paint::ScrollUp(layout.scroll_rows)], up, rows);
        lemma_cursor_after_one(cursor, Paint::ScrollUp(layout.scroll_rows), rows);
        lemma_cursor_after_one(cursor, Paint::MoveUp(layout.scroll_rows), rows);
    }
    assert(scrolled.column == cursor.column && scrolled.row == geometry.spec_reference_row());
    lemma_cursor_after_concat(cursor, scroll, frame, rows);
    lemma_save_restore_symmetry(scrolled, between, rows);
}

/// Drawing the panel again from where the first drawing left the cursor
/// scrolls no further and draws the same frame: the first drawing is the
/// scrolling, if any, followed by exactly what the second drawing is. This
/// holds on a terminal that is taller than the panel, with the cursor in one
/// of its rows.
pub proof fn lemma_second_drawing_is_the_same(
    geometry: PanelGeometry,
    words: Seq<Seq<char>>,
    selected: Option<usize>,
)
    requires
        geometry.cursor_row < geometry.rows,
        geometry.spec_panel_height() < geometry.rows,
    ensures
        ({
            let again = PanelGeometry { cursor_row: geometry.spec_reference_row(), ..geometry };
            &&& again.spec_scroll_rows() == 0
            &&& again.spec_reference_row() == geometry.spec_reference_row()
            &&& panel_paints(geometry, words, selected) == scroll_paints(
                geometry.spec_scroll_rows(),
            ) + panel_paints(again, words, selected)
            &&& !geometry.spec_needs_scroll() ==> panel_paints(again, words, selected)
                == panel_paints(geometry, words, selected)
        }),
{
    let again = PanelGeometry { cursor_row: geometry.spec_reference_row(), ..geometry };
    assert(layout_of(again, words, selected).body == layout_of(geometry, words, selected).body);
    assert(scroll_paints(0) + panel_paints(again, words, selected) =~= panel_paints(
        again,
        words,
        selected,
    ));
    assert(panel_paints(again, words, selected) =~= frame_paints(
        geometry.cols,
        layout_of(geometry, words, selected).body,
        words,
    ));
}

/// Two lists of instructions, one after the other, say what the first says
/// and then what the second says.
pub proof fn lemma_paints_concat(first: Seq<PaintOp>, second: Seq<PaintOp>)
    ensures
        paints(first + second) == paints(first) + paints(second),
{
    assert(paints(first + second) =~= paints(first) + paints(second));
}

/// Appends `more` to `ops`.
pub fn extend_ops(ops: &mut Vec<PaintOp>, more: Vec<PaintOp>)
    ensures
        paints(final(ops)@) == paints(old(ops)@) + paints(more@),
{
    let mut more = more;
    proof {
        lemma_paints_concat(ops@, more@);
    }
    ops.append(&mut more);
}

/// A horizontal border for a terminal of `cols` columns.
pub fn border_text(left: char, cols: u16, right: char) -> (text: String)
    ensures
        text@ == border(left, cols, right),
{
    let mut text = String::new();
    text.push(left);
    let rule: u16 = if cols >= 2 {
        cols - 2
    } else {
        0
    };
    let mut i: u16 = 0;
    while i < rule
        invariant
            i <= rule,
            rule == rule_len(cols),
            text@ == seq![left] + Seq::new(i as nat, |k: int| RULE),
        decreases rule - i,
    {
        text.push(RULE);
        i += 1;
        assert(text@ =~= seq![left] + Seq::new(i as nat, |k: int| RULE));
    }
    text.push(right);
    text
}

/// The instructions that write one word.
pub fn word_ops(word: &String, highlighted: bool) -> (ops: Vec<PaintOp>)
    ensures
        paints(ops@) == word_paints(word@, highlighted),
{
    let mut ops: Vec<PaintOp> = Vec::new();
    if highlighted {
        let mut space = String::new();
        space.push(' ');
        ops.push(PaintOp::InvertColors);
        ops.push(PaintOp::Write(word.clone()));
        ops.push(PaintOp::ResetColors);
        ops.push(PaintOp::Write(space));
        assert(space@ =~= seq![' ']);
    } else {
        let mut text = word.clone();
        text.push(' ');
        ops.push(PaintOp::Write(text));
    }
    assert(paints(ops@) =~= word_paints(word@, highlighted));
    ops
}

/// The instructions that draw one body row.
pub fn row_ops(row: &Vec<PlacedWord>, words: &Vec<String>, cols: u16) -> (ops: Vec<PaintOp>)
    ensures
        paints(ops@) == row_paints(row@, texts(words@), cols),
{
    let mut opening = String::new();
    opening.push(BAR);
    opening.push(' ');
    assert(opening@ =~= seq![BAR, ' ']);
    let mut ops: Vec<PaintOp> = Vec::new();
    ops.push(PaintOp::MoveToNextLine(1));
    ops.push(PaintOp::Write(opening));
    let ghost head = seq![Paint::MoveToNextLine(1), Paint::Write(seq![BAR, ' '])];
    assert(paints(ops@) =~= head);
    assert(row@.take(0) =~= Seq::empty());
    let mut i: usize = 0;
    while i < row.len()
        invariant
            i <= row.len(),
            paints(ops@) == head + row_words_paints(row@.take(i as int), texts(words@)),
        decreases row.len() - i,
    {
        let place = row[i];
        assert(row@.take(i + 1).drop_last() =~= row@.take(i as int));
        assert(row@.take(i + 1).last() == place);
        if place.index < words.len() {
            let more = word_ops(&words[place.index], place.highlighted);
            assert(texts(words@)[place.index as int] == words[place.index as int]@);
            extend_ops(&mut ops, more);
        }
        i += 1;
    }
    assert(row@.take(row.len() as int) =~= row@);
    let column: u16 = if cols >= 2 {
        cols - 2
    } else {
        0
    };
    let mut closing = String::new();
    closing.push(' ');
    closing.push(BAR);
    assert(closing@ =~= seq![' ', BAR]);
    let ghost before = paints(ops@);
    ops.push(PaintOp::MoveToColumn(column));
    ops.push(PaintOp::Write(closing));
    assert(paints(ops@) =~= before + seq![
        Paint::MoveToColumn(closing_column(cols)),
        Paint::Write(seq![' ', BAR]),
    ]);
    ops
}

/// The instructions that draw the body rows.
pub fn body_ops(body: &Vec<Vec<PlacedWord>>, words: &Vec<String>, cols: u16) -> (ops: Vec<PaintOp>)
    ensures
        paints(ops@) == body_paints(body_view(body@), texts(words@), cols),
{
    let mut ops: Vec<PaintOp> = Vec::new();
    assert(paints(ops@) =~= Seq::empty());
    assert(body_view(body@).take(0) =~= Seq::empty());
    let mut r: usize = 0;
    while r < body.len()
        invariant
            r <= body.len(),
            paints(ops@) == body_paints(body_view(body@).take(r as int), texts(words@), cols),
        decreases body.len() - r,
    {
        assert(body_view(body@).take(r + 1).drop_last() =~= body_view(body@).take(r as int));
        assert(body_view(body@).take(r + 1).last() == body[r as int]@);
        let more = row_ops(&body[r], words, cols);
        extend_ops(&mut ops, more);
        r += 1;
    }
    assert(body_view(body@).take(body.len() as int) =~= body_view(body@));
    ops
}

/// The instructions that draw a laid-out panel whose words are `words`.
pub fn layout_ops(layout: &PanelLayout, words: &Vec<String>) -> (ops: Vec<PaintOp>)
    ensures
        paints(ops@) == layout_paints(layout@, texts(words@)),
{
    let mut ops: Vec<PaintOp> = Vec::new();
    if layout.scroll_rows > 0 {
        ops.push(PaintOp::ScrollUp(layout.scroll_rows));
        ops.push(PaintOp::MoveUp(layout.scroll_rows));
    }
    assert(paints(ops@) =~= scroll_paints(layout.scroll_rows));
    let ghost scrolled = paints(ops@);
    ops.push(PaintOp::SavePosition);
    ops.push(PaintOp::MoveToNextLine(1));
    ops.push(PaintOp::ClearFromCursorDown);
    ops.push(PaintOp::Write(border_text(TOP_LEFT, layout.cols, TOP_RIGHT)));
    let ghost opened = seq![
        Paint::SavePosition,
        Paint::MoveToNextLine(1),
        Paint::ClearFromCursorDown,
        Paint::Write(border(TOP_LEFT, layout.cols, TOP_RIGHT)),
    ];
    assert(paints(ops@) =~= scrolled + opened);
    let body = body_ops(&layout.body, words, layout.cols);
    extend_ops(&mut ops, body);
    let ghost drawn = paints(ops@);
    ops.push(PaintOp::MoveToNextLine(1));
    ops.push(PaintOp::Write(border_text(BOTTOM_LEFT, layout.cols, BOTTOM_RIGHT)));
    ops.push(PaintOp::RestorePosition);
    let ghost closed = seq![
        Paint::MoveToNextLine(1),
        Paint::Write(border(BOTTOM_LEFT, layout.cols, BOTTOM_RIGHT)),
        Paint::RestorePosition,
    ];
    assert(paints(ops@) =~= drawn + closed);
    assert(paints(ops@) =~= layout_paints(layout@, texts(words@)));
    ops
}

/// The instructions that draw the panel for `words` on a terminal of this
/// geometry: the scrolling where the panel would not fit below the cursor,
/// then the frame with the words laid out in it and the selected one
/// highlighted.
pub fn panel_ops(geometry: PanelGeometry, words: &Vec<String>, selected: Option<usize>) -> (ops: Vec<
    PaintOp,
>)
    ensures
        paints(ops@) == panel_paints(geometry, texts(words@), selected),
{
    let layout = layout_panel(geometry, words, selected);
    layout_ops(&layout, words)
}

/// The instructions that blank the panel.
pub fn clear_ops(geometry: PanelGeometry) -> (ops: Vec<PaintOp>)
    ensures
        paints(ops@) == clear_paints(geometry),
{
    let mut ops: Vec<PaintOp> = Vec::new();
    if geometry.cursor_row < geometry.rows && geometry.cursor_row + 1 < geometry.rows {
        ops.push(PaintOp::SavePosition);
        ops.push(PaintOp::MoveToNextLine(1));
        ops.push(PaintOp::ClearFromCursorDown);
        ops.push(PaintOp::RestorePosition);
    }
    assert(paints(ops@) =~= clear_paints(geometry));
    ops
}

} // verus!
