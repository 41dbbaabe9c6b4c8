//! The editing session: what each input event does to the line, the token,
//! the suggestions and the selection, and what is painted in answer.
//!
//! The session reads no event and paints nothing itself. Its owner hands it
//! each event together with the row in which the terminal's cursor stands,
//! carries out the instructions that come back, and, where the session asks
//! for it, has the line evaluated and hands back the result.

use vstd::prelude::*;
use crate::line::{lemma_cursor_stays_in_line, LineBuffer, LineView};
use crate::paint::{paints, Paint, PaintOp};
use crate::panel::{
    clear_ops, clear_paints, extend_ops, panel_ops, panel_paints, scroll_paints, PanelGeometry,
};
use crate::selection::{advanced, retreated, SelectionCycle};
use crate::suggest::{suggestions_for, texts, without_repeats, SuggestionIndex};

verus! {

/// What arrived from the terminal.
#[derive(Clone, Copy, Debug, PartialEq, Eq, Structural)]
pub enum InputEvent {
    /// A character was typed.
    Char(char),
    Enter,
    Backspace,
    Left,
    Right,
    Tab,
    BackTab,
    /// The key that ends the session.
    Interrupt,
    /// The terminal now has that many columns and rows.
    Resize(u16, u16),
    /// Anything else.
    Other,
}

/// Whether Tab and Shift-Tab have picked a suggestion that Enter would fill
/// in.
#[derive(Clone, Copy, Debug, PartialEq, Eq, Structural)]
pub enum Mode {
    Editing,
    Selecting,
}

/// What the owner of the session does once the instructions are carried out.
#[derive(Debug, PartialEq, Eq)]
pub enum Next {
    /// Wait for the next event.
    Continue,
    /// Have this line evaluated and hand the result to
    /// [`EditSession::complete`].
    Evaluate(String),
    /// End the session.
    Quit,
}

/// What a [`Next`] says, with the line as a sequence of characters.
pub enum NextView {
    Continue,
    Evaluate(Seq<char>),
    Quit,
}

impl View for Next {
    type V = NextView;

    open spec fn view(&self) -> NextView {
        match self {
            Next::Continue => NextView::Continue,
            Next::Evaluate(line) => NextView::Evaluate(line@),
            Next::Quit => NextView::Quit,
        }
    }
}

/// The answer to an event: what to paint, and what to do then.
#[derive(Debug, PartialEq, Eq)]
pub struct Reaction {
    pub ops: Vec<PaintOp>,
    pub next: Next,
}

/// What a [`Reaction`] says.
pub struct ReactionView {
    pub paints: Seq<Paint>,
    pub next: NextView,
}

impl View for Reaction {
    type V = ReactionView;

    open spec fn view(&self) -> ReactionView {
        ReactionView { paints: paints(self.ops@), next: self.next@ }
    }
}

/// What is shown in place of a result when the evaluator gave none.
pub open spec fn failure_text() -> Seq<char> {
    seq!['F', 'a', 'i', 'l', '!']
}

/// What stands in front of a result.
pub open spec fn result_mark() -> Seq<char> {
    seq!['=', '>', ' ']
}

/// The column of the screen in which a cursor at column `cursor` of the line
/// is shown: the same column, or the last one that an instruction can name.
pub open spec fn screen_column(cursor: nat) -> u16 {
    if cursor > u16::MAX {
        u16::MAX
    } else {
        cursor as u16
    }
}

/// What writes the line anew and puts the cursor in its column.
pub open spec fn redraw_paints(line: LineView) -> Seq<Paint> {
    seq![
        Paint::ClearCurrentLine,
        Paint::MoveToColumn(0),
        Paint::Write(line.text),
        Paint::MoveToColumn(screen_column(line.cursor)),
    ]
}

/// What shows a result below the line: room is made as for the panel, the
/// panel is blanked, the result is written, and the cursor goes to the start
/// of the row below it.
pub open spec fn result_paints(geometry: PanelGeometry, text: Seq<char>) -> Seq<Paint> {
    scroll_paints(geometry.spec_scroll_rows()) + seq![
        Paint::MoveToNextLine(1),
        Paint::ClearFromCursorDown,
        Paint::Write(result_mark() + text),
        Paint::MoveToNextLine(1),
    ]
}

/// What an [`EditSession`] holds.
pub struct SessionView {
    pub line: LineView,
    pub token: Seq<char>,
    pub catalog: Seq<Seq<char>>,
    pub suggestions: Seq<Seq<char>>,
    pub selected: Option<usize>,
    pub mode: Mode,
    pub cols: u16,
    pub rows: u16,
    pub panel_height: u16,
}

impl SessionView {
    /// The parts of the session fit together: the cursor is in the line, the
    /// suggestions are those of the token, the selection is one of them, and
    /// in selecting mode there is a selection.
    pub open spec fn wf(self) -> bool {
        &&& self.line.wf()
        &&& self.catalog.no_duplicates()
        &&& self.suggestions == suggestions_for(self.token, self.catalog)
        &&& (self.selected matches Some(i) ==> i < self.suggestions.len())
        &&& (self.mode == Mode::Selecting ==> self.selected is Some)
    }

    /// The terminal as the panel sees it, with the cursor in row `cursor_row`.
    pub open spec fn geometry(self, cursor_row: u16) -> PanelGeometry {
        PanelGeometry {
            cols: self.cols,
            rows: self.rows,
            cursor_row,
            height: self.panel_height,
        }
    }

    /// Enter would fill in a suggestion: the session is selecting and the
    /// selection names one.
    pub open spec fn can_fill_in(self) -> bool {
        self.mode == Mode::Selecting && (self.selected matches Some(i) && i < self.suggestions.len())
    }

    /// The session after the line has become `line`: the token is taken anew
    /// at the cursor and the suggestions are those of the new token. The
    /// selection stays only if the token is the same as before and not empty;
    /// else nothing is selected and the session is editing.
    pub open spec fn with_line(self, line: LineView) -> SessionView {
        let token = line.token();
        let same = token == self.token && token.len() > 0;
        SessionView {
            line,
            token,
            suggestions: suggestions_for(token, self.catalog),
            selected: if same {
                self.selected
            } else {
                None
            },
            mode: if same {
                self.mode
            } else {
                Mode::Editing
            },
            ..self
        }
    }

    /// The session after the selection has become `selected` by Tab or
    /// Shift-Tab: it is selecting from then on if there is a suggestion.
    pub open spec fn with_selection(self, selected: Option<usize>) -> SessionView {
        SessionView {
            selected,
            mode: if self.suggestions.len() > 0 {
                Mode::Selecting
            } else {
                self.mode
            },
            ..self
        }
    }

    /// The session after the selected suggestion has been filled in.
    pub open spec fn filled_in(self) -> SessionView {
        let line = self.line.replace_token(self.suggestions[self.selected->0 as int]);
        let token = line.token();
        SessionView {
            line,
            token,
            suggestions: suggestions_for(token, self.catalog),
            selected: None,
            mode: Mode::Editing,
            ..self
        }
    }

    /// The session after `event`.
    pub open spec fn after(self, event: InputEvent) -> SessionView {
        match event {
            InputEvent::Char(c) => self.with_line(self.line.insert(c)),
            InputEvent::Backspace => if self.line.can_delete() {
                self.with_line(self.line.delete_before_cursor())
            } else {
                self
            },
            InputEvent::Left => SessionView { line: self.line.move_left(), ..self },
            InputEvent::Right => SessionView {
                line: self.line.move_right(self.line.text.len()),
                ..self
            },
            InputEvent::Tab => self.with_selection(
                advanced(self.selected, self.suggestions.len()),
            ),
            InputEvent::BackTab => self.with_selection(
                retreated(self.selected, self.suggestions.len()),
            ),
            InputEvent::Enter => if self.can_fill_in() {
                self.filled_in()
            } else {
                self
            },
            InputEvent::Resize(cols, rows) => SessionView { cols, rows, ..self },
            InputEvent::Interrupt | InputEvent::Other => self,
        }
    }

    /// What the session answers to `event` with the terminal's cursor in row
    /// `cursor_row`.
    pub open spec fn reaction(self, event: InputEvent, cursor_row: u16) -> ReactionView {
        let after = self.after(event);
        let panel = panel_paints(after.geometry(cursor_row), after.suggestions, after.selected);
        match event {
            InputEvent::Char(_) => ReactionView {
                paints: redraw_paints(after.line) + panel,
                next: NextView::Continue,
            },
            InputEvent::Backspace => ReactionView {
                paints: if self.line.can_delete() {
                    redraw_paints(after.line) + panel
                } else {
                    Seq::empty()
                },
                next: NextView::Continue,
            },
            InputEvent::Left => ReactionView {
                paints: if self.line.cursor > 0 {
                    seq![Paint::MoveLeft(1)]
                } else {
                    Seq::empty()
                },
                next: NextView::Continue,
            },
            InputEvent::Right => ReactionView {
                paints: if self.line.can_move_right(self.line.text.len()) {
                    seq![Paint::MoveRight(1)]
                } else {
                    Seq::empty()
                },
                next: NextView::Continue,
            },
            InputEvent::Tab | InputEvent::BackTab => ReactionView {
                paints: panel,
                next: NextView::Continue,
            },
            InputEvent::Enter => if self.can_fill_in() {
                ReactionView { paints: redraw_paints(after.line), next: NextView::Continue }
            } else {
                ReactionView { paints: Seq::empty(), next: NextView::Evaluate(self.line.text) }
            },
            InputEvent::Interrupt => ReactionView {
                paints: clear_paints(self.geometry(cursor_row)),
                next: NextView::Quit,
            },
            InputEvent::Resize(_, _) | InputEvent::Other => ReactionView {
                paints: Seq::empty(),
                next: NextView::Continue,
            },
        }
    }

    /// The session after the line has been evaluated and a new catalog has
    /// come: an empty line, no token, no suggestions, nothing selected.
    pub open spec fn completed(self, catalog: Seq<Seq<char>>) -> SessionView {
        SessionView {
            line: LineView { text: Seq::empty(), cursor: 0 },
            token: Seq::empty(),
            catalog: without_repeats(catalog),
            suggestions: Seq::empty(),
            selected: None,
            mode: Mode::Editing,
            ..self
        }
    }
}

/// Whatever the event, a session whose parts fit together is followed by one
/// whose parts fit together: the cursor stays in the line, the suggestions are
/// those of the token, and the selection names one of them.
pub proof fn lemma_session_stays_well_formed(session: SessionView, event: InputEvent)
    requires
        session.wf(),
    ensures
        session.after(event).wf(),
{
    match event {
        InputEvent::Char(c) => {
            lemma_cursor_stays_in_line(session.line, c, 0, Seq::empty());
        },
        InputEvent::Enter => {
            if session.can_fill_in() {
                lemma_cursor_stays_in_line(
                    session.line,
                    ' ',
                    0,
                    session.suggestions[session.selected->0 as int],
                );
            }
        },
        _ => {},
    }
}

/// Backspace on an empty line or with the cursor at column 0 changes nothing
/// in the session and paints nothing.
pub proof fn lemma_backspace_at_start_is_noop(session: SessionView, cursor_row: u16)
    requires
        session.line.text.len() == 0 || session.line.cursor == 0,
    ensures
        session.after(InputEvent::Backspace) == session,
        session.reaction(InputEvent::Backspace, cursor_row).paints == Seq::<Paint>::empty(),
        session.reaction(InputEvent::Backspace, cursor_row).next == NextView::Continue,
{
}

/// Moving the cursor leaves the text, the token, the suggestions and the
/// selection as they are.
pub proof fn lemma_moves_keep_suggestions(session: SessionView)
    ensures
        session.after(InputEvent::Left) == (SessionView {
            line: session.line.move_left(),
            ..session
        }),
        session.after(InputEvent::Right) == (SessionView {
            line: session.line.move_right(session.line.text.len()),
            ..session
        }),
        session.after(InputEvent::Left).line.text == session.line.text,
        session.after(InputEvent::Right).line.text == session.line.text,
{
}

/// A session whose parts fit together has no suggestions while its token is
/// empty, and then nothing is selected.
pub proof fn lemma_empty_token_selects_nothing(session: SessionView)
    requires
        session.wf(),
        session.token.len() == 0,
    ensures
        session.suggestions.len() == 0,
        session.selected is None,
        session.mode == Mode::Editing,
{
}

/// One interactive line: the text being edited, the word under the cursor,
/// the suggestions for it and which of them is selected, together with what
/// the session knows of the terminal.
#[derive(Debug)]
pub struct EditSession {
    line: LineBuffer,
    token: String,
    catalog: SuggestionIndex,
    suggestions: Vec<String>,
    selection: SelectionCycle,
    mode: Mode,
    cols: u16,
    rows: u16,
    panel_height: u16,
}

impl View for EditSession {
    type V = SessionView;

    closed spec fn view(&self) -> SessionView {
        SessionView {
            line: self.line@,
            token: self.token@,
            catalog: self.catalog@,
            suggestions: texts(self.suggestions@),
            selected: self.selection.selected,
            mode: self.mode,
            cols: self.cols,
            rows: self.rows,
            panel_height: self.panel_height,
        }
    }
}

impl EditSession {
    /// A session with an empty line on a terminal of `cols` columns and
    /// `rows` rows, with a panel of `panel_height` rows and the words of
    /// `catalog` to suggest.
    pub fn new(cols: u16, rows: u16, panel_height: u16, catalog: Vec<String>) -> (session:
        EditSession)
        ensures
            session@ == (SessionView {
                line: LineView { text: Seq::empty(), cursor: 0 },
                token: Seq::empty(),
                catalog: without_repeats(texts(catalog@)),
                suggestions: Seq::empty(),
                selected: None,
                mode: Mode::Editing,
                cols,
                rows,
                panel_height,
            }),
            session@.wf(),
    {
        let session = EditSession {
            line: LineBuffer::new(),
            token: String::new(),
            catalog: SuggestionIndex::new(catalog),
            suggestions: Vec::new(),
            selection: SelectionCycle::new(),
            mode: Mode::Editing,
            cols,
            rows,
            panel_height,
        };
        assert(session@.line.text =~= Seq::empty());
        assert(session@.suggestions =~= Seq::empty());
        session
    }

    /// The text of the line.
    pub fn line_text(&self) -> (text: String)
        ensures
            text@ == self@.line.text,
    {
        self.line.text()
    }

    /// The cursor column in the line.
    pub fn cursor(&self) -> (cursor: usize)
        ensures
            cursor == self@.line.cursor,
    {
        self.line.cursor()
    }

    /// The token for which suggestions are shown.
    pub fn token(&self) -> (token: &String)
        ensures
            token@ == self@.token,
    {
        &self.token
    }

    /// The suggestions for the token, in the order of the catalog.
    pub fn suggestions(&self) -> (suggestions: &Vec<String>)
        ensures
            texts(suggestions@) == self@.suggestions,
    {
        &self.suggestions
    }

    /// Which suggestion is selected, if any.
    pub fn selected(&self) -> (selected: Option<usize>)
        ensures
            selected == self@.selected,
    {
        self.selection.selected()
    }

    /// Whether the session is editing or selecting.
    pub fn mode(&self) -> (mode: Mode)
        ensures
            mode == self@.mode,
    {
        self.mode
    }

    /// The extent of the terminal as last recorded: columns, then rows.
    pub fn terminal_size(&self) -> (size: (u16, u16))
        ensures
            size == (self@.cols, self@.rows),
    {
        (self.cols, self.rows)
    }

    /// The terminal as the panel sees it, with the cursor in row `cursor_row`.
    pub fn geometry(&self, cursor_row: u16) -> (geometry: PanelGeometry)
        ensures
            geometry == self@.geometry(cursor_row),
    {
        PanelGeometry {
            cols: self.cols,
            rows: self.rows,
            cursor_row,
            height: self.panel_height,
        }
    }

    /// The instructions that write the line anew and put the cursor in its
    /// column.
    fn redraw_ops(&self) -> (ops: Vec<PaintOp>)
        ensures
            paints(ops@) == redraw_paints(self@.line),
    {
        let cursor = self.line.cursor();
        let column: u16 = if cursor > 0xffff {
            0xffff
        } else {
            cursor as u16
        };
        let mut ops: Vec<PaintOp> = Vec::new();
        ops.push(PaintOp::ClearCurrentLine);
        ops.push(PaintOp::MoveToColumn(0));
        ops.push(PaintOp::Write(self.line.text()));
        ops.push(PaintOp::MoveToColumn(column));
        assert(paints(ops@) =~= redraw_paints(self@.line));
        ops
    }

    /// The instructions that draw the panel for the suggestions and the
    /// selection as they are.
    fn panel_ops(&self, cursor_row: u16) -> (ops: Vec<PaintOp>)
        ensures
            paints(ops@) == panel_paints(
                self@.geometry(cursor_row),
                self@.suggestions,
                self@.selected,
            ),
    {
        panel_ops(self.geometry(cursor_row), &self.suggestions, self.selection.selected())
    }

    /// Takes the token anew at the cursor, and with it the suggestions. With
    /// `keep` the selection stays if the token is the same as before and not
    /// empty; else nothing is selected afterwards.
    fn refresh(&mut self, keep: bool)
        ensures
            keep ==> final(self)@ == old(self)@.with_line(old(self)@.line),
            !keep ==> final(self)@ == (SessionView {
                token: old(self)@.line.token(),
                suggestions: suggestions_for(old(self)@.line.token(), old(self)@.catalog),
                selected: None,
                mode: Mode::Editing,
                ..old(self)@
            }),
    {
        let token = self.line.token();
        let same = keep && token == self.token && token.as_str().unicode_len() > 0;
        let suggestions = self.catalog.filter(token.as_str());
        if !same {
            self.selection.reset();
            self.mode = Mode::Editing;
        }
        self.token = token;
        self.suggestions = suggestions;
    }

    /// Answers one input event with the terminal's cursor in row
    /// `cursor_row`.
    ///
    /// - A character is typed at the cursor, Backspace deletes the character
    ///   in front of it. The token and the suggestions are taken anew, the
    ///   line and the panel are painted. Backspace with nothing in front of
    ///   the cursor changes nothing and paints nothing.
    /// - Left and Right move the cursor within the line and leave token and
    ///   suggestions alone.
    /// - Tab and Shift-Tab move the selection forward and back through the
    ///   suggestions and paint the panel with the new highlight.
    /// - Enter fills in the selected suggestion while the session is
    ///   selecting, and else asks for the line to be evaluated.
    /// - A resize is recorded. The interrupt key blanks the panel and ends
    ///   the session.
    pub fn handle(&mut self, event: InputEvent, cursor_row: u16) -> (reaction: Reaction)
        ensures
            final(self)@ == old(self)@.after(event),
            reaction@ == old(self)@.reaction(event, cursor_row),
            old(self)@.wf() ==> final(self)@.wf(),
    {
        let mut ops: Vec<PaintOp> = Vec::new();
        let mut next = Next::Continue;
        assert(paints(ops@) =~= Seq::empty());
        match event {
            InputEvent::Char(c) => {
                let _ = self.line.insert(c);
                self.refresh(true);
                ops = self.redraw_ops();
                extend_ops(&mut ops, self.panel_ops(cursor_row));
            },
            InputEvent::Backspace => {
                if self.line.delete_before_cursor() {
                    self.refresh(true);
                    ops = self.redraw_ops();
                    extend_ops(&mut ops, self.panel_ops(cursor_row));
                }
            },
            InputEvent::Left => {
                if self.line.move_left() {
                    ops.push(PaintOp::MoveLeft(1));
                    assert(paints(ops@) =~= seq![Paint::MoveLeft(1)]);
                }
            },
            InputEvent::Right => {
                let bound = self.line.len();
                if self.line.move_right(bound) {
                    ops.push(PaintOp::MoveRight(1));
                    assert(paints(ops@) =~= seq![Paint::MoveRight(1)]);
                }
            },
            InputEvent::Tab => {
                self.selection.advance(self.suggestions.len());
                if self.suggestions.len() > 0 {
                    self.mode = Mode::Selecting;
                }
                ops = self.panel_ops(cursor_row);
            },
            InputEvent::BackTab => {
                self.selection.retreat(self.suggestions.len());
                if self.suggestions.len() > 0 {
                    self.mode = Mode::Selecting;
                }
                ops = self.panel_ops(cursor_row);
            },
            InputEvent::Enter => {
                let chosen = match (self.mode, self.selection.selected()) {
                    (Mode::Selecting, Some(i)) => if i < self.suggestions.len() {
                        Some(i)
                    } else {
                        None
                    },
                    _ => None,
                };
                match chosen {
                    Some(i) => {
                        assert(old(self)@.suggestions[i as int] == self.suggestions[i as int]@);
                        let suggestion = self.suggestions[i].clone();
                        self.line.replace_token(suggestion.as_str());
                        self.refresh(false);
                        ops = self.redraw_ops();
                    },
                    None => {
                        next = Next::Evaluate(self.line.text());
                    },
                }
            },
            InputEvent::Resize(cols, rows) => {
                self.cols = cols;
                self.rows = rows;
            },
            InputEvent::Interrupt => {
                ops = clear_ops(self.geometry(cursor_row));
                next = Next::Quit;
            },
            InputEvent::Other => {},
        }
        Reaction { ops, next }
    }

    /// Takes the result of the evaluation that [`Next::Evaluate`] asked for,
    /// or `None` where the evaluator gave no text, and the catalog for the
    /// next line. The result, or the failure text in its place, is shown
    /// below the line, and the session starts over with an empty line.
    pub fn complete(&mut self, result: Option<String>, catalog: Vec<String>, cursor_row: u16) -> (ops:
        Vec<PaintOp>)
        ensures
            final(self)@ == old(self)@.completed(texts(catalog@)),
            final(self)@.wf(),
            paints(ops@) == result_paints(
                old(self)@.geometry(cursor_row),
                match result {
                    Some(text) => text@,
                    None => failure_text(),
                },
            ),
    {
        let geometry = self.geometry(cursor_row);
        let mut shown = String::new();
        shown.push('=');
        shown.push('>');
        shown.push(' ');
        assert(shown@ =~= result_mark());
        match result {
            Some(text) => {
                shown.append(text.as_str());
            },
            None => {
                proof {
                    reveal_strlit("Fail!");
                }
                assert("Fail!"@ =~= failure_text());
                shown.append("Fail!");
            },
        }
        let scroll = geometry.scroll_rows();
        let mut ops: Vec<PaintOp> = Vec::new();
        if scroll > 0 {
            ops.push(PaintOp::ScrollUp(scroll));
            ops.push(PaintOp::MoveUp(scroll));
        }
        ops.push(PaintOp::MoveToNextLine(1));
        ops.push(PaintOp::ClearFromCursorDown);
        ops.push(PaintOp::Write(shown));
        ops.push(PaintOp::MoveToNextLine(1));
        assert(paints(ops@) =~= result_paints(
            geometry,
            match result {
                Some(text) => text@,
                None => failure_text(),
            },
        ));
        self.line = LineBuffer::new();
        self.token = String::new();
        self.catalog = SuggestionIndex::new(catalog);
        self.suggestions = Vec::new();
        self.selection.reset();
        self.mode = Mode::Editing;
        assert(self@.line.text =~= Seq::empty());
        assert(self@.suggestions =~= Seq::empty());
        ops
    }
}

} // verus!
