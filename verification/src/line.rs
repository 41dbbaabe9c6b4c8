//! The text of the line being edited and the cursor in it.

use vstd::prelude::*;
use crate::text::{chars_of, string_of, string_of_range};
use crate::token::{
    column_after_suggestion, has_token, lemma_token_is_maximal_run, line_with_suggestion,
    take_range, token_at, token_span,
};

verus! {

/// What a [`LineBuffer`] holds: the characters of the line and the cursor
/// column, counted in characters from 0.
pub struct LineView {
    pub text: Seq<char>,
    pub cursor: nat,
}

impl LineView {
    /// The cursor stands inside the line or directly behind its end.
    pub open spec fn wf(self) -> bool {
        self.cursor <= self.text.len()
    }

    /// The line after `c` has been typed at the cursor. A cursor past the end
    /// of the line types nothing.
    pub open spec fn insert(self, c: char) -> LineView {
        if self.cursor <= self.text.len() {
            LineView { text: self.text.insert(self.cursor as int, c), cursor: self.cursor + 1 }
        } else {
            self
        }
    }

    /// There is a character in front of the cursor.
    pub open spec fn can_delete(self) -> bool {
        0 < self.cursor <= self.text.len()
    }

    /// The line after the character in front of the cursor has been deleted;
    /// the same line where there is none.
    pub open spec fn delete_before_cursor(self) -> LineView {
        if self.can_delete() {
            LineView { text: self.text.remove(self.cursor - 1), cursor: (self.cursor - 1) as nat }
        } else {
            self
        }
    }

    /// The line with the cursor one column to the left, but not left of
    /// column 0.
    pub open spec fn move_left(self) -> LineView {
        if self.cursor > 0 {
            LineView { cursor: (self.cursor - 1) as nat, ..self }
        } else {
            self
        }
    }

    /// The cursor may move one column to the right: it stands in front of
    /// both the caller's bound and the end of the line.
    pub open spec fn can_move_right(self, bound: nat) -> bool {
        self.cursor < bound && self.cursor < self.text.len()
    }

    /// The line with the cursor one column to the right, but neither past
    /// `bound` nor past the end of the line.
    pub open spec fn move_right(self, bound: nat) -> LineView {
        if self.can_move_right(bound) {
            LineView { cursor: self.cursor + 1, ..self }
        } else {
            self
        }
    }

    /// The token under the cursor.
    pub open spec fn token(self) -> Seq<char> {
        token_at(self.text, self.cursor as int)
    }

    /// The line after the token under the cursor has been replaced by
    /// `suggestion`, with the cursor directly behind the suggestion.
    pub open spec fn replace_token(self, suggestion: Seq<char>) -> LineView {
        LineView {
            text: line_with_suggestion(self.text, suggestion, self.cursor as int),
            cursor: column_after_suggestion(self.text, suggestion, self.cursor as int) as nat,
        }
    }
}

/// The line being edited. The cursor column counts characters, so a character
/// of several bytes takes one column.
#[derive(Debug)]
pub struct LineBuffer {
    text: Vec<char>,
    cursor: usize,
}

impl View for LineBuffer {
    type V = LineView;

    closed spec fn view(&self) -> LineView {
        LineView { text: self.text@, cursor: self.cursor as nat }
    }
}

impl LineBuffer {
    /// An empty line with the cursor at column 0.
    pub fn new() -> (line: LineBuffer)
        ensures
            line@.text.len() == 0,
            line@.cursor == 0,
            line@.wf(),
    {
        LineBuffer { text: Vec::new(), cursor: 0 }
    }

    /// A line that holds `text`, with the cursor directly behind its end.
    pub fn from_text(text: &str) -> (line: LineBuffer)
        ensures
            line@.text == text@,
            line@.cursor == text@.len(),
            line@.wf(),
    {
        let chars = chars_of(text);
        let cursor = chars.len();
        LineBuffer { text: chars, cursor }
    }

    /// The text of the line.
    pub fn text(&self) -> (text: String)
        ensures
            text@ == self@.text,
    {
        string_of(&self.text)
    }

    /// The cursor column.
    pub fn cursor(&self) -> (cursor: usize)
        ensures
            cursor == self@.cursor,
    {
        self.cursor
    }

    /// The number of characters in the line.
    pub fn len(&self) -> (len: usize)
        ensures
            len == self@.text.len(),
    {
        self.text.len()
    }

    /// The line holds no character.
    pub fn is_empty(&self) -> (empty: bool)
        ensures
            empty == (self@.text.len() == 0),
    {
        self.text.len() == 0
    }

    /// Types `c` at the cursor: the character goes between what stands in
    /// front of the cursor and what stands behind it, and the cursor moves
    /// one column to the right. Returns whether the line changed; it does not
    /// with the cursor past the end of the line.
    pub fn insert(&mut self, c: char) -> (changed: bool)
        ensures
            final(self)@ == old(self)@.insert(c),
            changed == old(self)@.wf(),
            old(self)@.wf() ==> final(self)@.wf(),
    {
        if self.cursor > self.text.len() {
            return false;
        }
        self.text.insert(self.cursor, c);
        assert(self.cursor < self.text.len());
        self.cursor += 1;
        true
    }

    /// Deletes the character in front of the cursor and moves the cursor one
    /// column to the left. Returns whether the line changed; it does not on an
    /// empty line or with the cursor at column 0.
    pub fn delete_before_cursor(&mut self) -> (changed: bool)
        ensures
            final(self)@ == old(self)@.delete_before_cursor(),
            changed == old(self)@.can_delete(),
            !changed ==> *final(self) == *old(self),
            old(self)@.wf() ==> final(self)@.wf(),
    {
        if self.cursor == 0 || self.cursor > self.text.len() {
            return false;
        }
        self.cursor -= 1;
        let _ = self.text.remove(self.cursor);
        true
    }

    /// Moves the cursor one column to the left. Returns whether it moved; it
    /// does not at column 0.
    pub fn move_left(&mut self) -> (moved: bool)
        ensures
            final(self)@ == old(self)@.move_left(),
            moved == (old(self)@.cursor > 0),
            old(self)@.wf() ==> final(self)@.wf(),
    {
        if self.cursor == 0 {
            return false;
        }
        self.cursor -= 1;
        true
    }

    /// Moves the cursor one column to the right, up to column `bound` and up
    /// to the end of the line. Returns whether it moved.
    pub fn move_right(&mut self, bound: usize) -> (moved: bool)
        ensures
            final(self)@ == old(self)@.move_right(bound as nat),
            moved == old(self)@.can_move_right(bound as nat),
            old(self)@.wf() ==> final(self)@.wf(),
    {
        if self.cursor >= bound || self.cursor >= self.text.len() {
            return false;
        }
        self.cursor += 1;
        true
    }

    /// The token under the cursor.
    pub fn token(&self) -> (token: String)
        ensures
            token@ == self@.token(),
    {
        let (start, end) = token_span(&self.text, self.cursor);
        if start >= end {
            return String::new();
        }
        string_of_range(&self.text, start, end)
    }

    /// Replaces the token under the cursor by `suggestion` and puts the cursor
    /// directly behind it.
    pub fn replace_token(&mut self, suggestion: &str)
        ensures
            final(self)@ == old(self)@.replace_token(suggestion@),
            old(self)@.wf() ==> final(self)@.wf(),
    {
        if self.cursor > self.text.len() {
            return;
        }
        let (start, end) = token_span(&self.text, self.cursor);
        let mut updated = take_range(&self.text, 0, start);
        let mut inserted = chars_of(suggestion);
        let mut tail = take_range(&self.text, end, self.text.len());
        updated.append(&mut inserted);
        let cursor = updated.len();
        updated.append(&mut tail);
        self.text = updated;
        self.cursor = cursor;
    }
}

/// Typing, deleting and moving keep the cursor inside the line or directly
/// behind its end, whatever the character and the bound.
pub proof fn lemma_cursor_stays_in_line(line: LineView, c: char, bound: nat, suggestion: Seq<char>)
    requires
        line.wf(),
    ensures
        line.insert(c).wf(),
        line.delete_before_cursor().wf(),
        line.move_left().wf(),
        line.move_right(bound).wf(),
        line.replace_token(suggestion).wf(),
{
    if has_token(line.text, line.cursor as int) {
        lemma_token_is_maximal_run(line.text, line.cursor as int);
    }
}

/// Deleting on an empty line or with the cursor at column 0 changes neither
/// the text nor the cursor.
pub proof fn lemma_delete_at_start_is_noop(line: LineView)
    requires
        line.text.len() == 0 || line.cursor == 0,
        line.wf(),
    ensures
        line.delete_before_cursor() == line,
{
}

} // verus!
