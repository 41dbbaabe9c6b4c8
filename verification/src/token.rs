//! The word under the cursor.
//!
//! A column `c` names the gap in front of character `c`, so a line of `n`
//! characters has the columns `0..=n`. The token at a column is the run of
//! non-space characters around it, provided the character in front of the
//! cursor belongs to a word: at column 0, directly after a space, and past the
//! end of the line there is no token.

use vstd::prelude::*;
use crate::text::{chars_of, string_of, string_of_range};

verus! {

/// Where the run of non-space characters that ends at column `col` begins.
pub open spec fn run_start(line: Seq<char>, col: int) -> int
    decreases col,
{
    if 0 < col <= line.len() && line[col - 1] != ' ' {
        run_start(line, col - 1)
    } else {
        col
    }
}

/// Where the run of non-space characters that begins at column `col` ends.
pub open spec fn run_end(line: Seq<char>, col: int) -> int
    decreases line.len() - col,
{
    if 0 <= col < line.len() && line[col] != ' ' {
        run_end(line, col + 1)
    } else {
        col
    }
}

/// The cursor at `col` stands in or directly behind a word.
pub open spec fn has_token(line: Seq<char>, col: int) -> bool {
    0 < col <= line.len() && line[col - 1] != ' '
}

/// First column of the token at `col`; `col` itself where there is none.
pub open spec fn token_start(line: Seq<char>, col: int) -> int {
    if has_token(line, col) {
        run_start(line, col)
    } else {
        col
    }
}

/// Column behind the last character of the token at `col`; `col` itself where
/// there is none.
pub open spec fn token_end(line: Seq<char>, col: int) -> int {
    if has_token(line, col) {
        run_end(line, col)
    } else {
        col
    }
}

/// The token at `col`: empty where there is none.
pub open spec fn token_at(line: Seq<char>, col: int) -> Seq<char> {
    if has_token(line, col) {
        line.subrange(token_start(line, col), token_end(line, col))
    } else {
        Seq::empty()
    }
}

/// The line after the token at `col` has been replaced by `suggestion`. A
/// column past the end of the line leaves the line as it is.
pub open spec fn line_with_suggestion(line: Seq<char>, suggestion: Seq<char>, col: int) -> Seq<char> {
    if 0 <= col <= line.len() {
        line.subrange(0, token_start(line, col)) + suggestion + line.subrange(
            token_end(line, col),
            line.len() as int,
        )
    } else {
        line
    }
}

/// The cursor column after that replacement: directly behind the suggestion.
pub open spec fn column_after_suggestion(line: Seq<char>, suggestion: Seq<char>, col: int) -> int {
    if 0 <= col <= line.len() {
        token_start(line, col) + suggestion.len()
    } else {
        col
    }
}

/// The run that ends at `col` lies within the line, holds no space, and cannot
/// be extended to the left.
pub proof fn lemma_run_start(line: Seq<char>, col: int)
    requires
        0 <= col <= line.len(),
    ensures
        0 <= run_start(line, col) <= col,
        forall|k: int| run_start(line, col) <= k < col ==> line[k] != ' ',
        run_start(line, col) == 0 || line[run_start(line, col) - 1] == ' ',
    decreases col,
{
    if 0 < col && line[col - 1] != ' ' {
        lemma_run_start(line, col - 1);
    }
}

/// The run that begins at `col` lies within the line, holds no space, and
/// cannot be extended to the right.
pub proof fn lemma_run_end(line: Seq<char>, col: int)
    requires
        0 <= col <= line.len(),
    ensures
        col <= run_end(line, col) <= line.len(),
        forall|k: int| col <= k < run_end(line, col) ==> line[k] != ' ',
        run_end(line, col) == line.len() || line[run_end(line, col)] == ' ',
    decreases line.len() - col,
{
    if col < line.len() && line[col] != ' ' {
        lemma_run_end(line, col + 1);
    }
}

/// The token is a maximal run of non-space characters around the cursor: it
/// holds no space, it reaches from the cursor both ways, and on either side it
/// stops only at a space or at an end of the line.
pub proof fn lemma_token_is_maximal_run(line: Seq<char>, col: int)
    requires
        has_token(line, col),
    ensures
        0 <= token_start(line, col) < col <= token_end(line, col) <= line.len(),
        forall|k: int| token_start(line, col) <= k < token_end(line, col) ==> line[k] != ' ',
        token_start(line, col) == 0 || line[token_start(line, col) - 1] == ' ',
        token_end(line, col) == line.len() || line[token_end(line, col)] == ' ',
        token_at(line, col).len() > 0,
{
    lemma_run_start(line, col);
    lemma_run_end(line, col);
}

/// Both ends of the token at column `col` of `line`.
pub fn token_span(line: &Vec<char>, col: usize) -> (span: (usize, usize))
    ensures
        span.0 == token_start(line@, col as int),
        span.1 == token_end(line@, col as int),
        has_token(line@, col as int) ==> span.0 < col <= span.1 <= line.len(),
        !has_token(line@, col as int) ==> span.0 == col && span.1 == col,
{
    if col == 0 || col > line.len() || line[col - 1] == ' ' {
        return (col, col);
    }
    let mut start: usize = col - 1;
    while start > 0 && line[start - 1] != ' '
        invariant
            0 <= start < col <= line.len(),
            run_start(line@, col as int) == run_start(line@, start as int),
        decreases start,
    {
        start -= 1;
    }
    let mut end: usize = col;
    while end < line.len() && line[end] != ' '
        invariant
            col <= end <= line.len(),
            run_end(line@, col as int) == run_end(line@, end as int),
        decreases line.len() - end,
    {
        end += 1;
    }
    (start, end)
}

/// The token under the cursor at column `current_col` of `line`. Columns count
/// characters. At column 0, directly after a space and past the end of the line
/// the token is empty.
pub fn get_current_token(line: String, current_col: usize) -> (token: String)
    ensures
        token@ == token_at(line@, current_col as int),
{
    let chars = chars_of(line.as_str());
    let (start, end) = token_span(&chars, current_col);
    if start == end {
        proof {
            if has_token(line@, current_col as int) {
                lemma_token_is_maximal_run(line@, current_col as int);
            }
        }
        return String::new();
    }
    string_of_range(&chars, start, end)
}

/// Replaces the token under the cursor by `selected_suggestion` and moves the
/// cursor directly behind it. The text in front of the token and behind it
/// stays. With the cursor past the end of the line nothing changes.
pub fn update_line_with_suggestion(
    line: String,
    selected_suggestion: &String,
    current_col: &mut usize,
) -> (updated: String)
    ensures
        updated@ == line_with_suggestion(line@, selected_suggestion@, *old(current_col) as int),
        *final(current_col) == column_after_suggestion(
            line@,
            selected_suggestion@,
            *old(current_col) as int,
        ),
{
    let chars = chars_of(line.as_str());
    let col = *current_col;
    if col > chars.len() {
        return line;
    }
    let (start, end) = token_span(&chars, col);
    let mut updated = take_range(&chars, 0, start);
    let mut suggestion = chars_of(selected_suggestion.as_str());
    let mut tail = take_range(&chars, end, chars.len());
    updated.append(&mut suggestion);
    *current_col = updated.len();
    updated.append(&mut tail);
    string_of(&updated)
}

/// A copy of `chars[from..to]`.
pub fn take_range(chars: &Vec<char>, from: usize, to: usize) -> (part: Vec<char>)
    requires
        from <= to <= chars.len(),
    ensures
        part@ == chars@.subrange(from as int, to as int),
{
    let mut part: Vec<char> = Vec::new();
    let mut i: usize = from;
    while i < to
        invariant
            from <= i <= to <= chars.len(),
            part@ == chars@.subrange(from as int, i as int),
        decreases to - i,
    {
        part.push(chars[i]);
        i += 1;
    }
    part
}

} // verus!
