//! The cursor: a character offset, and the column that vertical movement
//! aims for.
//!
//! Word movement steps over the segments of `segment`: words, whitespace
//! runs and symbol runs, with every newline a segment of its own. It does not
//! cross a line boundary, but for stepping left from a line's first column
//! onto the newline before it.
use crate::buffer::TextBuffer;
use crate::lines::{
    lemma_line_shape, lemma_within_line, line_col_of, line_count, line_end, line_of, line_start,
    line_text_len,
};
use crate::segment::{
    char_is_alphanumeric, classes, classify, is_word, lemma_word_bounds, segment_at, word_bounds,
    CharClass,
};
use vstd::prelude::*;

verus! {

/// The column to keep during vertical movement.
#[derive(Clone, Copy, Debug, PartialEq, Eq, Structural)]
pub enum CursorGoal {
    /// No column remembered.
    Unset,
    /// The column position we want to maintain when moving up/down
    Column(usize),
}

impl Default for CursorGoal {
    fn default() -> (g: CursorGoal)
        ensures
            g == CursorGoal::Unset,
    {
        CursorGoal::Unset
    }
}

/// A position in a buffer, with its vertical-movement goal.
#[derive(Clone, Copy, Debug, PartialEq, Eq, Structural)]
pub struct Cursor {
    pub index: usize,
    pub goal: CursorGoal,
}

/// The column that vertical movement from `c` aims for: the remembered
/// goal, else the current column.
pub open spec fn goal_column(s: Seq<char>, c: Cursor) -> int {
    match c.goal {
        CursorGoal::Unset => line_col_of(s, c.index as int).1,
        CursorGoal::Column(g) => g as int,
    }
}

pub open spec fn min(a: int, b: int) -> int {
    if a <= b {
        a
    } else {
        b
    }
}

/// Where moving up from `i` aiming at column `col` lands: that column,
/// clamped to the previous line's text, or the buffer start on the first line.
pub open spec fn up_index(s: Seq<char>, i: int, col: int) -> int {
    let line = line_col_of(s, i).0;
    if line > 0 {
        line_start(s, (line - 1) as nat) + min(col, line_text_len(s, (line - 1) as nat))
    } else {
        0
    }
}

/// Where moving down from `i` aiming at column `col` lands: that column,
/// clamped to the next line's text, or the buffer end on the last line.
pub open spec fn down_index(s: Seq<char>, i: int, col: int) -> int {
    let line = line_col_of(s, i).0;
    if line + 1 < line_count(s) {
        line_start(s, line + 1) + min(col, line_text_len(s, line + 1))
    } else {
        s.len() as int
    }
}

/// Start of the line that holds `i`.
pub open spec fn home_index(s: Seq<char>, i: int) -> int {
    line_start(s, line_col_of(s, i).0)
}

/// End of the text of the line that holds `i`, before its newline.
pub open spec fn end_index(s: Seq<char>, i: int) -> int {
    let line = line_col_of(s, i).0;
    line_start(s, line) + line_text_len(s, line)
}

/// Where a word step left from `i` lands: the start of the segment before
/// `i`, held to the current line unless `i` is at column zero.
pub open spec fn word_left_index(s: Seq<char>, i: int) -> int {
    if i == 0 {
        0
    } else if i > s.len() {
        s.len() as int
    } else {
        let start = word_bounds(s, i - 1).0;
        let home = home_index(s, i);
        if line_col_of(s, i).1 > 0 && start < home {
            home
        } else {
            start
        }
    }
}

/// Where a word step right from `i` lands: the end of the segment at `i`,
/// held to the start of the next line.
pub open spec fn word_right_index(s: Seq<char>, i: int) -> int {
    if i >= s.len() {
        i
    } else {
        min(word_bounds(s, i).1, line_end(s, line_of(s, i)))
    }
}

impl Default for Cursor {
    fn default() -> (c: Cursor)
        ensures
            c.index == 0,
            c.goal == CursorGoal::Unset,
    {
        Cursor::new()
    }
}

impl Cursor {
    /// A cursor at offset zero with no goal.
    pub fn new() -> (c: Cursor)
        ensures
            c.index == 0,
            c.goal == CursorGoal::Unset,
    {
        Cursor { index: 0, goal: CursorGoal::Unset }
    }

    /// One character left, stopping at zero.
    pub fn move_left(&mut self)
        ensures
            final(self).index == if old(self).index > 0 {
                old(self).index - 1
            } else {
                0
            },
            final(self).goal == CursorGoal::Unset,
    {
        if self.index > 0 {
            self.index -= 1;
        }
        self.goal = CursorGoal::Unset;
    }

    /// One character right, stopping at `max`.
    pub fn move_right(&mut self, max: usize)
        ensures
            final(self).index == if old(self).index < max {
                old(self).index + 1
            } else {
                old(self).index as int
            },
            final(self).goal == CursorGoal::Unset,
    {
        if self.index < max {
            self.index += 1;
        }
        self.goal = CursorGoal::Unset;
    }

    /// One line up, aiming at the goal column, which it then remembers.
    pub fn move_up(&mut self, buffer: &TextBuffer)
        ensures
            final(self).index == up_index(
                buffer@,
                old(self).index as int,
                goal_column(buffer@, *old(self)),
            ),
            final(self).goal == CursorGoal::Column(goal_column(buffer@, *old(self)) as usize),
            final(self).index <= buffer@.len(),
    {
        let (line, col) = buffer.char_to_line_col(self.index);
        let goal_col = match self.goal {
            CursorGoal::Unset => col,
            CursorGoal::Column(c) => c,
        };
        if line > 0 {
            let new_line = line - 1;
            let line_len = buffer.line_len(new_line);
            let new_col = if goal_col < line_len {
                goal_col
            } else {
                line_len
            };
            proof {
                lemma_line_shape(buffer@, new_line as nat);
            }
            self.index = buffer.line_col_to_char(new_line, new_col);
        } else {
            self.index = 0;
        }
        self.goal = CursorGoal::Column(goal_col);
    }

    /// One line down, aiming at the goal column, which it then remembers.
    pub fn move_down(&mut self, buffer: &TextBuffer)
        ensures
            final(self).index == down_index(
                buffer@,
                old(self).index as int,
                goal_column(buffer@, *old(self)),
            ),
            final(self).goal == CursorGoal::Column(goal_column(buffer@, *old(self)) as usize),
            final(self).index <= buffer@.len(),
    {
        let (line, col) = buffer.char_to_line_col(self.index);
        let goal_col = match self.goal {
            CursorGoal::Unset => col,
            CursorGoal::Column(c) => c,
        };
        if line < buffer.line_count() - 1 {
            let new_line = line + 1;
            let line_len = buffer.line_len(new_line);
            let new_col = if goal_col < line_len {
                goal_col
            } else {
                line_len
            };
            proof {
                lemma_line_shape(buffer@, new_line as nat);
            }
            self.index = buffer.line_col_to_char(new_line, new_col);
        } else {
            self.index = buffer.len();
        }
        self.goal = CursorGoal::Column(goal_col);
    }

    /// To the start of the current line.
    pub fn move_to_line_start(&mut self, buffer: &TextBuffer)
        ensures
            final(self).index == home_index(buffer@, old(self).index as int),
            final(self).goal == CursorGoal::Unset,
            final(self).index <= buffer@.len(),
    {
        self.goal = CursorGoal::Unset;
        let (line, _col) = buffer.char_to_line_col(self.index);
        proof {
            lemma_line_shape(buffer@, line as nat);
        }
        self.index = buffer.line_col_to_char(line, 0);
    }

    /// To the end of the current line's text, before its newline.
    pub fn move_to_line_end(&mut self, buffer: &TextBuffer)
        ensures
            final(self).index == end_index(buffer@, old(self).index as int),
            final(self).goal == CursorGoal::Unset,
            final(self).index <= buffer@.len(),
    {
        self.goal = CursorGoal::Unset;
        let (line, _col) = buffer.char_to_line_col(self.index);
        let line_len = buffer.line_len(line);
        proof {
            lemma_line_shape(buffer@, line as nat);
        }
        self.index = buffer.line_col_to_char(line, line_len);
    }

    /// To offset zero.
    pub fn move_to_buffer_start(&mut self)
        ensures
            final(self).index == 0,
            final(self).goal == CursorGoal::Unset,
    {
        self.index = 0;
        self.goal = CursorGoal::Unset;
    }

    /// To the end of the buffer.
    pub fn move_to_buffer_end(&mut self, buffer: &TextBuffer)
        ensures
            final(self).index == buffer@.len(),
            final(self).goal == CursorGoal::Unset,
    {
        self.index = buffer.len();
        self.goal = CursorGoal::Unset;
    }

    /// To the previous segment boundary; see `word_left_index`.
    pub fn move_word_left(&mut self, buffer: &TextBuffer)
        ensures
            final(self).index == word_left_index(buffer@, old(self).index as int),
            final(self).goal == CursorGoal::Unset,
            final(self).index <= old(self).index,
            final(self).index <= buffer@.len(),
    {
        self.goal = CursorGoal::Unset;
        if self.index == 0 {
            return;
        }
        let len = buffer.len();
        if self.index > len {
            self.index = len;
            return;
        }
        let (current_line, current_col) = buffer.char_to_line_col(self.index);
        proof {
            lemma_line_shape(buffer@, current_line as nat);
        }
        let line_start = buffer.line_col_to_char(current_line, 0);
        let (start, _end) = Self::find_word_boundaries(buffer, self.index - 1);
        proof {
            lemma_word_bounds(buffer@, self.index - 1);
            lemma_within_line(buffer@, self.index as int);
        }
        self.index = if current_col > 0 && start < line_start {
            line_start
        } else {
            start
        };
    }

    /// `(start, end)` of the segment at `position`; see `word_bounds`.
    pub fn find_word_boundaries(buffer: &TextBuffer, position: usize) -> (r: (usize, usize))
        ensures
            r.0 == word_bounds(buffer@, position as int).0,
            r.1 == word_bounds(buffer@, position as int).1,
    {
        let chars = buffer.chars();
        let mut kinds: Vec<CharClass> = Vec::new();
        let mut i: usize = 0;
        while i < chars.len()
            invariant
                i <= chars@.len(),
                kinds@ == classes(chars@.take(i as int)),
            decreases chars.len() - i,
        {
            kinds.push(classify(chars[i]));
            i += 1;
            proof {
                assert(kinds@ =~= classes(chars@.take(i as int)));
            }
        }
        proof {
            assert(chars@.take(i as int) =~= chars@);
        }
        segment_at(&kinds, position)
    }

    /// To the next segment boundary; see `word_right_index`.
    pub fn move_word_right(&mut self, buffer: &TextBuffer)
        ensures
            final(self).index == word_right_index(buffer@, old(self).index as int),
            final(self).goal == CursorGoal::Unset,
            old(self).index <= buffer@.len() ==> old(self).index <= final(self).index
                <= buffer@.len(),
    {
        self.goal = CursorGoal::Unset;
        let text_len = buffer.len();
        if self.index >= text_len {
            return;
        }
        let (current_line, _) = buffer.char_to_line_col(self.index);
        let line_end_index = buffer.line_end(current_line);
        let (_start, end) = Self::find_word_boundaries(buffer, self.index);
        proof {
            lemma_word_bounds(buffer@, self.index as int);
            lemma_within_line(buffer@, self.index as int);
        }
        self.index = if end < line_end_index {
            end
        } else {
            line_end_index
        };
    }

    /// Word characters: alphanumeric ones and underscore.
    pub fn is_word_char(ch: char) -> (r: bool)
        ensures
            r == is_word(ch),
    {
        char_is_alphanumeric(ch) || ch == '_'
    }
}

} // verus!
