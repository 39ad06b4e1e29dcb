//! The editor: a buffer, a cursor and an optional selection, with the
//! editing operations that keep them consistent.
use crate::buffer::TextBuffer;
use crate::cursor::{
    down_index, end_index, goal_column, home_index, up_index, word_left_index, word_right_index,
    Cursor, CursorGoal,
};
use crate::lines::{clamp_index, line_col_of, line_end, line_start};
use crate::segment::word_bounds;
use std::ops::Range;
use vstd::prelude::*;

verus! {

/// Relies on `String`'s `From<char>`: a string of the one character.
#[verifier::external_body]
fn char_string(ch: char) -> (s: String)
    ensures
        s@ == seq![ch],
{
    String::from(ch)
}

/// A selection between two offsets, `start <= end`, that remembers which
/// end moves.
#[derive(Clone, Copy, Debug, PartialEq, Eq, Structural)]
pub struct Selection {
    pub start: usize,
    pub end: usize,
    /// True if the selection was made right to left.
    pub reversed: bool,
}

/// The selection anchored at `tail` whose moving end is `head`.
pub open spec fn selection_of(tail: usize, head: usize) -> Selection {
    Selection {
        start: if tail <= head {
            tail
        } else {
            head
        },
        end: if tail <= head {
            head
        } else {
            tail
        },
        reversed: tail > head,
    }
}

impl Selection {
    pub open spec fn wf(&self) -> bool {
        self.start <= self.end
    }

    pub open spec fn spec_head(&self) -> usize {
        if self.reversed {
            self.start
        } else {
            self.end
        }
    }

    pub open spec fn spec_tail(&self) -> usize {
        if self.reversed {
            self.end
        } else {
            self.start
        }
    }

    /// The selection from `start` to `end`, in either order.
    pub fn new(start: usize, end: usize) -> (s: Selection)
        ensures
            s == selection_of(start, end),
            s.wf(),
            s.spec_tail() == start,
            s.spec_head() == end,
    {
        Selection {
            start: if start <= end {
                start
            } else {
                end
            },
            end: if start <= end {
                end
            } else {
                start
            },
            reversed: start > end,
        }
    }

    /// `start..end`.
    pub fn range(&self) -> (r: Range<usize>)
        ensures
            r.start == self.start,
            r.end == self.end,
    {
        self.start..self.end
    }

    pub fn is_empty(&self) -> (r: bool)
        ensures
            r == (self.start == self.end),
    {
        self.start == self.end
    }

    /// The moving end.
    pub fn head(&self) -> (r: usize)
        ensures
            r == self.spec_head(),
    {
        if self.reversed {
            self.start
        } else {
            self.end
        }
    }

    /// The anchored end.
    pub fn tail(&self) -> (r: usize)
        ensures
            r == self.spec_tail(),
    {
        if self.reversed {
            self.end
        } else {
            self.start
        }
    }
}

/// What a rendering layer reads of an editor.
#[derive(Clone, Debug)]
pub struct EditorState {
    pub cursor_index: usize,
    pub selection_range: Option<Range<usize>>,
}

/// A buffer, a cursor in it and an optional selection.
pub struct Editor {
    pub buffer: TextBuffer,
    pub cursor: Cursor,
    pub selection: Option<Selection>,
}

/// The text after removing `start..end`, both clamped to the text.
pub open spec fn cut_range(s: Seq<char>, start: int, end: int) -> Seq<char> {
    s.take(clamp_index(s, start)) + s.skip(clamp_index(s, end))
}

/// The characters in `start..end`, both clamped to the text.
pub open spec fn range_text(s: Seq<char>, start: int, end: int) -> Seq<char> {
    s.subrange(clamp_index(s, start), clamp_index(s, end))
}

impl Default for Editor {
    fn default() -> (e: Editor)
        ensures
            e.wf(),
            e.buffer@ == Seq::<char>::empty(),
            e.cursor.index == 0,
            e.cursor.goal == CursorGoal::Unset,
            e.selection is None,
    {
        Editor::new()
    }
}

impl Editor {
    /// The cursor lies within the buffer and a selection is ordered.
    pub open spec fn wf(&self) -> bool {
        &&& self.cursor.index <= self.buffer@.len()
        &&& self.selection matches Some(s) ==> s.wf()
    }

    /// The anchor that extending the selection keeps: the selection's tail,
    /// or the cursor when nothing is selected.
    pub open spec fn anchor(&self) -> usize {
        match self.selection {
            Some(s) => s.spec_tail(),
            None => self.cursor.index,
        }
    }

    /// An empty editor.
    pub fn new() -> (e: Editor)
        ensures
            e.wf(),
            e.buffer@ == Seq::<char>::empty(),
            e.cursor.index == 0,
            e.cursor.goal == CursorGoal::Unset,
            e.selection is None,
    {
        Editor { buffer: TextBuffer::new(), cursor: Cursor::new(), selection: None }
    }

    pub fn has_selection(&self) -> (r: bool)
        ensures
            r == self.selection is Some,
    {
        self.selection.is_some()
    }

    /// The selected range, if any.
    pub fn selection_range(&self) -> (r: Option<Range<usize>>)
        ensures
            r is Some <==> self.selection is Some,
            r matches Some(g) ==> g.start == self.selection->0.start && g.end
                == self.selection->0.end,
    {
        match &self.selection {
            Some(s) => Some(s.range()),
            None => None,
        }
    }

    /// Selects from `start` to `end`, in either order.
    pub fn select_range(&mut self, start: usize, end: usize)
        requires
            old(self).wf(),
        ensures
            final(self).wf(),
            final(self).selection == Some(selection_of(start, end)),
            final(self).buffer@ == old(self).buffer@,
            final(self).cursor == old(self).cursor,
    {
        self.selection = Some(Selection::new(start, end));
    }

    /// Selects the whole buffer.
    pub fn select_all(&mut self)
        requires
            old(self).wf(),
        ensures
            final(self).wf(),
            final(self).selection == Some(selection_of(0, old(self).buffer@.len() as usize)),
            final(self).buffer@ == old(self).buffer@,
            final(self).cursor == old(self).cursor,
    {
        self.selection = Some(Selection::new(0, self.buffer.len()));
    }

    pub fn clear_selection(&mut self)
        requires
            old(self).wf(),
        ensures
            final(self).wf(),
            final(self).selection is None,
            final(self).buffer@ == old(self).buffer@,
            final(self).cursor == old(self).cursor,
    {
        self.selection = None;
    }

    /// Removes the selected text and returns it; the cursor goes to where it
    /// began. Without a selection nothing changes.
    pub fn delete_selection(&mut self) -> (r: Option<String>)
        requires
            old(self).wf(),
        ensures
            final(self).wf(),
            match old(self).selection {
                None => {
                    &&& r is None
                    &&& final(self).buffer@ == old(self).buffer@
                    &&& final(self).cursor == old(self).cursor
                    &&& final(self).selection is None
                },
                Some(sel) => {
                    &&& r matches Some(t) && t@ == range_text(
                        old(self).buffer@,
                        sel.start as int,
                        sel.end as int,
                    )
                    &&& final(self).buffer@ == cut_range(
                        old(self).buffer@,
                        sel.start as int,
                        sel.end as int,
                    )
                    &&& final(self).cursor.index == clamp_index(old(self).buffer@, sel.start as int)
                    &&& final(self).cursor.goal == CursorGoal::Unset
                    &&& final(self).selection is None
                },
            },
    {
        match self.selection {
            Some(sel) => {
                let text = self.buffer.slice(sel.start, sel.end);
                let len = self.buffer.len();
                let start = if sel.start < len {
                    sel.start
                } else {
                    len
                };
                self.buffer.delete(sel.start, sel.end - sel.start);
                self.cursor.index = start;
                self.cursor.goal = CursorGoal::Unset;
                self.selection = None;
                Some(text)
            },
            None => None,
        }
    }

    /// The selected text, if any.
    pub fn get_selected_text(&self) -> (r: Option<String>)
        requires
            self.wf(),
        ensures
            r is Some <==> self.selection is Some,
            r matches Some(t) ==> t@ == range_text(
                self.buffer@,
                self.selection->0.start as int,
                self.selection->0.end as int,
            ),
    {
        match self.selection {
            Some(sel) => Some(self.buffer.slice(sel.start, sel.end)),
            None => None,
        }
    }

    /// Inserts `text` at the cursor and moves the cursor past it.
    fn insert_text(&mut self, text: &str)
        requires
            old(self).wf(),
        ensures
            final(self).wf(),
            final(self).buffer@ == old(self).buffer@.take(old(self).cursor.index as int) + text@
                + old(self).buffer@.skip(old(self).cursor.index as int),
            final(self).cursor.index == old(self).cursor.index + text@.len(),
            final(self).cursor.goal == CursorGoal::Unset,
            final(self).selection == old(self).selection,
    {
        let before = self.buffer.len();
        self.buffer.insert(self.cursor.index, text);
        let after = self.buffer.len();
        self.cursor.index = self.cursor.index + (after - before);
        self.cursor.goal = CursorGoal::Unset;
    }

    /// Replaces the selection, if any, with `replacement`; the cursor ends
    /// after the inserted text.
    pub fn replace_selection(&mut self, replacement: &str)
        requires
            old(self).wf(),
        ensures
            final(self).wf(),
            final(self).buffer@ == old(self).replaced(replacement@),
            final(self).cursor.index == old(self).insert_point() + replacement@.len(),
            final(self).cursor.goal == CursorGoal::Unset,
            final(self).selection is None,
    {
        if self.selection.is_some() {
            self.delete_selection();
        }
        self.insert_text(replacement);
    }

    /// Where text typed over the selection goes: the selection's clamped
    /// start, or the cursor.
    pub open spec fn insert_point(&self) -> int {
        match self.selection {
            Some(sel) => clamp_index(self.buffer@, sel.start as int),
            None => self.cursor.index as int,
        }
    }

    /// The text after typing `t` over the selection, or at the cursor.
    pub open spec fn replaced(&self, t: Seq<char>) -> Seq<char> {
        let base = match self.selection {
            Some(sel) => cut_range(self.buffer@, sel.start as int, sel.end as int),
            None => self.buffer@,
        };
        base.take(self.insert_point()) + t + base.skip(self.insert_point())
    }

    /// Selects the segment at `index`.
    pub fn select_word_at(&mut self, index: usize)
        requires
            old(self).wf(),
        ensures
            final(self).wf(),
            final(self).selection == Some(
                selection_of(
                    word_bounds(old(self).buffer@, index as int).0 as usize,
                    word_bounds(old(self).buffer@, index as int).1 as usize,
                ),
            ),
            final(self).buffer@ == old(self).buffer@,
            final(self).cursor == old(self).cursor,
    {
        let (start, end) = Cursor::find_word_boundaries(&self.buffer, index);
        self.select_range(start, end);
    }

    /// Selects the line that holds `index`, its newline included.
    pub fn select_line_at(&mut self, index: usize)
        requires
            old(self).wf(),
        ensures
            final(self).wf(),
            final(self).selection == Some(
                selection_of(
                    line_start(
                        old(self).buffer@,
                        line_col_of(old(self).buffer@, index as int).0,
                    ) as usize,
                    line_end(old(self).buffer@, line_col_of(old(self).buffer@, index as int).0)
                        as usize,
                ),
            ),
            final(self).buffer@ == old(self).buffer@,
            final(self).cursor == old(self).cursor,
    {
        let (line, _col) = self.buffer.char_to_line_col(index);
        let start = self.buffer.line_start(line);
        let end = self.buffer.line_end(line);
        self.select_range(start, end);
    }

    /// The selection's tail, or the cursor when nothing is selected.
    fn selection_anchor(&self) -> (a: usize)
        ensures
            a == self.anchor(),
    {
        match self.selection {
            Some(sel) => sel.tail(),
            None => self.cursor.index,
        }
    }

    /// Extends the selection one character left.
    pub fn extend_selection_left(&mut self)
        requires
            old(self).wf(),
        ensures
            final(self).wf(),
            final(self).buffer@ == old(self).buffer@,
            final(self).cursor.index == if old(self).cursor.index > 0 {
                old(self).cursor.index - 1
            } else {
                0
            },
            final(self).cursor.goal == CursorGoal::Unset,
            final(self).selection == Some(
                selection_of(old(self).anchor(), final(self).cursor.index),
            ),
    {
        let tail = self.selection_anchor();
        self.cursor.move_left();
        self.selection = Some(Selection::new(tail, self.cursor.index));
    }

    /// Extends the selection one character right.
    pub fn extend_selection_right(&mut self)
        requires
            old(self).wf(),
        ensures
            final(self).wf(),
            final(self).buffer@ == old(self).buffer@,
            final(self).cursor.index == if old(self).cursor.index < old(self).buffer@.len() {
                old(self).cursor.index + 1
            } else {
                old(self).cursor.index as int
            },
            final(self).cursor.goal == CursorGoal::Unset,
            final(self).selection == Some(
                selection_of(old(self).anchor(), final(self).cursor.index),
            ),
    {
        let tail = self.selection_anchor();
        let len = self.buffer.len();
        self.cursor.move_right(len);
        self.selection = Some(Selection::new(tail, self.cursor.index));
    }

    /// Extends the selection one line up.
    pub fn extend_selection_up(&mut self)
        requires
            old(self).wf(),
        ensures
            final(self).wf(),
            final(self).buffer@ == old(self).buffer@,
            final(self).cursor.index == up_index(
                old(self).buffer@,
                old(self).cursor.index as int,
                goal_column(old(self).buffer@, old(self).cursor),
            ),
            final(self).cursor.goal == CursorGoal::Column(
                goal_column(old(self).buffer@, old(self).cursor) as usize,
            ),
            final(self).selection == Some(
                selection_of(old(self).anchor(), final(self).cursor.index),
            ),
    {
        let tail = self.selection_anchor();
        self.cursor.move_up(&self.buffer);
        self.selection = Some(Selection::new(tail, self.cursor.index));
    }

    /// Extends the selection one line down.
    pub fn extend_selection_down(&mut self)
        requires
            old(self).wf(),
        ensures
            final(self).wf(),
            final(self).buffer@ == old(self).buffer@,
            final(self).cursor.index == down_index(
                old(self).buffer@,
                old(self).cursor.index as int,
                goal_column(old(self).buffer@, old(self).cursor),
            ),
            final(self).cursor.goal == CursorGoal::Column(
                goal_column(old(self).buffer@, old(self).cursor) as usize,
            ),
            final(self).selection == Some(
                selection_of(old(self).anchor(), final(self).cursor.index),
            ),
    {
        let tail = self.selection_anchor();
        self.cursor.move_down(&self.buffer);
        self.selection = Some(Selection::new(tail, self.cursor.index));
    }

    /// Extends the selection to the start of the current line.
    pub fn extend_selection_to_line_start(&mut self)
        requires
            old(self).wf(),
        ensures
            final(self).wf(),
            final(self).buffer@ == old(self).buffer@,
            final(self).cursor.index == home_index(
                old(self).buffer@,
                old(self).cursor.index as int,
            ),
            final(self).cursor.goal == CursorGoal::Unset,
            final(self).selection == Some(
                selection_of(old(self).anchor(), final(self).cursor.index),
            ),
    {
        let tail = self.selection_anchor();
        self.cursor.move_to_line_start(&self.buffer);
        self.selection = Some(Selection::new(tail, self.cursor.index));
    }

    /// Extends the selection to the end of the current line's text.
    pub fn extend_selection_to_line_end(&mut self)
        requires
            old(self).wf(),
        ensures
            final(self).wf(),
            final(self).buffer@ == old(self).buffer@,
            final(self).cursor.index == end_index(
                old(self).buffer@,
                old(self).cursor.index as int,
            ),
            final(self).cursor.goal == CursorGoal::Unset,
            final(self).selection == Some(
                selection_of(old(self).anchor(), final(self).cursor.index),
            ),
    {
        let tail = self.selection_anchor();
        self.cursor.move_to_line_end(&self.buffer);
        self.selection = Some(Selection::new(tail, self.cursor.index));
    }

    /// Extends the selection to the start of the buffer.
    pub fn extend_selection_to_buffer_start(&mut self)
        requires
            old(self).wf(),
        ensures
            final(self).wf(),
            final(self).buffer@ == old(self).buffer@,
            final(self).cursor.index == 0,
            final(self).cursor.goal == CursorGoal::Unset,
            final(self).selection == Some(
                selection_of(old(self).anchor(), final(self).cursor.index),
            ),
    {
        let tail = self.selection_anchor();
        self.cursor.move_to_buffer_start();
        self.selection = Some(Selection::new(tail, self.cursor.index));
    }

    /// Extends the selection to the end of the buffer.
    pub fn extend_selection_to_buffer_end(&mut self)
        requires
            old(self).wf(),
        ensures
            final(self).wf(),
            final(self).buffer@ == old(self).buffer@,
            final(self).cursor.index == old(self).buffer@.len(),
            final(self).cursor.goal == CursorGoal::Unset,
            final(self).selection == Some(
                selection_of(old(self).anchor(), final(self).cursor.index),
            ),
    {
        let tail = self.selection_anchor();
        self.cursor.move_to_buffer_end(&self.buffer);
        self.selection = Some(Selection::new(tail, self.cursor.index));
    }

    /// Extends the selection one segment left.
    pub fn extend_selection_word_left(&mut self)
        requires
            old(self).wf(),
        ensures
            final(self).wf(),
            final(self).buffer@ == old(self).buffer@,
            final(self).cursor.index == word_left_index(
                old(self).buffer@,
                old(self).cursor.index as int,
            ),
            final(self).cursor.goal == CursorGoal::Unset,
            final(self).selection == Some(
                selection_of(old(self).anchor(), final(self).cursor.index),
            ),
    {
        let tail = self.selection_anchor();
        self.cursor.move_word_left(&self.buffer);
        self.selection = Some(Selection::new(tail, self.cursor.index));
    }

    /// Extends the selection one segment right.
    pub fn extend_selection_word_right(&mut self)
        requires
            old(self).wf(),
        ensures
            final(self).wf(),
            final(self).buffer@ == old(self).buffer@,
            final(self).cursor.index == word_right_index(
                old(self).buffer@,
                old(self).cursor.index as int,
            ),
            final(self).cursor.goal == CursorGoal::Unset,
            final(self).selection == Some(
                selection_of(old(self).anchor(), final(self).cursor.index),
            ),
    {
        let tail = self.selection_anchor();
        self.cursor.move_word_right(&self.buffer);
        self.selection = Some(Selection::new(tail, self.cursor.index));
    }

    /// The selected text, for a clipboard; nothing changes.
    pub fn copy(&self) -> (r: Option<String>)
        requires
            self.wf(),
        ensures
            r is Some <==> self.selection is Some,
            r matches Some(t) ==> t@ == range_text(
                self.buffer@,
                self.selection->0.start as int,
                self.selection->0.end as int,
            ),
    {
        self.get_selected_text()
    }

    /// Removes the selected text and returns it, as `delete_selection` does.
    pub fn cut(&mut self) -> (r: Option<String>)
        requires
            old(self).wf(),
        ensures
            final(self).wf(),
            match old(self).selection {
                None => {
                    &&& r is None
                    &&& final(self).buffer@ == old(self).buffer@
                    &&& final(self).cursor == old(self).cursor
                    &&& final(self).selection is None
                },
                Some(sel) => {
                    &&& r matches Some(t) && t@ == range_text(
                        old(self).buffer@,
                        sel.start as int,
                        sel.end as int,
                    )
                    &&& final(self).buffer@ == cut_range(
                        old(self).buffer@,
                        sel.start as int,
                        sel.end as int,
                    )
                    &&& final(self).cursor.index == clamp_index(old(self).buffer@, sel.start as int)
                    &&& final(self).cursor.goal == CursorGoal::Unset
                    &&& final(self).selection is None
                },
            },
    {
        self.delete_selection()
    }

    /// Inserts `text` over the selection, or at the cursor.
    pub fn paste(&mut self, text: &str)
        requires
            old(self).wf(),
        ensures
            final(self).wf(),
            final(self).buffer@ == old(self).replaced(text@),
            final(self).cursor.index == old(self).insert_point() + text@.len(),
            final(self).cursor.goal == CursorGoal::Unset,
            final(self).selection is None,
    {
        if self.has_selection() {
            self.delete_selection();
        }
        self.insert_text(text);
    }

    /// Inserts `ch` at the cursor and advances the cursor by one character.
    pub fn insert_char(&mut self, ch: char)
        requires
            old(self).wf(),
        ensures
            final(self).wf(),
            final(self).buffer@ == old(self).buffer@.take(old(self).cursor.index as int) + seq![ch]
                + old(self).buffer@.skip(old(self).cursor.index as int),
            final(self).cursor.index == old(self).cursor.index + 1,
            final(self).cursor.goal == CursorGoal::Unset,
            final(self).selection == old(self).selection,
    {
        let s = char_string(ch);
        self.insert_text(s.as_str());
    }

    /// Deletes the character left of the cursor; nothing at offset zero.
    pub fn backspace(&mut self)
        requires
            old(self).wf(),
        ensures
            final(self).wf(),
            final(self).selection == old(self).selection,
            old(self).cursor.index == 0 ==> *final(self) == *old(self),
            old(self).cursor.index > 0 ==> {
                &&& final(self).buffer@ == old(self).buffer@.take(old(self).cursor.index - 1)
                    + old(self).buffer@.skip(old(self).cursor.index as int)
                &&& final(self).cursor.index == old(self).cursor.index - 1
                &&& final(self).cursor.goal == CursorGoal::Unset
            },
    {
        if self.cursor.index > 0 {
            self.cursor.index -= 1;
            self.cursor.goal = CursorGoal::Unset;
            self.buffer.delete(self.cursor.index, 1);
        }
    }

    /// Deletes back to the previous segment boundary, within the current
    /// line unless the cursor is at its first column; see `word_left_index`.
    pub fn delete_word(&mut self)
        requires
            old(self).wf(),
        ensures
            final(self).wf(),
            final(self).selection == old(self).selection,
            old(self).cursor.index == 0 ==> *final(self) == *old(self),
            old(self).cursor.index > 0 ==> {
                let from = word_left_index(old(self).buffer@, old(self).cursor.index as int);
                &&& final(self).buffer@ == old(self).buffer@.take(from) + old(self).buffer@.skip(
                    old(self).cursor.index as int,
                )
                &&& final(self).cursor.index == from
                &&& final(self).cursor.goal == CursorGoal::Unset
            },
    {
        if self.cursor.index == 0 {
            return;
        }
        let start_index = self.cursor.index;
        self.cursor.move_word_left(&self.buffer);
        let delete_from = self.cursor.index;
        self.buffer.delete(delete_from, start_index - delete_from);
        self.cursor.index = delete_from;
    }

    /// Deletes the line that holds the cursor, its newline included; the
    /// cursor goes to where that line started.
    pub fn delete_line(&mut self)
        requires
            old(self).wf(),
        ensures
            final(self).wf(),
            final(self).selection == old(self).selection,
            ({
                let s = old(self).buffer@;
                let line = line_col_of(s, old(self).cursor.index as int).0;
                &&& final(self).buffer@ == s.take(line_start(s, line)) + s.skip(line_end(s, line))
                &&& final(self).cursor.index == line_start(s, line)
                &&& final(self).cursor.goal == CursorGoal::Unset
            }),
    {
        let (line, _col) = self.buffer.char_to_line_col(self.cursor.index);
        let line_start = self.buffer.line_start(line);
        let line_end = self.buffer.line_end(line);
        self.buffer.delete(line_start, line_end - line_start);
        self.cursor.index = line_start;
        self.cursor.goal = CursorGoal::Unset;
    }
}

} // verus!
