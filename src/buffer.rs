//! A character-indexed text buffer kept in a rope.
use crate::lines::{
    clamp_index, lemma_line_shape, lemma_within_line, line_col_of, line_count, line_end, line_of,
    line_start, line_text_len, offset_of,
};
use ropey::Rope;
use vstd::prelude::*;

verus! {

#[verifier::external_type_specification]
#[verifier::external_body]
pub struct ExRope(Rope);

/// The characters that a rope holds.
pub uninterp spec fn rope_chars(r: Rope) -> Seq<char>;

/// Relies on `Rope::new`: a new rope is empty.
#[verifier::external_body]
fn rope_new() -> (r: Rope)
    ensures
        rope_chars(r) == Seq::<char>::empty(),
{
    Rope::new()
}

/// Relies on `Rope::len_chars`: the number of characters.
#[verifier::external_body]
fn rope_len_chars(r: &Rope) -> (n: usize)
    ensures
        n == rope_chars(*r).len(),
{
    r.len_chars()
}

/// Relies on `Rope::len_lines`: with only `'\n'` as a line break (the
/// crate's line features off), one more than the number of newlines.
#[verifier::external_body]
fn rope_len_lines(r: &Rope) -> (n: usize)
    ensures
        n == line_count(rope_chars(*r)),
{
    r.len_lines()
}

/// Relies on `Rope::char_to_line`: the line endings before `char_idx`.
#[verifier::external_body]
fn rope_char_to_line(r: &Rope, char_idx: usize) -> (l: usize)
    requires
        char_idx <= rope_chars(*r).len(),
    ensures
        l == line_of(rope_chars(*r), char_idx as int),
{
    r.char_to_line(char_idx)
}

/// Relies on `Rope::line_to_char`: the offset where line `line_idx`
/// starts, the length for the line just past the last one.
#[verifier::external_body]
fn rope_line_to_char(r: &Rope, line_idx: usize) -> (i: usize)
    requires
        line_idx <= line_count(rope_chars(*r)),
    ensures
        i == line_start(rope_chars(*r), line_idx as nat),
{
    r.line_to_char(line_idx)
}

/// Relies on `Rope::line` and `RopeSlice`'s `to_string`: line `line_idx`
/// with its line break.
#[verifier::external_body]
fn rope_line(r: &Rope, line_idx: usize) -> (t: String)
    requires
        line_idx < line_count(rope_chars(*r)),
    ensures
        t@ == rope_chars(*r).subrange(
            line_start(rope_chars(*r), line_idx as nat),
            line_end(rope_chars(*r), line_idx as nat),
        ),
{
    r.line(line_idx).to_string()
}

/// Relies on `Rope::slice` and `RopeSlice`'s `to_string`: the characters
/// in `start..end`.
#[verifier::external_body]
fn rope_slice(r: &Rope, start: usize, end: usize) -> (t: String)
    requires
        start <= end <= rope_chars(*r).len(),
    ensures
        t@ == rope_chars(*r).subrange(start as int, end as int),
{
    r.slice(start..end).to_string()
}

/// Relies on `Rope`'s `to_string`: the whole text.
#[verifier::external_body]
fn rope_to_string(r: &Rope) -> (t: String)
    ensures
        t@ == rope_chars(*r),
{
    r.to_string()
}

/// Relies on `Rope::chars`: the characters in order.
#[verifier::external_body]
fn rope_collect_chars(r: &Rope) -> (v: Vec<char>)
    ensures
        v@ == rope_chars(*r),
{
    r.chars().collect()
}

/// Relies on `Rope::insert`: `text` goes in at `char_idx`.
#[verifier::external_body]
fn rope_insert(r: &mut Rope, char_idx: usize, text: &str)
    requires
        char_idx <= rope_chars(*old(r)).len(),
    ensures
        rope_chars(*final(r)) == rope_chars(*old(r)).take(char_idx as int) + text@
            + rope_chars(*old(r)).skip(char_idx as int),
{
    r.insert(char_idx, text)
}

/// Relies on `Rope::remove`: the characters in `start..end` leave.
#[verifier::external_body]
fn rope_remove(r: &mut Rope, start: usize, end: usize)
    requires
        start <= end <= rope_chars(*old(r)).len(),
    ensures
        rope_chars(*final(r)) == rope_chars(*old(r)).take(start as int) + rope_chars(
            *old(r),
        ).skip(end as int),
{
    r.remove(start..end)
}

/// Mutable text addressed by character offsets, never by bytes.
#[derive(Debug)]
pub struct TextBuffer {
    rope: Rope,
}

impl View for TextBuffer {
    type V = Seq<char>;

    closed spec fn view(&self) -> Seq<char> {
        rope_chars(self.rope)
    }
}

impl Default for TextBuffer {
    fn default() -> (b: TextBuffer)
        ensures
            b@ == Seq::<char>::empty(),
    {
        TextBuffer::new()
    }
}

impl TextBuffer {
    /// An empty buffer.
    pub fn new() -> (b: TextBuffer)
        ensures
            b@ == Seq::<char>::empty(),
    {
        TextBuffer { rope: rope_new() }
    }

    /// Inserts `content` at character offset `index`, clamped to the length.
    pub fn insert(&mut self, index: usize, content: &str)
        ensures
            final(self)@ == old(self)@.take(clamp_index(old(self)@, index as int)) + content@
                + old(self)@.skip(clamp_index(old(self)@, index as int)),
            final(self)@.len() <= usize::MAX,
    {
        let n = rope_len_chars(&self.rope);
        let at = if index < n {
            index
        } else {
            n
        };
        rope_insert(&mut self.rope, at, content);
        let _ = rope_len_chars(&self.rope);
    }

    /// Removes `len` characters from `index` on, clamped to what the buffer
    /// holds.
    pub fn delete(&mut self, index: usize, len: usize)
        ensures
            final(self)@ == old(self)@.take(clamp_index(old(self)@, index as int)) + old(
                self,
            )@.skip(clamp_index(old(self)@, index as int + len as int)),
    {
        let n = rope_len_chars(&self.rope);
        let start = if index < n {
            index
        } else {
            n
        };
        let end = if len < n - start {
            start + len
        } else {
            n
        };
        rope_remove(&mut self.rope, start, end);
    }

    /// The whole text.
    pub fn as_str(&self) -> (t: String)
        ensures
            t@ == self@,
    {
        rope_to_string(&self.rope)
    }

    /// The characters of the text, in order.
    pub fn chars(&self) -> (v: Vec<char>)
        ensures
            v@ == self@,
    {
        rope_collect_chars(&self.rope)
    }

    /// The characters from `start` to `end`, both clamped to the length.
    pub fn slice(&self, start: usize, end: usize) -> (t: String)
        ensures
            t@ == self@.subrange(
                clamp_index(self@, start as int),
                if clamp_index(self@, start as int) <= clamp_index(self@, end as int) {
                    clamp_index(self@, end as int)
                } else {
                    clamp_index(self@, start as int)
                },
            ),
    {
        let n = rope_len_chars(&self.rope);
        let a = if start < n {
            start
        } else {
            n
        };
        let b = if end < a {
            a
        } else if end < n {
            end
        } else {
            n
        };
        rope_slice(&self.rope, a, b)
    }

    /// Number of characters.
    pub fn len(&self) -> (n: usize)
        ensures
            n == self@.len(),
    {
        rope_len_chars(&self.rope)
    }

    pub fn is_empty(&self) -> (r: bool)
        ensures
            r == (self@.len() == 0),
    {
        rope_len_chars(&self.rope) == 0
    }

    /// Number of newline-delimited lines, at least one.
    pub fn line_count(&self) -> (n: usize)
        ensures
            n == line_count(self@),
            n >= 1,
    {
        rope_len_lines(&self.rope)
    }

    /// Line `line_idx` with its trailing newline, if there is such a line.
    pub fn line(&self, line_idx: usize) -> (r: Option<String>)
        ensures
            r is None <==> line_idx >= line_count(self@),
            r matches Some(t) ==> t@ == self@.subrange(
                line_start(self@, line_idx as nat),
                line_end(self@, line_idx as nat),
            ),
    {
        if line_idx < rope_len_lines(&self.rope) {
            Some(rope_line(&self.rope, line_idx))
        } else {
            None
        }
    }

    /// Offset where line `line` starts; the length for a line past the last.
    pub fn line_start(&self, line: usize) -> (i: usize)
        ensures
            i == if line < line_count(self@) {
                line_start(self@, line as nat)
            } else {
                self@.len() as int
            },
    {
        let n = rope_len_lines(&self.rope);
        if line < n {
            rope_line_to_char(&self.rope, line)
        } else {
            rope_len_chars(&self.rope)
        }
    }

    /// Offset just past line `line` (its newline included), for a line
    /// that exists.
    pub fn line_end(&self, line: usize) -> (i: usize)
        requires
            line < line_count(self@),
        ensures
            i == line_end(self@, line as nat),
            line_start(self@, line as nat) <= i <= self@.len(),
    {
        proof {
            lemma_line_shape(self@, line as nat);
        }
        let _ = rope_len_lines(&self.rope);
        rope_line_to_char(&self.rope, line + 1)
    }

    /// Length of line `line` without its trailing newline, for a line that
    /// exists.
    pub fn line_len(&self, line: usize) -> (n: usize)
        requires
            line < line_count(self@),
        ensures
            n == line_text_len(self@, line as nat),
    {
        proof {
            lemma_line_shape(self@, line as nat);
        }
        let n = rope_len_lines(&self.rope);
        let a = rope_line_to_char(&self.rope, line);
        let b = rope_line_to_char(&self.rope, line + 1);
        if line + 1 < n {
            b - a - 1
        } else {
            b - a
        }
    }

    /// `(line, column)` of `char_idx`, which is clamped to the length.
    pub fn char_to_line_col(&self, char_idx: usize) -> (r: (usize, usize))
        ensures
            r.0 == line_col_of(self@, char_idx as int).0,
            r.1 == line_col_of(self@, char_idx as int).1,
            r.0 < line_count(self@),
    {
        let n = rope_len_chars(&self.rope);
        let c = if char_idx < n {
            char_idx
        } else {
            n
        };
        proof {
            lemma_within_line(self@, c as int);
        }
        let line = rope_char_to_line(&self.rope, c);
        let start = rope_line_to_char(&self.rope, line);
        (line, c - start)
    }

    /// Offset of `(line, col)`: the length for a line past the last, else
    /// the column clamped to the line, its newline included.
    pub fn line_col_to_char(&self, line: usize, col: usize) -> (i: usize)
        ensures
            i == offset_of(self@, line as nat, col as int),
    {
        if line >= rope_len_lines(&self.rope) {
            return rope_len_chars(&self.rope);
        }
        proof {
            lemma_line_shape(self@, line as nat);
        }
        let start = rope_line_to_char(&self.rope, line);
        let end = rope_line_to_char(&self.rope, line + 1);
        if col <= end - start {
            start + col
        } else {
            end
        }
    }
}

} // verus!
