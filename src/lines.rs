//! The line model of a text: a text is a sequence of characters, and its
//! lines are the segments delimited by `'\n'`. A line owns its trailing
//! newline; the last line has none.
use vstd::prelude::*;

verus! {

/// Number of newline characters in `s`.
pub open spec fn count_nl(s: Seq<char>) -> nat
    decreases s.len(),
{
    if s.len() == 0 {
        0
    } else {
        count_nl(s.drop_last()) + if s.last() == '\n' {
            1nat
        } else {
            0nat
        }
    }
}

/// The line that holds character offset `i`: the newlines before it.
pub open spec fn line_of(s: Seq<char>, i: int) -> nat {
    count_nl(s.take(i))
}

/// Number of lines of `s`; an empty text has one empty line.
pub open spec fn line_count(s: Seq<char>) -> nat {
    count_nl(s) + 1
}

/// The first offset at or after `k` that has `l` newlines before it, or the
/// length of `s` when there is none.
pub open spec fn first_at_line(s: Seq<char>, l: nat, k: int) -> int
    decreases s.len() - k,
{
    if k >= s.len() || line_of(s, k) >= l {
        k
    } else {
        first_at_line(s, l, k + 1)
    }
}

/// Offset of the first character of line `l`; `s.len()` for the line just
/// past the last one.
pub open spec fn line_start(s: Seq<char>, l: nat) -> int {
    first_at_line(s, l, 0)
}

/// Offset just past line `l`, its newline included.
pub open spec fn line_end(s: Seq<char>, l: nat) -> int {
    line_start(s, l + 1)
}

/// Length of line `l` without its trailing newline.
pub open spec fn line_text_len(s: Seq<char>, l: nat) -> int {
    line_end(s, l) - line_start(s, l) - if l + 1 < line_count(s) {
        1int
    } else {
        0int
    }
}

/// An offset clamped to the text.
pub open spec fn clamp_index(s: Seq<char>, i: int) -> int {
    if i < s.len() {
        i
    } else {
        s.len() as int
    }
}

/// `(line, column)` of an offset, the offset clamped to the text first.
pub open spec fn line_col_of(s: Seq<char>, i: int) -> (nat, int) {
    let c = clamp_index(s, i);
    (line_of(s, c), c - line_start(s, line_of(s, c)))
}

/// The offset of `(line, col)`: the text's length for a line past the last
/// one, else the column clamped to the line, its newline included.
pub open spec fn offset_of(s: Seq<char>, line: nat, col: int) -> int {
    if line >= line_count(s) {
        s.len() as int
    } else if line_start(s, line) + col <= line_end(s, line) {
        line_start(s, line) + col
    } else {
        line_end(s, line)
    }
}

pub proof fn lemma_line_of_step(s: Seq<char>, k: int)
    requires
        0 <= k < s.len(),
    ensures
        line_of(s, k + 1) == line_of(s, k) + if s[k] == '\n' {
            1nat
        } else {
            0nat
        },
{
    assert(s.take(k + 1).drop_last() =~= s.take(k));
    assert(s.take(k + 1).last() == s[k]);
}

pub proof fn lemma_line_of_zero_full(s: Seq<char>)
    ensures
        line_of(s, 0) == 0,
        line_of(s, s.len() as int) == count_nl(s),
{
    assert(s.take(0) =~= Seq::<char>::empty());
    assert(s.take(s.len() as int) =~= s);
}

pub proof fn lemma_line_of_mono(s: Seq<char>, a: int, b: int)
    requires
        0 <= a <= b <= s.len(),
    ensures
        line_of(s, a) <= line_of(s, b),
        line_of(s, b) <= line_of(s, a) + (b - a),
    decreases b - a,
{
    if a < b {
        lemma_line_of_mono(s, a, b - 1);
        lemma_line_of_step(s, b - 1);
    }
}

proof fn lemma_first_at_line(s: Seq<char>, l: nat, k: int)
    requires
        0 <= k <= s.len(),
    ensures
        k <= first_at_line(s, l, k) <= s.len(),
        first_at_line(s, l, k) == s.len() || line_of(s, first_at_line(s, l, k)) >= l,
        forall|j: int| k <= j < first_at_line(s, l, k) ==> line_of(s, j) < l,
    decreases s.len() - k,
{
    if k < s.len() && line_of(s, k) < l {
        lemma_first_at_line(s, l, k + 1);
    }
}

/// Where line `l` starts: every offset before it lies on an earlier line,
/// and the offset itself lies on line `l` unless `l` is past the last line.
pub proof fn lemma_line_start(s: Seq<char>, l: nat)
    ensures
        0 <= line_start(s, l) <= s.len(),
        forall|j: int| 0 <= j < line_start(s, l) ==> line_of(s, j) < l,
        l <= count_nl(s) ==> line_of(s, line_start(s, l)) == l,
        l <= count_nl(s) && l > 0 ==> line_start(s, l) > 0 && s[line_start(s, l) - 1] == '\n',
        l > count_nl(s) ==> line_start(s, l) == s.len(),
{
    lemma_first_at_line(s, l, 0);
    lemma_line_of_zero_full(s);
    let r = line_start(s, l);
    if l <= count_nl(s) {
        if r == s.len() {
            assert(line_of(s, r) >= l);
        }
        lemma_line_of_mono(s, r, s.len() as int);
        if l > 0 {
            assert(r > 0);
            lemma_line_of_step(s, r - 1);
        }
    } else {
        if r < s.len() {
            lemma_line_of_mono(s, r, s.len() as int);
        }
    }
}

/// Lines start in order.
pub proof fn lemma_line_start_mono(s: Seq<char>, a: nat, b: nat)
    requires
        a <= b,
    ensures
        line_start(s, a) <= line_start(s, b),
{
    lemma_line_start(s, a);
    lemma_line_start(s, b);
    lemma_first_at_line(s, b, 0);
    let rb = line_start(s, b);
    if rb < line_start(s, a) {
        assert(line_of(s, rb) < a);
    }
}

/// The offset `i` lies within its own line.
pub proof fn lemma_within_line(s: Seq<char>, i: int)
    requires
        0 <= i <= s.len(),
    ensures
        line_of(s, i) <= count_nl(s),
        line_start(s, line_of(s, i)) <= i <= line_end(s, line_of(s, i)),
        i < line_end(s, line_of(s, i)) || i == s.len(),
{
    let l = line_of(s, i);
    lemma_line_of_zero_full(s);
    lemma_line_of_mono(s, i, s.len() as int);
    lemma_line_start(s, l);
    lemma_line_start(s, l + 1);
    lemma_first_at_line(s, l, 0);
    lemma_first_at_line(s, l + 1, 0);
    let e = line_end(s, l);
    if e <= i && i < s.len() {
        if e < i {
            lemma_line_of_mono(s, e, i);
        }
        assert(line_of(s, e) >= l + 1);
    }
}

/// A line other than the last ends with a newline, and no other newline
/// stands in a line.
pub proof fn lemma_line_shape(s: Seq<char>, l: nat)
    requires
        l < line_count(s),
    ensures
        line_start(s, l) <= line_end(s, l) <= s.len(),
        l + 1 < line_count(s) ==> line_end(s, l) > line_start(s, l) && s[line_end(s, l) - 1]
            == '\n',
        l + 1 == line_count(s) ==> line_end(s, l) == s.len(),
        0 <= line_text_len(s, l),
        forall|j: int|
            line_start(s, l) <= j < line_start(s, l) + line_text_len(s, l) ==> s[j] != '\n',
        forall|j: int|
            line_start(s, l) <= j <= line_start(s, l) + line_text_len(s, l) ==> line_of(s, j)
                == l,
{
    lemma_line_start(s, l);
    lemma_line_start(s, l + 1);
    lemma_line_start_mono(s, l, l + 1);
    let a = line_start(s, l);
    let b = line_end(s, l);
    let n = line_text_len(s, l);
    if l + 1 < line_count(s) {
        assert(b > a) by {
            if b == a {
                assert(line_of(s, b) == l + 1);
            }
        }
    }
    assert forall|j: int| a <= j <= a + n implies line_of(s, j) == l by {
        lemma_line_of_mono(s, a, j);
        if j < b {
        } else {
            assert(j == b && l + 1 == line_count(s));
            lemma_line_of_zero_full(s);
            lemma_line_of_mono(s, j, s.len() as int);
        }
    }
    assert forall|j: int| a <= j < a + n implies s[j] != '\n' by {
        lemma_line_of_step(s, j);
    }
}

/// Converting an offset to `(line, column)` and back gives the offset.
pub proof fn lemma_round_trip(s: Seq<char>, i: int)
    requires
        0 <= i <= s.len(),
    ensures
        offset_of(s, line_col_of(s, i).0, line_col_of(s, i).1) == i,
{
    lemma_within_line(s, i);
}

} // verus!
