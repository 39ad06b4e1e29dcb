//! Word segmentation: a text splits into maximal runs of characters of one
//! class, and a newline is always a run of its own.
use vstd::prelude::*;

verus! {

/// What `char::is_alphanumeric` answers for `c` (Unicode's Alphabetic or
/// Numeric property).
pub uninterp spec fn unicode_alphanumeric(c: char) -> bool;

/// What `char::is_whitespace` answers for `c` (Unicode's White_Space
/// property).
pub uninterp spec fn unicode_whitespace(c: char) -> bool;

/// Relies on `char::is_alphanumeric`.
#[verifier::external_body]
pub(crate) fn char_is_alphanumeric(c: char) -> (r: bool)
    ensures
        r == unicode_alphanumeric(c),
{
    c.is_alphanumeric()
}

/// Relies on `char::is_whitespace`.
#[verifier::external_body]
pub(crate) fn char_is_whitespace(c: char) -> (r: bool)
    ensures
        r == unicode_whitespace(c),
{
    c.is_whitespace()
}

/// A word character: alphanumeric or underscore.
pub open spec fn is_word(c: char) -> bool {
    unicode_alphanumeric(c) || c == '_'
}

/// The class of a character for segmentation.
#[derive(Clone, Copy, Debug, PartialEq, Eq, Structural)]
pub enum CharClass {
    /// `'\n'`.
    Newline,
    /// Any other whitespace.
    Whitespace,
    /// Alphanumeric or underscore.
    Word,
    /// Everything else: punctuation, symbols, emoji.
    Symbol,
}

pub open spec fn class_of(c: char) -> CharClass {
    if c == '\n' {
        CharClass::Newline
    } else if unicode_whitespace(c) {
        CharClass::Whitespace
    } else if is_word(c) {
        CharClass::Word
    } else {
        CharClass::Symbol
    }
}

/// The class of `c`.
pub fn classify(c: char) -> (k: CharClass)
    ensures
        k == class_of(c),
{
    if c == '\n' {
        CharClass::Newline
    } else if char_is_whitespace(c) {
        CharClass::Whitespace
    } else if char_is_alphanumeric(c) || c == '_' {
        CharClass::Word
    } else {
        CharClass::Symbol
    }
}

/// The class of each character of `s`.
pub open spec fn classes(s: Seq<char>) -> Seq<CharClass> {
    s.map_values(|c: char| class_of(c))
}

/// Start of the run of class `k` in `ks` that ends at `i`.
pub open spec fn run_start(ks: Seq<CharClass>, i: int, k: CharClass) -> int
    decreases i,
{
    if i <= 0 || ks[i - 1] != k {
        i
    } else {
        run_start(ks, i - 1, k)
    }
}

/// End of the run of class `k` in `ks` that starts at `i`.
pub open spec fn run_end(ks: Seq<CharClass>, i: int, k: CharClass) -> int
    decreases ks.len() - i,
{
    if i >= ks.len() || ks[i] != k {
        i
    } else {
        run_end(ks, i + 1, k)
    }
}

/// The position a segment is anchored at in a sequence of length `n`: `p`
/// clamped, and stepped back by one at the end of a non-empty sequence.
pub open spec fn anchor(n: int, p: int) -> int {
    if p < n {
        p
    } else if n > 0 {
        n - 1
    } else {
        0
    }
}

/// `(start, end)` of the segment at `p` among classes `ks`: `(0, 0)` when
/// there are none, the newline alone at a newline, else the maximal run of
/// the anchor's class.
pub open spec fn segment_bounds(ks: Seq<CharClass>, p: int) -> (int, int) {
    if ks.len() == 0 {
        (0, 0)
    } else {
        let q = anchor(ks.len() as int, p);
        let k = ks[q];
        if k == CharClass::Newline {
            (q, q + 1)
        } else {
            (run_start(ks, q, k), run_end(ks, q, k))
        }
    }
}

/// `(start, end)` of the segment of text `s` at `p`.
pub open spec fn word_bounds(s: Seq<char>, p: int) -> (int, int) {
    segment_bounds(classes(s), p)
}

/// The segment at `position` among `classes`; see `segment_bounds`.
pub fn segment_at(classes: &Vec<CharClass>, position: usize) -> (r: (usize, usize))
    ensures
        r.0 == segment_bounds(classes@, position as int).0,
        r.1 == segment_bounds(classes@, position as int).1,
{
    let n = classes.len();
    if n == 0 {
        return (0, 0);
    }
    let q = if position < n {
        position
    } else {
        n - 1
    };
    let k = classes[q];
    if k == CharClass::Newline {
        return (q, q + 1);
    }
    let ghost ks = classes@;
    proof {
        lemma_run_start(ks, q as int, k);
        lemma_run_end(ks, q as int, k);
    }
    let mut start = q;
    while start > 0 && classes[start - 1] == k
        invariant
            classes@ == ks,
            n == ks.len(),
            0 <= start <= q < n,
            run_start(ks, start as int, k) == run_start(ks, q as int, k),
        decreases start,
    {
        start -= 1;
    }
    let mut end = q;
    while end < n && classes[end] == k
        invariant
            classes@ == ks,
            n == ks.len(),
            q <= end <= n,
            run_end(ks, end as int, k) == run_end(ks, q as int, k),
        decreases n - end,
    {
        end += 1;
    }
    (start, end)
}

pub proof fn lemma_run_start(ks: Seq<CharClass>, i: int, k: CharClass)
    requires
        0 <= i <= ks.len(),
    ensures
        0 <= run_start(ks, i, k) <= i,
        run_start(ks, i, k) == 0 || ks[run_start(ks, i, k) - 1] != k,
        forall|j: int| run_start(ks, i, k) <= j < i ==> #[trigger] ks[j] == k,
        forall|j: int| run_start(ks, i, k) <= j <= i ==> run_start(ks, j, k) == run_start(ks, i, k),
    decreases i,
{
    if i > 0 && ks[i - 1] == k {
        lemma_run_start(ks, i - 1, k);
    }
}

pub proof fn lemma_run_end(ks: Seq<CharClass>, i: int, k: CharClass)
    requires
        0 <= i <= ks.len(),
    ensures
        i <= run_end(ks, i, k) <= ks.len(),
        run_end(ks, i, k) == ks.len() || ks[run_end(ks, i, k)] != k,
        forall|j: int| i <= j < run_end(ks, i, k) ==> #[trigger] ks[j] == k,
        forall|j: int| i <= j <= run_end(ks, i, k) ==> run_end(ks, j, k) == run_end(ks, i, k),
    decreases ks.len() - i,
{
    if i < ks.len() && ks[i] == k {
        lemma_run_end(ks, i + 1, k);
    }
}

/// The segment at `p` holds its anchor, lies within the sequence, and all
/// its classes are the anchor's.
pub proof fn lemma_segment_bounds(ks: Seq<CharClass>, p: int)
    requires
        ks.len() > 0,
        0 <= p,
    ensures
        0 <= segment_bounds(ks, p).0 <= anchor(ks.len() as int, p) < segment_bounds(ks, p).1
            <= ks.len(),
        forall|j: int|
            segment_bounds(ks, p).0 <= j < segment_bounds(ks, p).1 ==> #[trigger] ks[j]
                == ks[anchor(ks.len() as int, p)],
{
    let q = anchor(ks.len() as int, p);
    let k = ks[q];
    if k != CharClass::Newline {
        lemma_run_start(ks, q, k);
        lemma_run_end(ks, q, k);
    }
}

/// The segment of a non-empty text at `p` lies within the text and holds
/// the anchor.
pub proof fn lemma_word_bounds(s: Seq<char>, p: int)
    requires
        s.len() > 0,
        0 <= p,
    ensures
        0 <= word_bounds(s, p).0 <= anchor(s.len() as int, p) < word_bounds(s, p).1 <= s.len(),
{
    lemma_segment_bounds(classes(s), p);
}

/// Segmenting again from any position inside a segment gives the same
/// segment.
pub proof fn lemma_segment_stable(ks: Seq<CharClass>, p: int, r: int)
    requires
        0 <= p,
        segment_bounds(ks, p).0 <= r < segment_bounds(ks, p).1,
    ensures
        segment_bounds(ks, r) == segment_bounds(ks, p),
{
    if ks.len() > 0 {
        let q = anchor(ks.len() as int, p);
        let k = ks[q];
        lemma_segment_bounds(ks, p);
        assert(anchor(ks.len() as int, r) == r);
        if k != CharClass::Newline {
            lemma_run_start(ks, q, k);
            lemma_run_end(ks, q, k);
            assert(ks[r] == k);
            if r <= q {
                lemma_run_end(ks, r, k);
                if run_end(ks, r, k) < q {
                    assert(ks[run_end(ks, r, k)] == k);
                }
            } else {
                lemma_run_start(ks, r, k);
                if run_start(ks, r, k) > q + 1 {
                    assert(ks[run_start(ks, r, k) - 1] == k);
                }
            }
        }
    }
}

/// Segmenting a text again from any position inside a segment gives the
/// same segment.
pub proof fn lemma_word_bounds_stable(s: Seq<char>, p: int, r: int)
    requires
        0 <= p,
        word_bounds(s, p).0 <= r < word_bounds(s, p).1,
    ensures
        word_bounds(s, r) == word_bounds(s, p),
{
    lemma_segment_stable(classes(s), p, r);
}

} // verus!
