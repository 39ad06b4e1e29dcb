//! A line diff of two texts for display. Runs of removed and added lines are
//! paired into modifications when every line finds a similar partner, and a
//! modified pair carries the byte ranges that changed inside it.
use crate::buffer::TextBuffer;
use crate::lines::{lemma_line_shape, line_count, line_start, line_text_len};
use crate::segment::unicode_whitespace;
use similar::{ChangeTag, TextDiff};
use vstd::prelude::*;
use vstd::string::StringExecFns;

verus! {

/// A step of an edit script.
#[derive(Clone, Copy, Debug, PartialEq, Eq, Structural)]
pub enum ChangeKind {
    Equal,
    Delete,
    Insert,
}

/// The line changes that similar's line diff gives for `old` and `new`,
/// each with its text.
pub uninterp spec fn line_changes(old: Seq<char>, new: Seq<char>) -> Seq<(ChangeKind, Seq<char>)>;

/// The character changes that similar's character diff gives for `old` and
/// `new`, each with its text.
pub uninterp spec fn char_changes(old: Seq<char>, new: Seq<char>) -> Seq<(ChangeKind, Seq<char>)>;

pub open spec fn changes_view(v: Seq<(ChangeKind, String)>) -> Seq<(ChangeKind, Seq<char>)> {
    v.map_values(|c: (ChangeKind, String)| (c.0, c.1@))
}

/// Relies on similar's `TextDiff::from_lines` (Myers, no deadline) and
/// `iter_all_changes`: each change's tag, and its text as `Change`'s
/// `to_string` gives it.
#[verifier::external_body]
fn diff_lines(old: &str, new: &str) -> (r: Vec<(ChangeKind, String)>)
    ensures
        changes_view(r@) == line_changes(old@, new@),
{
    let diff = TextDiff::from_lines(old, new);
    let mut out = Vec::new();
    for change in diff.iter_all_changes() {
        let kind = match change.tag() {
            ChangeTag::Equal => ChangeKind::Equal,
            ChangeTag::Delete => ChangeKind::Delete,
            ChangeTag::Insert => ChangeKind::Insert,
        };
        out.push((kind, change.to_string()));
    }
    out
}

/// Relies on similar's `TextDiff::from_chars` (Myers, no deadline) and
/// `iter_all_changes`: each change's tag and value.
#[verifier::external_body]
fn diff_chars(old: &str, new: &str) -> (r: Vec<(ChangeKind, String)>)
    ensures
        changes_view(r@) == char_changes(old@, new@),
{
    let diff = TextDiff::from_chars(old, new);
    let mut out = Vec::new();
    for change in diff.iter_all_changes() {
        let kind = match change.tag() {
            ChangeTag::Equal => ChangeKind::Equal,
            ChangeTag::Delete => ChangeKind::Delete,
            ChangeTag::Insert => ChangeKind::Insert,
        };
        out.push((kind, change.value().to_string()));
    }
    out
}

/// `s` without its leading whitespace.
pub open spec fn trim_start(s: Seq<char>) -> Seq<char>
    decreases s.len(),
{
    if s.len() > 0 && unicode_whitespace(s[0]) {
        trim_start(s.drop_first())
    } else {
        s
    }
}

/// `s` without its trailing whitespace.
pub open spec fn trim_end(s: Seq<char>) -> Seq<char>
    decreases s.len(),
{
    if s.len() > 0 && unicode_whitespace(s.last()) {
        trim_end(s.drop_last())
    } else {
        s
    }
}

pub open spec fn trimmed(s: Seq<char>) -> Seq<char> {
    trim_end(trim_start(s))
}

/// Relies on `str::trim`: leading and trailing White_Space removed.
#[verifier::external_body]
fn trim_str(s: &str) -> (r: &str)
    ensures
        r@ == trimmed(s@),
{
    s.trim()
}

/// Relies on `str::chars`, collected: the characters in order.
#[verifier::external_body]
fn str_chars(s: &str) -> (v: Vec<char>)
    ensures
        v@ == s@,
{
    s.chars().collect()
}

/// Number of positions below `n` where `a` and `b` agree.
pub open spec fn count_equal_at(a: Seq<char>, b: Seq<char>, n: int) -> nat
    decreases n,
{
    if n <= 0 {
        0
    } else {
        count_equal_at(a, b, n - 1) + if a[n - 1] == b[n - 1] {
            1nat
        } else {
            0nat
        }
    }
}

/// Similarity of two lines as a fraction `(numerator, denominator)`: of the
/// trimmed lines, one if equal, zero if one is empty, else the positions
/// where they agree over the longer length.
pub open spec fn similarity(a: Seq<char>, b: Seq<char>) -> (nat, nat) {
    let x = trimmed(a);
    let y = trimmed(b);
    if x == y {
        (1, 1)
    } else if x.len() == 0 || y.len() == 0 {
        (0, 1)
    } else {
        let lo = if x.len() <= y.len() {
            x.len()
        } else {
            y.len()
        };
        let hi = if x.len() <= y.len() {
            y.len()
        } else {
            x.len()
        };
        (count_equal_at(x, y, lo as int), hi)
    }
}

/// `p > q` as fractions.
pub open spec fn more_similar(p: (nat, nat), q: (nat, nat)) -> bool {
    p.0 * q.1 > q.0 * p.1
}

/// The least similarity that pairs two lines, exclusive.
pub open spec fn threshold() -> (nat, nat) {
    (3, 10)
}

/// The most similar unused added line for `r`, scanning from `j` with the
/// best so far; the first wins a tie.
pub open spec fn best_from(
    r: Seq<char>,
    adds: Seq<Seq<char>>,
    used: Seq<bool>,
    j: int,
    best: Option<int>,
    score: (nat, nat),
) -> Option<int>
    decreases adds.len() - j,
{
    if j >= adds.len() {
        best
    } else if j >= 0 && !used[j] && more_similar(similarity(r, adds[j]), score) {
        best_from(r, adds, used, j + 1, Some(j), similarity(r, adds[j]))
    } else {
        best_from(r, adds, used, j + 1, best, score)
    }
}

pub open spec fn best_match(r: Seq<char>, adds: Seq<Seq<char>>, used: Seq<bool>) -> Option<int> {
    best_from(r, adds, used, 0, None, threshold())
}

/// Pairs `(removed, added)` chosen greedily, removed lines in order.
pub open spec fn pairs_from(
    removes: Seq<Seq<char>>,
    adds: Seq<Seq<char>>,
    used: Seq<bool>,
    i: int,
    acc: Seq<(int, int)>,
) -> Seq<(int, int)>
    decreases removes.len() - i,
{
    if i >= removes.len() || i < 0 {
        acc
    } else {
        match best_match(removes[i], adds, used) {
            Some(j) => pairs_from(removes, adds, used.update(j, true), i + 1, acc.push((i, j))),
            None => pairs_from(removes, adds, used, i + 1, acc),
        }
    }
}

pub open spec fn matched_pairs(removes: Seq<Seq<char>>, adds: Seq<Seq<char>>) -> Seq<(int, int)> {
    pairs_from(removes, adds, Seq::new(adds.len(), |j: int| false), 0, seq![])
}

/// Width of `c` in UTF-8.
pub open spec fn utf8_width(c: char) -> nat {
    if (c as u32) < 0x80 {
        1
    } else if (c as u32) < 0x800 {
        2
    } else if (c as u32) < 0x10000 {
        3
    } else {
        4
    }
}

/// `a + b`, saturating at `usize::MAX`.
pub open spec fn sat_add(a: nat, b: nat) -> nat {
    if a + b > usize::MAX {
        usize::MAX as nat
    } else {
        a + b
    }
}

/// Length of `s` in UTF-8 bytes, saturating at `usize::MAX`.
pub open spec fn utf8_len(s: Seq<char>) -> nat
    decreases s.len(),
{
    if s.len() == 0 {
        0
    } else {
        sat_add(utf8_len(s.drop_last()), utf8_width(s.last()))
    }
}

/// A byte range within a line.
#[derive(Clone, Debug)]
pub struct CharRange {
    pub start: usize,
    pub end: usize,
}

/// Ranges in the old and the new line, and the byte positions reached,
/// after the first `k` character changes.
pub open spec fn intra_state(cs: Seq<(ChangeKind, Seq<char>)>, k: int) -> (
    Seq<CharRange>,
    Seq<CharRange>,
    nat,
    nat,
)
    decreases k,
{
    if k <= 0 {
        (seq![], seq![], 0, 0)
    } else {
        let p = intra_state(cs, k - 1);
        let len = utf8_len(cs[k - 1].1);
        match cs[k - 1].0 {
            ChangeKind::Equal => (p.0, p.1, sat_add(p.2, len), sat_add(p.3, len)),
            ChangeKind::Delete => (
                p.0.push(CharRange { start: p.2 as usize, end: sat_add(p.2, len) as usize }),
                p.1,
                sat_add(p.2, len),
                p.3,
            ),
            ChangeKind::Insert => (
                p.0,
                p.1.push(CharRange { start: p.3 as usize, end: sat_add(p.3, len) as usize }),
                p.2,
                sat_add(p.3, len),
            ),
        }
    }
}

/// The changed byte ranges of `old` and of `new`.
pub open spec fn intra_ranges(old: Seq<char>, new: Seq<char>) -> (Seq<CharRange>, Seq<CharRange>) {
    let cs = char_changes(old, new);
    let st = intra_state(cs, cs.len() as int);
    (st.0, st.1)
}

#[derive(Clone, Copy, Debug, PartialEq, Eq, Structural)]
pub enum DiffLineKind {
    Unchanged,
    Added,
    Removed,
    /// A line of a removed and added pair.
    Modified,
}

/// One displayed line of a diff.
#[derive(Clone, Debug)]
pub struct DiffLine {
    /// Line number in the new text; 0 for a line that is not there.
    pub line_number: usize,
    pub kind: DiffLineKind,
    pub content: String,
    /// Changed byte ranges of a modified line.
    pub char_changes: Vec<CharRange>,
    /// True for the first line of a group of changes.
    pub is_first_in_group: bool,
}

/// `(line_number, kind, content, char_changes, is_first_in_group)`.
pub type LineView = (usize, DiffLineKind, Seq<char>, Seq<CharRange>, bool);

impl View for DiffLine {
    type V = LineView;

    open spec fn view(&self) -> LineView {
        (self.line_number, self.kind, self.content@, self.char_changes@, self.is_first_in_group)
    }
}

pub open spec fn lines_view(v: Seq<DiffLine>) -> Seq<LineView> {
    v.map_values(|l: DiffLine| l@)
}

pub open spec fn texts(v: Seq<String>) -> Seq<Seq<char>> {
    v.map_values(|s: String| s@)
}

/// The first `k` removed lines of a group that is not paired.
pub open spec fn removed_lines(rs: Seq<Seq<char>>, k: int) -> Seq<LineView>
    decreases k,
{
    if k <= 0 {
        seq![]
    } else {
        removed_lines(rs, k - 1).push((0usize, DiffLineKind::Removed, rs[k - 1], seq![], k == 1))
    }
}

/// The first `k` added lines of a group that is not paired, numbered on
/// from `ln`.
pub open spec fn added_lines(xs: Seq<Seq<char>>, ln: nat, k: int) -> Seq<LineView>
    decreases k,
{
    if k <= 0 {
        seq![]
    } else {
        added_lines(xs, ln, k - 1).push(
            ((ln + k) as usize, DiffLineKind::Added, xs[k - 1], seq![], k == 1),
        )
    }
}

/// The first `k` pairs of a paired group: the removed line, then the added
/// one, numbered on from `ln`.
pub open spec fn modified_lines(
    rs: Seq<Seq<char>>,
    xs: Seq<Seq<char>>,
    pairs: Seq<(int, int)>,
    ln: nat,
    k: int,
) -> Seq<LineView>
    decreases k,
{
    if k <= 0 {
        seq![]
    } else {
        let i = pairs[k - 1].0;
        let j = pairs[k - 1].1;
        let ranges = intra_ranges(rs[i], xs[j]);
        modified_lines(rs, xs, pairs, ln, k - 1).push(
            (0usize, DiffLineKind::Modified, rs[i], ranges.0, k == 1),
        ).push(((ln + k) as usize, DiffLineKind::Modified, xs[j], ranges.1, false))
    }
}

/// Whether a group pairs as a whole: every removed and every added line
/// found a partner.
pub open spec fn all_paired(rs: Seq<Seq<char>>, xs: Seq<Seq<char>>) -> bool {
    &&& rs.len() > 0
    &&& xs.len() > 0
    &&& matched_pairs(rs, xs).len() == rs.len()
    &&& matched_pairs(rs, xs).len() == xs.len()
}

/// The lines a group of removed lines `rs` and added lines `xs` shows, the
/// added ones numbered on from `ln`.
pub open spec fn group_lines(rs: Seq<Seq<char>>, xs: Seq<Seq<char>>, ln: nat) -> Seq<LineView> {
    if all_paired(rs, xs) {
        modified_lines(rs, xs, matched_pairs(rs, xs), ln, rs.len() as int)
    } else {
        removed_lines(rs, rs.len() as int) + added_lines(xs, ln, xs.len() as int)
    }
}

/// Lines shown, last line number, and the pending removed and added lines
/// after the first `k` line changes.
pub open spec fn diff_state(cs: Seq<(ChangeKind, Seq<char>)>, k: int) -> (
    Seq<LineView>,
    nat,
    Seq<Seq<char>>,
    Seq<Seq<char>>,
)
    decreases k,
{
    if k <= 0 {
        (seq![], 0, seq![], seq![])
    } else {
        let p = diff_state(cs, k - 1);
        match cs[k - 1].0 {
            ChangeKind::Equal => (
                (p.0 + group_lines(p.2, p.3, p.1)).push(
                    (
                        (p.1 + p.3.len() + 1) as usize,
                        DiffLineKind::Unchanged,
                        cs[k - 1].1,
                        seq![],
                        false,
                    ),
                ),
                p.1 + p.3.len() + 1,
                seq![],
                seq![],
            ),
            ChangeKind::Delete => (p.0, p.1, p.2.push(cs[k - 1].1), p.3),
            ChangeKind::Insert => (p.0, p.1, p.2, p.3.push(cs[k - 1].1)),
        }
    }
}

/// Text of line `l` of `s` without its newline.
pub open spec fn line_text(s: Seq<char>, l: nat) -> Seq<char> {
    s.subrange(line_start(s, l), line_start(s, l) + line_text_len(s, l))
}

/// Lines `from + 1 ..= k` of the new text as unchanged lines, each with a
/// newline.
pub open spec fn tail_lines(new: Seq<char>, from: nat, k: int) -> Seq<LineView>
    decreases k - from,
{
    if k <= from {
        seq![]
    } else {
        tail_lines(new, from, k - 1).push(
            (
                k as usize,
                DiffLineKind::Unchanged,
                line_text(new, (k - 1) as nat).push('\n'),
                seq![],
                false,
            ),
        )
    }
}

/// The lines of the diff from `old` to `new`: the line changes in order,
/// each group of removed and added lines shown when an unchanged line or
/// the end comes, then any lines of `new` not yet numbered as unchanged.
pub open spec fn diff_records(old: Seq<char>, new: Seq<char>) -> Seq<LineView> {
    let cs = line_changes(old, new);
    let st = diff_state(cs, cs.len() as int);
    let ln = st.1 + st.3.len();
    st.0 + group_lines(st.2, st.3, st.1) + tail_lines(new, ln, line_count(new) as int)
}


/// Whether two character vectors are equal.
fn same_chars(a: &Vec<char>, b: &Vec<char>) -> (r: bool)
    ensures
        r == (a@ == b@),
{
    if a.len() != b.len() {
        return false;
    }
    let mut i: usize = 0;
    while i < a.len()
        invariant
            a@.len() == b@.len(),
            i <= a@.len(),
            forall|k: int| 0 <= k < i ==> a@[k] == b@[k],
        decreases a.len() - i,
    {
        if a[i] != b[i] {
            return false;
        }
        i += 1;
    }
    assert(a@ =~= b@);
    true
}


/// `n1 / d1 > n2 / d2`.
fn more_similar_than(n1: usize, d1: usize, n2: usize, d2: usize) -> (r: bool)
    ensures
        r == more_similar((n1 as nat, d1 as nat), (n2 as nat, d2 as nat)),
{
    let x: u128 = n1 as u128;
    let y: u128 = d2 as u128;
    let z: u128 = n2 as u128;
    let w: u128 = d1 as u128;
    assert(x * y <= u64::MAX * u64::MAX) by (nonlinear_arith)
        requires
            x <= u64::MAX,
            y <= u64::MAX,
    ;
    assert(z * w <= u64::MAX * u64::MAX) by (nonlinear_arith)
        requires
            z <= u64::MAX,
            w <= u64::MAX,
    ;
    x * y > z * w
}


pub open spec fn pairs_view(v: Seq<(usize, usize)>) -> Seq<(int, int)> {
    v.map_values(|p: (usize, usize)| (p.0 as int, p.1 as int))
}

pub open spec fn pairs_in_range(v: Seq<(int, int)>, r: int, a: int) -> bool {
    forall|k: int| 0 <= k < v.len() ==> 0 <= (#[trigger] v[k]).0 < r && 0 <= v[k].1 < a
}

proof fn lemma_best_from(
    r: Seq<char>,
    adds: Seq<Seq<char>>,
    used: Seq<bool>,
    j: int,
    best: Option<int>,
    score: (nat, nat),
)
    requires
        0 <= j,
        best matches Some(b) ==> 0 <= b < adds.len(),
    ensures
        best_from(r, adds, used, j, best, score) matches Some(b) ==> 0 <= b < adds.len(),
    decreases adds.len() - j,
{
    if j < adds.len() {
        if !used[j] && more_similar(similarity(r, adds[j]), score) {
            lemma_best_from(r, adds, used, j + 1, Some(j), similarity(r, adds[j]));
        } else {
            lemma_best_from(r, adds, used, j + 1, best, score);
        }
    }
}

proof fn lemma_pairs_from(
    removes: Seq<Seq<char>>,
    adds: Seq<Seq<char>>,
    used: Seq<bool>,
    i: int,
    acc: Seq<(int, int)>,
)
    requires
        0 <= i,
        pairs_in_range(acc, removes.len() as int, adds.len() as int),
        acc.len() <= i,
    ensures
        pairs_in_range(
            pairs_from(removes, adds, used, i, acc),
            removes.len() as int,
            adds.len() as int,
        ),
        pairs_from(removes, adds, used, i, acc).len() <= removes.len() || i > removes.len(),
    decreases removes.len() - i,
{
    if i < removes.len() {
        lemma_best_from(removes[i], adds, used, 0, None, threshold());
        match best_match(removes[i], adds, used) {
            Some(j) => {
                let acc2 = acc.push((i, j));
                assert(pairs_in_range(acc2, removes.len() as int, adds.len() as int)) by {
                    assert forall|k: int| 0 <= k < acc2.len() implies 0 <= (#[trigger] acc2[k]).0
                        < removes.len() && 0 <= acc2[k].1 < adds.len() by {
                        if k < acc.len() {
                            assert(acc2[k] == acc[k]);
                        }
                    }
                }
                lemma_pairs_from(removes, adds, used.update(j, true), i + 1, acc2);
            },
            None => {
                lemma_pairs_from(removes, adds, used, i + 1, acc);
            },
        }
    }
}

/// Pairs each removed line, in order, with the most similar added line not
/// yet taken, if one is similar enough.
fn match_pairs(removes: &Vec<String>, adds: &Vec<String>) -> (pairs: Vec<(usize, usize)>)
    ensures
        pairs_view(pairs@) == matched_pairs(texts(removes@), texts(adds@)),
        pairs_in_range(pairs_view(pairs@), removes@.len() as int, adds@.len() as int),
        pairs@.len() <= removes@.len(),
{
    let ghost rs = texts(removes@);
    let ghost xs = texts(adds@);
    let mut used: Vec<bool> = Vec::new();
    let mut j: usize = 0;
    while j < adds.len()
        invariant
            j <= adds@.len(),
            used@ == Seq::new(j as nat, |k: int| false),
        decreases adds.len() - j,
    {
        used.push(false);
        j += 1;
        assert(used@ =~= Seq::new(j as nat, |k: int| false));
    }
    let mut pairs: Vec<(usize, usize)> = Vec::new();
    let mut i: usize = 0;
    proof {
        assert(pairs_view(pairs@) =~= seq![]);
        lemma_pairs_from(rs, xs, used@, 0, seq![]);
    }
    while i < removes.len()
        invariant
            rs == texts(removes@),
            xs == texts(adds@),
            i <= removes@.len(),
            used@.len() == adds@.len(),
            pairs@.len() <= i,
            pairs_in_range(pairs_view(pairs@), removes@.len() as int, adds@.len() as int),
            pairs_from(rs, xs, used@, i as int, pairs_view(pairs@)) == matched_pairs(rs, xs),
        decreases removes.len() - i,
    {
        let mut best: Option<usize> = None;
        let mut best_n: usize = 3;
        let mut best_d: usize = 10;
        let mut j: usize = 0;
        let ghost target = best_match(rs[i as int], xs, used@);
        while j < adds.len()
            invariant
                rs == texts(removes@),
                xs == texts(adds@),
                i < removes@.len(),
                j <= adds@.len(),
                used@.len() == adds@.len(),
                best matches Some(b) ==> b < adds@.len(),
                best_from(
                    rs[i as int],
                    xs,
                    used@,
                    j as int,
                    match best {
                        Some(b) => Some(b as int),
                        None => None,
                    },
                    (best_n as nat, best_d as nat),
                ) == target,
            decreases adds.len() - j,
        {
            if !used[j] {
                let (n, d) = Differ::calculate_similarity(removes[i].as_str(), adds[j].as_str());
                if more_similar_than(n, d, best_n, best_d) {
                    best = Some(j);
                    best_n = n;
                    best_d = d;
                }
            }
            j += 1;
        }
        let ghost before = pairs_view(pairs@);
        match best {
            Some(b) => {
                used.set(b, true);
                pairs.push((i, b));
                proof {
                    assert(pairs_view(pairs@) =~= before.push((i as int, b as int)));
                }
            },
            None => {},
        }
        i += 1;
    }
    pairs
}

/// Length of `s` in UTF-8 bytes, saturating; see `utf8_len`.
fn utf8_length(s: &str) -> (n: usize)
    ensures
        n == utf8_len(s@),
{
    let chars = str_chars(s);
    let mut n: usize = 0;
    let mut i: usize = 0;
    while i < chars.len()
        invariant
            chars@ == s@,
            i <= chars@.len(),
            n == utf8_len(chars@.take(i as int)),
        decreases chars.len() - i,
    {
        let c = chars[i];
        let w: usize = if (c as u32) < 0x80 {
            1
        } else if (c as u32) < 0x800 {
            2
        } else if (c as u32) < 0x10000 {
            3
        } else {
            4
        };
        proof {
            assert(chars@.take(i + 1).drop_last() =~= chars@.take(i as int));
        }
        n = n.saturating_add(w);
        i += 1;
    }
    proof {
        assert(chars@.take(i as int) =~= chars@);
    }
    n
}


/// Computes diffs against an original text.
pub struct Differ {
    original: String,
}

impl View for Differ {
    type V = Seq<char>;

    closed spec fn view(&self) -> Seq<char> {
        self.original@
    }
}

impl Differ {
    /// A differ against `original`.
    pub fn new(original: String) -> (d: Differ)
        ensures
            d@ == original@,
    {
        Differ { original }
    }

    /// The lines of the diff from the original to `modified`; see
    /// `diff_records`.
    pub fn compute_diff(&self, modified: &str) -> (r: Vec<DiffLine>)
        ensures
            lines_view(r@) == diff_records(self@, modified@),
    {
        let changes = diff_lines(self.original.as_str(), modified);
        let ghost cs = line_changes(self@, modified@);
        let mut result: Vec<DiffLine> = Vec::new();
        let mut line_number: usize = 0;
        let mut pending_removes: Vec<String> = Vec::new();
        let mut pending_adds: Vec<String> = Vec::new();
        let mut k: usize = 0;
        proof {
            assert(lines_view(result@) =~= seq![]);
            assert(texts(pending_removes@) =~= seq![]);
            assert(texts(pending_adds@) =~= seq![]);
        }
        while k < changes.len()
            invariant
                changes_view(changes@) == cs,
                k <= changes@.len(),
                line_number + pending_adds@.len() <= k,
                diff_state(cs, k as int) == (
                    lines_view(result@),
                    line_number as nat,
                    texts(pending_removes@),
                    texts(pending_adds@),
                ),
            decreases changes.len() - k,
        {
            let ghost prev_lines = lines_view(result@);
            let ghost text = changes@[k as int].1@;
            match changes[k].0 {
                ChangeKind::Equal => {
                    Self::flush_pending(
                        &mut result,
                        &mut line_number,
                        &mut pending_removes,
                        &mut pending_adds,
                    );
                    let ghost flushed = lines_view(result@);
                    line_number += 1;
                    result.push(
                        DiffLine {
                            line_number,
                            kind: DiffLineKind::Unchanged,
                            content: changes[k].1.clone(),
                            char_changes: Vec::new(),
                            is_first_in_group: false,
                        },
                    );
                    proof {
                        assert(lines_view(result@) =~= flushed.push(result@.last()@));
                        assert(texts(pending_removes@) =~= seq![]);
                        assert(texts(pending_adds@) =~= seq![]);
                    }
                },
                ChangeKind::Delete => {
                    let ghost before = texts(pending_removes@);
                    pending_removes.push(changes[k].1.clone());
                    proof {
                        assert(texts(pending_removes@) =~= before.push(text));
                    }
                },
                ChangeKind::Insert => {
                    let ghost before = texts(pending_adds@);
                    pending_adds.push(changes[k].1.clone());
                    proof {
                        assert(texts(pending_adds@) =~= before.push(text));
                    }
                },
            }
            k += 1;
        }
        Self::flush_pending(&mut result, &mut line_number, &mut pending_removes, &mut pending_adds);
        let mut modified_buffer = TextBuffer::new();
        modified_buffer.insert(0, modified);
        let ghost m = modified@;
        proof {
            assert(modified_buffer@ =~= m);
        }
        let modified_line_count = modified_buffer.line_count();
        let ghost from = line_number as nat;
        let ghost base = lines_view(result@);
        while line_number < modified_line_count
            invariant
                modified_buffer@ == m,
                m.len() <= usize::MAX,
                modified_line_count == line_count(m),
                from <= line_number,
                line_number <= modified_line_count || line_number == from,
                lines_view(result@) == base + tail_lines(m, from, line_number as int),
            decreases modified_line_count - line_number,
        {
            let ghost prev = lines_view(result@);
            line_number += 1;
            let l = line_number - 1;
            proof {
                lemma_line_shape(m, l as nat);
            }
            let start = modified_buffer.line_start(l);
            let len = modified_buffer.line_len(l);
            let mut content = modified_buffer.slice(start, start + len);
            content.append("\n");
            proof {
                reveal_strlit("\n");
            }
            result.push(
                DiffLine {
                    line_number,
                    kind: DiffLineKind::Unchanged,
                    content,
                    char_changes: Vec::new(),
                    is_first_in_group: false,
                },
            );
            proof {
                assert(lines_view(result@) =~= prev.push(result@.last()@));
                assert(result@.last()@.2 =~= line_text(m, l as nat).push('\n'));
            }
        }
        proof {
            assert(lines_view(result@) =~= diff_records(self@, modified@));
        }
        result
    }

    /// Shows a pending group of removed and added lines and empties it; see
    /// `group_lines`.
    fn flush_pending(
        result: &mut Vec<DiffLine>,
        line_number: &mut usize,
        pending_removes: &mut Vec<String>,
        pending_adds: &mut Vec<String>,
    )
        requires
            *old(line_number) + old(pending_adds)@.len() <= usize::MAX,
        ensures
            lines_view(final(result)@) == lines_view(old(result)@) + group_lines(
                texts(old(pending_removes)@),
                texts(old(pending_adds)@),
                *old(line_number) as nat,
            ),
            *final(line_number) == *old(line_number) + old(pending_adds)@.len(),
            final(pending_removes)@.len() == 0,
            final(pending_adds)@.len() == 0,
    {
        let ghost rs = texts(pending_removes@);
        let ghost xs = texts(pending_adds@);
        let ghost ln = *line_number as nat;
        let ghost base = lines_view(result@);
        let remove_count = pending_removes.len();
        let add_count = pending_adds.len();
        let mut all_matched = false;
        let mut matched: Vec<(usize, usize)> = Vec::new();
        if remove_count > 0 && add_count > 0 {
            matched = match_pairs(pending_removes, pending_adds);
            all_matched = matched.len() == remove_count && matched.len() == add_count;
        }
        if all_matched {
            let ghost pairs = matched_pairs(rs, xs);
            let mut k: usize = 0;
            while k < matched.len()
                invariant
                    rs == texts(pending_removes@),
                    xs == texts(pending_adds@),
                    pairs_view(matched@) == pairs,
                    pairs_in_range(pairs, rs.len() as int, xs.len() as int),
                    matched@.len() == xs.len(),
                    k <= matched@.len(),
                    ln + xs.len() <= usize::MAX,
                    *line_number == ln + k,
                    lines_view(result@) == base + modified_lines(rs, xs, pairs, ln, k as int),
                decreases matched.len() - k,
            {
                let (i, j) = matched[k];
                assert(pairs[k as int] == (i as int, j as int));
                let ghost prev = lines_view(result@);
                *line_number += 1;
                let (removed_ranges, added_ranges) = Self::compute_intra_line_diff(
                    pending_removes[i].as_str(),
                    pending_adds[j].as_str(),
                );
                result.push(
                    DiffLine {
                        line_number: 0,
                        kind: DiffLineKind::Modified,
                        content: pending_removes[i].clone(),
                        char_changes: removed_ranges,
                        is_first_in_group: k == 0,
                    },
                );
                result.push(
                    DiffLine {
                        line_number: *line_number,
                        kind: DiffLineKind::Modified,
                        content: pending_adds[j].clone(),
                        char_changes: added_ranges,
                        is_first_in_group: false,
                    },
                );
                k += 1;
                proof {
                    let n = result@.len();
                    assert(lines_view(result@) =~= prev.push(result@[n - 2]@).push(
                        result@[n - 1]@,
                    ));
                }
            }
            proof {
                assert(lines_view(result@) =~= base + group_lines(rs, xs, ln));
            }
        } else {
            let mut k: usize = 0;
            while k < remove_count
                invariant
                    rs == texts(pending_removes@),
                    remove_count == rs.len(),
                    k <= remove_count,
                    *line_number == ln,
                    lines_view(result@) == base + removed_lines(rs, k as int),
                decreases remove_count - k,
            {
                let ghost prev = lines_view(result@);
                result.push(
                    DiffLine {
                        line_number: 0,
                        kind: DiffLineKind::Removed,
                        content: pending_removes[k].clone(),
                        char_changes: Vec::new(),
                        is_first_in_group: k == 0,
                    },
                );
                k += 1;
                proof {
                    assert(lines_view(result@) =~= prev.push(result@.last()@));
                }
            }
            let ghost mid = lines_view(result@);
            let mut k: usize = 0;
            while k < add_count
                invariant
                    xs == texts(pending_adds@),
                    add_count == xs.len(),
                    ln + xs.len() <= usize::MAX,
                    k <= add_count,
                    *line_number == ln + k,
                    lines_view(result@) == mid + added_lines(xs, ln, k as int),
                decreases add_count - k,
            {
                let ghost prev = lines_view(result@);
                *line_number += 1;
                result.push(
                    DiffLine {
                        line_number: *line_number,
                        kind: DiffLineKind::Added,
                        content: pending_adds[k].clone(),
                        char_changes: Vec::new(),
                        is_first_in_group: k == 0,
                    },
                );
                k += 1;
                proof {
                    assert(lines_view(result@) =~= prev.push(result@.last()@));
                }
            }
            proof {
                assert(lines_view(result@) =~= base + group_lines(rs, xs, ln));
            }
        }
        pending_removes.clear();
        pending_adds.clear();
    }

    /// Similarity of two lines; see `similarity`.
    pub fn calculate_similarity(a: &str, b: &str) -> (r: (usize, usize))
        ensures
            r.0 == similarity(a@, b@).0,
            r.1 == similarity(a@, b@).1,
            r.1 > 0,
    {
        let a_chars = str_chars(trim_str(a));
        let b_chars = str_chars(trim_str(b));
        if same_chars(&a_chars, &b_chars) {
            return (1, 1);
        }
        if a_chars.len() == 0 || b_chars.len() == 0 {
            return (0, 1);
        }
        let min_len = if a_chars.len() <= b_chars.len() {
            a_chars.len()
        } else {
            b_chars.len()
        };
        let max_len = if a_chars.len() <= b_chars.len() {
            b_chars.len()
        } else {
            a_chars.len()
        };
        let mut common: usize = 0;
        let mut i: usize = 0;
        while i < min_len
            invariant
                min_len <= a_chars@.len(),
                min_len <= b_chars@.len(),
                i <= min_len,
                common <= i,
                common == count_equal_at(a_chars@, b_chars@, i as int),
            decreases min_len - i,
        {
            if a_chars[i] == b_chars[i] {
                common += 1;
            }
            i += 1;
        }
        (common, max_len)
    }

    /// The changed byte ranges of `old` and of `new`; see `intra_ranges`.
    pub fn compute_intra_line_diff(old: &str, new: &str) -> (r: (Vec<CharRange>, Vec<CharRange>))
        ensures
            r.0@ == intra_ranges(old@, new@).0,
            r.1@ == intra_ranges(old@, new@).1,
    {
        let changes = diff_chars(old, new);
        let ghost cs = char_changes(old@, new@);
        let mut old_ranges: Vec<CharRange> = Vec::new();
        let mut new_ranges: Vec<CharRange> = Vec::new();
        let mut old_pos: usize = 0;
        let mut new_pos: usize = 0;
        let mut k: usize = 0;
        while k < changes.len()
            invariant
                changes_view(changes@) == cs,
                k <= changes@.len(),
                intra_state(cs, k as int) == (
                    old_ranges@,
                    new_ranges@,
                    old_pos as nat,
                    new_pos as nat,
                ),
            decreases changes.len() - k,
        {
            let len = utf8_length(changes[k].1.as_str());
            match changes[k].0 {
                ChangeKind::Equal => {
                    old_pos = old_pos.saturating_add(len);
                    new_pos = new_pos.saturating_add(len);
                },
                ChangeKind::Delete => {
                    let end = old_pos.saturating_add(len);
                    old_ranges.push(CharRange { start: old_pos, end });
                    old_pos = end;
                },
                ChangeKind::Insert => {
                    let end = new_pos.saturating_add(len);
                    new_ranges.push(CharRange { start: new_pos, end });
                    new_pos = end;
                },
            }
            k += 1;
        }
        (old_ranges, new_ranges)
    }

    /// Replaces the original text.
    pub fn update_original(&mut self, new_original: String)
        ensures
            final(self)@ == new_original@,
    {
        self.original = new_original;
    }
}

} // verus!
