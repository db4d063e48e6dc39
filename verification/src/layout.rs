//! Screen geometry and what the test screen shows of each word.
use vstd::prelude::*;

use crate::engine::{Engine, EngineState};

verus! {

/// A rectangle of terminal cells.
#[derive(Clone, Copy, Debug, PartialEq, Eq, Structural)]
pub struct Rect {
    pub x: u16,
    pub y: u16,
    pub width: u16,
    pub height: u16,
}

impl Rect {
    pub fn new(x: u16, y: u16, width: u16, height: u16) -> (r: Rect)
        ensures
            r == (Rect { x, y, width, height }),
    {
        Rect { x, y, width, height }
    }
}

pub open spec fn min_u16(a: u16, b: u16) -> u16 {
    if a <= b {
        a
    } else {
        b
    }
}

/// The rectangle of at most `height` by `width` cells centred in `area`,
/// as positions that may exceed the coordinate range.
pub open spec fn centered_at(area: Rect, height: u16, width: u16) -> (int, int) {
    let w = min_u16(width, area.width);
    let h = min_u16(height, area.height);
    (area.x + (area.width - w) / 2, area.y + (area.height - h) / 2)
}

/// A rectangle of at most `height` by `width` cells centred in `area`.
pub fn centered(area: Rect, height: u16, width: u16) -> (r: Rect)
    requires
        centered_at(area, height, width).0 <= u16::MAX,
        centered_at(area, height, width).1 <= u16::MAX,
    ensures
        r.width == min_u16(width, area.width),
        r.height == min_u16(height, area.height),
        r.x == centered_at(area, height, width).0,
        r.y == centered_at(area, height, width).1,
{
    let width = if width <= area.width {
        width
    } else {
        area.width
    };
    let height = if height <= area.height {
        height
    } else {
        area.height
    };
    Rect {
        x: area.x + (area.width - width) / 2,
        y: area.y + (area.height - height) / 2,
        width,
        height,
    }
}

/// Cells a word takes on the test screen: its characters and a space.
pub open spec fn word_width(word: Seq<char>) -> nat {
    word.len() + 1
}

/// The rows of the first `n` words laid out left to right in rows of
/// `width` cells, and the cells used on the last row. A word goes on a new
/// row when it does not fit on a row that already holds a word.
pub open spec fn wrap(words: Seq<Seq<char>>, width: nat, n: nat) -> (Seq<Seq<usize>>, nat)
    decreases n,
{
    if n == 0 {
        (seq![Seq::empty()], 0)
    } else {
        let (rows, used) = wrap(words, width, (n - 1) as nat);
        let w = word_width(words[n - 1]);
        if used > 0 && used + w > width {
            (rows.push(seq![(n - 1) as usize]), w)
        } else {
            (rows.update(rows.len() - 1, rows.last().push((n - 1) as usize)), used + w)
        }
    }
}

/// The row that word `i` is on.
pub open spec fn row_of(words: Seq<Seq<char>>, width: nat, i: nat) -> int {
    wrap(words, width, i + 1).0.len() - 1
}

/// The rows shown in an area of `height` rows: as many as fit, with the
/// row of the current word in the upper half or as high as it can be.
pub open spec fn visible_rows(s: EngineState, width: nat, height: nat) -> Seq<Seq<usize>> {
    let rows = wrap(s.words, width, s.words.len()).0;
    let active = row_of(s.words, width, s.current_word);
    let visible = height;
    let start = if active >= visible / 2 {
        active - visible / 2
    } else {
        0
    };
    let end = if start + visible <= rows.len() {
        start + visible
    } else {
        rows.len() as int
    };
    rows.subrange(start, end)
}

/// Every word is on a row: the rows, read in order, list the words in order.
pub open spec fn flatten(rows: Seq<Seq<usize>>) -> Seq<usize>
    decreases rows.len(),
{
    if rows.len() == 0 {
        Seq::empty()
    } else {
        flatten(rows.drop_last()) + rows.last()
    }
}

pub open spec fn row_texts(rows: Seq<Vec<usize>>) -> Seq<Seq<usize>> {
    rows.map_values(|r: Vec<usize>| r@)
}

pub proof fn lemma_flatten_push(rows: Seq<Seq<usize>>, r: Seq<usize>)
    ensures
        flatten(rows.push(r)) == flatten(rows) + r,
{
    assert(rows.push(r).drop_last() =~= rows);
}

/// One more word either starts a new row holding just it, or goes at the
/// end of the last row.
pub proof fn lemma_wrap_step(words: Seq<Seq<char>>, width: nat, n: nat)
    requires
        n > 0,
        wrap(words, width, (n - 1) as nat).0.len() >= 1,
    ensures
        ({
            let prev = wrap(words, width, (n - 1) as nat).0;
            let rows = wrap(words, width, n).0;
            ||| rows == prev.push(seq![(n - 1) as usize])
            ||| rows == prev.update(prev.len() - 1, prev.last().push((n - 1) as usize))
        }),
        wrap(words, width, n).0.last().last() == (n - 1) as usize,
        wrap(words, width, n).0.len() >= 1,
{
    let (prev, used) = wrap(words, width, (n - 1) as nat);
}

/// Laying out words keeps them in order, each once.
pub proof fn lemma_wrap(words: Seq<Seq<char>>, width: nat, n: nat)
    ensures
        wrap(words, width, n).0.len() >= 1,
        flatten(wrap(words, width, n).0) == Seq::new(n, |i: int| i as usize),
    decreases n,
{
    if n == 0 {
        let rows: Seq<Seq<usize>> = seq![Seq::empty()];
        assert(rows.drop_last() =~= Seq::<Seq<usize>>::empty());
        assert(flatten(Seq::<Seq<usize>>::empty()) == Seq::<usize>::empty());
        assert(flatten(rows) =~= Seq::new(0, |i: int| i as usize));
    } else {
        lemma_wrap(words, width, (n - 1) as nat);
        lemma_wrap_step(words, width, n);
        let prev = wrap(words, width, (n - 1) as nat).0;
        let rows = wrap(words, width, n).0;
        if rows == prev.push(seq![(n - 1) as usize]) {
            lemma_flatten_push(prev, seq![(n - 1) as usize]);
            assert(flatten(rows) =~= flatten(prev).push((n - 1) as usize));
        } else {
            let last = prev.last().push((n - 1) as usize);
            let front = prev.drop_last();
            assert(prev =~= front.push(prev.last()));
            assert(rows =~= front.push(last));
            lemma_flatten_push(front, prev.last());
            lemma_flatten_push(front, last);
            assert(flatten(rows) =~= flatten(prev).push((n - 1) as usize));
        }
        assert(flatten(rows) =~= Seq::new(n, |i: int| i as usize));
    }
}

/// Rows only grow at the end: every row of an earlier layout is a prefix
/// of the same row later.
pub proof fn lemma_wrap_grows(words: Seq<Seq<char>>, width: nat, m: nat, n: nat)
    requires
        m <= n,
    ensures
        wrap(words, width, m).0.len() <= wrap(words, width, n).0.len(),
        forall|r: int|
            0 <= r < wrap(words, width, m).0.len() ==> wrap(words, width, m).0[r].len()
                <= wrap(words, width, n).0[r].len() && wrap(words, width, m).0[r] =~= (
            #[trigger] wrap(words, width, n).0[r]).subrange(
                0,
                wrap(words, width, m).0[r].len() as int,
            ),
    decreases n - m,
{
    if m < n {
        lemma_wrap_grows(words, width, m, (n - 1) as nat);
        lemma_wrap(words, width, (n - 1) as nat);
        lemma_wrap_step(words, width, n);
        let small = wrap(words, width, m).0;
        let prev = wrap(words, width, (n - 1) as nat).0;
        let rows = wrap(words, width, n).0;
        assert forall|r: int| 0 <= r < small.len() implies small[r].len() <= rows[r].len()
            && small[r] =~= (#[trigger] rows[r]).subrange(0, small[r].len() as int) by {
            assert(small[r] =~= prev[r].subrange(0, small[r].len() as int));
            if r == prev.len() - 1 && rows != prev.push(seq![(n - 1) as usize]) {
                assert(rows[r] == prev[r].push((n - 1) as usize));
            } else {
                assert(rows[r] == prev[r]);
            }
        }
    }
}

/// The current word is on its row.
pub proof fn lemma_word_on_its_row(words: Seq<Seq<char>>, width: nat, i: nat, n: nat)
    requires
        i < n,
    ensures
        0 <= row_of(words, width, i) < wrap(words, width, n).0.len(),
        wrap(words, width, n).0[row_of(words, width, i)].contains(i as usize),
{
    lemma_wrap(words, width, i);
    lemma_wrap_step(words, width, i + 1);
    lemma_wrap_grows(words, width, i + 1, n);
    let rows = wrap(words, width, i + 1).0;
    let r = rows.len() - 1;
    let big = wrap(words, width, n).0[r];
    assert(rows[r] =~= big.subrange(0, rows[r].len() as int));
    assert(big[rows[r].len() - 1] == i as usize);
}

/// The rows of words shown in an area `width` cells wide and `height` rows
/// high, as word positions: the words are laid out in rows, and the rows
/// shown keep the current word's row in view.
pub fn visible_word_lines(engine: &Engine, width: u16, height: u16) -> (rows: Vec<Vec<usize>>)
    requires
        engine.wf(),
        forall|i: int| 0 <= i < engine@.words.len() ==> (#[trigger] engine@.words[i]).len() < isize::MAX,
    ensures
        row_texts(rows@) == visible_rows(
            engine@,
            if width == 0 {
                1
            } else {
                width as nat
            },
            if height == 0 {
                1
            } else {
                height as nat
            },
        ),
{
    let ghost s = engine@;
    let width: usize = if width == 0 {
        1
    } else {
        width as usize
    };
    let words = engine.words();
    let current = engine.current_word_index();
    let mut rows: Vec<Vec<usize>> = Vec::new();
    rows.push(Vec::new());
    let mut row_width: usize = 0;
    let mut active_row: usize = 0;
    let mut index: usize = 0;
    while index < words.len()
        invariant
            s.words == crate::engine::texts(words@),
            current == s.current_word,
            current < words.len(),
            forall|i: int| 0 <= i < s.words.len() ==> (#[trigger] s.words[i]).len() < isize::MAX,
            index <= words.len(),
            row_texts(rows@) == wrap(s.words, width as nat, index as nat).0,
            row_width == wrap(s.words, width as nat, index as nat).1,
            row_width <= isize::MAX,
            width <= 65535,
            rows.len() >= 1,
            index > current ==> active_row == row_of(s.words, width as nat, current as nat),
        decreases words.len() - index,
    {
        proof {
            lemma_wrap(s.words, width as nat, index as nat);
            assert(s.words[index as int] == words@[index as int]@);
        }
        let word_width = words[index].as_str().unicode_len() + 1;
        let ghost before = row_texts(rows@);
        if row_width > 0 && row_width + word_width > width {
            rows.push(Vec::new());
            row_width = 0;
        }
        if index == current {
            active_row = rows.len() - 1;
        }
        let mut row = rows.pop().unwrap();
        row.push(index);
        rows.push(row);
        row_width = row_width + word_width;
        proof {
            let (prev, used) = wrap(s.words, width as nat, index as nat);
            assert(prev == before);
            assert(row_texts(rows@) =~= wrap(s.words, width as nat, (index + 1) as nat).0);
        }
        index = index + 1;
    }
    let visible: usize = if height == 0 {
        1
    } else {
        height as usize
    };
    proof {
        lemma_word_on_its_row(s.words, width as nat, current as nat, words.len() as nat);
    }
    let start = if active_row >= visible / 2 {
        active_row - visible / 2
    } else {
        0
    };
    let mut shown = rows.split_off(start);
    shown.truncate(visible);
    proof {
        assert(row_texts(shown@) =~= visible_rows(s, width as nat, visible as nat));
    }
    shown
}

/// How a character of the test screen is drawn.
#[derive(Clone, Copy, Debug, PartialEq, Eq, Structural)]
pub enum Mark {
    /// Typed as expected.
    Correct,
    /// Typed as something else, or a wrong word's space.
    Error,
    /// Never typed in a submitted word.
    Missed,
    /// Where the next character goes.
    Cursor,
    /// Not typed yet.
    Pending,
    /// Typed beyond the end of the word.
    Extra,
}

/// A character of the test screen and how it is drawn.
#[derive(Clone, Copy, Debug, PartialEq, Eq, Structural)]
pub struct MarkedChar {
    pub ch: char,
    pub mark: Mark,
}

/// The mark of the expected character at `position`.
pub open spec fn expected_mark(
    expected: Seq<char>,
    typed: Seq<char>,
    position: int,
    submitted: bool,
    active: bool,
) -> Mark {
    if position < typed.len() {
        if typed[position] == expected[position] {
            Mark::Correct
        } else {
            Mark::Error
        }
    } else if submitted {
        Mark::Missed
    } else if active && position == typed.len() {
        Mark::Cursor
    } else {
        Mark::Pending
    }
}

/// The mark of the space after a word.
pub open spec fn space_mark(
    expected: Seq<char>,
    typed: Seq<char>,
    submitted: bool,
    active: bool,
) -> Mark {
    if submitted {
        if typed == expected {
            Mark::Correct
        } else {
            Mark::Error
        }
    } else if active && typed.len() >= expected.len() {
        Mark::Cursor
    } else {
        Mark::Pending
    }
}

/// Number of typed characters beyond the end of the word.
pub open spec fn extra_len(expected: Seq<char>, typed: Seq<char>) -> nat {
    if typed.len() > expected.len() {
        (typed.len() - expected.len()) as nat
    } else {
        0
    }
}

/// Character `i` of a word as drawn.
pub open spec fn marked_at(
    expected: Seq<char>,
    typed: Seq<char>,
    i: int,
    submitted: bool,
    active: bool,
) -> MarkedChar {
    if i < expected.len() {
        MarkedChar { ch: expected[i], mark: expected_mark(expected, typed, i, submitted, active) }
    } else if i < expected.len() + extra_len(expected, typed) {
        MarkedChar { ch: typed[i], mark: Mark::Extra }
    } else {
        MarkedChar { ch: ' ', mark: space_mark(expected, typed, submitted, active) }
    }
}

/// A word as drawn: its expected characters, then the typed characters
/// beyond its end, then a space.
pub open spec fn word_marks(expected: Seq<char>, typed: Seq<char>, submitted: bool, active: bool) -> Seq<
    MarkedChar,
> {
    Seq::new(
        expected.len() + extra_len(expected, typed) + 1,
        |i: int| marked_at(expected, typed, i, submitted, active),
    )
}

/// What has been typed of word `index`: its submission, the input for the
/// current word, or nothing.
pub open spec fn typed_of(s: EngineState, index: int) -> Seq<char> {
    if index < s.submitted.len() {
        s.submitted[index]
    } else if index == s.current_word {
        s.input
    } else {
        Seq::empty()
    }
}

/// How word `index` is drawn.
pub open spec fn marks_of(s: EngineState, index: int) -> Seq<MarkedChar> {
    word_marks(
        s.words[index],
        typed_of(s, index),
        index < s.submitted.len(),
        index == s.current_word && !s.is_finished(),
    )
}

/// How word `index` of the test is drawn, character by character.
pub fn word_spans(engine: &Engine, index: usize) -> (r: Vec<MarkedChar>)
    requires
        engine.wf(),
        index < engine@.words.len(),
    ensures
        r@ == marks_of(engine@, index as int),
{
    let ghost s = engine@;
    let words = engine.words();
    let submitted_words = engine.submitted();
    let expected = words[index].as_str();
    let submitted = index < submitted_words.len();
    let active = index == engine.current_word_index() && !engine.is_finished();
    let typed: &str = if submitted {
        submitted_words[index].typed.as_str()
    } else if index == engine.current_word_index() {
        engine.current_input()
    } else {
        ""
    };
    proof {
        reveal_strlit("");
        assert(typed@ == typed_of(s, index as int));
    }
    let elen = expected.unicode_len();
    let tlen = typed.unicode_len();
    let ghost target = word_marks(expected@, typed@, submitted, active);
    let mut out: Vec<MarkedChar> = Vec::new();
    let mut p: usize = 0;
    while p < elen
        invariant
            elen == expected@.len(),
            tlen == typed@.len(),
            p <= elen,
            target == word_marks(expected@, typed@, submitted, active),
            target.len() == elen + extra_len(expected@, typed@) + 1,
            out@ == target.subrange(0, p as int),
        decreases elen - p,
    {
        let ch = expected.get_char(p);
        let mark = if p < tlen {
            if typed.get_char(p) == ch {
                Mark::Correct
            } else {
                Mark::Error
            }
        } else if submitted {
            Mark::Missed
        } else if active && p == tlen {
            Mark::Cursor
        } else {
            Mark::Pending
        };
        out.push(MarkedChar { ch, mark });
        assert(target[p as int] == MarkedChar { ch, mark });
        assert(out@ =~= target.subrange(0, p + 1));
        p = p + 1;
    }
    let mut k: usize = elen;
    while k < tlen
        invariant
            elen == expected@.len(),
            tlen == typed@.len(),
            elen <= k <= tlen || (k == elen && tlen < elen),
            target == word_marks(expected@, typed@, submitted, active),
            target.len() == elen + extra_len(expected@, typed@) + 1,
            out@ == target.subrange(0, k as int),
        decreases tlen - k,
    {
        let ch = typed.get_char(k);
        out.push(MarkedChar { ch, mark: Mark::Extra });
        assert(target[k as int] == MarkedChar { ch, mark: Mark::Extra });
        assert(out@ =~= target.subrange(0, k + 1));
        k = k + 1;
    }
    let exact = typed.unicode_len() == elen && same_text(typed, expected);
    let space = if submitted {
        if exact {
            Mark::Correct
        } else {
            Mark::Error
        }
    } else if active && tlen >= elen {
        Mark::Cursor
    } else {
        Mark::Pending
    };
    out.push(MarkedChar { ch: ' ', mark: space });
    assert(out@ =~= target);
    out
}

/// Whether two strings hold the same characters.
fn same_text(a: &str, b: &str) -> (r: bool)
    ensures
        r == (a@ == b@),
{
    let n = a.unicode_len();
    if n != b.unicode_len() {
        return false;
    }
    let mut i: usize = 0;
    while i < n
        invariant
            n == a@.len(),
            n == b@.len(),
            i <= n,
            forall|j: int| 0 <= j < i ==> a@[j] == b@[j],
        decreases n - i,
    {
        if a.get_char(i) != b.get_char(i) {
            return false;
        }
        i = i + 1;
    }
    assert(a@ =~= b@);
    true
}

} // verus!
