//! Terminal formatting: square corners, monospace, no colour, so the terminal
//! output and the panel look like the same product.
use vstd::prelude::*;
use vstd::string::*;

use crate::text::{chars_of, decimal, decimal_string, push_all, push_repeat, string_of, trim_end, trimmed_end};

verus! {

/// `n` copies of `c`.
pub open spec fn repeat(c: char, n: nat) -> Seq<char> {
    Seq::new(n, |i: int| c)
}

/// `a - b`, or zero when `b` is larger.
pub open spec fn sat_sub(a: nat, b: nat) -> nat {
    if a >= b {
        (a - b) as nat
    } else {
        0
    }
}

/// The printed width of a string: its character count. A name with an emoji
/// or a combining mark may sit one column off, which is acceptable for a
/// roster.
pub fn width(s: &str) -> (r: usize)
    ensures
        r == s@.len(),
{
    s.unicode_len()
}

/// `s` padded with spaces to `w` characters. A longer text is left alone.
pub open spec fn pad_spec(s: Seq<char>, w: nat) -> Seq<char> {
    if s.len() >= w {
        s
    } else {
        s + repeat(' ', (w - s.len()) as nat)
    }
}

/// `s` padded with spaces to `w` characters.
pub fn pad(s: &str, w: usize) -> (r: String)
    ensures
        r@ == pad_spec(s@, w as nat),
{
    let len = width(s);
    let mut out = string_of(chars_of(s).as_slice());
    if len < w {
        push_repeat(&mut out, ' ', w - len);
    }
    out
}

/// The text of a box top: `┌─ LABEL ───┐`, `total` characters wide when the
/// label leaves room.
pub open spec fn top_spec(label: Seq<char>, total: nat) -> Seq<char> {
    let head = seq!['┌', '─', ' '] + label + seq![' '];
    head + repeat('─', sat_sub(total, head.len() + 1)) + seq!['┐']
}

/// `┌─ LABEL ──────────┐`
pub fn top(label: &str, total: usize) -> (r: String)
    ensures
        r@ == top_spec(label@, total as nat),
{
    let mut out = String::new();
    let open: Vec<char> = vec!['┌', '─', ' '];
    push_all(&mut out, open.as_slice());
    push_all(&mut out, chars_of(label).as_slice());
    let space: Vec<char> = vec![' '];
    push_all(&mut out, space.as_slice());
    let used = out.as_str().unicode_len();
    let fill = if total >= used && total - used >= 1 {
        total - used - 1
    } else {
        0
    };
    push_repeat(&mut out, '─', fill);
    let close: Vec<char> = vec!['┐'];
    push_all(&mut out, close.as_slice());
    assert(out@ =~= top_spec(label@, total as nat));
    out
}

/// The text of a box bottom: `└───┘`.
pub open spec fn bottom_spec(total: nat) -> Seq<char> {
    seq!['└'] + repeat('─', sat_sub(total, 2)) + seq!['┘']
}

/// `└──────────────────┘`
pub fn bottom(total: usize) -> (r: String)
    ensures
        r@ == bottom_spec(total as nat),
{
    let mut out = String::new();
    let open: Vec<char> = vec!['└'];
    push_all(&mut out, open.as_slice());
    let fill = if total >= 2 {
        total - 2
    } else {
        0
    };
    push_repeat(&mut out, '─', fill);
    let close: Vec<char> = vec!['┘'];
    push_all(&mut out, close.as_slice());
    assert(out@ =~= bottom_spec(total as nat));
    out
}

/// The text of a section rule: the label in a gap, then a rule to column 70.
pub open spec fn label_spec(label: Seq<char>) -> Seq<char> {
    let head = seq![' ', ' '] + label + seq![' '];
    head + repeat('─', sat_sub(70, head.len()))
}

/// A section rule with the label sitting in a gap, and no box.
pub fn label(text: &str) -> (r: String)
    ensures
        r@ == label_spec(text@),
{
    let mut out = String::new();
    let open: Vec<char> = vec![' ', ' '];
    push_all(&mut out, open.as_slice());
    push_all(&mut out, chars_of(text).as_slice());
    let space: Vec<char> = vec![' '];
    push_all(&mut out, space.as_slice());
    let used = out.as_str().unicode_len();
    let fill = if used <= 70 {
        70 - used
    } else {
        0
    };
    push_repeat(&mut out, '─', fill);
    assert(out@ =~= label_spec(text@));
    out
}

/// How long ago `then` was, seen from `now`, both in Unix seconds.
pub open spec fn relative_time_spec(now: i64, then: i64) -> Seq<char> {
    let d = if now - then > i64::MAX {
        i64::MAX as int
    } else if now - then < i64::MIN {
        i64::MIN as int
    } else {
        now - then
    };
    if d < 0 {
        seq!['i', 'n', ' ', 't', 'h', 'e', ' ', 'f', 'u', 't', 'u', 'r', 'e']
    } else if d < 60 {
        seq!['j', 'u', 's', 't', ' ', 'n', 'o', 'w']
    } else if d < 3_600 {
        decimal((d / 60) as nat) + seq!['m', ' ', 'a', 'g', 'o']
    } else if d < 86_400 {
        decimal((d / 3_600) as nat) + seq!['h', ' ', 'a', 'g', 'o']
    } else if d < 86_400 * 30 {
        decimal((d / 86_400) as nat) + seq!['d', ' ', 'a', 'g', 'o']
    } else {
        seq!['l', 'o', 'n', 'g', ' ', 'a', 'g', 'o']
    }
}

/// Renders a Unix timestamp as a short relative time, seen from `now`.
pub fn relative_time_at(now: i64, then: i64) -> (r: String)
    ensures
        r@ == relative_time_spec(now, then),
{
    let d: i64 = if then >= 0 && now < i64::MIN + then {
        i64::MIN
    } else if then < 0 && now > i64::MAX + then {
        i64::MAX
    } else {
        now - then
    };
    let text: Vec<char> = if d < 0 {
        vec!['i', 'n', ' ', 't', 'h', 'e', ' ', 'f', 'u', 't', 'u', 'r', 'e']
    } else if d < 60 {
        vec!['j', 'u', 's', 't', ' ', 'n', 'o', 'w']
    } else {
        let (count, unit) = if d < 3_600 {
            (d / 60, 'm')
        } else if d < 86_400 {
            (d / 3_600, 'h')
        } else if d < 86_400 * 30 {
            (d / 86_400, 'd')
        } else {
            let long: Vec<char> = vec!['l', 'o', 'n', 'g', ' ', 'a', 'g', 'o'];
            let s = string_of(long.as_slice());
            assert(s@ =~= relative_time_spec(now, then));
            return s;
        };
        let mut s = decimal_string(count as u64);
        let tail: Vec<char> = vec![unit, ' ', 'a', 'g', 'o'];
        push_all(&mut s, tail.as_slice());
        assert(s@ =~= relative_time_spec(now, then));
        return s;
    };
    let s = string_of(text.as_slice());
    assert(s@ =~= relative_time_spec(now, then));
    s
}

/// Seconds since the Unix epoch, as the clock reads now; zero when the clock
/// reads before the epoch. Nothing is promised of the value: it is the time.
#[verifier::external_body]
pub fn now_secs() -> i64 {
    std::time::SystemTime::now().duration_since(std::time::UNIX_EPOCH).map(|d| d.as_secs() as i64).unwrap_or(0)
}

/// Renders a Unix timestamp as a short relative time, seen from the clock.
pub fn relative_time(then: i64) -> (r: String)
    ensures
        exists|now: i64| r@ == relative_time_spec(now, then),
{
    let now = now_secs();
    relative_time_at(now, then)
}

/// The width of column `i`: the widest of its header and every row's cell in
/// that column.
pub open spec fn column_width(header: Seq<char>, rows: Seq<Seq<Seq<char>>>, i: int) -> nat
    decreases rows.len(),
{
    if rows.len() == 0 {
        header.len()
    } else {
        let before = column_width(header, rows.drop_last(), i);
        let cell = if i < rows.last().len() {
            rows.last()[i].len()
        } else {
            0nat
        };
        if cell > before {
            cell
        } else {
            before
        }
    }
}

/// The cells of one line, padded to the column widths and joined by two
/// spaces. Cells past the last column are dropped, as are columns past the
/// last cell.
pub open spec fn join_padded(cells: Seq<Seq<char>>, widths: Seq<nat>) -> Seq<char>
    decreases cells.len(),
{
    let n = if cells.len() < widths.len() {
        cells.len()
    } else {
        widths.len()
    };
    if n == 0 {
        Seq::empty()
    } else if n == 1 {
        pad_spec(cells[0], widths[0])
    } else {
        join_padded(cells.subrange(0, n - 1), widths.subrange(0, n - 1)) + seq![' ', ' ']
            + pad_spec(cells[n - 1], widths[n - 1])
    }
}

/// A simple column-aligned table.
pub struct Table {
    headers: Vec<String>,
    rows: Vec<Vec<String>>,
}

impl Table {
    /// The header texts.
    pub closed spec fn spec_headers(&self) -> Seq<Seq<char>> {
        self.headers@.map_values(|h: String| h@)
    }

    /// The row texts.
    pub closed spec fn spec_rows(&self) -> Seq<Seq<Seq<char>>> {
        self.rows@.map_values(|r: Vec<String>| r@.map_values(|c: String| c@))
    }

    /// The width of every column.
    pub open spec fn spec_widths(&self) -> Seq<nat> {
        Seq::new(
            self.spec_headers().len(),
            |i: int| column_width(self.spec_headers()[i], self.spec_rows(), i),
        )
    }

    /// A table with these headers and no rows.
    pub fn new(headers: &[&str]) -> (t: Table)
        ensures
            t.spec_headers() == headers@.map_values(|h: &str| h@),
            t.spec_rows() == Seq::<Seq<Seq<char>>>::empty(),
    {
        let mut out: Vec<String> = Vec::new();
        let mut i: usize = 0;
        while i < headers.len()
            invariant
                i <= headers@.len(),
                out@.len() == i,
                forall|j: int| 0 <= j < i ==> #[trigger] out@[j]@ == headers@[j]@,
            decreases headers@.len() - i,
        {
            out.push(String::from_str(headers[i]));
            i = i + 1;
        }
        let t = Table { headers: out, rows: Vec::new() };
        assert(t.spec_headers() =~= headers@.map_values(|h: &str| h@));
        assert(t.spec_rows() =~= Seq::<Seq<Seq<char>>>::empty());
        t
    }

    /// Adds a row.
    pub fn row(&mut self, cells: Vec<String>)
        ensures
            final(self).spec_headers() == old(self).spec_headers(),
            final(self).spec_rows() == old(self).spec_rows().push(
                cells@.map_values(|c: String| c@),
            ),
    {
        let ghost before = *self;
        self.rows.push(cells);
        assert(self.spec_headers() =~= before.spec_headers());
        assert(self.spec_rows() =~= before.spec_rows().push(cells@.map_values(|c: String| c@)));
    }

    /// The width of every column.
    pub fn widths(&self) -> (r: Vec<usize>)
        ensures
            r@.len() == self.spec_headers().len(),
            forall|i: int| 0 <= i < r@.len() ==> r@[i] as nat == #[trigger] self.spec_widths()[i],
    {
        let ghost headers = self.spec_headers();
        let ghost rows = self.spec_rows();
        let mut widths: Vec<usize> = Vec::new();
        let mut i: usize = 0;
        while i < self.headers.len()
            invariant
                headers == self.spec_headers(),
                i <= self.headers@.len(),
                widths@.len() == i,
                forall|j: int|
                    0 <= j < i ==> #[trigger] widths@[j] as nat == column_width(
                        headers[j],
                        rows.subrange(0, 0),
                        j,
                    ),
            decreases self.headers@.len() - i,
        {
            widths.push(width(self.headers[i].as_str()));
            i = i + 1;
        }
        let mut r: usize = 0;
        while r < self.rows.len()
            invariant
                headers == self.spec_headers(),
                rows == self.spec_rows(),
                r <= self.rows@.len(),
                widths@.len() == headers.len(),
                forall|j: int|
                    0 <= j < widths@.len() ==> #[trigger] widths@[j] as nat == column_width(
                        headers[j],
                        rows.subrange(0, r as int),
                        j,
                    ),
            decreases self.rows@.len() - r,
        {
            let row = &self.rows[r];
            let ghost before = widths@;
            proof {
                assert(rows.subrange(0, r + 1).drop_last() =~= rows.subrange(0, r as int));
                assert(rows.subrange(0, r + 1).last() == rows[r as int]);
            }
            let mut c: usize = 0;
            while c < row.len()
                invariant
                    headers == self.spec_headers(),
                    rows == self.spec_rows(),
                    r < self.rows@.len(),
                    *row == self.rows@[r as int],
                    c <= row@.len(),
                    widths@.len() == headers.len(),
                    before.len() == headers.len(),
                    rows[r as int] == row@.map_values(|x: String| x@),
                    rows.subrange(0, r + 1).drop_last() == rows.subrange(0, r as int),
                    rows.subrange(0, r + 1).last() == rows[r as int],
                    forall|j: int|
                        0 <= j < before.len() ==> #[trigger] before[j] as nat == column_width(
                            headers[j],
                            rows.subrange(0, r as int),
                            j,
                        ),
                    forall|j: int|
                        0 <= j < widths@.len() ==> #[trigger] widths@[j] as nat == if j < c {
                            column_width(headers[j], rows.subrange(0, r + 1), j)
                        } else {
                            before[j] as nat
                        },
                decreases row@.len() - c,
            {
                if c < widths.len() {
                    let w = width(row[c].as_str());
                    if w > widths[c] {
                        widths.set(c, w);
                    }
                    proof {
                        assert(rows[r as int][c as int] == row@[c as int]@);
                    }
                }
                c = c + 1;
            }
            proof {
                assert forall|j: int| 0 <= j < widths@.len() implies #[trigger] widths@[j] as nat
                    == column_width(headers[j], rows.subrange(0, r + 1), j) by {
                    assert(rows.subrange(0, r + 1).drop_last() =~= rows.subrange(0, r as int));
                    assert(rows.subrange(0, r + 1).last() == rows[r as int]);
                }
            }
            r = r + 1;
        }
        assert(rows.subrange(0, self.rows@.len() as int) =~= rows);
        widths
    }

    /// One line of the table: the indent, then the padded cells.
    fn line(indent: &str, cells: &Vec<String>, widths: &Vec<usize>) -> (r: String)
        ensures
            r@ == indent@ + trimmed_end(
                join_padded(
                    cells@.map_values(|c: String| c@),
                    widths@.map_values(|w: usize| w as nat),
                ),
            ),
    {
        let ghost cs = cells@.map_values(|c: String| c@);
        let ghost ws = widths@.map_values(|w: usize| w as nat);
        let n = if cells.len() < widths.len() {
            cells.len()
        } else {
            widths.len()
        };
        let mut joined = String::new();
        let mut i: usize = 0;
        while i < n
            invariant
                n <= cells@.len(),
                n <= widths@.len(),
                n == if cells@.len() < widths@.len() {
                    cells@.len()
                } else {
                    widths@.len()
                },
                i <= n,
                cs == cells@.map_values(|c: String| c@),
                ws == widths@.map_values(|w: usize| w as nat),
                joined@ == join_padded(cs.subrange(0, i as int), ws.subrange(0, i as int)),
            decreases n - i,
        {
            proof {
                let c1 = cs.subrange(0, i + 1);
                let w1 = ws.subrange(0, i + 1);
                assert(c1.subrange(0, i as int) =~= cs.subrange(0, i as int));
                assert(w1.subrange(0, i as int) =~= ws.subrange(0, i as int));
            }
            if i > 0 {
                let sep: Vec<char> = vec![' ', ' '];
                push_all(&mut joined, sep.as_slice());
            }
            let cell = pad(cells[i].as_str(), widths[i]);
            push_all(&mut joined, chars_of(cell.as_str()).as_slice());
            i = i + 1;
            proof {
                if i == 1 {
                    assert(joined@ =~= join_padded(cs.subrange(0, 1), ws.subrange(0, 1)));
                } else {
                    assert(joined@ =~= join_padded(
                        cs.subrange(0, i as int),
                        ws.subrange(0, i as int),
                    ));
                }
            }
        }
        proof {
            if cs.len() < ws.len() {
                assert(cs.subrange(0, n as int) =~= cs);
            } else {
                assert(ws.subrange(0, n as int) =~= ws);
            }
        }
        assert(join_padded(cs.subrange(0, n as int), ws.subrange(0, n as int)) == join_padded(cs, ws))
            by {
            assert(join_padded(cs, ws) == join_padded(
                cs.subrange(0, n as int),
                ws.subrange(0, n as int),
            )) by {
                lemma_join_padded_truncate(cs, ws);
            }
        }
        let mut out = string_of(chars_of(indent).as_slice());
        let body = trim_end(joined.as_str());
        push_all(&mut out, chars_of(body).as_slice());
        out
    }

    /// Every line of the table, the header first, each with `indent` before
    /// it.
    pub fn render(&self, indent: &str) -> (r: Vec<String>)
        ensures
            r@.len() == self.spec_rows().len() + 1,
            r@[0]@ == indent@ + trimmed_end(join_padded(self.spec_headers(), self.spec_widths())),
            forall|k: int|
                0 <= k < self.spec_rows().len() ==> #[trigger] r@[k + 1]@ == indent@
                    + trimmed_end(join_padded(self.spec_rows()[k], self.spec_widths())),
    {
        let widths = self.widths();
        assert(widths@.map_values(|w: usize| w as nat) =~= self.spec_widths());
        let mut lines: Vec<String> = Vec::new();
        let head = Table::line(indent, &self.headers, &widths);
        assert(self.headers@.map_values(|c: String| c@) =~= self.spec_headers());
        lines.push(head);
        let mut r: usize = 0;
        while r < self.rows.len()
            invariant
                r <= self.rows@.len(),
                widths@.map_values(|w: usize| w as nat) == self.spec_widths(),
                lines@.len() == r + 1,
                lines@[0]@ == indent@ + trimmed_end(
                    join_padded(self.spec_headers(), self.spec_widths()),
                ),
                forall|k: int|
                    0 <= k < r ==> #[trigger] lines@[k + 1]@ == indent@ + trimmed_end(
                        join_padded(self.spec_rows()[k], self.spec_widths()),
                    ),
            decreases self.rows@.len() - r,
        {
            let line = Table::line(indent, &self.rows[r], &widths);
            assert(self.rows@[r as int]@.map_values(|c: String| c@) == self.spec_rows()[r as int]);
            lines.push(line);
            r = r + 1;
        }
        lines
    }
}

/// Joining only ever looks at as many cells as there are columns, and as many
/// columns as there are cells.
proof fn lemma_join_padded_truncate(cs: Seq<Seq<char>>, ws: Seq<nat>)
    ensures
        ({
            let n = if cs.len() < ws.len() {
                cs.len()
            } else {
                ws.len()
            };
            join_padded(cs, ws) == join_padded(cs.subrange(0, n as int), ws.subrange(0, n as int))
        }),
{
    let n = if cs.len() < ws.len() {
        cs.len()
    } else {
        ws.len()
    };
    let c2 = cs.subrange(0, n as int);
    let w2 = ws.subrange(0, n as int);
    if n >= 2 {
        assert(c2.subrange(0, n - 1) =~= cs.subrange(0, n - 1));
        assert(w2.subrange(0, n - 1) =~= ws.subrange(0, n - 1));
    }
}

} // verus!
