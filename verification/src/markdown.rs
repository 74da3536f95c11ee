//! The Markdown of chat messages as the terminal shows it: headings, bold
//! spans, and pipe tables redrawn with box-drawing characters.
//!
//! A rendered line is a list of spans, each a text and a style; the terminal
//! front end maps the styles to colours.
use vstd::prelude::*;
use crate::text::{
    byte_len, byte_len_exec, chars_of, contains, contains_chars, lemma_byte_len_subrange, lemma_byte_len_trim, lemma_split_nonempty,
    lemma_split_piece_bytes, slice_chars, split_exec, split_pieces, starts_with, string_from_chars,
    trim, trim_chars,
};

verus! {

/// How a span is drawn.
#[derive(Clone, Copy, Debug, PartialEq, Eq, Structural)]
pub enum SpanStyle {
    Plain,
    Heading,
    Bold,
    Border,
    HeaderRow,
    BodyRow,
    UserLabel,
    AgentLabel,
    SystemLabel,
    Dim,
}

/// A piece of a line with one style.
pub struct StyledSpan {
    pub text: String,
    pub style: SpanStyle,
}

/// One line on screen.
pub struct StyledLine {
    pub spans: Vec<StyledSpan>,
}

pub open spec fn span_view(s: StyledSpan) -> (Seq<char>, SpanStyle) {
    (s.text@, s.style)
}

pub open spec fn line_view(l: StyledLine) -> Seq<(Seq<char>, SpanStyle)> {
    Seq::new(l.spans@.len(), |i: int| span_view(l.spans@[i]))
}

pub open spec fn lines_view(v: Seq<StyledLine>) -> Seq<Seq<(Seq<char>, SpanStyle)>> {
    Seq::new(v.len(), |i: int| line_view(v[i]))
}

/// The texts of a list of character vectors.
pub open spec fn char_rows(v: Seq<Vec<char>>) -> Seq<Seq<char>> {
    Seq::new(v.len(), |i: int| v[i]@)
}

// ---------------------------------------------------------------------------
// Lines of a text
// ---------------------------------------------------------------------------
/// `l` without a final carriage return.
pub open spec fn strip_cr(l: Seq<char>) -> Seq<char> {
    if l.len() > 0 && l.last() == '\r' {
        l.drop_last()
    } else {
        l
    }
}

/// The lines of a text (`str::lines`): split at each `\n`, the `\r` of a
/// `\r\n` dropped, and no empty line after a final `\n`.
pub open spec fn text_lines(s: Seq<char>) -> Seq<Seq<char>> {
    let p = split_pieces(s, seq!['\n'], 0);
    let n: int = if s.len() == 0 {
        0
    } else if s.last() == '\n' {
        p.len() - 1
    } else {
        p.len() as int
    };
    Seq::new(n as nat, |k: int| if k + 1 < p.len() { strip_cr(p[k]) } else { p[k] })
}

// ---------------------------------------------------------------------------
// Headings, bold spans and tables
// ---------------------------------------------------------------------------
pub open spec fn pipe() -> Seq<char> {
    seq!['|']
}

pub open spec fn dashes() -> Seq<char> {
    seq!['-', '-', '-']
}

pub open spec fn stars() -> Seq<char> {
    seq!['*', '*']
}

/// The end of the run of lines from `j` on that start with `|`.
pub open spec fn table_end(ls: Seq<Seq<char>>, j: nat) -> nat
    decreases ls.len() - j,
{
    if j < ls.len() && starts_with(ls[j as int], pipe()) {
        table_end(ls, j + 1)
    } else {
        j
    }
}

pub proof fn lemma_table_end_bounds(ls: Seq<Seq<char>>, j: nat)
    ensures
        j <= table_end(ls, j),
        j <= ls.len() ==> table_end(ls, j) <= ls.len(),
    decreases ls.len() - j,
{
    if j < ls.len() && starts_with(ls[j as int], pipe()) {
        lemma_table_end_bounds(ls, j + 1);
    }
}

/// A table starts at line `i`: it starts with `|`, the next line holds
/// `---`, and at least three lines in a row start with `|`.
pub open spec fn starts_table(ls: Seq<Seq<char>>, i: nat) -> bool {
    &&& i + 1 < ls.len()
    &&& starts_with(ls[i as int], pipe())
    &&& contains(ls[i + 1 as int], dashes())
    &&& table_end(ls, i) >= i + 3
}

/// The spans of a line split at `**`: odd pieces bold, the others plain.
pub open spec fn bold_spans(parts: Seq<Seq<char>>) -> Seq<(Seq<char>, SpanStyle)> {
    Seq::new(
        parts.len(),
        |k: int| (parts[k], if k % 2 == 1 { SpanStyle::Bold } else { SpanStyle::Plain }),
    )
}

/// A line that is not part of a table.
pub open spec fn plain_line(l: Seq<char>) -> Seq<(Seq<char>, SpanStyle)> {
    if starts_with(l, seq!['#']) {
        seq![(l, SpanStyle::Heading)]
    } else if contains(l, stars()) {
        bold_spans(split_pieces(l, stars(), 0))
    } else {
        seq![(l, SpanStyle::Plain)]
    }
}

/// The rendering of the lines from `i` on.
pub open spec fn format_from(ls: Seq<Seq<char>>, i: nat) -> Seq<Seq<(Seq<char>, SpanStyle)>>
    decreases ls.len() - i,
{
    if i >= ls.len() {
        Seq::empty()
    } else if starts_table(ls, i) {
        proof {
            lemma_table_end_bounds(ls, i);
        }
        table_lines(ls.subrange(i as int, table_end(ls, i) as int)) + format_from(
            ls,
            table_end(ls, i),
        )
    } else {
        seq![plain_line(ls[i as int])] + format_from(ls, i + 1)
    }
}

/// The rendering of a chat message.
pub open spec fn formatted(text: Seq<char>) -> Seq<Seq<(Seq<char>, SpanStyle)>> {
    format_from(text_lines(text), 0)
}

// -- tables -------------------------------------------------------------------
/// The trimmed non-blank pieces, in order.
pub open spec fn kept_cells(parts: Seq<Seq<char>>) -> Seq<Seq<char>>
    decreases parts.len(),
{
    if parts.len() == 0 {
        Seq::empty()
    } else if trim(parts.last()).len() > 0 {
        kept_cells(parts.drop_last()).push(trim(parts.last()))
    } else {
        kept_cells(parts.drop_last())
    }
}

/// The cells of a table row: split at `|`, blank pieces dropped, trimmed.
pub open spec fn row_cells(row: Seq<char>) -> Seq<Seq<char>> {
    kept_cells(split_pieces(row, pipe(), 0))
}

/// The rows of a table that hold data: separator rows (with `---`) and rows
/// without cells are left out.
pub open spec fn table_grid(rows: Seq<Seq<char>>) -> Seq<Seq<Seq<char>>>
    decreases rows.len(),
{
    if rows.len() == 0 {
        Seq::empty()
    } else if contains(rows.last(), dashes()) || row_cells(rows.last()).len() == 0 {
        table_grid(rows.drop_last())
    } else {
        table_grid(rows.drop_last()).push(row_cells(rows.last()))
    }
}

/// The widest cell of column `c`, in bytes.
pub open spec fn column_width(grid: Seq<Seq<Seq<char>>>, c: int) -> nat
    decreases grid.len(),
{
    if grid.len() == 0 {
        0
    } else {
        let prev = column_width(grid.drop_last(), c);
        let row = grid.last();
        if c < row.len() && byte_len(row[c]) > prev {
            byte_len(row[c])
        } else {
            prev
        }
    }
}

/// The widths of the columns of the first row.
pub open spec fn column_widths(grid: Seq<Seq<Seq<char>>>) -> Seq<nat> {
    Seq::new(grid[0].len(), |c: int| column_width(grid, c))
}

/// `n` copies of `c`.
pub open spec fn repeat(c: char, n: nat) -> Seq<char> {
    Seq::new(n, |i: int| c)
}

proof fn lemma_column_width_bounds(grid: Seq<Seq<Seq<char>>>, c: int)
    requires
        0 <= c,
    ensures
        forall|r: int|
            0 <= r < grid.len() && 0 <= c < grid[r].len() ==> byte_len(#[trigger] grid[r][c])
                <= column_width(grid, c),
        column_width(grid, c) == 0 || exists|r: int|
            0 <= r < grid.len() && 0 <= c < grid[r].len() && column_width(grid, c) == byte_len(
                #[trigger] grid[r][c],
            ),
    decreases grid.len(),
{
    if grid.len() > 0 {
        let t = grid.drop_last();
        lemma_column_width_bounds(t, c);
        assert forall|r: int| 0 <= r < grid.len() && 0 <= c < grid[r].len() implies byte_len(
            #[trigger] grid[r][c],
        ) <= column_width(grid, c) by {
            if r < t.len() {
                assert(t[r] == grid[r]);
            }
        }
        if column_width(grid, c) != 0 && column_width(grid, c) == column_width(t, c) {
            let r = choose|r: int|
                0 <= r < t.len() && 0 <= c < t[r].len() && column_width(t, c) == byte_len(
                    #[trigger] t[r][c],
                );
            assert(t[r] == grid[r]);
        } else if column_width(grid, c) != 0 {
            let last = grid.len() - 1;
            assert(grid[last] == grid.last());
            assert(column_width(grid, c) == byte_len(grid[last][c]));
        }
    }
}

/// The width of each column of a drawn table is that of one of its cells.
pub proof fn lemma_column_width_attained(grid: Seq<Seq<Seq<char>>>, c: int)
    requires
        grid.len() > 0,
        0 <= c < grid[0].len(),
    ensures
        exists|r: int|
            #![trigger grid[r][c]]
            0 <= r < grid.len() && c < grid[r].len() && column_widths(grid)[c] == byte_len(
                grid[r][c],
            ),
{
    lemma_column_width_bounds(grid, c);
    assert(column_widths(grid)[c] == column_width(grid, c));
    if column_width(grid, c) == 0 {
        assert(byte_len(grid[0][c]) <= column_width(grid, c));
        assert(column_widths(grid)[c] == byte_len(grid[0][c]));
    } else {
        let r = choose|r: int|
            0 <= r < grid.len() && 0 <= c < grid[r].len() && column_width(grid, c) == byte_len(
                #[trigger] grid[r][c],
            );
        assert(column_widths(grid)[c] == byte_len(grid[r][c]));
    }
}

/// No cell of a drawn table is wider, in bytes, than its column, over all
/// the data rows (with `lemma_column_width_attained`: each column is as wide
/// as its widest cell).
pub proof fn lemma_columns_fit_their_cells(grid: Seq<Seq<Seq<char>>>)
    requires
        grid.len() > 0,
    ensures
        column_widths(grid).len() == grid[0].len(),
        forall|r: int, c: int|
            0 <= r < grid.len() && 0 <= c < grid[0].len() && c < grid[r].len() ==> byte_len(
                #[trigger] grid[r][c],
            ) <= #[trigger] column_widths(grid)[c],
{
    assert forall|r: int, c: int|
        0 <= r < grid.len() && 0 <= c < grid[0].len() && c < grid[r].len() implies byte_len(
        #[trigger] grid[r][c],
    ) <= #[trigger] column_widths(grid)[c] by {
        lemma_column_width_bounds(grid, c);
    }
}

/// A horizontal rule as wide as a cell of width `w` with its margins.
pub open spec fn rule(w: nat) -> Seq<char> {
    repeat('─', w + 2)
}

/// The first `k` columns of a border line.
pub open spec fn border_upto(widths: Seq<nat>, k: nat, mid: char, right: char) -> Seq<char>
    decreases k,
{
    if k == 0 {
        Seq::empty()
    } else {
        border_upto(widths, (k - 1) as nat, mid, right) + rule(widths[k - 1]) + seq![
            if k < widths.len() {
                mid
            } else {
                right
            },
        ]
    }
}

pub open spec fn border_line(widths: Seq<nat>, left: char, mid: char, right: char) -> Seq<char> {
    seq![left] + border_upto(widths, widths.len(), mid, right)
}

/// `v` padded with spaces to `w` characters (`format!("{:<w$}", v)`).
pub open spec fn pad(v: Seq<char>, w: nat) -> Seq<char> {
    v + repeat(' ', if v.len() < w { (w - v.len()) as nat } else { 0 })
}

pub open spec fn cell_at(row: Seq<Seq<char>>, c: int) -> Seq<char> {
    if 0 <= c < row.len() {
        row[c]
    } else {
        Seq::empty()
    }
}

/// The first `k` cells of a drawn row.
pub open spec fn row_upto(row: Seq<Seq<char>>, widths: Seq<nat>, k: nat) -> Seq<char>
    decreases k,
{
    if k == 0 {
        Seq::empty()
    } else {
        row_upto(row, widths, (k - 1) as nat) + seq![' '] + pad(cell_at(row, k - 1), widths[k - 1])
            + seq![' ', '│']
    }
}

pub open spec fn row_line(row: Seq<Seq<char>>, widths: Seq<nat>) -> Seq<char> {
    seq!['│'] + row_upto(row, widths, widths.len())
}

/// The lines drawn for row `r`: the first is the header, followed by a rule.
pub open spec fn row_block(grid: Seq<Seq<Seq<char>>>, widths: Seq<nat>, r: int) -> Seq<
    Seq<(Seq<char>, SpanStyle)>,
> {
    if r == 0 {
        seq![
            seq![(row_line(grid[0], widths), SpanStyle::HeaderRow)],
            seq![(border_line(widths, '├', '┼', '┤'), SpanStyle::Border)],
        ]
    } else {
        seq![seq![(row_line(grid[r], widths), SpanStyle::BodyRow)]]
    }
}

pub open spec fn grid_lines(grid: Seq<Seq<Seq<char>>>, widths: Seq<nat>, k: nat) -> Seq<
    Seq<(Seq<char>, SpanStyle)>,
>
    decreases k,
{
    if k == 0 {
        Seq::empty()
    } else {
        grid_lines(grid, widths, (k - 1) as nat) + row_block(grid, widths, k - 1)
    }
}

/// A table drawn with box characters; nothing when it holds no data row.
pub open spec fn table_lines(rows: Seq<Seq<char>>) -> Seq<Seq<(Seq<char>, SpanStyle)>> {
    let grid = table_grid(rows);
    if grid.len() == 0 {
        Seq::empty()
    } else {
        let widths = column_widths(grid);
        seq![seq![(border_line(widths, '┌', '┬', '┐'), SpanStyle::Border)]] + grid_lines(
            grid,
            widths,
            grid.len(),
        ) + seq![seq![(border_line(widths, '└', '┴', '┘'), SpanStyle::Border)]]
    }
}

/// The texts of a grid of cells.
pub open spec fn grid_view(g: Seq<Vec<Vec<char>>>) -> Seq<Seq<Seq<char>>> {
    Seq::new(g.len(), |i: int| char_rows(g[i]@))
}

pub open spec fn nat_widths(v: Seq<usize>) -> Seq<nat> {
    Seq::new(v.len(), |i: int| v[i] as nat)
}

// ---------------------------------------------------------------------------
// Bounds on byte lengths
// ---------------------------------------------------------------------------
proof fn lemma_text_lines_bytes(s: Seq<char>)
    ensures
        forall|k: int|
            0 <= k < text_lines(s).len() ==> byte_len(#[trigger] text_lines(s)[k]) <= byte_len(s),
{
    let p = split_pieces(s, seq!['\n'], 0);
    lemma_split_nonempty(s, seq!['\n'], 0);
    assert forall|k: int| 0 <= k < text_lines(s).len() implies byte_len(
        #[trigger] text_lines(s)[k],
    ) <= byte_len(s) by {
        lemma_split_piece_bytes(s, seq!['\n'], 0, k);
        let x = p[k];
        if x.len() > 0 {
            lemma_byte_len_subrange(x, 0, x.len() - 1);
            assert(x.drop_last() =~= x.subrange(0, x.len() - 1));
        }
    }
}

proof fn lemma_kept_cells_bytes(parts: Seq<Seq<char>>, bound: nat)
    requires
        forall|k: int| 0 <= k < parts.len() ==> byte_len(#[trigger] parts[k]) <= bound,
    ensures
        forall|c: int|
            0 <= c < kept_cells(parts).len() ==> byte_len(#[trigger] kept_cells(parts)[c]) <= bound,
    decreases parts.len(),
{
    if parts.len() > 0 {
        let prev = parts.drop_last();
        assert forall|k: int| 0 <= k < prev.len() implies byte_len(#[trigger] prev[k]) <= bound by {
            assert(prev[k] == parts[k]);
        }
        lemma_kept_cells_bytes(prev, bound);
        lemma_byte_len_trim(parts.last());
        assert(byte_len(parts[parts.len() - 1]) <= bound);
        let kept = kept_cells(parts);
        assert forall|c: int| 0 <= c < kept.len() implies byte_len(#[trigger] kept[c]) <= bound by {
            if c < kept_cells(prev).len() {
                assert(kept[c] == kept_cells(prev)[c]);
            }
        }
    }
}

proof fn lemma_row_cells_bytes(row: Seq<char>)
    ensures
        forall|c: int|
            0 <= c < row_cells(row).len() ==> byte_len(#[trigger] row_cells(row)[c]) <= byte_len(
                row,
            ),
{
    let parts = split_pieces(row, pipe(), 0);
    assert forall|k: int| 0 <= k < parts.len() implies byte_len(#[trigger] parts[k]) <= byte_len(
        row,
    ) by {
        lemma_split_piece_bytes(row, pipe(), 0, k);
    }
    lemma_kept_cells_bytes(parts, byte_len(row));
}

proof fn lemma_grid_bytes(rows: Seq<Seq<char>>, bound: nat)
    requires
        forall|k: int| 0 <= k < rows.len() ==> byte_len(#[trigger] rows[k]) <= bound,
    ensures
        forall|r: int, c: int|
            0 <= r < table_grid(rows).len() && 0 <= c < table_grid(rows)[r].len() ==> byte_len(
                #[trigger] table_grid(rows)[r][c],
            ) <= bound,
    decreases rows.len(),
{
    if rows.len() > 0 {
        let prev = rows.drop_last();
        assert forall|k: int| 0 <= k < prev.len() implies byte_len(#[trigger] prev[k]) <= bound by {
            assert(prev[k] == rows[k]);
        }
        lemma_grid_bytes(prev, bound);
        lemma_row_cells_bytes(rows.last());
        assert(byte_len(rows[rows.len() - 1]) <= bound);
        let g = table_grid(rows);
        assert forall|r: int, c: int| 0 <= r < g.len() && 0 <= c < g[r].len() implies byte_len(
            #[trigger] g[r][c],
        ) <= bound by {
            if r < table_grid(prev).len() {
                assert(g[r] == table_grid(prev)[r]);
            }
        }
    }
}

// ---------------------------------------------------------------------------
// Building lines
// ---------------------------------------------------------------------------
/// A line of one span.
fn single_line(text: &[char], style: SpanStyle) -> (l: StyledLine)
    ensures
        line_view(l) == seq![(text@, style)],
{
    let mut spans: Vec<StyledSpan> = Vec::new();
    spans.push(StyledSpan { text: string_from_chars(text), style });
    let l = StyledLine { spans };
    assert(line_view(l) =~= seq![(text@, style)]);
    l
}

/// Whether `l` starts with `c`.
fn starts_with_char(l: &[char], c: char) -> (b: bool)
    ensures
        b == starts_with(l@, seq![c]),
{
    if l.len() >= 1 && l[0] == c {
        assert(l@.subrange(0, 1) =~= seq![c]);
        true
    } else {
        proof {
            if l@.len() >= 1 && l@.subrange(0, 1) == seq![c] {
                assert(l@.subrange(0, 1)[0] == l@[0]);
            }
        }
        false
    }
}

fn strip_cr_exec(l: &[char]) -> (r: Vec<char>)
    ensures
        r@ == strip_cr(l@),
{
    let n = l.len();
    if n > 0 && l[n - 1] == '\r' {
        let r = slice_chars(l, 0, n - 1);
        assert(r@ =~= l@.drop_last());
        r
    } else {
        let r = slice_chars(l, 0, n);
        assert(r@ =~= l@);
        r
    }
}

/// The lines of `s`.
pub fn text_lines_exec(s: &[char]) -> (r: Vec<Vec<char>>)
    ensures
        char_rows(r@) == text_lines(s@),
{
    let nl: [char; 1] = ['\n'];
    assert(nl@ =~= seq!['\n']);
    let pieces = split_exec(s, nl.as_slice());
    let ghost p = split_pieces(s@, seq!['\n'], 0);
    proof {
        lemma_split_nonempty(s@, seq!['\n'], 0);
    }
    let total = pieces.len();
    let n: usize = if s.len() == 0 {
        0
    } else if s[s.len() - 1] == '\n' {
        total - 1
    } else {
        total
    };
    assert(n == text_lines(s@).len());
    let mut r: Vec<Vec<char>> = Vec::new();
    let mut k: usize = 0;
    while k < n
        invariant
            k <= n <= total,
            total == p.len() == pieces@.len(),
            forall|j: int| 0 <= j < total ==> #[trigger] pieces@[j]@ == p[j],
            p == split_pieces(s@, seq!['\n'], 0),
            n == text_lines(s@).len(),
            r@.len() == k,
            forall|j: int| 0 <= j < k ==> #[trigger] r@[j]@ == text_lines(s@)[j],
        decreases n - k,
    {
        let line = if k + 1 < total {
            strip_cr_exec(pieces[k].as_slice())
        } else {
            let whole = slice_chars(pieces[k].as_slice(), 0, pieces[k].len());
            assert(whole@ =~= pieces@[k as int]@);
            whole
        };
        r.push(line);
        k += 1;
    }
    assert(char_rows(r@) =~= text_lines(s@));
    r
}

/// Where the run of `|` lines starting at `i` ends.
fn table_end_exec(ls: &Vec<Vec<char>>, i: usize) -> (j: usize)
    requires
        i <= ls@.len(),
    ensures
        j == table_end(char_rows(ls@), i as nat),
        i <= j <= ls@.len(),
{
    let ghost lv = char_rows(ls@);
    let n = ls.len();
    let mut j = i;
    while j < n && starts_with_char(ls[j].as_slice(), '|')
        invariant
            i <= j <= n == ls@.len(),
            lv == char_rows(ls@),
            table_end(lv, j as nat) == table_end(lv, i as nat),
        decreases n - j,
    {
        assert(seq!['|'] =~= pipe());
        j += 1;
    }
    assert(seq!['|'] =~= pipe());
    j
}

/// The rendering of a line outside a table.
fn plain_line_exec(l: &[char]) -> (r: StyledLine)
    ensures
        line_view(r) == plain_line(l@),
{
    let st: [char; 2] = ['*', '*'];
    assert(st@ =~= stars());
    if starts_with_char(l, '#') {
        return single_line(l, SpanStyle::Heading);
    }
    if !contains_chars(l, st.as_slice()) {
        return single_line(l, SpanStyle::Plain);
    }
    let parts = split_exec(l, st.as_slice());
    let ghost pv = split_pieces(l@, stars(), 0);
    let mut spans: Vec<StyledSpan> = Vec::new();
    let mut k: usize = 0;
    while k < parts.len()
        invariant
            k <= parts@.len() == pv.len(),
            forall|j: int| 0 <= j < pv.len() ==> #[trigger] parts@[j]@ == pv[j],
            spans@.len() == k,
            forall|j: int| 0 <= j < k ==> span_view(#[trigger] spans@[j]) == bold_spans(pv)[j],
        decreases parts@.len() - k,
    {
        let style = if k % 2 == 1 {
            SpanStyle::Bold
        } else {
            SpanStyle::Plain
        };
        spans.push(StyledSpan { text: string_from_chars(parts[k].as_slice()), style });
        k += 1;
    }
    let r = StyledLine { spans };
    assert(line_view(r) =~= bold_spans(pv));
    r
}

/// Lines `a..b` of `ls`, copied.
fn copy_rows(ls: &Vec<Vec<char>>, a: usize, b: usize) -> (r: Vec<Vec<char>>)
    requires
        a <= b <= ls@.len(),
    ensures
        char_rows(r@) == char_rows(ls@).subrange(a as int, b as int),
{
    let mut r: Vec<Vec<char>> = Vec::new();
    let mut k: usize = a;
    while k < b
        invariant
            a <= k <= b <= ls@.len(),
            r@.len() == k - a,
            forall|j: int| 0 <= j < k - a ==> #[trigger] r@[j]@ == ls@[a + j]@,
        decreases b - k,
    {
        let row = slice_chars(ls[k].as_slice(), 0, ls[k].len());
        assert(row@ =~= ls@[k as int]@);
        r.push(row);
        k += 1;
    }
    assert(char_rows(r@) =~= char_rows(ls@).subrange(a as int, b as int));
    r
}

/// Renders the Markdown of a chat message.
pub fn format_markdown(text: &str) -> (r: Vec<StyledLine>)
    requires
        byte_len(text@) <= isize::MAX,
    ensures
        lines_view(r@) == formatted(text@),
{
    let chars = chars_of(text);
    let ls = text_lines_exec(chars.as_slice());
    let ghost lv = char_rows(ls@);
    proof {
        lemma_text_lines_bytes(text@);
    }
    let dash: [char; 3] = ['-', '-', '-'];
    assert(dash@ =~= dashes());
    assert(seq!['|'] =~= pipe());
    let n = ls.len();
    let mut out: Vec<StyledLine> = Vec::new();
    let mut i: usize = 0;
    while i < n
        invariant
            i <= n == lv.len(),
            lv == char_rows(ls@),
            lv == text_lines(text@),
            dash@ == dashes(),
            forall|k: int| 0 <= k < lv.len() ==> byte_len(#[trigger] lv[k]) <= isize::MAX,
            lines_view(out@) + format_from(lv, i as nat) == format_from(lv, 0),
        decreases n - i,
    {
        let mut handled = false;
        if i + 1 < n && starts_with_char(ls[i].as_slice(), '|') && contains_chars(
            ls[i + 1].as_slice(),
            dash.as_slice(),
        ) {
            let j = table_end_exec(&ls, i);
            if j - i >= 3 {
                let rows = copy_rows(&ls, i, j);
                assert forall|k: int| 0 <= k < rows@.len() implies byte_len(
                    #[trigger] rows@[k]@,
                ) <= isize::MAX by {
                    assert(rows@[k]@ == char_rows(rows@)[k]);
                    assert(lv[i + k] == char_rows(rows@)[k]);
                }
                let mut table = render_premium_table(rows.as_slice());
                proof {
                    assert(format_from(lv, i as nat) == table_lines(lv.subrange(i as int, j as int))
                        + format_from(lv, j as nat));
                    assert(lines_view(out@ + table@) =~= lines_view(out@) + lines_view(table@));
                }
                out.append(&mut table);
                i = j;
                handled = true;
            }
        }
        if !handled {
            let line = plain_line_exec(ls[i].as_slice());
            proof {
                assert(format_from(lv, i as nat) == seq![plain_line(lv[i as int])] + format_from(
                    lv,
                    (i + 1) as nat,
                ));
                assert(lines_view(out@.push(line)) =~= lines_view(out@).push(line_view(line)));
            }
            out.push(line);
            i = i + 1;
        }
    }
    out
}

// ---------------------------------------------------------------------------
// Tables
// ---------------------------------------------------------------------------
/// The cells of a table row.
fn row_cells_exec(row: &[char]) -> (r: Vec<Vec<char>>)
    ensures
        char_rows(r@) == row_cells(row@),
{
    let bar: [char; 1] = ['|'];
    assert(bar@ =~= pipe());
    let parts = split_exec(row, bar.as_slice());
    let ghost pv = split_pieces(row@, pipe(), 0);
    let mut r: Vec<Vec<char>> = Vec::new();
    let mut k: usize = 0;
    while k < parts.len()
        invariant
            k <= parts@.len() == pv.len(),
            forall|j: int| 0 <= j < pv.len() ==> #[trigger] parts@[j]@ == pv[j],
            char_rows(r@) == kept_cells(pv.take(k as int)),
        decreases parts@.len() - k,
    {
        let t = trim_chars(parts[k].as_slice());
        proof {
            assert(pv.take(k + 1).drop_last() =~= pv.take(k as int));
            assert(pv.take(k + 1).last() == pv[k as int]);
        }
        if t.len() > 0 {
            proof {
                assert(char_rows(r@.push(t)) =~= char_rows(r@).push(t@));
            }
            r.push(t);
        }
        k += 1;
    }
    assert(pv.take(pv.len() as int) =~= pv);
    r
}

/// The data rows of a table, as cells.
fn table_grid_exec(rows: &[Vec<char>]) -> (g: Vec<Vec<Vec<char>>>)
    ensures
        grid_view(g@) == table_grid(char_rows(rows@)),
{
    let ghost rv = char_rows(rows@);
    let dash: [char; 3] = ['-', '-', '-'];
    assert(dash@ =~= dashes());
    let mut g: Vec<Vec<Vec<char>>> = Vec::new();
    let mut k: usize = 0;
    while k < rows.len()
        invariant
            k <= rows@.len() == rv.len(),
            rv == char_rows(rows@),
            dash@ == dashes(),
            grid_view(g@) == table_grid(rv.take(k as int)),
        decreases rows@.len() - k,
    {
        proof {
            assert(rv.take(k + 1).drop_last() =~= rv.take(k as int));
            assert(rv.take(k + 1).last() == rv[k as int]);
        }
        if !contains_chars(rows[k].as_slice(), dash.as_slice()) {
            let cells = row_cells_exec(rows[k].as_slice());
            if cells.len() > 0 {
                proof {
                    assert(grid_view(g@.push(cells)) =~= grid_view(g@).push(char_rows(cells@)));
                }
                g.push(cells);
            }
        }
        k += 1;
    }
    assert(rv.take(rv.len() as int) =~= rv);
    g
}

/// The width of each column of the first row, in bytes.
fn column_widths_exec(grid: &Vec<Vec<Vec<char>>>) -> (w: Vec<usize>)
    requires
        grid@.len() > 0,
        forall|r: int, c: int|
            0 <= r < grid_view(grid@).len() && 0 <= c < grid_view(grid@)[r].len() ==> byte_len(
                #[trigger] grid_view(grid@)[r][c],
            ) <= isize::MAX,
    ensures
        nat_widths(w@) == column_widths(grid_view(grid@)),
        forall|c: int| 0 <= c < w@.len() ==> #[trigger] w@[c] <= isize::MAX,
{
    let ghost gv = grid_view(grid@);
    let ncols = grid[0].len();
    let mut w: Vec<usize> = Vec::new();
    let mut c: usize = 0;
    while c < ncols
        invariant
            c <= ncols,
            w@.len() == c,
            forall|j: int| 0 <= j < c ==> #[trigger] w@[j] == 0,
        decreases ncols - c,
    {
        w.push(0);
        c += 1;
    }
    assert(gv.take(0) =~= Seq::<Seq<Seq<char>>>::empty());
    let mut r: usize = 0;
    while r < grid.len()
        invariant
            r <= grid@.len() == gv.len(),
            gv == grid_view(grid@),
            ncols == gv[0].len(),
            w@.len() == ncols,
            forall|j: int| 0 <= j < ncols ==> #[trigger] w@[j] == column_width(gv.take(r as int), j),
            forall|j: int| 0 <= j < ncols ==> #[trigger] w@[j] <= isize::MAX,
            forall|a: int, b: int|
                0 <= a < gv.len() && 0 <= b < gv[a].len() ==> byte_len(#[trigger] gv[a][b])
                    <= isize::MAX,
        decreases grid@.len() - r,
    {
        let ghost before = w@;
        proof {
            assert(gv.take(r + 1).drop_last() =~= gv.take(r as int));
            assert(gv.take(r + 1).last() == gv[r as int]);
        }
        let row = &grid[r];
        let mut c: usize = 0;
        while c < row.len() && c < ncols
            invariant
                r < gv.len(),
                gv[r as int] == char_rows(row@),
                c <= ncols,
                w@.len() == ncols,
                forall|j: int| 0 <= j < ncols ==> #[trigger] before[j] == column_width(gv.take(r as int), j),
                forall|j: int|
                    0 <= j < c ==> #[trigger] w@[j] == column_width(gv.take(r + 1), j),
                forall|j: int| c <= j < ncols ==> #[trigger] w@[j] == before[j],
                forall|j: int| 0 <= j < ncols ==> #[trigger] w@[j] <= isize::MAX,
                forall|b: int| 0 <= b < gv[r as int].len() ==> byte_len(#[trigger] gv[r as int][b]) <= isize::MAX,
                gv.take(r + 1).drop_last() == gv.take(r as int),
                gv.take(r + 1).last() == gv[r as int],
            decreases ncols - c,
        {
            assert(row@[c as int]@ == gv[r as int][c as int]);
            let b = byte_len_exec(row[c].as_slice());
            if b > w[c] {
                w.set(c, b);
            }
            assert(column_width(gv.take(r + 1), c as int) == w@[c as int]);
            c += 1;
        }
        assert forall|j: int| 0 <= j < ncols implies #[trigger] w@[j] == column_width(
            gv.take(r + 1),
            j,
        ) by {
            if j >= c {
                assert(column_width(gv.take(r + 1), j) == column_width(gv.take(r as int), j));
            }
        }
        r += 1;
    }
    assert(gv.take(gv.len() as int) =~= gv);
    assert(nat_widths(w@) =~= column_widths(gv));
    w
}

/// Appends `n` copies of `c`.
fn push_repeat(out: &mut Vec<char>, c: char, n: usize)
    ensures
        final(out)@ == old(out)@ + repeat(c, n as nat),
{
    let mut k: usize = 0;
    while k < n
        invariant
            k <= n,
            out@ == old(out)@ + repeat(c, k as nat),
        decreases n - k,
    {
        out.push(c);
        k += 1;
        assert(out@ =~= old(out)@ + repeat(c, k as nat));
    }
}

/// A border line of the table.
fn border_exec(widths: &Vec<usize>, left: char, mid: char, right: char) -> (r: Vec<char>)
    requires
        forall|c: int| 0 <= c < widths@.len() ==> #[trigger] widths@[c] <= isize::MAX,
    ensures
        r@ == border_line(nat_widths(widths@), left, mid, right),
{
    let ghost wv = nat_widths(widths@);
    let n = widths.len();
    let mut out: Vec<char> = Vec::new();
    out.push(left);
    let mut k: usize = 0;
    while k < n
        invariant
            k <= n == widths@.len() == wv.len(),
            wv == nat_widths(widths@),
            forall|c: int| 0 <= c < widths@.len() ==> #[trigger] widths@[c] <= isize::MAX,
            out@ == seq![left] + border_upto(wv, k as nat, mid, right),
        decreases n - k,
    {
        push_repeat(&mut out, '─', widths[k] + 2);
        let junction = if k + 1 < n {
            mid
        } else {
            right
        };
        out.push(junction);
        k += 1;
        assert(out@ =~= seq![left] + border_upto(wv, k as nat, mid, right));
    }
    out
}

/// A row of the table, each cell padded to its column's width.
fn row_exec(row: &Vec<Vec<char>>, widths: &Vec<usize>) -> (r: Vec<char>)
    ensures
        r@ == row_line(char_rows(row@), nat_widths(widths@)),
{
    let ghost wv = nat_widths(widths@);
    let ghost cells = char_rows(row@);
    let n = widths.len();
    let mut out: Vec<char> = Vec::new();
    out.push('│');
    let mut k: usize = 0;
    while k < n
        invariant
            k <= n == widths@.len() == wv.len(),
            wv == nat_widths(widths@),
            cells == char_rows(row@),
            out@ == seq!['│'] + row_upto(cells, wv, k as nat),
        decreases n - k,
    {
        let ghost start = out@;
        out.push(' ');
        let mut len: usize = 0;
        if k < row.len() {
            let cell = &row[k];
            let mut i: usize = 0;
            while i < cell.len()
                invariant
                    i <= cell@.len(),
                    out@ == start.push(' ') + cell@.take(i as int),
                decreases cell@.len() - i,
            {
                out.push(cell[i]);
                assert(cell@.take(i + 1) =~= cell@.take(i as int).push(cell@[i as int]));
                i += 1;
            }
            assert(cell@.take(cell@.len() as int) =~= cell@);
            len = cell.len();
        }
        assert(out@ == start.push(' ') + cell_at(cells, k as int));
        assert(len == cell_at(cells, k as int).len());
        let fill: usize = if len < widths[k] {
            widths[k] - len
        } else {
            0
        };
        push_repeat(&mut out, ' ', fill);
        out.push(' ');
        out.push('│');
        k += 1;
        assert(out@ =~= seq!['│'] + row_upto(cells, wv, k as nat));
    }
    out
}

/// Draws a Markdown pipe table with box characters: a top border, the
/// header row in its own style followed by a rule, the data rows, and a
/// bottom border. Separator rows and rows without cells are dropped; a table
/// without data rows draws nothing.
pub fn render_premium_table(raw_rows: &[Vec<char>]) -> (r: Vec<StyledLine>)
    requires
        forall|k: int| 0 <= k < raw_rows@.len() ==> byte_len(#[trigger] raw_rows@[k]@) <= isize::MAX,
    ensures
        lines_view(r@) == table_lines(char_rows(raw_rows@)),
{
    let grid = table_grid_exec(raw_rows);
    let ghost gv = grid_view(grid@);
    if grid.len() == 0 {
        let empty: Vec<StyledLine> = Vec::new();
        assert(lines_view(empty@) =~= Seq::<Seq<(Seq<char>, SpanStyle)>>::empty());
        return empty;
    }
    proof {
        assert forall|k: int| 0 <= k < char_rows(raw_rows@).len() implies byte_len(
            #[trigger] char_rows(raw_rows@)[k],
        ) <= isize::MAX as nat by {
            assert(char_rows(raw_rows@)[k] == raw_rows@[k]@);
        }
        lemma_grid_bytes(char_rows(raw_rows@), isize::MAX as nat);
    }
    let widths = column_widths_exec(&grid);
    let ghost wv = nat_widths(widths@);
    let top = border_exec(&widths, '┌', '┬', '┐');
    let mut out: Vec<StyledLine> = Vec::new();
    out.push(single_line(top.as_slice(), SpanStyle::Border));
    let ghost head = seq![seq![(border_line(wv, '┌', '┬', '┐'), SpanStyle::Border)]];
    assert(lines_view(out@) =~= head);
    let mut k: usize = 0;
    while k < grid.len()
        invariant
            k <= grid@.len() == gv.len(),
            gv == grid_view(grid@),
            wv == nat_widths(widths@),
            wv == column_widths(gv),
            forall|c: int| 0 <= c < widths@.len() ==> #[trigger] widths@[c] <= isize::MAX,
            lines_view(out@) == head + grid_lines(gv, wv, k as nat),
        decreases grid@.len() - k,
    {
        let line = row_exec(&grid[k], &widths);
        assert(char_rows(grid@[k as int]@) == gv[k as int]);
        if k == 0 {
            let l1 = single_line(line.as_slice(), SpanStyle::HeaderRow);
            let sep = border_exec(&widths, '├', '┼', '┤');
            let l2 = single_line(sep.as_slice(), SpanStyle::Border);
            proof {
                assert(lines_view(out@.push(l1).push(l2)) =~= lines_view(out@) + row_block(
                    gv,
                    wv,
                    0,
                ));
            }
            out.push(l1);
            out.push(l2);
        } else {
            let l1 = single_line(line.as_slice(), SpanStyle::BodyRow);
            proof {
                assert(lines_view(out@.push(l1)) =~= lines_view(out@) + row_block(gv, wv, k as int));
            }
            out.push(l1);
        }
        k += 1;
        assert(lines_view(out@) =~= head + grid_lines(gv, wv, k as nat));
    }
    let bottom = border_exec(&widths, '└', '┴', '┘');
    let last = single_line(bottom.as_slice(), SpanStyle::Border);
    proof {
        assert(lines_view(out@.push(last)) =~= lines_view(out@).push(line_view(last)));
    }
    out.push(last);
    assert(lines_view(out@) =~= table_lines(char_rows(raw_rows@)));
    out
}

} // verus!
