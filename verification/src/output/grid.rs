//! Settings of the grid view.

use vstd::prelude::*;

use crate::column::{spaces, Alignment};
use crate::text::texts_view;

verus! {

/// How to lay out a grid.
#[derive(PartialEq, Eq, Debug, Copy, Clone)]
pub struct Options {
    /// Whether to fill the grid across, rather than downwards.
    pub across: bool,
}


/// The number of columns needed to hold `n` files in `lines` lines: the
/// quotient rounded up.
pub open spec fn columns_for(n: int, lines: int) -> int {
    if n % lines != 0 {
        n / lines + 1
    } else {
        n / lines
    }
}

/// The column that the file at `index` goes in.
pub open spec fn column_of(across: bool, index: int, lines: int, columns: int) -> int {
    if across {
        index % columns
    } else {
        index / lines
    }
}

/// The width of column `c`: the widest of the files among `widths[..n]`
/// that go in it, or nothing.
pub open spec fn column_width(widths: Seq<usize>, across: bool, lines: int, columns: int, c: int, n: int) -> nat
    decreases n,
{
    if n <= 0 {
        0
    } else {
        let prev = column_width(widths, across, lines, columns, c, n - 1);
        if column_of(across, n - 1, lines, columns) == c && widths[n - 1] > prev {
            widths[n - 1] as nat
        } else {
            prev
        }
    }
}

/// The widths of the columns of a grid with `lines` lines.
pub open spec fn grid_widths(widths: Seq<usize>, across: bool, lines: int) -> Seq<nat> {
    let columns = columns_for(widths.len() as int, lines);
    Seq::new(columns as nat, |c: int| column_width(widths, across, lines, columns, c, widths.len() as int))
}

/// The sum of `s[..n]`.
pub open spec fn total(s: Seq<nat>, n: int) -> nat
    decreases n,
{
    if n <= 0 {
        0
    } else {
        total(s, n - 1) + s[n - 1]
    }
}

/// Whether the files fit in `lines` lines: the columns, with two spaces
/// between each, take less than the width of the console.
pub open spec fn fits(widths: Seq<usize>, across: bool, console_width: int, lines: int) -> bool {
    let columns = columns_for(widths.len() as int, lines);
    let separators = (columns - 1) * 2;
    console_width >= separators && total(grid_widths(widths, across, lines), columns) < console_width
        - separators
}

/// The fewest lines, from `lines` up to (not including) the number of
/// files, that the files fit in, with the widths of the columns; none when
/// they fit in none of them.
pub open spec fn fit_from(widths: Seq<usize>, across: bool, console_width: int, lines: int) -> Option<(int, Seq<nat>)>
    decreases widths.len() - lines,
{
    if lines < 1 || lines >= widths.len() {
        None
    } else if fits(widths, across, console_width, lines) {
        Some((lines, grid_widths(widths, across, lines)))
    } else {
        fit_from(widths, across, console_width, lines + 1)
    }
}

/// Finds the fewest lines that a grid of files, of the given widths, fits
/// in, trying one line, then two, and so on (up to one fewer than the
/// number of files), and the width of each column of that grid. Files go
/// down the columns, or across the lines when `across` is set; columns are
/// two spaces apart and must leave room at the end of the console line.
pub fn fit_into_grid(across: bool, console_width: usize, widths: &Vec<usize>) -> (r: Option<(usize, Vec<usize>)>)
    ensures
        match (fit_from(widths@, across, console_width as int, 1), r) {
            (Some((lines, ws)), Some((l, v))) => l == lines && v@.map_values(|w: usize| w as nat) == ws,
            (None, None) => true,
            _ => false,
        },
{
    let n = widths.len();
    let mut lines: usize = 1;
    while lines < n
        invariant
            n == widths@.len(),
            1 <= lines,
            fit_from(widths@, across, console_width as int, 1) == fit_from(widths@, across, console_width as int, lines as int),
        decreases n - lines,
    {
        proof {
            lemma_columns_bounds(n as int, lines as int);
        }
        let q: usize = n / lines;
        assert(n % lines != 0 ==> q + 1 == columns_for(n as int, lines as int));
        let columns: usize = if n % lines != 0 { q + 1 } else { q };
        // Separators wider than any console never fit.
        let room = columns - 1 <= console_width / 2;
        if room {
            let separators: usize = (columns - 1) * 2;
            assert(console_width >= separators);
            let column_widths = widths_of(across, widths, lines, columns);
            let mut sum: u128 = 0;
            let mut c: usize = 0;
            while c < columns
                invariant
                    columns == column_widths@.len(),
                    0 <= c <= columns,
                    sum == total(column_widths@.map_values(|w: usize| w as nat), c as int),
                    sum <= c * 0xFFFF_FFFF_FFFF_FFFF,
                decreases columns - c,
            {
                sum = sum + column_widths[c] as u128;
                c = c + 1;
            }
            if sum < (console_width - separators) as u128 {
                assert(column_widths@.map_values(|w: usize| w as nat) =~= grid_widths(widths@, across, lines as int));
                return Some((lines, column_widths));
            }
            assert(column_widths@.map_values(|w: usize| w as nat) =~= grid_widths(widths@, across, lines as int));
        } else {
            assert(console_width < (columns - 1) * 2);
        }
        lines = lines + 1;
    }
    None
}

proof fn lemma_columns_bounds(n: int, lines: int)
    requires
        1 <= lines < n,
    ensures
        1 <= columns_for(n, lines) <= n,
        n <= lines * columns_for(n, lines),
        forall|i: int| 0 <= i < n ==> #[trigger] (i / lines) < columns_for(n, lines),
{
    vstd::arithmetic::div_mod::lemma_fundamental_div_mod(n, lines);
    vstd::arithmetic::div_mod::lemma_mod_pos_bound(n, lines);
    assert(n / lines >= 1) by {
        vstd::arithmetic::div_mod::lemma_div_is_ordered(lines, n, lines);
        vstd::arithmetic::div_mod::lemma_div_by_multiple(1, lines);
    }
    assert(n / lines <= n) by {
        vstd::arithmetic::div_mod::lemma_div_is_ordered_by_denominator(n, 1, lines);
    }
    if lines >= 2 {
        vstd::arithmetic::div_mod::lemma_div_is_ordered_by_denominator(n, 2, lines);
        assert(n / 2 < n);
    } else {
        assert(n % 1 == 0);
    }
    assert(n <= lines * columns_for(n, lines)) by (nonlinear_arith)
        requires
            n == lines * (n / lines) + n % lines,
            0 <= n % lines < lines,
            columns_for(n, lines) == if n % lines != 0 { n / lines + 1 } else { n / lines };
    assert forall|i: int| 0 <= i < n implies #[trigger] (i / lines) < columns_for(n, lines) by {
        vstd::arithmetic::div_mod::lemma_fundamental_div_mod(i, lines);
        vstd::arithmetic::div_mod::lemma_mod_pos_bound(i, lines);
        assert(i / lines < columns_for(n, lines)) by (nonlinear_arith)
            requires
                i == lines * (i / lines) + i % lines,
                0 <= i % lines,
                i < n,
                n <= lines * columns_for(n, lines),
                lines >= 1;
    }
}

/// The widths of the columns of a grid with `lines` lines and `columns`
/// columns.
fn widths_of(across: bool, widths: &Vec<usize>, lines: usize, columns: usize) -> (r: Vec<usize>)
    requires
        1 <= lines < widths@.len(),
        columns == columns_for(widths@.len() as int, lines as int),
        1 <= columns <= widths@.len(),
        forall|i: int| 0 <= i < widths@.len() ==> #[trigger] (i / (lines as int)) < columns,
    ensures
        r@.len() == columns,
        forall|c: int| 0 <= c < columns ==> r@[c] == column_width(widths@, across, lines as int, columns as int, c, widths@.len() as int),
{
    let mut out: Vec<usize> = Vec::new();
    let mut c: usize = 0;
    while c < columns
        invariant
            0 <= c <= columns,
            out@.len() == c,
            forall|k: int| 0 <= k < c ==> out@[k] == 0,
        decreases columns - c,
    {
        out.push(0);
        c = c + 1;
    }
    let mut i: usize = 0;
    while i < widths.len()
        invariant
            1 <= lines < widths@.len(),
            columns == columns_for(widths@.len() as int, lines as int),
            1 <= columns <= widths@.len(),
            forall|j: int| 0 <= j < widths@.len() ==> #[trigger] (j / (lines as int)) < columns,
            0 <= i <= widths@.len(),
            out@.len() == columns,
            forall|k: int| 0 <= k < columns ==> out@[k] == column_width(widths@, across, lines as int, columns as int, k, i as int),
        decreases widths@.len() - i,
    {
        let col: usize = if across { i % columns } else { i / lines };
        assert((i as int) / (lines as int) < columns);
        let ghost before = out@;
        if widths[i] > out[col] {
            out.set(col, widths[i]);
        }
        assert forall|k: int| 0 <= k < columns implies out@[k] == column_width(widths@, across, lines as int, columns as int, k, i + 1) by {
            assert(column_of(across, i as int, lines as int, columns as int) == col);
        }
        i = i + 1;
    }
    out
}


proof fn lemma_fit_from_fewest(widths: Seq<usize>, across: bool, console_width: int, from: int)
    requires
        from >= 1,
    ensures
        match fit_from(widths, across, console_width, from) {
            Some((lines, ws)) => from <= lines < widths.len() && fits(widths, across, console_width, lines)
                && ws == grid_widths(widths, across, lines)
                && forall|l: int| from <= l < lines ==> !fits(widths, across, console_width, l),
            None => forall|l: int| from <= l < widths.len() ==> !fits(widths, across, console_width, l),
        },
    decreases widths.len() - from,
{
    if from < widths.len() && !fits(widths, across, console_width, from) {
        lemma_fit_from_fewest(widths, across, console_width, from + 1);
    }
}

/// The grid takes the fewest lines that the files fit in: it fits, and
/// no smaller number of lines does. When there is no grid, no number of
/// lines (short of one per file) fits.
pub proof fn law_grid_takes_fewest_lines(widths: Seq<usize>, across: bool, console_width: int)
    ensures
        match fit_from(widths, across, console_width, 1) {
            Some((lines, ws)) => fits(widths, across, console_width, lines) && ws == grid_widths(widths, across, lines)
                && forall|l: int| 1 <= l < lines ==> !fits(widths, across, console_width, l),
            None => forall|l: int| 1 <= l < widths.len() ==> !fits(widths, across, console_width, l),
        },
{
    lemma_fit_from_fewest(widths, across, console_width, 1);
}

proof fn lemma_column_width_covers(widths: Seq<usize>, across: bool, lines: int, columns: int, i: int, n: int)
    requires
        0 <= i < n <= widths.len(),
    ensures
        widths[i] <= column_width(widths, across, lines, columns, column_of(across, i, lines, columns), n),
    decreases n,
{
    let c = column_of(across, i, lines, columns);
    if i < n - 1 {
        lemma_column_width_covers(widths, across, lines, columns, i, n - 1);
    }
}

/// Every file is no wider than the column it goes in, so padding it to its
/// column never needs a negative amount of space.
pub proof fn law_files_fit_their_columns(widths: Seq<usize>, across: bool, lines: int, i: int)
    requires
        1 <= lines < widths.len(),
        0 <= i < widths.len(),
    ensures
        widths[i] <= grid_widths(widths, across, lines)[column_of(
            across,
            i,
            lines,
            columns_for(widths.len() as int, lines),
        )],
{
    let n = widths.len() as int;
    let columns = columns_for(n, lines);
    lemma_columns_bounds(n, lines);
    let c = column_of(across, i, lines, columns);
    assert(0 <= c < columns) by {
        if across {
            vstd::arithmetic::div_mod::lemma_mod_pos_bound(i, columns);
        } else {
            vstd::arithmetic::div_mod::lemma_div_pos_is_pos(i, lines);
        }
    }
    lemma_column_width_covers(widths, across, lines, columns, i, n);
}


/// Which file goes in line `y`, column `x` of a grid with `lines` lines and
/// `columns` columns.
pub open spec fn file_at(across: bool, lines: int, columns: int, y: int, x: int) -> int {
    if across {
        y * columns + x
    } else {
        y + lines * x
    }
}

/// What column `x` of line `y` shows: the file's name, padded to the
/// column's width plus two spaces, except in the last column; nothing when
/// no file goes there.
pub open spec fn cell_text(
    names: Seq<Seq<char>>,
    name_widths: Seq<usize>,
    widths: Seq<usize>,
    across: bool,
    lines: int,
    y: int,
    x: int,
) -> Seq<char> {
    let num = file_at(across, lines, widths.len() as int, y, x);
    if num >= names.len() {
        Seq::empty()
    } else if x == widths.len() - 1 {
        names[num]
    } else {
        names[num] + spaces((widths[x] - name_widths[num] + 2) as nat)
    }
}

/// Line `y` of a grid, up to column `n`.
pub open spec fn line_text(
    names: Seq<Seq<char>>,
    name_widths: Seq<usize>,
    widths: Seq<usize>,
    across: bool,
    lines: int,
    y: int,
    n: int,
) -> Seq<char>
    decreases n,
{
    if n <= 0 {
        Seq::empty()
    } else {
        line_text(names, name_widths, widths, across, lines, y, n - 1) + cell_text(
            names,
            name_widths,
            widths,
            across,
            lines,
            y,
            n - 1,
        )
    }
}

/// Lays out painted file names in a grid of `lines` lines whose columns
/// have the given widths; `name_widths` are the widths of the names as
/// shown. Gives the text of each line.
pub fn grid_lines(
    across: bool,
    names: &Vec<String>,
    name_widths: &Vec<usize>,
    lines: usize,
    widths: &Vec<usize>,
) -> (r: Vec<String>)
    requires
        names@.len() == name_widths@.len(),
        forall|y: int, x: int|
            0 <= y < lines && 0 <= x < widths@.len() && file_at(across, lines as int, widths@.len() as int, y, x)
                < names@.len() ==> name_widths@[#[trigger] file_at(across, lines as int, widths@.len() as int, y, x)]
                <= widths@[x],
    ensures
        r@.len() == lines,
        forall|y: int|
            0 <= y < lines ==> #[trigger] r@[y]@ == line_text(
                texts_view(names@),
                name_widths@,
                widths@,
                across,
                lines as int,
                y,
                widths@.len() as int,
            ),
{
    let count = widths.len();
    let mut out: Vec<String> = Vec::new();
    let mut y: usize = 0;
    while y < lines
        invariant
            count == widths@.len(),
            names@.len() == name_widths@.len(),
            forall|y2: int, x: int|
                0 <= y2 < lines && 0 <= x < widths@.len() && file_at(across, lines as int, widths@.len() as int, y2, x)
                    < names@.len() ==> name_widths@[#[trigger] file_at(across, lines as int, widths@.len() as int, y2, x)]
                    <= widths@[x],
            0 <= y <= lines,
            out@.len() == y,
            forall|k: int|
                0 <= k < y ==> #[trigger] out@[k]@ == line_text(
                    texts_view(names@),
                    name_widths@,
                    widths@,
                    across,
                    lines as int,
                    k,
                    count as int,
                ),
        decreases lines - y,
    {
        let mut line = String::new();
        let mut x: usize = 0;
        while x < count
            invariant
                count == widths@.len(),
                names@.len() == name_widths@.len(),
                y < lines,
                forall|y2: int, x2: int|
                    0 <= y2 < lines && 0 <= x2 < widths@.len() && file_at(across, lines as int, widths@.len() as int, y2, x2)
                        < names@.len() ==> name_widths@[#[trigger] file_at(across, lines as int, widths@.len() as int, y2, x2)]
                        <= widths@[x2],
                0 <= x <= count,
                line@ == line_text(texts_view(names@), name_widths@, widths@, across, lines as int, y as int, x as int),
            decreases count - x,
        {
            let y1 = y as u128;
            let x1 = x as u128;
            let c1 = count as u128;
            let l1 = lines as u128;
            proof {
                assert(y1 * c1 <= 0xFFFF_FFFF_FFFF_FFFE_0000_0000_0000_0001) by (nonlinear_arith)
                    requires y1 <= 0xFFFF_FFFF_FFFF_FFFF, c1 <= 0xFFFF_FFFF_FFFF_FFFF;
                assert(l1 * x1 <= 0xFFFF_FFFF_FFFF_FFFE_0000_0000_0000_0001) by (nonlinear_arith)
                    requires l1 <= 0xFFFF_FFFF_FFFF_FFFF, x1 <= 0xFFFF_FFFF_FFFF_FFFF;
            }
            let num: u128 = if across {
                y1 * c1 + x1
            } else {
                y1 + l1 * x1
            };
            proof {
                assert(num == file_at(across, lines as int, count as int, y as int, x as int)) by (nonlinear_arith)
                    requires
                        num == (if across { y * count + x } else { y + lines * x }),
                        file_at(across, lines as int, count as int, y as int, x as int) == (if across {
                            y * count + x
                        } else {
                            y + lines * x
                        });
            }
            if num < names.len() as u128 {
                let i = num as usize;
                assert(names@[i as int]@ == texts_view(names@)[i as int]);
                if x == count - 1 {
                    line.append(names[i].as_str());
                } else {
                    assert(name_widths@[i as int] <= widths@[x as int]);
                    let padded = Alignment::Left.pad_string(&names[i], widths[x] - name_widths[i]);
                    line.append(padded.as_str());
                    line.append("  ");
                    proof {
                        reveal_strlit("  ");
                        assert(spaces((widths@[x as int] - name_widths@[i as int]) as nat) + "  "@
                            =~= spaces((widths@[x as int] - name_widths@[i as int] + 2) as nat));
                    }
                }
            }
            assert(line@ =~= line_text(texts_view(names@), name_widths@, widths@, across, lines as int, y as int, x + 1));
            x = x + 1;
        }
        out.push(line);
        y = y + 1;
    }
    out
}


proof fn lemma_file_at_column(across: bool, lines: int, columns: int, y: int, x: int)
    requires
        1 <= lines,
        1 <= columns,
        0 <= y < lines,
        0 <= x < columns,
    ensures
        column_of(across, file_at(across, lines, columns, y, x), lines, columns) == x,
{
    if across {
        vstd::arithmetic::div_mod::lemma_fundamental_div_mod_converse(y * columns + x, columns, y, x);
    } else {
        vstd::arithmetic::div_mod::lemma_fundamental_div_mod_converse(y + lines * x, lines, x, y);
    }
}

/// The lines of the grid view of painted file names, whose widths as shown
/// are `name_widths`: the fewest lines that fit in the console, as
/// `fit_into_grid` finds them. None when no grid fits, and the names should
/// be listed one per line instead.
pub fn grid_view(across: bool, console_width: usize, names: &Vec<String>, name_widths: &Vec<usize>) -> (r: Option<Vec<String>>)
    requires
        names@.len() == name_widths@.len(),
    ensures
        match (fit_from(name_widths@, across, console_width as int, 1), r) {
            (Some((lines, ws)), Some(text)) => text@.len() == lines && forall|y: int|
                0 <= y < lines ==> #[trigger] text@[y]@ == line_text(
                    texts_view(names@),
                    name_widths@,
                    ws.map_values(|w: nat| w as usize),
                    across,
                    lines,
                    y,
                    ws.len() as int,
                ),
            (None, None) => true,
            _ => false,
        },
{
    match fit_into_grid(across, console_width, name_widths) {
        None => None,
        Some((lines, widths)) => {
            let ghost n = name_widths@.len() as int;
            let ghost columns = columns_for(n, lines as int);
            proof {
                lemma_fit_from_fewest(name_widths@, across, console_width as int, 1);
                lemma_columns_bounds(n, lines as int);
                match fit_from(name_widths@, across, console_width as int, 1) {
                    Some((l, ws)) => {
                        assert(l == lines);
                        assert(widths@.map_values(|w: usize| w as nat) == ws);
                        assert(ws == grid_widths(name_widths@, across, lines as int));
                        assert(ws.len() == columns);
                        assert(widths@.len() == columns);
                        assert forall|x: int| 0 <= x < widths@.len() implies #[trigger] widths@[x] == grid_widths(name_widths@, across, lines as int)[x] by {
                            assert(widths@.map_values(|w: usize| w as nat)[x] == widths@[x] as nat);
                        }
                    },
                    None => {
                        assert(false);
                    },
                }
                assert forall|y: int, x: int|
                    0 <= y < lines && 0 <= x < widths@.len() && file_at(across, lines as int, widths@.len() as int, y, x) < n
                    implies name_widths@[#[trigger] file_at(across, lines as int, widths@.len() as int, y, x)] <= widths@[x] by {
                    let num = file_at(across, lines as int, columns, y, x);
                    assert(0 <= num) by (nonlinear_arith)
                        requires 0 <= y, 0 <= x, lines >= 1, columns >= 1,
                            num == (if across { y * columns + x } else { y + lines * x });
                    lemma_file_at_column(across, lines as int, columns, y, x);
                    law_files_fit_their_columns(name_widths@, across, lines as int, num);
                }
            }
            let text = grid_lines(across, names, name_widths, lines, &widths);
            proof {
                assert(widths@ =~= widths@.map_values(|w: usize| w as nat).map_values(|w: nat| w as usize));
            }
            Some(text)
        },
    }
}

} // verus!
