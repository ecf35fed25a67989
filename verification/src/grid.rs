//! The packed multi-column grid layout.
//!
//! Names are packed column-major into the largest column count whose
//! total width — each column as wide as its widest name, plus a fixed
//! two-space gutter per column — fits the given terminal width, using
//! the fewest rows for that count. When not even a single column fits,
//! the grid still renders one column.

use vstd::prelude::*;
use vstd::string::*;
use crate::text::{
    gutter, join_lines, join_with_newlines, max_len, pad_right, pad_to_width, views_of,
};

verus! {

/// The number of rows a grid of `n` names in `c` columns uses:
/// the division `n / c` rounded up.
pub open spec fn rows_for(n: nat, c: nat) -> nat {
    if c == 0 {
        0
    } else if n % c == 0 {
        n / c
    } else {
        n / c + 1
    }
}

/// The names of column `j`: the `j`-th block of `rows` consecutive names,
/// empty once the blocks have run past the end.
pub open spec fn col_cells(names: Seq<Seq<char>>, j: nat, rows: nat) -> Seq<Seq<char>> {
    let n = names.len() as int;
    let lo = if j * rows > names.len() {
        n
    } else {
        (j * rows) as int
    };
    let hi = if j * rows + rows > names.len() {
        n
    } else {
        (j * rows + rows) as int
    };
    names.subrange(lo, hi)
}

/// The width of column `j`: the length of its widest name.
pub open spec fn col_width(names: Seq<Seq<char>>, j: nat, rows: nat) -> nat {
    max_len(col_cells(names, j, rows))
}

/// The total width of the first `j` columns, a two-space gutter counted
/// with every column.
pub open spec fn width_sum(names: Seq<Seq<char>>, j: nat, rows: nat) -> nat
    decreases j,
{
    if j == 0 {
        0
    } else {
        width_sum(names, (j - 1) as nat, rows) + col_width(names, (j - 1) as nat, rows) + 2
    }
}

/// Whether a grid of `c` columns fits within `max_width`.
pub open spec fn fits(names: Seq<Seq<char>>, c: nat, max_width: nat) -> bool {
    width_sum(names, c, rows_for(names.len(), c)) <= max_width
}

/// The largest column count of at most `c0` that fits, or one column
/// when none fits.
pub open spec fn chosen_from(names: Seq<Seq<char>>, max_width: nat, c0: nat) -> nat
    decreases c0,
{
    if c0 <= 1 {
        1
    } else if fits(names, c0, max_width) {
        c0
    } else {
        chosen_from(names, max_width, (c0 - 1) as nat)
    }
}

/// The column count the grid uses for the given width.
pub open spec fn chosen_cols(names: Seq<Seq<char>>, max_width: nat) -> nat {
    chosen_from(names, max_width, names.len())
}

/// Row `r` of the grid, from column `j` on: each name padded to its
/// column's width and followed by the gutter, except the row's final
/// name, which stands bare.
pub open spec fn row_from(names: Seq<Seq<char>>, j: nat, r: nat, rows: nat) -> Seq<char>
    decreases names.len() - j * rows - r,
    when rows >= 1
    via row_from_decreases
{
    let n = names.len();
    if j * rows + r >= n {
        Seq::empty()
    } else if (j + 1) * rows + r >= n {
        names[(j * rows + r) as int]
    } else {
        pad_right(names[(j * rows + r) as int], col_width(names, j, rows)) + gutter() + row_from(
            names,
            (j + 1) as nat,
            r,
            rows,
        )
    }
}

#[via_fn]
proof fn row_from_decreases(names: Seq<Seq<char>>, j: nat, r: nat, rows: nat) {
    assert((j + 1) * rows == j * rows + rows) by (nonlinear_arith);
}

/// The rendered rows of the grid.
pub open spec fn grid_rows(names: Seq<Seq<char>>, rows: nat) -> Seq<Seq<char>> {
    Seq::new(rows, |r: int| row_from(names, 0, r as nat, rows))
}

/// The grid layout for the given width: empty for no names, otherwise
/// the rows of the chosen column count, joined by newlines.
pub open spec fn grid_str(names: Seq<Seq<char>>, max_width: nat) -> Seq<char> {
    if names.len() == 0 {
        Seq::empty()
    } else {
        join_lines(grid_rows(names, rows_for(names.len(), chosen_cols(names, max_width))))
    }
}

/// Taking more columns never shrinks the total width.
proof fn lemma_width_sum_mono(names: Seq<Seq<char>>, j1: nat, j2: nat, rows: nat)
    requires
        j1 <= j2,
    ensures
        width_sum(names, j1, rows) <= width_sum(names, j2, rows),
    decreases j2,
{
    if j1 < j2 {
        lemma_width_sum_mono(names, j1, (j2 - 1) as nat, rows);
    }
}

/// No column count above the one `chosen_from` picks, up to `c0`, fits.
proof fn lemma_chosen_from_max(names: Seq<Seq<char>>, max_width: nat, c0: nat, c: nat)
    requires
        chosen_from(names, max_width, c0) < c <= c0,
    ensures
        !fits(names, c, max_width),
    decreases c0,
{
    if c0 > 1 && !fits(names, c0, max_width) && c < c0 {
        lemma_chosen_from_max(names, max_width, (c0 - 1) as nat, c);
    }
}

/// `chosen_from` picks a count between one and its bound, and the count
/// fits unless it is the one-column fallback.
proof fn lemma_chosen_from_ok(names: Seq<Seq<char>>, max_width: nat, c0: nat)
    ensures
        1 <= chosen_from(names, max_width, c0),
        chosen_from(names, max_width, c0) <= c0 || chosen_from(names, max_width, c0) == 1,
        chosen_from(names, max_width, c0) == 1 || fits(
            names,
            chosen_from(names, max_width, c0),
            max_width,
        ),
    decreases c0,
{
    if c0 > 1 && !fits(names, c0, max_width) {
        lemma_chosen_from_ok(names, max_width, (c0 - 1) as nat);
    }
}

/// Column-count maximality: no column count larger than the chosen one
/// fits within the given width.
pub proof fn lemma_grid_cols_maximal(names: Seq<Seq<char>>, max_width: nat, c: nat)
    requires
        chosen_cols(names, max_width) < c <= names.len(),
    ensures
        !fits(names, c, max_width),
{
    lemma_chosen_from_max(names, max_width, names.len(), c);
}

/// The chosen column count lies between one and the number of names, and
/// it fits within the given width unless it is the one-column fallback.
pub proof fn lemma_grid_cols_sound(names: Seq<Seq<char>>, max_width: nat)
    requires
        names.len() >= 1,
    ensures
        1 <= chosen_cols(names, max_width) <= names.len(),
        chosen_cols(names, max_width) == 1 || fits(names, chosen_cols(names, max_width), max_width),
{
    lemma_chosen_from_ok(names, max_width, names.len());
}

/// A grid never uses more rows than it has names.
proof fn lemma_rows_le_n(n: nat, c: nat)
    requires
        n >= 1,
        c >= 1,
    ensures
        1 <= rows_for(n, c) <= n,
{
    if c == 1 {
        assert(n % 1 == 0);
        assert(n / 1 == n);
    } else {
        let q = n / c;
        let rem = n % c;
        assert(n == q * c + rem) by {
            vstd::arithmetic::div_mod::lemma_fundamental_div_mod(n as int, c as int);
        }
        assert(q * c >= q * 2) by (nonlinear_arith)
            requires
                c >= 2,
                q >= 0,
        ;
        assert(q * 2 <= n);
        assert(q < n);
        if rem == 0 {
            assert(q * c == n);
            assert(q >= 1) by (nonlinear_arith)
                requires
                    q * c == n,
                    n >= 1,
                    c >= 2,
            ;
        }
    }
}

/// The number of rows, computed for `n` names in `c` columns.
fn rows_exec(n: usize, c: usize) -> (rows: usize)
    requires
        1 <= n,
        1 <= c,
    ensures
        rows as nat == rows_for(n as nat, c as nat),
        1 <= rows <= n,
{
    proof {
        lemma_rows_le_n(n as nat, c as nat);
    }
    let q = n / c;
    if n % c == 0 {
        q
    } else {
        q + 1
    }
}

/// The width of the column that starts at `start`.
fn col_width_at(names: &Vec<String>, start: usize, rows: usize) -> (w: usize)
    requires
        start <= names@.len(),
        rows >= 1,
    ensures
        w as nat == max_len(
            views_of(names@).subrange(
                start as int,
                if start + rows > names@.len() {
                    names@.len() as int
                } else {
                    (start + rows) as int
                },
            ),
        ),
{
    let n = names.len();
    let hi = if rows < n - start {
        start + rows
    } else {
        n
    };
    let mut w: usize = 0;
    let mut k = start;
    proof {
        assert(views_of(names@).subrange(start as int, start as int) =~= Seq::<Seq<char>>::empty());
    }
    while k < hi
        invariant
            start <= k <= hi <= names@.len(),
            w as nat == max_len(views_of(names@).subrange(start as int, k as int)),
        decreases hi - k,
    {
        let l = names[k].as_str().unicode_len();
        if l > w {
            w = l;
        }
        k = k + 1;
        proof {
            let vs = views_of(names@);
            assert(vs.subrange(start as int, k as int).drop_last() =~= vs.subrange(
                start as int,
                k - 1,
            ));
            assert(vs.subrange(start as int, k as int).last() == vs[k - 1]);
        }
    }
    w
}

/// Whether `c` columns fit within `max_width`.
fn fits_exec(names: &Vec<String>, c: usize, rows: usize, max_width: usize) -> (b: bool)
    requires
        names@.len() >= 1,
        c >= 1,
        rows >= 1,
        rows as nat == rows_for(names@.len(), c as nat),
    ensures
        b == fits(views_of(names@), c as nat, max_width as nat),
{
    let n = names.len();
    let mut total: usize = 0;
    let mut j: usize = 0;
    let mut start: usize = 0;
    while j < c
        invariant
            j <= c,
            c >= 1,
            rows >= 1,
            rows as nat == rows_for(names@.len(), c as nat),
            n == names@.len(),
            n >= 1,
            start as int == if j as int * rows as int > n as int {
                n as int
            } else {
                j as int * rows as int
            },
            total as nat == width_sum(views_of(names@), j as nat, rows as nat),
            total <= max_width,
        decreases c - j,
    {
        let cw = col_width_at(names, start, rows);
        proof {
            let vs = views_of(names@);
            assert(j as int * rows as int + rows as int == (j as int + 1) * rows as int)
                by (nonlinear_arith);
            if j as int * rows as int > n as int {
                assert(start as int == n as int);
                assert(col_cells(vs, j as nat, rows as nat) == vs.subrange(n as int, n as int));
            }
            assert(cw as nat == col_width(vs, j as nat, rows as nat));
        }
        if max_width - total < 2 || cw > max_width - total - 2 {
            proof {
                let vs = views_of(names@);
                assert(width_sum(vs, (j + 1) as nat, rows as nat) == width_sum(
                    vs,
                    j as nat,
                    rows as nat,
                ) + col_width(vs, j as nat, rows as nat) + 2);
                assert(width_sum(vs, (j + 1) as nat, rows as nat) > max_width as nat);
                lemma_width_sum_mono(vs, (j + 1) as nat, c as nat, rows as nat);
                assert(width_sum(vs, c as nat, rows as nat) > max_width as nat);
                assert(vs.len() == names@.len());
                assert(rows as nat == rows_for(vs.len(), c as nat));
                assert(!fits(vs, c as nat, max_width as nat));
            }
            return false;
        }
        total = total + cw + 2;
        let old_start = start;
        start = if start < n && rows < n - start {
            start + rows
        } else {
            n
        };
        proof {
            assert(j as int * rows as int + rows as int == (j as int + 1) * rows as int)
                by (nonlinear_arith);
            assert((j as int) * rows as int <= (j as int + 1) * rows as int) by (nonlinear_arith)
                requires
                    rows as int >= 0,
                    j as int >= 0,
            ;
        }
        j = j + 1;
    }
    true
}

/// The column count the grid uses: the largest count that fits the
/// width, or a single column when none fits.
fn choose_cols(names: &Vec<String>, max_width: usize) -> (c: usize)
    requires
        names@.len() >= 1,
    ensures
        c as nat == chosen_cols(views_of(names@), max_width as nat),
        1 <= c <= names@.len(),
{
    let n = names.len();
    let mut c = n;
    while c > 1
        invariant
            1 <= c <= n,
            n == names@.len(),
            chosen_cols(views_of(names@), max_width as nat) == chosen_from(
                views_of(names@),
                max_width as nat,
                c as nat,
            ),
        decreases c,
    {
        let rows = rows_exec(n, c);
        if fits_exec(names, c, rows, max_width) {
            return c;
        }
        c = c - 1;
    }
    c
}

/// Row `r` of the grid, as a string.
fn grid_row_exec(names: &Vec<String>, r: usize, rows: usize) -> (line: String)
    requires
        rows >= 1,
        r < rows,
        r < names@.len(),
    ensures
        line@ == row_from(views_of(names@), 0, r as nat, rows as nat),
{
    let n = names.len();
    let mut line = String::new();
    let mut j: usize = 0;
    let mut idx: usize = r;
    proof {
        assert(line@ + row_from(views_of(names@), 0, r as nat, rows as nat) =~= row_from(
            views_of(names@),
            0,
            r as nat,
            rows as nat,
        ));
    }
    loop
        invariant
            rows >= 1,
            r < rows,
            n == names@.len(),
            idx < n,
            idx as int == j as int * rows as int + r as int,
            row_from(views_of(names@), 0, r as nat, rows as nat) == line@ + row_from(
                views_of(names@),
                j as nat,
                r as nat,
                rows as nat,
            ),
        decreases n - idx,
    {
        proof {
            assert(j as int * rows as int + rows as int == (j as int + 1) * rows as int)
                by (nonlinear_arith);
        }
        if rows < n - idx {
            let cw = col_width_at(names, idx - r, rows);
            proof {
                let vs = views_of(names@);
                assert((idx - r) as int == j as int * rows as int);
                assert(cw as nat == col_width(vs, j as nat, rows as nat));
            }
            let padded = pad_to_width(&names[idx], cw);
            line.append(padded.as_str());
            line.append("  ");
            proof {
                reveal_strlit("  ");
                let vs = views_of(names@);
                assert("  "@ =~= gutter());
                assert(row_from(vs, j as nat, r as nat, rows as nat) == pad_right(
                    vs[idx as int],
                    col_width(vs, j as nat, rows as nat),
                ) + gutter() + row_from(vs, (j + 1) as nat, r as nat, rows as nat));
                assert(row_from(vs, 0, r as nat, rows as nat) =~= line@ + row_from(
                    vs,
                    (j + 1) as nat,
                    r as nat,
                    rows as nat,
                ));
            }
            proof {
                assert(j as int <= j as int * rows as int) by (nonlinear_arith)
                    requires
                        j as int >= 0,
                        rows as int >= 1,
                ;
            }
            idx = idx + rows;
            j = j + 1;
        } else {
            line.append(names[idx].as_str());
            proof {
                let vs = views_of(names@);
                assert(row_from(vs, j as nat, r as nat, rows as nat) == vs[idx as int]);
                assert(row_from(vs, 0, r as nat, rows as nat) =~= line@);
            }
            return line;
        }
    }
}

/// Renders names as a packed column-major grid no wider than
/// `max_width` columns wherever any column count fits.
pub fn format_as_grid(names: &Vec<String>, max_width: usize) -> (out: String)
    ensures
        out@ == grid_str(views_of(names@), max_width as nat),
{
    let n = names.len();
    if n == 0 {
        let out = String::new();
        proof {
            assert(out@ =~= grid_str(views_of(names@), max_width as nat));
        }
        return out;
    }
    let c = choose_cols(names, max_width);
    let rows = rows_exec(n, c);
    let mut lines: Vec<String> = Vec::new();
    let mut r: usize = 0;
    while r < rows
        invariant
            r <= rows,
            1 <= rows <= n,
            n == names@.len(),
            lines@.len() == r,
            forall|k: int|
                0 <= k < r ==> (#[trigger] lines@[k])@ == row_from(
                    views_of(names@),
                    0,
                    k as nat,
                    rows as nat,
                ),
        decreases rows - r,
    {
        let line = grid_row_exec(names, r, rows);
        lines.push(line);
        r = r + 1;
    }
    proof {
        assert(views_of(lines@) =~= grid_rows(views_of(names@), rows as nat));
    }
    join_with_newlines(&lines)
}

} // verus!
