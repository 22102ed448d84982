//! The manifest of a pattern: its threads in use, sorted, numbered and
//! counted.

use crate::embroidery::canvas::Canvas;
use crate::embroidery::cells::lemma_sample_rows;
use crate::embroidery::colors::{DmcColor, RgbColor};
use crate::embroidery::image::has_color;
use crate::text::{
    chars_of, decimal_digits, digit_str, digits_of, digits_value, lemma_decimal_digits,
};
use vstd::prelude::*;
use vstd::string::StringExecFns;

verus! {

/// A thread of a pattern: its identifier within the pattern, the thread, and
/// the number of cells in its colour.
#[derive(Debug, Clone)]
pub struct Palette {
    pub identifier: String,
    pub color: DmcColor,
    pub n_stitches: u32,
}

/// The number of `cells` in the colour `rgb`.
pub open spec fn stitches_in_row(cells: Seq<RgbColor>, rgb: RgbColor) -> int
    decreases cells.len(),
{
    if cells.len() == 0 {
        0
    } else {
        stitches_in_row(cells.drop_last(), rgb) + if cells.last() == rgb {
            1int
        } else {
            0int
        }
    }
}

/// The number of cells of `grid` in the colour `rgb`.
pub open spec fn stitches(grid: Seq<Vec<RgbColor>>, rgb: RgbColor) -> int
    decreases grid.len(),
{
    if grid.len() == 0 {
        0
    } else {
        stitches(grid.drop_last(), rgb) + stitches_in_row(grid.last()@, rgb)
    }
}

/// The number of cells of `grid`.
pub open spec fn cell_count(grid: Seq<Vec<RgbColor>>) -> int
    decreases grid.len(),
{
    if grid.len() == 0 {
        0
    } else {
        cell_count(grid.drop_last()) + grid.last()@.len()
    }
}

/// Where `x` goes into `sorted`: behind the last thread that does not come
/// strictly after it.
pub open spec fn insert_position(sorted: Seq<DmcColor>, x: DmcColor) -> int
    decreases sorted.len(),
{
    if sorted.len() == 0 {
        0
    } else if x.lab.lt(sorted.last().lab) {
        insert_position(sorted.drop_last(), x)
    } else {
        sorted.len() as int
    }
}

/// The threads of `list` in ascending order of (L, a, b); threads with equal
/// coordinates keep the order they have in `list`.
pub open spec fn sorted_by_lab(list: Seq<DmcColor>) -> Seq<DmcColor>
    decreases list.len(),
{
    if list.len() == 0 {
        list
    } else {
        let front = sorted_by_lab(list.drop_last());
        front.insert(insert_position(front, list.last()), list.last())
    }
}

/// No thread comes strictly before an earlier one.
pub open spec fn is_sorted(list: Seq<DmcColor>) -> bool {
    forall|i: int, j: int|
        0 <= i < j < list.len() ==> (#[trigger] list[i]).lab.le((#[trigger] list[j]).lab)
}

/// The threads of `list` with at least one cell of `grid` in their colour,
/// in the order of `list`.
pub open spec fn used(grid: Seq<Vec<RgbColor>>, list: Seq<DmcColor>) -> Seq<DmcColor>
    decreases list.len(),
{
    if list.len() == 0 {
        list
    } else if stitches(grid, list.last().rgb) > 0 {
        used(grid, list.drop_last()).push(list.last())
    } else {
        used(grid, list.drop_last())
    }
}

/// The threads of a pattern's manifest: those in use, in ascending order of
/// (L, a, b).
pub open spec fn manifest_threads(grid: Seq<Vec<RgbColor>>, colors: Seq<DmcColor>) -> Seq<
    DmcColor,
> {
    used(grid, sorted_by_lab(colors))
}

/// The digits of the identifier of the `n`th thread: the number in decimal
/// notation, with a zero before a single digit.
pub open spec fn identifier_digits(n: nat) -> Seq<u8> {
    if n < 10 {
        seq![0u8, n as u8]
    } else {
        decimal_digits(n)
    }
}

/// The identifier of the `n`th thread.
pub open spec fn identifier_text(n: nat) -> Seq<char> {
    chars_of(identifier_digits(n))
}

/// The cells of all the threads of `palette` together.
pub open spec fn total_stitches(palette: Seq<Palette>) -> int
    decreases palette.len(),
{
    if palette.len() == 0 {
        0
    } else {
        total_stitches(palette.drop_last()) + palette.last().n_stitches
    }
}

/// The cells of `grid` in the colours of all the threads of `list` together.
pub open spec fn sum_stitches(grid: Seq<Vec<RgbColor>>, list: Seq<DmcColor>) -> int
    decreases list.len(),
{
    if list.len() == 0 {
        0
    } else {
        sum_stitches(grid, list.drop_last()) + stitches(grid, list.last().rgb)
    }
}

/// The cells of a row in the colours of all the threads of `list` together.
pub open spec fn sum_row(cells: Seq<RgbColor>, list: Seq<DmcColor>) -> int
    decreases list.len(),
{
    if list.len() == 0 {
        0
    } else {
        sum_row(cells, list.drop_last()) + stitches_in_row(cells, list.last().rgb)
    }
}

/// The number of threads of `list` in the colour `rgb`.
pub open spec fn hits(list: Seq<DmcColor>, rgb: RgbColor) -> int
    decreases list.len(),
{
    if list.len() == 0 {
        0
    } else {
        hits(list.drop_last(), rgb) + if list.last().rgb == rgb {
            1int
        } else {
            0int
        }
    }
}

/// No two threads of `list` have one colour.
pub open spec fn distinct(list: Seq<DmcColor>) -> bool {
    forall|i: int, j: int|
        0 <= i < j < list.len() ==> (#[trigger] list[i]).rgb != (#[trigger] list[j]).rgb
}

/// Among threads of distinct colours exactly one has a colour that one has.
pub proof fn lemma_hits(list: Seq<DmcColor>, rgb: RgbColor)
    requires
        distinct(list),
    ensures
        hits(list, rgb) == if has_color(list, rgb) {
            1int
        } else {
            0int
        },
    decreases list.len(),
{
    if list.len() > 0 {
        let front = list.drop_last();
        assert(distinct(front)) by {
            assert forall|i: int, j: int| 0 <= i < j < front.len() implies (#[trigger] front[i]).rgb
                != (#[trigger] front[j]).rgb by {
                assert(front[i] == list[i] && front[j] == list[j]);
            }
        }
        lemma_hits(front, rgb);
        if has_color(front, rgb) {
            let at = choose|at: int| 0 <= at < front.len() && (#[trigger] front[at]).rgb == rgb;
            assert(list[at] == front[at]);
            assert(list[at].rgb != list[list.len() - 1].rgb);
        } else if list.last().rgb == rgb {
            assert(list[list.len() - 1].rgb == rgb);
        } else if has_color(list, rgb) {
            let at = choose|at: int| 0 <= at < list.len() && (#[trigger] list[at]).rgb == rgb;
            assert(front[at] == list[at]);
        }
    }
}

/// A cell more in a row is a stitch more for each thread of its colour.
pub proof fn lemma_sum_row_push(cells: Seq<RgbColor>, cell: RgbColor, list: Seq<DmcColor>)
    ensures
        sum_row(cells.push(cell), list) == sum_row(cells, list) + hits(list, cell),
    decreases list.len(),
{
    if list.len() > 0 {
        lemma_sum_row_push(cells, cell, list.drop_last());
        assert(cells.push(cell).drop_last() =~= cells);
    }
}

/// In a row whose cells all have colours of `list`, the threads of `list`,
/// of distinct colours, have together as many stitches as there are cells.
pub proof fn lemma_sum_row(cells: Seq<RgbColor>, list: Seq<DmcColor>)
    requires
        distinct(list),
        forall|c: int| 0 <= c < cells.len() ==> has_color(list, #[trigger] cells[c]),
    ensures
        sum_row(cells, list) == cells.len(),
    decreases cells.len(),
{
    if cells.len() == 0 {
        lemma_sum_row_empty(cells, list);
    } else {
        let front = cells.drop_last();
        assert forall|c: int| 0 <= c < front.len() implies has_color(list, #[trigger] front[c]) by {
            assert(front[c] == cells[c]);
        }
        lemma_sum_row(front, list);
        lemma_sum_row_push(front, cells.last(), list);
        assert(front.push(cells.last()) =~= cells);
        lemma_hits(list, cells.last());
        assert(has_color(list, cells[cells.len() - 1]));
    }
}

/// An empty row has no stitches.
pub proof fn lemma_sum_row_empty(cells: Seq<RgbColor>, list: Seq<DmcColor>)
    requires
        cells.len() == 0,
    ensures
        sum_row(cells, list) == 0,
    decreases list.len(),
{
    if list.len() > 0 {
        lemma_sum_row_empty(cells, list.drop_last());
    }
}

/// A row more in a grid adds the row's stitches.
pub proof fn lemma_sum_stitches_push(
    grid: Seq<Vec<RgbColor>>,
    row: Vec<RgbColor>,
    list: Seq<DmcColor>,
)
    ensures
        sum_stitches(grid.push(row), list) == sum_stitches(grid, list) + sum_row(row@, list),
    decreases list.len(),
{
    if list.len() > 0 {
        lemma_sum_stitches_push(grid, row, list.drop_last());
        assert(grid.push(row).drop_last() =~= grid);
    }
}

/// A grid without rows has no stitches.
pub proof fn lemma_sum_stitches_empty(grid: Seq<Vec<RgbColor>>, list: Seq<DmcColor>)
    requires
        grid.len() == 0,
    ensures
        sum_stitches(grid, list) == 0,
    decreases list.len(),
{
    if list.len() > 0 {
        lemma_sum_stitches_empty(grid, list.drop_last());
    }
}

/// In a grid whose cells all have colours of `list`, the threads of `list`,
/// of distinct colours, have together as many stitches as there are cells.
pub proof fn lemma_sum_stitches(grid: Seq<Vec<RgbColor>>, list: Seq<DmcColor>)
    requires
        distinct(list),
        forall|r: int, c: int|
            0 <= r < grid.len() && 0 <= c < grid[r]@.len() ==> has_color(
                list,
                #[trigger] grid[r]@[c],
            ),
    ensures
        sum_stitches(grid, list) == cell_count(grid),
    decreases grid.len(),
{
    if grid.len() == 0 {
        lemma_sum_stitches_empty(grid, list);
    } else {
        let front = grid.drop_last();
        assert forall|r: int, c: int|
            0 <= r < front.len() && 0 <= c < front[r]@.len() implies has_color(
            list,
            #[trigger] front[r]@[c],
        ) by {
            assert(front[r] == grid[r]);
        }
        lemma_sum_stitches(front, list);
        lemma_sum_stitches_push(front, grid.last(), list);
        assert(front.push(grid.last()) =~= grid);
        assert forall|c: int| 0 <= c < grid.last()@.len() implies has_color(
            list,
            #[trigger] grid.last()@[c],
        ) by {
            assert(grid.last()@[c] == grid[grid.len() - 1]@[c]);
        }
        lemma_sum_row(grid.last()@, list);
    }
}

/// A grid of rows of one length has rows times that length cells.
pub proof fn lemma_cell_count(grid: Seq<Vec<RgbColor>>, columns: int)
    requires
        forall|r: int| 0 <= r < grid.len() ==> (#[trigger] grid[r])@.len() == columns,
    ensures
        cell_count(grid) == grid.len() * columns,
    decreases grid.len(),
{
    if grid.len() > 0 {
        let front = grid.drop_last();
        assert forall|r: int| 0 <= r < front.len() implies (#[trigger] front[r])@.len()
            == columns by {
            assert(front[r] == grid[r]);
        }
        lemma_cell_count(front, columns);
        assert(grid.last() == grid[grid.len() - 1]);
        assert(grid.len() * columns == (grid.len() - 1) * columns + columns) by (nonlinear_arith);
    } else {
        assert(0 * columns == 0);
    }
}

/// `insert_position` is a place in `sorted`: `x` comes strictly before every
/// thread from there on, and not strictly before the thread just before it.
pub proof fn lemma_insert_position(sorted: Seq<DmcColor>, x: DmcColor)
    ensures
        0 <= insert_position(sorted, x) <= sorted.len(),
        forall|i: int|
            insert_position(sorted, x) <= i < sorted.len() ==> x.lab.lt((#[trigger] sorted[i]).lab),
        insert_position(sorted, x) > 0 ==> !x.lab.lt(sorted[insert_position(sorted, x) - 1].lab),
    decreases sorted.len(),
{
    if sorted.len() > 0 && x.lab.lt(sorted.last().lab) {
        let front = sorted.drop_last();
        lemma_insert_position(front, x);
        assert forall|i: int| insert_position(sorted, x) <= i < sorted.len() implies x.lab.lt(
            (#[trigger] sorted[i]).lab,
        ) by {
            if i < front.len() {
                assert(front[i] == sorted[i]);
            }
        }
        if insert_position(sorted, x) > 0 {
            assert(front[insert_position(sorted, x) - 1] == sorted[insert_position(sorted, x) - 1]);
        }
    }
}

/// A thread put at its place into sorted threads leaves them sorted.
pub proof fn lemma_insert_sorted(sorted: Seq<DmcColor>, x: DmcColor)
    requires
        is_sorted(sorted),
    ensures
        is_sorted(sorted.insert(insert_position(sorted, x), x)),
{
    lemma_insert_position(sorted, x);
    let pos = insert_position(sorted, x);
    let next = sorted.insert(pos, x);
    assert forall|i: int, j: int| 0 <= i < j < next.len() implies (#[trigger] next[i]).lab.le(
        (#[trigger] next[j]).lab,
    ) by {
        if j < pos {
            assert(next[i] == sorted[i] && next[j] == sorted[j]);
        } else if j == pos {
            assert(next[i] == sorted[i] && next[j] == x);
            assert(sorted[i].lab.le(sorted[pos - 1].lab));
        } else if i < pos {
            assert(next[i] == sorted[i] && next[j] == sorted[j - 1]);
        } else if i == pos {
            assert(next[i] == x && next[j] == sorted[j - 1]);
            assert(x.lab.lt(sorted[j - 1].lab));
        } else {
            assert(next[i] == sorted[i - 1] && next[j] == sorted[j - 1]);
        }
    }
}

/// A thread put into a list adds its stitches to the list's.
pub proof fn lemma_sum_insert(grid: Seq<Vec<RgbColor>>, list: Seq<DmcColor>, pos: int, x: DmcColor)
    requires
        0 <= pos <= list.len(),
    ensures
        sum_stitches(grid, list.insert(pos, x)) == sum_stitches(grid, list) + stitches(grid, x.rgb),
    decreases list.len() - pos,
{
    let next = list.insert(pos, x);
    if pos == list.len() {
        assert(next.drop_last() =~= list);
        assert(next.last() == x);
    } else {
        lemma_sum_insert(grid, list.drop_last(), pos, x);
        assert(next.drop_last() =~= list.drop_last().insert(pos, x));
        assert(next.last() == list.last());
    }
}

/// Sorting gives the same threads, as many, in ascending order, with the
/// same stitches together.
pub proof fn lemma_sorted_by_lab(grid: Seq<Vec<RgbColor>>, list: Seq<DmcColor>)
    ensures
        sorted_by_lab(list).len() == list.len(),
        is_sorted(sorted_by_lab(list)),
        sorted_by_lab(list).to_multiset() == list.to_multiset(),
        sum_stitches(grid, sorted_by_lab(list)) == sum_stitches(grid, list),
    decreases list.len(),
{
    if list.len() > 0 {
        let front = sorted_by_lab(list.drop_last());
        let pos = insert_position(front, list.last());
        lemma_sorted_by_lab(grid, list.drop_last());
        lemma_insert_position(front, list.last());
        lemma_insert_sorted(front, list.last());
        lemma_sum_insert(grid, front, pos, list.last());
        vstd::seq_lib::to_multiset_insert(front, pos, list.last());
        vstd::seq_lib::to_multiset_build(list.drop_last(), list.last());
        assert(list.drop_last().push(list.last()) =~= list);
    }
}

/// A colour has no negative number of stitches.
pub proof fn lemma_stitches_in_row(cells: Seq<RgbColor>, rgb: RgbColor)
    ensures
        0 <= stitches_in_row(cells, rgb) <= cells.len(),
    decreases cells.len(),
{
    if cells.len() > 0 {
        lemma_stitches_in_row(cells.drop_last(), rgb);
    }
}

/// A colour has no negative number of stitches, and no more than there are
/// cells.
pub proof fn lemma_stitches(grid: Seq<Vec<RgbColor>>, rgb: RgbColor)
    ensures
        0 <= stitches(grid, rgb) <= cell_count(grid),
    decreases grid.len(),
{
    if grid.len() > 0 {
        lemma_stitches(grid.drop_last(), rgb);
        lemma_stitches_in_row(grid.last()@, rgb);
    }
}

/// The threads in use are threads of the list, each with a stitch at least;
/// they are sorted where the list is, and have all the list's stitches.
pub proof fn lemma_used(grid: Seq<Vec<RgbColor>>, list: Seq<DmcColor>)
    ensures
        used(grid, list).len() <= list.len(),
        forall|i: int|
            0 <= i < used(grid, list).len() ==> list.contains(#[trigger] used(grid, list)[i])
                && stitches(grid, used(grid, list)[i].rgb) > 0,
        is_sorted(list) ==> is_sorted(used(grid, list)),
        sum_stitches(grid, used(grid, list)) == sum_stitches(grid, list),
    decreases list.len(),
{
    if list.len() > 0 {
        let front = list.drop_last();
        let some = used(grid, front);
        let all = used(grid, list);
        lemma_used(grid, front);
        lemma_stitches(grid, list.last().rgb);
        assert forall|i: int| 0 <= i < all.len() implies list.contains(#[trigger] all[i])
            && stitches(grid, all[i].rgb) > 0 by {
            if i < some.len() {
                assert(all[i] == some[i]);
                assert(front.contains(some[i]));
                let at = choose|at: int| 0 <= at < front.len() && front[at] == some[i];
                assert(list[at] == some[i]);
            } else {
                assert(list[list.len() - 1] == all[i]);
            }
        }
        if is_sorted(list) {
            assert(is_sorted(front)) by {
                assert forall|i: int, j: int| 0 <= i < j < front.len() implies (
                #[trigger] front[i]).lab.le((#[trigger] front[j]).lab) by {
                    assert(front[i] == list[i] && front[j] == list[j]);
                }
            }
            assert forall|i: int, j: int| 0 <= i < j < all.len() implies (#[trigger] all[i]).lab.le(
                (#[trigger] all[j]).lab,
            ) by {
                if j < some.len() {
                    assert(all[i] == some[i] && all[j] == some[j]);
                } else {
                    assert(all[i] == some[i]);
                    assert(front.contains(some[i]));
                    let at = choose|at: int| 0 <= at < front.len() && front[at] == some[i];
                    assert(list[at] == some[i]);
                    assert(all[j] == list[list.len() - 1]);
                }
            }
        }
        if stitches(grid, list.last().rgb) > 0 {
            assert(all.drop_last() =~= some);
        }
    }
}

/// The digits of an identifier denote the thread's number, so no two numbers
/// have one identifier.
pub proof fn lemma_identifier_unique(a: nat, b: nat)
    ensures
        identifier_text(a).len() >= 2,
        identifier_text(a) == identifier_text(b) ==> a == b,
{
    lemma_identifier_digits(a);
    lemma_identifier_digits(b);
    let da = identifier_digits(a);
    let db = identifier_digits(b);
    if identifier_text(a) == identifier_text(b) {
        assert(da.len() == identifier_text(a).len());
        assert(db.len() == identifier_text(b).len());
        assert forall|i: int| 0 <= i < da.len() implies da[i] == db[i] by {
            assert(identifier_text(a)[i] == ((da[i] + 48) as u8) as char);
            assert(identifier_text(b)[i] == ((db[i] + 48) as u8) as char);
        }
        assert(da =~= db);
    }
}

/// The digits of an identifier are digits and denote the thread's number.
pub proof fn lemma_identifier_digits(n: nat)
    ensures
        identifier_digits(n).len() >= 2,
        forall|i: int|
            0 <= i < identifier_digits(n).len() ==> #[trigger] identifier_digits(n)[i] < 10,
        digits_value(identifier_digits(n)) == n,
{
    lemma_decimal_digits(n);
    if n < 10 {
        let d = identifier_digits(n);
        assert(d.drop_last() =~= seq![0u8]);
        assert(d.drop_last().drop_last().len() == 0);
        assert(digits_value(d.drop_last()) == digits_value(d.drop_last().drop_last()) * 10 + 0);
    }
}

/// Sorts threads in ascending order of (L, a, b), threads with equal
/// coordinates in the order they come in.
pub fn sort_by_lab(list: &Vec<DmcColor>) -> (sorted: Vec<DmcColor>)
    ensures
        sorted@ == sorted_by_lab(list@),
{
    let mut sorted: Vec<DmcColor> = Vec::new();
    let mut i: usize = 0;
    while i < list.len()
        invariant
            i <= list.len(),
            sorted@ == sorted_by_lab(list@.take(i as int)),
        decreases list.len() - i,
    {
        let x = list[i];
        let mut pos: usize = sorted.len();
        assert(sorted@.take(pos as int) =~= sorted@);
        while pos > 0 && x.lab.precedes(&sorted[pos - 1].lab)
            invariant
                pos <= sorted.len(),
                insert_position(sorted@, x) == insert_position(sorted@.take(pos as int), x),
            decreases pos,
        {
            proof {
                let part = sorted@.take(pos as int);
                assert(part.last() == sorted@[pos - 1]);
                assert(part.drop_last() =~= sorted@.take(pos - 1));
            }
            pos -= 1;
        }
        proof {
            let part = sorted@.take(pos as int);
            if pos > 0 {
                assert(part.last() == sorted@[pos - 1]);
            }
            let next = list@.take(i + 1);
            assert(next.drop_last() =~= list@.take(i as int));
            assert(next.last() == x);
        }
        sorted.insert(pos, x);
        i += 1;
    }
    proof {
        assert(list@.take(list.len() as int) =~= list@);
    }
    sorted
}

/// The identifier of the `n`th thread of a pattern.
pub fn identifier(n: usize) -> (text: String)
    ensures
        text@ == identifier_text(n as nat),
{
    let digits = if n < 10 {
        let mut short: Vec<u8> = Vec::new();
        short.push(0);
        short.push(n as u8);
        proof {
            assert(short@ =~= identifier_digits(n as nat));
        }
        short
    } else {
        digits_of(n)
    };
    proof {
        lemma_identifier_digits(n as nat);
    }
    let mut text = String::new();
    let mut i: usize = 0;
    while i < digits.len()
        invariant
            i <= digits.len(),
            forall|j: int| 0 <= j < digits.len() ==> #[trigger] digits@[j] < 10,
            text@ == chars_of(digits@.take(i as int)),
        decreases digits.len() - i,
    {
        proof {
            assert(chars_of(digits@.take(i as int)) + seq![((digits@[i as int] + 48) as u8) as char]
                =~= chars_of(digits@.take(i + 1)));
        }
        text.append(digit_str(digits[i]));
        i += 1;
    }
    proof {
        assert(digits@.take(digits.len() as int) =~= digits@);
    }
    text
}

impl Canvas {
    /// The number of cells in the colour `rgb`.
    pub fn calculate_stitches(&self, rgb: RgbColor) -> (n: u32)
        requires
            self.wf(),
        ensures
            n == stitches(self.embroidery@, rgb),
    {
        let ghost grid = self.embroidery@;
        let ghost columns = self.config.columns as int;
        proof {
            lemma_sample_rows(
                0,
                self.config.width as int,
                self.config.height as int,
                self.config.columns as int,
            );
            assert(self.config.rows * self.config.columns <= self.config.width
                * self.config.height) by (nonlinear_arith)
                requires
                    0 <= self.config.rows <= self.config.height,
                    0 <= self.config.columns <= self.config.width,
            ;
        }
        let mut n: u32 = 0;
        let mut r: usize = 0;
        while r < self.embroidery.len()
            invariant
                r <= self.embroidery.len(),
                self.wf(),
                grid == self.embroidery@,
                columns == self.config.columns,
                self.config.rows * columns <= 167_772_160,
                n == stitches(grid.take(r as int), rgb),
                n <= r * columns,
            decreases self.embroidery.len() - r,
        {
            let row = &self.embroidery[r];
            let mut c: usize = 0;
            let ghost before = n;
            assert(r * columns + columns <= self.config.rows * columns) by (nonlinear_arith)
                requires
                    r + 1 <= self.config.rows,
                    0 <= columns,
            ;
            while c < row.len()
                invariant
                    c <= row.len(),
                    row@.len() == columns,
                    r * columns + columns <= 167_772_160,
                    before <= r * columns,
                    n == before + stitches_in_row(row@.take(c as int), rgb),
                    n <= r * columns + c,
                decreases row.len() - c,
            {
                proof {
                    let next = row@.take(c + 1);
                    assert(next.drop_last() =~= row@.take(c as int));
                    assert(next.last() == row@[c as int]);
                }
                if row[c] == rgb {
                    n += 1;
                }
                c += 1;
            }
            proof {
                assert(row@.take(row.len() as int) =~= row@);
                let next = grid.take(r + 1);
                assert(next.drop_last() =~= grid.take(r as int));
                assert(next.last() == *row);
                assert((r + 1) * columns == r * columns + columns) by (nonlinear_arith);
            }
            r += 1;
        }
        proof {
            assert(grid.take(self.embroidery.len() as int) =~= grid);
        }
        n
    }

    /// The pattern's manifest: its threads in use, in ascending order of
    /// (L, a, b), numbered from "01" in that order, each with the number of
    /// cells in its colour. The numbers of cells add up to the number of
    /// cells of the grid.
    pub fn get_dmc_palette(&self) -> (palette: Vec<Palette>)
        requires
            self.wf(),
        ensures
            palette@.len() == manifest_threads(self.embroidery@, self.colors@).len(),
            forall|i: int|
                0 <= i < palette@.len() ==> {
                    &&& (#[trigger] palette@[i]).color == manifest_threads(
                        self.embroidery@,
                        self.colors@,
                    )[i]
                    &&& palette@[i].identifier@ == identifier_text((i + 1) as nat)
                    &&& palette@[i].n_stitches == stitches(self.embroidery@, palette@[i].color.rgb)
                    &&& palette@[i].n_stitches > 0
                },
            forall|i: int, j: int|
                0 <= i < j < palette@.len() ==> (#[trigger] palette@[i]).color.lab.le(
                    (#[trigger] palette@[j]).color.lab,
                ),
            total_stitches(palette@) == self.config.rows * self.config.columns,
    {
        let sorted = sort_by_lab(&self.colors);
        let ghost grid = self.embroidery@;
        let mut palette: Vec<Palette> = Vec::new();
        let mut i: usize = 0;
        while i < sorted.len()
            invariant
                i <= sorted.len(),
                self.wf(),
                grid == self.embroidery@,
                sorted@ == sorted_by_lab(self.colors@),
                palette@.len() == used(grid, sorted@.take(i as int)).len(),
                palette@.len() <= i,
                forall|j: int|
                    0 <= j < palette@.len() ==> {
                        &&& (#[trigger] palette@[j]).color == used(grid, sorted@.take(i as int))[j]
                        &&& palette@[j].identifier@ == identifier_text((j + 1) as nat)
                        &&& palette@[j].n_stitches == stitches(grid, palette@[j].color.rgb)
                        &&& palette@[j].n_stitches > 0
                    },
                total_stitches(palette@) == sum_stitches(grid, used(grid, sorted@.take(i as int))),
            decreases sorted.len() - i,
        {
            let color = sorted[i];
            let n_stitches = self.calculate_stitches(color.rgb);
            proof {
                let next = sorted@.take(i + 1);
                assert(next.drop_last() =~= sorted@.take(i as int));
                assert(next.last() == color);
            }
            if n_stitches > 0 {
                let ghost before = palette@;
                let identifier = identifier(palette.len() + 1);
                palette.push(Palette { identifier, color, n_stitches });
                proof {
                    assert(palette@.drop_last() =~= before);
                    assert(used(grid, sorted@.take(i + 1)).drop_last() =~= used(
                        grid,
                        sorted@.take(i as int),
                    ));
                }
            }
            i += 1;
        }
        proof {
            assert(sorted@.take(sorted.len() as int) =~= sorted@);
            let threads = manifest_threads(grid, self.colors@);
            lemma_sorted_by_lab(grid, self.colors@);
            lemma_used(grid, sorted@);
            assert(distinct(self.colors@));
            lemma_sum_stitches(grid, self.colors@);
            lemma_cell_count(grid, self.config.columns as int);
            assert forall|a: int, b: int| 0 <= a < b < palette@.len() implies (
            #[trigger] palette@[a]).color.lab.le((#[trigger] palette@[b]).color.lab) by {
                assert(threads[a].lab.le(threads[b].lab));
            }
        }
        palette
    }
}

} // verus!
