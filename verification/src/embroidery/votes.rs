//! The vote of a cell's pixels for the swatches of the palette.

use crate::embroidery::colors::first_min;
use crate::embroidery::image::Swatch;
use vstd::prelude::*;

verus! {

/// The swatch to which pixel `p` is attributed: the first at the least
/// distance. `pixel_diffs` holds, pixel after pixel, the distance to each of
/// the `palette` swatches.
pub open spec fn attributed(pixel_diffs: Seq<i32>, palette: int, p: int) -> int {
    first_min(pixel_diffs.subrange(p * palette, (p + 1) * palette))
}

/// How many of the pixels `x0..x1` of row `y` are attributed to swatch `k`.
pub open spec fn votes_in_run(
    pixel_diffs: Seq<i32>,
    palette: int,
    width: int,
    y: int,
    x0: int,
    x1: int,
    k: int,
) -> int
    decreases x1 - x0,
{
    if x1 <= x0 {
        0
    } else {
        votes_in_run(pixel_diffs, palette, width, y, x0, x1 - 1, k) + if attributed(
            pixel_diffs,
            palette,
            y * width + x1 - 1,
        ) == k {
            1int
        } else {
            0int
        }
    }
}

/// How many of the pixels of the rectangle `x0..x1` by `y0..y1` are
/// attributed to swatch `k`.
pub open spec fn votes_in_cell(
    pixel_diffs: Seq<i32>,
    palette: int,
    width: int,
    x0: int,
    x1: int,
    y0: int,
    y1: int,
    k: int,
) -> int
    decreases y1 - y0,
{
    if y1 <= y0 {
        0
    } else {
        votes_in_cell(pixel_diffs, palette, width, x0, x1, y0, y1 - 1, k) + votes_in_run(
            pixel_diffs,
            palette,
            width,
            y1 - 1,
            x0,
            x1,
            k,
        )
    }
}

/// The votes of a rectangle for each swatch.
pub open spec fn cell_votes(
    pixel_diffs: Seq<i32>,
    palette: int,
    width: int,
    x0: int,
    x1: int,
    y0: int,
    y1: int,
) -> Seq<u64> {
    Seq::new(
        palette as nat,
        |k: int| votes_in_cell(pixel_diffs, palette, width, x0, x1, y0, y1, k) as u64,
    )
}

/// Swatch `i` is preferred to swatch `j`: it has more votes, or as many and
/// a smaller b coordinate.
pub open spec fn beats(votes: Seq<u64>, swatches: Seq<Swatch>, i: int, j: int) -> bool {
    votes[i] > votes[j] || (votes[i] == votes[j] && swatches[i].lab.b < swatches[j].lab.b)
}

/// The swatch that wins the votes: the first to which none is preferred.
pub open spec fn preferred(votes: Seq<u64>, swatches: Seq<Swatch>) -> int
    decreases votes.len(),
{
    if votes.len() <= 1 {
        0
    } else {
        let w = preferred(votes.drop_last(), swatches);
        if beats(votes, swatches, votes.len() - 1, w) {
            votes.len() - 1
        } else {
            w
        }
    }
}

/// No swatch is preferred to the winner, and the winner is preferred to
/// every swatch before it.
pub proof fn lemma_preferred(votes: Seq<u64>, swatches: Seq<Swatch>)
    requires
        0 < votes.len() <= swatches.len(),
    ensures
        0 <= preferred(votes, swatches) < votes.len(),
        forall|j: int|
            0 <= j < votes.len() ==> !beats(votes, swatches, j, preferred(votes, swatches)),
        forall|j: int|
            0 <= j < preferred(votes, swatches) ==> beats(
                votes,
                swatches,
                preferred(votes, swatches),
                j,
            ),
    decreases votes.len(),
{
    if votes.len() > 1 {
        let front = votes.drop_last();
        lemma_preferred(front, swatches);
        let w = preferred(front, swatches);
        let all = preferred(votes, swatches);
        assert forall|j: int| 0 <= j < votes.len() implies !beats(votes, swatches, j, all) by {
            if j < votes.len() - 1 {
                assert(!beats(front, swatches, j, w));
                assert(front[j] == votes[j] && front[w] == votes[w]);
            }
        }
        assert forall|j: int| 0 <= j < all implies beats(votes, swatches, all, j) by {
            assert(front[j] == votes[j] && front[w] == votes[w]);
            if all == w {
                assert(beats(front, swatches, w, j));
            } else {
                assert(!beats(front, swatches, j, w));
                if j < w {
                    assert(beats(front, swatches, w, j));
                }
            }
        }
    }
}

/// Finds the first position of the least value among `diffs[from..to]`,
/// counted from `from`.
pub fn first_min_in(diffs: &Vec<i32>, from: usize, to: usize) -> (best: usize)
    requires
        from < to <= diffs.len(),
    ensures
        best == first_min(diffs@.subrange(from as int, to as int)),
        best < to - from,
{
    let mut best: usize = from;
    let mut i: usize = from + 1;
    proof {
        assert(diffs@.subrange(from as int, from + 1).len() == 1);
    }
    while i < to
        invariant
            from < i <= to <= diffs.len(),
            from <= best < i,
            best - from == first_min(diffs@.subrange(from as int, i as int)),
        decreases to - i,
    {
        proof {
            let next = diffs@.subrange(from as int, i + 1);
            assert(next.drop_last() =~= diffs@.subrange(from as int, i as int));
            assert(next.last() == diffs@[i as int]);
            assert(next[best - from] == diffs@[best as int]);
        }
        if diffs[i] < diffs[best] {
            best = i;
        }
        i += 1;
    }
    best - from
}

/// Counts, for each swatch, the pixels of the rectangle `x0..x1` by `y0..y1`
/// that are attributed to it.
pub fn count_votes(
    pixel_diffs: &Vec<i32>,
    palette: usize,
    width: u32,
    height: u32,
    x0: u32,
    x1: u32,
    y0: u32,
    y1: u32,
) -> (votes: Vec<u64>)
    requires
        palette > 0,
        x0 <= x1 <= width,
        y0 <= y1 <= height,
        pixel_diffs@.len() == (width * height) * palette,
    ensures
        votes@ == cell_votes(
            pixel_diffs@,
            palette as int,
            width as int,
            x0 as int,
            x1 as int,
            y0 as int,
            y1 as int,
        ),
{
    let mut votes: Vec<u64> = Vec::new();
    let mut k: usize = 0;
    while k < palette
        invariant
            k <= palette,
            votes@.len() == k,
            forall|j: int| 0 <= j < k ==> votes@[j] == 0,
        decreases palette - k,
    {
        votes.push(0);
        k += 1;
    }
    let ghost d = pixel_diffs@;
    let ghost kk = palette as int;
    let ghost w = width as int;
    assert(0 <= width * height) by (nonlinear_arith)
        requires
            0 <= width,
            0 <= height,
    ;
    assert(width * height <= pixel_diffs.len()) by (nonlinear_arith)
        requires
            pixel_diffs.len() == (width * height) * palette,
            palette >= 1,
            0 <= width * height,
    ;
    let mut y: u32 = y0;
    while y < y1
        invariant
            palette > 0,
            kk == palette,
            w == width,
            d == pixel_diffs@,
            x0 <= x1 <= width,
            y0 <= y <= y1 <= height,
            pixel_diffs@.len() == (width * height) * palette,
            width * height <= pixel_diffs.len(),
            votes@.len() == palette,
            forall|j: int|
                0 <= j < palette ==> #[trigger] votes@[j] == votes_in_cell(
                    d,
                    kk,
                    w,
                    x0 as int,
                    x1 as int,
                    y0 as int,
                    y as int,
                    j,
                ),
            forall|j: int| 0 <= j < palette ==> #[trigger] votes@[j] <= y * width,
        decreases y1 - y,
    {
        let mut x: u32 = x0;
        assert(0 <= y * width && y * width + width <= width * height) by (nonlinear_arith)
            requires
                0 <= y < height,
                0 <= width,
        ;
        while x < x1
            invariant
                palette > 0,
                kk == palette,
                w == width,
                d == pixel_diffs@,
                x0 <= x <= x1 <= width,
                y0 <= y < y1 <= height,
                pixel_diffs@.len() == (width * height) * palette,
                width * height <= pixel_diffs.len(),
                0 <= y * width,
                y * width + width <= width * height,
                votes@.len() == palette,
                forall|j: int|
                    0 <= j < palette ==> #[trigger] votes@[j] == votes_in_cell(
                        d,
                        kk,
                        w,
                        x0 as int,
                        x1 as int,
                        y0 as int,
                        y as int,
                        j,
                    ) + votes_in_run(d, kk, w, y as int, x0 as int, x as int, j),
                forall|j: int| 0 <= j < palette ==> #[trigger] votes@[j] <= y * width + x,
            decreases x1 - x,
        {
            let p: usize = (y as usize) * (width as usize) + (x as usize);
            assert(p * palette + palette == (p + 1) * palette && 0 <= p * palette && (p + 1)
                * palette <= (width * height) * palette) by (nonlinear_arith)
                requires
                    0 <= p,
                    p + 1 <= width * height,
                    palette > 0,
            ;
            let from: usize = p * palette;
            let choice = first_min_in(pixel_diffs, from, from + palette);
            let ghost before = votes@;
            let count = votes[choice];
            votes.set(choice, count + 1);
            proof {
                assert(choice == attributed(d, kk, y * w + (x + 1) - 1));
                assert forall|j: int| 0 <= j < palette implies #[trigger] votes@[j]
                    == votes_in_cell(d, kk, w, x0 as int, x1 as int, y0 as int, y as int, j)
                    + votes_in_run(d, kk, w, y as int, x0 as int, x + 1, j) by {
                    assert(before[j] == votes_in_cell(
                        d,
                        kk,
                        w,
                        x0 as int,
                        x1 as int,
                        y0 as int,
                        y as int,
                        j,
                    ) + votes_in_run(d, kk, w, y as int, x0 as int, x as int, j));
                }
                assert forall|j: int| 0 <= j < palette implies #[trigger] votes@[j] <= y * width
                    + (x + 1) by {
                    assert(before[j] <= y * width + x);
                }
            }
            x += 1;
        }
        proof {
            assert((y + 1) * width == y * width + width) by (nonlinear_arith);
            assert forall|j: int| 0 <= j < palette implies #[trigger] votes@[j] <= (y + 1)
                * width by {
                assert(votes@[j] <= y * width + x);
            }
        }
        y += 1;
    }
    proof {
        assert(votes@ =~= cell_votes(d, kk, w, x0 as int, x1 as int, y0 as int, y1 as int));
    }
    votes
}

/// Finds the swatch that wins the votes.
pub fn prefer(votes: &Vec<u64>, swatches: &Vec<Swatch>) -> (winner: usize)
    requires
        0 < votes@.len() <= swatches@.len(),
    ensures
        winner == preferred(votes@, swatches@),
        winner < votes@.len(),
{
    let mut winner: usize = 0;
    let mut i: usize = 1;
    proof {
        assert(votes@.take(1).len() == 1);
    }
    while i < votes.len()
        invariant
            1 <= i <= votes.len(),
            votes@.len() <= swatches@.len(),
            winner < i,
            winner == preferred(votes@.take(i as int), swatches@),
        decreases votes.len() - i,
    {
        proof {
            let next = votes@.take(i + 1);
            assert(next.drop_last() =~= votes@.take(i as int));
            assert(next[i as int] == votes@[i as int]);
            assert(next[winner as int] == votes@[winner as int]);
        }
        if votes[i] > votes[winner] || (votes[i] == votes[winner] && swatches[i].lab.b
            < swatches[winner].lab.b) {
            winner = i;
        }
        i += 1;
    }
    proof {
        assert(votes@.take(votes.len() as int) =~= votes@);
    }
    winner
}

} // verus!
