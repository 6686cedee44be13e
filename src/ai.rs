use vstd::prelude::*;

use crate::board::{in_range, is_full, is_grid, placed, Board, Grid};
use crate::stone::Stone;

verus! {

/// `c` names an empty cell of `g`, as (column, row).
pub open spec fn is_free_cell(g: Grid, c: (usize, usize)) -> bool {
    in_range(g, c.0 as int, c.1 as int) && g[c.1 as int][c.0 as int] is None
}

/// The empty cells among the first `k` cells of row `y`, left to right.
pub open spec fn empty_in_row(g: Grid, y: int, k: int) -> Seq<(usize, usize)>
    decreases k,
{
    if k <= 0 {
        Seq::empty()
    } else if g[y][k - 1] is None {
        empty_in_row(g, y, k - 1).push(((k - 1) as usize, y as usize))
    } else {
        empty_in_row(g, y, k - 1)
    }
}

/// The empty cells of the first `k` rows, in row-major order.
pub open spec fn empty_in_rows(g: Grid, k: int) -> Seq<(usize, usize)>
    decreases k,
{
    if k <= 0 {
        Seq::empty()
    } else {
        empty_in_rows(g, k - 1) + empty_in_row(g, k - 1, g.len() as int)
    }
}

/// The empty cells of `g`, row by row from the top, each row left to right.
pub open spec fn empty_cells(g: Grid) -> Seq<(usize, usize)> {
    empty_in_rows(g, g.len() as int)
}

/// `after` is `before` with `s` placed on the `i`-th of its empty cells for
/// some `i`, or `before` itself when it has none.
pub open spec fn ai_reply(before: Grid, after: Grid, s: Stone) -> bool {
    if empty_cells(before).len() == 0 {
        after == before
    } else {
        exists|i: int|
            0 <= i < empty_cells(before).len() && after == placed(
                before,
                (#[trigger] empty_cells(before)[i]).0 as int,
                empty_cells(before)[i].1 as int,
                Some(s),
            )
    }
}

/// Every cell listed for row `y` is empty and lies in that row; none listed
/// means the first `k` cells are all taken.
proof fn lemma_empty_in_row(g: Grid, y: int, k: int)
    requires
        is_grid(g),
        g.len() <= usize::MAX,
        0 <= y < g.len(),
        0 <= k <= g.len(),
    ensures
        forall|i: int| 0 <= i < empty_in_row(g, y, k).len()
            ==> is_free_cell(g, #[trigger] empty_in_row(g, y, k)[i]),
        empty_in_row(g, y, k).len() == 0 ==> forall|x: int| 0 <= x < k ==> (#[trigger] g[y][x]) is Some,
    decreases k,
{
    if k > 0 {
        lemma_empty_in_row(g, y, k - 1);
    }
}

/// Every cell listed for the first `k` rows is empty; none listed means
/// those rows are full.
proof fn lemma_empty_in_rows(g: Grid, k: int)
    requires
        is_grid(g),
        g.len() <= usize::MAX,
        0 <= k <= g.len(),
    ensures
        forall|i: int| 0 <= i < empty_in_rows(g, k).len()
            ==> is_free_cell(g, #[trigger] empty_in_rows(g, k)[i]),
        empty_in_rows(g, k).len() == 0
            ==> forall|x: int, y: int| in_range(g, x, y) && y < k ==> (#[trigger] g[y][x]) is Some,
    decreases k,
{
    if k > 0 {
        let n = g.len() as int;
        lemma_empty_in_rows(g, k - 1);
        lemma_empty_in_row(g, k - 1, n);
        let a = empty_in_rows(g, k - 1);
        let b = empty_in_row(g, k - 1, n);
        assert forall|i: int| 0 <= i < (a + b).len() implies is_free_cell(g, #[trigger] (a + b)[i]) by {
            if i >= a.len() {
                assert((a + b)[i] == b[i - a.len()]);
            }
        }
    }
}

/// Each listed empty cell is an empty cell of the grid, and the list is
/// empty only on a full grid.
pub proof fn lemma_empty_cells(g: Grid)
    requires
        is_grid(g),
        g.len() <= usize::MAX,
    ensures
        forall|i: int| 0 <= i < empty_cells(g).len() ==> is_free_cell(g, #[trigger] empty_cells(g)[i]),
        empty_cells(g).len() == 0 <==> is_full(g),
{
    let n = g.len() as int;
    lemma_empty_in_rows(g, n);
    if is_full(g) && empty_cells(g).len() > 0 {
        let c = empty_cells(g)[0];
        assert(is_free_cell(g, c));
    }
}

/// The empty cells of the board as (column, row), row by row from the top and
/// each row from the left.
pub fn available_actions(board: &Board) -> (r: Vec<(usize, usize)>)
    requires
        board.wf(),
    ensures
        r@ == empty_cells(board@),
{
    let ghost g = board@;
    let rows = board.stones();
    let n = rows.len();
    let mut r: Vec<(usize, usize)> = Vec::new();
    let mut y: usize = 0;
    while y < n
        invariant
            is_grid(g),
            rows@.map_values(|row: Vec<Option<Stone>>| row@) == g,
            n == g.len(),
            y <= n,
            r@ == empty_in_rows(g, y as int),
        decreases n - y,
    {
        let row = &rows[y];
        assert(row@ == g[y as int]);
        let mut x: usize = 0;
        while x < n
            invariant
                is_grid(g),
                row@ == g[y as int],
                n == g.len(),
                y < n,
                x <= n,
                r@ == empty_in_rows(g, y as int) + empty_in_row(g, y as int, x as int),
            decreases n - x,
        {
            if row[x].is_none() {
                r.push((x, y));
            }
            assert(r@ =~= empty_in_rows(g, y as int) + empty_in_row(g, y as int, x + 1));
            x = x + 1;
        }
        y = y + 1;
    }
    r
}

/// Relies on `fastrand::usize` over the range `..bound`: a value below
/// `bound`; the range must not be empty.
#[verifier::external_body]
fn random_below(bound: usize) -> (r: usize)
    requires
        bound > 0,
    ensures
        r < bound,
{
    fastrand::usize(..bound)
}

/// Places `ai_stone` on the `choice`-th empty cell of the board, counting row
/// by row from the top and each row from the left.
pub fn action_with_choice(board: &mut Board, ai_stone: Stone, choice: usize)
    requires
        old(board).wf(),
        choice < empty_cells(old(board)@).len(),
    ensures
        final(board).wf(),
        final(board)@ == placed(
            old(board)@,
            empty_cells(old(board)@)[choice as int].0 as int,
            empty_cells(old(board)@)[choice as int].1 as int,
            Some(ai_stone),
        ),
{
    let actions = available_actions(board);
    proof {
        lemma_empty_cells(board@);
    }
    let (x, y) = actions[choice];
    assert(is_free_cell(board@, actions@[choice as int]));
    board.put(Some(ai_stone), x, y);
}

/// Places `ai_stone` on the empty cell at an index drawn uniformly at random
/// from the row-major list of empty cells; leaves a full board as it is.
pub fn action(board: &mut Board, ai_stone: Stone)
    requires
        old(board).wf(),
    ensures
        final(board).wf(),
        final(board)@.len() == old(board)@.len(),
        ai_reply(old(board)@, final(board)@, ai_stone),
{
    let actions = available_actions(board);
    if actions.len() == 0 {
        return;
    }
    let i = random_below(actions.len());
    proof {
        lemma_empty_cells(board@);
        assert(is_free_cell(board@, empty_cells(board@)[i as int]));
    }
    action_with_choice(board, ai_stone, i);
}

} // verus!
