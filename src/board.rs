use vstd::prelude::*;

use crate::stone::{other, Stone};

verus! {

/// A board as a mathematical value: rows indexed by `y`, each row a sequence
/// of cells indexed by `x`.
pub type Grid = Seq<Seq<Option<Stone>>>;

/// A square grid with at least one cell.
pub open spec fn is_grid(g: Grid) -> bool {
    &&& g.len() >= 1
    &&& forall|y: int| 0 <= y < g.len() ==> (#[trigger] g[y]).len() == g.len()
}

/// The `n`×`n` grid with every cell empty.
pub open spec fn empty_grid(n: nat) -> Grid {
    Seq::new(n, |y: int| Seq::new(n, |x: int| None::<Stone>))
}

/// The grid `g` with the cell at column `x`, row `y` set to `c`.
pub open spec fn placed(g: Grid, x: int, y: int, c: Option<Stone>) -> Grid {
    g.update(y, g[y].update(x, c))
}

/// `(x, y)` names a cell of `g`.
pub open spec fn in_range(g: Grid, x: int, y: int) -> bool {
    0 <= x < g.len() && 0 <= y < g.len()
}

/// Every cell of `g` holds a stone.
pub open spec fn is_full(g: Grid) -> bool {
    forall|x: int, y: int| in_range(g, x, y) ==> (#[trigger] g[y][x]) is Some
}

/// Row `y` holds `s` in every cell.
pub open spec fn row_full_of(g: Grid, y: int, s: Stone) -> bool {
    forall|x: int| 0 <= x < g.len() ==> #[trigger] g[y][x] == Some(s)
}

/// Column `x` holds `s` in every cell.
pub open spec fn col_full_of(g: Grid, x: int, s: Stone) -> bool {
    forall|y: int| 0 <= y < g.len() ==> #[trigger] g[y][x] == Some(s)
}

/// The diagonal from the top-left corner holds `s` in every cell.
pub open spec fn diag_full_of(g: Grid, s: Stone) -> bool {
    forall|k: int| 0 <= k < g.len() ==> #[trigger] g[k][k] == Some(s)
}

/// The diagonal from the top-right corner holds `s` in every cell.
pub open spec fn anti_full_of(g: Grid, s: Stone) -> bool {
    forall|k: int| 0 <= k < g.len() ==> #[trigger] g[k][g.len() - 1 - k] == Some(s)
}

/// Some row, column or diagonal of `g` holds `s` in every cell.
pub open spec fn has_line(g: Grid, s: Stone) -> bool {
    ||| exists|y: int| 0 <= y < g.len() && #[trigger] row_full_of(g, y, s)
    ||| exists|x: int| 0 <= x < g.len() && #[trigger] col_full_of(g, x, s)
    ||| diag_full_of(g, s)
    ||| anti_full_of(g, s)
}

/// The stone of the first full row at or after row `y`, scanning downwards.
pub open spec fn first_full_row(g: Grid, y: int) -> Option<Stone>
    decreases g.len() - y,
{
    if y < 0 || y >= g.len() {
        None
    } else if row_full_of(g, y, Stone::Black) {
        Some(Stone::Black)
    } else if row_full_of(g, y, Stone::White) {
        Some(Stone::White)
    } else {
        first_full_row(g, y + 1)
    }
}

/// The stone of the first full column at or after column `x`, scanning rightwards.
pub open spec fn first_full_col(g: Grid, x: int) -> Option<Stone>
    decreases g.len() - x,
{
    if x < 0 || x >= g.len() {
        None
    } else if col_full_of(g, x, Stone::Black) {
        Some(Stone::Black)
    } else if col_full_of(g, x, Stone::White) {
        Some(Stone::White)
    } else {
        first_full_col(g, x + 1)
    }
}

/// The winner of `g`: the stone of the first full line met when scanning the
/// rows, then the columns, then the two diagonals; `None` if no line is full.
pub open spec fn winner(g: Grid) -> Option<Stone> {
    if first_full_row(g, 0) is Some {
        first_full_row(g, 0)
    } else if first_full_col(g, 0) is Some {
        first_full_col(g, 0)
    } else if diag_full_of(g, Stone::Black) {
        Some(Stone::Black)
    } else if diag_full_of(g, Stone::White) {
        Some(Stone::White)
    } else if anti_full_of(g, Stone::Black) {
        Some(Stone::Black)
    } else if anti_full_of(g, Stone::White) {
        Some(Stone::White)
    } else {
        None
    }
}

/// `g` is a draw: it is full and has no winner.
pub open spec fn is_draw(g: Grid) -> bool {
    is_full(g) && winner(g) is None
}

/// A row cannot be full of both stones.
proof fn lemma_row_single(g: Grid, y: int)
    requires
        is_grid(g),
        0 <= y < g.len(),
    ensures
        !(row_full_of(g, y, Stone::Black) && row_full_of(g, y, Stone::White)),
{
    if row_full_of(g, y, Stone::Black) {
        assert(g[y][0] == Some(Stone::Black));
    }
}

/// A column cannot be full of both stones.
proof fn lemma_col_single(g: Grid, x: int)
    requires
        is_grid(g),
        0 <= x < g.len(),
    ensures
        !(col_full_of(g, x, Stone::Black) && col_full_of(g, x, Stone::White)),
{
    if col_full_of(g, x, Stone::Black) {
        assert(g[0][x] == Some(Stone::Black));
    }
}

/// The row scan from `y` finds `s` only where some row from `y` on is full of
/// `s`, and finds it where that holds and no row is full of the other stone.
proof fn lemma_first_full_row(g: Grid, y: int, s: Stone)
    requires
        is_grid(g),
        0 <= y,
    ensures
        first_full_row(g, y) == Some(s) ==> exists|j: int| y <= j < g.len() && #[trigger] row_full_of(g, j, s),
        (exists|j: int| y <= j < g.len() && #[trigger] row_full_of(g, j, s))
            && !(exists|j: int| 0 <= j < g.len() && #[trigger] row_full_of(g, j, other(s)))
            ==> first_full_row(g, y) == Some(s),
    decreases g.len() - y,
{
    if y < g.len() {
        lemma_first_full_row(g, y + 1, s);
        lemma_row_single(g, y);
        if (exists|j: int| y <= j < g.len() && #[trigger] row_full_of(g, j, s)) {
            let j = choose|j: int| y <= j < g.len() && #[trigger] row_full_of(g, j, s);
            if j > y {
                assert(y + 1 <= j < g.len() && row_full_of(g, j, s));
            }
        }
    }
}

/// The column scan from `x` finds `s` only where some column from `x` on is
/// full of `s`, and finds it where that holds and no column is full of the
/// other stone.
proof fn lemma_first_full_col(g: Grid, x: int, s: Stone)
    requires
        is_grid(g),
        0 <= x,
    ensures
        first_full_col(g, x) == Some(s) ==> exists|i: int| x <= i < g.len() && #[trigger] col_full_of(g, i, s),
        (exists|i: int| x <= i < g.len() && #[trigger] col_full_of(g, i, s))
            && !(exists|i: int| 0 <= i < g.len() && #[trigger] col_full_of(g, i, other(s)))
            ==> first_full_col(g, x) == Some(s),
    decreases g.len() - x,
{
    if x < g.len() {
        lemma_first_full_col(g, x + 1, s);
        lemma_col_single(g, x);
        if (exists|i: int| x <= i < g.len() && #[trigger] col_full_of(g, i, s)) {
            let i = choose|i: int| x <= i < g.len() && #[trigger] col_full_of(g, i, s);
            if i > x {
                assert(x + 1 <= i < g.len() && col_full_of(g, i, s));
            }
        }
    }
}

/// A winner always has a full line.
pub proof fn lemma_winner_has_line(g: Grid)
    requires
        is_grid(g),
    ensures
        winner(g) matches Some(s) ==> has_line(g, s),
{
    lemma_first_full_row(g, 0, Stone::Black);
    lemma_first_full_row(g, 0, Stone::White);
    lemma_first_full_col(g, 0, Stone::Black);
    lemma_first_full_col(g, 0, Stone::White);
}

/// When some row, column or diagonal is full of `s` and no line is full of
/// the other stone, `s` is the winner.
pub proof fn lemma_line_wins(g: Grid, s: Stone)
    requires
        is_grid(g),
        has_line(g, s),
        !has_line(g, other(s)),
    ensures
        winner(g) == Some(s),
{
    lemma_winner_has_line(g);
    lemma_first_full_row(g, 0, s);
    lemma_first_full_col(g, 0, s);
    lemma_first_full_row(g, 0, other(s));
    lemma_first_full_col(g, 0, other(s));
}

/// When no line is full of either stone, there is no winner.
pub proof fn lemma_no_line_no_winner(g: Grid)
    requires
        is_grid(g),
        !has_line(g, Stone::Black),
        !has_line(g, Stone::White),
    ensures
        winner(g) is None,
{
    lemma_winner_has_line(g);
}

/// Why a board could not be made.
#[derive(Clone, Copy, Debug, PartialEq, Eq, Structural)]
pub enum BoardError {
    /// The requested side length is zero.
    InvalidSize,
}

/// A square grid of cells, each empty or holding a stone.
pub struct Board {
    stones: Vec<Vec<Option<Stone>>>,
}

impl View for Board {
    type V = Grid;

    closed spec fn view(&self) -> Grid {
        self.stones@.map_values(|row: Vec<Option<Stone>>| row@)
    }
}

impl Board {
    /// The board is square with at least one cell, and its side fits a `usize`.
    pub open spec fn wf(&self) -> bool {
        is_grid(self@) && self@.len() <= usize::MAX
    }

    /// The side length.
    pub open spec fn size(&self) -> nat {
        self@.len()
    }

    /// An `n`×`n` board with every cell empty; `InvalidSize` when `n` is zero.
    pub fn new(n: usize) -> (r: Result<Board, BoardError>)
        ensures
            n == 0 <==> r is Err,
            r is Err ==> r->Err_0 == BoardError::InvalidSize,
            r matches Ok(b) ==> b.wf() && b@ == empty_grid(n as nat),
    {
        if n == 0 {
            return Err(BoardError::InvalidSize);
        }
        let mut stones: Vec<Vec<Option<Stone>>> = Vec::new();
        let mut y: usize = 0;
        while y < n
            invariant
                y <= n,
                stones@.len() == y,
                forall|j: int| 0 <= j < y ==> (#[trigger] stones@[j])@ == Seq::new(n as nat, |x: int| None::<Stone>),
            decreases n - y,
        {
            let mut row: Vec<Option<Stone>> = Vec::new();
            let mut x: usize = 0;
            while x < n
                invariant
                    x <= n,
                    row@ == Seq::new(x as nat, |i: int| None::<Stone>),
                decreases n - x,
            {
                row.push(None);
                x = x + 1;
                assert(row@ =~= Seq::new(x as nat, |i: int| None::<Stone>));
            }
            stones.push(row);
            y = y + 1;
        }
        let b = Board { stones };
        assert(b@ =~= empty_grid(n as nat));
        Ok(b)
    }

    /// The rows of the board.
    pub fn stones(&self) -> (r: &Vec<Vec<Option<Stone>>>)
        ensures
            r@.map_values(|row: Vec<Option<Stone>>| row@) == self@,
    {
        &self.stones
    }

    /// Whether the cell at column `x`, row `y` holds no stone.
    pub fn is_empty(&self, x: usize, y: usize) -> (r: bool)
        requires
            self.wf(),
            x < self.size(),
            y < self.size(),
        ensures
            r == (self@[y as int][x as int] is None),
    {
        self.stones[y][x].is_none()
    }

    /// Overwrites the cell at column `x`, row `y` with `stone`.
    pub fn put(&mut self, stone: Option<Stone>, x: usize, y: usize)
        requires
            old(self).wf(),
            x < old(self).size(),
            y < old(self).size(),
        ensures
            final(self)@ == placed(old(self)@, x as int, y as int, stone),
            final(self).wf(),
    {
        assert(self.stones@[y as int]@ == self@[y as int]);
        self.stones[y][x] = stone;
        assert(self@ =~= placed(old(self)@, x as int, y as int, stone));
    }

    /// Whether the cell at column `x`, row `y` holds `s`.
    fn holds(&self, x: usize, y: usize, s: Stone) -> (r: bool)
        requires
            self.wf(),
            x < self.size(),
            y < self.size(),
        ensures
            r == (self@[y as int][x as int] == Some(s)),
    {
        match self.stones[y][x] {
            Some(t) => t == s,
            None => false,
        }
    }

    /// Whether row `y` holds `s` in every cell.
    fn row_filled_with(&self, y: usize, s: Stone) -> (r: bool)
        requires
            self.wf(),
            y < self.size(),
        ensures
            r == row_full_of(self@, y as int, s),
    {
        let n = self.stones.len();
        let mut x: usize = 0;
        while x < n
            invariant
                self.wf(),
                n == self.size(),
                y < n,
                x <= n,
                forall|i: int| 0 <= i < x ==> #[trigger] self@[y as int][i] == Some(s),
            decreases n - x,
        {
            if !self.holds(x, y, s) {
                return false;
            }
            x = x + 1;
        }
        true
    }

    /// Whether column `x` holds `s` in every cell.
    fn col_filled_with(&self, x: usize, s: Stone) -> (r: bool)
        requires
            self.wf(),
            x < self.size(),
        ensures
            r == col_full_of(self@, x as int, s),
    {
        let n = self.stones.len();
        let mut y: usize = 0;
        while y < n
            invariant
                self.wf(),
                n == self.size(),
                x < n,
                y <= n,
                forall|j: int| 0 <= j < y ==> #[trigger] self@[j][x as int] == Some(s),
            decreases n - y,
        {
            if !self.holds(x, y, s) {
                return false;
            }
            y = y + 1;
        }
        true
    }

    /// Whether the diagonal from the top-left corner holds `s` in every cell.
    fn diag_filled_with(&self, s: Stone) -> (r: bool)
        requires
            self.wf(),
        ensures
            r == diag_full_of(self@, s),
    {
        let n = self.stones.len();
        let mut k: usize = 0;
        while k < n
            invariant
                self.wf(),
                n == self.size(),
                k <= n,
                forall|i: int| 0 <= i < k ==> #[trigger] self@[i][i] == Some(s),
            decreases n - k,
        {
            if !self.holds(k, k, s) {
                return false;
            }
            k = k + 1;
        }
        true
    }

    /// Whether the diagonal from the top-right corner holds `s` in every cell.
    fn anti_filled_with(&self, s: Stone) -> (r: bool)
        requires
            self.wf(),
        ensures
            r == anti_full_of(self@, s),
    {
        let n = self.stones.len();
        let mut k: usize = 0;
        while k < n
            invariant
                self.wf(),
                n == self.size(),
                k <= n,
                forall|i: int| 0 <= i < k ==> #[trigger] self@[i][n - 1 - i] == Some(s),
            decreases n - k,
        {
            if !self.holds(n - 1 - k, k, s) {
                return false;
            }
            k = k + 1;
        }
        true
    }

    /// The winner of the board: the stone of the first full line found when
    /// scanning the rows, then the columns, then the two diagonals.
    pub fn check_winner(&self) -> (r: Option<Stone>)
        requires
            self.wf(),
        ensures
            r == winner(self@),
    {
        let n = self.stones.len();
        let ghost g = self@;
        let mut y: usize = 0;
        while y < n
            invariant
                self.wf(),
                g == self@,
                n == self.size(),
                y <= n,
                first_full_row(g, 0) == first_full_row(g, y as int),
            decreases n - y,
        {
            if self.row_filled_with(y, Stone::Black) {
                return Some(Stone::Black);
            } else if self.row_filled_with(y, Stone::White) {
                return Some(Stone::White);
            }
            y = y + 1;
        }
        assert(first_full_row(g, n as int) is None);
        let mut x: usize = 0;
        while x < n
            invariant
                self.wf(),
                g == self@,
                n == self.size(),
                x <= n,
                first_full_row(g, 0) is None,
                first_full_col(g, 0) == first_full_col(g, x as int),
            decreases n - x,
        {
            if self.col_filled_with(x, Stone::Black) {
                return Some(Stone::Black);
            } else if self.col_filled_with(x, Stone::White) {
                return Some(Stone::White);
            }
            x = x + 1;
        }
        assert(first_full_col(g, n as int) is None);
        if self.diag_filled_with(Stone::Black) {
            return Some(Stone::Black);
        } else if self.diag_filled_with(Stone::White) {
            return Some(Stone::White);
        }
        if self.anti_filled_with(Stone::Black) {
            return Some(Stone::Black);
        } else if self.anti_filled_with(Stone::White) {
            return Some(Stone::White);
        }
        None
    }

    /// Whether the board is a draw: every cell holds a stone and there is no winner.
    pub fn check_draw(&self) -> (r: bool)
        requires
            self.wf(),
        ensures
            r == is_draw(self@),
    {
        let n = self.stones.len();
        let mut y: usize = 0;
        while y < n
            invariant
                self.wf(),
                n == self.size(),
                y <= n,
                forall|i: int, j: int| 0 <= i < n && 0 <= j < y ==> (#[trigger] self@[j][i]) is Some,
            decreases n - y,
        {
            let mut x: usize = 0;
            while x < n
                invariant
                    self.wf(),
                    n == self.size(),
                    y < n,
                    x <= n,
                    forall|i: int, j: int| 0 <= i < n && 0 <= j < y ==> (#[trigger] self@[j][i]) is Some,
                    forall|i: int| 0 <= i < x ==> (#[trigger] self@[y as int][i]) is Some,
                decreases n - x,
            {
                if self.is_empty(x, y) {
                    return false;
                }
                x = x + 1;
            }
            y = y + 1;
        }
        self.check_winner().is_none()
    }
}

impl Clone for Board {
    /// A board with the same cells.
    fn clone(&self) -> (r: Board)
        ensures
            r@ == self@,
    {
        let mut stones: Vec<Vec<Option<Stone>>> = Vec::new();
        let mut y: usize = 0;
        while y < self.stones.len()
            invariant
                y <= self.stones@.len(),
                stones@.len() == y,
                forall|j: int| 0 <= j < y ==> (#[trigger] stones@[j])@ == self.stones@[j]@,
            decreases self.stones@.len() - y,
        {
            let src = &self.stones[y];
            let mut row: Vec<Option<Stone>> = Vec::new();
            let mut x: usize = 0;
            while x < src.len()
                invariant
                    x <= src@.len(),
                    row@ == src@.subrange(0, x as int),
                decreases src@.len() - x,
            {
                row.push(src[x]);
                x = x + 1;
                assert(row@ =~= src@.subrange(0, x as int));
            }
            assert(row@ =~= src@);
            stones.push(row);
            y = y + 1;
        }
        let r = Board { stones };
        assert(r@ =~= self@);
        r
    }
}

} // verus!
