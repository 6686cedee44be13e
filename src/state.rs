use vstd::prelude::*;

use crate::ai::{action, ai_reply, empty_cells, is_free_cell, lemma_empty_cells};
use crate::board::{empty_grid, in_range, is_grid, is_draw, is_full, placed, winner, Board, BoardError, Grid};
use crate::renderer::{Drawn, Renderer};
use crate::stone::{other, Stone};

verus! {

/// Who plays the second stone: the random opponent or a second person.
#[derive(Clone, Copy, Debug, PartialEq, Eq, Structural)]
pub enum Mode {
    VsAi,
    TwoPlayers,
}

impl Mode {
    /// Every mode, in the order a menu lists them.
    pub fn all_modes() -> (r: [Mode; 2])
        ensures
            r@ == seq![Mode::VsAi, Mode::TwoPlayers],
    {
        [Mode::VsAi, Mode::TwoPlayers]
    }
}

/// One key press as the state machine reads it.
#[derive(Clone, Copy, Debug, PartialEq, Eq, Structural)]
pub enum Input {
    /// A character key.
    Char(char),
    /// The Enter key.
    Enter,
    /// Any other key or event.
    Other,
}

/// The three stages of a session, each with its own data.
pub enum State {
    /// The title screen, with the highlighted mode and whether to start.
    Title { n: usize, current_mode: Mode, to_next: bool },
    /// A game in progress on an `n`×`n` board.
    Game { n: usize, mode: Mode, board: Board, cursor_x: usize, cursor_y: usize, turn: Stone },
    /// A finished game: the final board and the winner, `None` for a draw.
    Finish { board: Board, winner: Option<Stone> },
}

/// A state as a mathematical value.
pub enum StateView {
    Title { n: nat, mode: Mode, to_next: bool },
    Game { n: nat, mode: Mode, board: Grid, x: nat, y: nat, turn: Stone },
    Finish { board: Grid, winner: Option<Stone> },
}

impl View for State {
    type V = StateView;

    open spec fn view(&self) -> StateView {
        match self {
            State::Title { n, current_mode, to_next } => StateView::Title {
                n: *n as nat,
                mode: *current_mode,
                to_next: *to_next,
            },
            State::Game { n, mode, board, cursor_x, cursor_y, turn } => StateView::Game {
                n: *n as nat,
                mode: *mode,
                board: board@,
                x: *cursor_x as nat,
                y: *cursor_y as nat,
                turn: *turn,
            },
            State::Finish { board, winner } => StateView::Finish { board: board@, winner: *winner },
        }
    }
}

/// One step towards the near edge `0`, stopping there.
pub open spec fn dec(v: nat) -> nat {
    if v > 0 { (v - 1) as nat } else { v }
}

/// One step towards the far edge `n - 1`, stopping there.
pub open spec fn inc(v: nat, n: nat) -> nat {
    if v + 1 < n { v + 1 } else { v }
}

/// The cursor after key `c` on an `n`×`n` board: `h` `j` `k` `l` move left,
/// down, up and right, `y` `u` `b` `n` move diagonally, and the capitals jump
/// to the matching edge or corner; other keys leave it where it is.
pub open spec fn moved_cursor(n: nat, x: nat, y: nat, c: char) -> (nat, nat) {
    let last = (n - 1) as nat;
    if c == 'B' {
        (0, last)
    } else if c == 'H' {
        (0, y)
    } else if c == 'J' {
        (x, last)
    } else if c == 'K' {
        (x, 0)
    } else if c == 'L' {
        (last, y)
    } else if c == 'N' {
        (last, last)
    } else if c == 'U' {
        (last, 0)
    } else if c == 'Y' {
        (0, 0)
    } else if c == 'b' {
        (dec(x), inc(y, n))
    } else if c == 'h' {
        (dec(x), y)
    } else if c == 'j' {
        (x, inc(y, n))
    } else if c == 'k' {
        (x, dec(y))
    } else if c == 'l' {
        (inc(x, n), y)
    } else if c == 'n' {
        (inc(x, n), inc(y, n))
    } else if c == 'u' {
        (inc(x, n), dec(y))
    } else if c == 'y' {
        (dec(x), dec(y))
    } else {
        (x, y)
    }
}

/// The highlighted mode after `e` on the title screen: `k` picks the random
/// opponent, `j` a second person.
pub open spec fn title_mode(m: Mode, e: Input) -> Mode {
    if e == Input::Char('k') {
        Mode::VsAi
    } else if e == Input::Char('j') {
        Mode::TwoPlayers
    } else {
        m
    }
}

/// `e` places a stone: it is the space key and the cursor's cell is empty.
pub open spec fn places(v: StateView, e: Input) -> bool {
    &&& v matches StateView::Game { board, x, y, .. }
    &&& e == Input::Char(' ')
    &&& board[y as int][x as int] is None
}

/// After `e` the random opponent replies: a stone is placed while Black is to
/// move against the random opponent.
pub open spec fn ai_moves(v: StateView, e: Input) -> bool {
    &&& places(v, e)
    &&& v matches StateView::Game { mode, turn, .. }
    &&& mode == Mode::VsAi
    &&& turn == Stone::Black
}

/// The state after `e`, before any reply of the random opponent.
pub open spec fn step(v: StateView, e: Input) -> StateView {
    match v {
        StateView::Title { n, mode, to_next } => StateView::Title {
            n,
            mode: title_mode(mode, e),
            to_next: to_next || e == Input::Enter,
        },
        StateView::Game { n, mode, board, x, y, turn } => {
            if places(v, e) {
                StateView::Game {
                    n,
                    mode,
                    board: placed(board, x as int, y as int, Some(turn)),
                    x,
                    y,
                    turn: if ai_moves(v, e) { Stone::Black } else { other(turn) },
                }
            } else {
                let c = match e {
                    Input::Char(k) => moved_cursor(n, x, y, k),
                    _ => (x, y),
                };
                StateView::Game { n, mode, board, x: c.0, y: c.1, turn }
            }
        },
        StateView::Finish { .. } => v,
    }
}

/// The board of a game or of a finished game.
pub open spec fn board_of(v: StateView) -> Grid {
    match v {
        StateView::Game { board, .. } => board,
        StateView::Finish { board, .. } => board,
        StateView::Title { .. } => Seq::empty(),
    }
}

/// The game `v` with its board replaced by `b`.
pub open spec fn with_board(v: StateView, b: Grid) -> StateView {
    match v {
        StateView::Game { n, mode, x, y, turn, .. } => StateView::Game { n, mode, board: b, x, y, turn },
        _ => v,
    }
}

/// `post` is what `e` makes of `pre`: the state `step` gives, where the random
/// opponent has then placed White on one of the cells left empty.
pub open spec fn responds(pre: StateView, e: Input, post: StateView) -> bool {
    if ai_moves(pre, e) {
        &&& post == with_board(step(pre, e), board_of(post))
        &&& ai_reply(board_of(step(pre, e)), board_of(post), Stone::White)
    } else {
        post == step(pre, e)
    }
}

/// The state that follows `v`, if any: a started title screen becomes a new
/// game on an empty board, and a game with a winner or a full board becomes a
/// finished game.
pub open spec fn next_view(v: StateView) -> Option<StateView> {
    match v {
        StateView::Title { n, mode, to_next } => {
            if to_next {
                Some(StateView::Game { n, mode, board: empty_grid(n), x: 0, y: 0, turn: Stone::Black })
            } else {
                None
            }
        },
        StateView::Game { board, .. } => {
            if winner(board) is Some {
                Some(StateView::Finish { board, winner: winner(board) })
            } else if is_full(board) {
                Some(StateView::Finish { board, winner: None })
            } else {
                None
            }
        },
        StateView::Finish { .. } => None,
    }
}

/// The cursor after each key of `keys` in turn.
pub open spec fn cursor_after_keys(n: nat, x: nat, y: nat, keys: Seq<char>) -> (nat, nat)
    decreases keys.len(),
{
    if keys.len() == 0 {
        (x, y)
    } else {
        let c = moved_cursor(n, x, y, keys[0]);
        cursor_after_keys(n, c.0, c.1, keys.drop_first())
    }
}

/// Whatever keys are pressed, a cursor that starts on the board stays on it.
pub proof fn lemma_cursor_stays_on_board(n: nat, x: nat, y: nat, keys: Seq<char>)
    requires
        1 <= n,
        x < n,
        y < n,
    ensures
        cursor_after_keys(n, x, y, keys).0 < n,
        cursor_after_keys(n, x, y, keys).1 < n,
    decreases keys.len(),
{
    if keys.len() > 0 {
        let c = moved_cursor(n, x, y, keys[0]);
        lemma_cursor_stays_on_board(n, c.0, c.1, keys.drop_first());
    }
}

/// Pressing the placement key while the cursor is on an occupied cell leaves
/// the board and the player to move as they were.
pub proof fn lemma_occupied_cell_keeps_state(pre: StateView, post: StateView)
    requires
        pre is Game,
        pre->Game_board[pre->y as int][pre->x as int] is Some,
        responds(pre, Input::Char(' '), post),
    ensures
        post is Game,
        post->Game_board == pre->Game_board,
        post->turn == pre->turn,
{
}

/// Against the random opponent, a Black stone that neither wins nor ends in a
/// draw is followed within the same key press by a White stone on a cell that
/// was empty after Black's move, and Black is to move again.
pub proof fn lemma_ai_replies(pre: StateView, post: StateView)
    requires
        pre is Game,
        is_grid(pre->Game_board),
        pre->Game_board.len() <= usize::MAX,
        in_range(pre->Game_board, pre->x as int, pre->y as int),
        pre->Game_mode == Mode::VsAi,
        pre->turn == Stone::Black,
        pre->Game_board[pre->y as int][pre->x as int] is None,
        responds(pre, Input::Char(' '), post),
        winner(placed(pre->Game_board, pre->x as int, pre->y as int, Some(Stone::Black))) is None,
        !is_draw(placed(pre->Game_board, pre->x as int, pre->y as int, Some(Stone::Black))),
    ensures
        post is Game,
        post->turn == Stone::Black,
        ({
            let h = placed(pre->Game_board, pre->x as int, pre->y as int, Some(Stone::Black));
            &&& exists|k: int|
                0 <= k < empty_cells(h).len() && post->Game_board == placed(
                    h,
                    (#[trigger] empty_cells(h)[k]).0 as int,
                    empty_cells(h)[k].1 as int,
                    Some(Stone::White),
                )
            &&& exists|i: int, j: int|
                in_range(h, i, j) && h[j][i] is None && post->Game_board == placed(h, i, j, Some(Stone::White))
        }),
{
    let g = pre->Game_board;
    let h = placed(g, pre->x as int, pre->y as int, Some(Stone::Black));
    assert forall|j: int| 0 <= j < h.len() implies (#[trigger] h[j]).len() == h.len() by {
        assert(g[j].len() == g.len());
    }
    lemma_empty_cells(h);
    let k = choose|k: int|
        0 <= k < empty_cells(h).len() && post->Game_board == placed(
            h,
            (#[trigger] empty_cells(h)[k]).0 as int,
            empty_cells(h)[k].1 as int,
            Some(Stone::White),
        );
    let c = empty_cells(h)[k];
    assert(is_free_cell(h, c));
    assert(in_range(h, c.0 as int, c.1 as int) && h[c.1 as int][c.0 as int] is None);
}

/// The drawing calls that show `v`: a cleared screen, then the title with
/// its highlighted mode, or the board and the cursor, or the board and the
/// announcement of the winner or of a draw.
pub open spec fn drawn_for(v: StateView) -> Seq<Drawn> {
    match v {
        StateView::Title { mode, .. } => seq![Drawn::Clear, Drawn::Title(mode)],
        StateView::Game { board, x, y, .. } => seq![
            Drawn::Clear,
            Drawn::Board(board),
            Drawn::Cursor(x as usize, y as usize),
        ],
        StateView::Finish { board, winner } => match winner {
            Some(w) => seq![Drawn::Clear, Drawn::Board(board), Drawn::Winner(w)],
            None => seq![Drawn::Clear, Drawn::Board(board), Drawn::Drew],
        },
    }
}

/// The cursor after key `c`, clamped to the board.
fn cursor_after(n: usize, x: usize, y: usize, c: char) -> (r: (usize, usize))
    requires
        1 <= n,
        x < n,
        y < n,
    ensures
        (r.0 as nat, r.1 as nat) == moved_cursor(n as nat, x as nat, y as nat, c),
{
    let last = n - 1;
    let left = if x > 0 { x - 1 } else { x };
    let right = if x < last { x + 1 } else { x };
    let up = if y > 0 { y - 1 } else { y };
    let down = if y < last { y + 1 } else { y };
    match c {
        'B' => (0, last),
        'H' => (0, y),
        'J' => (x, last),
        'K' => (x, 0),
        'L' => (last, y),
        'N' => (last, last),
        'U' => (last, 0),
        'Y' => (0, 0),
        'b' => (left, down),
        'h' => (left, y),
        'j' => (x, down),
        'k' => (x, up),
        'l' => (right, y),
        'n' => (right, down),
        'u' => (right, up),
        'y' => (left, up),
        _ => (x, y),
    }
}

impl State {
    /// The data of each stage is consistent: the side length is positive, and
    /// in a game the board has that side and the cursor lies on it.
    pub open spec fn wf(&self) -> bool {
        match self {
            State::Title { n, .. } => *n >= 1,
            State::Game { n, board, cursor_x, cursor_y, .. } => {
                &&& board.wf()
                &&& board@.len() == *n
                &&& *cursor_x < *n
                &&& *cursor_y < *n
            },
            State::Finish { board, .. } => board.wf(),
        }
    }

    /// The title screen for games on an `n`×`n` board, with the random
    /// opponent highlighted; `InvalidSize` when `n` is zero.
    pub fn new(n: usize) -> (r: Result<State, BoardError>)
        ensures
            n == 0 <==> r is Err,
            r is Err ==> r->Err_0 == BoardError::InvalidSize,
            r matches Ok(s) ==> s.wf() && s@ == (StateView::Title { n: n as nat, mode: Mode::VsAi, to_next: false }),
    {
        if n == 0 {
            return Err(BoardError::InvalidSize);
        }
        Ok(State::Title { n, current_mode: Mode::VsAi, to_next: false })
    }

    /// Applies one key press.
    pub fn process_event(&mut self, event: &Input)
        requires
            old(self).wf(),
        ensures
            final(self).wf(),
            responds(old(self)@, *event, final(self)@),
    {
        match self {
            State::Title { current_mode, to_next, .. } => {
                match event {
                    Input::Char('k') => {
                        *current_mode = Mode::VsAi;
                    },
                    Input::Char('j') => {
                        *current_mode = Mode::TwoPlayers;
                    },
                    Input::Enter => {
                        *to_next = true;
                    },
                    _ => {},
                }
            },
            State::Game { n, mode, board, cursor_x, cursor_y, turn } => {
                if *event == Input::Char(' ') && board.is_empty(*cursor_x, *cursor_y) {
                    board.put(Some(*turn), *cursor_x, *cursor_y);
                    *turn = match *turn {
                        Stone::Black => Stone::White,
                        Stone::White => Stone::Black,
                    };
                    if *mode == Mode::VsAi && *turn == Stone::White {
                        action(board, *turn);
                        *turn = match *turn {
                            Stone::Black => Stone::White,
                            Stone::White => Stone::Black,
                        };
                    }
                } else if let Input::Char(c) = event {
                    let (x, y) = cursor_after(*n, *cursor_x, *cursor_y, *c);
                    *cursor_x = x;
                    *cursor_y = y;
                }
            },
            State::Finish { .. } => {},
        }
    }

    /// The stage that follows this one, if it is over: a started title screen
    /// gives a new game, a won or drawn game gives its finish.
    pub fn next_state(&self) -> (r: Option<State>)
        requires
            self.wf(),
        ensures
            r is Some <==> next_view(self@) is Some,
            r matches Some(s) ==> s.wf() && s@ == next_view(self@)->Some_0,
    {
        match self {
            State::Title { n, current_mode, to_next } => {
                if *to_next {
                    match Board::new(*n) {
                        Ok(board) => Some(
                            State::Game {
                                n: *n,
                                mode: *current_mode,
                                board,
                                cursor_x: 0,
                                cursor_y: 0,
                                turn: Stone::Black,
                            },
                        ),
                        Err(_) => None,
                    }
                } else {
                    None
                }
            },
            State::Game { board, .. } => {
                match board.check_winner() {
                    Some(w) => Some(State::Finish { board: board.clone(), winner: Some(w) }),
                    None => {
                        if board.check_draw() {
                            Some(State::Finish { board: board.clone(), winner: None })
                        } else {
                            None
                        }
                    },
                }
            },
            State::Finish { .. } => None,
        }
    }

    /// Draws this stage through `renderer`.
    pub fn render<R: Renderer>(&self, renderer: &mut R)
        ensures
            final(renderer).drawn() == old(renderer).drawn() + drawn_for(self@),
    {
        renderer.clear();
        match self {
            State::Title { current_mode, .. } => {
                renderer.render_title(*current_mode);
            },
            State::Game { board, cursor_x, cursor_y, .. } => {
                renderer.render_board(board);
                renderer.render_cursor(*cursor_x, *cursor_y);
            },
            State::Finish { board, winner } => {
                renderer.render_board(board);
                match winner {
                    Some(w) => renderer.render_winner(*w),
                    None => renderer.render_drew(),
                }
            },
        }
    }
}

} // verus!
