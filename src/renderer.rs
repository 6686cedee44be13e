use vstd::prelude::*;

use crate::board::{Board, Grid};
use crate::state::Mode;
use crate::stone::Stone;

verus! {

/// One drawing call made on a renderer, with what it was asked to draw.
pub enum Drawn {
    /// The screen was cleared.
    Clear,
    /// The title screen with this mode highlighted.
    Title(Mode),
    /// These cells of a board.
    Board(Grid),
    /// The cursor at this column and row.
    Cursor(usize, usize),
    /// The announcement that this stone has won.
    Winner(Stone),
    /// The announcement of a draw.
    Drew,
}

/// What draws the stages of a session and reacts to layout events such as a
/// resize of the screen.
pub trait Renderer {
    /// The raw events this renderer reads.
    type Event;

    /// The drawing calls made on this renderer so far, oldest first. The
    /// default stands for impls written outside verified code, which keep no
    /// such record; callers never see its body.
    closed spec fn drawn(&self) -> Seq<Drawn> {
        Seq::empty()
    }

    /// Clears the screen.
    fn clear(&mut self)
        ensures
            final(self).drawn() == old(self).drawn().push(Drawn::Clear),
    ;

    /// Draws the title screen with `current_mode` highlighted.
    fn render_title(&mut self, current_mode: Mode)
        ensures
            final(self).drawn() == old(self).drawn().push(Drawn::Title(current_mode)),
    ;

    /// Draws the cells of `board`.
    fn render_board(&mut self, board: &Board)
        ensures
            final(self).drawn() == old(self).drawn().push(Drawn::Board(board@)),
    ;

    /// Shows the cursor at column `x`, row `y` of the board.
    fn render_cursor(&mut self, x: usize, y: usize)
        ensures
            final(self).drawn() == old(self).drawn().push(Drawn::Cursor(x, y)),
    ;

    /// Announces that `winner` has won.
    fn render_winner(&mut self, winner: Stone)
        ensures
            final(self).drawn() == old(self).drawn().push(Drawn::Winner(winner)),
    ;

    /// Announces a draw.
    fn render_drew(&mut self)
        ensures
            final(self).drawn() == old(self).drawn().push(Drawn::Drew),
    ;

    /// Updates the layout after `event`; draws nothing.
    fn process_event(&mut self, event: &Self::Event)
        ensures
            final(self).drawn() == old(self).drawn(),
    ;
}

} // verus!
