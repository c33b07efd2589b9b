//! Board state and win/draw detection for two-player tic-tac-toe.
//!
//! The library owns the full game state — a 3x3 grid of cell marks, a move
//! counter and a finished flag — and exposes the three operations a hosting
//! front end needs: placing a mark, evaluating the position for a winner or
//! a draw, and resetting to the initial state. Rendering and input belong to
//! the host; it hands in cell coordinates and takes back plain outcomes.

use vstd::prelude::*;

verus! {

/// The occupant of one board cell: empty, or one of the two players' marks.
#[derive(Clone, Copy, Debug, PartialEq, Eq, Structural)]
pub enum Mark {
    Empty,
    PlayerA,
    PlayerB,
}

/// The result of evaluating a board position.
#[derive(Clone, Copy, Debug, PartialEq, Eq, Structural)]
pub enum Outcome {
    InProgress,
    Won(Mark),
    Draw,
}

/// A rejected placement: the target cell was occupied, or the game was
/// already finished. The board is left unchanged; nothing fatal happened.
#[derive(Clone, Copy, Debug, PartialEq, Eq, Structural)]
pub struct IllegalMove;

/// Flat index of cell (x, y); the grid stores cell (x, y) at 3x + y.
pub open spec fn idx(x: int, y: int) -> int {
    3 * x + y
}

/// The mark entitled to the next move once `moves` marks have been placed:
/// PlayerA opens, and the players alternate.
pub open spec fn mark_to_move(moves: int) -> Mark {
    if moves % 2 == 0 {
        Mark::PlayerA
    } else {
        Mark::PlayerB
    }
}

/// How many cells of `g` hold a player's mark.
pub open spec fn marks_placed(g: Seq<Mark>) -> nat
    decreases g.len(),
{
    if g.len() == 0 {
        0
    } else {
        marks_placed(g.drop_last()) + if g.last() is Empty {
            0nat
        } else {
            1nat
        }
    }
}

/// A grid never holds more marks than cells.
pub proof fn lemma_marks_at_most_len(g: Seq<Mark>)
    ensures
        marks_placed(g) <= g.len(),
    decreases g.len(),
{
    if g.len() > 0 {
        lemma_marks_at_most_len(g.drop_last());
    }
}

/// A grid with an empty cell holds strictly fewer marks than cells.
pub proof fn lemma_marks_below_len(g: Seq<Mark>, i: int)
    requires
        0 <= i < g.len(),
        g[i] is Empty,
    ensures
        marks_placed(g) < g.len(),
    decreases g.len(),
{
    if i == g.len() - 1 {
        lemma_marks_at_most_len(g.drop_last());
    } else {
        lemma_marks_below_len(g.drop_last(), i);
    }
}

/// Placing a mark on an empty cell raises the mark count by exactly one.
pub proof fn lemma_marks_after_update(g: Seq<Mark>, i: int, m: Mark)
    requires
        0 <= i < g.len(),
        g[i] is Empty,
        m !is Empty,
    ensures
        marks_placed(g.update(i, m)) == marks_placed(g) + 1,
    decreases g.len(),
{
    if i == g.len() - 1 {
        assert(g.update(i, m).drop_last() =~= g.drop_last());
    } else {
        assert(g.update(i, m).drop_last() =~= g.drop_last().update(i, m));
        lemma_marks_after_update(g.drop_last(), i, m);
    }
}

/// The mark count reaches the grid's length exactly when every cell is
/// occupied.
pub proof fn lemma_marks_full(g: Seq<Mark>)
    ensures
        marks_placed(g) == g.len() <==> (forall|i: int| 0 <= i < g.len() ==> g[i] !is Empty),
    decreases g.len(),
{
    if g.len() > 0 {
        lemma_marks_full(g.drop_last());
        lemma_marks_at_most_len(g.drop_last());
        assert(forall|i: int| 0 <= i < g.len() - 1 ==> g[i] == g.drop_last()[i]);
    }
}

/// A grid of empty cells holds no marks.
pub proof fn lemma_marks_all_empty(g: Seq<Mark>)
    requires
        forall|i: int| 0 <= i < g.len() ==> g[i] is Empty,
    ensures
        marks_placed(g) == 0,
    decreases g.len(),
{
    if g.len() > 0 {
        lemma_marks_all_empty(g.drop_last());
    }
}

/// The starting grid: nine empty cells.
pub open spec fn empty_grid() -> Seq<Mark> {
    Seq::new(9, |i: int| Mark::Empty)
}

/// The cells at flat indices `a`, `b`, `c` hold the same player's mark.
pub open spec fn line_wins(g: Seq<Mark>, a: int, b: int, c: int) -> bool {
    g[a] !is Empty && g[a] == g[b] && g[b] == g[c]
}

/// Some row, column or diagonal of `g` is completed.
pub open spec fn some_line_wins(g: Seq<Mark>) -> bool {
    ||| line_wins(g, idx(0, 0), idx(0, 1), idx(0, 2))
    ||| line_wins(g, idx(1, 0), idx(1, 1), idx(1, 2))
    ||| line_wins(g, idx(2, 0), idx(2, 1), idx(2, 2))
    ||| line_wins(g, idx(0, 0), idx(1, 0), idx(2, 0))
    ||| line_wins(g, idx(0, 1), idx(1, 1), idx(2, 1))
    ||| line_wins(g, idx(0, 2), idx(1, 2), idx(2, 2))
    ||| line_wins(g, idx(0, 0), idx(1, 1), idx(2, 2))
    ||| line_wins(g, idx(0, 2), idx(1, 1), idx(2, 0))
}

/// `m` is a player's mark and owns a completed line of `g`.
pub open spec fn mark_owns_line(g: Seq<Mark>, m: Mark) -> bool {
    &&& m !is Empty
    &&& {
        ||| (line_wins(g, idx(0, 0), idx(0, 1), idx(0, 2)) && g[idx(0, 0)] == m)
        ||| (line_wins(g, idx(1, 0), idx(1, 1), idx(1, 2)) && g[idx(1, 0)] == m)
        ||| (line_wins(g, idx(2, 0), idx(2, 1), idx(2, 2)) && g[idx(2, 0)] == m)
        ||| (line_wins(g, idx(0, 0), idx(1, 0), idx(2, 0)) && g[idx(0, 0)] == m)
        ||| (line_wins(g, idx(0, 1), idx(1, 1), idx(2, 1)) && g[idx(0, 1)] == m)
        ||| (line_wins(g, idx(0, 2), idx(1, 2), idx(2, 2)) && g[idx(0, 2)] == m)
        ||| (line_wins(g, idx(0, 0), idx(1, 1), idx(2, 2)) && g[idx(1, 1)] == m)
        ||| (line_wins(g, idx(0, 2), idx(1, 1), idx(2, 0)) && g[idx(1, 1)] == m)
    }
}

/// The winning mark reported for `g`, or Empty when no line is completed.
/// Rows and columns are examined alternately, then the two diagonals, and
/// the first completed line found decides; in a position reached by legal
/// alternating play at most one player can own a line, so the scan order
/// only settles which of one player's several lines is credited.
pub open spec fn winner_of(g: Seq<Mark>) -> Mark {
    if line_wins(g, idx(0, 0), idx(0, 1), idx(0, 2)) {
        g[idx(0, 0)]
    } else if line_wins(g, idx(0, 0), idx(1, 0), idx(2, 0)) {
        g[idx(0, 0)]
    } else if line_wins(g, idx(1, 0), idx(1, 1), idx(1, 2)) {
        g[idx(1, 0)]
    } else if line_wins(g, idx(0, 1), idx(1, 1), idx(2, 1)) {
        g[idx(0, 1)]
    } else if line_wins(g, idx(2, 0), idx(2, 1), idx(2, 2)) {
        g[idx(2, 0)]
    } else if line_wins(g, idx(0, 2), idx(1, 2), idx(2, 2)) {
        g[idx(0, 2)]
    } else if line_wins(g, idx(0, 0), idx(1, 1), idx(2, 2)) {
        g[idx(1, 1)]
    } else if line_wins(g, idx(0, 2), idx(1, 1), idx(2, 0)) {
        g[idx(1, 1)]
    } else {
        Mark::Empty
    }
}

/// Every cell of `g` is occupied.
pub open spec fn is_full(g: Seq<Mark>) -> bool {
    forall|i: int| 0 <= i < g.len() ==> g[i] !is Empty
}

/// The outcome of a position: a completed line decides the game; with no
/// completed line a full board is a draw and anything else is still open.
pub open spec fn outcome_of(g: Seq<Mark>) -> Outcome {
    if winner_of(g) !is Empty {
        Outcome::Won(winner_of(g))
    } else if is_full(g) {
        Outcome::Draw
    } else {
        Outcome::InProgress
    }
}

/// A winner is reported exactly when some line is completed, and the
/// reported mark itself owns a completed line.
pub proof fn lemma_winner_characterization(g: Seq<Mark>)
    requires
        g.len() == 9,
    ensures
        winner_of(g) !is Empty <==> some_line_wins(g),
        winner_of(g) !is Empty ==> mark_owns_line(g, winner_of(g)),
{
}

/// The full game state: the grid, the move counter and the finished flag.
///
/// The host creates one board at game start, routes "cell selected"
/// gestures to [`Board::place_mark`], asks [`Board::check_board`] (or the
/// pure [`Board::evaluate`]) for the outcome each tick, and routes a
/// "restart" gesture to [`Board::reset`].
pub struct Board {
    cells: Vec<Mark>,
    moves: usize,
    finished: bool,
}

impl Board {
    /// The grid as a flat sequence of nine marks; cell (x, y) sits at
    /// index 3x + y.
    pub closed spec fn grid(self) -> Seq<Mark> {
        self.cells@
    }

    /// The mark in cell (x, y).
    pub open spec fn cell_at(self, x: int, y: int) -> Mark {
        self.grid()[idx(x, y)]
    }

    /// How many placements have been accepted since the last reset.
    pub closed spec fn moves_made(self) -> int {
        self.moves as int
    }

    /// Whether the game has been recorded as finished.
    pub closed spec fn is_over(self) -> bool {
        self.finished
    }

    /// Well-formedness: the grid has exactly nine cells and the move
    /// counter equals the number of occupied cells (so it never exceeds 9).
    pub closed spec fn wf(self) -> bool {
        &&& self.grid().len() == 9
        &&& self.moves == marks_placed(self.grid())
    }

    /// A fresh board: all cells empty, no moves made, not finished.
    pub fn new() -> (b: Board)
        ensures
            b.wf(),
            b.grid() == empty_grid(),
            b.moves_made() == 0,
            !b.is_over(),
    {
        let b = Board { cells: empty_cells(), moves: 0, finished: false };
        proof {
            lemma_marks_all_empty(b.cells@);
        }
        b
    }

    /// Places the active player's mark in cell (x, y).
    ///
    /// The move is accepted exactly when the game is not finished and the
    /// cell is empty; the placed mark (PlayerA on even prior counts,
    /// PlayerB on odd) and the new move count are returned so the host can
    /// update its presentation. A rejected move leaves the board untouched
    /// and only signals [`IllegalMove`].
    pub fn place_mark(&mut self, x: usize, y: usize) -> (r: Result<(Mark, usize), IllegalMove>)
        requires
            old(self).wf(),
            x < 3,
            y < 3,
        ensures
            final(self).wf(),
            final(self).is_over() == old(self).is_over(),
            r is Ok <==> !old(self).is_over() && old(self).cell_at(x as int, y as int) is Empty,
            r is Err ==> *final(self) == *old(self),
            r matches Ok((m, n)) ==> {
                &&& m == mark_to_move(old(self).moves_made())
                &&& n == old(self).moves_made() + 1
                &&& final(self).grid() == old(self).grid().update(idx(x as int, y as int), m)
                &&& final(self).moves_made() == old(self).moves_made() + 1
            },
    {
        let i: usize = 3 * x + y;
        if self.finished || self.cells[i] != Mark::Empty {
            return Err(IllegalMove);
        }
        let m: Mark = if self.moves % 2 == 0 {
            Mark::PlayerA
        } else {
            Mark::PlayerB
        };
        proof {
            lemma_marks_below_len(self.cells@, i as int);
            lemma_marks_after_update(self.cells@, i as int, m);
        }
        self.cells[i] = m;
        self.moves = self.moves + 1;
        Ok((m, self.moves))
    }

    /// The winning mark of the current grid, or Empty when no row, column
    /// or diagonal is completed.
    pub fn winner(&self) -> (w: Mark)
        requires
            self.wf(),
        ensures
            w == winner_of(self.grid()),
    {
        let g = &self.cells;
        if g[0] != Mark::Empty && g[0] == g[1] && g[1] == g[2] {
            g[0]
        } else if g[0] != Mark::Empty && g[0] == g[3] && g[3] == g[6] {
            g[0]
        } else if g[3] != Mark::Empty && g[3] == g[4] && g[4] == g[5] {
            g[3]
        } else if g[1] != Mark::Empty && g[1] == g[4] && g[4] == g[7] {
            g[1]
        } else if g[6] != Mark::Empty && g[6] == g[7] && g[7] == g[8] {
            g[6]
        } else if g[2] != Mark::Empty && g[2] == g[5] && g[5] == g[8] {
            g[2]
        } else if g[0] != Mark::Empty && g[0] == g[4] && g[4] == g[8] {
            g[4]
        } else if g[2] != Mark::Empty && g[2] == g[4] && g[4] == g[6] {
            g[4]
        } else {
            Mark::Empty
        }
    }

    /// Evaluates the position: a completed line wins, a full board with no
    /// completed line is a draw, anything else is still in progress. Pure:
    /// the board is not changed, and the outcome depends on the grid alone.
    pub fn evaluate(&self) -> (r: Outcome)
        requires
            self.wf(),
        ensures
            r == outcome_of(self.grid()),
    {
        let w = self.winner();
        proof {
            lemma_marks_full(self.grid());
        }
        if w != Mark::Empty {
            Outcome::Won(w)
        } else if self.moves == 9 {
            Outcome::Draw
        } else {
            Outcome::InProgress
        }
    }

    /// Evaluates the position and records a decided game: on a won or
    /// drawn outcome the finished flag is set, so that later placements
    /// are rejected until [`Board::reset`]. The grid and the counter are
    /// never changed, and a finished game never reopens.
    pub fn check_board(&mut self) -> (r: Outcome)
        requires
            old(self).wf(),
        ensures
            final(self).wf(),
            r == outcome_of(old(self).grid()),
            final(self).grid() == old(self).grid(),
            final(self).moves_made() == old(self).moves_made(),
            final(self).is_over() == (old(self).is_over() || !(r is InProgress)),
    {
        let r = self.evaluate();
        match r {
            Outcome::InProgress => {},
            _ => {
                self.finished = true;
            },
        }
        r
    }

    /// Restores the starting state whatever came before: all cells empty,
    /// counter zero, finished flag cleared.
    pub fn reset(&mut self)
        ensures
            final(self).wf(),
            final(self).grid() == empty_grid(),
            final(self).moves_made() == 0,
            !final(self).is_over(),
    {
        self.cells = empty_cells();
        self.moves = 0;
        self.finished = false;
        proof {
            lemma_marks_all_empty(self.cells@);
        }
    }
}

impl Board {
    /// The mark currently in cell (x, y).
    pub fn cell(&self, x: usize, y: usize) -> (m: Mark)
        requires
            self.wf(),
            x < 3,
            y < 3,
        ensures
            m == self.cell_at(x as int, y as int),
    {
        self.cells[3 * x + y]
    }

    /// How many placements have been accepted since the last reset.
    pub fn move_count(&self) -> (n: usize)
        ensures
            n == self.moves_made(),
    {
        self.moves
    }

    /// Whether the game has been recorded as finished.
    pub fn is_finished(&self) -> (f: bool)
        ensures
            f == self.is_over(),
    {
        self.finished
    }

    /// The mark entitled to the next move, for the host's status line.
    pub fn active_mark(&self) -> (m: Mark)
        ensures
            m == mark_to_move(self.moves_made()),
    {
        if self.moves % 2 == 0 {
            Mark::PlayerA
        } else {
            Mark::PlayerB
        }
    }
}

impl Default for Board {
    /// The starting state, as [`Board::new`] builds it.
    fn default() -> (b: Board)
        ensures
            b.wf(),
            b.grid() == empty_grid(),
            b.moves_made() == 0,
            !b.is_over(),
    {
        Board::new()
    }
}

/// In every well-formed board the move counter equals the number of
/// occupied cells: each accepted placement raises both by exactly one,
/// and rejected placements change neither.
pub proof fn lemma_counter_counts_marks(b: Board)
    requires
        b.wf(),
    ensures
        b.moves_made() == marks_placed(b.grid()),
{
}

/// The move counter of a well-formed board never exceeds nine.
pub proof fn lemma_counter_at_most_nine(b: Board)
    requires
        b.wf(),
    ensures
        0 <= b.moves_made() <= 9,
{
    lemma_marks_at_most_len(b.grid());
}

/// Evaluation depends on the grid alone: two boards with identical grids
/// evaluate to identical outcomes, however they were reached.
pub proof fn lemma_evaluation_depends_on_grid(a: Board, b: Board)
    requires
        a.grid() == b.grid(),
    ensures
        outcome_of(a.grid()) == outcome_of(b.grid()),
{
}

/// Turn alternation: the mark accepted as move k (counting from one) is
/// PlayerA exactly when k is odd, PlayerB exactly when k is even.
pub proof fn lemma_turn_alternation(k: int)
    requires
        1 <= k,
    ensures
        k % 2 == 1 ==> mark_to_move(k - 1) == Mark::PlayerA,
        k % 2 == 0 ==> mark_to_move(k - 1) == Mark::PlayerB,
{
}

/// Builds the nine-cell empty grid.
fn empty_cells() -> (v: Vec<Mark>)
    ensures
        v@ == empty_grid(),
{
    let mut v: Vec<Mark> = Vec::new();
    let mut i: usize = 0;
    while i < 9
        invariant
            i <= 9,
            v@.len() == i,
            forall|j: int| 0 <= j < i ==> v@[j] is Empty,
        decreases 9 - i,
    {
        v.push(Mark::Empty);
        i = i + 1;
    }
    proof {
        assert(v@ =~= empty_grid());
    }
    v
}

} // verus!
