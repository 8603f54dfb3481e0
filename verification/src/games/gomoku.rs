//! Five in a row: players take turns to occupy a cell of a board, and the
//! first to hold five cells in a row, a column or a diagonal wins.

use crate::gametraits::{
    turn_player, user_views, GameTrait, MoveOutcome, PlayerMoveResult, PlayerTurn, TurnToken, User,
    UserView,
};
use crate::turn_tracker::{TurnTracker, TurnTrackerView};
use itertools::Itertools;
use vstd::prelude::*;

verus! {

/// A move: the cell to occupy, counted from the top left.
#[derive(Debug)]
pub struct PlayerMove {
    pub x: usize,
    pub y: usize,
}

/// What a `Cell` is in contracts.
pub enum CellView {
    Empty,
    Occupied(UserView),
}

/// One cell of the board.
#[derive(Debug)]
pub enum Cell {
    Empty,
    Occupied(User),
}

impl View for Cell {
    type V = CellView;

    open spec fn view(&self) -> CellView {
        match self {
            Cell::Empty => CellView::Empty,
            Cell::Occupied(user) => CellView::Occupied(user@),
        }
    }
}

impl Clone for Cell {
    fn clone(&self) -> (copy: Self)
        ensures
            copy == *self,
    {
        match self {
            Cell::Empty => Cell::Empty,
            Cell::Occupied(user) => Cell::Occupied(user.clone()),
        }
    }
}

impl PartialEq for Cell {
    fn eq(&self, other: &Self) -> (same: bool) {
        match (self, other) {
            (Cell::Empty, Cell::Empty) => true,
            (Cell::Occupied(a), Cell::Occupied(b)) => a == b,
            _ => false,
        }
    }
}

impl Eq for Cell {}

impl vstd::std_specs::cmp::PartialEqSpecImpl for Cell {
    open spec fn obeys_eq_spec() -> bool {
        true
    }

    open spec fn eq_spec(&self, other: &Self) -> bool {
        self@ == other@
    }
}

/// The two ends of a winning line, each as column and row.
pub type FirstAndLast = ((i32, i32), (i32, i32));

/// The views of a sequence of cells, in the same order.
pub open spec fn cell_views(cells: Seq<Cell>) -> Seq<CellView> {
    cells.map_values(|c: Cell| c@)
}

/// What a `Board` is in contracts: the cells row by row, and the
/// two dimensions.
pub struct BoardView {
    pub cells: Seq<CellView>,
    pub width: nat,
    pub height: nat,
}

impl BoardView {
    /// The board of `width` columns and `height` rows with every cell
    /// empty.
    pub open spec fn empty(width: nat, height: nat) -> BoardView {
        BoardView { cells: Seq::new(width * height, |i: int| CellView::Empty), width, height }
    }

    /// There is one cell for every place, and every place on the board
    /// and four steps around it can be named by an `i32`.
    pub open spec fn wf(self) -> bool {
        &&& self.cells.len() == self.width * self.height
        &&& self.width <= i32::MAX - 4
        &&& self.height <= i32::MAX - 4
    }

    /// Whether column `x`, row `y` is on the board.
    pub open spec fn on_board(self, x: int, y: int) -> bool {
        0 <= x < self.width && 0 <= y < self.height
    }

    /// The cell in column `x`, row `y`; `None` off the board.
    pub open spec fn at(self, x: int, y: int) -> Option<CellView> {
        if self.on_board(x, y) {
            Some(self.cells[y * self.width + x])
        } else {
            None
        }
    }

    /// Whether the place `k` steps of (`dx`, `dy`) away from (`x`, `y`)
    /// holds what (`x`, `y`) holds.
    pub open spec fn alike(self, x: int, y: int, dx: int, dy: int, k: int) -> bool {
        self.at(x + k * dx, y + k * dy) == self.at(x, y)
    }

    /// How many places in a row, going from (`x`, `y`) by steps of (`dx`,
    /// `dy`), hold what (`x`, `y`) holds: at most four are counted.
    pub open spec fn reach(self, x: int, y: int, dx: int, dy: int) -> int {
        if !self.alike(x, y, dx, dy, 1) {
            0
        } else if !self.alike(x, y, dx, dy, 2) {
            1
        } else if !self.alike(x, y, dx, dy, 3) {
            2
        } else if !self.alike(x, y, dx, dy, 4) {
            3
        } else {
            4
        }
    }

    /// The ends of the unbroken line through (`x`, `y`) in the direction
    /// (`dx`, `dy`) and its opposite, if the line is five places long or
    /// longer. It is followed for four steps each way.
    pub open spec fn line_through(self, x: int, y: int, dx: int, dy: int) -> Option<
        ((int, int), (int, int)),
    > {
        let back = self.reach(x, y, -dx, -dy);
        let ahead = self.reach(x, y, dx, dy);
        if back + 1 + ahead >= 5 {
            Some(((x - back * dx, y - back * dy), (x + ahead * dx, y + ahead * dy)))
        } else {
            None
        }
    }

    /// The ends of a line of five or more through (`x`, `y`): the column
    /// is looked at first, then the diagonal that falls to the right,
    /// then the row, then the diagonal that rises to the right.
    pub open spec fn winning_line(self, x: int, y: int) -> Option<((int, int), (int, int))> {
        if self.line_through(x, y, 0, 1) is Some {
            self.line_through(x, y, 0, 1)
        } else if self.line_through(x, y, 1, 1) is Some {
            self.line_through(x, y, 1, 1)
        } else if self.line_through(x, y, 1, 0) is Some {
            self.line_through(x, y, 1, 0)
        } else {
            self.line_through(x, y, 1, -1)
        }
    }

    /// Whether no cell is empty.
    pub open spec fn is_full(self) -> bool {
        forall|i: int| 0 <= i < self.cells.len() ==> self.cells[i] != CellView::Empty
    }

    /// The board after `who` occupied column `x`, row `y`.
    pub open spec fn placed(self, who: UserView, x: int, y: int) -> BoardView {
        BoardView {
            cells: self.cells.update(y * self.width + x, CellView::Occupied(who)),
            ..self
        }
    }
}

/// The ends of a line in contracts, from the `i32` pairs.
pub open spec fn ends_view(ends: FirstAndLast) -> ((int, int), (int, int)) {
    ((ends.0.0 as int, ends.0.1 as int), (ends.1.0 as int, ends.1.1 as int))
}

/// Where run number `run` begins, given the lengths of the runs.
pub open spec fn run_start(lengths: Seq<usize>, run: int) -> int
    decreases run,
{
    if run <= 0 {
        0
    } else {
        run_start(lengths, run - 1) + lengths[run - 1]
    }
}

/// Whether `lengths` are the lengths of the runs of `keys`: the runs
/// follow each other and cover `keys`, none is empty, all keys of a run
/// are equal, and a run ends where the next key differs.
pub open spec fn is_runs_of(keys: Seq<bool>, lengths: Seq<usize>) -> bool {
    &&& run_start(lengths, lengths.len() as int) == keys.len()
    &&& forall|run: int| 0 <= run < lengths.len() ==> #[trigger] lengths[run] > 0
    &&& forall|run: int, j: int|
        0 <= run < lengths.len() && 0 <= j < lengths[run] ==> #[trigger] keys[run_start(
            lengths,
            run,
        ) + j] == keys[run_start(lengths, run)]
    &&& forall|run: int|
        0 < run < lengths.len() ==> keys[#[trigger] run_start(lengths, run) - 1] != keys[run_start(
            lengths,
            run,
        )]
}

/// The lengths of `runs`, in the same order.
pub open spec fn lengths_of(runs: Seq<Vec<bool>>) -> Seq<usize> {
    runs.map_values(|run: Vec<bool>| run.len())
}

/// The runs of equal keys in `keys`, in order, from itertools'
/// `group_by`, which puts consecutive elements with the same key into
/// one group: the groups follow each other and cover `keys`, none is
/// empty, a group ends where the next key differs, and each holds the
/// keys of its stretch.
#[verifier::external_body]
fn runs_of(keys: &Vec<bool>) -> (runs: Vec<Vec<bool>>)
    ensures
        is_runs_of(keys@, lengths_of(runs@)),
        forall|run: int, j: int|
            0 <= run < runs.len() && 0 <= j < runs[run].len() ==> #[trigger] runs[run][j]
                == keys[run_start(lengths_of(runs@), run) + j],
{
    keys.iter().group_by(|key| **key).into_iter().map(|(_, run)| run.copied().collect()).collect()
}

/// Runs begin in order, and none begins past the end.
proof fn lemma_run_start_grows(lengths: Seq<usize>, a: int, b: int)
    requires
        0 <= a <= b <= lengths.len(),
    ensures
        run_start(lengths, a) <= run_start(lengths, b),
    decreases b - a,
{
    if a < b {
        lemma_run_start_grows(lengths, a, b - 1);
    }
}

/// The run that holds position `at`, among the first `upto` runs.
proof fn lemma_run_at(lengths: Seq<usize>, at: int, upto: int) -> (run: int)
    requires
        0 <= upto <= lengths.len(),
        0 <= at < run_start(lengths, upto),
    ensures
        0 <= run < upto,
        run_start(lengths, run) <= at < run_start(lengths, run) + lengths[run],
    decreases upto,
{
    if at >= run_start(lengths, upto - 1) {
        upto - 1
    } else {
        lemma_run_at(lengths, at, upto - 1)
    }
}

/// How far the line through the middle of nine places reaches, from
/// the run of places alike that holds the middle one.
proof fn lemma_centre_run(
    board: BoardView,
    x: int,
    y: int,
    dx: int,
    dy: int,
    keys: Seq<bool>,
    start: int,
    len: int,
)
    requires
        keys.len() == 9,
        forall|j: int| -4 <= j <= 4 ==> #[trigger] keys[j + 4] == board.alike(x, y, dx, dy, j),
        0 <= start <= 4 < start + len <= 9,
        forall|i: int| start <= i < start + len ==> keys[i],
        start > 0 ==> !keys[start - 1],
        start + len < 9 ==> !keys[start + len],
    ensures
        board.reach(x, y, -dx, -dy) == 4 - start,
        board.reach(x, y, dx, dy) == start + len - 5,
{
    assert(keys[-4 + 4] == board.alike(x, y, dx, dy, -4));
    assert(keys[-3 + 4] == board.alike(x, y, dx, dy, -3));
    assert(keys[-2 + 4] == board.alike(x, y, dx, dy, -2));
    assert(keys[-1 + 4] == board.alike(x, y, dx, dy, -1));
    assert(keys[1int + 4] == board.alike(x, y, dx, dy, 1));
    assert(keys[2int + 4] == board.alike(x, y, dx, dy, 2));
    assert(keys[3int + 4] == board.alike(x, y, dx, dy, 3));
    assert(keys[4int + 4] == board.alike(x, y, dx, dy, 4));
    assert(board.alike(x, y, -dx, -dy, 1) == board.alike(x, y, dx, dy, -1));
    assert(board.alike(x, y, -dx, -dy, 2) == board.alike(x, y, dx, dy, -2));
    assert(board.alike(x, y, -dx, -dy, 3) == board.alike(x, y, dx, dy, -3));
    assert(board.alike(x, y, -dx, -dy, 4) == board.alike(x, y, dx, dy, -4));
}

/// Where run number `run` of `keys` begins and ends, and that the keys
/// next to it differ from its own.
proof fn lemma_run_bounds(keys: Seq<bool>, lengths: Seq<usize>, run: int)
    requires
        is_runs_of(keys, lengths),
        0 <= run < lengths.len(),
    ensures
        0 <= run_start(lengths, run),
        lengths[run] > 0,
        run_start(lengths, run) + lengths[run] <= keys.len(),
        forall|i: int|
            run_start(lengths, run) <= i < run_start(lengths, run) + lengths[run]
                ==> #[trigger] keys[i] == keys[run_start(lengths, run)],
        run_start(lengths, run) > 0 ==> keys[run_start(lengths, run) - 1] != keys[run_start(
            lengths,
            run,
        )],
        run_start(lengths, run) + lengths[run] < keys.len() ==> keys[run_start(lengths, run)
            + lengths[run]] != keys[run_start(lengths, run)],
{
    let start = run_start(lengths, run);
    let len = lengths[run] as int;
    lemma_run_start_grows(lengths, 0, run);
    lemma_run_start_grows(lengths, run + 1, lengths.len() as int);
    assert(run_start(lengths, run + 1) == start + len);
    assert forall|i: int| start <= i < start + len implies #[trigger] keys[i] == keys[start] by {
        assert(keys[start + (i - start)] == keys[start]);
    }
    if run > 0 {
        assert(keys[run_start(lengths, run) - 1] != keys[run_start(lengths, run)]);
    }
    if run + 1 < lengths.len() {
        assert(keys[run_start(lengths, run + 1) - 1] != keys[run_start(lengths, run + 1)]);
        assert(keys[start + (len - 1)] == keys[start]);
    } else {
        assert(start + len == keys.len());
    }
}

/// What the longest run among the nine places around (`x`, `y`) says of
/// the line through (`x`, `y`): a run of five or more is that line, and
/// where the longest run is shorter the line is shorter than five.
proof fn lemma_longest_run(
    board: BoardView,
    x: int,
    y: int,
    dx: int,
    dy: int,
    keys: Seq<bool>,
    lengths: Seq<usize>,
    best: int,
)
    requires
        keys.len() == 9,
        is_runs_of(keys, lengths),
        forall|j: int| -4 <= j <= 4 ==> #[trigger] keys[j + 4] == board.alike(x, y, dx, dy, j),
        0 <= best < lengths.len(),
        forall|j: int| 0 <= j < lengths.len() ==> #[trigger] lengths[j] <= lengths[best],
    ensures
        0 <= run_start(lengths, best),
        run_start(lengths, best) + lengths[best] <= 9,
        lengths[best] >= 5 ==> {
            &&& run_start(lengths, best) <= 4
            &&& board.reach(x, y, -dx, -dy) == 4 - run_start(lengths, best)
            &&& board.reach(x, y, dx, dy) == run_start(lengths, best) + lengths[best] - 5
        },
        lengths[best] < 5 ==> board.reach(x, y, -dx, -dy) + 1 + board.reach(x, y, dx, dy) < 5,
{
    let centre = lemma_run_at(lengths, 4, lengths.len() as int);
    lemma_run_bounds(keys, lengths, centre);
    lemma_run_bounds(keys, lengths, best);
    assert(keys[0int + 4] == board.alike(x, y, dx, dy, 0));
    lemma_centre_run(
        board,
        x,
        y,
        dx,
        dy,
        keys,
        run_start(lengths, centre),
        lengths[centre] as int,
    );
    if lengths[best] >= 5 {
        if best < centre {
            lemma_run_start_grows(lengths, best + 1, centre);
        } else if centre < best {
            lemma_run_start_grows(lengths, centre + 1, best);
        }
        assert(best == centre);
    }
}

/// The board: `width` columns and `height` rows of cells.
#[derive(Debug, PartialEq, Eq)]
pub struct Board {
    cells: Vec<Cell>,
    width: usize,
    height: usize,
}

impl View for Board {
    type V = BoardView;

    closed spec fn view(&self) -> BoardView {
        BoardView {
            cells: cell_views(self.cells@),
            width: self.width as nat,
            height: self.height as nat,
        }
    }
}

/// Whether two places hold the same: both are off the board, both are
/// empty, or both are occupied by the same user.
fn same_cell(a: Option<&Cell>, b: Option<&Cell>) -> (same: bool)
    ensures
        same == (match (a, b) {
            (Some(a), Some(b)) => a@ == b@,
            (None, None) => true,
            _ => false,
        }),
{
    match (a, b) {
        (Some(a), Some(b)) => *a == *b,
        (None, None) => true,
        _ => false,
    }
}

/// Where the longest of `runs` begins and how long it is; of several
/// longest runs the last one.
fn longest_run(runs: &Vec<Vec<bool>>) -> (longest: (usize, usize))
    requires
        runs.len() > 0,
        run_start(lengths_of(runs@), runs.len() as int) <= usize::MAX,
    ensures
        exists|best: int|
            {
                &&& 0 <= best < runs.len()
                &&& longest.0 == run_start(lengths_of(runs@), best)
                &&& longest.1 == lengths_of(runs@)[best]
                &&& forall|j: int|
                    0 <= j < runs.len() ==> #[trigger] lengths_of(runs@)[j] <= longest.1
            },
{
    let ghost lens = lengths_of(runs@);
    let mut run: usize = 0;
    let mut start: usize = 0;
    let mut best_start: usize = 0;
    let mut best_len: usize = 0;
    let ghost mut best: int = -1;
    while run < runs.len()
        invariant
            run <= runs.len(),
            lens == lengths_of(runs@),
            run_start(lens, runs.len() as int) <= usize::MAX,
            start == run_start(lens, run as int),
            best < run,
            best >= 0 ==> best_start == run_start(lens, best) && best_len == lens[best],
            best < 0 ==> run == 0 && best_len == 0,
            forall|j: int| 0 <= j < run ==> #[trigger] lens[j] <= best_len,
        decreases runs.len() - run,
    {
        let len = runs[run].len();
        proof {
            assert(len == lens[run as int]);
            lemma_run_start_grows(lens, run + 1, lens.len() as int);
        }
        if len >= best_len {
            best_len = len;
            best_start = start;
            proof {
                best = run as int;
            }
        }
        start += len;
        run += 1;
    }
    (best_start, best_len)
}

impl Board {
    /// The cell in column `x`, row `y`; `None` off the board.
    pub fn at(&self, x: i32, y: i32) -> (cell: Option<&Cell>)
        requires
            self@.wf(),
        ensures
            match cell {
                Some(cell) => self@.at(x as int, y as int) == Some(cell@),
                None => self@.at(x as int, y as int).is_none(),
            },
    {
        if x < 0 || y < 0 || x as usize >= self.width || y as usize >= self.height {
            None
        } else {
            assert(0 <= y * self.width && y * self.width + x < self.width * self.height)
                by (nonlinear_arith)
                requires
                    0 <= x < self.width,
                    0 <= y < self.height,
            ;
            assert(self.width * self.height == self.cells.len());
            Some(&self.cells[(y as usize) * self.width + (x as usize)])
        }
    }

    /// The nine places from four steps of (`dx`, `dy`) before (`x`, `y`)
    /// to four steps after it, and of each whether it holds what (`x`,
    /// `y`) holds.
    fn window(&self, x: i32, y: i32, dx: i32, dy: i32) -> (window: (Vec<bool>, Vec<(i32, i32)>))
        requires
            self@.wf(),
            self@.on_board(x as int, y as int),
            -1 <= dx <= 1,
            -1 <= dy <= 1,
        ensures
            window.0.len() == 9,
            window.1.len() == 9,
            forall|j: int|
                -4 <= j <= 4 ==> #[trigger] window.0[j + 4] == self@.alike(
                    x as int,
                    y as int,
                    dx as int,
                    dy as int,
                    j,
                ),
            forall|j: int|
                -4 <= j <= 4 ==> #[trigger] window.1[j + 4] == (
                    (x + j * dx) as i32,
                    (y + j * dy) as i32,
                ),
            forall|j: int|
                -4 <= j <= 4 ==> i32::MIN <= x + #[trigger] (j * dx) <= i32::MAX && i32::MIN
                    <= y + j * dy <= i32::MAX,
    {
        let centre = self.at(x, y);
        let mut keys: Vec<bool> = Vec::new();
        let mut places: Vec<(i32, i32)> = Vec::new();
        let mut k: i32 = -4;
        while k <= 4
            invariant
                -4 <= k <= 5,
                self@.wf(),
                self@.on_board(x as int, y as int),
                -1 <= dx <= 1,
                -1 <= dy <= 1,
                keys.len() == k + 4,
                places.len() == k + 4,
                match centre {
                    Some(cell) => self@.at(x as int, y as int) == Some(cell@),
                    None => self@.at(x as int, y as int).is_none(),
                },
                forall|j: int|
                    -4 <= j < k ==> #[trigger] keys[j + 4] == self@.alike(
                        x as int,
                        y as int,
                        dx as int,
                        dy as int,
                        j,
                    ),
                forall|j: int|
                    -4 <= j < k ==> #[trigger] places[j + 4] == (
                        (x + j * dx) as i32,
                        (y + j * dy) as i32,
                    ),
                forall|j: int|
                    -4 <= j < k ==> i32::MIN <= x + #[trigger] (j * dx) <= i32::MAX && i32::MIN <= y
                        + j * dy <= i32::MAX,
            decreases 5 - k,
        {
            assert(-4 <= k * dx <= 4 && -4 <= k * dy <= 4) by (nonlinear_arith)
                requires
                    -4 <= k <= 4,
                    -1 <= dx <= 1,
                    -1 <= dy <= 1,
            ;
            let px = x + k * dx;
            let py = y + k * dy;
            keys.push(same_cell(self.at(px, py), centre));
            places.push((px, py));
            k += 1;
        }
        (keys, places)
    }

    /// The ends of the longest unbroken line among the nine places from
    /// four steps of (`dx`, `dy`) before (`x`, `y`) to four steps after
    /// it, if it is five places long or longer.
    fn range_contains_win(&self, x: i32, y: i32, dx: i32, dy: i32) -> (ends: Option<FirstAndLast>)
        requires
            self@.wf(),
            self@.on_board(x as int, y as int),
            -1 <= dx <= 1,
            -1 <= dy <= 1,
        ensures
            match ends {
                Some(ends) => self@.line_through(x as int, y as int, dx as int, dy as int) == Some(
                    ends_view(ends),
                ),
                None => self@.line_through(x as int, y as int, dx as int, dy as int).is_none(),
            },
    {
        let (keys, places) = self.window(x, y, dx, dy);
        let runs = runs_of(&keys);
        let (best_start, best_len) = longest_run(&runs);
        proof {
            let best = choose|best: int|
                0 <= best < runs.len() && best_start == run_start(lengths_of(runs@), best)
                    && best_len == lengths_of(runs@)[best] && forall|j: int|
                    0 <= j < runs.len() ==> #[trigger] lengths_of(runs@)[j] <= best_len;
            lemma_longest_run(
                self@,
                x as int,
                y as int,
                dx as int,
                dy as int,
                keys@,
                lengths_of(runs@),
                best,
            );
        }
        if best_len >= 5 {
            let first = places[best_start];
            let last = places[best_start + best_len - 1];
            proof {
                let back = 4 - best_start;
                assert(places[(best_start - 4) + 4] == (
                    (x + (best_start - 4) * dx) as i32,
                    (y + (best_start - 4) * dy) as i32,
                ));
                assert(places[(best_start + best_len - 5) + 4] == (
                    (x + (best_start + best_len - 5) * dx) as i32,
                    (y + (best_start + best_len - 5) * dy) as i32,
                ));
                assert((best_start - 4) * dx == -(back * dx) && (best_start - 4) * dy == -(back
                    * dy)) by (nonlinear_arith)
                    requires
                        back == 4 - best_start,
                ;
            }
            Some((first, last))
        } else {
            None
        }
    }

    /// An empty board of `width` columns and `height` rows.
    pub fn new(width: usize, height: usize) -> (board: Self)
        requires
            width * height <= usize::MAX,
            width <= i32::MAX - 4,
            height <= i32::MAX - 4,
        ensures
            board@.wf(),
            board@ == BoardView::empty(width as nat, height as nat),
    {
        let count = width * height;
        let mut cells: Vec<Cell> = Vec::new();
        let mut filled: usize = 0;
        while filled < count
            invariant
                filled <= count,
                cells.len() == filled,
                forall|i: int| 0 <= i < filled ==> cells[i]@ == CellView::Empty,
            decreases count - filled,
        {
            cells.push(Cell::Empty);
            filled += 1;
        }
        let board = Self { cells, width, height };
        assert(board@.cells =~= BoardView::empty(width as nat, height as nat).cells);
        board
    }

    /// The board of `width` columns and `height` rows that holds
    /// `cells`, row by row; `None` where there is not one cell for every
    /// place, or where the board is too large for its places to be
    /// named.
    pub fn from_cells(cells: Vec<Cell>, width: usize, height: usize) -> (board: Option<Self>)
        ensures
            match board {
                Some(board) => {
                    &&& board@.wf()
                    &&& board@ == (BoardView {
                        cells: cell_views(cells@),
                        width: width as nat,
                        height: height as nat,
                    })
                },
                None => !(BoardView {
                    cells: cell_views(cells@),
                    width: width as nat,
                    height: height as nat,
                }).wf(),
            },
    {
        if width > 0x7fff_fffb || height > 0x7fff_fffb {
            return None;
        }
        match width.checked_mul(height) {
            Some(count) => {
                if count == cells.len() {
                    let board = Self { cells, width, height };
                    assert(board@.cells.len() == cells.len());
                    Some(board)
                } else {
                    assert(cell_views(cells@).len() == cells.len());
                    None
                }
            },
            None => {
                assert(cell_views(cells@).len() == cells.len());
                None
            },
        }
    }

    /// The first empty place, going through the rows from the top and
    /// through each row from the left; `None` where the board is full.
    pub fn first_empty(&self) -> (place: Option<PlayerMove>)
        requires
            self@.wf(),
        ensures
            match place {
                Some(place) => {
                    &&& self@.at(place.x as int, place.y as int) == Some(CellView::Empty)
                    &&& forall|i: int|
                        0 <= i < place.y * self@.width + place.x ==> self@.cells[i]
                            != CellView::Empty
                },
                None => self@.is_full(),
            },
    {
        let mut at: usize = 0;
        while at < self.cells.len()
            invariant
                at <= self.cells.len(),
                self@.wf(),
                forall|i: int| 0 <= i < at ==> self@.cells[i] != CellView::Empty,
            decreases self.cells.len() - at,
        {
            if matches!(self.cells[at], Cell::Empty) {
                assert(self@.cells[at as int] == CellView::Empty);
                assert(self.width > 0) by (nonlinear_arith)
                    requires
                        at < self.width * self.height,
                ;
                let x = at % self.width;
                let y = at / self.width;
                assert(y * self.width + x == at && y < self.height) by (nonlinear_arith)
                    requires
                        self.width > 0,
                        x == (at as int) % (self.width as int),
                        y == (at as int) / (self.width as int),
                        at < self.width * self.height,
                ;
                return Some(PlayerMove { x, y });
            }
            assert(self@.cells[at as int] == self.cells[at as int]@);
            at += 1;
        }
        None
    }

    /// The number of columns.
    pub fn width(&self) -> (width: usize)
        ensures
            width == self@.width,
    {
        self.width
    }

    /// The number of rows.
    pub fn height(&self) -> (height: usize)
        ensures
            height == self@.height,
    {
        self.height
    }

    /// The cells, row by row.
    pub fn cells(&self) -> (cells: &[Cell])
        ensures
            cell_views(cells@) == self@.cells,
    {
        self.cells.as_slice()
    }

    /// Lets `user` occupy column `x`, row `y`, and looks for a line of
    /// five through that place. A place off the board or occupied is
    /// refused, and the board stays as it is.
    pub fn try_place(&mut self, user: &User, x: usize, y: usize) -> (result: PlaceResult)
        requires
            old(self)@.wf(),
        ensures
            final(self)@.wf(),
            if old(self)@.at(x as int, y as int) == Some(CellView::Empty) {
                &&& final(self)@ == old(self)@.placed(user@, x as int, y as int)
                &&& match result {
                    PlaceResult::Win(ends) => final(self)@.winning_line(x as int, y as int) == Some(
                        ends_view(ends),
                    ),
                    PlaceResult::Placed => final(self)@.winning_line(x as int, y as int).is_none(),
                    PlaceResult::InvalidMove => false,
                }
            } else {
                &&& final(self)@ == old(self)@
                &&& result is InvalidMove
            },
    {
        if x >= self.width || y >= self.height {
            return PlaceResult::InvalidMove;
        }
        let free = match self.at(x as i32, y as i32) {
            Some(Cell::Empty) => true,
            _ => false,
        };
        if !free {
            return PlaceResult::InvalidMove;
        }
        assert(0 <= y * self.width && y * self.width + x < self.width * self.height)
            by (nonlinear_arith)
            requires
                0 <= x < self.width,
                0 <= y < self.height,
        ;
        assert(self.width * self.height == self.cells.len());
        let ghost before = self.cells@;
        self.cells.set(y * self.width + x, Cell::Occupied(user.clone()));
        assert(cell_views(self.cells@) =~= cell_views(before).update(
            y * self.width + x,
            CellView::Occupied(user@),
        ));
        self.check_for_win_around(x, y)
    }

    /// Looks for a line of five or more through column `x`, row `y`.
    pub fn check_for_win_around(&self, x: usize, y: usize) -> (result: PlaceResult)
        requires
            self@.wf(),
            self@.on_board(x as int, y as int),
        ensures
            match result {
                PlaceResult::Win(ends) => self@.winning_line(x as int, y as int) == Some(
                    ends_view(ends),
                ),
                PlaceResult::Placed => self@.winning_line(x as int, y as int).is_none(),
                PlaceResult::InvalidMove => false,
            },
    {
        let x = x as i32;
        let y = y as i32;
        let winning_coords = match self.range_contains_win(x, y, 0, 1) {
            Some(ends) => Some(ends),
            None => match self.range_contains_win(x, y, 1, 1) {
                Some(ends) => Some(ends),
                None => match self.range_contains_win(x, y, 1, 0) {
                    Some(ends) => Some(ends),
                    None => self.range_contains_win(x, y, 1, -1),
                },
            },
        };
        match winning_coords {
            Some(coords) => PlaceResult::Win(coords),
            None => PlaceResult::Placed,
        }
    }

    /// Whether no cell is empty.
    pub fn is_full(&self) -> (full: bool)
        ensures
            full == self@.is_full(),
    {
        let mut at: usize = 0;
        while at < self.cells.len()
            invariant
                at <= self.cells.len(),
                forall|i: int| 0 <= i < at ==> self@.cells[i] != CellView::Empty,
            decreases self.cells.len() - at,
        {
            if matches!(self.cells[at], Cell::Empty) {
                assert(self@.cells[at as int] == CellView::Empty);
                return false;
            }
            assert(self@.cells[at as int] == self.cells[at as int]@);
            at += 1;
        }
        true
    }
}

impl Clone for Board {
    fn clone(&self) -> (copy: Self)
        ensures
            copy@ == self@,
    {
        let mut cells: Vec<Cell> = Vec::new();
        let mut at: usize = 0;
        while at < self.cells.len()
            invariant
                at <= self.cells.len(),
                cells.len() == at,
                forall|i: int| 0 <= i < at ==> cells[i] == self.cells[i],
            decreases self.cells.len() - at,
        {
            cells.push(self.cells[at].clone());
            at += 1;
        }
        let copy = Self { cells, width: self.width, height: self.height };
        assert(copy@.cells =~= self@.cells);
        copy
    }
}

/// What came of an attempt to occupy a place.
#[derive(Debug, PartialEq, Eq)]
pub enum PlaceResult {
    /// The place is taken, and no line of five goes through it.
    Placed,
    /// The place is taken, and a line of five with these ends goes
    /// through it.
    Win(FirstAndLast),
    /// The place is off the board or was occupied.
    InvalidMove,
}

/// What came of a move, before the turn passes on.
#[derive(Debug, PartialEq, Eq)]
pub enum InternalMoveResult {
    InvalidMove,
    Accepted,
    Win,
    Draw,
}

/// What a `Game` is in contracts: the board, the winner with the
/// ends of the winning line once there is one, and the rotation.
pub struct GameView {
    pub board: BoardView,
    pub winner: Option<(UserView, ((int, int), (int, int)))>,
    pub players: TurnTrackerView,
}

impl GameView {
    /// The game after `who` asked for column `x`, row `y`, and what came
    /// of it, before the turn passes on: a place off the board or
    /// occupied is refused; a line of five wins; a full board without
    /// one is a draw.
    pub open spec fn placed(self, who: UserView, x: int, y: int) -> (GameView, InternalMoveResult) {
        if self.board.at(x, y) != Some(CellView::Empty) {
            (self, InternalMoveResult::InvalidMove)
        } else {
            let board = self.board.placed(who, x, y);
            match board.winning_line(x, y) {
                Some(ends) => (
                    GameView { board, winner: Some((who, ends)), ..self },
                    InternalMoveResult::Win,
                ),
                None => (
                    GameView { board, ..self },
                    if board.is_full() {
                        InternalMoveResult::Draw
                    } else {
                        InternalMoveResult::Accepted
                    },
                ),
            }
        }
    }

    /// The game after `who` left the rotation and the turn passed on,
    /// and who is on turn then.
    pub open spec fn without(self, who: Seq<char>) -> (GameView, Option<UserView>) {
        (
            GameView { players: self.players.removed(who).advanced(), ..self },
            self.players.removed(who).next_player(),
        )
    }

    /// The game after the turn passed on, and who is on turn then.
    pub open spec fn passed_on(self) -> (GameView, Option<UserView>) {
        (GameView { players: self.players.advanced(), ..self }, self.players.next_player())
    }

    /// A new game for `users` on an empty board of `width` columns and
    /// `height` rows.
    pub open spec fn fresh(width: nat, height: nat, users: Seq<UserView>) -> GameView {
        GameView {
            board: BoardView::empty(width, height),
            winner: None,
            players: TurnTrackerView { players: users, current: 0 },
        }
    }

    /// The game after `who` made `player_move`, and the answer. A move
    /// that cannot be read, or is refused, puts the mover out of the
    /// rotation and passes the turn on. A move that stands while nobody
    /// is in the rotation to take the next turn stays on the board and
    /// is answered like a refused one, with no turn to follow.
    pub open spec fn moved(self, who: UserView, player_move: Option<PlayerMove>) -> (
        GameView,
        MoveOutcome,
    ) {
        match player_move {
            None => (
                self.without(who.name).0,
                MoveOutcome::InvalidFormat(self.without(who.name).1),
            ),
            Some(player_move) => {
                let (placed, result) = self.placed(who, player_move.x as int, player_move.y as int);
                match result {
                    InternalMoveResult::InvalidMove => (
                        self.without(who.name).0,
                        MoveOutcome::InvalidMove(self.without(who.name).1),
                    ),
                    InternalMoveResult::Accepted => (
                        placed.passed_on().0,
                        match placed.passed_on().1 {
                            Some(next) => MoveOutcome::Accepted(next),
                            None => MoveOutcome::InvalidMove(None),
                        },
                    ),
                    InternalMoveResult::Win => (placed, MoveOutcome::Win),
                    InternalMoveResult::Draw => (placed, MoveOutcome::Draw),
                }
            },
        }
    }
}

/// A mover whose move is refused, or cannot be read, is out of the
/// rotation: the turn that follows, if any, is not the mover's.
pub proof fn law_refused_mover_is_out(
    game: GameView,
    who: UserView,
    player_move: Option<PlayerMove>,
)
    requires
        game.moved(who, player_move).1 is InvalidMove || game.moved(who, player_move).1
            is InvalidFormat,
    ensures
        !crate::turn_tracker::has_player(game.moved(who, player_move).0.players.players, who.name),
        game.players.players.len() > 0 ==> game.moved(who, player_move).0.board == game.board,
        game.moved(who, player_move).1 matches MoveOutcome::InvalidMove(Some(next)) ==> next.name
            != who.name,
        game.moved(who, player_move).1 matches MoveOutcome::InvalidFormat(Some(next)) ==> next.name
            != who.name,
{
    crate::turn_tracker::law_removed_name_is_gone(game.players, who.name);
}

/// A game of five in a row.
#[derive(Debug)]
pub struct Game {
    board: Board,
    winner: Option<(User, FirstAndLast)>,
    players: TurnTracker,
}

impl View for Game {
    type V = GameView;

    closed spec fn view(&self) -> GameView {
        GameView {
            board: self.board@,
            winner: match self.winner {
                Some((user, ends)) => Some((user@, ends_view(ends))),
                None => None,
            },
            players: self.players@,
        }
    }
}

impl Game {
    /// A new game on an empty board of `w` columns and `h` rows, with
    /// `players` in the rotation.
    pub fn new(w: usize, h: usize, players: Vec<User>) -> (game: Self)
        requires
            w * h <= usize::MAX,
            w <= i32::MAX - 4,
            h <= i32::MAX - 4,
        ensures
            game@.board.wf(),
            game@ == GameView::fresh(w as nat, h as nat, user_views(players@)),
    {
        Self { board: Board::new(w, h), winner: None, players: TurnTracker::new(players) }
    }

    /// The board.
    pub fn board(&self) -> (board: &Board)
        ensures
            board@ == self@.board,
    {
        &self.board
    }

    /// The winner and the ends of the winning line, once there is one.
    pub fn winner(&self) -> (winner: Option<&(User, FirstAndLast)>)
        ensures
            match winner {
                Some(winner) => self@.winner == Some((winner.0@, ends_view(winner.1))),
                None => self@.winner is None,
            },
    {
        self.winner.as_ref()
    }

    /// The turn of `user`, with the board as it stands.
    fn turn_of(&self, user: User) -> (turn: PlayerTurn<Board>)
        ensures
            turn.token.user == user,
            turn.state@ == self@.board,
    {
        PlayerTurn { token: TurnToken { user }, state: self.board.clone() }
    }

    /// Takes `name` out of the rotation and passes the turn on.
    fn eliminate(&mut self, name: &str) -> (next: Option<PlayerTurn<Board>>)
        ensures
            final(self)@ == old(self)@.without(name@).0,
            turn_player(next) == old(self)@.without(name@).1,
            next matches Some(turn) ==> turn.state@ == final(self)@.board,
    {
        self.players.remove_player(name);
        match self.players.advance_player() {
            Some(p) => Some(self.turn_of(p)),
            None => None,
        }
    }
}

/// Lets `user` make `p_move` in `state`, and says what came of it. The
/// turn does not pass on here.
pub fn make_move(state: &mut Game, user: &User, p_move: PlayerMove) -> (result: InternalMoveResult)
    requires
        old(state)@.board.wf(),
    ensures
        final(state)@.board.wf(),
        (final(state)@, result) == old(state)@.placed(user@, p_move.x as int, p_move.y as int),
{
    match state.board.try_place(user, p_move.x, p_move.y) {
        PlaceResult::InvalidMove => InternalMoveResult::InvalidMove,
        PlaceResult::Placed => {
            if state.board.is_full() {
                InternalMoveResult::Draw
            } else {
                InternalMoveResult::Accepted
            }
        },
        PlaceResult::Win(coords) => {
            state.winner = Some((user.clone(), coords));
            InternalMoveResult::Win
        },
    }
}

impl GameTrait for Game {
    type Move = PlayerMove;

    type State = Board;

    open spec fn inv(&self) -> bool {
        self@.board.wf()
    }

    open spec fn moved(
        &self,
        player: UserView,
        player_move: Option<PlayerMove>,
        result: PlayerMoveResult<Board>,
        after: &Self,
    ) -> bool {
        &&& after@ == self@.moved(player, player_move).0
        &&& result.outcome() == self@.moved(player, player_move).1
        &&& result.turn() matches Some(turn) ==> turn.state@ == after@.board
    }

    open spec fn holder_left(
        &self,
        player: UserView,
        next: Option<PlayerTurn<Board>>,
        after: &Self,
    ) -> bool {
        &&& after@ == self@.without(player.name).0
        &&& turn_player(next) == self@.without(player.name).1
        &&& next matches Some(turn) ==> turn.state@ == after@.board
    }

    open spec fn started(&self, first: Option<PlayerTurn<Board>>, after: &Self) -> bool {
        &&& after@ == self@.passed_on().0
        &&& turn_player(first) == self@.passed_on().1
        &&& first matches Some(turn) ==> turn.state@ == after@.board
    }

    open spec fn joined(&self, user: UserView, after: &Self) -> bool {
        after@ == (GameView { players: self@.players.added(user), ..self@ })
    }

    open spec fn left(&self, name: Seq<char>, after: &Self) -> bool {
        after@ == (GameView { players: self@.players.removed(name), ..self@ })
    }

    open spec fn was_reset(&self, users: Seq<UserView>, after: &Self) -> bool {
        after@ == GameView::fresh(self@.board.width, self@.board.height, users)
    }

    fn player_moves(&mut self, turn_token: TurnToken, player_move: Option<PlayerMove>) -> (result:
        PlayerMoveResult<Board>) {
        let user = &turn_token.user;
        match player_move {
            Some(mov) => {
                match make_move(self, user, mov) {
                    InternalMoveResult::InvalidMove => PlayerMoveResult::InvalidMove(
                        self.eliminate(user.name.as_str()),
                    ),
                    InternalMoveResult::Accepted => {
                        match self.players.advance_player() {
                            Some(p) => PlayerMoveResult::Accepted(self.turn_of(p)),
                            None => PlayerMoveResult::InvalidMove(None),
                        }
                    },
                    InternalMoveResult::Win => PlayerMoveResult::Win,
                    InternalMoveResult::Draw => PlayerMoveResult::Draw,
                }
            },
            None => PlayerMoveResult::InvalidFormat(self.eliminate(user.name.as_str())),
        }
    }

    fn current_player_disconnected(&mut self, turn_token: TurnToken) -> (next: Option<
        PlayerTurn<Board>,
    >) {
        self.eliminate(turn_token.user.name.as_str())
    }

    fn try_start_game(&mut self) -> (first: Option<PlayerTurn<Board>>) {
        match self.players.advance_player() {
            Some(user) => Some(self.turn_of(user)),
            None => None,
        }
    }

    fn player_connected(&mut self, user: User) {
        self.players.add_player(user);
    }

    fn player_disconnected(&mut self, user: &str) {
        self.players.remove_player(user);
    }

    fn reset(&mut self, users: Vec<User>) {
        assert(self.board.width * self.board.height == self.board.cells.len());
        *self = Game::new(self.board.width, self.board.height, users);
    }
}

/// A new game, ready to be handed to a controller.
pub fn make_ptr(w: usize, h: usize, players: Vec<User>) -> (game: Game)
    requires
        w * h <= usize::MAX,
        w <= i32::MAX - 4,
        h <= i32::MAX - 4,
    ensures
        game.inv(),
        game@ == GameView::fresh(w as nat, h as nat, user_views(players@)),
{
    Game::new(w, h, players)
}

} // verus!
