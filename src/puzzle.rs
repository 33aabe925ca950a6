use rand::Rng;
use vstd::prelude::*;

verus! {

/// Number of `true` values at the end of `line`, up to the first `false` from the right.
pub open spec fn trailing_run(line: Seq<bool>) -> nat
    decreases line.len(),
{
    if line.len() == 0 || !line.last() {
        0
    } else {
        1 + trailing_run(line.drop_last())
    }
}

/// Lengths of the maximal runs of `true` in `line`, from left to right.
/// The runs of a line are the runs of what stands before its last run,
/// followed by that last run.
pub open spec fn runs(line: Seq<bool>) -> Seq<nat>
    decreases line.len(),
    via runs_decreases
{
    if line.len() == 0 {
        seq![]
    } else if !line.last() {
        runs(line.drop_last())
    } else {
        let k = trailing_run(line);
        runs(line.take(line.len() - k)).push(k)
    }
}

/// The hint of a line: its run lengths, or the single value 0 where it has no run.
pub open spec fn line_hint(line: Seq<bool>) -> Seq<nat> {
    if runs(line).len() == 0 {
        seq![0nat]
    } else {
        runs(line)
    }
}

/// A sequence of `u32` read as natural numbers.
pub open spec fn nats(s: Seq<u32>) -> Seq<nat> {
    s.map_values(|v: u32| v as nat)
}

proof fn lemma_trailing_run_bound(line: Seq<bool>)
    ensures
        trailing_run(line) <= line.len(),
        trailing_run(line) > 0 ==> line.last(),
    decreases line.len(),
{
    if line.len() > 0 && line.last() {
        lemma_trailing_run_bound(line.drop_last());
    }
}

#[via_fn]
proof fn runs_decreases(line: Seq<bool>) {
    lemma_trailing_run_bound(line);
}

/// Computes the run-length hint of one line.
pub fn calculate_hint_for_line(line: &[bool]) -> (r: Vec<u32>)
    requires
        line@.len() <= u32::MAX,
    ensures
        nats(r@) == line_hint(line@),
{
    let mut hints: Vec<u32> = Vec::new();
    let mut count: u32 = 0;
    let mut i: usize = 0;
    while i < line.len()
        invariant
            i <= line@.len() <= u32::MAX,
            count as nat == trailing_run(line@.take(i as int)),
            nats(hints@) == runs(line@.take(i - count)),
        decreases line@.len() - i,
    {
        let ghost pre = line@.take(i as int);
        let ghost next = line@.take(i + 1);
        proof {
            lemma_trailing_run_bound(pre);
            assert(next.drop_last() =~= pre);
        }
        if line[i] {
            count = count + 1;
            proof {
                assert(trailing_run(next) == count);
                assert(next.take(next.len() - count) =~= line@.take(i + 1 - count));
            }
        } else {
            assert(runs(next) == runs(pre));
            if count > 0 {
                proof {
                    assert(pre.take(pre.len() - count) =~= line@.take(i - count));
                    assert(runs(pre) == runs(line@.take(i - count)).push(count as nat));
                    assert(nats(hints@.push(count)) =~= nats(hints@).push(count as nat));
                }
                hints.push(count);
            }
            count = 0;
        }
        i = i + 1;
    }
    let ghost whole = line@.take(i as int);
    proof {
        assert(whole =~= line@);
        lemma_trailing_run_bound(whole);
    }
    if count > 0 {
        proof {
            assert(whole.take(whole.len() - count) =~= line@.take(i - count));
            assert(nats(hints@.push(count)) =~= nats(hints@).push(count as nat));
        }
        hints.push(count);
    }
    if hints.len() == 0 {
        proof {
            assert(nats(hints@.push(0)) =~= seq![0nat]);
        }
        hints.push(0);
    }
    hints
}

/// A solution grid read row by row.
pub open spec fn grid(rows: Seq<Vec<bool>>) -> Seq<Seq<bool>> {
    rows.map_values(|r: Vec<bool>| r@)
}

/// Column `x` of a grid, from top to bottom.
pub open spec fn column(g: Seq<Seq<bool>>, x: int) -> Seq<bool> {
    Seq::new(g.len(), |y: int| g[y][x])
}

/// Every row of `g` has `w` cells.
pub open spec fn rectangular(g: Seq<Seq<bool>>, w: int) -> bool {
    forall|y: int| 0 <= y < g.len() ==> #[trigger] g[y].len() == w
}

/// A list of hints read as sequences of natural numbers.
pub open spec fn hint_rows(h: Seq<Vec<u32>>) -> Seq<Seq<nat>> {
    h.map_values(|v: Vec<u32>| nats(v@))
}

/// The hints of each row of `g`.
pub open spec fn row_hints_of(g: Seq<Seq<bool>>) -> Seq<Seq<nat>> {
    Seq::new(g.len(), |y: int| line_hint(g[y]))
}

/// The hints of each of the `w` columns of `g`.
pub open spec fn col_hints_of(g: Seq<Seq<bool>>, w: int) -> Seq<Seq<nat>> {
    Seq::new(w as nat, |x: int| line_hint(column(g, x)))
}

/// Computes the row hints and the column hints of a rectangular solution grid.
/// A grid without rows or without columns has no hints on either axis.
pub fn calculate_hints(solution: &Vec<Vec<bool>>) -> (r: (Vec<Vec<u32>>, Vec<Vec<u32>>))
    requires
        solution@.len() <= u32::MAX,
        solution@.len() > 0 ==> rectangular(grid(solution@), solution@[0]@.len() as int),
        solution@.len() > 0 ==> solution@[0]@.len() <= u32::MAX,
    ensures
        solution@.len() == 0 || solution@[0]@.len() == 0 ==> r.0@.len() == 0 && r.1@.len() == 0,
        solution@.len() > 0 && solution@[0]@.len() > 0 ==> hint_rows(r.0@) == row_hints_of(
            grid(solution@),
        ) && hint_rows(r.1@) == col_hints_of(grid(solution@), solution@[0]@.len() as int),
{
    let height = solution.len();
    if height == 0 {
        return (Vec::new(), Vec::new());
    }
    let width = solution[0].len();
    if width == 0 {
        return (Vec::new(), Vec::new());
    }
    let ghost g = grid(solution@);
    let mut row_hints: Vec<Vec<u32>> = Vec::new();
    let mut y: usize = 0;
    while y < height
        invariant
            y <= height == solution@.len() <= u32::MAX,
            g == grid(solution@),
            rectangular(g, width as int),
            width <= u32::MAX,
            hint_rows(row_hints@) == row_hints_of(g).take(y as int),
        decreases height - y,
    {
        assert(g[y as int] == solution@[y as int]@);
        let h = calculate_hint_for_line(solution[y].as_slice());
        proof {
            assert(hint_rows(row_hints@.push(h)) =~= hint_rows(row_hints@).push(nats(h@)));
            assert(hint_rows(row_hints@.push(h)) =~= row_hints_of(g).take(y + 1));
        }
        row_hints.push(h);
        y = y + 1;
    }
    let mut col_hints: Vec<Vec<u32>> = Vec::new();
    let mut x: usize = 0;
    while x < width
        invariant
            x <= width,
            height == solution@.len() <= u32::MAX,
            g == grid(solution@),
            rectangular(g, width as int),
            hint_rows(col_hints@) == col_hints_of(g, width as int).take(x as int),
        decreases width - x,
    {
        let mut col: Vec<bool> = Vec::new();
        let mut k: usize = 0;
        while k < height
            invariant
                k <= height == solution@.len() <= u32::MAX,
                x < width,
                g == grid(solution@),
                rectangular(g, width as int),
                col@ == column(g, x as int).take(k as int),
            decreases height - k,
        {
            assert(g[k as int] == solution@[k as int]@);
            proof {
                assert(col@.push(solution@[k as int]@[x as int]) =~= column(g, x as int).take(
                    k + 1,
                ));
            }
            col.push(solution[k][x]);
            k = k + 1;
        }
        assert(col@ =~= column(g, x as int));
        let h = calculate_hint_for_line(col.as_slice());
        proof {
            assert(hint_rows(col_hints@.push(h)) =~= hint_rows(col_hints@).push(nats(h@)));
            assert(hint_rows(col_hints@.push(h)) =~= col_hints_of(g, width as int).take(x + 1));
        }
        col_hints.push(h);
        x = x + 1;
    }
    proof {
        assert(hint_rows(row_hints@) =~= row_hints_of(g));
        assert(hint_rows(col_hints@) =~= col_hints_of(g, width as int));
    }
    (row_hints, col_hints)
}

/// What the player has marked on a cell.
#[derive(Clone, Copy, PartialEq, Eq, Structural, Debug)]
pub enum CellState {
    Unknown,
    X,
    O,
}

/// A puzzle in play: the hidden solution, its hints, the player's marks and the cursor.
pub struct Puzzle {
    pub height: u32,
    pub width: u32,
    pub state: Vec<Vec<CellState>>,
    pub solution: Vec<Vec<bool>>,
    pub row_hints: Vec<Vec<u32>>,
    pub col_hints: Vec<Vec<u32>>,
    pub cursor: (u32, u32),
}

/// The marks read row by row.
pub open spec fn marks(rows: Seq<Vec<CellState>>) -> Seq<Seq<CellState>> {
    rows.map_values(|r: Vec<CellState>| r@)
}

/// Which cells are marked filled.
pub open spec fn filled(cells: Seq<Seq<CellState>>) -> Seq<Seq<bool>> {
    cells.map_values(|r: Seq<CellState>| r.map_values(|c: CellState| c == CellState::X))
}

/// A `height` by `width` grid of unmarked cells.
pub open spec fn all_unknown(cells: Seq<Seq<CellState>>, width: int, height: int) -> bool {
    &&& cells.len() == height
    &&& forall|y: int| 0 <= y < height ==> #[trigger] cells[y].len() == width
    &&& forall|y: int, x: int|
        0 <= y < height && 0 <= x < width ==> #[trigger] cells[y][x] == CellState::Unknown
}

/// The marks solve the puzzle: the cells marked filled are exactly those of the solution.
pub open spec fn solved(cells: Seq<Seq<CellState>>, answer: Seq<Seq<bool>>) -> bool {
    filled(cells) == answer
}

impl Puzzle {
    pub open spec fn cells(&self) -> Seq<Seq<CellState>> {
        marks(self.state@)
    }

    pub open spec fn answer(&self) -> Seq<Seq<bool>> {
        grid(self.solution@)
    }

    /// Dimensions agree everywhere, the hints are those of the solution,
    /// and the cursor lies on the grid.
    pub open spec fn wf(&self) -> bool {
        &&& self.cursor.0 < self.width
        &&& self.cursor.1 < self.height
        &&& self.cells().len() == self.height
        &&& forall|y: int| 0 <= y < self.height ==> #[trigger] self.cells()[y].len() == self.width
        &&& self.answer().len() == self.height
        &&& rectangular(self.answer(), self.width as int)
        &&& hint_rows(self.row_hints@) == row_hints_of(self.answer())
        &&& hint_rows(self.col_hints@) == col_hints_of(self.answer(), self.width as int)
    }

    /// A fresh puzzle of the given dimensions: all cells unmarked, the cursor in the corner.
    pub open spec fn fresh(&self, width: u32, height: u32) -> bool {
        &&& self.wf()
        &&& self.width == width
        &&& self.height == height
        &&& all_unknown(self.cells(), width as int, height as int)
        &&& self.cursor == (0u32, 0u32)
    }
}

/// Builds a fresh puzzle around the given solution grid.
pub fn puzzle_from_solution(solution: Vec<Vec<bool>>, width: u32, height: u32) -> (r: Puzzle)
    requires
        width > 0,
        height > 0,
        solution@.len() == height,
        rectangular(grid(solution@), width as int),
    ensures
        r.fresh(width, height),
        r.answer() == grid(solution@),
{
    let ghost g = grid(solution@);
    assert(solution@[0]@.len() == width) by { assert(g[0] == solution@[0]@); }
    let (row_hints, col_hints) = calculate_hints(&solution);
    let mut state: Vec<Vec<CellState>> = Vec::new();
    let mut y: u32 = 0;
    while y < height
        invariant
            y <= height,
            all_unknown(marks(state@), width as int, y as int),
        decreases height - y,
    {
        let mut row: Vec<CellState> = Vec::new();
        let mut x: u32 = 0;
        while x < width
            invariant
                x <= width,
                row@.len() == x,
                forall|i: int| 0 <= i < x ==> row@[i] == CellState::Unknown,
            decreases width - x,
        {
            row.push(CellState::Unknown);
            x = x + 1;
        }
        proof {
            assert(marks(state@.push(row)) =~= marks(state@).push(row@));
        }
        state.push(row);
        y = y + 1;
    }
    Puzzle { height, width, state, solution, row_hints, col_hints, cursor: (0, 0) }
}

/// Relies on rand::thread_rng and rand::Rng::gen_range: a value drawn from the range `0..=1`.
#[verifier::external_body]
fn random_bit() -> (r: u32)
    ensures
        r <= 1,
{
    rand::thread_rng().gen_range(0..=1u32)
}

/// Creates a puzzle of the given dimensions whose solution cells are each drawn at random.
pub fn create_puzzle(width: u32, height: u32) -> (r: Puzzle)
    requires
        width > 0,
        height > 0,
    ensures
        r.fresh(width, height),
{
    let mut solution: Vec<Vec<bool>> = Vec::new();
    let mut y: u32 = 0;
    while y < height
        invariant
            y <= height,
            solution@.len() == y,
            rectangular(grid(solution@), width as int),
        decreases height - y,
    {
        let mut row: Vec<bool> = Vec::new();
        let mut x: u32 = 0;
        while x < width
            invariant
                x <= width,
                row@.len() == x,
            decreases width - x,
        {
            row.push(random_bit() == 1);
            x = x + 1;
        }
        proof {
            assert(grid(solution@.push(row)) =~= grid(solution@).push(row@));
        }
        solution.push(row);
        y = y + 1;
    }
    puzzle_from_solution(solution, width, height)
}

/// Row `y` is explained by its filled marks: they reproduce the row's hint.
pub open spec fn row_done(cells: Seq<Seq<CellState>>, rh: Seq<Seq<nat>>, y: int) -> bool {
    line_hint(filled(cells)[y]) == rh[y]
}

/// Column `x` is explained by its filled marks: they reproduce the column's hint.
pub open spec fn col_done(cells: Seq<Seq<CellState>>, ch: Seq<Seq<nat>>, x: int) -> bool {
    line_hint(column(filled(cells), x)) == ch[x]
}

/// The marks after auto-fill: each unmarked cell of an explained row or column is marked empty.
pub open spec fn auto_filled(cells: Seq<Seq<CellState>>, rh: Seq<Seq<nat>>, ch: Seq<Seq<nat>>) -> Seq<
    Seq<CellState>,
> {
    Seq::new(
        cells.len(),
        |y: int|
            Seq::new(
                cells[y].len(),
                |x: int|
                    if cells[y][x] == CellState::Unknown && (row_done(cells, rh, y) || col_done(
                        cells,
                        ch,
                        x,
                    )) {
                        CellState::O
                    } else {
                        cells[y][x]
                    },
            ),
    )
}

/// The marks after the row pass of auto-fill alone.
pub open spec fn rows_filled(cells: Seq<Seq<CellState>>, rh: Seq<Seq<nat>>) -> Seq<Seq<CellState>> {
    Seq::new(
        cells.len(),
        |y: int|
            Seq::new(
                cells[y].len(),
                |x: int|
                    if cells[y][x] == CellState::Unknown && row_done(cells, rh, y) {
                        CellState::O
                    } else {
                        cells[y][x]
                    },
            ),
    )
}

/// Tells whether the player's marks solve the puzzle.
pub fn is_solved(puzzle: &Puzzle) -> (r: bool)
    requires
        puzzle.wf(),
    ensures
        r == solved(puzzle.cells(), puzzle.answer()),
{
    let ghost f = filled(puzzle.cells());
    let ghost a = puzzle.answer();
    let height = puzzle.height as usize;
    let width = puzzle.width as usize;
    let mut y: usize = 0;
    while y < height
        invariant
            puzzle.wf(),
            height == puzzle.height,
            width == puzzle.width,
            f == filled(puzzle.cells()),
            a == puzzle.answer(),
            y <= height,
            forall|yy: int| 0 <= yy < y ==> #[trigger] f[yy] == a[yy],
        decreases height - y,
    {
        let mut x: usize = 0;
        while x < width
            invariant
                puzzle.wf(),
                height == puzzle.height,
                width == puzzle.width,
                f == filled(puzzle.cells()),
                a == puzzle.answer(),
                y < height,
                x <= width,
                forall|xx: int| 0 <= xx < x ==> #[trigger] f[y as int][xx] == a[y as int][xx],
            decreases width - x,
        {
            assert(puzzle.cells()[y as int] == puzzle.state@[y as int]@);
            assert(a[y as int] == puzzle.solution@[y as int]@);
            if (puzzle.state[y][x] == CellState::X) != puzzle.solution[y][x] {
                assert(f[y as int][x as int] != a[y as int][x as int]);
                return false;
            }
            x = x + 1;
        }
        assert(f[y as int] =~= a[y as int]);
        y = y + 1;
    }
    assert(f =~= a);
    true
}

/// Tells whether two hints hold the same numbers.
fn same_hints(a: &Vec<u32>, b: &Vec<u32>) -> (r: bool)
    ensures
        r == (nats(a@) == nats(b@)),
{
    if a.len() != b.len() {
        assert(nats(a@).len() != nats(b@).len());
        return false;
    }
    let mut i: usize = 0;
    while i < a.len()
        invariant
            a@.len() == b@.len(),
            i <= a@.len(),
            forall|j: int| 0 <= j < i ==> a@[j] == b@[j],
        decreases a@.len() - i,
    {
        if a[i] != b[i] {
            assert(nats(a@)[i as int] != nats(b@)[i as int]);
            return false;
        }
        i = i + 1;
    }
    assert(nats(a@) =~= nats(b@));
    true
}

/// The filled marks of row `y`.
fn filled_row(state: &Vec<Vec<CellState>>, y: usize, width: usize) -> (r: Vec<bool>)
    requires
        y < state@.len(),
        state@[y as int]@.len() == width,
    ensures
        r@ == filled(marks(state@))[y as int],
{
    let mut r: Vec<bool> = Vec::new();
    let mut x: usize = 0;
    while x < width
        invariant
            y < state@.len(),
            state@[y as int]@.len() == width,
            x <= width,
            r@ == filled(marks(state@))[y as int].take(x as int),
        decreases width - x,
    {
        proof {
            assert(r@.push(state@[y as int]@[x as int] == CellState::X) =~= filled(marks(state@))[y as int].take(x + 1));
        }
        r.push(state[y][x] == CellState::X);
        x = x + 1;
    }
    assert(r@ =~= filled(marks(state@))[y as int]);
    r
}

/// The filled marks of column `x`.
fn filled_column(state: &Vec<Vec<CellState>>, x: usize) -> (r: Vec<bool>)
    requires
        forall|y: int| 0 <= y < state@.len() ==> x < #[trigger] state@[y]@.len(),
    ensures
        r@ == column(filled(marks(state@)), x as int),
{
    let mut r: Vec<bool> = Vec::new();
    let mut y: usize = 0;
    while y < state.len()
        invariant
            forall|y: int| 0 <= y < state@.len() ==> x < #[trigger] state@[y]@.len(),
            y <= state@.len(),
            r@ == column(filled(marks(state@)), x as int).take(y as int),
        decreases state@.len() - y,
    {
        proof {
            assert(r@.push(state@[y as int]@[x as int] == CellState::X) =~= column(filled(marks(state@)), x as int).take(y + 1));
        }
        r.push(state[y][x] == CellState::X);
        y = y + 1;
    }
    assert(r@ =~= column(filled(marks(state@)), x as int));
    r
}

/// Replaces the mark of one cell.
pub(crate) fn set_cell(state: &mut Vec<Vec<CellState>>, y: usize, x: usize, c: CellState)
    requires
        y < old(state)@.len(),
        x < old(state)@[y as int]@.len(),
    ensures
        marks(final(state)@) == marks(old(state)@).update(
            y as int,
            marks(old(state)@)[y as int].update(x as int, c),
        ),
{
    let mut row: Vec<CellState> = Vec::new();
    state.set_and_swap(y, &mut row);
    row.set(x, c);
    state.set_and_swap(y, &mut row);
    assert(marks(state@) =~= marks(old(state)@).update(
        y as int,
        marks(old(state)@)[y as int].update(x as int, c),
    ));
}

/// Auto-fill: every row, then every column, whose filled marks reproduce its hint
/// gets its unmarked cells marked empty.
pub fn check_and_fill_solved(puzzle: &mut Puzzle)
    requires
        old(puzzle).wf(),
    ensures
        final(puzzle).wf(),
        final(puzzle).height == old(puzzle).height,
        final(puzzle).width == old(puzzle).width,
        final(puzzle).solution == old(puzzle).solution,
        final(puzzle).row_hints == old(puzzle).row_hints,
        final(puzzle).col_hints == old(puzzle).col_hints,
        final(puzzle).cursor == old(puzzle).cursor,
        final(puzzle).cells() == auto_filled(
            old(puzzle).cells(),
            hint_rows(old(puzzle).row_hints@),
            hint_rows(old(puzzle).col_hints@),
        ),
{
    let ghost c0 = puzzle.cells();
    let ghost f0 = filled(c0);
    let ghost rh = hint_rows(puzzle.row_hints@);
    let ghost ch = hint_rows(puzzle.col_hints@);
    let ghost r1 = rows_filled(c0, rh);
    let ghost p0 = *puzzle;
    let height = puzzle.height as usize;
    let width = puzzle.width as usize;
    let mut y: usize = 0;
    while y < height
        invariant
            p0.wf(),
            c0 == p0.cells(),
            f0 == filled(c0),
            rh == hint_rows(p0.row_hints@),
            r1 == rows_filled(c0, rh),
            height == p0.height,
            width == p0.width,
            puzzle.height == p0.height,
            puzzle.width == p0.width,
            puzzle.solution == p0.solution,
            puzzle.row_hints == p0.row_hints,
            puzzle.col_hints == p0.col_hints,
            puzzle.cursor == p0.cursor,
            y <= height,
            puzzle.cells().len() == height,
            forall|yy: int| 0 <= yy < height ==> #[trigger] puzzle.cells()[yy].len() == width,
            forall|yy: int, xx: int|
                0 <= yy < height && 0 <= xx < width ==> #[trigger] puzzle.cells()[yy][xx] == if yy
                    < y {
                    r1[yy][xx]
                } else {
                    c0[yy][xx]
                },
        decreases height - y,
    {
        assert(puzzle.cells()[y as int] =~= c0[y as int]);
        assert(puzzle.cells()[y as int] == puzzle.state@[y as int]@);
        let row_state = filled_row(&puzzle.state, y, width);
        let hints = calculate_hint_for_line(row_state.as_slice());
        assert(rh.len() == row_hints_of(p0.answer()).len());
        assert(puzzle.row_hints@.len() == height);
        assert(nats(puzzle.row_hints@[y as int]@) == rh[y as int]);
        if same_hints(&hints, &puzzle.row_hints[y]) {
            let mut x: usize = 0;
            while x < width
                invariant
                    p0.wf(),
                    c0 == p0.cells(),
                    f0 == filled(c0),
                    rh == hint_rows(p0.row_hints@),
                    r1 == rows_filled(c0, rh),
                    row_done(c0, rh, y as int),
                    height == p0.height,
                    width == p0.width,
                    puzzle.height == p0.height,
                    puzzle.width == p0.width,
                    puzzle.solution == p0.solution,
                    puzzle.row_hints == p0.row_hints,
                    puzzle.col_hints == p0.col_hints,
                    puzzle.cursor == p0.cursor,
                    y < height,
                    x <= width,
                    puzzle.cells().len() == height,
                    forall|yy: int|
                        0 <= yy < height ==> #[trigger] puzzle.cells()[yy].len() == width,
                    forall|yy: int, xx: int|
                        0 <= yy < height && 0 <= xx < width ==> #[trigger] puzzle.cells()[yy][xx]
                            == if yy < y || (yy == y && xx < x) {
                            r1[yy][xx]
                        } else {
                            c0[yy][xx]
                        },
                decreases width - x,
            {
                assert(puzzle.cells()[y as int] == puzzle.state@[y as int]@);
                if puzzle.state[y][x] == CellState::Unknown {
                    set_cell(&mut puzzle.state, y, x, CellState::O);
                }
                x = x + 1;
            }
        }
        y = y + 1;
    }
    assert(filled(r1) =~~= f0);
    let mut x: usize = 0;
    while x < width
        invariant
            p0.wf(),
            c0 == p0.cells(),
            f0 == filled(c0),
            filled(r1) == f0,
            rh == hint_rows(p0.row_hints@),
            ch == hint_rows(p0.col_hints@),
            r1 == rows_filled(c0, rh),
            height == p0.height,
            width == p0.width,
            puzzle.height == p0.height,
            puzzle.width == p0.width,
            puzzle.solution == p0.solution,
            puzzle.row_hints == p0.row_hints,
            puzzle.col_hints == p0.col_hints,
            puzzle.cursor == p0.cursor,
            x <= width,
            puzzle.cells().len() == height,
            forall|yy: int| 0 <= yy < height ==> #[trigger] puzzle.cells()[yy].len() == width,
            forall|yy: int, xx: int|
                0 <= yy < height && 0 <= xx < width ==> #[trigger] puzzle.cells()[yy][xx] == if xx
                    < x {
                    auto_filled(c0, rh, ch)[yy][xx]
                } else {
                    r1[yy][xx]
                },
        decreases width - x,
    {
        proof {
            assert forall|yy: int| 0 <= yy < puzzle.state@.len() implies x
                < #[trigger] puzzle.state@[yy]@.len() by {
                assert(puzzle.cells()[yy] == puzzle.state@[yy]@);
            }
        }
        let col_state = filled_column(&puzzle.state, x);
        assert(col_state@ =~= column(f0, x as int)) by {
            assert forall|yy: int| 0 <= yy < height implies col_state@[yy] == f0[yy][x as int] by {
                assert(filled(puzzle.cells())[yy][x as int] == filled(r1)[yy][x as int]);
            }
        }
        let hints = calculate_hint_for_line(col_state.as_slice());
        assert(ch.len() == width);
        assert(puzzle.col_hints@.len() == width);
        assert(nats(puzzle.col_hints@[x as int]@) == ch[x as int]);
        if same_hints(&hints, &puzzle.col_hints[x]) {
            let mut y: usize = 0;
            while y < height
                invariant
                    p0.wf(),
                    c0 == p0.cells(),
                    f0 == filled(c0),
                    rh == hint_rows(p0.row_hints@),
                    ch == hint_rows(p0.col_hints@),
                    r1 == rows_filled(c0, rh),
                    col_done(c0, ch, x as int),
                    height == p0.height,
                    width == p0.width,
                    puzzle.height == p0.height,
                    puzzle.width == p0.width,
                    puzzle.solution == p0.solution,
                    puzzle.row_hints == p0.row_hints,
                    puzzle.col_hints == p0.col_hints,
                    puzzle.cursor == p0.cursor,
                    x < width,
                    y <= height,
                    puzzle.cells().len() == height,
                    forall|yy: int|
                        0 <= yy < height ==> #[trigger] puzzle.cells()[yy].len() == width,
                    forall|yy: int, xx: int|
                        0 <= yy < height && 0 <= xx < width ==> #[trigger] puzzle.cells()[yy][xx]
                            == if xx < x || (xx == x && yy < y) {
                            auto_filled(c0, rh, ch)[yy][xx]
                        } else {
                            r1[yy][xx]
                        },
                decreases height - y,
            {
                assert(puzzle.cells()[y as int] == puzzle.state@[y as int]@);
                if puzzle.state[y][x] == CellState::Unknown {
                    set_cell(&mut puzzle.state, y, x, CellState::O);
                }
                y = y + 1;
            }
        }
        x = x + 1;
    }
    assert(puzzle.cells() =~~= auto_filled(c0, rh, ch));
}

/// A generated puzzle carries, for each row and each column of its solution,
/// the hint that `calculate_hint_for_line` computes for that line.
pub proof fn lemma_generated_hints(p: Puzzle, width: u32, height: u32)
    requires
        p.fresh(width, height),
    ensures
        p.row_hints@.len() == height,
        p.col_hints@.len() == width,
        forall|y: int| 0 <= y < height ==> #[trigger] nats(p.row_hints@[y]@) == line_hint(p.answer()[y]),
        forall|x: int| 0 <= x < width ==> #[trigger] nats(p.col_hints@[x]@) == line_hint(column(p.answer(), x)),
{
    assert(hint_rows(p.row_hints@).len() == row_hints_of(p.answer()).len());
    assert(hint_rows(p.col_hints@).len() == col_hints_of(p.answer(), width as int).len());
    assert forall|y: int| 0 <= y < height implies #[trigger] nats(p.row_hints@[y]@) == line_hint(p.answer()[y]) by {
        assert(hint_rows(p.row_hints@)[y] == row_hints_of(p.answer())[y]);
    }
    assert forall|x: int| 0 <= x < width implies #[trigger] nats(p.col_hints@[x]@) == line_hint(column(p.answer(), x)) by {
        assert(hint_rows(p.col_hints@)[x] == col_hints_of(p.answer(), width as int)[x]);
    }
}

/// Taking the filled mark off one cell of a solved grid leaves it unsolved.
pub proof fn lemma_unmark_unsolves(cells: Seq<Seq<CellState>>, answer: Seq<Seq<bool>>, y: int, x: int)
    requires
        solved(cells, answer),
        0 <= y < cells.len(),
        0 <= x < cells[y].len(),
        cells[y][x] == CellState::X,
    ensures
        !solved(cells.update(y, cells[y].update(x, CellState::Unknown)), answer),
{
    let c1 = cells.update(y, cells[y].update(x, CellState::Unknown));
    assert(filled(c1)[y][x] != filled(cells)[y][x]);
}

/// Auto-fill never changes which cells are marked filled.
pub proof fn lemma_auto_fill_keeps_filled(cells: Seq<Seq<CellState>>, rh: Seq<Seq<nat>>, ch: Seq<Seq<nat>>)
    ensures
        filled(auto_filled(cells, rh, ch)) == filled(cells),
{
    assert(filled(auto_filled(cells, rh, ch)) =~~= filled(cells));
}

/// Running auto-fill a second time changes nothing.
pub proof fn lemma_auto_fill_idempotent(cells: Seq<Seq<CellState>>, rh: Seq<Seq<nat>>, ch: Seq<Seq<nat>>)
    ensures
        auto_filled(auto_filled(cells, rh, ch), rh, ch) == auto_filled(cells, rh, ch),
{
    let a = auto_filled(cells, rh, ch);
    lemma_auto_fill_keeps_filled(cells, rh, ch);
    assert forall|y: int| 0 <= y < a.len() implies row_done(a, rh, y) == row_done(cells, rh, y) by {}
    assert forall|x: int| col_done(a, ch, x) == col_done(cells, ch, x) by {}
    assert(auto_filled(a, rh, ch) =~~= a);
}

} // verus!
