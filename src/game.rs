use crate::puzzle::{
    auto_filled, check_and_fill_solved, create_puzzle, hint_rows, is_solved, set_cell, solved,
    CellState, Puzzle,
};
use vstd::prelude::*;

verus! {

/// The screen the session shows.
#[derive(Clone, Copy, PartialEq, Eq, Structural, Debug)]
pub enum Screen {
    Menu,
    Puzzle,
    Win,
    GameOver,
}

/// Mistakes that end a game.
pub const MAX_MISTAKES: u32 = 3;

/// Smallest and largest grid size the menu offers.
pub const MIN_GRID: u32 = 5;

pub const MAX_GRID: u32 = 15;

/// Largest difficulty level.
pub const MAX_DIFFICULTY: u32 = 2;

/// Number of menu items: start, grid size, difficulty.
pub const MENU_ITEMS: usize = 3;

/// A play session: the screen, the menu's settings and the puzzle in play.
pub struct Game {
    pub screen: Screen,
    pub puzzle: Puzzle,
    pub selected_item: usize,
    pub grid_size: u32,
    pub difficulty: u32,
    pub error_flash: bool,
    pub mistakes: u32,
}

/// Where the cursor goes on a movement key: one cell west (`h`), south (`j`),
/// north (`k`) or east (`l`), and nowhere past the grid's edge.
pub open spec fn moved(p: Puzzle, key: char) -> (u32, u32) {
    let (x, y) = p.cursor;
    if key == 'h' {
        if x > 0 { ((x - 1) as u32, y) } else { (x, y) }
    } else if key == 'j' {
        if y + 1 < p.height { (x, (y + 1) as u32) } else { (x, y) }
    } else if key == 'k' {
        if y > 0 { (x, (y - 1) as u32) } else { (x, y) }
    } else if key == 'l' {
        if x + 1 < p.width { ((x + 1) as u32, y) } else { (x, y) }
    } else {
        (x, y)
    }
}

/// The cells after marking the cursor's cell with `c`.
pub open spec fn marked_at_cursor(p: Puzzle, c: CellState) -> Seq<Seq<CellState>> {
    let (x, y) = p.cursor;
    p.cells().update(y as int, p.cells()[y as int].update(x as int, c))
}

/// The solution value under the cursor.
pub open spec fn under_cursor(p: Puzzle) -> bool {
    p.answer()[p.cursor.1 as int][p.cursor.0 as int]
}

/// `p1` is `p0` with other marks.
pub open spec fn remarked(p0: Puzzle, p1: Puzzle) -> bool {
    p1 == Puzzle { state: p1.state, ..p0 }
}

/// A wrong mark: counted, flashed, and fatal at the third.
pub open spec fn mistake(g0: Game, g1: Game) -> bool {
    g1 == Game {
        error_flash: true,
        mistakes: (g0.mistakes + 1) as u32,
        screen: if g0.mistakes + 1 >= MAX_MISTAKES { Screen::GameOver } else { Screen::Puzzle },
        ..g0
    }
}

/// A key on the menu.
pub open spec fn menu_step(g0: Game, g1: Game, key: char, quit: bool) -> bool {
    let sel = g0.selected_item;
    if key == 'q' {
        quit && g1 == g0
    } else if key == ' ' {
        !quit && if sel == 0 {
            g1.puzzle.fresh(g0.grid_size, g0.grid_size) && g1 == Game {
                screen: Screen::Puzzle,
                mistakes: 0,
                puzzle: g1.puzzle,
                ..g0
            }
        } else {
            g1 == g0
        }
    } else if key == 'j' {
        !quit && g1 == Game { selected_item: ((sel + 1) % MENU_ITEMS as int) as usize, ..g0 }
    } else if key == 'k' {
        !quit && g1 == Game {
            selected_item: if sel == 0 { (MENU_ITEMS - 1) as usize } else { (sel - 1) as usize },
            ..g0
        }
    } else if key == 'h' {
        !quit && g1 == Game {
            grid_size: if sel == 1 && g0.grid_size > MIN_GRID {
                (g0.grid_size - 1) as u32
            } else {
                g0.grid_size
            },
            difficulty: if sel == 2 && g0.difficulty > 0 {
                (g0.difficulty - 1) as u32
            } else {
                g0.difficulty
            },
            ..g0
        }
    } else if key == 'l' {
        !quit && g1 == Game {
            grid_size: if sel == 1 && g0.grid_size < MAX_GRID {
                (g0.grid_size + 1) as u32
            } else {
                g0.grid_size
            },
            difficulty: if sel == 2 && g0.difficulty < MAX_DIFFICULTY {
                (g0.difficulty + 1) as u32
            } else {
                g0.difficulty
            },
            ..g0
        }
    } else {
        !quit && g1 == g0
    }
}

/// A key while a puzzle is in play. The error flash of the previous key is cleared first.
pub open spec fn play_step(g0: Game, g1: Game, key: char, quit: bool) -> bool {
    let g = Game { error_flash: false, ..g0 };
    let p = g0.puzzle;
    !quit && if key == 'q' {
        g1 == Game { screen: Screen::Menu, ..g }
    } else if key == 'h' || key == 'j' || key == 'k' || key == 'l' {
        g1 == Game { puzzle: Puzzle { cursor: moved(p, key), ..p }, ..g }
    } else if key == 'x' {
        if under_cursor(p) {
            &&& remarked(p, g1.puzzle)
            &&& g1.puzzle.cells() == auto_filled(
                marked_at_cursor(p, CellState::X),
                hint_rows(p.row_hints@),
                hint_rows(p.col_hints@),
            )
            &&& g1 == Game {
                puzzle: g1.puzzle,
                screen: if solved(g1.puzzle.cells(), p.answer()) {
                    Screen::Win
                } else {
                    Screen::Puzzle
                },
                ..g
            }
        } else {
            mistake(g, g1)
        }
    } else if key == 'o' {
        if !under_cursor(p) {
            &&& remarked(p, g1.puzzle)
            &&& g1.puzzle.cells() == marked_at_cursor(p, CellState::O)
            &&& g1 == Game { puzzle: g1.puzzle, ..g }
        } else {
            mistake(g, g1)
        }
    } else {
        g1 == g
    }
}

/// A key on the win screen.
pub open spec fn win_step(g0: Game, g1: Game, key: char, quit: bool) -> bool {
    if key == 'q' {
        quit && g1 == g0
    } else if key == ' ' {
        !quit && g1 == Game { screen: Screen::Menu, ..g0 }
    } else {
        !quit && g1 == g0
    }
}

/// A key on the game-over screen, which cannot quit.
pub open spec fn over_step(g0: Game, g1: Game, key: char, quit: bool) -> bool {
    !quit && if key == ' ' {
        g1 == Game { screen: Screen::Menu, ..g0 }
    } else {
        g1 == g0
    }
}

/// What one key does to the session, by the screen it arrives on.
pub open spec fn step(g0: Game, g1: Game, key: char, quit: bool) -> bool {
    match g0.screen {
        Screen::Menu => menu_step(g0, g1, key, quit),
        Screen::Puzzle => play_step(g0, g1, key, quit),
        Screen::Win => win_step(g0, g1, key, quit),
        Screen::GameOver => over_step(g0, g1, key, quit),
    }
}

impl Game {
    /// The settings stay within their bounds, the puzzle is well formed,
    /// and a game in play has fewer than three mistakes.
    pub open spec fn wf(&self) -> bool {
        &&& self.puzzle.wf()
        &&& self.selected_item < MENU_ITEMS
        &&& MIN_GRID <= self.grid_size <= MAX_GRID
        &&& self.difficulty <= MAX_DIFFICULTY
        &&& self.mistakes <= MAX_MISTAKES
        &&& self.screen == Screen::Puzzle ==> self.mistakes < MAX_MISTAKES
    }

    /// A session on the menu with the default settings.
    pub fn new() -> (r: Game)
        ensures
            r.wf(),
            r.screen == Screen::Menu,
            r.selected_item == 0,
            r.grid_size == MIN_GRID,
            r.difficulty == 0,
            !r.error_flash,
            r.mistakes == 0,
            r.puzzle.fresh(MIN_GRID, MIN_GRID),
    {
        Game {
            screen: Screen::Menu,
            puzzle: create_puzzle(MIN_GRID, MIN_GRID),
            selected_item: 0,
            grid_size: MIN_GRID,
            difficulty: 0,
            error_flash: false,
            mistakes: 0,
        }
    }

    fn record_mistake(&mut self)
        requires
            old(self).wf(),
            old(self).screen == Screen::Puzzle,
        ensures
            final(self).wf(),
            mistake(*old(self), *final(self)),
    {
        self.error_flash = true;
        self.mistakes = self.mistakes + 1;
        if self.mistakes >= MAX_MISTAKES {
            self.screen = Screen::GameOver;
        }
    }

    fn menu_key(&mut self, key: char) -> (quit: bool)
        requires
            old(self).wf(),
            old(self).screen == Screen::Menu,
        ensures
            final(self).wf(),
            menu_step(*old(self), *final(self), key, quit),
    {
        if key == 'q' {
            return true;
        } else if key == ' ' {
            if self.selected_item == 0 {
                self.puzzle = create_puzzle(self.grid_size, self.grid_size);
                self.screen = Screen::Puzzle;
                self.mistakes = 0;
            }
        } else if key == 'j' {
            self.selected_item = (self.selected_item + 1) % MENU_ITEMS;
        } else if key == 'k' {
            self.selected_item = if self.selected_item == 0 {
                MENU_ITEMS - 1
            } else {
                self.selected_item - 1
            };
        } else if key == 'h' {
            if self.selected_item == 1 {
                if self.grid_size > MIN_GRID {
                    self.grid_size = self.grid_size - 1;
                }
            } else if self.selected_item == 2 {
                if self.difficulty > 0 {
                    self.difficulty = self.difficulty - 1;
                }
            }
        } else if key == 'l' {
            if self.selected_item == 1 {
                if self.grid_size < MAX_GRID {
                    self.grid_size = self.grid_size + 1;
                }
            } else if self.selected_item == 2 {
                if self.difficulty < MAX_DIFFICULTY {
                    self.difficulty = self.difficulty + 1;
                }
            }
        }
        false
    }

    fn play_key(&mut self, key: char) -> (quit: bool)
        requires
            old(self).wf(),
            old(self).screen == Screen::Puzzle,
        ensures
            final(self).wf(),
            play_step(*old(self), *final(self), key, quit),
    {
        self.error_flash = false;
        let (x, y) = self.puzzle.cursor;
        if key == 'q' {
            self.screen = Screen::Menu;
        } else if key == 'h' {
            if x > 0 {
                self.puzzle.cursor = (x - 1, y);
            }
        } else if key == 'j' {
            if y + 1 < self.puzzle.height {
                self.puzzle.cursor = (x, y + 1);
            }
        } else if key == 'k' {
            if y > 0 {
                self.puzzle.cursor = (x, y - 1);
            }
        } else if key == 'l' {
            if x + 1 < self.puzzle.width {
                self.puzzle.cursor = (x + 1, y);
            }
        } else if key == 'x' {
            assert(self.puzzle.answer()[y as int] == self.puzzle.solution@[y as int]@);
            assert(self.puzzle.cells()[y as int] == self.puzzle.state@[y as int]@);
            if self.puzzle.solution[y as usize][x as usize] {
                set_cell(&mut self.puzzle.state, y as usize, x as usize, CellState::X);
                check_and_fill_solved(&mut self.puzzle);
                if is_solved(&self.puzzle) {
                    self.screen = Screen::Win;
                }
            } else {
                self.record_mistake();
            }
        } else if key == 'o' {
            assert(self.puzzle.answer()[y as int] == self.puzzle.solution@[y as int]@);
            assert(self.puzzle.cells()[y as int] == self.puzzle.state@[y as int]@);
            if !self.puzzle.solution[y as usize][x as usize] {
                set_cell(&mut self.puzzle.state, y as usize, x as usize, CellState::O);
            } else {
                self.record_mistake();
            }
        }
        false
    }

    /// Handles one key press on the current screen; returns whether the session ends.
    pub fn handle_key(&mut self, key: char) -> (quit: bool)
        requires
            old(self).wf(),
        ensures
            final(self).wf(),
            step(*old(self), *final(self), key, quit),
    {
        match self.screen {
            Screen::Menu => self.menu_key(key),
            Screen::Puzzle => self.play_key(key),
            Screen::Win => {
                if key == 'q' {
                    true
                } else {
                    if key == ' ' {
                        self.screen = Screen::Menu;
                    }
                    false
                }
            },
            Screen::GameOver => {
                if key == ' ' {
                    self.screen = Screen::Menu;
                }
                false
            },
        }
    }
}

/// A mark that the solution contradicts.
pub open spec fn wrong_mark(g: Game, key: char) -> bool {
    (key == 'x' && !under_cursor(g.puzzle)) || (key == 'o' && under_cursor(g.puzzle))
}

/// Three wrong marks in a row, from a game without mistakes, end it;
/// after the first and the second the game is still in play.
pub proof fn lemma_three_mistakes_lose(
    g0: Game,
    g1: Game,
    g2: Game,
    g3: Game,
    k1: char,
    k2: char,
    k3: char,
    q1: bool,
    q2: bool,
    q3: bool,
)
    requires
        g0.screen == Screen::Puzzle,
        g0.mistakes == 0,
        wrong_mark(g0, k1),
        step(g0, g1, k1, q1),
        wrong_mark(g1, k2),
        step(g1, g2, k2, q2),
        wrong_mark(g2, k3),
        step(g2, g3, k3, q3),
    ensures
        g1.screen == Screen::Puzzle,
        g2.screen == Screen::Puzzle,
        g3.screen == Screen::GameOver,
        g3.mistakes == MAX_MISTAKES,
{
}

/// The menu keeps the grid size within its bounds and the difficulty at most its largest level,
/// whatever keys arrive; pushing a setting past its bound leaves it where it is.
pub proof fn lemma_settings_bounded(g0: Game, g1: Game, key: char, quit: bool)
    requires
        g0.wf(),
        step(g0, g1, key, quit),
    ensures
        MIN_GRID <= g1.grid_size <= MAX_GRID,
        g1.difficulty <= MAX_DIFFICULTY,
        g0.screen == Screen::Menu && g0.grid_size == MIN_GRID && key == 'h' ==> g1.grid_size
            == MIN_GRID,
        g0.screen == Screen::Menu && g0.grid_size == MAX_GRID && key == 'l' ==> g1.grid_size
            == MAX_GRID,
        g0.screen == Screen::Menu && g0.difficulty == 0 && key == 'h' ==> g1.difficulty == 0,
        g0.screen == Screen::Menu && g0.difficulty == MAX_DIFFICULTY && key == 'l'
            ==> g1.difficulty == MAX_DIFFICULTY,
{
}

/// A move toward an edge that the cursor already stands on leaves the cursor where it is.
pub proof fn lemma_cursor_clamped(g0: Game, g1: Game, key: char, quit: bool)
    requires
        g0.screen == Screen::Puzzle,
        step(g0, g1, key, quit),
        (key == 'h' && g0.puzzle.cursor.0 == 0) || (key == 'l' && g0.puzzle.cursor.0 + 1
            == g0.puzzle.width) || (key == 'k' && g0.puzzle.cursor.1 == 0) || (key == 'j'
            && g0.puzzle.cursor.1 + 1 == g0.puzzle.height),
    ensures
        g1.puzzle.cursor == g0.puzzle.cursor,
{
}

} // verus!
