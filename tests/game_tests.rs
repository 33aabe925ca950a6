use nonogram::game::{Game, Screen};
use nonogram::puzzle::{puzzle_from_solution, CellState};

fn grid(rows: &[&[u8]]) -> Vec<Vec<bool>> {
    rows.iter().map(|r| r.iter().map(|&c| c == 1).collect()).collect()
}

fn playing() -> Game {
    let mut g = Game::new();
    // 1 0 1
    // 0 1 0
    g.puzzle = puzzle_from_solution(grid(&[&[1, 0, 1], &[0, 1, 0]]), 3, 2);
    g.screen = Screen::Puzzle;
    g
}

fn press(g: &mut Game, keys: &str) -> bool {
    let mut quit = false;
    for k in keys.chars() {
        quit = g.handle_key(k);
    }
    quit
}

#[test]
fn new_game_starts_on_menu() {
    let g = Game::new();
    assert_eq!(g.screen, Screen::Menu);
    assert_eq!((g.selected_item, g.grid_size, g.difficulty, g.mistakes), (0, 5, 0, 0));
    assert!(!g.error_flash);
}

#[test]
fn menu_selection_wraps_both_ways() {
    let mut g = Game::new();
    press(&mut g, "k");
    assert_eq!(g.selected_item, 2);
    press(&mut g, "j");
    assert_eq!(g.selected_item, 0);
    press(&mut g, "jj");
    assert_eq!(g.selected_item, 2);
    press(&mut g, "j");
    assert_eq!(g.selected_item, 0);
}

#[test]
fn grid_size_stays_within_bounds() {
    let mut g = Game::new();
    press(&mut g, "j");
    press(&mut g, "hhh");
    assert_eq!(g.grid_size, 5);
    press(&mut g, "lll");
    assert_eq!(g.grid_size, 8);
    press(&mut g, &"l".repeat(20));
    assert_eq!(g.grid_size, 15);
    assert_eq!(g.difficulty, 0);
}

#[test]
fn difficulty_stays_within_bounds() {
    let mut g = Game::new();
    press(&mut g, "jj");
    press(&mut g, "h");
    assert_eq!(g.difficulty, 0);
    press(&mut g, "lllll");
    assert_eq!(g.difficulty, 2);
    press(&mut g, "h");
    assert_eq!(g.difficulty, 1);
    assert_eq!(g.grid_size, 5);
}

#[test]
fn value_keys_do_nothing_on_start_item() {
    let mut g = Game::new();
    press(&mut g, "lh");
    assert_eq!((g.grid_size, g.difficulty), (5, 0));
}

#[test]
fn confirm_starts_game_of_chosen_size() {
    let mut g = Game::new();
    g.mistakes = 2;
    press(&mut g, "jlljj");
    assert_eq!(g.selected_item, 0);
    assert!(!press(&mut g, " "));
    assert_eq!(g.screen, Screen::Puzzle);
    assert_eq!(g.mistakes, 0);
    assert_eq!((g.puzzle.width, g.puzzle.height), (7, 7));
    assert_eq!(g.puzzle.cursor, (0, 0));
}

#[test]
fn confirm_on_setting_does_nothing() {
    let mut g = Game::new();
    press(&mut g, "j ");
    assert_eq!(g.screen, Screen::Menu);
}

#[test]
fn quit_from_menu_ends_session() {
    let mut g = Game::new();
    assert!(press(&mut g, "q"));
    assert!(!press(&mut g, "z"));
}

#[test]
fn cursor_moves_and_is_clamped() {
    let mut g = playing();
    press(&mut g, "h");
    assert_eq!(g.puzzle.cursor, (0, 0));
    press(&mut g, "k");
    assert_eq!(g.puzzle.cursor, (0, 0));
    press(&mut g, "llll");
    assert_eq!(g.puzzle.cursor, (2, 0));
    press(&mut g, "jjj");
    assert_eq!(g.puzzle.cursor, (2, 1));
    press(&mut g, "hk");
    assert_eq!(g.puzzle.cursor, (1, 0));
}

#[test]
fn correct_marks_are_recorded() {
    let mut g = playing();
    press(&mut g, "x");
    assert_eq!(g.puzzle.state[0][0], CellState::X);
    press(&mut g, "lo");
    assert_eq!(g.puzzle.state[0][1], CellState::O);
    assert_eq!(g.mistakes, 0);
    assert_eq!(g.screen, Screen::Puzzle);
}

#[test]
fn wrong_mark_counts_and_flashes() {
    let mut g = playing();
    press(&mut g, "o");
    assert_eq!(g.mistakes, 1);
    assert!(g.error_flash);
    assert_eq!(g.puzzle.state[0][0], CellState::Unknown);
    press(&mut g, "l");
    assert!(!g.error_flash);
    assert_eq!(g.mistakes, 1);
}

#[test]
fn three_mistakes_lose() {
    let mut g = playing();
    press(&mut g, "o");
    press(&mut g, "lx");
    assert_eq!(g.mistakes, 2);
    assert_eq!(g.screen, Screen::Puzzle);
    press(&mut g, "x");
    assert_eq!(g.mistakes, 3);
    assert_eq!(g.screen, Screen::GameOver);
}

#[test]
fn repeated_wrong_mark_on_one_cell_counts_each_time() {
    let mut g = playing();
    press(&mut g, "oo");
    assert_eq!(g.mistakes, 2);
    press(&mut g, "o");
    assert_eq!(g.screen, Screen::GameOver);
}

#[test]
fn game_over_has_no_quit_and_returns_to_menu() {
    let mut g = playing();
    press(&mut g, "ooo");
    assert!(!press(&mut g, "q"));
    assert_eq!(g.screen, Screen::GameOver);
    press(&mut g, " ");
    assert_eq!(g.screen, Screen::Menu);
}

#[test]
fn filling_every_solution_cell_wins() {
    let mut g = playing();
    press(&mut g, "x");
    press(&mut g, "ll");
    press(&mut g, "x");
    assert_eq!(g.screen, Screen::Puzzle);
    press(&mut g, "jh");
    press(&mut g, "x");
    assert_eq!(g.screen, Screen::Win);
    assert_eq!(g.puzzle.state[1][0], CellState::O);
}

#[test]
fn win_screen_confirms_to_menu_or_quits() {
    let mut g = playing();
    g.screen = Screen::Win;
    assert!(!press(&mut g, "x"));
    assert!(press(&mut g, "q"));
    assert_eq!(g.screen, Screen::Win);
    press(&mut g, " ");
    assert_eq!(g.screen, Screen::Menu);
}

#[test]
fn quit_from_play_returns_to_menu() {
    let mut g = playing();
    press(&mut g, "o");
    assert!(!press(&mut g, "q"));
    assert_eq!(g.screen, Screen::Menu);
    assert!(!g.error_flash);
}

#[test]
fn win_is_checked_only_after_filled_mark() {
    let mut g = Game::new();
    // 1 0
    // 0 0
    g.puzzle = puzzle_from_solution(grid(&[&[1, 0], &[0, 0]]), 2, 2);
    g.screen = Screen::Puzzle;
    g.puzzle.state[0][0] = CellState::X;
    press(&mut g, "lo");
    assert_eq!(g.screen, Screen::Puzzle);
}

#[test]
fn random_five_by_five_is_won_by_filling_its_solution() {
    let mut g = Game::new();
    press(&mut g, " ");
    assert_eq!(g.screen, Screen::Puzzle);
    let solution = g.puzzle.solution.clone();
    let any_filled = solution.iter().flatten().any(|&b| b);
    let mut won_at_last = false;
    let cells: Vec<(usize, usize)> = (0..5)
        .flat_map(|y| (0..5).map(move |x| (x, y)))
        .filter(|&(x, y)| solution[y][x])
        .collect();
    for (i, &(x, y)) in cells.iter().enumerate() {
        assert_eq!(g.screen, Screen::Puzzle);
        g.puzzle.cursor = (x as u32, y as u32);
        press(&mut g, "x");
        assert_eq!(g.mistakes, 0);
        if i + 1 == cells.len() {
            won_at_last = g.screen == Screen::Win;
        }
    }
    assert!(won_at_last || !any_filled);
}
