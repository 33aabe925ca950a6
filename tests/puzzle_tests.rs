use nonogram::puzzle::{
    calculate_hint_for_line, calculate_hints, check_and_fill_solved, create_puzzle, is_solved,
    puzzle_from_solution, CellState, Puzzle,
};

fn grid(rows: &[&[u8]]) -> Vec<Vec<bool>> {
    rows.iter().map(|r| r.iter().map(|&c| c == 1).collect()).collect()
}

fn sample() -> Puzzle {
    // 1 1 0
    // 0 0 0
    // 1 0 1
    puzzle_from_solution(grid(&[&[1, 1, 0], &[0, 0, 0], &[1, 0, 1]]), 3, 3)
}

#[test]
fn hint_of_empty_line_is_zero() {
    assert_eq!(calculate_hint_for_line(&[]), vec![0]);
}

#[test]
fn hint_of_blank_line_is_zero() {
    assert_eq!(calculate_hint_for_line(&[false, false]), vec![0]);
}

#[test]
fn hint_lists_runs_in_order() {
    assert_eq!(calculate_hint_for_line(&[true, false, true, true]), vec![1, 2]);
}

#[test]
fn hint_of_full_line_is_its_length() {
    assert_eq!(calculate_hint_for_line(&[true; 7]), vec![7]);
}

#[test]
fn hint_with_trailing_run_and_gaps() {
    assert_eq!(
        calculate_hint_for_line(&[false, true, true, false, false, true, false, true, true, true]),
        vec![2, 1, 3]
    );
}

#[test]
fn hints_of_grid_rows_and_columns() {
    let (rows, cols) = calculate_hints(&grid(&[&[1, 1, 0], &[0, 0, 0], &[1, 0, 1]]));
    assert_eq!(rows, vec![vec![2], vec![0], vec![1, 1]]);
    assert_eq!(cols, vec![vec![1, 1], vec![1], vec![1]]);
}

#[test]
fn hints_of_grid_without_rows_are_empty() {
    let (rows, cols) = calculate_hints(&vec![]);
    assert!(rows.is_empty());
    assert!(cols.is_empty());
}

#[test]
fn hints_of_grid_without_columns_are_empty() {
    let (rows, cols) = calculate_hints(&vec![vec![], vec![]]);
    assert!(rows.is_empty());
    assert!(cols.is_empty());
}

#[test]
fn fresh_puzzle_from_solution() {
    let p = sample();
    assert_eq!((p.width, p.height), (3, 3));
    assert_eq!(p.cursor, (0, 0));
    assert!(p.state.iter().all(|r| r.len() == 3 && r.iter().all(|&c| c == CellState::Unknown)));
    assert_eq!(p.row_hints, vec![vec![2], vec![0], vec![1, 1]]);
    assert_eq!(p.col_hints, vec![vec![1, 1], vec![1], vec![1]]);
}

#[test]
fn generated_puzzle_hints_match_solution() {
    for size in [5u32, 8, 15] {
        let p = create_puzzle(size, size);
        assert_eq!(p.solution.len(), size as usize);
        for y in 0..size as usize {
            assert_eq!(p.solution[y].len(), size as usize);
            assert_eq!(p.row_hints[y], calculate_hint_for_line(&p.solution[y]));
        }
        for x in 0..size as usize {
            let col: Vec<bool> = p.solution.iter().map(|r| r[x]).collect();
            assert_eq!(p.col_hints[x], calculate_hint_for_line(&col));
        }
        assert!(p.state.iter().flatten().all(|&c| c == CellState::Unknown));
    }
}

#[test]
fn generated_puzzle_is_not_constant() {
    // 400 cells drawn at random: all equal has probability 2^-399
    let p = create_puzzle(20, 20);
    let trues = p.solution.iter().flatten().filter(|&&b| b).count();
    assert!(trues > 0 && trues < 400);
}

#[test]
fn unmarked_puzzle_is_not_solved() {
    assert!(!is_solved(&sample()));
}

#[test]
fn solved_when_filled_marks_match_solution() {
    let mut p = sample();
    for (y, row) in p.solution.clone().iter().enumerate() {
        for (x, &b) in row.iter().enumerate() {
            if b {
                p.state[y][x] = CellState::X;
            }
        }
    }
    assert!(is_solved(&p));
    p.state[1][1] = CellState::O;
    assert!(is_solved(&p));
    p.state[2][2] = CellState::Unknown;
    assert!(!is_solved(&p));
}

#[test]
fn extra_filled_mark_is_not_solved() {
    let mut p = sample();
    p.state[0][0] = CellState::X;
    p.state[0][1] = CellState::X;
    p.state[2][0] = CellState::X;
    p.state[2][2] = CellState::X;
    assert!(is_solved(&p));
    p.state[1][0] = CellState::X;
    assert!(!is_solved(&p));
}

#[test]
fn auto_fill_marks_explained_lines_empty() {
    let mut p = sample();
    p.state[0][0] = CellState::X;
    p.state[0][1] = CellState::X;
    check_and_fill_solved(&mut p);
    let (u, o, x) = (CellState::Unknown, CellState::O, CellState::X);
    // row 0 and the blank row 1 are explained; column 1 ([1]) is explained by (0,1)
    assert_eq!(p.state, vec![vec![x, x, o], vec![o, o, o], vec![u, o, u]]);
}

#[test]
fn auto_fill_twice_equals_once() {
    let mut p = sample();
    p.state[2][0] = CellState::X;
    p.state[0][1] = CellState::X;
    check_and_fill_solved(&mut p);
    let once = p.state.clone();
    check_and_fill_solved(&mut p);
    assert_eq!(p.state, once);
}

#[test]
fn auto_fill_keeps_existing_marks() {
    let mut p = sample();
    p.state[1][2] = CellState::X;
    check_and_fill_solved(&mut p);
    // row 1 has hint [0] but a filled mark, so it is not explained; column 2 is
    assert_eq!(p.state[1], vec![CellState::Unknown, CellState::Unknown, CellState::X]);
    assert_eq!(p.state[0][2], CellState::O);
    assert_eq!(p.state[2][2], CellState::O);
}
