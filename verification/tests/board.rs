use tic_tac_toe::{Board, IllegalMove, Mark, Outcome};

#[test]
fn empty_board_is_in_progress() {
    let b = Board::new();
    assert_eq!(b.evaluate(), Outcome::InProgress);
    assert_eq!(b.move_count(), 0);
    assert!(!b.is_finished());
    for x in 0..3 {
        for y in 0..3 {
            assert_eq!(b.cell(x, y), Mark::Empty);
        }
    }
}

#[test]
fn first_column_win_reports_player_a() {
    let mut b = Board::new();
    assert_eq!(b.place_mark(0, 0), Ok((Mark::PlayerA, 1)));
    assert_eq!(b.place_mark(0, 1), Ok((Mark::PlayerB, 2)));
    assert_eq!(b.place_mark(1, 0), Ok((Mark::PlayerA, 3)));
    assert_eq!(b.place_mark(1, 1), Ok((Mark::PlayerB, 4)));
    assert_eq!(b.place_mark(2, 0), Ok((Mark::PlayerA, 5)));
    assert_eq!(b.evaluate(), Outcome::Won(Mark::PlayerA));
    assert_eq!(b.winner(), Mark::PlayerA);
}

#[test]
fn drawn_game_reports_draw() {
    let mut b = Board::new();
    // A takes (0,0), (0,2), (1,0), (2,1), (2,2); B takes the rest.
    // The final grid is
    //     A B A
    //     A B B
    //     B A A
    // and completes no row, column or diagonal.
    let order = [
        (0, 0),
        (0, 1),
        (0, 2),
        (1, 1),
        (1, 0),
        (1, 2),
        (2, 1),
        (2, 0),
        (2, 2),
    ];
    for (k, (x, y)) in order.iter().enumerate() {
        let r = b.place_mark(*x, *y);
        assert!(r.is_ok());
        assert_eq!(r.unwrap().1, k + 1);
    }
    assert_eq!(b.move_count(), 9);
    assert_eq!(b.evaluate(), Outcome::Draw);
    assert_eq!(b.winner(), Mark::Empty);
}

#[test]
fn occupied_cell_is_rejected_and_counter_keeps() {
    let mut b = Board::new();
    assert_eq!(b.place_mark(0, 0), Ok((Mark::PlayerA, 1)));
    assert_eq!(b.place_mark(0, 0), Err(IllegalMove));
    assert_eq!(b.move_count(), 1);
    assert_eq!(b.cell(0, 0), Mark::PlayerA);
    assert!(!b.is_finished());
}

#[test]
fn finished_game_rejects_until_reset() {
    let mut b = Board::new();
    b.place_mark(0, 0).unwrap();
    b.place_mark(0, 1).unwrap();
    b.place_mark(1, 0).unwrap();
    b.place_mark(1, 1).unwrap();
    b.place_mark(2, 0).unwrap();
    assert_eq!(b.check_board(), Outcome::Won(Mark::PlayerA));
    assert!(b.is_finished());
    // (2, 2) is empty, but the finished flag rejects every placement.
    assert_eq!(b.cell(2, 2), Mark::Empty);
    assert_eq!(b.place_mark(2, 2), Err(IllegalMove));
    assert_eq!(b.move_count(), 5);
    b.reset();
    assert!(!b.is_finished());
    assert_eq!(b.move_count(), 0);
    assert_eq!(b.place_mark(2, 2), Ok((Mark::PlayerA, 1)));
}

#[test]
fn reset_clears_any_prior_state() {
    let mut b = Board::new();
    b.place_mark(1, 1).unwrap();
    b.place_mark(0, 2).unwrap();
    b.place_mark(2, 0).unwrap();
    b.reset();
    assert_eq!(b.move_count(), 0);
    assert!(!b.is_finished());
    for x in 0..3 {
        for y in 0..3 {
            assert_eq!(b.cell(x, y), Mark::Empty);
        }
    }
    assert_eq!(b.evaluate(), Outcome::InProgress);
}

#[test]
fn marks_alternate_starting_with_player_a() {
    let mut b = Board::new();
    let cells = [(0, 0), (0, 1), (0, 2), (1, 1), (1, 0), (2, 2)];
    for (k, (x, y)) in cells.iter().enumerate() {
        let (m, n) = b.place_mark(*x, *y).unwrap();
        let move_number = k + 1;
        if move_number % 2 == 1 {
            assert_eq!(m, Mark::PlayerA);
        } else {
            assert_eq!(m, Mark::PlayerB);
        }
        assert_eq!(n, move_number);
    }
}

#[test]
fn counter_matches_accepted_placements_and_occupied_cells() {
    let mut b = Board::new();
    let attempts = [(0, 0), (0, 0), (1, 1), (1, 1), (2, 2), (0, 0)];
    let mut accepted = 0;
    for (x, y) in attempts.iter() {
        if b.place_mark(*x, *y).is_ok() {
            accepted += 1;
        }
    }
    assert_eq!(accepted, 3);
    assert_eq!(b.move_count(), accepted);
    let mut occupied = 0;
    for x in 0..3 {
        for y in 0..3 {
            if b.cell(x, y) != Mark::Empty {
                occupied += 1;
            }
        }
    }
    assert_eq!(occupied, accepted);
}

#[test]
fn evaluate_is_idempotent_and_mutates_nothing() {
    let mut b = Board::new();
    b.place_mark(0, 0).unwrap();
    b.place_mark(1, 1).unwrap();
    let first = b.evaluate();
    let second = b.evaluate();
    assert_eq!(first, second);
    assert_eq!(first, Outcome::InProgress);
    assert_eq!(b.move_count(), 2);
    assert_eq!(b.cell(0, 0), Mark::PlayerA);
    assert_eq!(b.cell(1, 1), Mark::PlayerB);
    assert!(!b.is_finished());
}

#[test]
fn row_win_is_detected() {
    let mut b = Board::new();
    // A fills row x = 1; B scatters elsewhere.
    b.place_mark(1, 0).unwrap();
    b.place_mark(0, 0).unwrap();
    b.place_mark(1, 1).unwrap();
    b.place_mark(0, 1).unwrap();
    b.place_mark(1, 2).unwrap();
    assert_eq!(b.evaluate(), Outcome::Won(Mark::PlayerA));
}

#[test]
fn diagonal_win_is_detected_for_player_b() {
    let mut b = Board::new();
    // B takes the main diagonal while A wastes moves.
    b.place_mark(0, 1).unwrap();
    b.place_mark(0, 0).unwrap();
    b.place_mark(0, 2).unwrap();
    b.place_mark(1, 1).unwrap();
    b.place_mark(2, 1).unwrap();
    b.place_mark(2, 2).unwrap();
    assert_eq!(b.evaluate(), Outcome::Won(Mark::PlayerB));
    assert_eq!(b.winner(), Mark::PlayerB);
}

#[test]
fn anti_diagonal_win_is_detected() {
    let mut b = Board::new();
    // A takes (0,2), (1,1), (2,0).
    b.place_mark(0, 2).unwrap();
    b.place_mark(0, 0).unwrap();
    b.place_mark(1, 1).unwrap();
    b.place_mark(0, 1).unwrap();
    b.place_mark(2, 0).unwrap();
    assert_eq!(b.evaluate(), Outcome::Won(Mark::PlayerA));
}

#[test]
fn draw_sets_finished_through_check_board() {
    let mut b = Board::new();
    let order = [
        (0, 0),
        (0, 1),
        (0, 2),
        (1, 1),
        (1, 0),
        (1, 2),
        (2, 1),
        (2, 0),
        (2, 2),
    ];
    for (x, y) in order.iter() {
        b.place_mark(*x, *y).unwrap();
        if b.check_board() != Outcome::InProgress {
            break;
        }
    }
    assert_eq!(b.move_count(), 9);
    assert!(b.is_finished());
    assert_eq!(b.evaluate(), Outcome::Draw);
}

#[test]
fn check_board_keeps_an_open_game_open() {
    let mut b = Board::new();
    b.place_mark(0, 0).unwrap();
    assert_eq!(b.check_board(), Outcome::InProgress);
    assert!(!b.is_finished());
    assert_eq!(b.move_count(), 1);
}

#[test]
fn active_mark_tracks_the_turn() {
    let mut b = Board::new();
    assert_eq!(b.active_mark(), Mark::PlayerA);
    b.place_mark(0, 0).unwrap();
    assert_eq!(b.active_mark(), Mark::PlayerB);
    b.place_mark(1, 1).unwrap();
    assert_eq!(b.active_mark(), Mark::PlayerA);
    // A rejected move does not change the turn.
    assert!(b.place_mark(0, 0).is_err());
    assert_eq!(b.active_mark(), Mark::PlayerA);
}

#[test]
fn default_board_matches_new() {
    let b: Board = Default::default();
    assert_eq!(b.move_count(), 0);
    assert!(!b.is_finished());
    assert_eq!(b.evaluate(), Outcome::InProgress);
}
