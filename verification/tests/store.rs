use memsther::datastore::user::{
    add_score, decrement_score, get_score, get_scores, increment_score, ScoreBoard, StoreError,
};

fn board_of(scores: &[(u64, u64, i64)]) -> ScoreBoard {
    let mut board = ScoreBoard::new();
    for &(id, guild_id, score) in scores {
        assert_eq!(board.apply_delta(id, guild_id, score), Ok(()));
    }
    board
}

#[test]
fn read_without_deltas_is_zero() {
    let board = ScoreBoard::new();
    assert_eq!(board.read(1, 1), 0);
    assert_eq!(board.read(u64::MAX, 0), 0);
    assert_eq!(get_score(&board, 42, 9), Ok(0));
    let other = board_of(&[(1, 1, 5)]);
    assert_eq!(other.read(1, 2), 0);
    assert_eq!(other.read(2, 1), 0);
}

#[test]
fn first_delta_makes_the_record() {
    let mut board = ScoreBoard::new();
    assert_eq!(board.apply_delta(42, 9, -1), Ok(()));
    assert_eq!(board.read(42, 9), -1);
}

#[test]
fn deltas_add_up() {
    let mut board = ScoreBoard::new();
    let deltas: [i64; 8] = [1, 1, -1, 1, -1, -1, -1, 1];
    for d in deltas {
        assert_eq!(board.apply_delta(42, 9, d), Ok(()));
    }
    assert_eq!(board.read(42, 9), deltas.iter().sum::<i64>());
}

#[test]
fn deltas_in_any_order_give_the_same_scores() {
    let deltas: Vec<(u64, u64, i64)> =
        vec![(1, 1, 1), (2, 1, -1), (1, 1, 1), (1, 2, 1), (2, 1, 1), (1, 1, -1), (3, 1, 1)];
    let mut orders: Vec<Vec<(u64, u64, i64)>> = Vec::new();
    orders.push(deltas.clone());
    let mut reversed = deltas.clone();
    reversed.reverse();
    orders.push(reversed);
    for shift in 1..deltas.len() {
        let mut rotated = deltas.clone();
        rotated.rotate_left(shift);
        orders.push(rotated);
    }
    for order in orders {
        let board = board_of(&order);
        assert_eq!(board.read(1, 1), 1);
        assert_eq!(board.read(2, 1), 0);
        assert_eq!(board.read(1, 2), 1);
        assert_eq!(board.read(3, 1), 1);
        assert_eq!(board.read(3, 2), 0);
    }
}

#[test]
fn scores_are_kept_apart_by_user_and_community() {
    let board = board_of(&[(1, 1, 5), (1, 2, -3), (2, 1, 7)]);
    assert_eq!(board.read(1, 1), 5);
    assert_eq!(board.read(1, 2), -3);
    assert_eq!(board.read(2, 1), 7);
    assert_eq!(board.read(2, 2), 0);
}

#[test]
fn a_score_that_does_not_fit_is_refused() {
    let mut board = board_of(&[(1, 1, i64::MAX), (2, 1, i64::MIN)]);
    assert_eq!(board.apply_delta(1, 1, 1), Err(StoreError::OutOfRange));
    assert_eq!(board.read(1, 1), i64::MAX);
    assert_eq!(increment_score(&mut board, 1, 1), Err(StoreError::OutOfRange));
    assert_eq!(decrement_score(&mut board, 2, 1), Err(StoreError::OutOfRange));
    assert_eq!(board.read(2, 1), i64::MIN);
    assert_eq!(board.apply_delta(1, 1, -1), Ok(()));
    assert_eq!(board.read(1, 1), i64::MAX - 1);
}

#[test]
fn increment_and_decrement_move_by_one() {
    let mut board = ScoreBoard::new();
    assert_eq!(increment_score(&mut board, 42, 9), Ok(()));
    assert_eq!(get_score(&board, 42, 9), Ok(1));
    assert_eq!(increment_score(&mut board, 42, 9), Ok(()));
    assert_eq!(get_score(&board, 42, 9), Ok(2));
    assert_eq!(decrement_score(&mut board, 42, 9), Ok(()));
    assert_eq!(get_score(&board, 42, 9), Ok(1));
    assert_eq!(decrement_score(&mut board, 7, 9), Ok(()));
    assert_eq!(get_score(&board, 7, 9), Ok(-1));
}

#[test]
fn add_score_adds_a_small_amount() {
    let mut board = ScoreBoard::new();
    assert_eq!(add_score(&mut board, 1, 1, 127), Ok(()));
    assert_eq!(add_score(&mut board, 1, 1, -128), Ok(()));
    assert_eq!(get_score(&board, 1, 1), Ok(-1));
}

#[test]
fn leaderboard_of_five_users_cut_at_three() {
    let guild = 1;
    let (a, b, c, d, e) = (11, 12, 13, 14, 15);
    let mut board = board_of(&[(a, guild, 5), (b, guild, 5), (c, guild, 3), (e, guild, -2)]);
    assert_eq!(board.apply_delta(d, guild, 1), Ok(()));
    assert_eq!(board.apply_delta(d, guild, -1), Ok(()));
    let top = board.top_n(guild, 3);
    assert_eq!(top.len(), 3);
    assert_eq!(top, vec![(a, 5), (b, 5), (c, 3)]);
    let all = get_scores(&board, guild, 20).unwrap();
    assert_eq!(all, vec![(a, 5), (b, 5), (c, 3)]);
    assert!(!all.iter().any(|entry| entry.0 == d || entry.0 == e));
}

#[test]
fn leaderboard_breaks_ties_by_user() {
    let board = board_of(&[(30, 1, 2), (10, 1, 2), (20, 1, 2), (5, 1, 1), (40, 1, 9)]);
    assert_eq!(board.top_n(1, 10), vec![(40, 9), (10, 2), (20, 2), (30, 2), (5, 1)]);
    assert_eq!(board.top_n(1, 2), vec![(40, 9), (10, 2)]);
}

#[test]
fn leaderboard_is_of_one_community() {
    let board = board_of(&[(1, 1, 3), (2, 2, 8), (3, 1, 4), (1, 2, 1)]);
    assert_eq!(board.top_n(1, 5), vec![(3, 4), (1, 3)]);
    assert_eq!(board.top_n(2, 5), vec![(2, 8), (1, 1)]);
    assert_eq!(board.top_n(3, 5), Vec::<(u64, i64)>::new());
}

#[test]
fn leaderboard_with_no_room_or_no_scores_is_empty() {
    let board = board_of(&[(1, 1, 3)]);
    assert_eq!(board.top_n(1, 0), Vec::<(u64, i64)>::new());
    assert_eq!(ScoreBoard::new().top_n(1, 3), Vec::<(u64, i64)>::new());
    assert_eq!(board_of(&[(1, 1, 0), (2, 1, -1)]).top_n(1, 3), Vec::<(u64, i64)>::new());
}

#[test]
fn leaderboard_does_not_depend_on_the_order_of_the_deltas() {
    let one = board_of(&[(1, 1, 2), (2, 1, 5), (3, 1, 5), (4, 1, 1)]);
    let other = board_of(&[(4, 1, 1), (3, 1, 5), (2, 1, 3), (1, 1, 2), (2, 1, 2)]);
    assert_eq!(one.top_n(1, 3), other.top_n(1, 3));
    assert_eq!(one.top_n(1, 3), vec![(2, 5), (3, 5), (1, 2)]);
}
