use connect4::game::{Connect4, DropError, Player, EMPTY};

fn occupied_cells(g: &Connect4) -> u32 {
    let mut n: u32 = 0;
    for c in 0..7u8 {
        for r in 0..6u8 {
            if g.board.get(c, r) != EMPTY {
                n += 1;
            }
        }
    }
    n
}

#[test]
fn fresh_game_is_empty_and_red_moves() {
    let g = Connect4::default();
    assert_eq!(g.current_player, Player::RED);
    assert_eq!(occupied_cells(&g), 0);
    for c in 0..7u8 {
        for r in 0..6u8 {
            assert_eq!(g.board.get(c, r), EMPTY);
        }
    }
}

#[test]
fn alternation() {
    let mut g = Connect4::default();
    assert_eq!(g.current_player, Player::RED);
    g.add(3).unwrap();
    assert_eq!(g.current_player, Player::YELLOW);
    g.add(3).unwrap();
    assert_eq!(g.current_player, Player::RED);
    // a failed drop leaves the player unchanged
    assert_eq!(g.add(7), Err(DropError::OutOfRange));
    assert_eq!(g.current_player, Player::RED);
}

#[test]
fn conservation() {
    let mut g = Connect4::default();
    let mut successes: u32 = 0;
    for col in [0u8, 1, 0, 2, 2, 6, 0, 0, 0, 0] {
        if g.add(col).is_ok() {
            successes += 1;
        }
        assert_eq!(occupied_cells(&g), successes);
    }
    // column 0 is now full: a failed drop adds nothing
    assert_eq!(g.add(0), Err(DropError::ColumnFull));
    assert_eq!(occupied_cells(&g), successes);
}

#[test]
fn gravity_fills_bottom_up() {
    let mut g = Connect4::default();
    for k in 1u8..=6 {
        g.add(4).unwrap();
        // the k-th drop into the previously-empty column lands in row 6 - k
        assert_ne!(g.board.get(4, 6 - k), EMPTY);
        for r in 0..(6 - k) {
            assert_eq!(g.board.get(4, r), EMPTY);
        }
    }
}

#[test]
fn full_column_fails_without_change() {
    let mut g = Connect4::default();
    for _ in 0..6 {
        g.add(2).unwrap();
    }
    let before: Vec<u8> = (0..7u8)
        .flat_map(|c| (0..6u8).map(move |r| (c, r)))
        .map(|(c, r)| g.board.get(c, r))
        .collect();
    let player_before = g.current_player;
    assert_eq!(g.add(2), Err(DropError::ColumnFull));
    let after: Vec<u8> = (0..7u8)
        .flat_map(|c| (0..6u8).map(move |r| (c, r)))
        .map(|(c, r)| g.board.get(c, r))
        .collect();
    assert_eq!(before, after);
    assert_eq!(g.current_player, player_before);
}

#[test]
fn out_of_range_fails_without_change() {
    let mut g = Connect4::default();
    g.add(6).unwrap();
    let player_before = g.current_player;
    assert_eq!(g.add(7), Err(DropError::OutOfRange));
    assert_eq!(g.add(255), Err(DropError::OutOfRange));
    assert_eq!(g.current_player, player_before);
    assert_eq!(occupied_cells(&g), 1);
}

#[test]
fn tokens_alternate_colours_in_a_column() {
    let mut g = Connect4::default();
    g.add(5).unwrap();
    g.add(5).unwrap();
    g.add(5).unwrap();
    let red = Player::RED.token();
    let yellow = Player::YELLOW.token();
    assert_eq!(g.board.get(5, 5), red);
    assert_eq!(g.board.get(5, 4), yellow);
    assert_eq!(g.board.get(5, 3), red);
}
