use connect4::game::{Connect4, Player};

#[test]
fn win_condition() {
    let mut board = Connect4::default();
    let overall_win;
    loop {
        board.add(0).unwrap();
        if let Some(win) = board.check_win() {
            println!("{}{:?} won", board.render(), win);
            overall_win = Some(win);
            break;
        }

        board.add(1).unwrap();
        if let Some(win) = board.check_win() {
            println!("{}{:?} won", board.render(), win);
            overall_win = Some(win);
            break;
        }
    }
    assert!(matches!(overall_win, Some(Player::RED)));
}

#[test]
fn vertical_win_scenario() {
    // Alternating columns 0 and 1 stack red in column 0 and yellow in
    // column 1; the seventh call gives red its fourth token in column 0.
    let mut g = Connect4::default();
    for col in [0u8, 1, 0, 1, 0, 1] {
        g.add(col).unwrap();
        assert_eq!(g.check_win(), None);
    }
    g.add(0).unwrap();
    assert_eq!(g.check_win(), Some(Player::RED));
}

#[test]
fn horizontal_win() {
    let mut g = Connect4::default();
    for col in [0u8, 0, 1, 1, 2, 2] {
        g.add(col).unwrap();
        assert_eq!(g.check_win(), None);
    }
    g.add(3).unwrap();
    assert_eq!(g.check_win(), Some(Player::RED));
}

#[test]
fn diagonal_win() {
    let mut g = Connect4::default();
    for col in [0u8, 1, 1, 2, 2, 3, 2, 3, 3, 6] {
        g.add(col).unwrap();
        assert_eq!(g.check_win(), None);
    }
    g.add(3).unwrap();
    assert_eq!(g.check_win(), Some(Player::RED));
}

#[test]
fn yellow_win() {
    let mut g = Connect4::default();
    for col in [0u8, 1, 0, 1, 0, 1, 2] {
        g.add(col).unwrap();
        assert_eq!(g.check_win(), None);
    }
    g.add(1).unwrap();
    assert_eq!(g.check_win(), Some(Player::YELLOW));
}

#[test]
fn no_false_positives() {
    let mut g = Connect4::default();
    // scattered tokens, three in a row at most, of either colour
    for col in [0u8, 1, 2, 3, 4, 5, 0, 1, 2] {
        g.add(col).unwrap();
        assert_eq!(g.check_win(), None);
    }
}

#[test]
fn read_is_idempotent() {
    let mut g = Connect4::default();
    for col in [3u8, 3, 4, 4, 5] {
        g.add(col).unwrap();
    }
    let first = g.check_win();
    for _ in 0..5 {
        assert_eq!(g.check_win(), first);
    }
    // same again on a winning board
    let mut w = Connect4::default();
    for col in [0u8, 1, 0, 1, 0, 1, 0] {
        w.add(col).unwrap();
    }
    let won = w.check_win();
    assert_eq!(won, Some(Player::RED));
    for _ in 0..5 {
        assert_eq!(w.check_win(), won);
    }
}
