use connect4::game::{Connect4, EMPTY, RED, YELLOW};
use connect4::render::fmt;

#[test]
fn fmt_maps_slots_to_characters() {
    assert_eq!(fmt(&EMPTY), ' ');
    assert_eq!(fmt(&RED), 'R');
    assert_eq!(fmt(&YELLOW), 'Y');
}

#[test]
fn render_empty_board() {
    let g = Connect4::default();
    let expected = "\
|       |\n\
|       |\n\
|       |\n\
|       |\n\
|       |\n\
|       |\n\
=========\n";
    assert_eq!(g.render(), expected);
}

#[test]
fn render_after_drops() {
    let mut g = Connect4::default();
    g.add(0).unwrap();
    g.add(1).unwrap();
    g.add(0).unwrap();
    let expected = "\
|       |\n\
|       |\n\
|       |\n\
|       |\n\
|R      |\n\
|RY     |\n\
=========\n";
    assert_eq!(g.render(), expected);
}
