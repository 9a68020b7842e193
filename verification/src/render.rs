//! Textual rendering of the grid: each row as `|` + one character per
//! column + `|` and a newline, top row first, closed by a separator line
//! of `=` characters of length `COLS + 2`.

use vstd::prelude::*;
use crate::game::{Connect4, Connect4Board, EMPTY, RED, is_slot, slot_at, wf_board};

verus! {

/// The character a slot value is rendered as.
pub open spec fn slot_char(s: u8) -> char {
    if s == RED {
        'R'
    } else if s == EMPTY {
        ' '
    } else {
        'Y'
    }
}

/// The character the given slot value is rendered as: a space for an
/// empty cell, `R` for red, `Y` for yellow.
pub fn fmt(s: &u8) -> (c: char)
    requires
        is_slot(*s),
    ensures
        c == slot_char(*s),
{
    if *s == RED {
        'R'
    } else if *s == EMPTY {
        ' '
    } else {
        'Y'
    }
}

/// The rendered characters of the cells of row `r` from column `c` on.
pub open spec fn cells_from(b: Connect4Board, r: int, c: int) -> Seq<char>
    decreases 7 - c,
{
    if c < 0 || c >= 7 {
        Seq::empty()
    } else {
        seq![slot_char(slot_at(b, c, r))] + cells_from(b, r, c + 1)
    }
}

/// The rendered characters of row `r`, delimiters and newline included.
pub open spec fn row_chars(b: Connect4Board, r: int) -> Seq<char> {
    seq!['|'] + cells_from(b, r, 0) + seq!['|', '\n']
}

/// The rendered characters of rows `r` and below, top row first.
pub open spec fn rows_from(b: Connect4Board, r: int) -> Seq<char>
    decreases 6 - r,
{
    if r < 0 || r >= 6 {
        Seq::empty()
    } else {
        row_chars(b, r) + rows_from(b, r + 1)
    }
}

/// The separator line closing the rendering.
pub open spec fn footer_chars() -> Seq<char> {
    seq!['=', '=', '=', '=', '=', '=', '=', '=', '=', '\n']
}

/// The full rendering of a board.
pub open spec fn render_chars(b: Connect4Board) -> Seq<char> {
    rows_from(b, 0) + footer_chars()
}

/// One-character string for a slot value.
fn slot_str(s: u8) -> (out: &'static str)
    requires
        is_slot(s),
    ensures
        out@ == seq![slot_char(s)],
{
    if s == RED {
        proof {
            reveal_strlit("R");
            assert("R"@ =~= seq!['R']);
        }
        "R"
    } else if s == EMPTY {
        proof {
            reveal_strlit(" ");
            assert(" "@ =~= seq![' ']);
        }
        " "
    } else {
        proof {
            reveal_strlit("Y");
            assert("Y"@ =~= seq!['Y']);
        }
        "Y"
    }
}

impl Connect4 {
    /// Renders row `r` of the grid.
    fn render_row(&self, r: u8) -> (out: String)
        requires
            self.wf(),
            r < 6,
        ensures
            out@ == row_chars(self.board, r as int),
    {
        let mut out = String::from_str("|");
        proof {
            reveal_strlit("|");
            assert(out@ =~= seq!['|'] + cells_from(self.board, r as int, 7));
        }
        let mut c: u8 = 0;
        while c < 7
            invariant
                self.wf(),
                r < 6,
                c <= 7,
                out@ + cells_from(self.board, r as int, c as int) == seq!['|'] + cells_from(
                    self.board,
                    r as int,
                    0,
                ),
            decreases 7 - c,
        {
            let ghost prev = out@;
            let s = self.board.get(c, r);
            out.append(slot_str(s));
            proof {
                assert(out@ + cells_from(self.board, r as int, c as int + 1) =~= prev + cells_from(
                    self.board,
                    r as int,
                    c as int,
                ));
            }
            c = c + 1;
        }
        let ghost body = out@;
        out.append("|\n");
        proof {
            reveal_strlit("|\n");
            assert(body + cells_from(self.board, r as int, 7) =~= body);
            assert(out@ =~= row_chars(self.board, r as int));
        }
        out
    }

    /// Renders the whole grid in the textual format: six `|`-delimited
    /// rows, top row first, then the `=` separator line.
    pub fn render(&self) -> (out: String)
        requires
            self.wf(),
        ensures
            out@ == render_chars(self.board),
    {
        let mut out = String::new();
        proof {
            assert(out@ + rows_from(self.board, 0) =~= rows_from(self.board, 0));
        }
        let mut r: u8 = 0;
        while r < 6
            invariant
                self.wf(),
                r <= 6,
                out@ + rows_from(self.board, r as int) == rows_from(self.board, 0),
            decreases 6 - r,
        {
            let ghost prev = out@;
            let row = self.render_row(r);
            out.append(row.as_str());
            proof {
                assert(out@ + rows_from(self.board, r as int + 1) =~= prev + rows_from(
                    self.board,
                    r as int,
                ));
            }
            r = r + 1;
        }
        let ghost body = out@;
        out.append("=========\n");
        proof {
            reveal_strlit("=========\n");
            assert(body + rows_from(self.board, 6) =~= body);
            assert("=========\n"@ =~= footer_chars());
            assert(out@ =~= render_chars(self.board));
        }
        out
    }
}

} // verus!
