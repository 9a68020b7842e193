//! Win detection: scanning the grid for four same-coloured tokens in a
//! straight line (horizontal, vertical, or either diagonal).

use vstd::prelude::*;
use crate::game::{Connect4, Connect4Board, Player, slot_at, slot_of, wf_board};

verus! {

/// True of the cell coordinates that lie on the grid.
pub open spec fn in_bounds(c: int, r: int) -> bool {
    0 <= c < 7 && 0 <= r < 6
}

/// The four canonical direction vectors; every straight line of four
/// cells runs along exactly one of them from one of its endpoints.
pub open spec fn is_dir(dc: int, dr: int) -> bool {
    ||| (dc == 1 && dr == 0)
    ||| (dc == 0 && dr == 1)
    ||| (dc == 1 && dr == 1)
    ||| (dc == 1 && dr == -1)
}

/// True when the four cells starting at `(c, r)` and stepping by
/// `(dc, dr)` all lie on the grid and all hold player `p`'s tokens.
pub open spec fn line_at(b: Connect4Board, p: Player, c: int, r: int, dc: int, dr: int) -> bool {
    &&& in_bounds(c, r) && slot_at(b, c, r) == slot_of(p)
    &&& in_bounds(c + dc, r + dr) && slot_at(b, c + dc, r + dr) == slot_of(p)
    &&& in_bounds(c + 2 * dc, r + 2 * dr) && slot_at(b, c + 2 * dc, r + 2 * dr) == slot_of(p)
    &&& in_bounds(c + 3 * dc, r + 3 * dr) && slot_at(b, c + 3 * dc, r + 3 * dr) == slot_of(p)
}

/// True when player `p` has at least one line of four on the board.
pub open spec fn has_win(b: Connect4Board, p: Player) -> bool {
    exists|c: int, r: int, dc: int, dr: int| is_dir(dc, dr) && #[trigger] line_at(b, p, c, r, dc, dr)
}

/// The winner `check_win` reports: red when red has a line of four,
/// else yellow when yellow has one, else nobody.
pub open spec fn spec_winner(g: Connect4) -> Option<Player> {
    if has_win(g.board, Player::RED) {
        Some(Player::RED)
    } else if has_win(g.board, Player::YELLOW) {
        Some(Player::YELLOW)
    } else {
        None
    }
}

/// No line of four of player `p` starts at a cell `(c, r)` with
/// `c * 6 + r < n`: the part of the grid a row-by-row scan of the first
/// `n` cells has already cleared.
pub open spec fn no_win_before(b: Connect4Board, p: Player, n: int) -> bool {
    forall|c: int, r: int, dc: int, dr: int|
        is_dir(dc, dr) && in_bounds(c, r) && c * 6 + r < n ==> !(#[trigger] line_at(
            b,
            p,
            c,
            r,
            dc,
            dr,
        ))
}

impl Connect4 {
    /// True when cell `(c, r)` lies on the grid and holds slot value `s`.
    fn cell_is(&self, s: u8, c: i16, r: i16) -> (res: bool)
        requires
            wf_board(self.board),
        ensures
            res == (in_bounds(c as int, r as int) && slot_at(self.board, c as int, r as int) == s),
    {
        if 0 <= c && c < 7 && 0 <= r && r < 6 {
            self.board.get(c as u8, r as u8) == s
        } else {
            false
        }
    }

    /// True when the four cells from `(pc, pr)` along `(dc, dr)` all
    /// hold the player's tokens.
    fn check_line(&self, player: Player, pc: u8, pr: u8, dc: i8, dr: i8) -> (res: bool)
        requires
            wf_board(self.board),
            -1 <= dc <= 1,
            -1 <= dr <= 1,
        ensures
            res == line_at(self.board, player, pc as int, pr as int, dc as int, dr as int),
    {
        let s = player.token();
        let c = pc as i16;
        let r = pr as i16;
        let dc16 = dc as i16;
        let dr16 = dr as i16;
        self.cell_is(s, c, r) && self.cell_is(s, c + dc16, r + dr16) && self.cell_is(
            s,
            c + 2 * dc16,
            r + 2 * dr16,
        ) && self.cell_is(s, c + 3 * dc16, r + 3 * dr16)
    }

    /// True when a line of four of the player starts at `(pc, pr)` in
    /// one of the four canonical directions.
    fn check_pos(&self, player: Player, pc: u8, pr: u8) -> (res: bool)
        requires
            wf_board(self.board),
        ensures
            res == exists|dc: int, dr: int|
                is_dir(dc, dr) && #[trigger] line_at(
                    self.board,
                    player,
                    pc as int,
                    pr as int,
                    dc,
                    dr,
                ),
            !res ==> forall|dc: int, dr: int|
                is_dir(dc, dr) ==> !(#[trigger] line_at(
                    self.board,
                    player,
                    pc as int,
                    pr as int,
                    dc,
                    dr,
                )),
    {
        let res = self.check_line(player, pc, pr, 1, 0) || self.check_line(player, pc, pr, 0, 1)
            || self.check_line(player, pc, pr, 1, 1) || self.check_line(player, pc, pr, 1, -1);
        proof {
            if !res {
                assert forall|dc: int, dr: int| is_dir(dc, dr) implies !(#[trigger] line_at(
                    self.board,
                    player,
                    pc as int,
                    pr as int,
                    dc,
                    dr,
                )) by {}
            }
        }
        res
    }

    /// True when the player has a line of four anywhere on the board.
    fn scan_player(&self, player: Player) -> (res: bool)
        requires
            wf_board(self.board),
        ensures
            res == has_win(self.board, player),
    {
        let mut i: u8 = 0;
        while i < 7
            invariant
                wf_board(self.board),
                i <= 7,
                no_win_before(self.board, player, (i as int) * 6),
            decreases 7 - i,
        {
            let mut j: u8 = 0;
            while j < 6
                invariant
                    wf_board(self.board),
                    i < 7,
                    j <= 6,
                    no_win_before(self.board, player, (i as int) * 6 + (j as int)),
                decreases 6 - j,
            {
                if self.check_pos(player, i, j) {
                    return true;
                }
                proof {
                    assert forall|c: int, r: int, dc: int, dr: int|
                        is_dir(dc, dr) && in_bounds(c, r) && c * 6 + r < (i as int) * 6 + (
                        j as int) + 1 implies !line_at(self.board, player, c, r, dc, dr) by {
                        if c * 6 + r == (i as int) * 6 + (j as int) {
                            assert(c == i as int && r == j as int);
                            assert(!line_at(self.board, player, i as int, j as int, dc, dr));
                        }
                    }
                }
                j = j + 1;
            }
            i = i + 1;
        }
        proof {
            assert(no_win_before(self.board, player, 42));
            if has_win(self.board, player) {
                let (c, r, dc, dr) = choose|c: int, r: int, dc: int, dr: int|
                    is_dir(dc, dr) && #[trigger] line_at(self.board, player, c, r, dc, dr);
                assert(in_bounds(c, r));
                assert(c * 6 + r < 42);
                assert(!line_at(self.board, player, c, r, dc, dr));
            }
        }
        false
    }

    /// Reports the player who currently has a line of four, red taking
    /// precedence when both do; `None` when neither does. A pure read:
    /// the result is a function of the state alone, so repeated calls
    /// without an intervening move agree.
    pub fn check_win(&self) -> (res: Option<Player>)
        requires
            self.wf(),
        ensures
            res == spec_winner(*self),
            res is None <==> !has_win(self.board, Player::RED) && !has_win(
                self.board,
                Player::YELLOW,
            ),
            has_win(self.board, Player::RED) ==> res == Some(Player::RED),
    {
        if self.scan_player(Player::RED) {
            Some(Player::RED)
        } else if self.scan_player(Player::YELLOW) {
            Some(Player::YELLOW)
        } else {
            None
        }
    }
}

/// Reading the winner is idempotent: any two results that `check_win`'s
/// contract allows on one and the same state are equal.
pub proof fn lemma_check_win_idempotent(g: Connect4, r1: Option<Player>, r2: Option<Player>)
    requires
        r1 == spec_winner(g),
        r2 == spec_winner(g),
    ensures
        r1 == r2,
{
}

} // verus!
