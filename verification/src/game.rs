use vstd::prelude::*;

use rand::Rng;

use crate::state::GameView;
use crate::state::all_lowered;
use crate::state::all_raised;
use crate::state::can_reach;
use crate::state::fresh;
use crate::state::lemma_seq_sum_take_le;
use crate::state::lemma_seq_sum_take_step;
use crate::state::lemma_tile_sum_take_step;
use crate::state::one_die_mode;
use crate::state::seq_sum;
use crate::state::tile_sum;
use crate::state::valid_move;

verus! {

/// One game of Shut the Box: nine tiles (`tiles[i]` is tile `i + 1`,
/// `true` = raised), the dice of the active roll, their sum (zero when no
/// roll is active), and the terminal flag.
pub struct Game {
    tiles: Vec<bool>,
    current_sum: u8,
    dice1: u8,
    dice2: u8,
    game_over: bool,
}

impl View for Game {
    type V = GameView;

    closed spec fn view(&self) -> GameView {
        GameView {
            tiles: self.tiles@,
            current_sum: self.current_sum as int,
            die1: self.dice1 as int,
            die2: self.dice2 as int,
            game_over: self.game_over,
        }
    }
}

/// Relies on rand's thread-local generator: `gen_range(1..=6)` returns an
/// integer within the given inclusive bounds.
#[verifier::external_body]
fn roll_die() -> (r: u8)
    ensures
        1 <= r <= 6,
{
    rand::thread_rng().gen_range(1..=6)
}

fn fresh_tiles() -> (t: Vec<bool>)
    ensures
        all_raised(t@),
{
    let mut t: Vec<bool> = Vec::new();
    let mut k: usize = 0;
    while k < 9
        invariant
            k <= 9,
            t@.len() == k,
            forall|i: int| 0 <= i < k ==> t@[i],
        decreases 9 - k,
    {
        t.push(true);
        k = k + 1;
    }
    t
}

impl Game {
    #[verifier::type_invariant]
    closed spec fn wf(self) -> bool {
        self.tiles@.len() == 9
    }

    /// A fresh game: all nine tiles raised, no active roll, not over.
    pub fn new() -> (g: Game)
        ensures
            fresh(g@),
    {
        Game { tiles: fresh_tiles(), current_sum: 0, dice1: 0, dice2: 0, game_over: false }
    }

    /// Lower tile `tile` directly. Succeeds exactly when `tile` is in
    /// range and currently raised; on failure the whole state is left
    /// unchanged.
    pub fn flip_tile(&mut self, tile: usize) -> (ok: bool)
        ensures
            ok == (1 <= tile <= 9 && old(self)@.tiles[tile - 1]),
            ok ==> final(self)@.tiles == old(self)@.tiles.update(tile - 1, false),
            ok ==> final(self)@.current_sum == old(self)@.current_sum,
            ok ==> final(self)@.die1 == old(self)@.die1,
            ok ==> final(self)@.die2 == old(self)@.die2,
            ok ==> final(self)@.game_over == old(self)@.game_over,
            !ok ==> final(self)@ == old(self)@,
    {
        proof {
            use_type_invariant(&*self);
        }
        if tile < 1 || tile > 9 || !self.tiles[tile - 1] {
            return false;
        }
        self.tiles[tile - 1] = false;
        true
    }

    /// Exhaustive include/exclude search: does some subset of the raised
    /// tiles among the first `n` sum exactly to `target`?
    fn check_combinations(tiles: &Vec<bool>, n: usize, target: u8) -> (r: bool)
        requires
            n <= tiles@.len(),
        ensures
            r == can_reach(tiles@.take(n as int), target as int),
        decreases n,
    {
        if target == 0 {
            return true;
        }
        if n == 0 {
            return false;
        }
        proof {
            assert(tiles@.take(n as int).drop_last() =~= tiles@.take(n as int - 1));
        }
        if Game::check_combinations(tiles, n - 1, target) {
            return true;
        }
        if tiles[n - 1] && n <= target as usize {
            Game::check_combinations(tiles, n - 1, target - n as u8)
        } else {
            proof {
                if n > target as usize {
                    assert(!can_reach(tiles@.take(n as int - 1), target - n));
                }
            }
            false
        }
    }

    /// Whether the board still offers a move for the active sum; a sum of
    /// zero (no active roll) counts as playable.
    fn has_valid_moves(&self) -> (r: bool)
        ensures
            r == can_reach(self@.tiles, self@.current_sum),
    {
        proof {
            use_type_invariant(&*self);
            assert(self@.tiles.take(self@.tiles.len() as int) =~= self@.tiles);
        }
        Game::check_combinations(&self.tiles, self.tiles.len(), self.current_sum)
    }

    fn move_is_valid(&self, tiles: &Vec<usize>) -> (ok: bool)
        ensures
            ok == valid_move(self@, tiles@),
    {
        proof {
            use_type_invariant(&*self);
        }
        if self.game_over || self.current_sum == 0 {
            return false;
        }
        let mut acc: u32 = 0;
        let mut k: usize = 0;
        while k < tiles.len()
            invariant
                self@.tiles.len() == 9,
                !self@.game_over,
                self@.current_sum != 0,
                self@.current_sum <= 255,
                k <= tiles@.len(),
                forall|j: int|
                    0 <= j < k ==> 1 <= #[trigger] tiles@[j] && tiles@[j] <= 9
                        && self@.tiles[tiles@[j] - 1],
                acc as int == seq_sum(tiles@.take(k as int)),
                acc <= 255,
            decreases tiles@.len() - k,
        {
            let t = tiles[k];
            if t < 1 || t > 9 || !self.tiles[t - 1] {
                return false;
            }
            proof {
                lemma_seq_sum_take_step(tiles@, k as int);
            }
            acc = acc + t as u32;
            k = k + 1;
            if acc > 255 {
                proof {
                    lemma_seq_sum_take_le(tiles@, k as int);
                }
                return false;
            }
        }
        proof {
            assert(tiles@.take(tiles@.len() as int) =~= tiles@);
        }
        acc == self.current_sum as u32
    }

    /// Whether `tiles` would be accepted right now: the game is live, a
    /// roll is active, every listed tile is in range and raised, and the
    /// listed numbers sum exactly to the active sum.
    pub fn is_valid_move(&self, tiles: Vec<usize>) -> (ok: bool)
        ensures
            ok == valid_move(self@, tiles@),
    {
        self.move_is_valid(&tiles)
    }

    /// Apply a move: re-validate it, and on success lower every listed
    /// tile, clear the active sum, and end the game if the whole board is
    /// now lowered (the win). A rejected move leaves the state untouched.
    pub fn make_move(&mut self, tiles: Vec<usize>) -> (ok: bool)
        ensures
            ok == valid_move(old(self)@, tiles@),
            !ok ==> final(self)@ == old(self)@,
            ok ==> final(self)@.tiles.len() == 9,
            ok ==> (forall|i: int|
                0 <= i < 9 ==> final(self)@.tiles[i] == (old(self)@.tiles[i]
                    && !tiles@.contains((i + 1) as usize))),
            ok ==> final(self)@.current_sum == 0,
            ok ==> final(self)@.die1 == old(self)@.die1,
            ok ==> final(self)@.die2 == old(self)@.die2,
            ok ==> final(self)@.game_over == all_lowered(final(self)@.tiles),
    {
        proof {
            use_type_invariant(&*self);
        }
        if !self.move_is_valid(&tiles) {
            return false;
        }
        let mut k: usize = 0;
        while k < tiles.len()
            invariant
                self@.tiles.len() == 9,
                k <= tiles@.len(),
                valid_move(old(self)@, tiles@),
                forall|i: int|
                    0 <= i < 9 ==> self@.tiles[i] == (old(self)@.tiles[i] && !(exists|j: int|
                        0 <= j < k && tiles@[j] == i + 1)),
                self@.current_sum == old(self)@.current_sum,
                self@.die1 == old(self)@.die1,
                self@.die2 == old(self)@.die2,
                self@.game_over == old(self)@.game_over,
            decreases tiles@.len() - k,
        {
            let t = tiles[k];
            proof {
                assert(1 <= tiles@[k as int] && tiles@[k as int] <= 9);
            }
            if self.tiles[t - 1] {
                self.tiles[t - 1] = false;
            }
            k = k + 1;
        }
        proof {
            assert forall|i: int| 0 <= i < 9 implies (#[trigger] tiles@.contains((i + 1) as usize)
                <==> exists|j: int| 0 <= j < k && tiles@[j] == i + 1) by {
                assert(k == tiles@.len());
            }
        }
        self.current_sum = 0;
        let mut down = true;
        let mut k2: usize = 0;
        while k2 < 9
            invariant
                self@.tiles.len() == 9,
                k2 <= 9,
                down == (forall|i: int| 0 <= i < k2 ==> !self@.tiles[i]),
            decreases 9 - k2,
        {
            if self.tiles[k2] {
                down = false;
            }
            k2 = k2 + 1;
        }
        if down {
            self.game_over = true;
        }
        true
    }

    /// Roll the dice for a new turn. After the game has ended this is a
    /// no-op that re-returns the last pair. Otherwise: one die when no
    /// raised tile is numbered above six, two dice else (a zero second
    /// value marks the one-die case); the new sum becomes the active sum,
    /// and the game ends here if no subset of raised tiles can reach it.
    pub fn roll_dice(&mut self) -> (r: Vec<u8>)
        ensures
            r@.len() == 2,
            r@[0] as int == final(self)@.die1,
            r@[1] as int == final(self)@.die2,
            old(self)@.game_over ==> final(self)@ == old(self)@,
            !old(self)@.game_over ==> {
                &&& final(self)@.tiles == old(self)@.tiles
                &&& 1 <= final(self)@.die1 <= 6
                &&& (if one_die_mode(old(self)@.tiles) {
                    final(self)@.die2 == 0
                } else {
                    1 <= final(self)@.die2 <= 6
                })
                &&& final(self)@.current_sum == final(self)@.die1 + final(self)@.die2
                &&& final(self)@.game_over == !can_reach(
                    old(self)@.tiles,
                    final(self)@.current_sum,
                )
            },
    {
        proof {
            use_type_invariant(&*self);
        }
        if self.game_over {
            let mut r: Vec<u8> = Vec::new();
            r.push(self.dice1);
            r.push(self.dice2);
            return r;
        }
        let mut high = false;
        let mut k: usize = 6;
        while k < 9
            invariant
                self@.tiles.len() == 9,
                6 <= k <= 9,
                high == !(forall|i: int| 6 <= i < k ==> !self@.tiles[i]),
            decreases 9 - k,
        {
            if self.tiles[k] {
                high = true;
            }
            k = k + 1;
        }
        self.dice1 = roll_die();
        self.dice2 = if high {
            roll_die()
        } else {
            0
        };
        self.current_sum = self.dice1 + self.dice2;
        if !self.has_valid_moves() {
            self.game_over = true;
        }
        let mut r: Vec<u8> = Vec::new();
        r.push(self.dice1);
        r.push(self.dice2);
        r
    }

    /// Inject a roll directly (deterministic testing and replay): sets the
    /// dice and their sum, then runs the same reachability check a real
    /// roll runs, which may end the game. After the game has ended the
    /// roll is frozen: injecting is a no-op, like rolling.
    pub fn set_dice_values(&mut self, die1: u8, die2: u8)
        requires
            die1 + die2 <= 255,
        ensures
            old(self)@.game_over ==> final(self)@ == old(self)@,
            !old(self)@.game_over ==> {
                &&& final(self)@.tiles == old(self)@.tiles
                &&& final(self)@.die1 == die1 as int
                &&& final(self)@.die2 == die2 as int
                &&& final(self)@.current_sum == die1 + die2
                &&& final(self)@.game_over == !can_reach(old(self)@.tiles, die1 + die2)
            },
    {
        proof {
            use_type_invariant(&*self);
        }
        if self.game_over {
            return;
        }
        self.dice1 = die1;
        self.dice2 = die2;
        self.current_sum = die1 + die2;
        if !self.has_valid_moves() {
            self.game_over = true;
        }
    }

    /// Return to the fresh-game state, whatever came before.
    pub fn reset(&mut self)
        ensures
            fresh(final(self)@),
    {
        proof {
            use_type_invariant(&*self);
        }
        self.tiles = fresh_tiles();
        self.current_sum = 0;
        self.dice1 = 0;
        self.dice2 = 0;
        self.game_over = false;
    }

    /// The board as nine flags, 1 = raised, 0 = lowered.
    pub fn get_tiles(&self) -> (r: Vec<u8>)
        ensures
            r@.len() == 9,
            forall|i: int| 0 <= i < 9 ==> r@[i] == (if self@.tiles[i] {
                1u8
            } else {
                0u8
            }),
    {
        proof {
            use_type_invariant(&*self);
        }
        let mut r: Vec<u8> = Vec::new();
        let mut k: usize = 0;
        while k < 9
            invariant
                self@.tiles.len() == 9,
                k <= 9,
                r@.len() == k,
                forall|i: int| 0 <= i < k ==> r@[i] == (if self@.tiles[i] {
                    1u8
                } else {
                    0u8
                }),
            decreases 9 - k,
        {
            if self.tiles[k] {
                r.push(1);
            } else {
                r.push(0);
            }
            k = k + 1;
        }
        r
    }

    /// The score: the sum of the numbers of the raised tiles. Zero exactly
    /// when the box is shut.
    pub fn get_score(&self) -> (r: u32)
        ensures
            r as int == tile_sum(self@.tiles),
    {
        proof {
            use_type_invariant(&*self);
        }
        let mut acc: u32 = 0;
        let mut k: usize = 0;
        while k < 9
            invariant
                self@.tiles.len() == 9,
                k <= 9,
                acc as int == tile_sum(self@.tiles.take(k as int)),
                acc as int <= 9 * k as int,
            decreases 9 - k,
        {
            proof {
                lemma_tile_sum_take_step(self@.tiles, k as int);
            }
            if self.tiles[k] {
                acc = acc + (k as u32 + 1);
            }
            k = k + 1;
        }
        proof {
            assert(self@.tiles.take(9) =~= self@.tiles);
        }
        acc
    }

    /// Whether the game has ended, in a win or in a loss.
    pub fn is_game_over(&self) -> (r: bool)
        ensures
            r == self@.game_over,
    {
        self.game_over
    }

    /// The active roll's sum; zero means no roll is active.
    pub fn get_current_sum(&self) -> (r: u8)
        ensures
            r as int == self@.current_sum,
    {
        self.current_sum
    }
}

impl Default for Game {
    /// Same as `Game::new`.
    fn default() -> (g: Game)
        ensures
            fresh(g@),
    {
        Game::new()
    }
}

} // verus!
