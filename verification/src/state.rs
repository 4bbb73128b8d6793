use vstd::prelude::*;

verus! {

/// Abstract state of one game: which of the nine tiles stand raised
/// (`tiles[i]` is tile `i + 1`), the active roll and its sum, and whether
/// the game has ended.
pub ghost struct GameView {
    pub tiles: Seq<bool>,
    pub current_sum: int,
    pub die1: int,
    pub die2: int,
    pub game_over: bool,
}

/// Every tile of a nine-tile board stands raised.
pub open spec fn all_raised(s: Seq<bool>) -> bool {
    s.len() == 9 && forall|i: int| 0 <= i < s.len() ==> s[i]
}

/// Every tile is lowered: the winning board.
pub open spec fn all_lowered(s: Seq<bool>) -> bool {
    forall|i: int| 0 <= i < s.len() ==> !s[i]
}

/// A freshly constructed (or reset) game: all tiles raised, no active
/// roll, not over.
pub open spec fn fresh(v: GameView) -> bool {
    &&& all_raised(v.tiles)
    &&& v.current_sum == 0
    &&& v.die1 == 0
    &&& v.die2 == 0
    &&& !v.game_over
}

/// One die suffices: no raised tile is numbered above six.
pub open spec fn one_die_mode(s: Seq<bool>) -> bool {
    forall|i: int| 6 <= i < s.len() ==> !s[i]
}

/// The board's score: the sum of the numbers of the raised tiles.
pub open spec fn tile_sum(s: Seq<bool>) -> int
    decreases s.len(),
{
    if s.len() == 0 {
        0
    } else {
        tile_sum(s.drop_last()) + if s.last() { s.len() as int } else { 0 }
    }
}

/// The sum of a proposed move's tile numbers.
pub open spec fn seq_sum(m: Seq<usize>) -> int
    decreases m.len(),
{
    if m.len() == 0 {
        0
    } else {
        seq_sum(m.drop_last()) + m.last()
    }
}

/// Some subset of the raised tiles of `s` sums exactly to `target`.
/// A target of zero is reached by the empty subset; since every tile is
/// worth at least one, a positive target is reached only by a non-empty
/// subset.
pub open spec fn can_reach(s: Seq<bool>, target: int) -> bool
    decreases s.len(),
{
    if target == 0 {
        true
    } else if target < 0 || s.len() == 0 {
        false
    } else {
        can_reach(s.drop_last(), target)
            || (s.last() && can_reach(s.drop_last(), target - s.len()))
    }
}

/// A proposed move is acceptable: the game is live, a roll is active,
/// every listed tile is in range and raised, and the listed numbers sum
/// exactly to the active roll.
pub open spec fn valid_move(v: GameView, m: Seq<usize>) -> bool {
    &&& !v.game_over
    &&& v.current_sum != 0
    &&& forall|k: int|
        0 <= k < m.len() ==> 1 <= #[trigger] m[k] && m[k] <= 9 && v.tiles[m[k] - 1]
    &&& seq_sum(m) == v.current_sum
}

pub proof fn lemma_tile_sum_nonneg(s: Seq<bool>)
    ensures
        tile_sum(s) >= 0,
    decreases s.len(),
{
    if s.len() > 0 {
        lemma_tile_sum_nonneg(s.drop_last());
    }
}

/// The score is zero exactly on the fully lowered board.
pub proof fn lemma_score_zero_iff_all_lowered(s: Seq<bool>)
    ensures
        tile_sum(s) == 0 <==> all_lowered(s),
    decreases s.len(),
{
    if s.len() > 0 {
        lemma_score_zero_iff_all_lowered(s.drop_last());
        lemma_tile_sum_nonneg(s.drop_last());
        if all_lowered(s) {
            assert(all_lowered(s.drop_last()));
        }
        if tile_sum(s) == 0 {
            assert(forall|i: int| 0 <= i < s.len() - 1 ==> s[i] == s.drop_last()[i]);
        }
    }
}

/// On a board with every tile raised, twice the score is `len * (len + 1)`.
pub proof fn lemma_tile_sum_all_raised(s: Seq<bool>)
    requires
        forall|i: int| 0 <= i < s.len() ==> s[i],
    ensures
        2 * tile_sum(s) == s.len() * (s.len() + 1),
    decreases s.len(),
{
    if s.len() > 0 {
        assert(forall|i: int| 0 <= i < s.len() - 1 ==> s.drop_last()[i]);
        lemma_tile_sum_all_raised(s.drop_last());
        assert(2 * tile_sum(s) == s.len() * (s.len() + 1)) by (nonlinear_arith)
            requires
                2 * tile_sum(s.drop_last()) == (s.len() - 1) * s.len(),
                tile_sum(s) == tile_sum(s.drop_last()) + s.len(),
        {}
    }
}

/// A fresh board scores forty-five, the sum of one through nine.
pub proof fn lemma_score_of_fresh_board(v: GameView)
    requires
        fresh(v),
    ensures
        tile_sum(v.tiles) == 45,
{
    lemma_tile_sum_all_raised(v.tiles);
}

pub proof fn lemma_tile_sum_update(s: Seq<bool>, i: int)
    requires
        0 <= i < s.len(),
    ensures
        tile_sum(s.update(i, false)) == tile_sum(s) - if s[i] {
            i + 1
        } else {
            0
        },
    decreases s.len(),
{
    if i == s.len() - 1 {
        assert(s.update(i, false).drop_last() =~= s.drop_last());
    } else {
        assert(s.update(i, false).drop_last() =~= s.drop_last().update(i, false));
        lemma_tile_sum_update(s.drop_last(), i);
    }
}

/// Lowering one raised tile lowers the score by exactly that tile's
/// number, so lowering tiles one after the other subtracts each of their
/// numbers from the score.
pub proof fn lemma_score_after_lower(s: Seq<bool>, t: int)
    requires
        1 <= t <= s.len(),
        s[t - 1],
    ensures
        tile_sum(s.update(t - 1, false)) == tile_sum(s) - t,
{
    lemma_tile_sum_update(s, t - 1);
}

/// Applying a move clears the active sum, so the same move — like any
/// other — is rejected until the next roll produces a new sum.
pub proof fn lemma_same_move_rejected(v: GameView, m: Seq<usize>)
    requires
        v.current_sum == 0,
    ensures
        !valid_move(v, m),
{
}

pub proof fn lemma_seq_sum_take_step(m: Seq<usize>, i: int)
    requires
        0 <= i < m.len(),
    ensures
        seq_sum(m.take(i + 1)) == seq_sum(m.take(i)) + m[i],
{
    assert(m.take(i + 1).drop_last() =~= m.take(i));
}

/// A prefix of a move never sums to more than the whole move.
pub proof fn lemma_seq_sum_take_le(m: Seq<usize>, i: int)
    requires
        0 <= i <= m.len(),
    ensures
        seq_sum(m.take(i)) <= seq_sum(m),
    decreases m.len(),
{
    if i == m.len() {
        assert(m.take(i) =~= m);
    } else {
        assert(m.drop_last().take(i) =~= m.take(i));
        lemma_seq_sum_take_le(m.drop_last(), i);
    }
}

pub proof fn lemma_tile_sum_take_step(s: Seq<bool>, i: int)
    requires
        0 <= i < s.len(),
    ensures
        tile_sum(s.take(i + 1)) == tile_sum(s.take(i)) + if s[i] {
            i + 1
        } else {
            0
        },
{
    assert(s.take(i + 1).drop_last() =~= s.take(i));
}

} // verus!
