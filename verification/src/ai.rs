//! The engine: it picks a move for the player whose turn it is.
//!
//! Two strategies exist. `LowestAvailable` takes the first empty cell.
//! `Minimax` searches the whole game tree below the board and scores each
//! move from the point of view of the player who makes it: a win scores
//! `9 - depth`, so that a win in fewer plies scores higher; a draw scores 0;
//! and a board on which play goes on is worth the negation of the best score
//! that the opponent can reach from it.

use vstd::prelude::*;
use crate::board::{
    holds, lemma_empty_count_bound, lemma_open_cells_hold_the_empty, lemma_open_upto,
    lemma_placed_on_empty, Board, empty_count, game_over, open_cells, placed, winner_of, CELLS,
    EMPTY,
};

verus! {

/// How the engine chooses.
#[derive(Clone, Copy, Debug, PartialEq, Eq, Structural)]
pub enum Strategy {
    /// Search the game tree and take the move with the highest score.
    Minimax,
    /// Take the empty cell with the lowest index.
    LowestAvailable,
}

/// The score of a board on which play has ended, seen at `depth`: a win
/// counts more the sooner it comes, a draw counts nothing.
pub open spec fn finished_score(cells: Seq<char>, depth: int) -> int {
    if winner_of(cells) is Some {
        9 - depth
    } else {
        0
    }
}

/// The higher of two optional scores, where an absent one is lowest.
pub open spec fn higher(a: Option<int>, b: Option<int>) -> Option<int> {
    match (a, b) {
        (Some(x), Some(y)) => if y > x {
            b
        } else {
            a
        },
        (None, _) => b,
        (_, None) => a,
    }
}

/// The highest score that is present, if any is.
pub open spec fn max_present(scores: Seq<Option<int>>) -> Option<int>
    decreases scores.len(),
{
    if scores.len() == 0 {
        None
    } else {
        higher(max_present(scores.drop_last()), scores.last())
    }
}

/// The index of the highest present score among the first `n`, and of the
/// first such score where several are highest; `None` if none is present.
pub open spec fn best_index_upto(scores: Seq<Option<int>>, n: int) -> Option<int>
    decreases n,
{
    if n <= 0 {
        None
    } else {
        let before = best_index_upto(scores, n - 1);
        match (before, scores[n - 1]) {
            (_, None) => before,
            (None, Some(_)) => Some(n - 1),
            (Some(best), Some(score)) => if score > scores[best]->0 {
                Some(n - 1)
            } else {
                before
            },
        }
    }
}

/// The index of the first highest present score; `None` if none is present.
pub open spec fn best_index(scores: Seq<Option<int>>) -> Option<int> {
    best_index_upto(scores, scores.len() as int)
}

/// The score of a board for the player who has just moved, seen at `depth`.
pub open spec fn board_score(cells: Seq<char>, depth: int) -> int
    decreases empty_count(cells), 2int,
{
    if game_over(cells) {
        finished_score(cells, depth)
    } else {
        match max_present(all_scores(cells, depth + 1)) {
            Some(best) => -best,
            None => 0,
        }
    }
}

/// For each cell, the score of moving there at `depth`; `None` for a cell
/// that is taken.
pub open spec fn all_scores(cells: Seq<char>, depth: int) -> Seq<Option<int>>
    decreases empty_count(cells), 1int,
{
    Seq::new(
        cells.len(),
        |i: int|
            if 0 <= i < cells.len() && cells[i] == EMPTY {
                proof {
                    lemma_placed_on_empty(cells, i);
                }
                Some(move_score(cells, i, depth))
            } else {
                None
            },
    )
}

/// The score of the move to `index` at `depth`: the score of the board that
/// the move leads to.
pub open spec fn move_score(cells: Seq<char>, index: int, depth: int) -> int
    decreases empty_count(placed(cells, index)), 3int,
{
    board_score(placed(cells, index), depth)
}

/// The scores of a vector as mathematical integers.
pub open spec fn as_ints(scores: Seq<Option<i64>>) -> Seq<Option<int>> {
    Seq::new(scores.len(), |i: int| as_int(scores[i]))
}

/// The largest absolute value of a score at `depth` on a board with `plies`
/// empty cells: a win can be found at any depth from `depth` to
/// `depth + plies`.
pub open spec fn score_limit(depth: int, plies: int) -> int {
    let near = 9 - depth;
    let far = depth + plies - 9;
    if near >= far && near >= 0 {
        near
    } else if far >= 0 {
        far
    } else {
        0
    }
}

/// Whether a search that starts at `depth` with `plies` empty cells stays
/// within `i64`: `9 - depth` must fit, and so must the depth of the last ply.
pub open spec fn depth_fits(depth: int, plies: int) -> bool {
    9 - depth <= i64::MAX && depth + plies <= i64::MAX
}

/// The move that the `LowestAvailable` strategy makes: the first available
/// cell, or none on a full board.
pub open spec fn lowest_available(cells: Seq<char>) -> Option<i64> {
    if open_cells(cells).len() == 0 {
        None
    } else {
        Some(open_cells(cells)[0])
    }
}

/// The move that the `Minimax` strategy makes: the first cell with the
/// highest score among the available ones, or none on a full board. On a
/// board that somebody has already won, each available cell scores 9, so the
/// first of them is chosen.
pub open spec fn minimax_move(cells: Seq<char>) -> Option<int> {
    best_index(all_scores(cells, 0))
}

/// The move of the engine with the given strategy.
pub open spec fn engine_move(strategy: Strategy, cells: Seq<char>) -> Option<int> {
    match strategy {
        Strategy::Minimax => minimax_move(cells),
        Strategy::LowestAvailable => match lowest_available(cells) {
            Some(index) => Some(index as int),
            None => None,
        },
    }
}

/// The highest present score is present, and no present score is higher;
/// there is none only where no score is present.
pub proof fn lemma_max_present(scores: Seq<Option<int>>)
    ensures
        max_present(scores) is None <==> forall|i: int|
            0 <= i < scores.len() ==> #[trigger] scores[i] is None,
        max_present(scores) is Some ==> exists|i: int|
            0 <= i < scores.len() && #[trigger] scores[i] == max_present(scores),
        forall|i: int|
            0 <= i < scores.len() && #[trigger] scores[i] is Some ==> scores[i]->0 <= max_present(
                scores,
            )->0,
    decreases scores.len(),
{
    if scores.len() > 0 {
        let front = scores.drop_last();
        lemma_max_present(front);
        assert forall|i: int| 0 <= i < front.len() implies front[i] == scores[i] by {}
        if max_present(scores) == scores.last() {
            assert(scores[scores.len() - 1] == max_present(scores));
        } else {
            let i: int = choose|i: int| 0 <= i < front.len() && #[trigger] front[i] == max_present(front);
            assert(scores[i] == max_present(scores));
        }
        assert forall|i: int| 0 <= i < scores.len() && #[trigger] scores[i] is Some implies scores[i]->0
            <= max_present(scores)->0 by {
            if i < front.len() {
                assert(front[i] is Some);
            }
        }
        if max_present(scores) is None {
            assert forall|i: int| 0 <= i < scores.len() implies #[trigger] scores[i] is None by {
                if i < front.len() {
                    assert(front[i] is None);
                }
            }
        }
    }
}

/// Whether `index` names the first highest present score: the score there
/// is present, none is higher, and every present score before it is lower.
pub open spec fn is_first_best(scores: Seq<Option<int>>, index: int) -> bool {
    &&& 0 <= index < scores.len()
    &&& scores[index] is Some
    &&& forall|j: int|
        0 <= j < scores.len() && #[trigger] scores[j] is Some ==> scores[j]->0 <= scores[index]->0
    &&& forall|j: int|
        0 <= j < index && #[trigger] scores[j] is Some ==> scores[j]->0 < scores[index]->0
}

/// Among the first `n` scores, the best index names the first highest
/// present score, and there is none only where no score is present.
pub proof fn lemma_best_index_upto(scores: Seq<Option<int>>, n: int)
    requires
        0 <= n <= scores.len(),
    ensures
        best_index_upto(scores, n) is None <==> forall|j: int|
            0 <= j < n ==> #[trigger] scores[j] is None,
        best_index_upto(scores, n) is Some ==> is_first_best(
            scores.take(n),
            best_index_upto(scores, n)->0,
        ),
    decreases n,
{
    if n > 0 {
        lemma_best_index_upto(scores, n - 1);
        let before = best_index_upto(scores, n - 1);
        let short = scores.take(n - 1);
        let long = scores.take(n);
        assert forall|j: int| 0 <= j < n - 1 implies short[j] == long[j] by {}
        match (before, scores[n - 1]) {
            (_, None) => {
                if before is Some {
                    assert(is_first_best(short, before->0));
                    assert(is_first_best(long, before->0)) by {
                        assert forall|j: int|
                            0 <= j < long.len() && #[trigger] long[j] is Some implies long[j]->0
                            <= long[before->0]->0 by {
                            assert(short[j] is Some);
                        }
                        assert forall|j: int|
                            0 <= j < before->0 && #[trigger] long[j] is Some implies long[j]->0
                            < long[before->0]->0 by {
                            assert(short[j] is Some);
                        }
                    }
                }
            },
            (None, Some(_)) => {
                assert(long[n - 1] is Some);
                assert(is_first_best(long, n - 1));
            },
            (Some(best), Some(score)) => {
                assert(is_first_best(short, best));
                if score > scores[best]->0 {
                    assert(is_first_best(long, n - 1)) by {
                        assert forall|j: int|
                            0 <= j < long.len() && #[trigger] long[j] is Some implies long[j]->0
                            <= long[n - 1]->0 by {
                            if j < n - 1 {
                                assert(short[j] is Some);
                            }
                        }
                        assert forall|j: int|
                            0 <= j < n - 1 && #[trigger] long[j] is Some implies long[j]->0 < long[n
                            - 1]->0 by {
                            assert(short[j] is Some);
                        }
                    }
                } else {
                    assert(is_first_best(long, best)) by {
                        assert forall|j: int|
                            0 <= j < long.len() && #[trigger] long[j] is Some implies long[j]->0
                            <= long[best]->0 by {
                            if j < n - 1 {
                                assert(short[j] is Some);
                            }
                        }
                        assert forall|j: int|
                            0 <= j < best && #[trigger] long[j] is Some implies long[j]->0 < long[best]->0 by {
                            assert(short[j] is Some);
                        }
                    }
                }
            },
        }
    }
}

/// The best index names the first highest present score, and it is the only
/// index that does; there is none only where no score is present.
pub proof fn law_best_index(scores: Seq<Option<int>>, index: int)
    ensures
        best_index(scores) is None <==> forall|j: int|
            0 <= j < scores.len() ==> #[trigger] scores[j] is None,
        best_index(scores) == Some(index) <==> is_first_best(scores, index),
{
    lemma_best_index_upto(scores, scores.len() as int);
    assert(scores.take(scores.len() as int) =~= scores);
    if is_first_best(scores, index) {
        assert(scores[index] is Some);
        let best = best_index(scores)->0;
        assert(is_first_best(scores, best));
        assert(scores[best] is Some);
        if best < index {
        } else if index < best {
        }
    }
}

/// The move of the search is optimal: it goes to an empty cell, no move to
/// an empty cell scores higher, and every empty cell before it scores lower.
/// There is no move only where no cell is empty.
pub proof fn law_minimax_is_optimal(cells: Seq<char>, other: int)
    requires
        cells.len() == CELLS,
        0 <= other < 9,
        cells[other] == EMPTY,
    ensures
        minimax_move(cells) matches Some(index) && 0 <= index < 9 && cells[index] == EMPTY
            && move_score(cells, other, 0) <= move_score(cells, index, 0) && (other < index
            ==> move_score(cells, other, 0) < move_score(cells, index, 0)),
{
    let scores = all_scores(cells, 0);
    assert(scores[other] is Some);
    law_best_index(scores, 0);
    let index = best_index(scores)->0;
    law_best_index(scores, index);
    assert(scores[index] is Some);
}

/// A score is never further from 0 than the limit for its depth and its
/// number of empty cells.
pub proof fn lemma_score_limit(cells: Seq<char>, depth: int)
    ensures
        -score_limit(depth, empty_count(cells) as int) <= board_score(cells, depth) <= score_limit(
            depth,
            empty_count(cells) as int,
        ),
    decreases empty_count(cells),
{
    if !game_over(cells) {
        let replies = all_scores(cells, depth + 1);
        let limit = score_limit(depth, empty_count(cells) as int);
        assert forall|i: int| 0 <= i < replies.len() && #[trigger] replies[i] is Some implies -limit
            <= replies[i]->0 <= limit by {
            lemma_placed_on_empty(cells, i);
            lemma_score_limit(placed(cells, i), depth + 1);
        }
        lemma_max_present(replies);
        if max_present(replies) is Some {
            let i: int = choose|i: int|
                0 <= i < replies.len() && #[trigger] replies[i] == max_present(replies);
            assert(replies[i] is Some);
        }
    }
}

/// From depth 0 on, and as long as the last ply is no deeper than 18, every
/// score lies between -9 and 9.
pub proof fn law_scores_stay_in_range(cells: Seq<char>, depth: int)
    requires
        0 <= depth,
        depth + empty_count(cells) <= 18,
    ensures
        -9 <= board_score(cells, depth) <= 9,
{
    lemma_score_limit(cells, depth);
}

/// The engine, with the strategy it follows.
#[derive(Debug, PartialEq, Eq)]
pub struct AI {
    strategy: Strategy,
}

impl AI {
    /// The strategy that the engine follows.
    pub closed spec fn view(&self) -> Strategy {
        self.strategy
    }

    /// An engine that follows `strategy`.
    pub fn new(strategy: Strategy) -> (ai: AI)
        ensures
            ai@ == strategy,
    {
        AI { strategy }
    }

    /// The engine's move on `board`, or `None` where no cell is empty. The
    /// engine does not ask whether play has ended: on a board that is won
    /// but not full it still names an empty cell.
    pub fn get_move(&self, board: Board) -> (choice: Option<i64>)
        ensures
            as_int(choice) == engine_move(self@, board@),
            choice matches Some(index) ==> 0 <= index < 9 && board@[index as int] == EMPTY,
            choice is None <==> empty_count(board@) == 0,
    {
        proof {
            use_type_invariant(&board);
            lemma_open_upto(board@, 9);
        }
        match self.strategy {
            Strategy::LowestAvailable => self.get_lowest_available_index(board.spaces().clone()),
            Strategy::Minimax => self.minimax(board),
        }
    }

    /// The index of the first empty cell, if there is one.
    fn get_lowest_available_index(&self, spaces: Vec<char>) -> (choice: Option<i64>)
        requires
            spaces@.len() <= i64::MAX,
        ensures
            choice == lowest_available(spaces@),
    {
        let mut position: usize = 0;
        while position < spaces.len()
            invariant
                position <= spaces@.len() <= i64::MAX,
                forall|k: int| 0 <= k < position ==> spaces@[k] != EMPTY,
            decreases spaces@.len() - position,
        {
            if spaces[position] == EMPTY {
                proof {
                    lemma_first_open_cell(spaces@, position as int);
                }
                return Some(position as i64);
            }
            position += 1;
        }
        proof {
            lemma_open_upto(spaces@, spaces@.len() as int);
            let open = open_cells(spaces@);
            if open.len() > 0 {
                assert(0 <= open[0] < spaces@.len());
            }
        }
        None
    }

    /// A copy of the engine.
    pub fn clone(&self) -> (ai: AI)
        ensures
            ai == *self,
    {
        AI { strategy: self.strategy }
    }

    /// The first cell with the highest score among the available ones, or
    /// `None` where no cell is empty.
    pub fn minimax(&self, board: Board) -> (choice: Option<i64>)
        ensures
            as_int(choice) == minimax_move(board@),
            choice matches Some(index) ==> 0 <= index < 9 && board@[index as int] == EMPTY,
            choice is None <==> empty_count(board@) == 0,
    {
        proof {
            use_type_invariant(&board);
            lemma_open_upto(board@, 9);
            lemma_empty_count_bound(board@);
            law_best_index(all_scores(board@, 0), 0);
        }
        let nothing_left = board.available_spaces().len() == 0;
        let scores = self.get_all_scores(board, 0);
        if nothing_left {
            proof {
                assert forall|j: int| 0 <= j < 9 implies #[trigger] all_scores(board@, 0)[j] is None by {
                    if board@[j] == EMPTY {
                        assert(open_cells(board@).contains(j as i64));
                    }
                }
            }
            None
        } else {
            let best: i64 = self.index_of_best_score(scores);
            proof {
                let index: int = open_cells(board@)[0] as int;
                assert(all_scores(board@, 0)[index] is Some);
                law_best_index(all_scores(board@, 0), best as int);
            }
            Some(best)
        }
    }

    /// For each cell, the score of moving there at `depth`; `None` for a
    /// cell that is taken.
    pub fn get_all_scores(&self, board: Board, depth: i64) -> (scores: Vec<Option<i64>>)
        requires
            depth_fits(depth as int, empty_count(board@) - 1),
        ensures
            scores@.len() == CELLS,
            as_ints(scores@) == all_scores(board@, depth as int),
        decreases empty_count(board@), 1int,
    {
        proof {
            use_type_invariant(&board);
        }
        let mut scores: Vec<Option<i64>> = vec![None; CELLS];
        let mut i: i64 = 0;
        let available_indexes = board.available_spaces();
        while i < 9
            invariant
                0 <= i <= 9,
                board@.len() == CELLS,
                scores@.len() == CELLS,
                available_indexes@ == open_cells(board@),
                depth_fits(depth as int, empty_count(board@) - 1),
                forall|k: int|
                    0 <= k < i ==> as_int(#[trigger] scores@[k]) == all_scores(
                        board@,
                        depth as int,
                    )[k],
                forall|k: int| i <= k < 9 ==> #[trigger] scores@[k] is None,
            decreases 9 - i,
        {
            proof {
                lemma_open_cells_hold_the_empty(board@, i);
            }
            if holds(&available_indexes, i) {
                proof {
                    lemma_placed_on_empty(board@, i as int);
                }
                let score: i64 = self.score_move(i, board.clone(), depth);
                scores.set(i as usize, Some(score));
            }
            i += 1;
        }
        assert(as_ints(scores@) =~= all_scores(board@, depth as int));
        scores
    }

    /// The score of the move to `index` at `depth`, for the player who makes
    /// it. A move to a taken cell changes nothing, and scores as the board
    /// itself does.
    pub fn score_move(&self, index: i64, board: Board, depth: i64) -> (score: i64)
        requires
            0 <= index < CELLS,
            depth_fits(depth as int, empty_count(placed(board@, index as int)) as int),
        ensures
            score == move_score(board@, index as int, depth as int),
        decreases empty_count(placed(board@, index as int)), 4int,
    {
        let new_board = board.place(index);
        self.assign_score_to_board(new_board, depth)
    }

    /// The score of `board` at `depth`, for the player who has just moved:
    /// that of a finished board where play has ended, and else the negation
    /// of the best score that the opponent can reach.
    pub fn assign_score_to_board(&self, board: Board, depth: i64) -> (score: i64)
        requires
            depth_fits(depth as int, empty_count(board@) as int),
        ensures
            score == board_score(board@, depth as int),
        decreases empty_count(board@), 3int,
    {
        if board.is_game_over() {
            self.score_finished_board(board.clone(), depth)
        } else {
            self.best_score_from_remaining_spaces(board, depth)
        }
    }

    /// The negation of the highest score among the moves that are left.
    fn best_score_from_remaining_spaces(&self, board: Board, depth: i64) -> (score: i64)
        requires
            !game_over(board@),
            depth_fits(depth as int, empty_count(board@) as int),
        ensures
            score == board_score(board@, depth as int),
        decreases empty_count(board@), 2int,
    {
        proof {
            use_type_invariant(&board);
            lemma_score_limit(board@, depth as int);
        }
        let ghost replies = all_scores(board@, depth + 1);
        let scores = self.get_all_scores(board, depth + 1);
        match highest_score(&scores) {
            Some(max_value) => {
                assert(max_present(replies) == Some(max_value as int));
                -max_value
            },
            None => 0,
        }
    }

    /// The score of a board on which play has ended: `9 - depth` where
    /// somebody has won, 0 for a draw.
    pub fn score_finished_board(&self, board: Board, depth: i64) -> (score: i64)
        requires
            winner_of(board@) is Some ==> 9 - depth <= i64::MAX,
        ensures
            score == finished_score(board@, depth as int),
    {
        match board.winner() {
            Some(_) => 9 - depth,
            None => 0,
        }
    }

    /// The index of the first highest score among those present. Cells
    /// without a score take no part; where no score is present at all, the
    /// result is 0.
    pub fn index_of_best_score(&self, scores: Vec<Option<i64>>) -> (index: i64)
        requires
            scores@.len() <= i64::MAX,
        ensures
            index == match best_index(as_ints(scores@)) {
                Some(best) => best,
                None => 0,
            },
    {
        let mut best: Option<usize> = None;
        let mut i: usize = 0;
        while i < scores.len()
            invariant
                i <= scores@.len() <= i64::MAX,
                best matches Some(at) ==> at < i && scores@[at as int] is Some,
                match best {
                    Some(at) => Some(at as int),
                    None => None,
                } == best_index_upto(as_ints(scores@), i as int),
            decreases scores@.len() - i,
        {
            match (best, scores[i]) {
                (_, None) => {},
                (None, Some(_)) => {
                    best = Some(i);
                },
                (Some(at), Some(score)) => {
                    if score > scores[at].unwrap() {
                        best = Some(i);
                    }
                },
            }
            i += 1;
        }
        match best {
            Some(at) => at as i64,
            None => 0,
        }
    }
}

/// An optional index as a mathematical integer.
pub open spec fn as_int(choice: Option<i64>) -> Option<int> {
    match choice {
        Some(index) => Some(index as int),
        None => None,
    }
}

/// The highest score that is present, if any is.
pub fn highest_score(scores: &Vec<Option<i64>>) -> (highest: Option<i64>)
    ensures
        as_int(highest) == max_present(as_ints(scores@)),
{
    let mut highest: Option<i64> = None;
    let mut i: usize = 0;
    while i < scores.len()
        invariant
            i <= scores@.len(),
            as_int(highest) == max_present(as_ints(scores@).take(i as int)),
        decreases scores@.len() - i,
    {
        proof {
            let now = as_ints(scores@).take(i + 1);
            assert(now.drop_last() =~= as_ints(scores@).take(i as int));
        }
        match (highest, scores[i]) {
            (Some(best), Some(score)) => {
                if score > best {
                    highest = Some(score);
                }
            },
            (None, Some(score)) => {
                highest = Some(score);
            },
            (_, None) => {},
        }
        i += 1;
    }
    assert(as_ints(scores@).take(scores@.len() as int) =~= as_ints(scores@));
    highest
}

/// The first empty cell is the first of the available cells.
proof fn lemma_first_open_cell(cells: Seq<char>, position: int)
    requires
        0 <= position < cells.len() <= i64::MAX,
        cells[position] == EMPTY,
        forall|k: int| 0 <= k < position ==> cells[k] != EMPTY,
    ensures
        lowest_available(cells) == Some(position as i64),
{
    lemma_open_upto(cells, cells.len() as int);
    let open = open_cells(cells);
    assert(open.contains(position as i64));
    let at: int = choose|at: int| 0 <= at < open.len() && open[at] == position as i64;
    if at > 0 {
        assert(open[0] < open[at]);
        assert(cells[open[0] as int] == EMPTY);
    }
}

} // verus!
