//! The rule of one move, and of a whole step, as spec functions.

use vstd::prelude::*;
use crate::cell::{CellType, PRED_BIRTH_ENERGY, PREY_SPLIT_ENERGY};
use crate::grid::{
    GridState, cell_index, lemma_index_in_range, lemma_neighbors, open_empty_neighbors,
    open_prey_neighbors, wf_state,
};

verus! {

/// A predator above this energy could overflow its energy by feeding.
pub const PRED_FEED_LIMIT: u8 = 247;

/// The cell can act without its energy leaving the range of `u8`.
pub open spec fn feed_safe(c: CellType) -> bool {
    c is Pred ==> c.energy_of() <= PRED_FEED_LIMIT
}

/// Every predator that has not yet acted in this step can act safely.
pub open spec fn unplayed_safe(s: GridState) -> bool {
    forall|x: int| 0 <= x < s.cells.len() && !s.played[x] ==> feed_safe(#[trigger] s.cells[x])
}

/// Every predator of the grid can act safely.
pub open spec fn all_safe(s: GridState) -> bool {
    forall|x: int| 0 <= x < s.cells.len() ==> feed_safe(#[trigger] s.cells[x])
}

/// Cell `x` takes the value `c` and is marked as having acted.
pub open spec fn put(s: GridState, x: int, c: CellType) -> GridState {
    GridState { cells: s.cells.update(x, c), played: s.played.update(x, true), ..s }
}

/// Cell `x` is left empty and marked, so that nothing enters it again
/// within the step.
pub open spec fn vacate(s: GridState, x: int) -> GridState {
    put(s, x, CellType::Nothing)
}

/// The element of a non-empty list that a pick selects.
pub open spec fn chosen(l: Seq<usize>, pick: int) -> int {
    l[pick % (l.len() as int)] as int
}

/// Energy of a prey that grows without room to move: it never reaches the
/// split energy.
pub open spec fn grown_in_place(e: int) -> int {
    if e + 1 >= PREY_SPLIT_ENERGY {
        PREY_SPLIT_ENERGY - 1
    } else {
        e + 1
    }
}

/// The move of the cell at column `i`, row `j`: `pick_prey` selects the
/// prey eaten by a predator, `pick_empty` the empty cell moved into, each
/// taken modulo the number of candidates. Only cells that have not acted in
/// the step are candidates, and every cell that the move writes is marked.
/// A predator that can both move and eat moves into an empty neighbour, not
/// into the prey's cell.
pub open spec fn play_model(s: GridState, i: int, j: int, pick_prey: int, pick_empty: int) -> GridState {
    let p = cell_index(s.width, i, j);
    let ne = open_empty_neighbors(s, i, j);
    let np = open_prey_neighbors(s, i, j);
    if s.played[p] {
        s
    } else {
        match s.cells[p] {
            CellType::Nothing => s,
            CellType::Pred { energy } => {
                let e = energy as int;
                if e - 1 <= 0 && np.len() == 0 {
                    vacate(s, p)
                } else if ne.len() == 0 && np.len() == 0 {
                    put(s, p, CellType::Pred { energy: (e - 1) as u8 })
                } else if np.len() == 0 {
                    vacate(put(s, chosen(ne, pick_empty), CellType::Pred { energy: (e - 1) as u8 }), p)
                } else {
                    let q = chosen(np, pick_prey);
                    let fed = CellType::Pred { energy: (e + s.cells[q].energy_of() - 1) as u8 };
                    let eaten = put(s, q, CellType::Pred { energy: PRED_BIRTH_ENERGY });
                    if ne.len() == 0 {
                        put(eaten, p, fed)
                    } else {
                        vacate(put(eaten, chosen(ne, pick_empty), fed), p)
                    }
                }
            },
            CellType::Prey { energy } => {
                let e = energy as int;
                if ne.len() == 0 {
                    put(s, p, CellType::Prey { energy: grown_in_place(e) as u8 })
                } else if e + 1 < PREY_SPLIT_ENERGY {
                    vacate(put(s, chosen(ne, pick_empty), CellType::Prey { energy: (e + 1) as u8 }), p)
                } else {
                    let one = CellType::Prey { energy: 1 };
                    put(put(s, chosen(ne, pick_empty), one), p, one)
                }
            },
        }
    }
}

/// The state at the start of a step: no cell has acted yet.
pub open spec fn restart(s: GridState) -> GridState {
    GridState { played: Seq::new(s.cells.len(), |x: int| false), ..s }
}

/// The state after the first `picks.len()` cells, in row-major order, have
/// made their moves with the given picks.
pub open spec fn scan(s: GridState, picks: Seq<(int, int)>) -> GridState
    decreases picks.len(),
{
    if picks.len() == 0 {
        s
    } else {
        let k = picks.len() - 1;
        play_model(scan(s, picks.drop_last()), k % s.width, k / s.width, picks[k].0, picks[k].1)
    }
}

/// One move keeps the grid well formed and keeps every predator that has
/// yet to act able to act safely.
pub proof fn lemma_play_preserves(s: GridState, i: int, j: int, pick_prey: int, pick_empty: int)
    requires
        wf_state(s),
        0 <= i < s.width,
        0 <= j < s.height,
        feed_safe(s.cells[cell_index(s.width, i, j)]) || s.played[cell_index(s.width, i, j)],
    ensures
        wf_state(play_model(s, i, j, pick_prey, pick_empty)),
        play_model(s, i, j, pick_prey, pick_empty).width == s.width,
        play_model(s, i, j, pick_prey, pick_empty).height == s.height,
        unplayed_safe(s) ==> unplayed_safe(play_model(s, i, j, pick_prey, pick_empty)),
{
    lemma_index_in_range(s.width, s.height, i, j);
    lemma_neighbors(s, i, j, 8, false, true);
    lemma_neighbors(s, i, j, 8, true, true);
    let ne = open_empty_neighbors(s, i, j);
    let np = open_prey_neighbors(s, i, j);
    if ne.len() > 0 {
        let t = pick_empty % (ne.len() as int);
        assert(0 <= t < ne.len());
        assert(ne[t] == ne[t]);
    }
    if np.len() > 0 {
        let t = pick_prey % (np.len() as int);
        assert(0 <= t < np.len());
        assert(np[t] == np[t]);
    }
    let t = play_model(s, i, j, pick_prey, pick_empty);
    assert forall|x: int| 0 <= x < t.cells.len() implies (#[trigger] t.cells[x]).energy_ok() by {
        assert(s.cells[x].energy_ok());
    }
}

} // verus!
