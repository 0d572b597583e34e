//! Properties of moves and steps, proved over the spec model.

use vstd::prelude::*;
use vstd::arithmetic::div_mod::lemma_fundamental_div_mod_converse;
use crate::cell::{CellType, PRED_BIRTH_ENERGY};
use crate::grid::{
    GridState, cell_index, empty_neighbors, lemma_index_in_range, lemma_neighbor_set, lemma_neighbors,
    neighbor, open_empty_neighbors, open_prey_neighbors, prey_neighbors, wf_state,
};
use crate::step::{
    all_safe, chosen, lemma_play_preserves, play_model, restart, scan, unplayed_safe,
};

verus! {

/// Cell `x` is one of the eight neighbours of column `i`, row `j`.
pub open spec fn is_neighbor(w: int, h: int, i: int, j: int, x: int) -> bool {
    exists|k: int| 0 <= k < 8 && #[trigger] neighbor(w, h, i, j, k) == x
}

/// Every predator of the grid has an energy of at most 10.
pub open spec fn preds_bounded(s: GridState) -> bool {
    forall|x: int| 0 <= x < s.cells.len() && (#[trigger] s.cells[x]).is_pred() ==> s.cells[x].energy_of()
        <= PRED_BIRTH_ENERGY
}

/// The move of column `i`, row `j` is a predator feeding to an energy
/// above 10.
pub open spec fn feeds_above_birth(s: GridState, i: int, j: int, pick_prey: int) -> bool {
    let p = cell_index(s.width, i, j);
    let np = open_prey_neighbors(s, i, j);
    &&& !s.played[p]
    &&& s.cells[p].is_pred()
    &&& np.len() > 0
    &&& s.cells[p].energy_of() - 1 + s.cells[chosen(np, pick_prey)].energy_of() > PRED_BIRTH_ENERGY
}

proof fn lemma_wrap_coord(n: int, c: int)
    requires
        n > 0,
    ensures
        0 <= c < n ==> c % n == c,
        -1 % n == n - 1,
        n % n == 0,
{
    if 0 <= c < n {
        lemma_fundamental_div_mod_converse(c, n, 0, c);
    }
    lemma_fundamental_div_mod_converse(-1, n, -1, n - 1);
    lemma_fundamental_div_mod_converse(n, n, 1, 0);
}

/// The grid wraps around: the first and last columns are neighbours, and
/// so are the first and last rows.
pub proof fn lemma_wraparound(w: int, h: int, i: int, j: int)
    requires
        w > 0,
        h > 0,
        0 <= i < w,
        0 <= j < h,
    ensures
        is_neighbor(w, h, 0, j, cell_index(w, w - 1, j)),
        is_neighbor(w, h, w - 1, j, cell_index(w, 0, j)),
        is_neighbor(w, h, i, 0, cell_index(w, i, h - 1)),
        is_neighbor(w, h, i, h - 1, cell_index(w, i, 0)),
{
    lemma_wrap_coord(w, i);
    lemma_wrap_coord(h, j);
    lemma_wrap_coord(w, w - 1);
    lemma_wrap_coord(h, h - 1);
    lemma_wrap_coord(w, 0);
    lemma_wrap_coord(h, 0);
    assert(neighbor(w, h, 0, j, 1) == cell_index(w, w - 1, j));
    assert(neighbor(w, h, w - 1, j, 6) == cell_index(w, 0, j));
    assert(neighbor(w, h, i, 0, 3) == cell_index(w, i, h - 1));
    assert(neighbor(w, h, i, h - 1, 4) == cell_index(w, i, 0));
}

/// The neighbour lists wrap around the torus: an empty cell (or a prey) in
/// the last column of a row is listed for the first column of that row and
/// the other way round, and likewise for the first and last rows.
pub proof fn lemma_lists_wrap_around(s: GridState, i: int, j: int)
    requires
        wf_state(s),
        0 <= i < s.width,
        0 <= j < s.height,
    ensures
        s.cells[cell_index(s.width, s.width - 1, j)] == CellType::Nothing ==> empty_neighbors(s, 0, j).contains(
            cell_index(s.width, s.width - 1, j) as usize,
        ),
        s.cells[cell_index(s.width, 0, j)] == CellType::Nothing ==> empty_neighbors(s, s.width - 1, j).contains(
            cell_index(s.width, 0, j) as usize,
        ),
        s.cells[cell_index(s.width, i, s.height - 1)] == CellType::Nothing ==> empty_neighbors(s, i, 0).contains(
            cell_index(s.width, i, s.height - 1) as usize,
        ),
        s.cells[cell_index(s.width, i, 0)] == CellType::Nothing ==> empty_neighbors(s, i, s.height - 1).contains(
            cell_index(s.width, i, 0) as usize,
        ),
        s.cells[cell_index(s.width, s.width - 1, j)].is_prey() ==> prey_neighbors(s, 0, j).contains(
            cell_index(s.width, s.width - 1, j) as usize,
        ),
        s.cells[cell_index(s.width, 0, j)].is_prey() ==> prey_neighbors(s, s.width - 1, j).contains(
            cell_index(s.width, 0, j) as usize,
        ),
        s.cells[cell_index(s.width, i, s.height - 1)].is_prey() ==> prey_neighbors(s, i, 0).contains(
            cell_index(s.width, i, s.height - 1) as usize,
        ),
        s.cells[cell_index(s.width, i, 0)].is_prey() ==> prey_neighbors(s, i, s.height - 1).contains(
            cell_index(s.width, i, 0) as usize,
        ),
{
    let (w, h) = (s.width, s.height);
    lemma_wraparound(w, h, i, j);
    lemma_index_in_range(w, h, w - 1, j);
    lemma_index_in_range(w, h, 0, j);
    lemma_index_in_range(w, h, i, h - 1);
    lemma_index_in_range(w, h, i, 0);
    lemma_neighbor_set(s, 0, j, false);
    lemma_neighbor_set(s, w - 1, j, false);
    lemma_neighbor_set(s, i, 0, false);
    lemma_neighbor_set(s, i, h - 1, false);
    lemma_neighbor_set(s, 0, j, true);
    lemma_neighbor_set(s, w - 1, j, true);
    lemma_neighbor_set(s, i, 0, true);
    lemma_neighbor_set(s, i, h - 1, true);
}

/// A predator of energy 1 with no prey beside it starves: its cell becomes
/// empty.
pub proof fn lemma_starving_predator_dies(
    s: GridState,
    i: int,
    j: int,
    pick_prey: int,
    pick_empty: int,
)
    requires
        wf_state(s),
        0 <= i < s.width,
        0 <= j < s.height,
        s.cells[cell_index(s.width, i, j)] == (CellType::Pred { energy: 1 }),
        !s.played[cell_index(s.width, i, j)],
        open_prey_neighbors(s, i, j).len() == 0,
    ensures
        play_model(s, i, j, pick_prey, pick_empty).cells[cell_index(s.width, i, j)] == CellType::Nothing,
{
    lemma_index_in_range(s.width, s.height, i, j);
}

/// A move keeps every predator's energy within `0..=10`, unless it is a
/// predator feeding to an energy above 10.
pub proof fn lemma_pred_energy_bounded(
    s: GridState,
    i: int,
    j: int,
    pick_prey: int,
    pick_empty: int,
)
    requires
        wf_state(s),
        0 <= i < s.width,
        0 <= j < s.height,
        preds_bounded(s),
        !feeds_above_birth(s, i, j, pick_prey),
    ensures
        preds_bounded(play_model(s, i, j, pick_prey, pick_empty)),
{
    let p = cell_index(s.width, i, j);
    lemma_index_in_range(s.width, s.height, i, j);
    lemma_neighbors(s, i, j, 8, false, true);
    lemma_neighbors(s, i, j, 8, true, true);
    let ne = open_empty_neighbors(s, i, j);
    let np = open_prey_neighbors(s, i, j);
    if ne.len() > 0 {
        let t = pick_empty % (ne.len() as int);
        assert(ne[t] == ne[t]);
    }
    if np.len() > 0 {
        let t = pick_prey % (np.len() as int);
        assert(np[t] == np[t]);
    }
    let t = play_model(s, i, j, pick_prey, pick_empty);
    assert forall|x: int| 0 <= x < t.cells.len() && (#[trigger] t.cells[x]).is_pred() implies t.cells[x].energy_of()
        <= PRED_BIRTH_ENERGY by {
        assert(s.cells[x].energy_ok());
    }
}

/// A prey of energy 9 with an empty neighbour splits: it and the chosen
/// neighbour both hold a prey of energy 1, and every other cell is as it
/// was.
pub proof fn lemma_prey_fission(s: GridState, i: int, j: int, pick_prey: int, pick_empty: int)
    requires
        wf_state(s),
        0 <= i < s.width,
        0 <= j < s.height,
        s.cells[cell_index(s.width, i, j)] == (CellType::Prey { energy: 9 }),
        !s.played[cell_index(s.width, i, j)],
        open_empty_neighbors(s, i, j).len() > 0,
    ensures
        ({
            let p = cell_index(s.width, i, j);
            let m = chosen(open_empty_neighbors(s, i, j), pick_empty);
            let t = play_model(s, i, j, pick_prey, pick_empty);
            &&& m != p
            &&& s.cells[m] == CellType::Nothing
            &&& t.cells[p] == (CellType::Prey { energy: 1 })
            &&& t.cells[m] == (CellType::Prey { energy: 1 })
            &&& forall|x: int| 0 <= x < s.cells.len() && x != p && x != m ==> #[trigger] t.cells[x] == s.cells[x]
        }),
{
    lemma_index_in_range(s.width, s.height, i, j);
    lemma_neighbors(s, i, j, 8, false, true);
    let ne = open_empty_neighbors(s, i, j);
    let t = pick_empty % (ne.len() as int);
    assert(ne[t] == ne[t]);
}

/// Within one move, a cell that already acted stays marked and keeps its
/// content, and every cell that the move writes is marked.
pub proof fn lemma_move_respects_marks(s: GridState, i: int, j: int, pick_prey: int, pick_empty: int)
    requires
        wf_state(s),
        0 <= i < s.width,
        0 <= j < s.height,
    ensures
        ({
            let t = play_model(s, i, j, pick_prey, pick_empty);
            &&& t.cells.len() == s.cells.len()
            &&& forall|x: int|
                0 <= x < s.cells.len() && s.played[x] ==> #[trigger] t.played[x] && t.cells[x] == s.cells[x]
            &&& forall|x: int| 0 <= x < s.cells.len() && #[trigger] t.cells[x] != s.cells[x] ==> t.played[x]
        }),
{
    lemma_index_in_range(s.width, s.height, i, j);
    lemma_neighbors(s, i, j, 8, false, true);
    lemma_neighbors(s, i, j, 8, true, true);
    let ne = open_empty_neighbors(s, i, j);
    let np = open_prey_neighbors(s, i, j);
    if ne.len() > 0 {
        let t = pick_empty % (ne.len() as int);
        assert(ne[t] == ne[t]);
    }
    if np.len() > 0 {
        let t = pick_prey % (np.len() as int);
        assert(np[t] == np[t]);
    }
}

/// Any prefix of a step keeps the grid well formed, keeps its size, and
/// keeps the predators that have yet to act able to act safely.
pub proof fn lemma_scan_preserves(s: GridState, picks: Seq<(int, int)>)
    requires
        wf_state(s),
        unplayed_safe(s),
        picks.len() <= s.cells.len(),
    ensures
        wf_state(scan(s, picks)),
        unplayed_safe(scan(s, picks)),
        scan(s, picks).width == s.width,
        scan(s, picks).height == s.height,
    decreases picks.len(),
{
    if picks.len() > 0 {
        let k = picks.len() - 1;
        let prev = scan(s, picks.drop_last());
        lemma_scan_preserves(s, picks.drop_last());
        vstd::arithmetic::div_mod::lemma_multiply_divide_lt(k, s.width, s.height);
        let (i, j) = (k % s.width, k / s.width);
        lemma_index_in_range(s.width, s.height, i, j);
        lemma_play_preserves(prev, i, j, picks[k].0, picks[k].1);
    }
}

/// After a whole step the grid is well formed: one cell and one mark per
/// position, and every prey with an energy in `1..=9`.
pub proof fn lemma_step_keeps_invariants(s: GridState, picks: Seq<(int, int)>)
    requires
        wf_state(s),
        all_safe(s),
        picks.len() == s.cells.len(),
    ensures
        wf_state(scan(restart(s), picks)),
        scan(restart(s), picks).cells.len() == s.width * s.height,
        scan(restart(s), picks).played.len() == s.width * s.height,
        forall|x: int|
            0 <= x < s.cells.len() && (#[trigger] scan(restart(s), picks).cells[x]).is_prey() ==> 1
                <= scan(restart(s), picks).cells[x].energy_of() <= 9,
{
    let r = restart(s);
    assert(wf_state(r));
    lemma_scan_preserves(r, picks);
    let t = scan(r, picks);
    assert forall|x: int| 0 <= x < s.cells.len() && (#[trigger] t.cells[x]).is_prey() implies 1
        <= t.cells[x].energy_of() <= 9 by {
        assert(t.cells[x].energy_ok());
    }
}

/// Within a step, a cell that has acted stays marked to the end of the step
/// and keeps its content.
pub proof fn lemma_step_marks_hold(s: GridState, picks: Seq<(int, int)>, k: int)
    requires
        wf_state(s),
        unplayed_safe(s),
        0 <= k <= picks.len() <= s.cells.len(),
    ensures
        forall|x: int|
            0 <= x < s.cells.len() && #[trigger] scan(s, picks.take(k)).played[x] ==> scan(s, picks).played[x]
                && scan(s, picks).cells[x] == scan(s, picks.take(k)).cells[x],
    decreases picks.len(),
{
    if k == picks.len() {
        assert(picks.take(k) =~= picks);
    } else {
        let n = picks.len() - 1;
        let before = picks.drop_last();
        assert(before.take(k) =~= picks.take(k));
        lemma_step_marks_hold(s, before, k);
        lemma_scan_preserves(s, before);
        vstd::arithmetic::div_mod::lemma_multiply_divide_lt(n, s.width, s.height);
        let (i, j) = (n % s.width, n / s.width);
        lemma_move_respects_marks(scan(s, before), i, j, picks[n].0, picks[n].1);
        lemma_scan_preserves(s, picks.take(k));
    }
}

/// Within a step, every cell whose content changed is marked. With
/// `lemma_step_marks_hold`, a cell is written by at most one move of a
/// step: the first move that writes it marks it, and a marked cell is never
/// written again.
pub proof fn lemma_step_changes_marked(s: GridState, picks: Seq<(int, int)>)
    requires
        wf_state(s),
        unplayed_safe(s),
        picks.len() <= s.cells.len(),
    ensures
        forall|x: int|
            0 <= x < s.cells.len() && #[trigger] scan(s, picks).cells[x] != s.cells[x] ==> scan(s, picks).played[x],
    decreases picks.len(),
{
    if picks.len() > 0 {
        let n = picks.len() - 1;
        let before = picks.drop_last();
        lemma_step_changes_marked(s, before);
        lemma_scan_preserves(s, before);
        vstd::arithmetic::div_mod::lemma_multiply_divide_lt(n, s.width, s.height);
        let (i, j) = (n % s.width, n / s.width);
        lemma_move_respects_marks(scan(s, before), i, j, picks[n].0, picks[n].1);
    }
}

/// Over a step (or a prefix of one), every predator keeps an energy within
/// `0..=10`, provided that no move of the step is a predator feeding to an
/// energy above 10.
pub proof fn lemma_step_pred_energy_bounded(s: GridState, picks: Seq<(int, int)>)
    requires
        wf_state(s),
        unplayed_safe(s),
        preds_bounded(s),
        picks.len() <= s.cells.len(),
        forall|k: int|
            0 <= k < picks.len() ==> !feeds_above_birth(
                scan(s, picks.take(k)),
                k % s.width,
                k / s.width,
                (#[trigger] picks[k]).0,
            ),
    ensures
        preds_bounded(scan(s, picks)),
    decreases picks.len(),
{
    if picks.len() > 0 {
        let n = picks.len() - 1;
        let before = picks.drop_last();
        assert forall|k: int| 0 <= k < before.len() implies !feeds_above_birth(
            scan(s, before.take(k)),
            k % s.width,
            k / s.width,
            (#[trigger] before[k]).0,
        ) by {
            assert(before.take(k) =~= picks.take(k));
            assert(before[k] == picks[k]);
        }
        lemma_step_pred_energy_bounded(s, before);
        lemma_scan_preserves(s, before);
        assert(picks.take(n) =~= before);
        assert(picks[n] == picks[n]);
        vstd::arithmetic::div_mod::lemma_multiply_divide_lt(n, s.width, s.height);
        lemma_pred_energy_bounded(scan(s, before), n % s.width, n / s.width, picks[n].0, picks[n].1);
    }
}

} // verus!
