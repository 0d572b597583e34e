//! The grid, its neighbourhoods and the executable step.

use vstd::prelude::*;
use crate::cell::{
    CellType, cell_from_draw, is_seeded, seeded_cell, PRED_BIRTH_ENERGY, PREY_SPLIT_ENERGY,
    SEED_DRAW_RANGE,
};
use crate::draw::random_below;
use crate::step::{
    PRED_FEED_LIMIT, all_safe, chosen, feed_safe, lemma_play_preserves, play_model, restart, scan,
    unplayed_safe,
};

verus! {

/// The mathematical state of a grid: its size, its cells in row-major order
/// and, for each cell, whether it already took part in the current step.
pub struct GridState {
    pub width: int,
    pub height: int,
    pub cells: Seq<CellType>,
    pub played: Seq<bool>,
}

/// Position in the flat cell sequence of column `i`, row `j`.
pub open spec fn cell_index(w: int, i: int, j: int) -> int {
    j * w + i
}

/// The grid is a torus: column and row numbers are taken modulo its size.
pub open spec fn wrapped(w: int, h: int, i: int, j: int) -> int {
    cell_index(w, i % w, j % h)
}

/// The `k`-th of the eight neighbour offsets `(di, dj)`, scanning `di` and
/// then `dj` over `-1..=1` and skipping the cell itself.
pub open spec fn offset(k: int) -> (int, int) {
    let m = if k < 4 { k } else { k + 1 };
    (m / 3 - 1, m % 3 - 1)
}

/// Index of the `k`-th neighbour of column `i`, row `j`.
pub open spec fn neighbor(w: int, h: int, i: int, j: int, k: int) -> int {
    wrapped(w, h, i + offset(k).0, j + offset(k).1)
}

/// Whether neighbour cell `n` belongs in a list: a prey (or, when `prey`
/// is false, an empty cell) that, when `fresh` holds, has not acted in the
/// current step.
pub open spec fn wanted(s: GridState, n: int, prey: bool, fresh: bool) -> bool {
    &&& if prey {
        s.cells[n].is_prey()
    } else {
        s.cells[n] == CellType::Nothing
    }
    &&& (fresh ==> !s.played[n])
}

/// The wanted cells among the first `k` neighbours of column `i`, row `j`,
/// in scan order, each listed once.
pub open spec fn neighbors_upto(s: GridState, i: int, j: int, k: int, prey: bool, fresh: bool) -> Seq<usize>
    decreases k,
{
    if k <= 0 {
        seq![]
    } else {
        let prev = neighbors_upto(s, i, j, k - 1, prey, fresh);
        let n = neighbor(s.width, s.height, i, j, k - 1);
        if wanted(s, n, prey, fresh) && !prev.contains(n as usize) {
            prev.push(n as usize)
        } else {
            prev
        }
    }
}

/// The set of empty neighbours of column `i`, row `j`, in scan order.
pub open spec fn empty_neighbors(s: GridState, i: int, j: int) -> Seq<usize> {
    neighbors_upto(s, i, j, 8, false, false)
}

/// The set of prey neighbours of column `i`, row `j`, in scan order.
pub open spec fn prey_neighbors(s: GridState, i: int, j: int) -> Seq<usize> {
    neighbors_upto(s, i, j, 8, true, false)
}

/// The empty neighbours of column `i`, row `j` that have not acted in the
/// current step: the cells a creature there may move into.
pub open spec fn open_empty_neighbors(s: GridState, i: int, j: int) -> Seq<usize> {
    neighbors_upto(s, i, j, 8, false, true)
}

/// The prey neighbours of column `i`, row `j` that have not acted in the
/// current step: the prey a predator there may eat.
pub open spec fn open_prey_neighbors(s: GridState, i: int, j: int) -> Seq<usize> {
    neighbors_upto(s, i, j, 8, true, true)
}

/// A well-formed grid state: a positive size, one cell and one flag per
/// position, and creatures whose energies are in their ranges.
pub open spec fn wf_state(s: GridState) -> bool {
    &&& 0 < s.width <= i64::MAX
    &&& 0 < s.height <= i64::MAX
    &&& s.width * s.height <= usize::MAX
    &&& s.width * s.height <= i64::MAX
    &&& s.cells.len() == s.width * s.height
    &&& s.played.len() == s.width * s.height
    &&& forall|x: int| 0 <= x < s.cells.len() ==> (#[trigger] s.cells[x]).energy_ok()
}

pub proof fn lemma_index_in_range(w: int, h: int, i: int, j: int)
    requires
        0 <= i < w,
        0 <= j < h,
    ensures
        0 <= cell_index(w, i, j) < w * h,
{
    assert(0 <= j * w + i < w * h) by (nonlinear_arith)
        requires
            0 <= i < w,
            0 <= j < h,
    ;
}

pub proof fn lemma_neighbor_in_range(w: int, h: int, i: int, j: int, k: int)
    requires
        w > 0,
        h > 0,
    ensures
        0 <= neighbor(w, h, i, j, k) < w * h,
{
    lemma_index_in_range(w, h, (i + offset(k).0) % w, (j + offset(k).1) % h);
}

/// A neighbour list has no repeats, and its entries are exactly the wanted
/// cells among the first `k` neighbours.
pub proof fn lemma_neighbors(s: GridState, i: int, j: int, k: int, prey: bool, fresh: bool)
    requires
        wf_state(s),
        0 <= k,
    ensures
        neighbors_upto(s, i, j, k, prey, fresh).len() <= k,
        neighbors_upto(s, i, j, k, prey, fresh).no_duplicates(),
        forall|t: int|
            0 <= t < neighbors_upto(s, i, j, k, prey, fresh).len() ==> {
                let x = #[trigger] neighbors_upto(s, i, j, k, prey, fresh)[t] as int;
                0 <= x < s.cells.len() && wanted(s, x, prey, fresh) && exists|m: int|
                    0 <= m < k && #[trigger] neighbor(s.width, s.height, i, j, m) == x
            },
        forall|m: int|
            0 <= m < k && wanted(s, #[trigger] neighbor(s.width, s.height, i, j, m), prey, fresh)
                ==> neighbors_upto(s, i, j, k, prey, fresh).contains(
                neighbor(s.width, s.height, i, j, m) as usize,
            ),
    decreases k,
{
    if k > 0 {
        lemma_neighbors(s, i, j, k - 1, prey, fresh);
        lemma_neighbor_in_range(s.width, s.height, i, j, k - 1);
        let prev = neighbors_upto(s, i, j, k - 1, prey, fresh);
        let cur = neighbors_upto(s, i, j, k, prey, fresh);
        assert forall|t: int| 0 <= t < prev.len() implies cur.contains(#[trigger] prev[t]) by {
            assert(cur[t] == prev[t]);
        }
        assert forall|t: int| 0 <= t < cur.len() implies ({
            let x = #[trigger] cur[t] as int;
            0 <= x < s.cells.len() && wanted(s, x, prey, fresh) && exists|m: int|
                0 <= m < k && #[trigger] neighbor(s.width, s.height, i, j, m) == x
        }) by {
            if t < prev.len() {
                assert(cur[t] == prev[t]);
                let x = prev[t] as int;
                let m = choose|m: int| 0 <= m < k - 1 && #[trigger] neighbor(s.width, s.height, i, j, m) == x;
                assert(neighbor(s.width, s.height, i, j, m) == x);
            } else {
                assert(neighbor(s.width, s.height, i, j, k - 1) == cur[t] as int);
            }
        }
        assert forall|m: int|
            0 <= m < k && wanted(s, #[trigger] neighbor(s.width, s.height, i, j, m), prey, fresh) implies cur.contains(
            neighbor(s.width, s.height, i, j, m) as usize,
        ) by {
            if m < k - 1 {
                let x = neighbor(s.width, s.height, i, j, m) as usize;
                let t = choose|t: int| 0 <= t < prev.len() && prev[t] == x;
                assert(cur.contains(prev[t]));
            } else if !prev.contains(neighbor(s.width, s.height, i, j, m) as usize) {
                assert(cur[cur.len() - 1] == neighbor(s.width, s.height, i, j, m) as usize);
            } else {
                let x = neighbor(s.width, s.height, i, j, m) as usize;
                let t = choose|t: int| 0 <= t < prev.len() && prev[t] == x;
                assert(cur.contains(prev[t]));
            }
        }
    }
}

/// The full neighbour lists (those that ignore marks) have no repeats, hold
/// at most eight entries, and contain exactly the neighbours of the wanted
/// kind.
pub proof fn lemma_neighbor_set(s: GridState, i: int, j: int, prey: bool)
    requires
        wf_state(s),
    ensures
        neighbors_upto(s, i, j, 8, prey, false).no_duplicates(),
        neighbors_upto(s, i, j, 8, prey, false).len() <= 8,
        forall|x: int|
            neighbors_upto(s, i, j, 8, prey, false).contains(x as usize) && 0 <= x < s.cells.len() <==> (0 <= x
                < s.cells.len() && (if prey {
                s.cells[x].is_prey()
            } else {
                s.cells[x] == CellType::Nothing
            }) && exists|m: int| 0 <= m < 8 && #[trigger] neighbor(s.width, s.height, i, j, m) == x),
{
    lemma_neighbors(s, i, j, 8, prey, false);
    let l = neighbors_upto(s, i, j, 8, prey, false);
    assert forall|x: int| l.contains(x as usize) && 0 <= x < s.cells.len() implies (if prey {
        s.cells[x].is_prey()
    } else {
        s.cells[x] == CellType::Nothing
    }) && exists|m: int| 0 <= m < 8 && #[trigger] neighbor(s.width, s.height, i, j, m) == x by {
        let t = choose|t: int| 0 <= t < l.len() && l[t] == x as usize;
        assert(l[t] as int == x);
    }
    assert forall|x: int|
        0 <= x < s.cells.len() && (if prey {
            s.cells[x].is_prey()
        } else {
            s.cells[x] == CellType::Nothing
        }) && (exists|m: int| 0 <= m < 8 && #[trigger] neighbor(s.width, s.height, i, j, m) == x) implies l.contains(
        x as usize,
    ) by {
        let m = choose|m: int| 0 <= m < 8 && #[trigger] neighbor(s.width, s.height, i, j, m) == x;
        assert(wanted(s, neighbor(s.width, s.height, i, j, m), prey, false));
    }
}

/// A predator/prey grid on a torus.
pub struct Grid {
    width: i64,
    height: i64,
    cells: Vec<CellType>,
    played: Vec<bool>,
}

impl View for Grid {
    type V = GridState;

    closed spec fn view(&self) -> GridState {
        GridState {
            width: self.width as int,
            height: self.height as int,
            cells: self.cells@,
            played: self.played@,
        }
    }
}

/// Whether `x` is already in `v`.
fn listed(v: &Vec<usize>, x: usize) -> (b: bool)
    ensures
        b == v@.contains(x),
{
    let mut k: usize = 0;
    while k < v.len()
        invariant
            k <= v@.len(),
            forall|y: int| 0 <= y < k ==> v@[y] != x,
        decreases v@.len() - k,
    {
        if v[k] == x {
            return true;
        }
        k = k + 1;
    }
    false
}

/// The `k`-th neighbour offset, as `offset` gives it.
fn neighbor_offset(k: usize) -> (r: (i64, i64))
    requires
        k < 8,
    ensures
        r.0 as int == offset(k as int).0,
        r.1 as int == offset(k as int).1,
{
    let m: usize = if k < 4 { k } else { k + 1 };
    ((m / 3) as i64 - 1, (m % 3) as i64 - 1)
}

impl Grid {
    pub open spec fn wf(&self) -> bool {
        wf_state(self@)
    }

    /// Position in the cell sequence of column `i`, row `j`.
    pub fn index(&self, i: i64, j: i64) -> (r: usize)
        requires
            self.wf(),
            0 <= i < self@.width,
            0 <= j < self@.height,
        ensures
            r as int == cell_index(self@.width, i as int, j as int),
            r < self@.cells.len(),
    {
        proof {
            lemma_index_in_range(self.width as int, self.height as int, i as int, j as int);
        }
        (j * self.width + i) as usize
    }

    /// Position in the cell sequence of column `i`, row `j`, each taken
    /// modulo the grid's size.
    pub fn wrapped_index(&self, i: i64, j: i64) -> (r: usize)
        requires
            self.wf(),
        ensures
            r as int == wrapped(self@.width, self@.height, i as int, j as int),
            r < self@.cells.len(),
    {
        let iw = i.checked_rem_euclid(self.width).unwrap();
        let jw = j.checked_rem_euclid(self.height).unwrap();
        self.index(iw, jw)
    }

    /// Fills `neigs` with the wanted cells (see `wanted`) among the eight
    /// neighbours of column `i`, row `j`, in scan order, each listed once.
    fn collect_neigs(&self, neigs: &mut Vec<usize>, i: &i64, j: &i64, prey: bool, fresh: bool)
        requires
            self.wf(),
            0 <= *i < self@.width,
            0 <= *j < self@.height,
        ensures
            final(neigs)@ == neighbors_upto(self@, *i as int, *j as int, 8, prey, fresh),
    {
        neigs.clear();
        let mut k: usize = 0;
        while k < 8
            invariant
                self.wf(),
                0 <= *i < self@.width,
                0 <= *j < self@.height,
                k <= 8,
                neigs@ == neighbors_upto(self@, *i as int, *j as int, k as int, prey, fresh),
            decreases 8 - k,
        {
            let (di, dj) = neighbor_offset(k);
            let idx = self.wrapped_index(*i + di, *j + dj);
            let kind = match self.cells[idx] {
                CellType::Nothing => !prey,
                CellType::Prey { .. } => prey,
                CellType::Pred { .. } => false,
            };
            if kind && !(fresh && self.played[idx]) && !listed(neigs, idx) {
                neigs.push(idx);
            }
            k = k + 1;
        }
    }

    /// Fills `neigs` with the set of empty neighbours of column `i`, row `j`,
    /// in scan order.
    pub fn find_nothing_neigs(&self, neigs: &mut Vec<usize>, i: &i64, j: &i64)
        requires
            self.wf(),
            0 <= *i < self@.width,
            0 <= *j < self@.height,
        ensures
            final(neigs)@ == empty_neighbors(self@, *i as int, *j as int),
            final(neigs)@.no_duplicates(),
            final(neigs)@.len() <= 8,
            forall|x: int|
                final(neigs)@.contains(x as usize) && 0 <= x < self@.cells.len() <==> (0 <= x
                    < self@.cells.len() && self@.cells[x] == CellType::Nothing && exists|m: int|
                    0 <= m < 8 && #[trigger] neighbor(self@.width, self@.height, *i as int, *j as int, m) == x),
    {
        proof {
            lemma_neighbor_set(self@, *i as int, *j as int, false);
        }
        self.collect_neigs(neigs, i, j, false, false);
    }

    /// Fills `neigs` with the set of prey neighbours of column `i`, row `j`,
    /// in scan order.
    pub fn find_prey_neigs(&self, neigs: &mut Vec<usize>, i: &i64, j: &i64)
        requires
            self.wf(),
            0 <= *i < self@.width,
            0 <= *j < self@.height,
        ensures
            final(neigs)@ == prey_neighbors(self@, *i as int, *j as int),
            final(neigs)@.no_duplicates(),
            final(neigs)@.len() <= 8,
            forall|x: int|
                final(neigs)@.contains(x as usize) && 0 <= x < self@.cells.len() <==> (0 <= x
                    < self@.cells.len() && self@.cells[x].is_prey() && exists|m: int|
                    0 <= m < 8 && #[trigger] neighbor(self@.width, self@.height, *i as int, *j as int, m) == x),
    {
        proof {
            lemma_neighbor_set(self@, *i as int, *j as int, true);
        }
        self.collect_neigs(neigs, i, j, true, false);
    }
}

/// The energy of a prey or predator.
fn energy(c: &CellType) -> (e: u8)
    ensures
        e as int == c.energy_of(),
{
    match c {
        CellType::Nothing => 0,
        CellType::Prey { energy } => *energy,
        CellType::Pred { energy } => *energy,
    }
}

impl Grid {
    /// Makes the move of the cell at column `i`, row `j`, given its empty
    /// and (for a predator) prey neighbours and the two picks.
    fn play_with_lists(
        &mut self,
        i: i64,
        j: i64,
        empties: &Vec<usize>,
        preys: &Vec<usize>,
        pick_prey: usize,
        pick_empty: usize,
    )
        requires
            old(self).wf(),
            0 <= i < old(self)@.width,
            0 <= j < old(self)@.height,
            empties@ == open_empty_neighbors(old(self)@, i as int, j as int),
            old(self)@.cells[cell_index(old(self)@.width, i as int, j as int)] is Pred ==> preys@
                == open_prey_neighbors(old(self)@, i as int, j as int),
            feed_safe(old(self)@.cells[cell_index(old(self)@.width, i as int, j as int)]),
        ensures
            final(self)@ == play_model(old(self)@, i as int, j as int, pick_prey as int, pick_empty as int),
    {
        let ghost s = self@;
        let idx_cell = self.index(i, j);
        if self.played[idx_cell] {
            return;
        }
        proof {
            lemma_neighbors(s, i as int, j as int, 8, false, true);
            lemma_neighbors(s, i as int, j as int, 8, true, true);
        }
        match self.cells[idx_cell] {
            CellType::Pred { energy: e } => {
                if e <= 1 && preys.len() == 0 {
                    // Starves: nothing to eat and no energy left
                    self.cells.set(idx_cell, CellType::Nothing);
                    self.played.set(idx_cell, true);
                } else if empties.len() == 0 && preys.len() == 0 {
                    // Can not move and can not eat
                    self.cells.set(idx_cell, CellType::Pred { energy: e - 1 });
                    self.played.set(idx_cell, true);
                } else if preys.len() == 0 {
                    // Can move and can not eat
                    let idx_neig = empties[pick_empty % empties.len()];
                    self.cells.set(idx_neig, CellType::Pred { energy: e - 1 });
                    self.played.set(idx_neig, true);
                    self.cells.set(idx_cell, CellType::Nothing);
                    self.played.set(idx_cell, true);
                } else {
                    // Can eat: the prey becomes a new predator
                    let idx_prey = preys[pick_prey % preys.len()];
                    proof {
                        let t = pick_prey as int % (preys@.len() as int);
                        assert(preys@[t] == preys@[t]);
                    }
                    let e_prey = energy(&self.cells[idx_prey]);
                    self.cells.set(idx_prey, CellType::Pred { energy: PRED_BIRTH_ENERGY });
                    self.played.set(idx_prey, true);
                    if empties.len() == 0 {
                        // Can not move: feeds in place
                        self.cells.set(idx_cell, CellType::Pred { energy: e + (e_prey - 1) });
                        self.played.set(idx_cell, true);
                    } else {
                        // Can move: feeds and moves to an empty neighbour
                        let idx_neig = empties[pick_empty % empties.len()];
                        self.cells.set(idx_neig, CellType::Pred { energy: e + (e_prey - 1) });
                        self.played.set(idx_neig, true);
                        self.cells.set(idx_cell, CellType::Nothing);
                        self.played.set(idx_cell, true);
                    }
                }
            },
            CellType::Prey { energy: e } => {
                if empties.len() == 0 {
                    // Can not move: grows in place
                    let grown = if e + 1 >= PREY_SPLIT_ENERGY { PREY_SPLIT_ENERGY - 1 } else { e + 1 };
                    self.cells.set(idx_cell, CellType::Prey { energy: grown });
                    self.played.set(idx_cell, true);
                } else {
                    let idx_neig = empties[pick_empty % empties.len()];
                    if e + 1 < PREY_SPLIT_ENERGY {
                        // Moves to an empty neighbour and grows
                        self.cells.set(idx_neig, CellType::Prey { energy: e + 1 });
                        self.played.set(idx_neig, true);
                        self.cells.set(idx_cell, CellType::Nothing);
                        self.played.set(idx_cell, true);
                    } else {
                        // Splits: one child moves, the other stays, both at energy one
                        self.cells.set(idx_neig, CellType::Prey { energy: 1 });
                        self.played.set(idx_neig, true);
                        self.cells.set(idx_cell, CellType::Prey { energy: 1 });
                        self.played.set(idx_cell, true);
                    }
                }
            },
            CellType::Nothing => {},
        }
    }
}

impl Grid {
    /// Makes the move of the cell at column `i`, row `j` within the current
    /// step, with `pick_prey` selecting the prey that a predator eats and
    /// `pick_empty` the empty neighbour moved into, each modulo the number of
    /// candidates. A cell that already acted in this step, or an empty cell,
    /// stays as it is.
    pub fn play_cell(&mut self, i: i64, j: i64, pick_prey: usize, pick_empty: usize)
        requires
            old(self).wf(),
            0 <= i < old(self)@.width,
            0 <= j < old(self)@.height,
            feed_safe(old(self)@.cells[cell_index(old(self)@.width, i as int, j as int)]),
        ensures
            final(self).wf(),
            final(self)@ == play_model(old(self)@, i as int, j as int, pick_prey as int, pick_empty as int),
    {
        let mut nothing_neigs: Vec<usize> = Vec::new();
        let mut prey_neigs: Vec<usize> = Vec::new();
        self.collect_neigs(&mut nothing_neigs, &i, &j, false, true);
        self.collect_neigs(&mut prey_neigs, &i, &j, true, true);
        proof {
            lemma_play_preserves(self@, i as int, j as int, pick_prey as int, pick_empty as int);
        }
        self.play_with_lists(i, j, &nothing_neigs, &prey_neigs, pick_prey, pick_empty);
    }

    /// Advances the grid by one step: clears every mark, then lets each cell
    /// in row-major order make its move unless it already took part in an
    /// earlier move of this step. Each choice among neighbours is a uniform
    /// random draw among the neighbours that have not acted in this step. A
    /// predator that can both move and eat moves into an empty neighbour.
    /// Every cell that a move writes is marked, so no cell takes part in more
    /// than one move of a step.
    pub fn update(&mut self)
        requires
            old(self).wf(),
            all_safe(old(self)@),
        ensures
            final(self).wf(),
            final(self)@.width == old(self)@.width,
            final(self)@.height == old(self)@.height,
            exists|picks: Seq<(int, int)>|
                picks.len() == old(self)@.cells.len() && #[trigger] scan(restart(old(self)@), picks)
                    == final(self)@,
    {
        let n = self.cells.len();
        // Reset played
        let mut x: usize = 0;
        while x < n
            invariant
                self.wf(),
                n == self@.cells.len(),
                x <= n,
                self@.width == old(self)@.width,
                self@.height == old(self)@.height,
                self@.cells == old(self)@.cells,
                forall|y: int| 0 <= y < x ==> !#[trigger] self@.played[y],
            decreases n - x,
        {
            self.played.set(x, false);
            x = x + 1;
        }
        let ghost start = self@;
        assert(start.played =~= restart(old(self)@).played);
        assert(start == restart(old(self)@));
        let ghost mut picks: Seq<(int, int)> = seq![];
        let mut nothing_neigs: Vec<usize> = Vec::new();
        let mut prey_neigs: Vec<usize> = Vec::new();
        proof {
            let (w0, h0) = (self@.width, self@.height);
            assert(w0 <= w0 * h0) by (nonlinear_arith)
                requires
                    w0 > 0,
                    h0 > 0,
            ;
        }
        let w = self.width as usize;
        let mut k: usize = 0;
        while k < n
            invariant
                self.wf(),
                n == self@.cells.len(),
                w == self@.width,
                k <= n,
                self@.width == start.width,
                self@.height == start.height,
                start.width == old(self)@.width,
                unplayed_safe(self@),
                picks.len() == k,
                self@ == scan(start, picks),
            decreases n - k,
        {
            let ghost s = self@;
            proof {
                vstd::arithmetic::div_mod::lemma_multiply_divide_lt(k as int, w as int, s.height);
                vstd::arithmetic::div_mod::lemma_fundamental_div_mod(k as int, w as int);
                vstd::arithmetic::mul::lemma_mul_is_commutative(w as int, k as int / w as int);
            }
            let i = (k % w) as i64;
            let j = (k / w) as i64;
            let idx_cell = self.index(i, j);
            assert(idx_cell == k);
            let mut pick_prey: usize = 0;
            let mut pick_empty: usize = 0;
            if !self.played[idx_cell] {
                let is_pred = match self.cells[idx_cell] {
                    CellType::Pred { .. } => true,
                    _ => false,
                };
                self.collect_neigs(&mut nothing_neigs, &i, &j, false, true);
                if is_pred {
                    self.collect_neigs(&mut prey_neigs, &i, &j, true, true);
                    if prey_neigs.len() > 0 {
                        pick_prey = random_below(prey_neigs.len());
                    }
                }
                if nothing_neigs.len() > 0 {
                    pick_empty = random_below(nothing_neigs.len());
                }
                self.play_with_lists(i, j, &nothing_neigs, &prey_neigs, pick_prey, pick_empty);
            }
            proof {
                lemma_play_preserves(s, i as int, j as int, pick_prey as int, pick_empty as int);
                let old_picks = picks;
                picks = picks.push((pick_prey as int, pick_empty as int));
                assert(picks.drop_last() =~= old_picks);
            }
            k = k + 1;
        }
        assert(picks.len() == old(self)@.cells.len());
    }
}

impl Grid {
    /// A `w` by `h` grid whose cells are seeded independently at random: 80
    /// percent empty, 15 percent prey of energy 1, 5 percent predators of
    /// energy 10. No cell has acted yet.
    pub fn new(w: i64, h: i64) -> (g: Self)
        requires
            0 < w,
            0 < h,
            w * h <= usize::MAX,
            w * h <= i64::MAX,
        ensures
            g.wf(),
            g@.width == w,
            g@.height == h,
            forall|x: int| 0 <= x < g@.played.len() ==> !#[trigger] g@.played[x],
            forall|x: int| 0 <= x < g@.cells.len() ==> is_seeded(#[trigger] g@.cells[x]),
    {
        let n = (w * h) as usize;
        let mut draws: Vec<usize> = Vec::new();
        let mut x: usize = 0;
        while x < n
            invariant
                x <= n,
                n == w * h,
                draws@.len() == x,
                forall|y: int| 0 <= y < x ==> (#[trigger] draws@[y]) < SEED_DRAW_RANGE,
            decreases n - x,
        {
            draws.push(random_below(SEED_DRAW_RANGE));
            x = x + 1;
        }
        let g = Grid::from_draws(w, h, &draws);
        assert forall|x: int| 0 <= x < g@.cells.len() implies is_seeded(#[trigger] g@.cells[x]) by {
            assert(g@.cells[x] == seeded_cell(draws@[x] as int));
        }
        g
    }

    /// A `w` by `h` grid whose cell at position `x`, in row-major order, is
    /// the one that `draws[x]` seeds. No cell has acted yet.
    pub fn from_draws(w: i64, h: i64, draws: &Vec<usize>) -> (g: Self)
        requires
            0 < w,
            0 < h,
            w * h <= usize::MAX,
            w * h <= i64::MAX,
            draws@.len() == w * h,
        ensures
            g.wf(),
            g@.width == w,
            g@.height == h,
            forall|x: int| 0 <= x < g@.played.len() ==> !#[trigger] g@.played[x],
            forall|x: int| 0 <= x < g@.cells.len() ==> #[trigger] g@.cells[x] == seeded_cell(draws@[x] as int),
    {
        let n = draws.len();
        let mut cells: Vec<CellType> = Vec::new();
        let mut played: Vec<bool> = Vec::new();
        let mut x: usize = 0;
        while x < n
            invariant
                x <= n,
                n == draws@.len(),
                cells@.len() == x,
                played@.len() == x,
                forall|y: int| 0 <= y < x ==> !#[trigger] played@[y],
                forall|y: int| 0 <= y < x ==> (#[trigger] cells@[y]).energy_ok(),
                forall|y: int| 0 <= y < x ==> #[trigger] cells@[y] == seeded_cell(draws@[y] as int),
            decreases n - x,
        {
            cells.push(cell_from_draw(draws[x]));
            played.push(false);
            x = x + 1;
        }
        Grid { width: w, height: h, cells, played }
    }

    /// A `w` by `h` grid holding `cells` in row-major order, with no cell
    /// marked as having acted; `None` unless both sizes are positive, their
    /// product fits in `i64`, there is one cell per position, every prey has
    /// an energy in `1..=9`.
    pub fn from_cells(w: i64, h: i64, cells: Vec<CellType>) -> (r: Option<Self>)
        ensures
            r is Some <==> (0 < w && 0 < h && w * h <= i64::MAX && cells@.len() == w * h && forall|
                x: int,
            |
                0 <= x < cells@.len() ==> (#[trigger] cells@[x]).energy_ok()),
            r matches Some(g) ==> g.wf() && g@.width == w && g@.height == h && g@.cells
                == cells@ && forall|x: int| 0 <= x < g@.played.len() ==> !#[trigger] g@.played[x],
    {
        if w <= 0 || h <= 0 {
            return None;
        }
        let size = match w.checked_mul(h) {
            Some(v) => v,
            None => {
                return None;
            },
        };
        let n = cells.len();
        if size as i128 != n as i128 {
            return None;
        }
        let mut played: Vec<bool> = Vec::new();
        let mut x: usize = 0;
        while x < n
            invariant
                x <= n,
                n == cells@.len(),
                played@.len() == x,
                forall|y: int| 0 <= y < x ==> !#[trigger] played@[y],
                forall|y: int| 0 <= y < x ==> (#[trigger] cells@[y]).energy_ok(),
            decreases n - x,
        {
            let ok = match cells[x] {
                CellType::Nothing => true,
                CellType::Prey { energy } => 1 <= energy && energy < PREY_SPLIT_ENERGY,
                CellType::Pred { .. } => true,
            };
            if !ok {
                return None;
            }
            played.push(false);
            x = x + 1;
        }
        Some(Grid { width: w, height: h, cells, played })
    }

    /// Number of columns.
    pub fn width(&self) -> (r: i64)
        ensures
            r == self@.width,
    {
        self.width
    }

    /// Number of rows.
    pub fn height(&self) -> (r: i64)
        ensures
            r == self@.height,
    {
        self.height
    }

    /// The cell at column `i`, row `j`.
    pub fn cell(&self, i: i64, j: i64) -> (c: CellType)
        requires
            self.wf(),
            0 <= i < self@.width,
            0 <= j < self@.height,
        ensures
            c == self@.cells[cell_index(self@.width, i as int, j as int)],
    {
        self.cells[self.index(i, j)]
    }

    /// Whether the cell at column `i`, row `j` took part in a move of the
    /// current step.
    pub fn has_played(&self, i: i64, j: i64) -> (b: bool)
        requires
            self.wf(),
            0 <= i < self@.width,
            0 <= j < self@.height,
        ensures
            b == self@.played[cell_index(self@.width, i as int, j as int)],
    {
        self.played[self.index(i, j)]
    }

    /// Whether every predator can feed without its energy overflowing, which
    /// `update` needs.
    pub fn energies_fit(&self) -> (b: bool)
        requires
            self.wf(),
        ensures
            b == all_safe(self@),
    {
        let mut x: usize = 0;
        while x < self.cells.len()
            invariant
                self.wf(),
                x <= self@.cells.len(),
                forall|y: int| 0 <= y < x ==> feed_safe(#[trigger] self@.cells[y]),
            decreases self@.cells.len() - x,
        {
            match self.cells[x] {
                CellType::Pred { energy } => {
                    if energy > PRED_FEED_LIMIT {
                        return false;
                    }
                },
                _ => {},
            }
            x = x + 1;
        }
        true
    }
}

} // verus!
