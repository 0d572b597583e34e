//! Cell contents and the seeding rule.

use vstd::prelude::*;

verus! {

/// What one cell of the grid holds.
#[derive(Clone, Copy, Debug, PartialEq, Eq, Structural)]
pub enum CellType {
    Nothing,
    Prey { energy: u8 },
    Pred { energy: u8 },
}

/// Energy of a freshly seeded prey.
pub const SEED_PREY_ENERGY: u8 = 1;

/// Energy of a freshly seeded predator, and of a predator born by feeding.
pub const PRED_BIRTH_ENERGY: u8 = 10;

/// A prey whose energy would reach this value splits in two instead.
pub const PREY_SPLIT_ENERGY: u8 = 10;

/// A seeding draw is uniform over `0..SEED_DRAW_RANGE`.
pub const SEED_DRAW_RANGE: usize = 100;

/// Draws below this value seed an empty cell (80 percent).
pub const SEED_EMPTY_BELOW: usize = 80;

/// Draws below this value, and not below `SEED_EMPTY_BELOW`, seed a prey
/// (15 percent); the remaining draws seed a predator (5 percent).
pub const SEED_PREY_BELOW: usize = 95;

impl CellType {
    pub open spec fn is_prey(self) -> bool {
        self is Prey
    }

    pub open spec fn is_pred(self) -> bool {
        self is Pred
    }

    /// The energy of a prey or predator; zero for an empty cell.
    pub open spec fn energy_of(self) -> int {
        match self {
            CellType::Nothing => 0,
            CellType::Prey { energy } => energy as int,
            CellType::Pred { energy } => energy as int,
        }
    }

    /// Energies that a living creature may hold between steps: a prey's
    /// energy is in `1..=9`; a predator may hold any energy.
    pub open spec fn energy_ok(self) -> bool {
        match self {
            CellType::Nothing => true,
            CellType::Prey { energy } => 1 <= energy && energy < PREY_SPLIT_ENERGY,
            CellType::Pred { .. } => true,
        }
    }
}

/// The cell that a seeding draw `r` in `0..SEED_DRAW_RANGE` stands for.
pub open spec fn seeded_cell(r: int) -> CellType {
    if r < SEED_EMPTY_BELOW {
        CellType::Nothing
    } else if r < SEED_PREY_BELOW {
        CellType::Prey { energy: SEED_PREY_ENERGY }
    } else {
        CellType::Pred { energy: PRED_BIRTH_ENERGY }
    }
}

/// The cell is one that some seeding draw gives.
pub open spec fn is_seeded(c: CellType) -> bool {
    exists|r: int| 0 <= r < SEED_DRAW_RANGE && c == #[trigger] seeded_cell(r)
}

/// Turns one seeding draw into the cell that it seeds.
pub fn cell_from_draw(r: usize) -> (c: CellType)
    ensures
        c == seeded_cell(r as int),
        c.energy_ok(),
{
    if r < SEED_EMPTY_BELOW {
        CellType::Nothing
    } else if r < SEED_PREY_BELOW {
        CellType::Prey { energy: SEED_PREY_ENERGY }
    } else {
        CellType::Pred { energy: PRED_BIRTH_ENERGY }
    }
}

} // verus!
