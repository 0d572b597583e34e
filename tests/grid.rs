use predprey::cell::{cell_from_draw, CellType};
use predprey::grid::Grid;

fn grid_of(w: i64, h: i64, cells: Vec<CellType>) -> Grid {
    Grid::from_cells(w, h, cells).expect("valid grid")
}

fn single(w: i64, h: i64, at: usize, c: CellType) -> Grid {
    let mut cells = vec![CellType::Nothing; (w * h) as usize];
    cells[at] = c;
    grid_of(w, h, cells)
}

fn all_cells(g: &Grid) -> Vec<CellType> {
    let mut out = Vec::new();
    for j in 0..g.height() {
        for i in 0..g.width() {
            out.push(g.cell(i, j));
        }
    }
    out
}

fn count(cells: &[CellType], c: CellType) -> usize {
    cells.iter().filter(|x| **x == c).count()
}

#[test]
fn starving_predator_dies_on_update() {
    let mut g = single(3, 3, 4, CellType::Pred { energy: 1 });
    g.update();
    assert_eq!(g.cell(1, 1), CellType::Nothing);
    assert_eq!(count(&all_cells(&g), CellType::Nothing), 9);
}

#[test]
fn full_prey_splits_on_update() {
    let mut g = single(3, 3, 4, CellType::Prey { energy: 9 });
    g.update();
    let cells = all_cells(&g);
    assert_eq!(count(&cells, CellType::Prey { energy: 1 }), 2);
    assert_eq!(count(&cells, CellType::Nothing), 7);
    assert_eq!(g.cell(1, 1), CellType::Prey { energy: 1 });
}

#[test]
fn full_prey_splits_with_chosen_neighbour() {
    let mut g = single(3, 3, 4, CellType::Prey { energy: 9 });
    // empty neighbours of the centre in scan order: 0, 3, 6, 1, 7, 2, 5, 8
    g.play_cell(1, 1, 0, 2);
    assert_eq!(g.cell(0, 2), CellType::Prey { energy: 1 });
    assert_eq!(g.cell(1, 1), CellType::Prey { energy: 1 });
    assert!(g.has_played(0, 2));
    assert!(g.has_played(1, 1));
    assert_eq!(count(&all_cells(&g), CellType::Nothing), 7);
}

#[test]
fn initial_distribution_matches_thresholds() {
    let g = Grid::new(500, 500);
    let cells = all_cells(&g);
    let n = cells.len() as f64;
    let empty = count(&cells, CellType::Nothing) as f64 / n;
    let prey = count(&cells, CellType::Prey { energy: 1 }) as f64 / n;
    let pred = count(&cells, CellType::Pred { energy: 10 }) as f64 / n;
    assert_eq!(cells.len(), 250_000);
    assert!((empty - 0.80).abs() < 0.01, "empty fraction {}", empty);
    assert!((prey - 0.15).abs() < 0.01, "prey fraction {}", prey);
    assert!((pred - 0.05).abs() < 0.01, "predator fraction {}", pred);
    assert!((empty + prey + pred - 1.0).abs() < 1e-9);
}

#[test]
fn new_grid_has_size_and_no_marks() {
    let g = Grid::new(7, 4);
    assert_eq!(g.width(), 7);
    assert_eq!(g.height(), 4);
    for j in 0..4 {
        for i in 0..7 {
            assert!(!g.has_played(i, j));
        }
    }
    assert!(g.energies_fit());
}

#[test]
fn seeding_thresholds() {
    assert_eq!(cell_from_draw(0), CellType::Nothing);
    assert_eq!(cell_from_draw(79), CellType::Nothing);
    assert_eq!(cell_from_draw(80), CellType::Prey { energy: 1 });
    assert_eq!(cell_from_draw(94), CellType::Prey { energy: 1 });
    assert_eq!(cell_from_draw(95), CellType::Pred { energy: 10 });
    assert_eq!(cell_from_draw(99), CellType::Pred { energy: 10 });
}

#[test]
fn index_is_row_major_and_wraps() {
    let g = grid_of(4, 3, vec![CellType::Nothing; 12]);
    assert_eq!(g.index(0, 0), 0);
    assert_eq!(g.index(3, 0), 3);
    assert_eq!(g.index(1, 2), 9);
    assert_eq!(g.wrapped_index(-1, -1), 11);
    assert_eq!(g.wrapped_index(4, 3), 0);
    assert_eq!(g.wrapped_index(9, -4), 9);
}

#[test]
fn neighbours_wrap_around_edges() {
    let g = grid_of(4, 3, vec![CellType::Nothing; 12]);
    let mut neigs = Vec::new();
    g.find_nothing_neigs(&mut neigs, &0, &0);
    // column 3 and row 2 are neighbours of column 0, row 0
    assert_eq!(neigs, vec![11, 3, 7, 8, 4, 9, 1, 5]);
    g.find_nothing_neigs(&mut neigs, &3, &2);
    assert!(neigs.contains(&g.index(0, 2)));
    assert!(neigs.contains(&g.index(3, 0)));
    assert!(neigs.contains(&g.index(0, 0)));
}

#[test]
fn neighbour_lists_by_kind() {
    let mut cells = vec![CellType::Nothing; 9];
    cells[0] = CellType::Prey { energy: 3 };
    cells[5] = CellType::Prey { energy: 1 };
    cells[8] = CellType::Pred { energy: 4 };
    let g = grid_of(3, 3, cells);
    let mut empties = Vec::new();
    let mut preys = vec![42];
    g.find_nothing_neigs(&mut empties, &1, &1);
    g.find_prey_neigs(&mut preys, &1, &1);
    assert_eq!(empties, vec![3, 6, 1, 7, 2]);
    assert_eq!(preys, vec![0, 5]);
}

#[test]
fn from_cells_rejects_bad_input() {
    assert!(Grid::from_cells(0, 3, vec![]).is_none());
    assert!(Grid::from_cells(2, -1, vec![]).is_none());
    assert!(Grid::from_cells(2, 2, vec![CellType::Nothing; 3]).is_none());
    assert!(Grid::from_cells(1, 1, vec![CellType::Prey { energy: 0 }]).is_none());
    assert!(Grid::from_cells(1, 1, vec![CellType::Prey { energy: 10 }]).is_none());
    assert!(Grid::from_cells(1, 1, vec![CellType::Pred { energy: 0 }]).is_some());
    assert!(Grid::from_cells(i64::MAX, 2, vec![]).is_none());
    assert!(Grid::from_cells(1, 1, vec![CellType::Pred { energy: 255 }]).is_some());
}

#[test]
fn predator_without_room_or_food_waits() {
    let mut cells = vec![CellType::Pred { energy: 3 }; 9];
    cells[4] = CellType::Pred { energy: 5 };
    let mut g = grid_of(3, 3, cells);
    g.play_cell(1, 1, 0, 0);
    assert_eq!(g.cell(1, 1), CellType::Pred { energy: 4 });
    assert!(g.has_played(1, 1));
}

#[test]
fn predator_moves_to_chosen_empty_cell() {
    let mut g = single(3, 3, 4, CellType::Pred { energy: 5 });
    g.play_cell(1, 1, 0, 9);
    // pick 9 modulo 8 candidates selects the second, index 3
    assert_eq!(g.cell(0, 1), CellType::Pred { energy: 4 });
    assert!(g.has_played(0, 1));
    assert_eq!(g.cell(1, 1), CellType::Nothing);
    assert!(g.has_played(1, 1));
}

#[test]
fn predator_feeds_in_place_when_boxed_in() {
    let mut cells = vec![CellType::Pred { energy: 2 }; 9];
    cells[4] = CellType::Pred { energy: 6 };
    cells[2] = CellType::Prey { energy: 7 };
    let mut g = grid_of(3, 3, cells);
    g.play_cell(1, 1, 0, 0);
    assert_eq!(g.cell(1, 1), CellType::Pred { energy: 12 });
    assert_eq!(g.cell(2, 0), CellType::Pred { energy: 10 });
    assert!(g.has_played(1, 1));
    assert!(g.has_played(2, 0));
}

#[test]
fn predator_feeds_and_moves_to_empty_cell() {
    let mut cells = vec![CellType::Nothing; 9];
    cells[4] = CellType::Pred { energy: 1 };
    cells[8] = CellType::Prey { energy: 4 };
    let mut g = grid_of(3, 3, cells);
    g.play_cell(1, 1, 0, 0);
    assert_eq!(g.cell(2, 2), CellType::Pred { energy: 10 });
    assert_eq!(g.cell(0, 0), CellType::Pred { energy: 4 });
    assert_eq!(g.cell(1, 1), CellType::Nothing);
    let cells = all_cells(&g);
    assert_eq!(count(&cells, CellType::Nothing), 7);
}

#[test]
fn prey_without_room_grows_up_to_nine() {
    let mut cells = vec![CellType::Pred { energy: 3 }; 9];
    cells[4] = CellType::Prey { energy: 9 };
    cells[0] = CellType::Prey { energy: 2 };
    let mut g = grid_of(3, 3, cells);
    g.play_cell(1, 1, 0, 0);
    assert_eq!(g.cell(1, 1), CellType::Prey { energy: 9 });
    g.play_cell(0, 0, 0, 0);
    assert_eq!(g.cell(0, 0), CellType::Prey { energy: 3 });
}

#[test]
fn prey_moves_and_grows() {
    let mut g = single(3, 3, 4, CellType::Prey { energy: 4 });
    g.play_cell(1, 1, 0, 7);
    assert_eq!(g.cell(2, 2), CellType::Prey { energy: 5 });
    assert_eq!(g.cell(1, 1), CellType::Nothing);
}

#[test]
fn played_cell_is_not_played_again() {
    let mut g = single(3, 3, 4, CellType::Prey { energy: 4 });
    g.play_cell(1, 1, 0, 0);
    assert_eq!(g.cell(0, 0), CellType::Prey { energy: 5 });
    g.play_cell(0, 0, 0, 0);
    assert_eq!(g.cell(0, 0), CellType::Prey { energy: 5 });
    assert_eq!(count(&all_cells(&g), CellType::Nothing), 8);
}

#[test]
fn moved_prey_is_not_eaten_in_the_same_step() {
    let mut g = grid_of(
        3,
        1,
        vec![CellType::Prey { energy: 1 }, CellType::Nothing, CellType::Pred { energy: 5 }],
    );
    g.update();
    // the prey moves into cell 1 and leaves cell 0 marked, so the predator
    // can neither eat it nor move, and waits
    assert_eq!(g.cell(0, 0), CellType::Nothing);
    assert_eq!(g.cell(1, 0), CellType::Prey { energy: 2 });
    assert_eq!(g.cell(2, 0), CellType::Pred { energy: 4 });
}

#[test]
fn update_keeps_energies_in_range() {
    let mut g = Grid::new(40, 30);
    for _ in 0..20 {
        assert!(g.energies_fit());
        g.update();
        for c in all_cells(&g) {
            match c {
                CellType::Prey { energy } => assert!((1..=9).contains(&energy)),
                CellType::Pred { .. } | CellType::Nothing => {}
            }
        }
    }
}

#[test]
fn energies_fit_detects_large_predator() {
    let g = grid_of(2, 1, vec![CellType::Pred { energy: 247 }, CellType::Nothing]);
    assert!(g.energies_fit());
    let g = grid_of(2, 1, vec![CellType::Pred { energy: 248 }, CellType::Nothing]);
    assert!(!g.energies_fit());
}

#[test]
fn neighbour_lists_on_one_cell_grid_have_no_repeats() {
    let g = grid_of(1, 1, vec![CellType::Nothing]);
    let mut neigs = Vec::new();
    g.find_nothing_neigs(&mut neigs, &0, &0);
    assert_eq!(neigs, vec![0]);
    let g = grid_of(1, 1, vec![CellType::Prey { energy: 2 }]);
    g.find_prey_neigs(&mut neigs, &0, &0);
    assert_eq!(neigs, vec![0]);
}

#[test]
fn neighbour_lists_on_narrow_grid_have_no_repeats() {
    let g = grid_of(2, 2, vec![CellType::Nothing; 4]);
    let mut neigs = Vec::new();
    g.find_nothing_neigs(&mut neigs, &0, &0);
    assert_eq!(neigs, vec![3, 1, 2]);
}

#[test]
fn neighbour_lists_ignore_marks() {
    let mut cells = vec![CellType::Nothing; 9];
    cells[4] = CellType::Prey { energy: 2 };
    cells[8] = CellType::Prey { energy: 5 };
    let mut g = grid_of(3, 3, cells);
    // the centre prey moves into cell 0; cells 0 and 4 are now marked
    g.play_cell(1, 1, 0, 0);
    assert!(g.has_played(0, 0));
    assert!(g.has_played(1, 1));
    let mut empties = Vec::new();
    let mut preys = Vec::new();
    g.find_nothing_neigs(&mut empties, &2, &2);
    g.find_prey_neigs(&mut preys, &2, &2);
    assert_eq!(empties, vec![4, 7, 1, 5, 2, 3, 6]);
    assert_eq!(preys, vec![0]);
    // a move only goes into cells that have not acted: the first free
    // empty neighbour of cell 8 is cell 7, not the marked cell 4
    g.play_cell(2, 2, 0, 0);
    assert_eq!(g.cell(1, 2), CellType::Prey { energy: 6 });
    assert_eq!(g.cell(1, 1), CellType::Nothing);
}

#[test]
fn cell_left_by_dead_predator_is_listed_after_update() {
    let mut g = grid_of(2, 1, vec![CellType::Nothing, CellType::Pred { energy: 1 }]);
    g.update();
    assert_eq!(g.cell(1, 0), CellType::Nothing);
    let mut empties = Vec::new();
    g.find_nothing_neigs(&mut empties, &0, &0);
    // with a single row, the row offsets wrap onto cell 0 itself
    assert_eq!(empties, vec![1, 0]);
}

#[test]
fn from_draws_seeds_each_cell() {
    let g = Grid::from_draws(2, 2, &vec![0, 80, 95, 79]);
    assert_eq!(g.cell(0, 0), CellType::Nothing);
    assert_eq!(g.cell(1, 0), CellType::Prey { energy: 1 });
    assert_eq!(g.cell(0, 1), CellType::Pred { energy: 10 });
    assert_eq!(g.cell(1, 1), CellType::Nothing);
    assert!(!g.has_played(1, 1));
}

#[test]
fn predator_of_energy_zero_feeds_or_dies() {
    let mut cells = vec![CellType::Pred { energy: 3 }; 9];
    cells[4] = CellType::Pred { energy: 0 };
    cells[2] = CellType::Prey { energy: 1 };
    let mut g = grid_of(3, 3, cells);
    g.play_cell(1, 1, 0, 0);
    assert_eq!(g.cell(1, 1), CellType::Pred { energy: 0 });
    assert_eq!(g.cell(2, 0), CellType::Pred { energy: 10 });
    let mut g = single(3, 3, 4, CellType::Pred { energy: 0 });
    g.update();
    assert_eq!(count(&all_cells(&g), CellType::Nothing), 9);
}
