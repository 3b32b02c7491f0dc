//! Tests of the per-generation result buffer: sorting, the elite view,
//! and elite propagation.

use petridish::algo::AlgoResult;
use petridish::cell::CellData;

fn cell(g0: u64, score: u64, version: u64) -> CellData {
    CellData { genome: vec![g0, g0], score, version }
}

#[test]
fn test_sort_cells_orders_scores() {
    // Descending when maximising, ascending otherwise.
    let pool = vec![
        cell(1, 40, 1),
        cell(2, 10, 1),
        cell(3, 30, 1),
        cell(4, 20, 1),
        cell(5, 30, 2),
    ];
    let mut up = AlgoResult::new(2);
    up.load_cells(&pool);
    up.sort_cells(false).unwrap();
    let scores: Vec<u64> = up.cells_data.iter().map(|c| c.score).collect();
    assert_eq!(scores, vec![10, 20, 30, 30, 40]);

    let mut down = AlgoResult::new(2);
    down.load_cells(&pool);
    down.sort_cells(true).unwrap();
    let scores: Vec<u64> = down.cells_data.iter().map(|c| c.score).collect();
    assert_eq!(scores, vec![40, 30, 30, 20, 10]);
    // Cells of equal score keep their loading order.
    assert_eq!(down.cells_data[1].version, 1);
    assert_eq!(down.cells_data[2].version, 2);
    assert_eq!(down.cells_data[1].genome[0], 3);
    assert_eq!(down.cells_data[2].genome[0], 5);
}

#[test]
fn test_get_elites_composition() {
    // The elite view holds exactly nelite + exterior entries, in order.
    let mut r = AlgoResult::new(2);
    r.load_cells(&vec![cell(1, 5, 1), cell(2, 6, 1), cell(3, 7, 1)]);
    r.exterior_elites.push(cell(9, 1, 1));
    let elites = r.get_elites();
    assert_eq!(elites.len(), 2 + 1);
    assert_eq!(elites[0].genome[0], 1);
    assert_eq!(elites[1].genome[0], 2);
    assert_eq!(elites[2].genome[0], 9);
}

#[test]
fn test_propagation() {
    // Two algos A and B where A gives to B with two elites: after A has
    // sorted, B's exterior pool holds clones of A's top two cells.
    let mut a = AlgoResult::new(2);
    a.load_cells(&vec![cell(1, 30, 1), cell(2, 10, 1), cell(3, 20, 1)]);
    a.sort_cells(false).unwrap();
    let mut b = AlgoResult::new(2);
    b.load_cells(&vec![cell(7, 50, 1), cell(8, 60, 1)]);

    let mut top = a.clone_top_cells();
    b.exterior_elites.append(&mut top);

    assert_eq!(b.exterior_elites.len(), 2);
    assert_eq!(b.exterior_elites[0].genome, a.cells_data[0].genome);
    assert_eq!(b.exterior_elites[1].genome, a.cells_data[1].genome);
    assert_eq!(b.exterior_elites[0].score, 10);
    assert_eq!(b.exterior_elites[1].score, 20);
    // The propagated cells are clones, not views of A's pool.
    b.exterior_elites[0].genome[0] = 99;
    assert_ne!(a.cells_data[0].genome[0], 99);
}
