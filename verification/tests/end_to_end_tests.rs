use color_knn::{
    classify_grid, has_unlabeled, map_trained_colors, run_classification, ColorMap,
    EmptyClusterError, Label, H_SIZE, V_SIZE,
};

fn empty_grid() -> ColorMap {
    vec![vec![Label::Unlabeled; V_SIZE]; H_SIZE]
}

#[test]
fn classification_fills_every_cell() {
    let mut grid = empty_grid();
    grid[10][10] = Label::Red;
    grid[350][10] = Label::Blue;
    grid[180][60] = Label::Yellow;
    let maps = map_trained_colors(&grid);
    assert_eq!(classify_grid(&mut grid, &maps), Ok(()));
    assert!(!has_unlabeled(&grid));
    // from (355, 10): blue wins with distance 5 against red's wrap
    // distance 15 and yellow far away
    assert_eq!(grid[355][10], Label::Blue);
    // training cells keep their own labels
    assert_eq!(grid[10][10], Label::Red);
    assert_eq!(grid[350][10], Label::Blue);
    assert_eq!(grid[180][60], Label::Yellow);
    // a cell on top of a training point classifies to that point's color
    assert_eq!(grid[10][11], Label::Red);
}

#[test]
fn classification_is_idempotent() {
    let mut grid = empty_grid();
    grid[10][10] = Label::Red;
    grid[350][10] = Label::Blue;
    grid[180][60] = Label::Yellow;
    grid[0][0] = Label::White;
    let maps = map_trained_colors(&grid);
    assert_eq!(classify_grid(&mut grid, &maps), Ok(()));
    let once = grid.clone();
    // a full second run: clusters rebuilt from the classified grid, then
    // classification again; nothing is re-classified
    let maps2 = map_trained_colors(&grid);
    assert_eq!(classify_grid(&mut grid, &maps2), Ok(()));
    assert_eq!(grid, once);
    // and again with the original clusters
    assert_eq!(classify_grid(&mut grid, &maps), Ok(()));
    assert_eq!(grid, once);
}

#[test]
fn empty_cluster_fails_when_cells_await_classification() {
    let mut grid = empty_grid();
    grid[10][10] = Label::Red;
    grid[350][10] = Label::Blue;
    // yellow has no training points and the grid still has unlabeled cells
    let maps = map_trained_colors(&grid);
    assert!(maps[2].is_empty());
    assert_eq!(classify_grid(&mut grid, &maps), Err(EmptyClusterError));
    // the failed run touched nothing
    assert_eq!(grid[355][10], Label::Unlabeled);
    assert_eq!(grid[10][10], Label::Red);
}

#[test]
fn one_call_runs_the_whole_pipeline() {
    let mut grid = empty_grid();
    grid[10][10] = Label::Red;
    grid[350][10] = Label::Blue;
    grid[180][60] = Label::Yellow;
    assert_eq!(run_classification(&mut grid), Ok(()));
    assert!(!has_unlabeled(&grid));
    assert_eq!(grid[355][10], Label::Blue);
    // running the whole pipeline again changes nothing
    let once = grid.clone();
    assert_eq!(run_classification(&mut grid), Ok(()));
    assert_eq!(grid, once);
}

#[test]
fn empty_cluster_passes_when_nothing_is_unlabeled() {
    let mut grid = empty_grid();
    for row in grid.iter_mut() {
        for cell in row.iter_mut() {
            *cell = Label::Black;
        }
    }
    grid[10][10] = Label::Red;
    let maps = map_trained_colors(&grid);
    assert!(maps[1].is_empty() && maps[2].is_empty());
    assert_eq!(classify_grid(&mut grid, &maps), Ok(()));
    assert_eq!(grid[10][10], Label::Red);
    assert_eq!(grid[0][0], Label::Black);
}
