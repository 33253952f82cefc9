use color_knn::{has_unlabeled, map_trained_colors, ColorMap, Label, H_SIZE, V_SIZE};

fn empty_grid() -> ColorMap {
    vec![vec![Label::Unlabeled; V_SIZE]; H_SIZE]
}

#[test]
fn clusters_come_in_fixed_order() {
    let mut grid = empty_grid();
    grid[10][10] = Label::Red;
    grid[5][5] = Label::Blue;
    grid[7][7] = Label::Yellow;
    let maps = map_trained_colors(&grid);
    assert_eq!(maps.len(), 3);
    assert_eq!(maps[0], vec![(10, 10)]);
    assert_eq!(maps[1], vec![(5, 5)]);
    assert_eq!(maps[2], vec![(7, 7)]);
}

#[test]
fn cluster_members_follow_scan_order() {
    let mut grid = empty_grid();
    grid[10][10] = Label::Red;
    grid[0][0] = Label::Red;
    grid[0][99] = Label::Red;
    grid[359][50] = Label::Red;
    let maps = map_trained_colors(&grid);
    assert_eq!(maps[0], vec![(0, 0), (0, 99), (10, 10), (359, 50)]);
}

#[test]
fn display_labels_seed_no_cluster() {
    let mut grid = empty_grid();
    grid[1][1] = Label::White;
    grid[2][2] = Label::Black;
    grid[3][3] = Label::Red;
    let maps = map_trained_colors(&grid);
    assert_eq!(maps[0], vec![(3, 3)]);
    assert!(maps[1].is_empty());
    assert!(maps[2].is_empty());
}

#[test]
fn unlabeled_cells_are_detected() {
    let mut grid = empty_grid();
    assert!(has_unlabeled(&grid));
    for row in grid.iter_mut() {
        for cell in row.iter_mut() {
            *cell = Label::Black;
        }
    }
    assert!(!has_unlabeled(&grid));
    grid[200][63] = Label::Unlabeled;
    assert!(has_unlabeled(&grid));
}
