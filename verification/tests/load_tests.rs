use color_knn::{csv_read, grid_from_records, Label, LoadError, H_SIZE, V_SIZE};

fn csv_bytes(rows: usize, cols: usize, set: &[(usize, usize, &str)]) -> Vec<u8> {
    let mut text = String::new();
    for h in 0..rows {
        for v in 0..cols {
            if v > 0 {
                text.push(',');
            }
            let mut token = "None";
            for &(sh, sv, tok) in set {
                if sh == h && sv == v {
                    token = tok;
                }
            }
            text.push_str(token);
        }
        text.push('\n');
    }
    text.into_bytes()
}

#[test]
fn load_parses_tokens_into_cells() {
    let data = csv_bytes(
        H_SIZE,
        V_SIZE,
        &[(10, 10, "Red"), (350, 10, "Blue"), (180, 60, "Yellow"), (0, 0, "White"), (1, 1, "Black")],
    );
    let grid = csv_read(&data).unwrap();
    assert_eq!(grid.len(), H_SIZE);
    assert!(grid.iter().all(|row| row.len() == V_SIZE));
    assert_eq!(grid[10][10], Label::Red);
    assert_eq!(grid[350][10], Label::Blue);
    assert_eq!(grid[180][60], Label::Yellow);
    assert_eq!(grid[0][0], Label::White);
    assert_eq!(grid[1][1], Label::Black);
    assert_eq!(grid[5][5], Label::Unlabeled);
}

#[test]
fn load_rejects_unknown_tokens() {
    // a typo'd label token is fatal, never silently treated as unlabeled
    let data = csv_bytes(H_SIZE, V_SIZE, &[(3, 3, "Purple")]);
    assert_eq!(csv_read(&data), Err(LoadError::BadToken));
    let data = csv_bytes(H_SIZE, V_SIZE, &[(4, 4, "red")]);
    assert_eq!(csv_read(&data), Err(LoadError::BadToken));
}

#[test]
fn bad_token_reports_only_on_well_shaped_tables() {
    // the shape check comes first: a misshapen table with a bad token
    // still reports the shape
    let data = csv_bytes(10, V_SIZE, &[(3, 3, "Purple")]);
    assert_eq!(csv_read(&data), Err(LoadError::Dimensions));
}

#[test]
fn load_rejects_wrong_row_count() {
    let data = csv_bytes(10, V_SIZE, &[]);
    assert_eq!(csv_read(&data), Err(LoadError::Dimensions));
}

#[test]
fn load_rejects_wrong_column_count() {
    let data = csv_bytes(H_SIZE, 99, &[]);
    assert_eq!(csv_read(&data), Err(LoadError::Dimensions));
}

#[test]
fn load_rejects_ragged_rows() {
    // a row of another width than the first makes the table unreadable
    let mut text = String::new();
    text.push_str("Red,Blue,Yellow\n");
    text.push_str("Red,Blue\n");
    assert_eq!(csv_read(text.as_bytes()), Err(LoadError::Malformed));
}

#[test]
fn records_build_the_grid_directly() {
    let records: Vec<Vec<String>> = (0..H_SIZE)
        .map(|_| (0..V_SIZE).map(|_| "Red".to_string()).collect())
        .collect();
    let grid = grid_from_records(&records).unwrap();
    assert!(grid.iter().all(|row| row.iter().all(|&c| c == Label::Red)));
}

#[test]
fn short_record_table_fails_dimension_check() {
    let records: Vec<Vec<String>> = vec![vec!["Red".to_string(); V_SIZE]; 5];
    assert_eq!(grid_from_records(&records), Err(LoadError::Dimensions));
}
