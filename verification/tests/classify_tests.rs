use color_knn::{calc_result, EmptyClusterError, Label, TrainedMap};

#[test]
fn training_point_dominates() {
    let maps: Vec<TrainedMap> = vec![vec![(9, 9)], vec![(5, 5)], vec![(7, 7)]];
    assert_eq!(calc_result((9, 9), &maps), Ok(Label::Red));
    assert_eq!(calc_result((5, 5), &maps), Ok(Label::Blue));
    assert_eq!(calc_result((7, 7), &maps), Ok(Label::Yellow));
}

#[test]
fn nearest_cluster_wins() {
    let maps: Vec<TrainedMap> = vec![vec![(0, 10)], vec![(0, 50)], vec![(0, 90)]];
    assert_eq!(calc_result((0, 15), &maps), Ok(Label::Red));
    assert_eq!(calc_result((0, 55), &maps), Ok(Label::Blue));
    assert_eq!(calc_result((0, 89), &maps), Ok(Label::Yellow));
}

#[test]
fn nearest_member_decides_for_each_cluster() {
    // the red cluster's far member does not matter once a near one exists
    let maps: Vec<TrainedMap> = vec![
        vec![(180, 99), (0, 12)],
        vec![(0, 20)],
        vec![(90, 0)],
    ];
    assert_eq!(calc_result((0, 10), &maps), Ok(Label::Red));
}

#[test]
fn tie_breaks_to_lower_cluster_index() {
    // red at distance 10 directly, blue at distance 10 around the wrap
    let maps: Vec<TrainedMap> = vec![vec![(10, 0)], vec![(350, 0)], vec![(50, 0)]];
    assert_eq!(calc_result((0, 0), &maps), Ok(Label::Red));
    // blue and yellow tie at distance 5; blue has the lower index
    let maps: Vec<TrainedMap> = vec![vec![(99, 99)], vec![(0, 5)], vec![(0, 15)]];
    assert_eq!(calc_result((0, 10), &maps), Ok(Label::Blue));
    // repeated runs stay deterministic
    let maps: Vec<TrainedMap> = vec![vec![(10, 0)], vec![(350, 0)], vec![(50, 0)]];
    for _ in 0..10 {
        assert_eq!(calc_result((0, 0), &maps), Ok(Label::Red));
    }
}

#[test]
fn wrap_distance_picks_blue() {
    // from (355, 10): blue at (350, 10) is 5 away, red at (10, 10) is 15
    // away around the wrap boundary, yellow sits far off
    let maps: Vec<TrainedMap> = vec![vec![(10, 10)], vec![(350, 10)], vec![(180, 60)]];
    assert_eq!(calc_result((355, 10), &maps), Ok(Label::Blue));
}

#[test]
fn empty_cluster_is_an_error() {
    let maps: Vec<TrainedMap> = vec![vec![(10, 10)], vec![(350, 10)], vec![]];
    assert_eq!(calc_result((355, 10), &maps), Err(EmptyClusterError));
    let maps: Vec<TrainedMap> = vec![vec![], vec![(1, 1)], vec![(2, 2)]];
    assert_eq!(calc_result((0, 0), &maps), Err(EmptyClusterError));
}
