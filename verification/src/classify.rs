//! The nearest-cluster classifier: for a target cell, the minimum cyclic
//! distance to any member of each cluster is computed by a full linear scan;
//! the cluster with the smallest minimum wins, ties going to the lowest
//! cluster index (Red before Blue before Yellow). A cluster with no members
//! is a fatal error: it can never be scanned for a nearest member.

use vstd::prelude::*;

use crate::distance::{
    calc_distance, coord_in_range, coord_view, distance, lemma_distance_nonneg,
    lemma_distance_self, lemma_distance_zero_iff_eq, min_i, H_SIZE, V_SIZE,
};
use crate::grid::{coords_in_range, grid_view, grid_wf, has_unlabeled, has_unlabeled_spec,
    label_coords, lemma_label_coords_in_range, map_trained_colors, ColorMap, TrainedMap};
use crate::label::Label;

verus! {

/// A trainable cluster had no members when the classifier had to scan it.
#[derive(Clone, Copy, Debug, PartialEq, Eq, Structural)]
pub struct EmptyClusterError;

/// The minimum distance from `cord` to any member of a non-empty cluster.
pub open spec fn min_dist(cord: (int, int), cluster: Seq<(usize, usize)>) -> int
    decreases cluster.len(),
{
    if cluster.len() <= 1 {
        distance(cord, coord_view(cluster[0]))
    } else {
        min_i(
            min_dist(cord, cluster.drop_last()),
            distance(cord, coord_view(cluster.last())),
        )
    }
}

/// The minimum distance to a non-empty cluster is a lower bound on, and is
/// achieved by, the distance to some member.
pub proof fn lemma_min_dist_bounds(cord: (int, int), cluster: Seq<(usize, usize)>)
    requires
        cluster.len() > 0,
    ensures
        forall|k: int|
            0 <= k < cluster.len() ==> min_dist(cord, cluster) <= distance(
                cord,
                coord_view(#[trigger] cluster[k]),
            ),
        exists|k: int|
            0 <= k < cluster.len() && min_dist(cord, cluster) == distance(
                cord,
                coord_view(cluster[k]),
            ),
    decreases cluster.len(),
{
    if cluster.len() == 1 {
        assert(min_dist(cord, cluster) == distance(cord, coord_view(cluster[0])));
    } else {
        let prefix = cluster.drop_last();
        lemma_min_dist_bounds(cord, prefix);
        assert(forall|k: int| 0 <= k < prefix.len() ==> #[trigger] cluster[k] == prefix[k]);
        if min_dist(cord, cluster) == distance(cord, coord_view(cluster.last())) {
            assert(cluster.last() == cluster[cluster.len() - 1]);
        } else {
            let k = choose|k: int|
                0 <= k < prefix.len() && min_dist(cord, prefix) == distance(
                    cord,
                    coord_view(prefix[k]),
                );
            assert(min_dist(cord, cluster) == distance(cord, coord_view(cluster[k])));
        }
    }
}

/// A cluster that contains the target has minimum distance zero.
pub proof fn lemma_min_dist_zero(cord: (usize, usize), cluster: Seq<(usize, usize)>)
    requires
        cluster.len() > 0,
        cluster.contains(cord),
    ensures
        min_dist(coord_view(cord), cluster) == 0,
{
    lemma_min_dist_bounds(coord_view(cord), cluster);
    let k = choose|k: int| 0 <= k < cluster.len() && cluster[k] == cord;
    lemma_distance_self(coord_view(cord));
    assert(min_dist(coord_view(cord), cluster) <= distance(coord_view(cord), coord_view(cluster[k])));
    let j = choose|j: int|
        0 <= j < cluster.len() && min_dist(coord_view(cord), cluster) == distance(
            coord_view(cord),
            coord_view(cluster[j]),
        );
    lemma_distance_nonneg(coord_view(cord), coord_view(cluster[j]));
}

/// A non-empty on-grid cluster that does not contain the on-grid target has
/// positive minimum distance.
pub proof fn lemma_min_dist_pos(cord: (usize, usize), cluster: Seq<(usize, usize)>)
    requires
        cluster.len() > 0,
        !cluster.contains(cord),
        coord_in_range(cord),
        coords_in_range(cluster),
    ensures
        min_dist(coord_view(cord), cluster) > 0,
{
    lemma_min_dist_bounds(coord_view(cord), cluster);
    let j = choose|j: int|
        0 <= j < cluster.len() && min_dist(coord_view(cord), cluster) == distance(
            coord_view(cord),
            coord_view(cluster[j]),
        );
    lemma_distance_nonneg(coord_view(cord), coord_view(cluster[j]));
    lemma_distance_zero_iff_eq(cord, cluster[j]);
}

/// The index of the winning cluster among the three per-cluster minima: the
/// first index achieving the smallest value.
pub open spec fn winning_index(d0: int, d1: int, d2: int) -> int {
    if d0 <= d1 && d0 <= d2 {
        0
    } else if d1 <= d2 {
        1
    } else {
        2
    }
}

/// The trainable label a cluster index stands for, in the fixed order Red,
/// Blue, Yellow.
pub open spec fn index_label(i: int) -> Label {
    if i == 0 {
        Label::Red
    } else if i == 1 {
        Label::Blue
    } else if i == 2 {
        Label::Yellow
    } else {
        Label::Unlabeled
    }
}

/// The label classification assigns to a target cell, given the three
/// clusters in the fixed order Red, Blue, Yellow.
pub open spec fn classify_label(
    cord: (int, int),
    m0: Seq<(usize, usize)>,
    m1: Seq<(usize, usize)>,
    m2: Seq<(usize, usize)>,
) -> Label {
    index_label(winning_index(min_dist(cord, m0), min_dist(cord, m1), min_dist(cord, m2)))
}

/// Tie-break determinism: the winning index is the first index achieving the
/// minimum of the three distances, so clusters equidistant from the target
/// always resolve to the lower index in the Red, Blue, Yellow order.
pub proof fn lemma_tie_break(d0: int, d1: int, d2: int)
    ensures
        ({
            let w = winning_index(d0, d1, d2);
            let ds = seq![d0, d1, d2];
            &&& 0 <= w < 3
            &&& forall|k: int| 0 <= k < 3 ==> ds[w] <= #[trigger] ds[k]
            &&& forall|k: int| 0 <= k < w ==> #[trigger] ds[k] > ds[w]
        }),
{
    let ds = seq![d0, d1, d2];
    assert(ds[0] == d0 && ds[1] == d1 && ds[2] == d2);
}

/// The minimum distance from `cord` to any member of the cluster, by a full
/// linear scan seeded with the first member.
fn closest_distance(cord: (usize, usize), map: &TrainedMap) -> (r: i32)
    requires
        coord_in_range(cord),
        coords_in_range(map@),
        map@.len() > 0,
    ensures
        r == min_dist(coord_view(cord), map@),
{
    let mut closest = calc_distance(cord, &map[0]);
    proof {
        assert(map@.subrange(0, 1)[0] == map@[0]);
    }
    let mut i: usize = 1;
    while i < map.len()
        invariant
            coord_in_range(cord),
            coords_in_range(map@),
            1 <= i <= map@.len(),
            closest == min_dist(coord_view(cord), map@.subrange(0, i as int)),
        decreases map@.len() - i,
    {
        let d = calc_distance(cord, &map[i]);
        proof {
            let full = map@.subrange(0, i as int + 1);
            assert(full.drop_last() =~= map@.subrange(0, i as int));
            assert(full.last() == map@[i as int]);
        }
        if d < closest {
            closest = d;
        }
        i = i + 1;
    }
    proof {
        assert(map@.subrange(0, map@.len() as int) =~= map@);
    }
    closest
}

/// Classifies one target cell: among the three clusters, ordered Red, Blue,
/// Yellow, the one whose nearest member is closest wins; ties go to the
/// lowest index. Fails if any cluster is empty, since an empty cluster
/// cannot be scanned for a nearest member.
pub fn calc_result(cord: (usize, usize), maps: &Vec<TrainedMap>) -> (r: Result<
    Label,
    EmptyClusterError,
>)
    requires
        coord_in_range(cord),
        maps@.len() == 3,
        coords_in_range(maps@[0]@),
        coords_in_range(maps@[1]@),
        coords_in_range(maps@[2]@),
    ensures
        (r is Err) <==> (maps@[0]@.len() == 0 || maps@[1]@.len() == 0 || maps@[2]@.len() == 0),
        r is Ok ==> r == Ok::<Label, EmptyClusterError>(
            classify_label(coord_view(cord), maps@[0]@, maps@[1]@, maps@[2]@),
        ),
{
    if maps[0].len() == 0 || maps[1].len() == 0 || maps[2].len() == 0 {
        return Err(EmptyClusterError);
    }
    let d0 = closest_distance(cord, &maps[0]);
    let d1 = closest_distance(cord, &maps[1]);
    let d2 = closest_distance(cord, &maps[2]);
    if d0 <= d1 && d0 <= d2 {
        Ok(Label::Red)
    } else if d1 <= d2 {
        Ok(Label::Blue)
    } else {
        Ok(Label::Yellow)
    }
}

/// What classification does to one cell: an `Unlabeled` cell takes the
/// winning cluster's label; every other label is passed through unchanged.
pub open spec fn classify_cell(
    lab: Label,
    cord: (int, int),
    m0: Seq<(usize, usize)>,
    m1: Seq<(usize, usize)>,
    m2: Seq<(usize, usize)>,
) -> Label {
    if lab == Label::Unlabeled {
        classify_label(cord, m0, m1, m2)
    } else {
        lab
    }
}

/// `g1` is the result of classifying every cell of `g0` against the three
/// clusters: same shape, and each cell rewritten by `classify_cell`.
pub open spec fn is_classified(
    g0: Seq<Seq<Label>>,
    g1: Seq<Seq<Label>>,
    m0: Seq<(usize, usize)>,
    m1: Seq<(usize, usize)>,
    m2: Seq<(usize, usize)>,
) -> bool {
    &&& g1.len() == g0.len()
    &&& forall|h: int| 0 <= h < g0.len() ==> (#[trigger] g1[h]).len() == g0[h].len()
    &&& forall|h: int, v: int|
        0 <= h < g0.len() && 0 <= v < g0[h].len() ==> #[trigger] g1[h][v] == classify_cell(
            g0[h][v],
            (h, v),
            m0,
            m1,
            m2,
        )
}

/// Classification is idempotent: classifying an already-classified grid a
/// second time, against the same clusters, changes nothing, because every
/// cell of a classified grid already bears a terminal label.
pub proof fn lemma_classify_idempotent(
    g0: Seq<Seq<Label>>,
    g1: Seq<Seq<Label>>,
    g2: Seq<Seq<Label>>,
    m0: Seq<(usize, usize)>,
    m1: Seq<(usize, usize)>,
    m2: Seq<(usize, usize)>,
)
    requires
        is_classified(g0, g1, m0, m1, m2),
        is_classified(g1, g2, m0, m1, m2),
    ensures
        g2 == g1,
{
    assert forall|h: int| 0 <= h < g1.len() implies g2[h] =~= g1[h] by {
        assert forall|v: int| 0 <= v < g1[h].len() implies g2[h][v] == g1[h][v] by {
            assert(g1[h][v] == classify_cell(g0[h][v], (h, v), m0, m1, m2));
            assert(g2[h][v] == classify_cell(g1[h][v], (h, v), m0, m1, m2));
        }
    }
    assert(g2 =~= g1);
}

/// A cell that coincides with a training point of some cluster, and with no
/// training point of any earlier cluster, is classified with that cluster's
/// label: its distance zero dominates every other cluster's minimum.
pub proof fn lemma_training_point_wins(
    cord: (usize, usize),
    m0: Seq<(usize, usize)>,
    m1: Seq<(usize, usize)>,
    m2: Seq<(usize, usize)>,
    i: int,
)
    requires
        coord_in_range(cord),
        coords_in_range(m0),
        coords_in_range(m1),
        coords_in_range(m2),
        m0.len() > 0,
        m1.len() > 0,
        m2.len() > 0,
        0 <= i < 3,
        i == 0 ==> m0.contains(cord),
        i == 1 ==> m1.contains(cord) && !m0.contains(cord),
        i == 2 ==> m2.contains(cord) && !m0.contains(cord) && !m1.contains(cord),
    ensures
        classify_label(coord_view(cord), m0, m1, m2) == index_label(i),
{
    let c = coord_view(cord);
    lemma_min_dist_bounds(c, m0);
    lemma_min_dist_bounds(c, m1);
    lemma_min_dist_bounds(c, m2);
    let j0 = choose|j: int|
        0 <= j < m0.len() && min_dist(c, m0) == distance(c, coord_view(m0[j]));
    lemma_distance_nonneg(c, coord_view(m0[j0]));
    let j1 = choose|j: int|
        0 <= j < m1.len() && min_dist(c, m1) == distance(c, coord_view(m1[j]));
    lemma_distance_nonneg(c, coord_view(m1[j1]));
    let j2 = choose|j: int|
        0 <= j < m2.len() && min_dist(c, m2) == distance(c, coord_view(m2[j]));
    lemma_distance_nonneg(c, coord_view(m2[j2]));
    if i == 0 {
        lemma_min_dist_zero(cord, m0);
    } else if i == 1 {
        lemma_min_dist_zero(cord, m1);
        lemma_min_dist_pos(cord, m0);
    } else {
        lemma_min_dist_zero(cord, m2);
        lemma_min_dist_pos(cord, m0);
        lemma_min_dist_pos(cord, m1);
    }
}

/// Runs classification over the whole grid: every `Unlabeled` cell is
/// assigned its winning cluster's label, one cell at a time; all other cells
/// are left untouched. Fails, touching nothing, exactly when some cluster is
/// empty while the grid still holds an unlabeled cell to classify.
pub fn classify_grid(color_map: &mut ColorMap, maps: &Vec<TrainedMap>) -> (r: Result<
    (),
    EmptyClusterError,
>)
    requires
        grid_wf(grid_view(*old(color_map))),
        maps@.len() == 3,
        coords_in_range(maps@[0]@),
        coords_in_range(maps@[1]@),
        coords_in_range(maps@[2]@),
    ensures
        grid_wf(grid_view(*final(color_map))),
        (r is Err) <==> ((maps@[0]@.len() == 0 || maps@[1]@.len() == 0 || maps@[2]@.len() == 0)
            && has_unlabeled_spec(grid_view(*old(color_map)))),
        r is Err ==> *final(color_map) == *old(color_map),
        r is Ok ==> is_classified(
            grid_view(*old(color_map)),
            grid_view(*final(color_map)),
            maps@[0]@,
            maps@[1]@,
            maps@[2]@,
        ),
{
    let ghost g0 = grid_view(*old(color_map));
    let ghost m0 = maps@[0]@;
    let ghost m1 = maps@[1]@;
    let ghost m2 = maps@[2]@;

    if maps[0].len() == 0 || maps[1].len() == 0 || maps[2].len() == 0 {
        if has_unlabeled(color_map) {
            return Err(EmptyClusterError);
        } else {
            return Ok(());
        }
    }

    let mut h: usize = 0;
    while h < H_SIZE
        invariant
            grid_wf(g0),
            g0 == grid_view(*old(color_map)),
            grid_wf(grid_view(*color_map)),
            maps@.len() == 3,
            m0 == maps@[0]@ && m1 == maps@[1]@ && m2 == maps@[2]@,
            m0.len() > 0 && m1.len() > 0 && m2.len() > 0,
            coords_in_range(m0) && coords_in_range(m1) && coords_in_range(m2),
            h <= H_SIZE,
            forall|h2: int, v2: int|
                0 <= h2 < h && 0 <= v2 < V_SIZE ==> #[trigger] grid_view(*color_map)[h2][v2]
                    == classify_cell(g0[h2][v2], (h2, v2), m0, m1, m2),
            forall|h2: int, v2: int|
                h <= h2 < H_SIZE && 0 <= v2 < V_SIZE ==> #[trigger] grid_view(*color_map)[h2][v2]
                    == g0[h2][v2],
        decreases H_SIZE - h,
    {
        let mut v: usize = 0;
        while v < V_SIZE
            invariant
                grid_wf(g0),
                g0 == grid_view(*old(color_map)),
                grid_wf(grid_view(*color_map)),
                maps@.len() == 3,
                m0 == maps@[0]@ && m1 == maps@[1]@ && m2 == maps@[2]@,
                m0.len() > 0 && m1.len() > 0 && m2.len() > 0,
                coords_in_range(m0) && coords_in_range(m1) && coords_in_range(m2),
                h < H_SIZE,
                v <= V_SIZE,
                forall|h2: int, v2: int|
                    0 <= h2 < h && 0 <= v2 < V_SIZE ==> #[trigger] grid_view(*color_map)[h2][v2]
                        == classify_cell(g0[h2][v2], (h2, v2), m0, m1, m2),
                forall|v2: int|
                    0 <= v2 < v ==> #[trigger] grid_view(*color_map)[h as int][v2]
                        == classify_cell(g0[h as int][v2], (h as int, v2), m0, m1, m2),
                forall|v2: int|
                    v <= v2 < V_SIZE ==> #[trigger] grid_view(*color_map)[h as int][v2]
                        == g0[h as int][v2],
                forall|h2: int, v2: int|
                    h < h2 < H_SIZE && 0 <= v2 < V_SIZE ==> #[trigger] grid_view(
                        *color_map,
                    )[h2][v2] == g0[h2][v2],
            decreases V_SIZE - v,
        {
            proof {
                assert(grid_view(*color_map)[h as int] == color_map@[h as int]@);
            }
            let color = color_map[h][v];
            if color == Label::Unlabeled {
                match calc_result((h, v), maps) {
                    Ok(lab) => {
                        let ghost prev = *color_map;
                        color_map[h][v] = lab;
                        proof {
                            let gprev = grid_view(prev);
                            let gcur = grid_view(*color_map);
                            assert(color_map@[h as int]@ == prev@[h as int]@.update(
                                v as int,
                                lab,
                            ));
                            assert forall|h2: int|
                                0 <= h2 < gprev.len() && h2 != h implies gcur[h2] == gprev[h2] by {
                                assert(color_map@[h2] == prev@[h2]);
                            }
                            let hh = h as int;
                            assert forall|v2: int|
                                0 <= v2 < V_SIZE && v2 != v implies gcur[hh][v2]
                                    == gprev[hh][v2] by {}
                            assert(gcur[h as int][v as int] == lab);
                            assert(classify_cell(
                                g0[h as int][v as int],
                                (h as int, v as int),
                                m0,
                                m1,
                                m2,
                            ) == lab);
                            assert(grid_wf(gcur));
                        }
                    },
                    Err(e) => {
                        return Err(e);
                    },
                }
            }
            v = v + 1;
        }
        h = h + 1;
    }
    Ok(())
}

/// One full classification run: builds the cluster index from the current
/// grid, then classifies every unlabeled cell against it. Fails, touching
/// nothing, exactly when some trainable color has no training points while
/// the grid still holds a cell to classify.
pub fn run_classification(color_map: &mut ColorMap) -> (r: Result<(), EmptyClusterError>)
    requires
        grid_wf(grid_view(*old(color_map))),
    ensures
        grid_wf(grid_view(*final(color_map))),
        ({
            let g0 = grid_view(*old(color_map));
            let m0 = label_coords(g0, Label::Red);
            let m1 = label_coords(g0, Label::Blue);
            let m2 = label_coords(g0, Label::Yellow);
            &&& (r is Err) <==> ((m0.len() == 0 || m1.len() == 0 || m2.len() == 0)
                && has_unlabeled_spec(g0))
            &&& (r is Err ==> *final(color_map) == *old(color_map))
            &&& (r is Ok ==> is_classified(g0, grid_view(*final(color_map)), m0, m1, m2))
        }),
{
    let maps = map_trained_colors(color_map);
    proof {
        lemma_label_coords_in_range(grid_view(*color_map), Label::Red);
        lemma_label_coords_in_range(grid_view(*color_map), Label::Blue);
        lemma_label_coords_in_range(grid_view(*color_map), Label::Yellow);
    }
    classify_grid(color_map, &maps)
}

} // verus!
