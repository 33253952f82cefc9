//! The grid of labels and the cluster index builder: one scan of the grid
//! groups the coordinates of each trainable color, in row-major order
//! (outer loop over the cyclic axis, inner over the linear axis).

use vstd::prelude::*;

use crate::distance::{H_SIZE, V_SIZE};
use crate::label::Label;

verus! {

/// The full grid: one label per cell, indexed `[h][v]`.
pub type ColorMap = Vec<Vec<Label>>;

/// One cluster: the coordinates of every cell bearing one trainable label.
pub type TrainedMap = Vec<(usize, usize)>;

/// The mathematical view of a grid: a sequence of rows of labels.
pub open spec fn grid_view(g: Vec<Vec<Label>>) -> Seq<Seq<Label>> {
    Seq::new(g@.len(), |h: int| g@[h]@)
}

/// A well-formed grid has exactly 360 rows of exactly 100 labels each.
pub open spec fn grid_wf(g: Seq<Seq<Label>>) -> bool {
    &&& g.len() == H_SIZE
    &&& forall|h: int| 0 <= h < g.len() ==> (#[trigger] g[h]).len() == V_SIZE
}

/// The coordinates of the cells of row `h` (restricted to the first `v`
/// cells) that bear the label `lab`, in scan order.
pub open spec fn label_coords_row(row: Seq<Label>, h: int, lab: Label, v: int) -> Seq<
    (usize, usize),
>
    decreases v,
{
    if v <= 0 {
        Seq::empty()
    } else {
        let prev = label_coords_row(row, h, lab, v - 1);
        if row[v - 1] == lab {
            prev.push((h as usize, (v - 1) as usize))
        } else {
            prev
        }
    }
}

/// The coordinates of the cells of the first `h` rows that bear the label
/// `lab`, in row-major scan order.
pub open spec fn label_coords_upto(g: Seq<Seq<Label>>, lab: Label, h: int) -> Seq<(usize, usize)>
    decreases h,
{
    if h <= 0 {
        Seq::empty()
    } else {
        label_coords_upto(g, lab, h - 1) + label_coords_row(g[h - 1], h - 1, lab, V_SIZE as int)
    }
}

/// The cluster of a label: every coordinate of the grid bearing it, in
/// row-major scan order.
pub open spec fn label_coords(g: Seq<Seq<Label>>, lab: Label) -> Seq<(usize, usize)> {
    label_coords_upto(g, lab, H_SIZE as int)
}

/// Every coordinate of a cluster lies on the grid.
pub open spec fn coords_in_range(s: Seq<(usize, usize)>) -> bool {
    forall|k: int|
        0 <= k < s.len() ==> (#[trigger] s[k]).0 < H_SIZE && s[k].1 < V_SIZE
}

proof fn lemma_label_coords_row_in_range(row: Seq<Label>, h: int, lab: Label, v: int)
    requires
        0 <= h < H_SIZE,
        v <= V_SIZE,
    ensures
        coords_in_range(label_coords_row(row, h, lab, v)),
    decreases v,
{
    if v > 0 {
        lemma_label_coords_row_in_range(row, h, lab, v - 1);
    }
}

proof fn lemma_label_coords_upto_in_range(g: Seq<Seq<Label>>, lab: Label, h: int)
    requires
        h <= H_SIZE,
    ensures
        coords_in_range(label_coords_upto(g, lab, h)),
    decreases h,
{
    if h > 0 {
        lemma_label_coords_upto_in_range(g, lab, h - 1);
        lemma_label_coords_row_in_range(g[h - 1], h - 1, lab, V_SIZE as int);
    }
}

/// Every coordinate a cluster index holds lies on the grid.
pub proof fn lemma_label_coords_in_range(g: Seq<Seq<Label>>, lab: Label)
    ensures
        coords_in_range(label_coords(g, lab)),
{
    lemma_label_coords_upto_in_range(g, lab, H_SIZE as int);
}

/// Builds the cluster index: one cluster per trainable label, in the fixed
/// order Red, Blue, Yellow, each holding every coordinate currently bearing
/// that label, in row-major scan order. White, Black and Unlabeled cells are
/// excluded entirely.
pub fn map_trained_colors(color_map: &ColorMap) -> (maps: Vec<TrainedMap>)
    requires
        grid_wf(grid_view(*color_map)),
    ensures
        maps@.len() == 3,
        maps@[0]@ == label_coords(grid_view(*color_map), Label::Red),
        maps@[1]@ == label_coords(grid_view(*color_map), Label::Blue),
        maps@[2]@ == label_coords(grid_view(*color_map), Label::Yellow),
{
    let ghost g = grid_view(*color_map);
    let mut red_map: TrainedMap = Vec::new();
    let mut blue_map: TrainedMap = Vec::new();
    let mut yellow_map: TrainedMap = Vec::new();

    let mut h: usize = 0;
    while h < H_SIZE
        invariant
            grid_wf(g),
            g == grid_view(*color_map),
            h <= H_SIZE,
            red_map@ == label_coords_upto(g, Label::Red, h as int),
            blue_map@ == label_coords_upto(g, Label::Blue, h as int),
            yellow_map@ == label_coords_upto(g, Label::Yellow, h as int),
        decreases H_SIZE - h,
    {
        let mut v: usize = 0;
        while v < V_SIZE
            invariant
                grid_wf(g),
                g == grid_view(*color_map),
                h < H_SIZE,
                v <= V_SIZE,
                red_map@ == label_coords_upto(g, Label::Red, h as int) + label_coords_row(
                    g[h as int],
                    h as int,
                    Label::Red,
                    v as int,
                ),
                blue_map@ == label_coords_upto(g, Label::Blue, h as int) + label_coords_row(
                    g[h as int],
                    h as int,
                    Label::Blue,
                    v as int,
                ),
                yellow_map@ == label_coords_upto(g, Label::Yellow, h as int) + label_coords_row(
                    g[h as int],
                    h as int,
                    Label::Yellow,
                    v as int,
                ),
            decreases V_SIZE - v,
        {
            let color = color_map[h][v];
            match color {
                Label::Red => red_map.push((h, v)),
                Label::Blue => blue_map.push((h, v)),
                Label::Yellow => yellow_map.push((h, v)),
                Label::White => (),
                Label::Black => (),
                Label::Unlabeled => (),
            }
            v = v + 1;
        }
        proof {
            assert(label_coords_upto(g, Label::Red, h as int + 1) == label_coords_upto(
                g,
                Label::Red,
                h as int,
            ) + label_coords_row(g[h as int], h as int, Label::Red, V_SIZE as int));
            assert(label_coords_upto(g, Label::Blue, h as int + 1) == label_coords_upto(
                g,
                Label::Blue,
                h as int,
            ) + label_coords_row(g[h as int], h as int, Label::Blue, V_SIZE as int));
            assert(label_coords_upto(g, Label::Yellow, h as int + 1) == label_coords_upto(
                g,
                Label::Yellow,
                h as int,
            ) + label_coords_row(g[h as int], h as int, Label::Yellow, V_SIZE as int));
        }
        h = h + 1;
    }
    proof {
        assert(red_map@ =~= label_coords(g, Label::Red));
        assert(blue_map@ =~= label_coords(g, Label::Blue));
        assert(yellow_map@ =~= label_coords(g, Label::Yellow));
    }

    let mut maps: Vec<TrainedMap> = Vec::new();
    maps.push(red_map);
    maps.push(blue_map);
    maps.push(yellow_map);
    maps
}

/// Whether the grid still holds a cell awaiting classification.
pub open spec fn has_unlabeled_spec(g: Seq<Seq<Label>>) -> bool {
    exists|h: int, v: int|
        0 <= h < g.len() && 0 <= v < g[h].len() && #[trigger] g[h][v] == Label::Unlabeled
}

/// Scans the grid for a cell that is still `Unlabeled`.
pub fn has_unlabeled(color_map: &ColorMap) -> (r: bool)
    requires
        grid_wf(grid_view(*color_map)),
    ensures
        r == has_unlabeled_spec(grid_view(*color_map)),
{
    let ghost g = grid_view(*color_map);
    let mut h: usize = 0;
    while h < H_SIZE
        invariant
            grid_wf(g),
            g == grid_view(*color_map),
            h <= H_SIZE,
            forall|h2: int, v2: int|
                0 <= h2 < h && 0 <= v2 < g[h2].len() ==> #[trigger] g[h2][v2] != Label::Unlabeled,
        decreases H_SIZE - h,
    {
        let mut v: usize = 0;
        while v < V_SIZE
            invariant
                grid_wf(g),
                g == grid_view(*color_map),
                h < H_SIZE,
                v <= V_SIZE,
                forall|v2: int| 0 <= v2 < v ==> #[trigger] g[h as int][v2] != Label::Unlabeled,
            decreases V_SIZE - v,
        {
            let color = color_map[h][v];
            if color == Label::Unlabeled {
                return true;
            }
            v = v + 1;
        }
        h = h + 1;
    }
    false
}

} // verus!
