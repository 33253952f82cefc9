//! Nearest-cluster color classification on a fixed 360 x 100 hue/lightness
//! grid. The first grid axis is cyclic with period 360, the second is linear.
//! Cells labeled with one of the trainable colors (Red, Blue, Yellow) seed
//! clusters; every unlabeled cell is assigned the label of the cluster whose
//! nearest member is closest under the cyclic distance metric.

pub mod classify;
pub mod distance;
pub mod grid;
pub mod label;
pub mod load;

pub use classify::{calc_result, classify_grid, run_classification, EmptyClusterError};
pub use distance::{calc_distance, H_SIZE, V_SIZE};
pub use grid::{has_unlabeled, map_trained_colors, ColorMap, TrainedMap};
pub use label::{label_pixel_color, Label};
pub use load::{csv_read, grid_from_records, LoadError};
