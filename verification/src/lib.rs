//! A cell grid that mirrors a remotely driven text display, and the draw
//! commands that keep a renderer in step with it.
//!
//! A [`Window`] owns one [`CharacterGrid`]. Row updates are written into the
//! grid cluster by cluster, scrolls move its cells in place, and every change
//! that the renderer has to learn of is appended to a [`DrawCommandBatcher`]
//! as a [`DrawCommand`]: rows are sent as [`LineFragment`]s, runs of cells
//! that share a style.

pub mod command;
pub mod fragment;
pub mod grid;
pub mod scroll;
pub mod style;
pub mod update;
pub mod window;

pub use command::{DrawCommand, DrawCommandBatcher, Real, WindowDrawCommand};
pub use fragment::{build_line_fragment, line_fragments, LineFragment};
pub use grid::{CharacterGrid, GridCell};
pub use scroll::scroll_cells;
pub use style::Style;
pub use update::{lay_out_clusters, modify_grid, GridLineCell};
pub use window::{AnchorInfo, Window, WindowAnchor, WindowType};
