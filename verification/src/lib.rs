//! Core of an interactive viewer for large geo-referenced raster charts.
//!
//! The crate provides the verified heart of the viewer: the coordinate
//! pipeline that relates on-screen pixels to the chart's projected frame,
//! the coalescing tile-request queue and decode bookkeeping, the viewport
//! controller that clamps zoom and keeps the point under the cursor stable,
//! and the airport lookup worker over a geodetic feature table.
//!
//! Everything that touches a window system, a raster backend or the file
//! system lives outside this crate; the types here exchange only plain
//! values with that outer layer.

pub mod chart;
pub mod choices;
pub mod config;
pub mod find_dlg;
pub mod geom;
pub mod nasr;
pub mod text;
pub mod touch;
pub mod viewport;
