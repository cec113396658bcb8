//! A pixel canvas whose texture copy is kept up to date with as little
//! transfer as possible.

pub mod buffer;
pub mod canvas;
pub mod color;
pub mod damage;
pub mod geometry;
pub mod grid;
pub mod raster;
pub mod sync;
pub mod texture;
pub mod tracking;

pub use buffer::PixelBuffer;
pub use canvas::App;
pub use color::Color;
pub use damage::{Bounds, Damage, DamageSummary, DamageTracker, DEFAULT_CAPACITY};
pub use geometry::{Position, Size};
pub use raster::Raster;
pub use sync::{choose_strategy, sync, Strategy, SyncError};
pub use texture::{Filter, Sampling};
