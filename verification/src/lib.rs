use vstd::prelude::*;

pub mod color;
pub mod rect;
pub mod font;
pub mod raster;
pub mod canvas;
pub mod fx;
pub mod widget;
pub mod trace;
pub mod button;
pub mod window;
pub mod tile;
pub mod scroller;
pub mod icon;
pub mod app_launcher;
pub mod digits;
pub mod taskbar;
pub mod metro_start;
pub mod neon_button;
pub mod label;
pub mod panel;
pub mod glass_panel;
pub mod futuristic_clock;
pub mod platform;
pub mod app;
pub mod desktop;
pub mod laws;
pub mod fbtext;
pub mod lines;
pub mod bump;
pub mod mesh;
pub mod blur;
pub mod toggle;

verus! {
}
