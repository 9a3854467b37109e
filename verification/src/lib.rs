use vstd::prelude::*;

pub mod animation;
pub mod astro;
pub mod astro_app;
pub mod audio;
pub mod binary64;
pub mod calendar;
pub mod capacity;
pub mod cpu;
pub mod cpu_app;
pub mod dashboard;
pub mod dio;
pub mod dio_app;
pub mod error;
pub mod gpu;
pub mod gpu_app;
pub mod hardware;
pub mod input;
pub mod json;
pub mod keyval;
pub mod layout;
pub mod line_chart;
pub mod memory;
pub mod net;
pub mod net_app;
pub mod num;
pub mod picture;
pub mod poly;
pub mod poly_app;
pub mod process_table;
pub mod ram_app;
pub mod ring_buffer;
pub mod selection;
pub mod text;
pub mod theme;

verus! {

} // verus!
