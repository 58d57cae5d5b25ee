//! Verified core of the PixelStream palette streaming library.

pub mod backdrop;
pub mod bytes_order;
pub mod capture;
pub mod config_roundtrip;
pub mod convert;
pub mod convert_args;
pub mod custom_host;
pub mod demo_video;
pub mod dither;
pub mod fnv;
pub mod frame_hub;
pub mod frames;
pub mod gpu_layout;
pub mod ipsi;
pub mod lab_html;
pub mod local_http;
pub mod le;
pub mod palette_config;
pub mod palette_editor;
pub mod palette_lab_page;
pub mod overlay_hub;
pub mod palette_lut;
pub mod preview_debug;
pub mod preview_palette;
pub mod preview_throttle;
pub mod sample_ring;
pub mod settings;
pub mod stream_control;
pub mod stream_state;
pub mod swatch;
pub mod text;
pub mod wav;
