//! Battery state of wireless Razer mice as a system-tray icon: the choice of
//! icon, colour and notification for each battery reading, the bookkeeping of
//! connected devices, the user's theme preference, and the rasterisation of
//! the font-free SVG icon templates into straight-alpha RGBA pixels.

pub mod icon;
pub mod pixels;
pub mod text;
pub mod raster;
pub mod settings;
pub mod manager;
pub mod tray;
