//! The logic of a GPU-accelerated terminal emulator, verified.

pub mod action;
pub mod app;
pub mod app_keys;
pub mod app_laws;
pub mod app_mouse;
pub mod appicon;
pub mod bundled;
pub mod chrome;
pub mod cli;
pub mod decimal;
pub mod desktop;
pub mod dispatch_laws;
pub mod draw;
pub mod drawing_laws;
pub mod effect;
pub mod explorer;
pub mod explorer_laws;
pub mod frame;
pub mod frame_laws;
pub mod geometry;
pub mod gpu;
pub mod help;
pub mod icon;
pub mod icon_laws;
pub mod ide;
pub mod install;
pub mod install_laws;
pub mod instance;
pub mod key_laws;
pub mod keymap;
pub mod keys;
pub mod menu;
pub mod mouse_laws;
pub mod package_laws;
pub mod page_laws;
pub mod pane_laws;
pub mod panel_laws;
pub mod paths;
pub mod pkg;
pub mod plugins;
pub mod proc;
pub mod pty;
pub mod reload_laws;
pub mod report_laws;
pub mod row_laws;
pub mod scene;
pub mod shader;
pub mod strings;
pub mod text;
pub mod text_laws;
pub mod timing;
pub mod ui;
pub mod ui_laws;
pub mod value_laws;
pub mod widget;
pub mod window;
