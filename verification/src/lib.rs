//! Network discovery core: host naming, address arithmetic, scan bookkeeping
//! and the state machines of the terminal front end.
pub mod strings;
pub mod hostname;
pub mod net;
pub mod emojis;
pub mod refresh;
pub mod clock;
pub mod resource_scaling;
pub mod host_up;
pub mod log;
pub mod lexical;
pub mod ip_address;
pub mod display_width;
pub mod ip_info;
pub mod collector;
pub mod ip_db;
pub mod mdns_info;
pub mod dns_sd;
pub mod error_box;
pub mod tui_model;
pub mod format;
pub mod table_pane;
pub mod log_scroll;
pub mod option_selector;
pub mod config_doc;
pub mod config_edit;
pub mod discovery;
pub mod keybindings;
pub mod port_scan;
pub mod theme;
pub mod dns_wire;
pub mod cfg_picker;
