//! The verified core of a mobile UI toolkit: text selection, native text input, touch handling,
//! font selection and the remote inspection server.
pub mod android_keys;
pub mod android_surface;
pub mod android_tap;
pub mod android_touch;
pub mod android_window;
pub mod app_state;
pub mod cff_tables;
pub mod charmap;
pub mod devtool;
pub mod devtool_server;
pub mod element_id;
pub mod font_book;
pub mod font_database;
pub mod font_file;
pub mod font_system;
pub mod fonts;
pub mod geometry;
pub mod gesture;
pub mod http;
pub mod input;
pub mod ios_app;
pub mod ios_events;
pub mod ios_keys;
pub mod ios_policy;
pub mod ios_session;
pub mod ios_text;
pub mod ios_touch;
pub mod json;
pub mod keyboard_layout;
pub mod layout_tables;
pub mod pci;
pub mod platform_input;
pub mod selection;
pub mod selection_document;
pub mod selection_handler;
pub mod selection_probe;
pub mod selection_range;
pub mod sequence;
pub mod table_sums;
pub mod tap_server;
pub mod text;
pub mod token;
pub mod touch_events;
pub mod utf16;
pub mod words;
