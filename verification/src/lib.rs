//! The decisions of a desktop shell's overlays, stated and proved.

pub mod a11y_menu;
pub mod app_grid;
pub mod app_menu;
pub mod area;
pub mod background_menu;
pub mod calendar;
pub mod calendar_view;
pub mod card;
pub mod config_error_notification;
pub mod dash;
pub mod date_menu;
pub mod dates;
pub mod dock;
pub mod emoji_picker;
pub mod end_session_dialog;
pub mod events;
pub mod exit_confirm_dialog;
pub mod flashspot;
pub mod grid_entry;
pub mod grid_input;
pub mod grid_layout;
pub mod grid_page;
pub mod grid_scene;
pub mod grid_swipe;
pub mod grid_view;
pub mod icon;
pub mod keys;
pub mod lists;
pub mod menu_picture;
pub mod menu_view;
pub mod message_layout;
pub mod message_list;
pub mod message_view;
pub mod node;
pub mod picker_place;
pub mod picker_view;
pub mod popover;
pub mod rect;
pub mod text;
pub mod time;
