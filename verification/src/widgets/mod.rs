//! Widgets: the state and decisions of buttons, button lists, frames, scrollbars and wrapped,
//! scrollable rich text. Drawing onto tiles is left to the callers.
pub mod button;
pub mod button_list;
pub mod format_state;
pub mod frame;
pub mod rich_text_writer;
pub mod rich_text_wrapper;
pub mod scrollbar;
pub mod scroll_log;
