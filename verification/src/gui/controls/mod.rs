pub mod button;
pub mod item_scroller;
pub mod progress_bar;
pub mod stack_panel;
pub mod text;
