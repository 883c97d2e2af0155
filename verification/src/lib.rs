//! A scrollback pager for a terminal: vim-like motions over the lines of a
//! captured scrollback, visual selection, copying and regex search.
pub mod text;
pub mod utils;
pub mod selection;
pub mod term;
pub mod settings;
pub mod scrollback;
pub mod pager;
