//! A terminal text editor's document and viewport engine: grapheme-aware
//! lines, a buffer of lines, search highlighting and a scrolling view.
pub mod text;
pub mod unicode;

pub mod annotatedstring;
pub mod buffer;
pub mod command;
pub mod commandbar;
pub mod documentstatus;
pub mod editor;
pub mod editorcommand;
pub mod geometry;
pub mod line;
pub mod matching;
pub mod messagebar;
pub mod statusbar;
pub mod tooltipbar;
pub mod view;
