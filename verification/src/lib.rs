//! Verified core of speedsun, a jumbling 3x3x3 cube simulator: the puzzle's
//! discrete vocabulary, twist notation, the keybind expression language,
//! the keybind pass that turns input into commands, the keyboard of the
//! keybind reference, the filters that style pieces, and the undo history.
pub mod puzzle;
pub mod text;
pub mod notation;
pub mod expr;
pub mod lexer;
pub mod parser;
pub mod input;
pub mod commands;
pub mod vars;
pub mod bindings;
pub mod keybinds;
pub mod defaults;
pub mod reference;
pub mod filters;
pub mod history;
pub mod view;
pub mod edges;
pub mod filter_edit;
pub mod editor;
