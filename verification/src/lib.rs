pub mod buffer;
pub mod charmap;
pub mod cli;
pub mod detector;
pub mod editor;
pub mod highlight;
pub mod keymap;
pub mod laws;
pub mod lines;
pub mod loaders;
pub mod nix;
pub mod plugin;
pub mod register;
pub mod renderer;
pub mod rope;
pub mod screen;
pub mod text;
pub mod types;
pub mod undo;
