//! Stackline: a falling-block puzzle game for the WASM-4 fantasy console.
//!
//! The game itself is [`game::Game`], whose every operation is proved
//! against the mathematical model in [`model`]; [`laws`] states what every
//! frame keeps true, and [`controls`] what each control and each piece draw
//! does. [`audio`] and [`display`] compute what the cartridge plays and
//! draws, and [`save`] the hi-score storage format.

pub mod types;
pub mod shapes;
pub mod board;
pub mod demo;
pub mod model;
pub mod game;
pub mod save;
pub mod laws;
pub mod controls;
pub mod audio;
pub mod display;
