//! Selection of base16 color themes and their propagation into a chezmoi
//! configuration document.
pub mod catalog;
pub mod color;
pub mod config;
pub mod error;
pub mod palette;
pub mod reload;
pub mod resolve;
