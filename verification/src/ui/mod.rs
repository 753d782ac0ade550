//! What the terminal shows and how a line of input is understood.

pub mod pages;
