pub mod text;
pub mod colour;
pub mod cli;
pub mod walk;
pub mod report;
pub mod timo;
