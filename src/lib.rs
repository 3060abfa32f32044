pub mod instruction;
pub mod interpreter;
pub mod laws;
pub mod model;
pub mod screen;
pub mod sprite;

pub use instruction::{decode, Instruction};
pub use interpreter::Chip8;
pub use model::{Fault, Step};
pub use screen::{Screen, SCREEN_HEIGHT, SCREEN_WIDTH};
