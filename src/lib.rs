//! A grid Snake game: the tick-based simulation, the input mapping, the pixel
//! layout of the grid and the choice of what to draw each frame.
pub mod geometry;
pub mod game;
pub mod input;
pub mod render;
pub mod layout;
pub mod laws;

pub use geometry::{Point, SnakeDirection};
pub use game::{Snake, Fruit, SnakeGameField, FrameOutcome, FRUIT_PLACEMENT_ATTEMPTS};
pub use input::{InputKey, KeyAction, GameKey, handle_input, last_game_key};
pub use render::{Primitive, DrawColor, DrawCommand, cell_index, frame_draw_commands};
pub use layout::{Quad, field_extent, gen_layout};
