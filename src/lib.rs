pub mod input;
pub mod keys;
pub mod motion;

pub use input::{Input, InputEvent, CLICK_DELAY_MS, MOUSE_SENSITIVITY, PITCH_LIMIT};
pub use keys::{Key, KeySet};
pub use motion::{MoveStep, MOVE_SPEED};
