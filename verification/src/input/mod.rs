pub mod keys;

pub use keys::{is_ctrl_backslash, parse_key, ParsedKey};
pub mod mode;
pub mod focus;

pub use mode::{InputMode, InputModeError, Mode};
pub use focus::FocusTracker;
pub mod events;

pub use events::InputEvent;
