//! The programs that run inside the sandbox, as far as they compute: the
//! driver of the OLED module and the drawing routines of the animations.

pub mod draw;
pub mod morse;
pub mod oled;
pub mod pacman;
pub mod script;
pub mod sensor;
