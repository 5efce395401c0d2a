//! Input handling and screen logic of a small RP2040 game panel: eight
//! debounced key switches, a rotary encoder, a buzzer and an LCD status view.

pub mod buzzer;
pub mod encoder;
pub mod format;
pub mod panel;
pub mod switches;
