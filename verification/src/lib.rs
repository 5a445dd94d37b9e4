//! Verified core of a greetd login greeter: configuration defaults, the
//! login state machine, the keyboard table, greetd message classification
//! and the display bookkeeping around KMS scanout.

pub mod app;
pub mod background;
pub mod config;
pub mod greetd_client;
pub mod input;
pub mod keymap;
pub mod order;
pub mod power;
pub mod scanout;
pub mod session;
pub mod text;
