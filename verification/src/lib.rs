//! tacoshell: a window of its own for a terminal app.
//!
//! The library holds the parts of the wrapper that decide things: the terminal
//! grid that escape sequences are applied to, the bytes that keys and mouse
//! events turn into, the checks on the baked in configuration, the login and
//! kiosk bookkeeping, and the small rules around saved setups and PINs.
pub mod term;
pub mod text;
pub mod schema;
pub mod state;
pub mod config;
pub mod creds;
pub mod ui;
pub mod session;
pub mod cli;

use vstd::prelude::*;

verus! {

} // verus!
