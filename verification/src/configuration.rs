//! The settings of the game that are whole numbers and switches, and the
//! file the settings come from.

use crate::error::AirjumpError;
use crate::text::read_text;
use crate::text::reads_as;
use vstd::prelude::*;

verus! {

/// The name of the file that holds the settings.
pub const CONFIG_FILE: &'static str = "config.toml";

/// Settings of the window.
#[derive(Clone, Copy, PartialEq, Eq, Structural, Debug)]
pub struct Window {
    /// Samples per pixel.
    pub samples: u8,
    /// Whether frames wait for the screen.
    pub vsync: bool,
}

/// Settings of the main loop.
#[derive(Clone, Copy, PartialEq, Eq, Structural, Debug)]
pub struct EventLoop {
    /// The most ticks in a second.
    pub max_fps: u32,
}

/// Reads the settings file, given its bytes, as text. Fails with an input
/// error exactly when the bytes are not UTF-8.
pub fn read_configuration_file(bytes: Vec<u8>) -> (text: Result<String, AirjumpError>)
    ensures
        reads_as(bytes@, text),
{
    read_text(bytes)
}

} // verus!
