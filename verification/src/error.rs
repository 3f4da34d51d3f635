//! Errors of the game.

use vstd::prelude::*;
use vstd::string::StringExecFns;

verus! {

/// What can stop the game from starting. Each kind carries the text of the
/// failure it stands for.
#[derive(Debug)]
pub enum AirjumpError {
    /// A file could not be read as text.
    Io(String),
    /// The configuration is not TOML.
    TomlParser(String),
    /// The configuration is TOML, but not a configuration.
    TomlDecode(String),
    /// The window could not be made.
    GliumWindow(String),
    /// The level is not SVG.
    Svg(String),
}

impl AirjumpError {
    /// The text carried by the error.
    pub open spec fn detail(self) -> Seq<char> {
        match self {
            AirjumpError::Io(e) => e@,
            AirjumpError::TomlParser(e) => e@,
            AirjumpError::TomlDecode(e) => e@,
            AirjumpError::GliumWindow(e) => e@,
            AirjumpError::Svg(e) => e@,
        }
    }

    /// What comes before the carried text in the message of the error.
    pub open spec fn heading(self) -> Seq<char> {
        match self {
            AirjumpError::Io(_) => "Io error: "@,
            AirjumpError::TomlParser(_) => "Toml parser error:\n"@,
            AirjumpError::TomlDecode(_) => "Toml decode error: "@,
            AirjumpError::GliumWindow(_) => "Glium window error: "@,
            AirjumpError::Svg(_) => "Svg parser error: "@,
        }
    }

    /// The message of the error: its heading, then the text it carries.
    pub fn message(&self) -> (text: String)
        ensures
            text@ == self.heading() + self.detail(),
    {
        match self {
            AirjumpError::Io(e) => String::from_str("Io error: ").concat(e.as_str()),
            AirjumpError::TomlParser(e) => String::from_str("Toml parser error:\n").concat(
                e.as_str(),
            ),
            AirjumpError::TomlDecode(e) => String::from_str("Toml decode error: ").concat(
                e.as_str(),
            ),
            AirjumpError::GliumWindow(e) => String::from_str("Glium window error: ").concat(
                e.as_str(),
            ),
            AirjumpError::Svg(e) => String::from_str("Svg parser error: ").concat(e.as_str()),
        }
    }
}

} // verus!
