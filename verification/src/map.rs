//! The file the level comes from.

use crate::error::AirjumpError;
use crate::text::read_text;
use crate::text::reads_as;
use vstd::prelude::*;

verus! {

/// The name of the file that holds the level.
pub const MAP_FILE: &'static str = "map.svg";

/// Reads the level file, given its bytes, as text. Fails with an input error
/// exactly when the bytes are not UTF-8.
pub fn read_map_file(bytes: Vec<u8>) -> (text: Result<String, AirjumpError>)
    ensures
        reads_as(bytes@, text),
{
    read_text(bytes)
}

} // verus!
